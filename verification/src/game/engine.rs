use std::time::{Duration, SystemTime, SystemTimeError, UNIX_EPOCH};
use vstd::prelude::*;

use crate::game::amount::{
    lemma_mul_one, lemma_saturate_add, lemma_saturate_mul, saturate, saturating_mul,
    scale_percent, COOKIE,
};
use crate::game::defs::{
    building_table, buildings, cost_after, lemma_building_ids_unique, lemma_upgrade_ids_unique,
    upgrade_table, upgrades, Effect, UnlockCondition, UpgradeDef,
};
use crate::game::state::{
    count_of, first_entry, first_entry_from, lemma_first_entry_from, owned_view, BuildingState,
    GameState,
};

verus! {

// ── Clock ───────────────────────────────────────────────────────────────────────

#[verifier::external_type_specification]
#[verifier::external_body]
pub struct ExSystemTime(SystemTime);

#[verifier::external_type_specification]
#[verifier::external_body]
pub struct ExSystemTimeError(SystemTimeError);

/// `SystemTime::now`: the current time of the system clock. Nothing is
/// stated of it.
#[verifier::external_body]
fn system_time_now() -> SystemTime {
    SystemTime::now()
}

/// `SystemTime::duration_since`, taken from `UNIX_EPOCH`: the time elapsed
/// since the epoch, or an error for a time before it. Nothing is stated of
/// the result: both time values are opaque here.
#[verifier::external_body]
fn since_unix_epoch(t: &SystemTime) -> Result<Duration, SystemTimeError> {
    t.duration_since(UNIX_EPOCH)
}

/// `Duration::as_millis`: whole milliseconds of a duration. Nothing is
/// stated of it: the duration is opaque here.
#[verifier::external_body]
fn duration_millis(d: &Duration) -> u128 {
    d.as_millis()
}

/// The timestamp for a reading of the clock: the whole milliseconds since the
/// Unix epoch truncated to 64 bits, or 0 where the clock stood before the
/// epoch (`None`).
pub fn clock_millis(since_epoch: Option<u128>) -> (r: u64)
    ensures
        r == match since_epoch {
            Some(ms) => ms % 0x1_0000_0000_0000_0000,
            None => 0,
        },
{
    match since_epoch {
        Some(ms) => {
            let r = ms as u64;
            assert(r == ms % 0x1_0000_0000_0000_0000) by (bit_vector)
                requires
                    r == ms as u64,
            ;
            r
        },
        None => 0,
    }
}

/// Milliseconds since the Unix epoch by the system clock (0 for a clock set
/// before the epoch), truncated to 64 bits.
pub fn now_ms() -> u64 {
    let now = system_time_now();
    let since_epoch = match since_unix_epoch(&now) {
        Ok(d) => Some(duration_millis(&d)),
        Err(_) => None,
    };
    clock_millis(since_epoch)
}

// ── What the bought upgrades add up to ──────────────────────────────────────────

/// Whether upgrade `k` of the table is among the ids in `p`.
pub open spec fn bought(p: Set<Seq<char>>, k: int) -> bool {
    p.contains(upgrade_table()[k].id@)
}

/// Micro-cookies that an effect adds to each click.
pub open spec fn click_bonus_of(e: Effect) -> int {
    match e {
        Effect::ClickBonus(b) => b as int,
        _ => 0,
    }
}

/// Factor by which an effect multiplies each click.
pub open spec fn click_factor_of(e: Effect) -> int {
    match e {
        Effect::ClickMultiplier(f) => f as int,
        _ => 1,
    }
}

/// Factor by which an effect multiplies the production of building `id`.
pub open spec fn building_factor_of(e: Effect, id: Seq<char>) -> int {
    match e {
        Effect::BuildingMultiplier { id: b, factor } => if b@ == id {
            factor as int
        } else {
            1
        },
        _ => 1,
    }
}

/// Sum of the click bonuses of the bought upgrades among the first `n`.
pub open spec fn click_bonus_upto(p: Set<Seq<char>>, n: nat) -> int
    decreases n,
{
    if n == 0 {
        0
    } else {
        click_bonus_upto(p, (n - 1) as nat) + if bought(p, n - 1) {
            click_bonus_of(upgrade_table()[n - 1].effect)
        } else {
            0
        }
    }
}

/// Product of the click factors of the bought upgrades among the first `n`.
pub open spec fn click_factor_upto(p: Set<Seq<char>>, n: nat) -> int
    decreases n,
{
    if n == 0 {
        1
    } else {
        click_factor_upto(p, (n - 1) as nat) * if bought(p, n - 1) {
            click_factor_of(upgrade_table()[n - 1].effect)
        } else {
            1
        }
    }
}

/// Product of the factors for building `id` of the bought upgrades among
/// the first `n`.
pub open spec fn building_factor_upto(p: Set<Seq<char>>, id: Seq<char>, n: nat) -> int
    decreases n,
{
    if n == 0 {
        1
    } else {
        building_factor_upto(p, id, (n - 1) as nat) * if bought(p, n - 1) {
            building_factor_of(upgrade_table()[n - 1].effect, id)
        } else {
            1
        }
    }
}

/// `x` after the all-production multipliers of the bought upgrades among
/// the first `n`, applied in table order, each result rounded down and held
/// at most at `u128::MAX`.
pub open spec fn with_global_upto(p: Set<Seq<char>>, x: u128, n: nat) -> u128
    decreases n,
{
    if n == 0 {
        x
    } else {
        let y = with_global_upto(p, x, (n - 1) as nat);
        if bought(p, n - 1) {
            match upgrade_table()[n - 1].effect {
                Effect::AllCpsMultiplier(pct) => saturate(y * pct / 100),
                _ => y,
            }
        } else {
            y
        }
    }
}

pub(crate) proof fn lemma_nonneg_upto(p: Set<Seq<char>>, id: Seq<char>, n: nat)
    requires
        n <= upgrade_table().len(),
    ensures
        click_bonus_upto(p, n) >= 0,
        click_factor_upto(p, n) >= 0,
        building_factor_upto(p, id, n) >= 0,
    decreases n,
{
    if n > 0 {
        lemma_nonneg_upto(p, id, (n - 1) as nat);
        let a = click_factor_upto(p, (n - 1) as nat);
        let b = building_factor_upto(p, id, (n - 1) as nat);
        let f = if bought(p, n - 1) { click_factor_of(upgrade_table()[n - 1].effect) } else { 1 };
        let g = if bought(p, n - 1) {
            building_factor_of(upgrade_table()[n - 1].effect, id)
        } else {
            1
        };
        assert(a * f >= 0) by (nonlinear_arith)
            requires a >= 0, f >= 0;
        assert(b * g >= 0) by (nonlinear_arith)
            requires b >= 0, g >= 0;
    }
}

/// Cookies per click, in micro-cookies: one cookie plus the click bonuses,
/// times the click multipliers.
pub open spec fn cookies_per_click(p: Set<Seq<char>>) -> u128 {
    saturate(
        (COOKIE + click_bonus_upto(p, upgrade_table().len())) * click_factor_upto(
            p,
            upgrade_table().len(),
        ),
    )
}

proof fn lemma_click_factors_at_least_one(p: Set<Seq<char>>, n: nat)
    requires
        n <= upgrade_table().len(),
    ensures
        click_factor_upto(p, n) >= 1,
    decreases n,
{
    if n > 0 {
        lemma_click_factors_at_least_one(p, (n - 1) as nat);
        let k = n - 1;
        assert(click_factor_of(upgrade_table()[k].effect) >= 1) by {
            assert(k == 0 || k == 1 || k == 2 || k == 3 || k == 4 || k == 5 || k == 6 || k == 7 || k == 8 || k == 9 || k == 10 || k == 11 || k == 12 || k == 13 || k == 14 || k == 15 || k == 16 || k == 17 || k == 18 || k == 19 || k == 20 || k == 21 || k == 22 || k == 23 || k == 24 || k == 25 || k == 26 || k == 27 || k == 28 || k == 29 || k == 30 || k == 31);
        }
        let a = click_factor_upto(p, (n - 1) as nat);
        let f = if bought(p, k) { click_factor_of(upgrade_table()[k].effect) } else { 1 };
        assert(a * f >= 1) by (nonlinear_arith)
            requires a >= 1, f >= 1;
    }
}

/// A click always earns at least one cookie, whatever upgrades are bought.
pub proof fn lemma_click_earns_a_cookie(p: Set<Seq<char>>)
    ensures
        cookies_per_click(p) >= COOKIE,
{
    let n = upgrade_table().len();
    lemma_click_factors_at_least_one(p, n);
    lemma_nonneg_upto(p, Seq::empty(), n);
    let b = click_bonus_upto(p, n);
    let f = click_factor_upto(p, n);
    assert((COOKIE + b) * f >= COOKIE) by (nonlinear_arith)
        requires b >= 0, f >= 1;
}

proof fn lemma_no_upgrades_bought(id: Seq<char>, x: u128, n: nat)
    requires
        n <= upgrade_table().len(),
    ensures
        building_factor_upto(Set::<Seq<char>>::empty(), id, n) == 1,
        with_global_upto(Set::<Seq<char>>::empty(), x, n) == x,
    decreases n,
{
    if n > 0 {
        lemma_no_upgrades_bought(id, x, (n - 1) as nat);
        assert(!bought(Set::<Seq<char>>::empty(), n - 1));
    }
}

/// Each building kind produces its documented rate per unit owned before
/// any upgrade: a cursor 0.1 cookie per second, a grandma 0.5, a farm 4, a
/// mine 10, a factory 40, a bank 100, a temple 400 and a wizard tower 6,666.
pub proof fn lemma_documented_base_rates(s: &GameState)
    requires
        s.upgrades_purchased@ == Set::<Seq<char>>::empty(),
        s.buildings@.len() == 1,
    ensures
        ({
            let id = s.buildings@[0].id@;
            let c = s.buildings@[0].count as int;
            &&& id == "cursor"@ ==> cookies_per_second(s) == c * (COOKIE / 10)
            &&& id == "grandma"@ ==> cookies_per_second(s) == c * (COOKIE / 2)
            &&& id == "farm"@ ==> cookies_per_second(s) == c * (4 * COOKIE)
            &&& id == "mine"@ ==> cookies_per_second(s) == c * (10 * COOKIE)
            &&& id == "factory"@ ==> cookies_per_second(s) == c * (40 * COOKIE)
            &&& id == "bank"@ ==> cookies_per_second(s) == c * (100 * COOKIE)
            &&& id == "temple"@ ==> cookies_per_second(s) == c * (400 * COOKIE)
            &&& id == "wizard_tower"@ ==> cookies_per_second(s) == c * (6_666 * COOKIE)
        }),
{
    if s.buildings@[0].id@ == "cursor"@ {
        assert(building_table()[0].id@ == "cursor"@);
        lemma_single_entry_rate(s, 0);
    }
    if s.buildings@[0].id@ == "grandma"@ {
        assert(building_table()[1].id@ == "grandma"@);
        lemma_single_entry_rate(s, 1);
    }
    if s.buildings@[0].id@ == "farm"@ {
        assert(building_table()[2].id@ == "farm"@);
        lemma_single_entry_rate(s, 2);
    }
    if s.buildings@[0].id@ == "mine"@ {
        assert(building_table()[3].id@ == "mine"@);
        lemma_single_entry_rate(s, 3);
    }
    if s.buildings@[0].id@ == "factory"@ {
        assert(building_table()[4].id@ == "factory"@);
        lemma_single_entry_rate(s, 4);
    }
    if s.buildings@[0].id@ == "bank"@ {
        assert(building_table()[5].id@ == "bank"@);
        lemma_single_entry_rate(s, 5);
    }
    if s.buildings@[0].id@ == "temple"@ {
        assert(building_table()[6].id@ == "temple"@);
        lemma_single_entry_rate(s, 6);
    }
    if s.buildings@[0].id@ == "wizard_tower"@ {
        assert(building_table()[7].id@ == "wizard_tower"@);
        lemma_single_entry_rate(s, 7);
    }
}

proof fn lemma_single_entry_rate(s: &GameState, k: int)
    requires
        s.upgrades_purchased@ == Set::<Seq<char>>::empty(),
        s.buildings@.len() == 1,
        0 <= k < building_table().len(),
        s.buildings@[0].id@ == building_table()[k].id@,
    ensures
        cookies_per_second(s) == s.buildings@[0].count * building_table()[k].base_cps,
{
    let p = s.upgrades_purchased@;
    let id = s.buildings@[0].id@;
    let c = s.buildings@[0].count;
    let bs = owned_view(s.buildings@);
    assert(bs =~= seq![(id, c)]);
    assert(bs.drop_last() =~= Seq::<(Seq<char>, u32)>::empty());
    assert(raw_cps(p, bs) == raw_cps(p, bs.drop_last()) + entry_cps(p, (id, c)));
    lemma_no_upgrades_bought(id, 0, upgrade_table().len());
    lemma_def_index_of_kind(k);
    let rate = building_table()[k].base_cps;
    assert(rate <= 6_666_000_000) by {
        assert(k == 0 || k == 1 || k == 2 || k == 3 || k == 4 || k == 5 || k == 6 || k == 7);
    }
    assert(rate * c * 1 == c * rate && c * rate <= u128::MAX && c * rate >= 0) by (nonlinear_arith)
        requires c <= u32::MAX, 0 <= rate <= 6_666_000_000;
    let r = raw_cps(p, bs);
    assert(r == c * rate);
    lemma_no_upgrades_bought(id, saturate(r), upgrade_table().len());
}

/// The click chain moves with click upgrades alone: where no bought
/// upgrade adds to or multiplies clicks, the panel offers no upgrade that
/// waits for a click upgrade to be bought (`ClickUpgradeCount(n)` with
/// `n >= 1`), whatever other upgrades are bought.
pub proof fn lemma_click_chain_waits_for_click_upgrades(s: &GameState)
    requires
        forall|k: int|
            0 <= k < upgrade_table().len() && s.upgrades_purchased@.contains(
                #[trigger] upgrade_table()[k].id@,
            ) ==> !(upgrade_table()[k].effect is ClickBonus) && !(
            upgrade_table()[k].effect is ClickMultiplier),
    ensures
        forall|i: int, k: int|
            #![trigger slots_of(s)[i], upgrade_table()[k]]
            0 <= i < slots_of(s).len() && 0 <= k < upgrade_table().len() && (
            slots_of(s)[i] matches Slot::Upgrade { id, .. } && id == upgrade_table()[k].id@)
                ==> !(upgrade_table()[k].unlock matches UnlockCondition::ClickUpgradeCount(n) && n
                >= 1),
{
    let p = s.upgrades_purchased@;
    lemma_no_click_upgrades_counted(p, upgrade_table().len());
    lemma_panel_shows_what_can_be_bought(s);
    lemma_upgrade_ids_unique();
    assert forall|i: int, k: int|
        #![trigger slots_of(s)[i], upgrade_table()[k]]
        0 <= i < slots_of(s).len() && 0 <= k < upgrade_table().len() && (
        slots_of(s)[i] matches Slot::Upgrade { id, .. } && id == upgrade_table()[k].id@) implies !(
    upgrade_table()[k].unlock matches UnlockCondition::ClickUpgradeCount(n) && n >= 1) by {
        assert(slots_of(s)[i] == slots_of(s)[i]);
        if exists|j: int|
            0 <= j < upgrade_table().len() && upgrade_offered(s, j) && slots_of(s)[i]
                == #[trigger] upgrade_slot(j) {
            let j = choose|j: int|
                0 <= j < upgrade_table().len() && upgrade_offered(s, j) && slots_of(s)[i]
                    == #[trigger] upgrade_slot(j);
            assert(j == k);
        } else {
            let j = choose|j: int|
                0 <= j < building_table().len() && building_offered(s, j) && slots_of(s)[i]
                    == #[trigger] building_slot(s, j);
        }
    }
}

/// The places in the table of the bought upgrades among the first `n` that
/// add to or multiply clicks.
pub open spec fn bought_click_upgrades_below(p: Set<Seq<char>>, n: int) -> Set<int> {
    Set::new(
        |j: int|
            0 <= j < n && p.contains(upgrade_table()[j].id@) && (upgrade_table()[j].effect is ClickBonus
                || upgrade_table()[j].effect is ClickMultiplier),
    )
}

proof fn lemma_click_count_is_set_size(p: Set<Seq<char>>, n: nat)
    requires
        n <= upgrade_table().len(),
    ensures
        bought_click_upgrades_below(p, n as int).finite(),
        bought_click_upgrades_below(p, n as int).len() == click_upgrades_upto(p, n),
    decreases n,
{
    let cur = bought_click_upgrades_below(p, n as int);
    if n == 0 {
        assert(cur =~= Set::<int>::empty());
    } else {
        lemma_click_count_is_set_size(p, (n - 1) as nat);
        let prev = bought_click_upgrades_below(p, n - 1);
        let j = n - 1;
        if p.contains(upgrade_table()[j].id@) && is_click_effect(upgrade_table()[j].effect) {
            assert(cur =~= prev.insert(j));
            assert(!prev.contains(j));
        } else {
            assert(cur =~= prev);
        }
    }
}

/// An upgrade of the click chain, one that waits for `n` click upgrades
/// (`ClickUpgradeCount(n)`), is in the panel exactly when it is not bought
/// yet, its cost is in hand, and at least `n` of the bought upgrades add to
/// or multiply clicks; other bought upgrades do not count.
pub proof fn lemma_click_chain_counts_click_upgrades(s: &GameState)
    ensures
        bought_click_upgrades_below(s.upgrades_purchased@, upgrade_table().len() as int).finite(),
        forall|k: int|
            0 <= k < upgrade_table().len() && (#[trigger] upgrade_table()[k]).unlock is ClickUpgradeCount
                ==> (slots_of(s).contains(upgrade_slot(k)) <==> {
                &&& !s.upgrades_purchased@.contains(upgrade_table()[k].id@)
                &&& upgrade_table()[k].cost <= s.cookies
                &&& bought_click_upgrades_below(s.upgrades_purchased@, upgrade_table().len() as int).len()
                    >= upgrade_table()[k].unlock->ClickUpgradeCount_0
            }),
{
    lemma_click_count_is_set_size(s.upgrades_purchased@, upgrade_table().len());
    lemma_panel_shows_what_can_be_bought(s);
    assert forall|k: int|
        0 <= k < upgrade_table().len() && (#[trigger] upgrade_table()[k]).unlock is ClickUpgradeCount
            implies (slots_of(s).contains(upgrade_slot(k)) <==> {
            &&& !s.upgrades_purchased@.contains(upgrade_table()[k].id@)
            &&& upgrade_table()[k].cost <= s.cookies
            &&& bought_click_upgrades_below(s.upgrades_purchased@, upgrade_table().len() as int).len()
                >= upgrade_table()[k].unlock->ClickUpgradeCount_0
        }) by {
        assert(slots_of(s).contains(upgrade_slot(k)) <==> upgrade_offered(s, k));
    }
}

proof fn lemma_no_click_upgrades_counted(p: Set<Seq<char>>, n: nat)
    requires
        n <= upgrade_table().len(),
        forall|k: int|
            0 <= k < upgrade_table().len() && p.contains(#[trigger] upgrade_table()[k].id@)
                ==> !(upgrade_table()[k].effect is ClickBonus) && !(
            upgrade_table()[k].effect is ClickMultiplier),
    ensures
        click_upgrades_upto(p, n) == 0,
    decreases n,
{
    if n > 0 {
        lemma_no_click_upgrades_counted(p, (n - 1) as nat);
        let t = upgrade_table();
        if p.contains(t[n - 1].id@) {
            assert(!is_click_effect(t[n - 1].effect));
        }
    }
}

/// Where the first building kind with id `id` stands in the table from
/// position `from` on, or -1.
pub open spec fn def_index_from(id: Seq<char>, from: int) -> int
    decreases building_table().len() - from,
{
    if from < 0 || from >= building_table().len() {
        -1
    } else if building_table()[from].id@ == id {
        from
    } else {
        def_index_from(id, from + 1)
    }
}

/// Where the building kind with id `id` stands in the table, or -1.
pub open spec fn def_index(id: Seq<char>) -> int {
    def_index_from(id, 0)
}

proof fn lemma_def_index_from(id: Seq<char>, from: int)
    requires
        0 <= from,
    ensures
        -1 <= def_index_from(id, from) < building_table().len(),
        def_index_from(id, from) >= 0 ==> building_table()[def_index_from(id, from)].id@ == id,
    decreases building_table().len() - from,
{
    if from < building_table().len() && building_table()[from].id@ != id {
        lemma_def_index_from(id, from + 1);
    }
}

proof fn lemma_def_index_finds(id: Seq<char>, from: int, k: int)
    requires
        0 <= from <= k < building_table().len(),
        building_table()[k].id@ == id,
    ensures
        from <= def_index_from(id, from) <= k,
        building_table()[def_index_from(id, from)].id@ == id,
    decreases k - from,
{
    if building_table()[from].id@ != id {
        lemma_def_index_finds(id, from + 1, k);
    }
}

/// The id of building kind `k` leads back to `k`.
pub(crate) proof fn lemma_def_index_of_kind(k: int)
    requires
        0 <= k < building_table().len(),
    ensures
        def_index(building_table()[k].id@) == k,
{
    lemma_def_index_finds(building_table()[k].id@, 0, k);
    lemma_building_ids_unique();
}

/// Production of one entry of the owned buildings, in micro-cookies per
/// second, before the all-production multipliers: nothing for an unknown
/// kind or no units.
pub open spec fn entry_cps(p: Set<Seq<char>>, e: (Seq<char>, u32)) -> int {
    let d = def_index(e.0);
    if e.1 == 0 || d < 0 {
        0
    } else {
        building_table()[d].base_cps * e.1 * building_factor_upto(p, e.0, upgrade_table().len())
    }
}

/// Production of all the entries, before the all-production multipliers.
pub open spec fn raw_cps(p: Set<Seq<char>>, bs: Seq<(Seq<char>, u32)>) -> int
    decreases bs.len(),
{
    if bs.len() == 0 {
        0
    } else {
        raw_cps(p, bs.drop_last()) + entry_cps(p, bs.last())
    }
}

proof fn lemma_entry_cps_nonneg(p: Set<Seq<char>>, e: (Seq<char>, u32))
    ensures
        entry_cps(p, e) >= 0,
{
    lemma_def_index_from(e.0, 0);
    lemma_nonneg_upto(p, e.0, upgrade_table().len());
    let d = def_index(e.0);
    if e.1 != 0 && d >= 0 {
        let a = building_table()[d].base_cps as int;
        let c = e.1 as int;
        let f = building_factor_upto(p, e.0, upgrade_table().len());
        assert(a * c * f >= 0) by (nonlinear_arith)
            requires a >= 0, c >= 0, f >= 0;
    }
}

proof fn lemma_raw_cps_nonneg(p: Set<Seq<char>>, bs: Seq<(Seq<char>, u32)>)
    ensures
        raw_cps(p, bs) >= 0,
    decreases bs.len(),
{
    if bs.len() > 0 {
        lemma_raw_cps_nonneg(p, bs.drop_last());
        lemma_entry_cps_nonneg(p, bs.last());
    }
}

/// Cookies per second, in micro-cookies: the production of all entries,
/// then the all-production multipliers.
pub open spec fn cookies_per_second(s: &GameState) -> u128 {
    with_global_upto(
        s.upgrades_purchased@,
        saturate(raw_cps(s.upgrades_purchased@, owned_view(s.buildings@))),
        upgrade_table().len(),
    )
}

// ── Helpers over the tables ─────────────────────────────────────────────────────

/// Whether `a` and `b` are the same id.
fn same_id(a: &str, b: &String) -> (r: bool)
    ensures
        r == (a@ == b@),
{
    String::from_str(a) == *b
}

/// Product of the factors for building `id` of the bought upgrades, held
/// at most at `u128::MAX`.
pub(crate) fn building_multiplier(upgrades: &Vec<UpgradeDef>, state: &GameState, id: &String) -> (r: u128)
    requires
        upgrades@ == upgrade_table(),
    ensures
        r == saturate(building_factor_upto(state.upgrades_purchased@, id@, upgrade_table().len())),
{
    let ghost p = state.upgrades_purchased@;
    let mut mult: u128 = 1;
    let n = upgrades.len();
    let mut k: usize = 0;
    while k < n
        invariant
            upgrades@ == upgrade_table(),
            n == upgrades@.len(),
            k <= n,
            p == state.upgrades_purchased@,
            mult == saturate(building_factor_upto(p, id@, k as nat)),
        decreases n - k,
    {
        let u = &upgrades[k];
        proof {
            lemma_nonneg_upto(p, id@, k as nat);
        }
        if state.upgrades_purchased.contains(u.id) {
            match &u.effect {
                Effect::BuildingMultiplier { id: b, factor } => {
                    if same_id(b, id) {
                        proof {
                            assert(bought(p, k as int));
                            assert(building_factor_of(upgrade_table()[k as int].effect, id@) == *factor);
                            lemma_saturate_mul(building_factor_upto(p, id@, k as nat), *factor as int);
                        }
                        mult = saturating_mul(mult, *factor);
                    }
                },
                _ => {},
            }
        }
        proof {
            let f = if bought(p, k as int) {
                building_factor_of(upgrade_table()[k as int].effect, id@)
            } else {
                1
            };
            lemma_mul_one(building_factor_upto(p, id@, k as nat), f);
        }
        k = k + 1;
    }
    mult
}

/// Returns (cookies_per_click, cookies_per_second) derived from current
/// buildings + upgrades, in micro-cookies.
pub fn compute_stats(state: &GameState) -> (r: (u128, u128))
    ensures
        r.0 == cookies_per_click(state.upgrades_purchased@),
        r.1 == cookies_per_second(state),
{
    let buildings = buildings();
    let upgrades = upgrades();
    let ghost p = state.upgrades_purchased@;

    let mut bonus: u128 = 0;
    let mut cpc_mult: u128 = 1;
    let n = upgrades.len();
    let mut k: usize = 0;
    while k < n
        invariant
            upgrades@ == upgrade_table(),
            n == upgrades@.len(),
            k <= n,
            p == state.upgrades_purchased@,
            bonus == saturate(click_bonus_upto(p, k as nat)),
            cpc_mult == saturate(click_factor_upto(p, k as nat)),
        decreases n - k,
    {
        let u = &upgrades[k];
        proof {
            lemma_nonneg_upto(p, Seq::empty(), k as nat);
        }
        if state.upgrades_purchased.contains(u.id) {
            match &u.effect {
                Effect::ClickBonus(b) => {
                    proof {
                        lemma_saturate_add(click_bonus_upto(p, k as nat), *b as int);
                    }
                    bonus = bonus.saturating_add(*b);
                },
                Effect::ClickMultiplier(f) => {
                    proof {
                        lemma_saturate_mul(click_factor_upto(p, k as nat), *f as int);
                    }
                    cpc_mult = saturating_mul(cpc_mult, *f);
                },
                _ => {},
            }
        }
        proof {
            let f = if bought(p, k as int) {
                click_factor_of(upgrade_table()[k as int].effect)
            } else {
                1
            };
            lemma_mul_one(click_factor_upto(p, k as nat), f);
        }
        k = k + 1;
    }
    proof {
        lemma_nonneg_upto(p, Seq::empty(), n as nat);
        lemma_saturate_add(click_bonus_upto(p, n as nat), COOKIE as int);
        lemma_saturate_mul(COOKIE + click_bonus_upto(p, n as nat), click_factor_upto(p, n as nat));
    }
    let cpc = saturating_mul(COOKIE.saturating_add(bonus), cpc_mult);

    let mut raw: u128 = 0;
    let m = state.buildings.len();
    let mut i: usize = 0;
    while i < m
        invariant
            upgrades@ == upgrade_table(),
            buildings@ == building_table(),
            m == state.buildings@.len(),
            i <= m,
            p == state.upgrades_purchased@,
            raw == saturate(raw_cps(p, owned_view(state.buildings@).subrange(0, i as int))),
        decreases m - i,
    {
        let b = &state.buildings[i];
        let ghost pre = owned_view(state.buildings@).subrange(0, i as int);
        assert(owned_view(state.buildings@).subrange(0, i + 1).drop_last() == pre);
        assert(owned_view(state.buildings@).subrange(0, i + 1).last() == b@);
        proof {
            lemma_raw_cps_nonneg(p, pre);
            lemma_entry_cps_nonneg(p, b@);
            lemma_def_index_from(b.id@, 0);
        }
        if b.count != 0 {
            // Find the first definition with this id.
            let nb = buildings.len();
            let mut d: usize = 0;
            while d < nb && !same_id(buildings[d].id, &b.id)
                invariant
                    buildings@ == building_table(),
                    nb == buildings@.len(),
                    d <= nb,
                    def_index(b.id@) == def_index_from(b.id@, d as int),
                decreases nb - d,
            {
                d = d + 1;
            }
            if d < nb {
                let mult = building_multiplier(&upgrades, state, &b.id);
                let base = buildings[d].base_cps;
                let ghost f = building_factor_upto(p, b.id@, upgrade_table().len());
                proof {
                    lemma_nonneg_upto(p, b.id@, upgrade_table().len());
                    assert(base * b.count >= 0) by (nonlinear_arith)
                        requires base >= 0, b.count >= 0;
                    lemma_saturate_mul(base * b.count, f);
                    lemma_saturate_add(raw_cps(p, pre), entry_cps(p, b@));
                }
                let contribution = saturating_mul(saturating_mul(base, b.count as u128), mult);
                raw = raw.saturating_add(contribution);
            }
        }
        i = i + 1;
    }
    assert(owned_view(state.buildings@).subrange(0, m as int) == owned_view(state.buildings@));

    let mut cps = raw;
    let ghost start = raw;
    let mut k: usize = 0;
    while k < n
        invariant
            upgrades@ == upgrade_table(),
            n == upgrades@.len(),
            k <= n,
            p == state.upgrades_purchased@,
            cps == with_global_upto(p, start, k as nat),
        decreases n - k,
    {
        let u = &upgrades[k];
        if state.upgrades_purchased.contains(u.id) {
            match &u.effect {
                Effect::AllCpsMultiplier(pct) => {
                    cps = scale_percent(cps, *pct);
                },
                _ => {},
            }
        }
        k = k + 1;
    }
    (cpc, cps)
}

// ── Clicks and passive income ───────────────────────────────────────────────────

/// The longest absence that earns passive income: 8 hours, in milliseconds.
pub const MAX_OFFLINE_MS: u64 = 28_800_000;

/// Milliseconds of passive income between the last tick at `last` and
/// `now`: none for a clock that went back, at most 8 hours.
pub open spec fn income_ms(last: u64, now: u64) -> int {
    if now <= last {
        0
    } else if now - last > MAX_OFFLINE_MS {
        MAX_OFFLINE_MS as int
    } else {
        now - last
    }
}

/// Micro-cookies earned passively by a tick at `now`: cookies per second
/// times the elapsed seconds, rounded down; nothing on the first tick.
pub open spec fn passive_gain(s: &GameState, now: u64) -> u128 {
    if s.last_tick_ms > 0 {
        saturate(cookies_per_second(s) * income_ms(s.last_tick_ms, now) / 1000)
    } else {
        0
    }
}

/// `s2` is `s1` after a tick at `now`.
pub open spec fn ticked(s1: &GameState, now: u64, s2: &GameState) -> bool {
    &&& s2.cookies == saturate(s1.cookies + passive_gain(s1, now))
    &&& s2.total_cookies == saturate(s1.total_cookies + passive_gain(s1, now))
    &&& s2.last_tick_ms == now
    &&& s2.buildings@ == s1.buildings@
    &&& s2.upgrades_purchased@ == s1.upgrades_purchased@
}

/// Apply passive income up to `now`, then record `now` as the last tick.
pub fn tick_at(state: &mut GameState, now: u64)
    ensures
        ticked(&*old(state), now, &*final(state)),
        final(state).total_cookies >= old(state).total_cookies,
        final(state).cookies >= old(state).cookies,
{
    if state.last_tick_ms > 0 {
        let elapsed: u64 = if now <= state.last_tick_ms {
            0
        } else if now - state.last_tick_ms > MAX_OFFLINE_MS {
            MAX_OFFLINE_MS
        } else {
            now - state.last_tick_ms
        };
        let (_, cps) = compute_stats(state);
        let q = cps / 1000;
        let m = cps % 1000;
        proof {
            assert(cps * elapsed / 1000 == q * elapsed + (m * elapsed) / 1000) by (nonlinear_arith)
                requires q == cps / 1000, m == cps % 1000, elapsed >= 0, cps >= 0;
            assert(m * elapsed < 1000 * 28_800_001) by (nonlinear_arith)
                requires 0 <= m < 1000, 0 <= elapsed <= 28_800_000;
            assert((m * elapsed) / 1000 >= 0) by (nonlinear_arith)
                requires 0 <= m, 0 <= elapsed;
            lemma_saturate_mul(q as int, elapsed as int);
            lemma_saturate_add(q * elapsed, (m * elapsed) / 1000);
        }
        let gained = saturating_mul(q, elapsed as u128).saturating_add((m * elapsed as u128) / 1000);
        state.cookies = state.cookies.saturating_add(gained);
        state.total_cookies = state.total_cookies.saturating_add(gained);
    }
    state.last_tick_ms = now;
}

/// Apply passive income since the last tick, then update the timestamp.
pub fn tick(state: &mut GameState)
    ensures
        ticked(&*old(state), final(state).last_tick_ms, &*final(state)),
        final(state).total_cookies >= old(state).total_cookies,
{
    let now = now_ms();
    tick_at(state, now);
}

/// Earn one click's worth of cookies.
pub fn click(state: &mut GameState)
    ensures
        final(state).cookies == saturate(old(state).cookies + cookies_per_click(
            old(state).upgrades_purchased@,
        )),
        final(state).total_cookies == saturate(old(state).total_cookies + cookies_per_click(
            old(state).upgrades_purchased@,
        )),
        final(state).last_tick_ms == old(state).last_tick_ms,
        final(state).buildings@ == old(state).buildings@,
        final(state).upgrades_purchased@ == old(state).upgrades_purchased@,
        final(state).total_cookies >= old(state).total_cookies,
{
    let (cpc, _) = compute_stats(state);
    state.cookies = state.cookies.saturating_add(cpc);
    state.total_cookies = state.total_cookies.saturating_add(cpc);
}

/// Passive income never exceeds 8 hours of production.
pub proof fn lemma_offline_gain_capped(s: &GameState, now: u64)
    ensures
        passive_gain(s, now) <= cookies_per_second(s) * 28_800,
{
    let c = cookies_per_second(s) as int;
    let e = income_ms(s.last_tick_ms, now);
    assert(c * e / 1000 <= c * 28_800) by (nonlinear_arith)
        requires 0 <= e <= 28_800_000, c >= 0;
    assert(c * e / 1000 >= 0) by (nonlinear_arith)
        requires 0 <= e, c >= 0;
}

// ── Slot system ─────────────────────────────────────────────────────────────────

/// Something that a slot of the panel offers for purchase.
pub enum SlotItem {
    Upgrade { id: String, cost: u128 },
    Building { id: String, cost: u128 },
}

/// A slot as plain values.
pub enum Slot {
    Upgrade { id: Seq<char>, cost: u128 },
    Building { id: Seq<char>, cost: u128 },
}

impl View for SlotItem {
    type V = Slot;

    open spec fn view(&self) -> Slot {
        match self {
            SlotItem::Upgrade { id, cost } => Slot::Upgrade { id: id@, cost: *cost },
            SlotItem::Building { id, cost } => Slot::Building { id: id@, cost: *cost },
        }
    }
}

/// Price of a slot's item, in micro-cookies.
pub open spec fn slot_cost(s: Slot) -> u128 {
    match s {
        Slot::Upgrade { cost, .. } => cost,
        Slot::Building { cost, .. } => cost,
    }
}

/// The slots of a list, as plain values.
pub open spec fn slots_view(v: Seq<SlotItem>) -> Seq<Slot> {
    v.map_values(|x: SlotItem| x@)
}

impl SlotItem {
    /// Price of the item, in micro-cookies.
    pub fn cost(&self) -> (c: u128)
        ensures
            c == slot_cost(self@),
    {
        match self {
            SlotItem::Upgrade { cost, .. } | SlotItem::Building { cost, .. } => *cost,
        }
    }
}

// ── Ordering by cost ──

/// Where the first slot costlier than `c` stands in `s` from `from` on, or
/// the length of `s` where none is.
pub open spec fn first_costlier_from(s: Seq<Slot>, c: u128, from: int) -> int
    decreases s.len() - from,
{
    if from < 0 || from >= s.len() {
        s.len() as int
    } else if slot_cost(s[from]) > c {
        from
    } else {
        first_costlier_from(s, c, from + 1)
    }
}

/// `s` with `x` put just after the slots that cost no more than it.
pub open spec fn insert_by_cost(s: Seq<Slot>, x: Slot) -> Seq<Slot> {
    s.insert(first_costlier_from(s, slot_cost(x), 0), x)
}

/// `s` ordered by cost, slots of equal cost kept in their order (a stable
/// sort: each slot in turn put after the slots before it that cost no more).
pub open spec fn sort_by_cost(s: Seq<Slot>) -> Seq<Slot>
    decreases s.len(),
{
    if s.len() == 0 {
        s
    } else {
        insert_by_cost(sort_by_cost(s.drop_last()), s.last())
    }
}

/// Costs never decrease along `s`.
pub open spec fn cost_sorted(s: Seq<Slot>) -> bool {
    forall|i: int, j: int| 0 <= i <= j < s.len() ==> slot_cost(s[i]) <= slot_cost(s[j])
}

proof fn lemma_first_costlier_from(s: Seq<Slot>, c: u128, from: int)
    requires
        0 <= from <= s.len(),
    ensures
        from <= first_costlier_from(s, c, from) <= s.len(),
        forall|j: int| from <= j < first_costlier_from(s, c, from) ==> slot_cost(s[j]) <= c,
        first_costlier_from(s, c, from) < s.len() ==> slot_cost(
            s[first_costlier_from(s, c, from)],
        ) > c,
    decreases s.len() - from,
{
    if from < s.len() && slot_cost(s[from]) <= c {
        lemma_first_costlier_from(s, c, from + 1);
    }
}

proof fn lemma_insert_by_cost(s: Seq<Slot>, x: Slot)
    ensures
        insert_by_cost(s, x).to_multiset() == s.to_multiset().insert(x),
        insert_by_cost(s, x).len() == s.len() + 1,
        cost_sorted(s) ==> cost_sorted(insert_by_cost(s, x)),
{
    broadcast use vstd::seq_lib::group_to_multiset_ensures;

    let j = first_costlier_from(s, slot_cost(x), 0);
    lemma_first_costlier_from(s, slot_cost(x), 0);
    let t = s.insert(j, x);
    assert(t.remove(j) =~= s);
    assert(t[j] == x);
    assert(t.to_multiset().remove(x) == s.to_multiset());
    assert(t.to_multiset().count(x) > 0);
    assert(t.to_multiset() =~= s.to_multiset().insert(x));
    if cost_sorted(s) {
        assert forall|a: int, b: int| 0 <= a <= b < t.len() implies slot_cost(t[a]) <= slot_cost(
            t[b],
        ) by {
            if a < j && b > j {
                assert(slot_cost(s[a]) <= slot_cost(x));
                if j < s.len() {
                    assert(slot_cost(s[j]) > slot_cost(x));
                    assert(slot_cost(s[j]) <= slot_cost(s[b - 1]));
                }
            } else if a < j && b == j {
                assert(slot_cost(s[a]) <= slot_cost(x));
            } else if a == j && b > j {
                assert(slot_cost(s[j]) > slot_cost(x));
                assert(slot_cost(s[j]) <= slot_cost(s[b - 1]));
            } else if a > j {
                assert(slot_cost(s[a - 1]) <= slot_cost(s[b - 1]));
            }
        }
    }
}

/// Ordering by cost gives the same slots, each as often, ordered by cost.
pub proof fn lemma_sort_by_cost(s: Seq<Slot>)
    ensures
        cost_sorted(sort_by_cost(s)),
        sort_by_cost(s).to_multiset() == s.to_multiset(),
        sort_by_cost(s).len() == s.len(),
    decreases s.len(),
{
    broadcast use vstd::seq_lib::group_to_multiset_ensures;

    if s.len() > 0 {
        lemma_sort_by_cost(s.drop_last());
        lemma_insert_by_cost(sort_by_cost(s.drop_last()), s.last());
        assert(s.drop_last().push(s.last()) =~= s);
    }
}

/// Orders `v` by cost, keeping slots of equal cost in their order.
fn sort_slots(v: &mut Vec<SlotItem>)
    ensures
        slots_view(final(v)@) == sort_by_cost(slots_view(old(v)@)),
{
    let ghost orig = slots_view(v@);
    let n = v.len();
    let mut i: usize = 0;
    while i < n
        invariant
            v@.len() == n,
            orig.len() == n,
            i <= n,
            slots_view(v@).subrange(0, i as int) == sort_by_cost(orig.subrange(0, i as int)),
            slots_view(v@).subrange(i as int, n as int) == orig.subrange(i as int, n as int),
        decreases n - i,
    {
        let ghost prefix = slots_view(v@).subrange(0, i as int);
        let ghost full = slots_view(v@);
        proof {
            lemma_sort_by_cost(orig.subrange(0, i as int));
            assert(full.subrange(i as int, n as int)[0] == full[i as int]);
            assert(slots_view(v@)[i as int] == orig[i as int]);
        }
        let x = v.remove(i);
        assert(slots_view(v@) =~= full.remove(i as int));
        let c = x.cost();
        assert(slots_view(v@).subrange(0, i as int) == prefix);
        let mut j: usize = 0;
        while j < i && v[j].cost() <= c
            invariant
                v@.len() == n - 1,
                i < n,
                j <= i,
                slots_view(v@).subrange(0, i as int) == prefix,
                first_costlier_from(prefix, c, 0) == first_costlier_from(prefix, c, j as int),
            decreases i - j,
        {
            assert(slots_view(v@)[j as int] == prefix[j as int]);
            j = j + 1;
        }
        proof {
            if j < i {
                assert(slots_view(v@)[j as int] == prefix[j as int]);
            }
        }
        let ghost rest = slots_view(v@).subrange(i as int, n - 1);
        v.insert(j, x);
        proof {
            assert(orig.subrange(0, i + 1).drop_last() =~= orig.subrange(0, i as int));
            assert(orig.subrange(0, i + 1).last() == orig[i as int]);
            assert(slots_view(v@).subrange(0, i + 1) =~= prefix.insert(j as int, x@));
            assert(rest =~= full.subrange(i + 1, n as int));
            assert(full.subrange(i + 1, n as int) =~= orig.subrange(i + 1, n as int)) by {
                assert forall|k: int| 0 <= k < n - i - 1 implies #[trigger] full.subrange(i + 1, n as int)[k]
                    == orig.subrange(i + 1, n as int)[k] by {
                    assert(full.subrange(i as int, n as int)[k + 1] == orig.subrange(i as int, n as int)[k + 1]);
                }
            }
            assert(slots_view(v@).subrange(i + 1, n as int) =~= rest);
        }
        i = i + 1;
    }
    assert(slots_view(v@) =~= slots_view(v@).subrange(0, n as int));
    assert(orig =~= orig.subrange(0, n as int));
}

// ── What the panel offers ──

/// Whether an effect belongs to the click chain.
pub open spec fn is_click_effect(e: Effect) -> bool {
    e is ClickBonus || e is ClickMultiplier
}

/// Number of click upgrades bought among the first `n` upgrades.
pub open spec fn click_upgrades_upto(p: Set<Seq<char>>, n: nat) -> nat
    decreases n,
{
    if n == 0 {
        0
    } else {
        click_upgrades_upto(p, (n - 1) as nat) + if bought(p, n - 1) && is_click_effect(
            upgrade_table()[n - 1].effect,
        ) {
            1nat
        } else {
            0nat
        }
    }
}

proof fn lemma_click_upgrades_bound(p: Set<Seq<char>>, n: nat)
    ensures
        click_upgrades_upto(p, n) <= n,
    decreases n,
{
    if n > 0 {
        lemma_click_upgrades_bound(p, (n - 1) as nat);
    }
}

/// Whether the unlock condition of `u` holds in `s` when `clicks` click
/// upgrades count as bought.
pub open spec fn unlocked_with(s: &GameState, u: UpgradeDef, clicks: int) -> bool {
    match u.unlock {
        UnlockCondition::Always => true,
        UnlockCondition::OwnBuilding { id, min } => count_of(owned_view(s.buildings@), id@) >= min,
        UnlockCondition::TotalCookies(n) => s.total_cookies >= n,
        UnlockCondition::ClickUpgradeCount(n) => clicks >= n,
    }
}

/// Whether the unlock condition of `u` holds in `s`.
pub open spec fn unlocked(s: &GameState, u: UpgradeDef) -> bool {
    unlocked_with(s, u, click_upgrades_upto(s.upgrades_purchased@, upgrade_table().len()) as int)
}

/// Whether upgrade `k` is offered in `s`: not bought yet, unlocked, and
/// affordable.
pub open spec fn upgrade_offered(s: &GameState, k: int) -> bool {
    &&& !bought(s.upgrades_purchased@, k)
    &&& unlocked(s, upgrade_table()[k])
    &&& upgrade_table()[k].cost <= s.cookies
}

/// The offered upgrades among the first `n`, in table order.
pub open spec fn upgrade_offers_upto(s: &GameState, n: nat) -> Seq<Slot>
    decreases n,
{
    if n == 0 {
        Seq::empty()
    } else {
        let prev = upgrade_offers_upto(s, (n - 1) as nat);
        if upgrade_offered(s, n - 1) {
            prev.push(
                Slot::Upgrade { id: upgrade_table()[n - 1].id@, cost: upgrade_table()[n - 1].cost },
            )
        } else {
            prev
        }
    }
}

/// Units owned of building kind `k`.
pub open spec fn owned_of_kind(s: &GameState, k: int) -> u32 {
    count_of(owned_view(s.buildings@), building_table()[k].id@)
}

/// Cost of the next unit of building kind `k` in `s`.
pub open spec fn next_cost_of_kind(s: &GameState, k: int) -> u128 {
    saturate(cost_after(building_table()[k].base_cost as int, owned_of_kind(s, k) as nat))
}

/// Whether building kind `k` is offered in `s`: owned, or affordable.
pub open spec fn building_offered(s: &GameState, k: int) -> bool {
    owned_of_kind(s, k) > 0 || next_cost_of_kind(s, k) <= s.cookies
}

/// The offered building kinds among the first `n`, in table order.
pub open spec fn building_offers_upto(s: &GameState, n: nat) -> Seq<Slot>
    decreases n,
{
    if n == 0 {
        Seq::empty()
    } else {
        let prev = building_offers_upto(s, (n - 1) as nat);
        if building_offered(s, n - 1) {
            prev.push(
                Slot::Building { id: building_table()[n - 1].id@, cost: next_cost_of_kind(s, n - 1) },
            )
        } else {
            prev
        }
    }
}

/// The offered upgrades, ordered by cost.
pub open spec fn upgrade_slots(s: &GameState) -> Seq<Slot> {
    sort_by_cost(upgrade_offers_upto(s, upgrade_table().len()))
}

/// The offered buildings, ordered by cost.
pub open spec fn building_slots(s: &GameState) -> Seq<Slot> {
    sort_by_cost(building_offers_upto(s, building_table().len()))
}

/// The slots of the panel: offered upgrades, then offered buildings, each
/// group ordered by cost.
pub open spec fn slots_of(s: &GameState) -> Seq<Slot> {
    upgrade_slots(s) + building_slots(s)
}

/// Whether `u` is unlocked in `state`, given the number of click upgrades
/// bought.
fn is_unlocked(u: &UpgradeDef, state: &GameState, click_upgrades_bought: u32) -> (r: bool)
    ensures
        r == unlocked_with(state, *u, click_upgrades_bought as int),
{
    match &u.unlock {
        UnlockCondition::Always => true,
        UnlockCondition::OwnBuilding { id, min } => state.building_count(id) >= *min,
        UnlockCondition::TotalCookies(n) => state.total_cookies >= *n,
        UnlockCondition::ClickUpgradeCount(n) => click_upgrades_bought >= *n,
    }
}

/// Ordered list of what appears in the expandable group.
/// Nothing appears until you can afford it or already own it — full
/// suspense mode.
///   1. Affordable unlocked upgrades (by cost asc)
///   2. Affordable buildings + buildings you already own (by cost asc)
pub fn available_slots(state: &GameState) -> (r: Vec<SlotItem>)
    ensures
        slots_view(r@) == slots_of(state),
{
    let buildings = buildings();
    let upgrades = upgrades();
    let ghost p = state.upgrades_purchased@;
    let n = upgrades.len();

    let mut clicks: u32 = 0;
    let mut k: usize = 0;
    while k < n
        invariant
            upgrades@ == upgrade_table(),
            n == upgrades@.len(),
            n == 32,
            k <= n,
            p == state.upgrades_purchased@,
            clicks == click_upgrades_upto(p, k as nat),
        decreases n - k,
    {
        proof {
            lemma_click_upgrades_bound(p, k as nat);
        }
        let u = &upgrades[k];
        if state.upgrades_purchased.contains(u.id) {
            match &u.effect {
                Effect::ClickBonus(_) | Effect::ClickMultiplier(_) => {
                    clicks = clicks + 1;
                },
                _ => {},
            }
        }
        k = k + 1;
    }

    // Upgrades: only unlocked AND affordable
    let mut upgrade_items: Vec<SlotItem> = Vec::new();
    let mut k: usize = 0;
    while k < n
        invariant
            upgrades@ == upgrade_table(),
            n == upgrades@.len(),
            k <= n,
            p == state.upgrades_purchased@,
            clicks == click_upgrades_upto(p, n as nat),
            slots_view(upgrade_items@) == upgrade_offers_upto(state, k as nat),
        decreases n - k,
    {
        let u = &upgrades[k];
        if !state.upgrades_purchased.contains(u.id) && is_unlocked(u, state, clicks) && u.cost
            <= state.cookies {
            let ghost before = upgrade_items@;
            upgrade_items.push(SlotItem::Upgrade { id: String::from_str(u.id), cost: u.cost });
            assert(slots_view(upgrade_items@) =~= slots_view(before).push(
                Slot::Upgrade { id: u.id@, cost: u.cost },
            ));
        }
        k = k + 1;
    }
    sort_slots(&mut upgrade_items);

    // Buildings: only if affordable or already owned (you see what you can
    // buy + what you have)
    let mut building_items: Vec<SlotItem> = Vec::new();
    let nb = buildings.len();
    let mut k: usize = 0;
    while k < nb
        invariant
            buildings@ == building_table(),
            nb == buildings@.len(),
            k <= nb,
            slots_view(building_items@) == building_offers_upto(state, k as nat),
        decreases nb - k,
    {
        let d = &buildings[k];
        let owned = state.building_count(d.id);
        let cost = d.next_cost(owned);
        if owned > 0 || cost <= state.cookies {
            let ghost before = building_items@;
            building_items.push(SlotItem::Building { id: String::from_str(d.id), cost });
            assert(slots_view(building_items@) =~= slots_view(before).push(
                Slot::Building { id: d.id@, cost },
            ));
        }
        k = k + 1;
    }
    sort_slots(&mut building_items);

    let ghost ups = upgrade_items@;
    let ghost bls = building_items@;
    upgrade_items.append(&mut building_items);
    assert(slots_view(upgrade_items@) =~= slots_view(ups) + slots_view(bls));
    upgrade_items
}

// ── Buying ──

/// The (id, count) entries after one more unit of building `id`: its first
/// entry counts one more, or a new entry with one unit comes last.
pub open spec fn add_unit(bs: Seq<(Seq<char>, u32)>, id: Seq<char>) -> Seq<(Seq<char>, u32)> {
    let k = first_entry(bs, id);
    if k >= 0 {
        bs.update(k, (id, (bs[k].1 + 1) as u32))
    } else {
        bs.push((id, 1u32))
    }
}

/// Buying slot `index` of `s` would take a building one unit past the
/// largest count that can be held.
pub open spec fn purchase_overflows(s: &GameState, index: int) -> bool {
    let slots = slots_of(s);
    &&& 0 <= index < slots.len()
    &&& match slots[index] {
        Slot::Building { id, cost } => cost <= s.cookies && count_of(owned_view(s.buildings@), id)
            == u32::MAX,
        _ => false,
    }
}

/// Whether buying slot `index` would take a building past the largest count
/// that can be held.
pub fn purchase_would_overflow(state: &GameState, index: usize) -> (r: bool)
    ensures
        r == purchase_overflows(state, index as int),
{
    let slots = available_slots(state);
    if index >= slots.len() {
        return false;
    }
    assert(slots[index as int]@ == slots_of(state)[index as int]);
    match &slots[index] {
        SlotItem::Building { id, cost } => *cost <= state.cookies && state.building_count(id)
            == u32::MAX,
        SlotItem::Upgrade { .. } => false,
    }
}

/// `s2` is `s1` after buying what slot `index` offers: where the slot
/// exists and its cost is in hand, the cost is paid and the upgrade is
/// bought or the building gets one more unit; otherwise nothing changes.
pub open spec fn bought_slot(s1: &GameState, index: int, s2: &GameState) -> bool {
    let slots = slots_of(s1);
    &&& s2.total_cookies == s1.total_cookies
    &&& s2.last_tick_ms == s1.last_tick_ms
    &&& if 0 <= index < slots.len() && slot_cost(slots[index]) <= s1.cookies {
        &&& s2.cookies == s1.cookies - slot_cost(slots[index])
        &&& match slots[index] {
            Slot::Upgrade { id, .. } => {
                &&& s2.upgrades_purchased@ == s1.upgrades_purchased@.insert(id)
                &&& s2.buildings@ == s1.buildings@
            },
            Slot::Building { id, .. } => {
                &&& owned_view(s2.buildings@) == add_unit(owned_view(s1.buildings@), id)
                &&& s2.upgrades_purchased@ == s1.upgrades_purchased@
            },
        }
    } else {
        &&& s2.cookies == s1.cookies
        &&& s2.buildings@ == s1.buildings@
        &&& s2.upgrades_purchased@ == s1.upgrades_purchased@
    }
}

/// A purchase, whatever slot it names, leaves the all-time total as it was
/// and takes cookies only out of those in hand: the cookies in hand never
/// rise above the all-time total.
pub proof fn lemma_purchase_keeps_cookies_within_total(s1: &GameState, index: int, s2: &GameState)
    requires
        bought_slot(s1, index, s2),
        s1.cookies <= s1.total_cookies,
    ensures
        s2.total_cookies == s1.total_cookies,
        s2.cookies <= s1.cookies,
        s2.cookies <= s2.total_cookies,
{
}

/// Buy whatever is in slot `index`, if there is such a slot and its cost is
/// in hand.
pub fn buy_slot(state: &mut GameState, index: usize)
    requires
        !purchase_overflows(&*old(state), index as int),
    ensures
        bought_slot(&*old(state), index as int, &*final(state)),
        final(state).total_cookies == old(state).total_cookies,
        final(state).cookies <= old(state).cookies,
{
    let slots = available_slots(state);
    if index >= slots.len() {
        return;
    }
    assert(slots[index as int]@ == slots_of(&*old(state))[index as int]);
    match &slots[index] {
        SlotItem::Upgrade { id, cost } => {
            if state.cookies >= *cost {
                state.cookies = state.cookies - *cost;
                state.upgrades_purchased.insert(id.clone());
            }
        },
        SlotItem::Building { id, cost } => {
            if state.cookies >= *cost {
                state.cookies = state.cookies - *cost;
                let ghost bs = owned_view(state.buildings@);
                let n = state.buildings.len();
                let mut k: usize = 0;
                while k < n && state.buildings[k].id != *id
                    invariant
                        n == state.buildings@.len(),
                        bs == owned_view(state.buildings@),
                        k <= n,
                        first_entry(bs, id@) == first_entry_from(bs, id@, k as int),
                    decreases n - k,
                {
                    k = k + 1;
                }
                if k < n {
                    let count = state.buildings[k].count;
                    state.buildings.set(k, BuildingState { id: id.clone(), count: count + 1 });
                    assert(owned_view(state.buildings@) =~= bs.update(
                        k as int,
                        (id@, (count + 1) as u32),
                    ));
                } else {
                    state.buildings.push(BuildingState { id: id.clone(), count: 1 });
                    assert(owned_view(state.buildings@) =~= bs.push((id@, 1u32)));
                }
            }
        },
    }
}

// ── Laws of the panel ──

/// The slot that offers upgrade `k`.
pub open spec fn upgrade_slot(k: int) -> Slot {
    Slot::Upgrade { id: upgrade_table()[k].id@, cost: upgrade_table()[k].cost }
}

/// The slot that offers building kind `k` in `s`.
pub open spec fn building_slot(s: &GameState, k: int) -> Slot {
    Slot::Building { id: building_table()[k].id@, cost: next_cost_of_kind(s, k) }
}

proof fn lemma_upgrade_offers_upto(s: &GameState, n: nat)
    requires
        n <= upgrade_table().len(),
    ensures
        forall|k: int| 0 <= k < n && upgrade_offered(s, k) ==> upgrade_offers_upto(s, n).contains(
            upgrade_slot(k),
        ),
        forall|i: int|
            0 <= i < upgrade_offers_upto(s, n).len() ==> exists|k: int|
                0 <= k < n && upgrade_offered(s, k) && #[trigger] upgrade_offers_upto(s, n)[i]
                    == upgrade_slot(k),
    decreases n,
{
    if n > 0 {
        lemma_upgrade_offers_upto(s, (n - 1) as nat);
        let prev = upgrade_offers_upto(s, (n - 1) as nat);
        let cur = upgrade_offers_upto(s, n);
        assert forall|k: int| 0 <= k < n && upgrade_offered(s, k) implies cur.contains(
            upgrade_slot(k),
        ) by {
            if k < n - 1 {
                let j = choose|j: int| 0 <= j < prev.len() && prev[j] == upgrade_slot(k);
                assert(cur[j] == prev[j]);
            } else {
                assert(cur[cur.len() - 1] == upgrade_slot(k));
            }
        }
        assert forall|i: int| 0 <= i < cur.len() implies exists|k: int|
            0 <= k < n && upgrade_offered(s, k) && #[trigger] cur[i] == upgrade_slot(k) by {
            if i < prev.len() {
                assert(cur[i] == prev[i]);
                let k = choose|k: int| 0 <= k < n - 1 && upgrade_offered(s, k) && prev[i] == upgrade_slot(k);
                assert(cur[i] == upgrade_slot(k));
            } else {
                assert(cur[i] == upgrade_slot(n - 1));
            }
        }
    }
}

proof fn lemma_building_offers_upto(s: &GameState, n: nat)
    requires
        n <= building_table().len(),
    ensures
        forall|k: int| 0 <= k < n && building_offered(s, k) ==> building_offers_upto(s, n).contains(
            building_slot(s, k),
        ),
        forall|i: int|
            0 <= i < building_offers_upto(s, n).len() ==> exists|k: int|
                0 <= k < n && building_offered(s, k) && #[trigger] building_offers_upto(s, n)[i]
                    == building_slot(s, k),
    decreases n,
{
    if n > 0 {
        lemma_building_offers_upto(s, (n - 1) as nat);
        let prev = building_offers_upto(s, (n - 1) as nat);
        let cur = building_offers_upto(s, n);
        assert forall|k: int| 0 <= k < n && building_offered(s, k) implies cur.contains(
            building_slot(s, k),
        ) by {
            if k < n - 1 {
                let j = choose|j: int| 0 <= j < prev.len() && prev[j] == building_slot(s, k);
                assert(cur[j] == prev[j]);
            } else {
                assert(cur[cur.len() - 1] == building_slot(s, k));
            }
        }
        assert forall|i: int| 0 <= i < cur.len() implies exists|k: int|
            0 <= k < n && building_offered(s, k) && #[trigger] cur[i] == building_slot(s, k) by {
            if i < prev.len() {
                assert(cur[i] == prev[i]);
                let k = choose|k: int|
                    0 <= k < n - 1 && building_offered(s, k) && prev[i] == building_slot(s, k);
                assert(cur[i] == building_slot(s, k));
            } else {
                assert(cur[i] == building_slot(s, n - 1));
            }
        }
    }
}

proof fn lemma_sorted_contains(s: Seq<Slot>, x: Slot)
    ensures
        sort_by_cost(s).contains(x) <==> s.contains(x),
{
    broadcast use vstd::seq_lib::group_to_multiset_ensures;

    lemma_sort_by_cost(s);
    assert(s.to_multiset().count(x) == sort_by_cost(s).to_multiset().count(x));
    assert(s.contains(x) <==> s.to_multiset().count(x) > 0);
    assert(sort_by_cost(s).contains(x) <==> sort_by_cost(s).to_multiset().count(x) > 0);
}

proof fn lemma_sorted_elements(s: Seq<Slot>, i: int)
    requires
        0 <= i < sort_by_cost(s).len(),
    ensures
        s.contains(sort_by_cost(s)[i]),
{
    lemma_sorted_contains(s, sort_by_cost(s)[i]);
}

/// The panel shows an upgrade exactly when it is not bought, unlocked and
/// affordable, and a building kind exactly when some of it is owned or its
/// next unit is affordable; it shows nothing else.
pub proof fn lemma_panel_shows_what_can_be_bought(s: &GameState)
    ensures
        forall|k: int|
            0 <= k < upgrade_table().len() ==> (slots_of(s).contains(upgrade_slot(k))
                <==> upgrade_offered(s, k)),
        forall|k: int|
            0 <= k < building_table().len() ==> (slots_of(s).contains(building_slot(s, k))
                <==> building_offered(s, k)),
        forall|i: int|
            0 <= i < slots_of(s).len() ==> (exists|k: int|
                0 <= k < upgrade_table().len() && upgrade_offered(s, k) && #[trigger] slots_of(s)[i]
                    == #[trigger] upgrade_slot(k)) || (exists|k: int|
                0 <= k < building_table().len() && building_offered(s, k) && slots_of(s)[i]
                    == #[trigger] building_slot(s, k)),
{
    let uo = upgrade_offers_upto(s, upgrade_table().len());
    let bo = building_offers_upto(s, building_table().len());
    let all = slots_of(s);
    lemma_upgrade_offers_upto(s, upgrade_table().len());
    lemma_building_offers_upto(s, building_table().len());
    lemma_upgrade_ids_unique();
    lemma_building_ids_unique();
    assert forall|k: int| 0 <= k < upgrade_table().len() implies (all.contains(upgrade_slot(k))
        <==> upgrade_offered(s, k)) by {
        lemma_sorted_contains(uo, upgrade_slot(k));
        lemma_sorted_contains(bo, upgrade_slot(k));
        if upgrade_offered(s, k) {
            let j = choose|j: int| 0 <= j < sort_by_cost(uo).len() && sort_by_cost(uo)[j] == upgrade_slot(k);
            assert(all[j] == upgrade_slot(k));
        }
        if all.contains(upgrade_slot(k)) {
            let j = choose|j: int| 0 <= j < all.len() && all[j] == upgrade_slot(k);
            if j < sort_by_cost(uo).len() {
                assert(uo.contains(upgrade_slot(k)));
            } else {
                assert(sort_by_cost(bo)[j - sort_by_cost(uo).len()] == upgrade_slot(k));
                assert(bo.contains(upgrade_slot(k)));
            }
            let i = choose|i: int| 0 <= i < uo.len() && uo[i] == upgrade_slot(k);
            if !(0 <= i < bo.len() && bo[i] == upgrade_slot(k)) {
                let k2 = choose|k2: int|
                    0 <= k2 < upgrade_table().len() && upgrade_offered(s, k2) && #[trigger] uo[i]
                        == upgrade_slot(k2);
                assert(upgrade_table()[k2].id@ == upgrade_table()[k].id@);
            }
            if bo.contains(upgrade_slot(k)) {
                let i2 = choose|i2: int| 0 <= i2 < bo.len() && bo[i2] == upgrade_slot(k);
                let k3 = choose|k3: int|
                    0 <= k3 < building_table().len() && building_offered(s, k3) && #[trigger] bo[i2]
                        == building_slot(s, k3);
            }
        }
    }
    assert forall|k: int| 0 <= k < building_table().len() implies (all.contains(building_slot(s, k))
        <==> building_offered(s, k)) by {
        lemma_sorted_contains(uo, building_slot(s, k));
        lemma_sorted_contains(bo, building_slot(s, k));
        if building_offered(s, k) {
            let j = choose|j: int| 0 <= j < sort_by_cost(bo).len() && sort_by_cost(bo)[j] == building_slot(s, k);
            assert(all[j + sort_by_cost(uo).len()] == building_slot(s, k));
        }
        if all.contains(building_slot(s, k)) {
            let j = choose|j: int| 0 <= j < all.len() && all[j] == building_slot(s, k);
            if j < sort_by_cost(uo).len() {
                assert(uo.contains(building_slot(s, k)));
                let i = choose|i: int| 0 <= i < uo.len() && uo[i] == building_slot(s, k);
                let k2 = choose|k2: int|
                    0 <= k2 < upgrade_table().len() && upgrade_offered(s, k2) && #[trigger] uo[i]
                        == upgrade_slot(k2);
            } else {
                assert(sort_by_cost(bo)[j - sort_by_cost(uo).len()] == building_slot(s, k));
                assert(bo.contains(building_slot(s, k)));
                let i = choose|i: int| 0 <= i < bo.len() && bo[i] == building_slot(s, k);
                let k2 = choose|k2: int|
                    0 <= k2 < building_table().len() && building_offered(s, k2) && #[trigger] bo[i]
                        == building_slot(s, k2);
                assert(building_table()[k2].id@ == building_table()[k].id@);
            }
        }
    }
    assert forall|i: int| 0 <= i < all.len() implies (exists|k: int|
        0 <= k < upgrade_table().len() && upgrade_offered(s, k) && #[trigger] all[i]
            == #[trigger] upgrade_slot(k)) || (exists|k: int|
        0 <= k < building_table().len() && building_offered(s, k) && all[i]
            == #[trigger] building_slot(s, k)) by {
        lemma_sort_by_cost(uo);
        if i < sort_by_cost(uo).len() {
            lemma_sorted_elements(uo, i);
            let j = choose|j: int| 0 <= j < uo.len() && uo[j] == sort_by_cost(uo)[i];
            assert(all[i] == uo[j]);
        } else {
            lemma_sorted_elements(bo, i - sort_by_cost(uo).len());
            let j = choose|j: int|
                0 <= j < bo.len() && bo[j] == sort_by_cost(bo)[i - sort_by_cost(uo).len()];
            assert(all[i] == bo[j]);
        }
    }
}

/// The panel lists the offered upgrades first, then the offered buildings,
/// each group by cost from the cheapest.
pub proof fn lemma_panel_order(s: &GameState)
    ensures
        slots_of(s) == upgrade_slots(s) + building_slots(s),
        cost_sorted(upgrade_slots(s)),
        cost_sorted(building_slots(s)),
        forall|i: int| 0 <= i < upgrade_slots(s).len() ==> #[trigger] upgrade_slots(s)[i] is Upgrade,
        forall|i: int|
            0 <= i < building_slots(s).len() ==> #[trigger] building_slots(s)[i] is Building,
{
    let uo = upgrade_offers_upto(s, upgrade_table().len());
    let bo = building_offers_upto(s, building_table().len());
    lemma_upgrade_offers_upto(s, upgrade_table().len());
    lemma_building_offers_upto(s, building_table().len());
    lemma_sort_by_cost(uo);
    lemma_sort_by_cost(bo);
    assert forall|i: int| 0 <= i < upgrade_slots(s).len() implies #[trigger] upgrade_slots(
        s,
    )[i] is Upgrade by {
        lemma_sorted_elements(uo, i);
        let j = choose|j: int| 0 <= j < uo.len() && uo[j] == sort_by_cost(uo)[i];
        let k = choose|k: int|
            0 <= k < upgrade_table().len() && upgrade_offered(s, k) && #[trigger] uo[j]
                == upgrade_slot(k);
    }
    assert forall|i: int| 0 <= i < building_slots(s).len() implies #[trigger] building_slots(
        s,
    )[i] is Building by {
        lemma_sorted_elements(bo, i);
        let j = choose|j: int| 0 <= j < bo.len() && bo[j] == sort_by_cost(bo)[i];
        let k = choose|k: int|
            0 <= k < building_table().len() && building_offered(s, k) && #[trigger] bo[j]
                == building_slot(s, k);
    }
}

/// Once bought, an upgrade is no longer offered.
pub proof fn lemma_bought_upgrade_leaves_panel(s1: &GameState, index: int, s2: &GameState)
    requires
        bought_slot(s1, index, s2),
        0 <= index < slots_of(s1).len(),
        slots_of(s1)[index] is Upgrade,
        slot_cost(slots_of(s1)[index]) <= s1.cookies,
    ensures
        forall|i: int|
            0 <= i < slots_of(s2).len() ==> !(#[trigger] slots_of(s2)[i] matches Slot::Upgrade {
                id,
                ..
            } && id == slots_of(s1)[index]->Upgrade_id),
{
    let id = slots_of(s1)[index]->Upgrade_id;
    assert(s2.upgrades_purchased@.contains(id));
    lemma_panel_shows_what_can_be_bought(s2);
    assert forall|i: int| 0 <= i < slots_of(s2).len() implies !(#[trigger] slots_of(s2)[i] matches Slot::Upgrade {
        id: x,
        ..
    } && x == id) by {
        if slots_of(s2)[i] is Upgrade {
            let k = choose|k: int|
                0 <= k < upgrade_table().len() && upgrade_offered(s2, k) && slots_of(s2)[i]
                    == #[trigger] upgrade_slot(k);
            assert(!s2.upgrades_purchased@.contains(upgrade_table()[k].id@));
        }
    }
}

/// One more unit of building `id` adds one to its count and leaves the
/// count of every other building as it was.
pub proof fn lemma_add_unit(bs: Seq<(Seq<char>, u32)>, id: Seq<char>, other: Seq<char>)
    requires
        count_of(bs, id) < u32::MAX,
    ensures
        count_of(add_unit(bs, id), id) == count_of(bs, id) + 1,
        other != id ==> count_of(add_unit(bs, id), other) == count_of(bs, other),
{
    let t = add_unit(bs, id);
    lemma_first_entry_from(bs, id, 0);
    lemma_first_entry_from(bs, other, 0);
    lemma_first_entry_from(t, id, 0);
    lemma_first_entry_from(t, other, 0);
    let k = first_entry(bs, id);
    if k >= 0 {
        assert(t[k].0 == id);
        assert(first_entry(t, id) == k) by {
            if first_entry(t, id) >= 0 && first_entry(t, id) < k {
                assert(t[first_entry(t, id)] == bs[first_entry(t, id)]);
            }
        }
        if other != id {
            let ko = first_entry(bs, other);
            let kt = first_entry(t, other);
            if ko >= 0 {
                assert(t[ko] == bs[ko]);
                if kt >= 0 && kt < ko {
                    assert(t[kt] == bs[kt] || kt == k);
                }
            }
            if kt >= 0 {
                assert(kt != k);
                assert(t[kt] == bs[kt]);
            }
        }
    } else {
        assert(t[bs.len() as int] == (id, 1u32));
        assert(first_entry(t, id) == bs.len()) by {
            if first_entry(t, id) >= 0 && first_entry(t, id) < bs.len() {
                assert(t[first_entry(t, id)] == bs[first_entry(t, id)]);
            }
        }
        if other != id {
            let ko = first_entry(bs, other);
            let kt = first_entry(t, other);
            if ko >= 0 {
                assert(t[ko] == bs[ko]);
            }
            if kt >= 0 {
                assert(kt < bs.len());
                assert(t[kt] == bs[kt]);
            }
        }
    }
}

/// Buying the slot of building kind `k` pays its cost and adds one unit of
/// that kind, and no other; the next unit then costs the base cost times 1.15
/// to the power of the units now owned, rounded up (see
/// `lemma_cost_is_rounded_up`).
pub proof fn lemma_buying_a_building_adds_one_unit(
    s1: &GameState,
    index: int,
    s2: &GameState,
    k: int,
)
    requires
        bought_slot(s1, index, s2),
        !purchase_overflows(s1, index),
        0 <= index < slots_of(s1).len(),
        0 <= k < building_table().len(),
        slots_of(s1)[index] == building_slot(s1, k),
        next_cost_of_kind(s1, k) <= s1.cookies,
    ensures
        s2.cookies == s1.cookies - next_cost_of_kind(s1, k),
        owned_of_kind(s2, k) == owned_of_kind(s1, k) + 1,
        forall|j: int|
            0 <= j < building_table().len() && j != k ==> #[trigger] owned_of_kind(s2, j)
                == owned_of_kind(s1, j),
        next_cost_of_kind(s2, k) == saturate(
            cost_after(building_table()[k].base_cost as int, (owned_of_kind(s1, k) + 1) as nat),
        ),
{
    lemma_building_ids_unique();
    let bs = owned_view(s1.buildings@);
    let id = building_table()[k].id@;
    lemma_add_unit(bs, id, id);
    assert forall|j: int| 0 <= j < building_table().len() && j != k implies #[trigger] owned_of_kind(
        s2,
        j,
    ) == owned_of_kind(s1, j) by {
        lemma_add_unit(bs, id, building_table()[j].id@);
    }
}

} // verus!
