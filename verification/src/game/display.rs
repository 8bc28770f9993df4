use vstd::prelude::*;

use crate::format::{cookies, cookies_text, lemma_cookies_text_plain};
use crate::game::amount::{lemma_saturate_mul, saturate, saturating_mul, COOKIE};
use crate::game::defs::{building_table, buildings, upgrade_table, upgrades};
use crate::game::engine::{
    available_slots, building_factor_upto, building_multiplier, compute_stats, cookies_per_click,
    cookies_per_second, def_index, def_index_from, lemma_def_index_of_kind, lemma_nonneg_upto,
    lemma_panel_shows_what_can_be_bought, owned_of_kind, slots_of, building_offered, building_slot,
    upgrade_offered, upgrade_slot, Slot, SlotItem,
};
use crate::game::state::{count_of, owned_view, GameState};
use crate::text::{
    decimal, json_escape, json_str, lemma_json_escape_concat, lemma_json_escape_plain, plain,
    push_decimal,
};

verus! {

// ── Main button ───────────────────────────────────────────────────────────────

/// Production of all owned units of building kind `k`, in micro-cookies
/// per second, before the all-production multipliers.
pub open spec fn kind_cps(s: &GameState, k: int) -> u128 {
    saturate(
        building_table()[k].base_cps * owned_of_kind(s, k) * building_factor_upto(
            s.upgrades_purchased@,
            building_table()[k].id@,
            upgrade_table().len(),
        ),
    )
}

/// The tooltip line for building kind `k`.
pub open spec fn building_line(s: &GameState, k: int) -> Seq<char> {
    "\n"@ + building_table()[k].icon@ + " "@ + building_table()[k].name@ + " x"@ + decimal(
        owned_of_kind(s, k) as nat,
    ) + "  ("@ + cookies_text(kind_cps(s, k)) + "/s)"@
}

/// The lines for the owned kinds among the first `n`, in table order.
pub open spec fn building_lines_upto(s: &GameState, n: nat) -> Seq<char>
    decreases n,
{
    if n == 0 {
        Seq::empty()
    } else {
        building_lines_upto(s, (n - 1) as nat) + if owned_of_kind(s, n - 1) > 0 {
            building_line(s, n - 1)
        } else {
            Seq::empty()
        }
    }
}

/// Whether some kind among the first `n` is owned.
pub open spec fn any_owned_upto(s: &GameState, n: nat) -> bool {
    exists|k: int| 0 <= k < n && owned_of_kind(s, k) > 0
}

/// The tooltip of the main button: cookies, rates, then the owned
/// buildings, if any.
pub open spec fn main_tooltip(s: &GameState) -> Seq<char> {
    "\u{1F36A} "@ + cookies_text(s.cookies) + " cookies\n\u{26A1} "@ + cookies_text(
        cookies_per_second(s),
    ) + "/sec  \u{F0CFD} "@ + cookies_text(cookies_per_click(s.upgrades_purchased@)) + "/click"@
        + if any_owned_upto(s, building_table().len()) {
        "\n\nBuildings:"@ + building_lines_upto(s, building_table().len())
    } else {
        Seq::empty()
    }
}

/// The text of the main button: the icon alone below one cookie, else the
/// icon and the cookies.
pub open spec fn main_text(s: &GameState) -> Seq<char> {
    if s.cookies < COOKIE {
        "\u{F0198}"@
    } else {
        "\u{F0198} "@ + cookies_text(s.cookies)
    }
}

/// Whether the panel offers some upgrade.
pub open spec fn offers_upgrade(s: &GameState) -> bool {
    exists|i: int| 0 <= i < slots_of(s).len() && #[trigger] slots_of(s)[i] is Upgrade
}

/// The waybar JSON of the main button.
pub open spec fn show_json(s: &GameState) -> Seq<char> {
    "{\"text\":\""@ + json_escape(main_text(s)) + "\",\"tooltip\":\""@ + json_escape(
        main_tooltip(s),
    ) + "\",\"class\":\""@ + (if offers_upgrade(s) {
        "has-upgrade"@
    } else {
        ""@
    }) + "\"}"@
}

/// Waybar JSON for the main cookie button.
pub fn show(state: &GameState) -> (r: String)
    ensures
        r@ == show_json(state),
{
    let (cpc, cps) = compute_stats(state);
    let building_defs = buildings();
    let upgrade_defs = upgrades();

    // ── Tooltip ──
    let mut tip = String::new();
    tip.append("\u{1F36A} ");
    tip.append(cookies(state.cookies).as_str());
    tip.append(" cookies\n\u{26A1} ");
    tip.append(cookies(cps).as_str());
    tip.append("/sec  \u{F0CFD} ");
    tip.append(cookies(cpc).as_str());
    tip.append("/click");

    // Buildings section
    let mut lines = String::new();
    let mut any_owned = false;
    let n = building_defs.len();
    let mut k: usize = 0;
    while k < n
        invariant
            building_defs@ == building_table(),
            upgrade_defs@ == upgrade_table(),
            n == building_table().len(),
            k <= n,
            lines@ == building_lines_upto(state, k as nat),
            any_owned == any_owned_upto(state, k as nat),
        decreases n - k,
    {
        let def = &building_defs[k];
        let count = state.building_count(def.id);
        if count > 0 {
            let id = String::from_str(def.id);
            let mult = building_multiplier(&upgrade_defs, state, &id);
            proof {
                let f = building_factor_upto(state.upgrades_purchased@, def.id@, upgrade_table().len());
                lemma_nonneg_upto(state.upgrades_purchased@, def.id@, upgrade_table().len());
                assert(def.base_cps * count >= 0) by (nonlinear_arith)
                    requires def.base_cps >= 0, count >= 0;
                lemma_saturate_mul(def.base_cps * count, f);
            }
            let bld_cps = saturating_mul(saturating_mul(def.base_cps, count as u128), mult);
            let ghost before = lines@;
            lines.append("\n");
            lines.append(def.icon);
            lines.append(" ");
            lines.append(def.name);
            lines.append(" x");
            push_decimal(&mut lines, count as u128);
            lines.append("  (");
            lines.append(cookies(bld_cps).as_str());
            lines.append("/s)");
            assert(lines@ =~= before + building_line(state, k as int));
            any_owned = true;
        } else {
            assert(lines@ =~= building_lines_upto(state, (k + 1) as nat));
        }
        k = k + 1;
    }
    if any_owned {
        tip.append("\n\nBuildings:");
        tip.append(lines.as_str());
    }
    assert(tip@ =~= main_tooltip(state));

    // Affordable upgrades are visible in the slot panel — just flag the
    // class
    let slots = available_slots(state);
    let mut has_upgrade = false;
    let m = slots.len();
    let mut i: usize = 0;
    while i < m && !has_upgrade
        invariant
            m == slots@.len(),
            i <= m,
            slots@.map_values(|x: SlotItem| x@) == slots_of(state),
            has_upgrade ==> offers_upgrade(state),
            !has_upgrade ==> forall|j: int| 0 <= j < i ==> !(slots_of(state)[j] is Upgrade),
        decreases m - i,
    {
        match &slots[i] {
            SlotItem::Upgrade { .. } => {
                assert(slots_of(state)[i as int] is Upgrade);
                has_upgrade = true;
            },
            _ => {},
        }
        i = i + 1;
    }

    // Main button text: icon only when 0 cookies, icon + count otherwise
    let mut text = String::new();
    if state.cookies < COOKIE {
        text.append("\u{F0198}");
    } else {
        text.append("\u{F0198} ");
        text.append(cookies(state.cookies).as_str());
    }
    let class = if has_upgrade {
        "has-upgrade"
    } else {
        ""
    };

    let mut out = String::new();
    out.append("{\"text\":\"");
    out.append(json_str(text.as_str()).as_str());
    out.append("\",\"tooltip\":\"");
    out.append(json_str(tip.as_str()).as_str());
    out.append("\",\"class\":\"");
    out.append(class);
    out.append("\"}");
    assert(out@ =~= show_json(state));
    out
}

// ── Slots ─────────────────────────────────────────────────────────────────────

/// Where the upgrade with id `id` stands in the table from `from` on, or -1.
pub open spec fn upgrade_index_from(id: Seq<char>, from: int) -> int
    decreases upgrade_table().len() - from,
{
    if from < 0 || from >= upgrade_table().len() {
        -1
    } else if upgrade_table()[from].id@ == id {
        from
    } else {
        upgrade_index_from(id, from + 1)
    }
}

/// The JSON of an empty slot, which waybar hides.
pub open spec fn empty_slot_json() -> Seq<char> {
    "{\"text\":\"\"}"@
}

/// The JSON of a slot with the given text, tooltip and class.
pub open spec fn slot_json(text: Seq<char>, tip: Seq<char>, class: Seq<char>) -> Seq<char> {
    "{\"text\":\""@ + json_escape(text) + "\",\"tooltip\":\""@ + json_escape(tip)
        + "\",\"class\":\""@ + class + "\"}"@
}

/// The waybar JSON of slot `index`: empty where there is no such slot.
pub open spec fn slot_json_of(s: &GameState, index: int) -> Seq<char> {
    let slots = slots_of(s);
    if index < 0 || index >= slots.len() {
        empty_slot_json()
    } else {
        match slots[index] {
            Slot::Upgrade { id, cost } => {
                let k = upgrade_index_from(id, 0);
                if k < 0 {
                    empty_slot_json()
                } else {
                    let u = upgrade_table()[k];
                    slot_json(
                        u.icon@ + " "@ + cookies_text(cost),
                        u.name@ + "\nCost: "@ + cookies_text(cost) + " \u{1F36A}\n"@ + u.description@,
                        "affordable"@,
                    )
                }
            },
            Slot::Building { id, cost } => {
                let k = def_index(id);
                if k < 0 {
                    empty_slot_json()
                } else {
                    let b = building_table()[k];
                    slot_json(
                        b.icon@ + " "@ + cookies_text(cost),
                        b.name@ + " (owned: "@ + decimal(
                            count_of(owned_view(s.buildings@), id) as nat,
                        ) + ")\nCost: "@ + cookies_text(cost) + " \u{1F36A}\n"@ + b.description@,
                        if cost <= s.cookies {
                            "affordable"@
                        } else {
                            "locked"@
                        },
                    )
                }
            },
        }
    }
}

/// Builds the JSON of a slot.
fn make_slot_json(text: &str, tip: &str, class: &str) -> (r: String)
    ensures
        r@ == slot_json(text@, tip@, class@),
{
    let mut out = String::new();
    out.append("{\"text\":\"");
    out.append(json_str(text).as_str());
    out.append("\",\"tooltip\":\"");
    out.append(json_str(tip).as_str());
    out.append("\",\"class\":\"");
    out.append(class);
    out.append("\"}");
    assert(out@ =~= slot_json(text@, tip@, class@));
    out
}

/// Waybar JSON for the Nth slot module. Empty text triggers hide-empty-text.
pub fn slot(state: &GameState, index: usize) -> (r: String)
    ensures
        r@ == slot_json_of(state, index as int),
{
    let slots = available_slots(state);
    let building_defs = buildings();
    let upgrade_defs = upgrades();

    if index >= slots.len() {
        return String::from_str("{\"text\":\"\"}");
    }
    assert(slots[index as int]@ == slots_of(state)[index as int]);
    match &slots[index] {
        SlotItem::Upgrade { id, cost } => {
            let n = upgrade_defs.len();
            let mut k: usize = 0;
            while k < n && String::from_str(upgrade_defs[k].id) != *id
                invariant
                    upgrade_defs@ == upgrade_table(),
                    n == upgrade_table().len(),
                    k <= n,
                    upgrade_index_from(id@, 0) == upgrade_index_from(id@, k as int),
                decreases n - k,
            {
                k = k + 1;
            }
            if k >= n {
                return String::from_str("{\"text\":\"\"}");
            }
            let def = &upgrade_defs[k];
            // Upgrades only appear when affordable — always show as
            // "affordable"
            let mut text = String::from_str(def.icon);
            text.append(" ");
            text.append(cookies(*cost).as_str());
            let mut tip = String::from_str(def.name);
            tip.append("\nCost: ");
            tip.append(cookies(*cost).as_str());
            tip.append(" \u{1F36A}\n");
            tip.append(def.description);
            let r = make_slot_json(text.as_str(), tip.as_str(), "affordable");
            assert(r@ =~= slot_json_of(state, index as int));
            r
        },
        SlotItem::Building { id, cost } => {
            let n = building_defs.len();
            let mut k: usize = 0;
            while k < n && String::from_str(building_defs[k].id) != *id
                invariant
                    building_defs@ == building_table(),
                    n == building_table().len(),
                    k <= n,
                    def_index(id@) == def_index_from(id@, k as int),
                decreases n - k,
            {
                k = k + 1;
            }
            if k >= n {
                return String::from_str("{\"text\":\"\"}");
            }
            let def = &building_defs[k];
            let owned = state.building_count(id.as_str());
            let class = if *cost <= state.cookies {
                "affordable"
            } else {
                "locked"
            };
            let mut text = String::from_str(def.icon);
            text.append(" ");
            text.append(cookies(*cost).as_str());
            let mut tip = String::from_str(def.name);
            tip.append(" (owned: ");
            push_decimal(&mut tip, owned as u128);
            tip.append(")\nCost: ");
            tip.append(cookies(*cost).as_str());
            tip.append(" \u{1F36A}\n");
            tip.append(def.description);
            let r = make_slot_json(text.as_str(), tip.as_str(), class);
            assert(r@ =~= slot_json_of(state, index as int));
            r
        },
    }
}

// ── Laws ────────────────────────────────────────────────────────────────────────

/// Whether `s` ends with `t`.
pub open spec fn ends_with(s: Seq<char>, t: Seq<char>) -> bool {
    t.len() <= s.len() && s.subrange(s.len() - t.len(), s.len() as int) == t
}

/// The main button's tooltip writes what a click earns, the amount that
/// `click` adds (`cookies_per_click` of the bought upgrades), in its short
/// form followed by "/click".
pub proof fn lemma_tooltip_shows_click_earnings(s: &GameState)
    ensures
        exists|a: Seq<char>, b: Seq<char>|
            show_json(s) == a + cookies_text(cookies_per_click(s.upgrades_purchased@)) + "/click"@
                + b,
{
    let x = cookies_text(cookies_per_click(s.upgrades_purchased@));
    let y = "/click"@;
    let head = "\u{1F36A} "@ + cookies_text(s.cookies) + " cookies\n\u{26A1} "@ + cookies_text(
        cookies_per_second(s),
    ) + "/sec  \u{F0CFD} "@;
    let rest = if any_owned_upto(s, building_table().len()) {
        "\n\nBuildings:"@ + building_lines_upto(s, building_table().len())
    } else {
        Seq::<char>::empty()
    };
    assert(main_tooltip(s) =~= head + x + y + rest);
    lemma_cookies_text_plain(cookies_per_click(s.upgrades_purchased@));
    reveal_strlit("/click");
    assert(plain(y)) by {
        assert(y =~= seq!['/', 'c', 'l', 'i', 'c', 'k']);
        assert forall|i: int| 0 <= i < y.len() implies ((#[trigger] y[i]) as u32) >= 0x20 && y[i]
            != '"' && y[i] != '\\' by {
            assert(i == 0 || i == 1 || i == 2 || i == 3 || i == 4 || i == 5);
        }
    }
    lemma_json_escape_plain(x);
    lemma_json_escape_plain(y);
    lemma_json_escape_concat(head + x + y, rest);
    lemma_json_escape_concat(head + x, y);
    lemma_json_escape_concat(head, x);
    let a = "{\"text\":\""@ + json_escape(main_text(s)) + "\",\"tooltip\":\""@ + json_escape(head);
    let b = json_escape(rest) + "\",\"class\":\""@ + (if offers_upgrade(s) {
        "has-upgrade"@
    } else {
        ""@
    }) + "\"}"@;
    assert(show_json(s) =~= a + x + y + b);
}

/// A building's slot is marked affordable exactly when its cost is covered
/// by the cookies in hand, and locked otherwise, whatever the all-time total.
pub proof fn lemma_building_slot_class(s: &GameState, index: int)
    requires
        0 <= index < slots_of(s).len(),
        slots_of(s)[index] is Building,
    ensures
        slots_of(s)[index]->Building_cost <= s.cookies ==> ends_with(
            slot_json_of(s, index),
            "\",\"class\":\""@ + "affordable"@ + "\"}"@,
        ),
        slots_of(s)[index]->Building_cost > s.cookies ==> ends_with(
            slot_json_of(s, index),
            "\",\"class\":\""@ + "locked"@ + "\"}"@,
        ),
{
    lemma_panel_shows_what_can_be_bought(s);
    let slot = slots_of(s)[index];
    assert(slot == slots_of(s)[index]);
    if exists|k: int|
        0 <= k < upgrade_table().len() && upgrade_offered(s, k) && slots_of(s)[index]
            == #[trigger] upgrade_slot(k) {
        let k = choose|k: int|
            0 <= k < upgrade_table().len() && upgrade_offered(s, k) && slots_of(s)[index]
                == #[trigger] upgrade_slot(k);
    } else {
        let k = choose|k: int|
            0 <= k < building_table().len() && building_offered(s, k) && slots_of(s)[index]
                == #[trigger] building_slot(s, k);
        lemma_def_index_of_kind(k);
        let id = slot->Building_id;
        let cost = slot->Building_cost;
        let b = building_table()[k];
        let text = b.icon@ + " "@ + cookies_text(cost);
        let tip = b.name@ + " (owned: "@ + decimal(count_of(owned_view(s.buildings@), id) as nat)
            + ")\nCost: "@ + cookies_text(cost) + " \u{1F36A}\n"@ + b.description@;
        let class = if cost <= s.cookies {
            "affordable"@
        } else {
            "locked"@
        };
        let front = "{\"text\":\""@ + json_escape(text) + "\",\"tooltip\":\""@ + json_escape(tip);
        let back = "\",\"class\":\""@ + class + "\"}"@;
        let j = slot_json_of(s, index);
        assert(j =~= front + back);
        assert(j.subrange(j.len() - back.len(), j.len() as int) =~= back);
    }
}

} // verus!
