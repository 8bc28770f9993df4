use waybar_cookie_clicker::game::engine::{
    available_slots, buy_slot, click, clock_millis, compute_stats, now_ms, purchase_would_overflow,
    tick, tick_at, SlotItem,
};
use waybar_cookie_clicker::game::state::{BuildingState, GameState};

/// Micro-cookies for an amount of cookies.
fn micro(x: f64) -> u128 {
    (x * 1_000_000.0).round() as u128
}

/// Cookies in an amount of micro-cookies.
fn whole(n: u128) -> f64 {
    n as f64 / 1_000_000.0
}

fn state_with_cookies(n: f64) -> GameState {
    GameState {
        cookies: micro(n),
        total_cookies: micro(n),
        ..Default::default()
    }
}

fn state_with_building(id: &str, count: u32) -> GameState {
    GameState {
        buildings: vec![BuildingState {
            id: id.into(),
            count,
        }],
        ..Default::default()
    }
}

// ── compute_stats ──────────────────────────────────────────────────────────

#[test]
fn base_stats_no_buildings_no_upgrades() {
    let state = GameState::default();
    let (cpc, cps) = compute_stats(&state);
    assert_eq!(whole(cpc), 1.0);
    assert_eq!(whole(cps), 0.0);
}

#[test]
fn one_cursor_produces_correct_cps() {
    let state = state_with_building("cursor", 1);
    let (_, cps) = compute_stats(&state);
    assert!((whole(cps) - 0.1).abs() < 1e-9);
}

#[test]
fn multiple_cursors_stack_linearly() {
    let state = state_with_building("cursor", 10);
    let (_, cps) = compute_stats(&state);
    assert!((whole(cps) - 1.0).abs() < 1e-9);
}

#[test]
fn click_bonus_upgrade_adds_to_cpc() {
    let mut state = GameState::default();
    state
        .upgrades_purchased
        .insert("reinforced_clicking".into());
    let (cpc, _) = compute_stats(&state);
    assert_eq!(whole(cpc), 2.0);
}

#[test]
fn click_multiplier_upgrade_doubles_cpc() {
    let mut state = GameState::default();
    state.upgrades_purchased.insert("iron_mouse".into());
    let (cpc, _) = compute_stats(&state);
    assert_eq!(whole(cpc), 2.0);
}

#[test]
fn building_multiplier_doubles_cps() {
    let mut state = state_with_building("cursor", 1);
    state.upgrades_purchased.insert("cursor_1".into());
    let (_, cps) = compute_stats(&state);
    assert!((whole(cps) - 0.2).abs() < 1e-9);
}

#[test]
fn global_cps_multiplier_applies_to_all() {
    let mut state = state_with_building("cursor", 10); // 1.0 cps
    state.upgrades_purchased.insert("global_1".into());
    let (_, cps) = compute_stats(&state);
    assert!((whole(cps) - 1.1).abs() < 1e-9);
}

#[test]
fn all_click_upgrades_give_twenty_per_click() {
    let mut state = GameState::default();
    for id in ["reinforced_clicking", "mouse_wheel", "plastic_mouse", "iron_mouse", "titanium_mouse"] {
        state.upgrades_purchased.insert(id.into());
    }
    let (cpc, _) = compute_stats(&state);
    assert_eq!(cpc, 20_000_000);
}

#[test]
fn stats_are_exact_with_every_multiplier() {
    let mut state = GameState {
        buildings: vec![
            BuildingState { id: "cursor".into(), count: 10 },
            BuildingState { id: "grandma".into(), count: 3 },
            BuildingState { id: "unknown".into(), count: 100 },
            BuildingState { id: "farm".into(), count: 0 },
        ],
        ..Default::default()
    };
    for id in ["cursor_1", "cursor_2", "grandma_1", "global_1", "global_2"] {
        state.upgrades_purchased.insert(id.into());
    }
    // cursors 10 * 0.1 * 4 = 4.0, grandmas 3 * 0.5 * 2 = 3.0; 7.0 * 1.1 * 1.1 = 8.47
    let (_, cps) = compute_stats(&state);
    assert_eq!(cps, 8_470_000);
}

#[test]
fn entries_for_the_same_building_each_produce() {
    let state = GameState {
        buildings: vec![
            BuildingState { id: "cursor".into(), count: 1 },
            BuildingState { id: "cursor".into(), count: 2 },
        ],
        ..Default::default()
    };
    let (_, cps) = compute_stats(&state);
    assert_eq!(cps, 300_000);
}

// ── click ──────────────────────────────────────────────────────────────────

#[test]
fn click_adds_cpc_to_cookies() {
    let mut state = GameState::default(); // cpc = 1.0
    click(&mut state);
    assert_eq!(whole(state.cookies), 1.0);
    assert_eq!(whole(state.total_cookies), 1.0);
}

#[test]
fn click_increments_total_cookies() {
    let mut state = state_with_cookies(50.0);
    click(&mut state);
    assert_eq!(whole(state.total_cookies), 51.0);
}

#[test]
fn click_saturates_at_the_largest_amount() {
    let mut state = GameState {
        cookies: u128::MAX - 1,
        total_cookies: u128::MAX,
        ..Default::default()
    };
    click(&mut state);
    assert_eq!(state.cookies, u128::MAX);
    assert_eq!(state.total_cookies, u128::MAX);
}

// ── tick ───────────────────────────────────────────────────────────────────

#[test]
fn tick_skips_income_when_last_tick_is_zero() {
    let mut state = state_with_building("cursor", 1);
    state.last_tick_ms = 0;
    tick(&mut state);
    assert_eq!(whole(state.cookies), 0.0);
}

#[test]
fn tick_applies_passive_income() {
    let mut state = state_with_building("cursor", 10); // 1.0 cps
    let now = std::time::SystemTime::now()
        .duration_since(std::time::UNIX_EPOCH)
        .unwrap()
        .as_millis() as u64;
    state.last_tick_ms = now - 2_000; // 2 seconds ago
    tick(&mut state);
    assert!(whole(state.cookies) >= 1.9 && whole(state.cookies) <= 2.1);
}

#[test]
fn tick_caps_offline_gain_at_8_hours() {
    let mut state = state_with_building("cursor", 10); // 1.0 cps
    state.last_tick_ms = 1; // far in the past → many hours
    tick(&mut state);
    let max_gain = 1.0 * 28_800.0;
    assert!(whole(state.cookies) <= max_gain + 0.001);
}

#[test]
fn tick_at_gains_exactly_and_records_the_time() {
    let mut state = state_with_building("cursor", 1); // 0.1 cps
    state.last_tick_ms = 1_000;
    tick_at(&mut state, 1_250); // 0.25 s
    assert_eq!(state.cookies, 25_000);
    assert_eq!(state.total_cookies, 25_000);
    assert_eq!(state.last_tick_ms, 1_250);
    tick_at(&mut state, 1_000 + 100_000_000); // far beyond 8 hours
    assert_eq!(state.cookies, 25_000 + 2_880_000_000);
    assert_eq!(state.last_tick_ms, 100_001_000);
}

#[test]
fn tick_at_gains_nothing_when_the_clock_went_back() {
    let mut state = state_with_building("cursor", 10);
    state.last_tick_ms = 5_000;
    tick_at(&mut state, 4_000);
    assert_eq!(state.cookies, 0);
    assert_eq!(state.last_tick_ms, 4_000);
}

#[test]
fn now_ms_reads_the_system_clock() {
    let before = std::time::SystemTime::now()
        .duration_since(std::time::UNIX_EPOCH)
        .unwrap()
        .as_millis() as u64;
    let now = now_ms();
    assert!(now >= before && now < before + 60_000);
}

// ── available_slots ────────────────────────────────────────────────────────

#[test]
fn no_slots_with_zero_cookies() {
    let state = GameState::default();
    assert!(available_slots(&state).is_empty());
}

#[test]
fn cursor_appears_when_affordable() {
    let state = state_with_cookies(15.0);
    let slots = available_slots(&state);
    assert!(
        slots
            .iter()
            .any(|s| matches!(s, SlotItem::Building { id, .. } if id == "cursor"))
    );
}

#[test]
fn owned_building_always_visible() {
    let state = state_with_building("cursor", 1); // 0 cookies but owns a cursor
    let slots = available_slots(&state);
    assert!(
        slots
            .iter()
            .any(|s| matches!(s, SlotItem::Building { id, .. } if id == "cursor"))
    );
}

#[test]
fn upgrade_only_visible_when_affordable() {
    // reinforced_clicking costs 100 — should not appear with 50 cookies
    let state = state_with_cookies(50.0);
    let slots = available_slots(&state);
    assert!(
        !slots
            .iter()
            .any(|s| matches!(s, SlotItem::Upgrade { id, .. } if id == "reinforced_clicking"))
    );

    // should appear with 100 cookies
    let state = state_with_cookies(100.0);
    let slots = available_slots(&state);
    assert!(
        slots
            .iter()
            .any(|s| matches!(s, SlotItem::Upgrade { id, .. } if id == "reinforced_clicking"))
    );
}

#[test]
fn locked_upgrade_never_appears_even_if_affordable() {
    // mouse_wheel requires 1 click upgrade already bought
    let state = state_with_cookies(500.0); // can afford mouse_wheel (500 cost) but no click upg bought
    let slots = available_slots(&state);
    assert!(
        !slots
            .iter()
            .any(|s| matches!(s, SlotItem::Upgrade { id, .. } if id == "mouse_wheel"))
    );
}

fn describe(slots: &[SlotItem]) -> Vec<(bool, String, u128)> {
    slots
        .iter()
        .map(|s| match s {
            SlotItem::Upgrade { id, cost } => (true, id.clone(), *cost),
            SlotItem::Building { id, cost } => (false, id.clone(), *cost),
        })
        .collect()
}

#[test]
fn slots_list_upgrades_then_buildings_by_cost() {
    let mut state = GameState {
        cookies: 2_000 * 1_000_000,
        total_cookies: 2_000 * 1_000_000,
        buildings: vec![
            BuildingState { id: "grandma".into(), count: 1 },
            BuildingState { id: "cursor".into(), count: 1 },
        ],
        ..Default::default()
    };
    state.upgrades_purchased.insert("reinforced_clicking".into());
    let slots = describe(&available_slots(&state));
    assert_eq!(
        slots,
        vec![
            (true, "mouse_wheel".to_string(), 500_000_000),
            (true, "cursor_1".to_string(), 1_000_000_000),
            (true, "grandma_1".to_string(), 1_000_000_000),
            (false, "cursor".to_string(), 17_250_000),
            (false, "grandma".to_string(), 115_000_000),
            (false, "farm".to_string(), 1_100_000_000),
        ]
    );
    for s in available_slots(&state) {
        assert!(s.cost() <= state.cookies);
    }
}

#[test]
fn owned_but_unaffordable_building_still_listed() {
    let state = state_with_building("wizard_tower", 3);
    let slots = describe(&available_slots(&state));
    assert_eq!(slots.len(), 1);
    assert_eq!(slots[0].1, "wizard_tower");
    assert!(slots[0].2 > state.cookies);
}

// ── buy_slot ───────────────────────────────────────────────────────────────

#[test]
fn buy_slot_deducts_cookies() {
    let mut state = state_with_cookies(15.0); // cursor costs 15
    buy_slot(&mut state, 0);
    assert!(whole(state.cookies) < 15.0);
}

#[test]
fn buy_slot_adds_building() {
    let mut state = state_with_cookies(15.0);
    buy_slot(&mut state, 0);
    assert_eq!(state.building_count("cursor"), 1);
}

#[test]
fn buy_slot_does_nothing_when_unaffordable() {
    let mut state = GameState::default(); // 0 cookies, no slots
    buy_slot(&mut state, 0);
    assert_eq!(whole(state.cookies), 0.0);
}

#[test]
fn buy_slot_upgrade_added_to_purchased() {
    let mut state = state_with_cookies(100.0); // reinforced_clicking costs 100
    buy_slot(&mut state, 0); // slot 0 = reinforced_clicking (cheapest available)
    assert!(state.upgrades_purchased.contains("reinforced_clicking"));
}

#[test]
fn bought_upgrade_leaves_the_panel_and_unlocks_the_next() {
    let mut state = state_with_cookies(700.0);
    buy_slot(&mut state, 0); // reinforced_clicking
    assert_eq!(state.cookies, 600_000_000);
    assert_eq!(state.total_cookies, 700_000_000);
    let slots = describe(&available_slots(&state));
    assert!(!slots.iter().any(|s| s.1 == "reinforced_clicking"));
    assert_eq!(slots[0], (true, "mouse_wheel".to_string(), 500_000_000));
}

#[test]
fn buying_a_building_raises_its_count_and_cost() {
    let mut state = state_with_building("cursor", 4);
    state.cookies = 100 * 1_000_000;
    let before = describe(&available_slots(&state));
    let cursor_slot = before.iter().position(|s| s.1 == "cursor").unwrap();
    let cost = before[cursor_slot].2;
    buy_slot(&mut state, cursor_slot);
    assert_eq!(state.building_count("cursor"), 5);
    assert_eq!(state.cookies, 100 * 1_000_000 - cost);
    assert_eq!(state.buildings.len(), 1);
    let after = describe(&available_slots(&state));
    let new_cost = after.iter().find(|s| s.1 == "cursor").unwrap().2;
    assert!(new_cost > cost);
}

#[test]
fn buy_slot_out_of_range_changes_nothing() {
    let mut state = state_with_cookies(15.0);
    buy_slot(&mut state, 7);
    assert_eq!(state.cookies, 15_000_000);
    assert!(state.buildings.is_empty());
}

#[test]
fn new_building_is_appended() {
    let mut state = state_with_building("grandma", 2);
    state.cookies = 15_000_000;
    let slots = describe(&available_slots(&state));
    let i = slots.iter().position(|s| s.1 == "cursor").unwrap();
    buy_slot(&mut state, i);
    assert_eq!(state.buildings.len(), 2);
    assert_eq!(state.buildings[1].id, "cursor");
    assert_eq!(state.buildings[1].count, 1);
    assert_eq!(state.cookies, 0);
}

#[test]
fn clock_millis_truncates_and_maps_errors_to_zero() {
    assert_eq!(clock_millis(None), 0);
    assert_eq!(clock_millis(Some(1_700_000_000_123)), 1_700_000_000_123);
    assert_eq!(clock_millis(Some(u64::MAX as u128)), u64::MAX);
    assert_eq!(clock_millis(Some((1u128 << 64) + 5)), 5);
}

#[test]
fn purchase_would_overflow_only_for_a_full_building_count() {
    let mut state = GameState::default();
    state.cookies = 1_000_000_000;
    assert!(!purchase_would_overflow(&state, 0));
    assert!(!purchase_would_overflow(&state, 99));
    state.buildings.push(BuildingState { id: "cursor".to_string(), count: u32::MAX });
    let slots = available_slots(&state);
    let cursor = slots
        .iter()
        .position(|s| matches!(s, SlotItem::Building { id, .. } if id == "cursor"))
        .unwrap();
    // The cursor's cost is out of reach at that count: nothing to buy.
    assert!(!purchase_would_overflow(&state, cursor));
    state.cookies = u128::MAX;
    let slots = available_slots(&state);
    let cursor = slots
        .iter()
        .position(|s| matches!(s, SlotItem::Building { id, .. } if id == "cursor"))
        .unwrap();
    assert!(purchase_would_overflow(&state, cursor));
    assert!(!purchase_would_overflow(&state, 0));
}

#[test]
fn temple_and_wizard_tower_doublers_double_their_production() {
    let mut state = GameState {
        buildings: vec![
            BuildingState { id: "temple".into(), count: 1 },
            BuildingState { id: "wizard_tower".into(), count: 1 },
        ],
        ..Default::default()
    };
    let (_, base) = compute_stats(&state);
    assert_eq!(base, 7_066_000_000);
    for id in ["temple_1", "temple_2", "temple_3"] {
        state.upgrades_purchased.insert(id.into());
    }
    state.upgrades_purchased.insert("wizard_tower_1".into());
    // temple 400 * 8 = 3200, wizard tower 6666 * 2 = 13332
    let (_, cps) = compute_stats(&state);
    assert_eq!(cps, 16_532_000_000);
}

#[test]
fn second_cursor_doubler_shows_at_five_cursors() {
    let mut state = GameState {
        cookies: 10_000_000_000,
        buildings: vec![BuildingState { id: "cursor".into(), count: 4 }],
        ..Default::default()
    };
    state.upgrades_purchased.insert("cursor_1".into());
    let has_cursor_2 = |s: &GameState| {
        available_slots(s)
            .iter()
            .any(|x| matches!(x, SlotItem::Upgrade { id, .. } if id == "cursor_2"))
    };
    assert!(!has_cursor_2(&state));
    state.buildings[0].count = 5;
    assert!(has_cursor_2(&state));
}

#[test]
fn a_click_earns_at_least_one_cookie() {
    let (cpc, _) = compute_stats(&GameState::default());
    assert!(cpc >= 1_000_000);
}
