use waybar_cookie_clicker::cli::{run_command, Command};
use waybar_cookie_clicker::game::display::{show, slot};
use waybar_cookie_clicker::game::state::{BuildingState, GameState};
use waybar_cookie_clicker::text::json_str;

#[test]
fn json_str_escapes_quotes_backslashes_and_control_characters() {
    assert_eq!(json_str("a\"b\\c\nd\te"), "a\\\"b\\\\c\\nd\\te");
    assert_eq!(json_str("plain \u{1F36A} text"), "plain \u{1F36A} text");
    assert_eq!(json_str(""), "");
}

#[test]
fn json_str_escapes_other_control_characters_by_code() {
    assert_eq!(json_str("a\rb"), "a\\u000db");
    assert_eq!(json_str("\u{0}\u{1f}\u{1b}"), "\\u0000\\u001f\\u001b");
    assert_eq!(json_str("\u{20}\u{7f}"), "\u{20}\u{7f}");
}

#[test]
fn show_for_a_new_game() {
    let state = GameState::default();
    assert_eq!(
        show(&state),
        "{\"text\":\"\u{F0198}\",\"tooltip\":\"\u{1F36A} 0 cookies\\n\u{26A1} 0/sec  \u{F0CFD} 1/click\",\"class\":\"\"}"
    );
}

#[test]
fn show_lists_buildings_and_flags_upgrades() {
    let state = GameState {
        cookies: 150_000_000,
        total_cookies: 150_000_000,
        buildings: vec![BuildingState { id: "cursor".into(), count: 10 }],
        ..Default::default()
    };
    assert_eq!(
        show(&state),
        "{\"text\":\"\u{F0198} 150\",\"tooltip\":\"\u{1F36A} 150 cookies\\n\u{26A1} 1/sec  \u{F0CFD} 1/click\\n\\nBuildings:\\n\u{F0CFD} Cursor x10  (1/s)\",\"class\":\"has-upgrade\"}"
    );
}

#[test]
fn show_counts_building_multipliers_per_kind() {
    let mut state = GameState {
        cookies: 500_000,
        buildings: vec![
            BuildingState { id: "grandma".into(), count: 4 },
            BuildingState { id: "cursor".into(), count: 3 },
        ],
        ..Default::default()
    };
    state.upgrades_purchased.insert("grandma_1".into());
    state.upgrades_purchased.insert("global_1".into());
    // grandmas 4 * 0.5 * 2 = 4, cursors 0.3; all production 4.3 * 1.1 = 4.73
    assert_eq!(
        show(&state),
        "{\"text\":\"\u{F0198}\",\"tooltip\":\"\u{1F36A} 0 cookies\\n\u{26A1} 5/sec  \u{F0CFD} 1/click\\n\\nBuildings:\\n\u{F0CFD} Cursor x3  (0/s)\\n\u{F0725} Grandma x4  (4/s)\",\"class\":\"\"}"
    );
}

#[test]
fn slot_for_an_upgrade_a_building_and_nothing() {
    let state = GameState {
        cookies: 100_000_000,
        total_cookies: 100_000_000,
        ..Default::default()
    };
    assert_eq!(
        slot(&state, 0),
        "{\"text\":\"\u{F0CFD} 100\",\"tooltip\":\"Reinforced clicking\\nCost: 100 \u{1F36A}\\n+1 cookie per click\",\"class\":\"affordable\"}"
    );
    assert_eq!(
        slot(&state, 1),
        "{\"text\":\"\u{F0CFD} 15\",\"tooltip\":\"Cursor (owned: 0)\\nCost: 15 \u{1F36A}\\nAutoclicks the big cookie.\",\"class\":\"affordable\"}"
    );
    assert_eq!(slot(&state, 3), "{\"text\":\"\"}");
    assert_eq!(slot(&state, usize::MAX), "{\"text\":\"\"}");
}

#[test]
fn slot_for_an_owned_building_out_of_reach_is_locked() {
    let state = GameState {
        buildings: vec![BuildingState { id: "wizard_tower".into(), count: 3 }],
        ..Default::default()
    };
    assert_eq!(
        slot(&state, 0),
        "{\"text\":\"\u{F13D5} 501.9M\",\"tooltip\":\"Wizard Tower (owned: 3)\\nCost: 501.9M \u{1F36A}\\nCasts cookies into existence.\",\"class\":\"locked\"}"
    );
}

#[test]
fn run_command_show_and_slot_change_nothing() {
    let mut state = GameState {
        cookies: 20_000_000,
        ..Default::default()
    };
    let (out, dirty) = run_command(&mut state, &Command::Show);
    assert_eq!(out, show(&GameState { cookies: 20_000_000, ..Default::default() }));
    assert!(!dirty);
    let (out, dirty) = run_command(&mut state, &Command::Slot { index: 0 });
    assert!(out.contains("Cursor (owned: 0)"));
    assert!(!dirty);
    assert_eq!(state.cookies, 20_000_000);
}

#[test]
fn run_command_click_and_buy_change_the_state() {
    let mut state = GameState {
        cookies: 14_000_000,
        ..Default::default()
    };
    let (out, dirty) = run_command(&mut state, &Command::Click);
    assert!(dirty);
    assert_eq!(state.cookies, 15_000_000);
    assert!(out.contains("15 cookies"));
    let (out, dirty) = run_command(&mut state, &Command::BuySlot { index: 0 });
    assert!(dirty);
    assert_eq!(state.cookies, 0);
    assert_eq!(state.building_count("cursor"), 1);
    assert!(out.contains("Cursor x1"));
}

#[test]
fn json_str_reads_back_through_a_json_parser() {
    for s in [
        "",
        "plain",
        "quote \" and backslash \\",
        "line\nbreak\ttab",
        "\\\"\\n",
        "\u{1F36A} \u{F0198}",
        "carriage\rreturn",
        "nul\u{0}bell\u{7}escape\u{1b}unit\u{1f}",
        "\u{7f} and \u{20} stay",
    ] {
        let quoted = format!("\"{}\"", json_str(s));
        let back: String = serde_json::from_str(&quoted).unwrap();
        assert_eq!(back, s);
    }
}

#[test]
fn show_and_slot_are_valid_json() {
    let mut state = GameState {
        cookies: 123_456_789_000,
        total_cookies: 2_000_000_000_000,
        buildings: vec![
            BuildingState { id: "cursor".into(), count: 12 },
            BuildingState { id: "farm".into(), count: 2 },
        ],
        ..Default::default()
    };
    state.upgrades_purchased.insert("reinforced_clicking".into());
    let v: serde_json::Value = serde_json::from_str(&show(&state)).unwrap();
    assert_eq!(v["text"], "\u{F0198} 123.5k");
    assert_eq!(v["class"], "has-upgrade");
    for i in 0..10 {
        let v: serde_json::Value = serde_json::from_str(&slot(&state, i)).unwrap();
        assert!(v["text"].is_string());
    }
}
