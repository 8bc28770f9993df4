use waybar_cookie_clicker::game::state::{BuildingState, GameState, IdSet};

#[test]
fn building_count_zero_when_absent() {
    let state = GameState::default();
    assert_eq!(state.building_count("cursor"), 0);
}

#[test]
fn building_count_returns_owned_count() {
    let state = GameState {
        buildings: vec![BuildingState {
            id: "cursor".into(),
            count: 5,
        }],
        ..Default::default()
    };
    assert_eq!(state.building_count("cursor"), 5);
    assert_eq!(state.building_count("grandma"), 0);
}

#[test]
fn building_count_reads_the_first_entry() {
    let state = GameState {
        buildings: vec![
            BuildingState { id: "farm".into(), count: 2 },
            BuildingState { id: "cursor".into(), count: 3 },
            BuildingState { id: "cursor".into(), count: 9 },
        ],
        ..Default::default()
    };
    assert_eq!(state.building_count("cursor"), 3);
    assert_eq!(state.building_count("farm"), 2);
}

#[test]
fn id_set_holds_each_id_once() {
    let mut set = IdSet::new();
    assert_eq!(set.len(), 0);
    assert!(set.insert("a".into()));
    assert!(set.insert("b".into()));
    assert!(!set.insert("a".into()));
    assert_eq!(set.len(), 2);
    assert!(set.contains("a"));
    assert!(set.contains("b"));
    assert!(!set.contains("c"));
    assert_eq!(set.as_vec(), &vec!["a".to_string(), "b".to_string()]);
}
