use std::collections::HashSet;
use waybar_cookie_clicker::game::amount::COOKIE;
use waybar_cookie_clicker::game::defs::{buildings, upgrades, Effect, UnlockCondition};

/// Cookies in an amount of micro-cookies.
fn whole(n: u128) -> f64 {
    n as f64 / 1_000_000.0
}

#[test]
fn building_ids_are_unique() {
    let ids: Vec<_> = buildings().iter().map(|b| b.id).collect();
    let mut seen = HashSet::new();
    for id in &ids {
        assert!(seen.insert(*id), "duplicate building id: {id}");
    }
}

#[test]
fn upgrade_ids_are_unique() {
    let ids: Vec<_> = upgrades().iter().map(|u| u.id).collect();
    let mut seen = HashSet::new();
    for id in &ids {
        assert!(seen.insert(*id), "duplicate upgrade id: {id}");
    }
}

#[test]
fn next_cost_first_purchase_equals_base() {
    let cursor = buildings().into_iter().find(|b| b.id == "cursor").unwrap();
    assert_eq!(cursor.next_cost(0), cursor.base_cost);
}

#[test]
fn next_cost_scales_by_1_15() {
    let cursor = buildings().into_iter().find(|b| b.id == "cursor").unwrap();
    let expected = whole(cursor.base_cost) * 1.15;
    assert!((whole(cursor.next_cost(1)) - expected).abs() < 0.001);
}

#[test]
fn all_eight_buildings_present() {
    let ids: HashSet<_> = buildings().iter().map(|b| b.id).collect();
    for expected in [
        "cursor",
        "grandma",
        "farm",
        "mine",
        "factory",
        "bank",
        "temple",
        "wizard_tower",
    ] {
        assert!(ids.contains(expected), "missing building: {expected}");
    }
}

#[test]
fn next_cost_rounds_up_once() {
    let cursor = buildings().into_iter().find(|b| b.id == "cursor").unwrap();
    // 15 * 1.15^n: 17.25, 19.8375, 22.813125, 26.23509375, 30.1703578125
    assert_eq!(cursor.next_cost(1), 17_250_000);
    assert_eq!(cursor.next_cost(2), 19_837_500);
    assert_eq!(cursor.next_cost(3), 22_813_125);
    assert_eq!(cursor.next_cost(4), 26_235_094);
    assert_eq!(cursor.next_cost(5), 30_170_358);
}

#[test]
fn next_cost_never_decreases_and_saturates() {
    let bank = buildings().into_iter().find(|b| b.id == "bank").unwrap();
    let mut last = 0;
    for owned in 0..700 {
        let c = bank.next_cost(owned);
        assert!(c >= last);
        last = c;
    }
    assert_eq!(bank.next_cost(700), u128::MAX);
    assert_eq!(bank.next_cost(u32::MAX), u128::MAX);
}

#[test]
fn tables_hold_the_documented_numbers() {
    let b = buildings();
    assert_eq!(b.len(), 8);
    assert_eq!(b[0].base_cost, 15 * COOKIE);
    assert_eq!(b[0].base_cps, COOKIE / 10);
    assert_eq!(b[7].base_cost, 330_000_000 * COOKIE);
    assert_eq!(b[7].base_cps, 6_666 * COOKIE);
    let u = upgrades();
    assert_eq!(u.len(), 32);
    assert!(matches!(u[0].unlock, UnlockCondition::Always));
    assert!(matches!(u[0].effect, Effect::ClickBonus(n) if n == COOKIE));
    assert!(matches!(u[30].unlock, UnlockCondition::TotalCookies(n) if n == 1_000_000 * COOKIE));
    assert!(matches!(u[30].effect, Effect::AllCpsMultiplier(110)));
    assert!(matches!(u[31].unlock, UnlockCondition::TotalCookies(n) if n == 100_000_000 * COOKIE));
}

#[test]
fn next_cost_is_exact_for_many_units() {
    let bank = buildings().into_iter().find(|b| b.id == "bank").unwrap();
    // ceil(1_400_000_000_000 * 23^100 / 20^100) micro-cookies
    assert_eq!(bank.next_cost(100), 1_644_038_830_980_403_841);
    assert_eq!(bank.next_cost(434), 308_312_227_633_476_900_631_629_689_693_124_315_478);
    assert_eq!(bank.next_cost(435), u128::MAX);
}

#[test]
fn every_building_has_three_or_four_doublers_at_1_5_25_50() {
    let ups = upgrades();
    for b in buildings() {
        let mins: Vec<u32> = ups
            .iter()
            .filter_map(|u| match (&u.effect, &u.unlock) {
                (Effect::BuildingMultiplier { id, factor }, UnlockCondition::OwnBuilding { id: uid, min })
                    if *id == b.id =>
                {
                    assert_eq!(*factor, 2);
                    assert_eq!(*uid, b.id);
                    Some(*min)
                }
                (Effect::BuildingMultiplier { id, .. }, _) if *id == b.id => panic!("doubler without a count unlock"),
                _ => None,
            })
            .collect();
        assert!(mins.len() == 3 || mins.len() == 4, "{}: {:?}", b.id, mins);
        assert_eq!(mins[..], [1, 5, 25, 50][..mins.len()], "{}", b.id);
    }
    let ids: Vec<&str> = buildings().iter().map(|b| b.id).collect();
    for u in &ups {
        if let Effect::BuildingMultiplier { id, .. } = u.effect {
            assert!(ids.contains(&id));
        }
        if let UnlockCondition::OwnBuilding { id, .. } = u.unlock {
            assert!(ids.contains(&id));
        }
    }
}
