use nucleation::design_decay::{tile_dust_debt, Carrier, DecayLedger, CROSSING_ALLOWANCE, DUST_BUDGET, DUST_REACH};

#[test]
fn dust_budget_is_one_short_of_the_physics() {
    assert_eq!(DUST_REACH, 15);
    assert_eq!(DUST_BUDGET, 14);
}

#[test]
fn a_fresh_dust_ledger_carries_the_whole_budget() {
    let mut l = DecayLedger::fresh(Carrier::Dust);
    let mut cells = 0;
    while !l.needs_station(0) {
        l.carry_cell();
        cells += 1;
        assert!(cells <= 100, "runaway");
    }
    assert_eq!(cells, DUST_BUDGET, "14 dust cells, then a station");
    assert_eq!(l.spent(), DUST_BUDGET);
}

#[test]
fn an_entry_debt_shortens_the_first_stretch() {
    let mut l = DecayLedger::entering(Carrier::Dust, 7);
    let mut cells = 0;
    while !l.needs_station(0) {
        l.carry_cell();
        cells += 1;
    }
    assert_eq!(cells, DUST_BUDGET - 7);
}

#[test]
fn a_reserve_shortens_the_last_stretch_by_exactly_itself() {
    let mut l = DecayLedger::fresh(Carrier::Dust).reserving(7);
    let mut cells = 0;
    while !l.needs_station(7) {
        l.carry_cell();
        cells += 1;
    }
    assert_eq!(cells, DUST_BUDGET - 7);
    assert_eq!(l.reserve(), 7);
}

#[test]
fn a_refresh_returns_the_whole_budget() {
    let mut l = DecayLedger::entering(Carrier::Dust, 13);
    assert!(l.admits_cell(0));
    l.carry_cell();
    assert!(l.needs_station(0));
    l.refresh();
    assert_eq!(l.spent(), 0);
    assert!(l.admits_cell(0));
}

#[test]
fn a_mandatory_tail_forces_the_station_earlier() {
    let l = DecayLedger::entering(Carrier::Dust, 10);
    assert!(l.needs_station(4));
    assert!(!l.needs_station(3));
}

#[test]
fn a_crossing_allowance_holds_back_the_budget_everywhere() {
    let mut l = DecayLedger::fresh(Carrier::Dust).allowing(CROSSING_ALLOWANCE);
    let mut cells = 0;
    while !l.needs_station(0) {
        l.carry_cell();
        cells += 1;
        assert!(cells <= 100, "runaway");
    }
    assert_eq!(cells, DUST_BUDGET - CROSSING_ALLOWANCE);
    let l = DecayLedger::entering(Carrier::Dust, DUST_BUDGET - CROSSING_ALLOWANCE).allowing(CROSSING_ALLOWANCE);
    assert!(l.needs_station(0));
}

#[test]
fn a_refreshing_carrier_never_plans_a_station() {
    let mut l = DecayLedger::fresh(Carrier::Refreshing);
    for _ in 0..1000 {
        assert!(!l.needs_station(50));
        l.carry_cell();
    }
    assert_eq!(l.spent(), 0, "a refreshing carrier spends nothing");
}

#[test]
fn a_gaining_carrier_never_plans_a_station() {
    let c = Carrier::Gaining { per_stage: 4 };
    assert_eq!(c.gain_per_stage(), 4);
    assert_eq!(c.decay_per_cell(), 0);
    assert!(!c.plans_stations());
    let mut l = DecayLedger::entering(c, 12).reserving(3);
    for _ in 0..1000 {
        assert!(!l.needs_station(50));
        l.carry_cell();
    }
}

#[test]
fn debt_counts_dust_cells_up_to_a_refresher() {
    let dust: std::collections::BTreeSet<(i32, i32, i32)> = (2..=8).map(|x| (x, 0, 0)).collect();
    assert_eq!(tile_dust_debt((8, 0, 0), |p| dust.contains(&p)), 7);
    assert_eq!(tile_dust_debt((5, 0, 0), |p| dust.contains(&p)), 4);
    assert_eq!(tile_dust_debt((99, 0, 0), |p| dust.contains(&p)), 0);
}

#[test]
fn debt_climbs_a_staircase() {
    let dust: std::collections::BTreeSet<(i32, i32, i32)> = (0..5).map(|i| (i, i, 0)).collect();
    assert_eq!(tile_dust_debt((4, 4, 0), |p| dust.contains(&p)), 5);
}

#[test]
fn a_default_carrier_is_dust() {
    let c: Carrier = Default::default();
    assert_eq!(c, Carrier::Dust);
    assert_eq!(c.decay_per_cell(), 1);
    assert!(c.plans_stations());
}

#[test]
fn an_empty_anchor_owes_nothing_and_a_lone_cell_owes_one() {
    assert_eq!(tile_dust_debt((0, 0, 0), |_p| false), 0);
    assert_eq!(tile_dust_debt((3, 3, 3), |p| p == (3, 3, 3)), 1);
}
