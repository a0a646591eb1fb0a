use nucleation::design::{OccupancyIndex, Occupant};
use nucleation::design_corridor::{
    blocker, compress, corridor_chain, diagnose, ladder, leg_distance, leg_moves, self_clearance_ok, start_leg, Heading,
    Leg, MIN_LEG,
};

fn wall(occ: &mut OccupancyIndex, x: i32, zs: std::ops::RangeInclusive<i32>, ys: std::ops::RangeInclusive<i32>) {
    for z in zs {
        for y in ys.clone() {
            occ.cells.insert((x, y, z), ("minecraft:stone".to_string(), Occupant::Loose));
        }
    }
}

#[test]
fn a_self_touching_corridor_is_rejected() {
    // A spiral that comes back alongside itself: legs 0 and 3 are one
    // cell apart, which would merge them into one dust net.
    let spiral = [(0, 2, 0), (20, 2, 0), (20, 2, 10), (0, 2, 10), (0, 2, 1)];
    assert!(!self_clearance_ok(&spiral));
    // The same shape with real separation is fine.
    let roomy = [(0, 2, 0), (20, 2, 0), (20, 2, 10), (0, 2, 10), (0, 2, 6)];
    assert!(self_clearance_ok(&roomy));
    // A plain U-turn at MIN_LEG separation is legal.
    let u = [(0, 2, 0), (20, 2, 0), (20, 2, 3), (0, 2, 3)];
    assert!(self_clearance_ok(&u));
}

#[test]
fn leg_distance_is_the_chebyshev_gap() {
    let a = ((0, 2, 0), (20, 2, 0));
    let b = ((0, 2, 10), (0, 2, 1));
    assert_eq!(leg_distance(a, b), 1);
    let c = ((25, 2, 4), (30, 2, 4));
    assert_eq!(leg_distance(a, c), 5);
    // Overlapping legs are at distance zero.
    let d = ((5, 2, -3), (5, 2, 3));
    assert_eq!(leg_distance(a, d), 0);
}

#[test]
fn compress_keeps_only_the_corners() {
    let cells = [(0, 2, 0), (1, 2, 0), (2, 2, 0), (2, 2, 1), (2, 2, 2), (3, 2, 2)];
    assert_eq!(compress(&cells), vec![(0, 2, 0), (2, 2, 0), (2, 2, 2), (3, 2, 2)]);
    let straight = [(0, 2, 0), (1, 2, 0), (2, 2, 0)];
    assert_eq!(compress(&straight), vec![(0, 2, 0), (2, 2, 0)]);
    assert_eq!(compress(&[(7, 2, 7)]), vec![(7, 2, 7)]);
    assert_eq!(compress(&[]), Vec::<(i32, i32, i32)>::new());
}

#[test]
fn corridor_chain_accepts_a_clean_path_and_rejects_a_single_cell() {
    let cells = [(0, 2, 0), (1, 2, 0), (2, 2, 0), (2, 2, 1), (2, 2, 2)];
    assert_eq!(corridor_chain(&cells), Some(vec![(0, 2, 0), (2, 2, 0), (2, 2, 2)]));
    assert_eq!(corridor_chain(&[(0, 2, 0)]), None);
    // A diagonal step is not an axis-aligned leg.
    assert_eq!(corridor_chain(&[(0, 2, 0), (1, 2, 1)]), None);
}

#[test]
fn the_first_step_may_go_any_way() {
    let moves = leg_moves(start_leg(), 12);
    assert_eq!(moves.len(), 4);
    for m in &moves {
        assert_eq!(m.next.run, 1);
        assert_eq!(m.cost, 1);
    }
    assert_eq!(moves[0].next.heading, Heading::PlusX);
    assert_eq!(moves[3].next.heading, Heading::MinusZ);
}

#[test]
fn a_short_leg_may_not_turn_and_never_reverses() {
    let short = Leg { heading: Heading::PlusX, run: 1 };
    let moves = leg_moves(short, 12);
    assert_eq!(moves.len(), 1);
    assert_eq!(moves[0].next, Leg { heading: Heading::PlusX, run: 2 });
    assert_eq!(moves[0].cost, 1);

    let long = Leg { heading: Heading::PlusX, run: MIN_LEG };
    let moves = leg_moves(long, 12);
    assert_eq!(moves.len(), 3);
    assert_eq!(moves[0].next, Leg { heading: Heading::PlusX, run: MIN_LEG });
    assert_eq!(moves[1].next, Leg { heading: Heading::PlusZ, run: 1 });
    assert_eq!(moves[1].cost, 13);
    assert!(moves.iter().all(|m| m.next.heading != Heading::MinusX));
}

#[test]
fn headings_step_and_reverse() {
    assert_eq!(Heading::PlusZ.delta(), (0, 1));
    assert_eq!(Heading::MinusX.delta(), (-1, 0));
    assert_eq!(Heading::PlusX.opposite(), Heading::MinusX);
    assert_eq!(Heading::Start.opposite(), Heading::Start);
}

#[test]
fn a_walled_in_endpoint_says_so() {
    let mut occ = OccupancyIndex::default();
    for (dx, dz) in [(1, 0), (-1, 0), (0, 1), (0, -1)] {
        for y in 0..=20 {
            occ.cells.insert((1 + dx, y, 8 + dz), ("minecraft:stone".to_string(), Occupant::Loose));
        }
    }
    let why = diagnose(&occ, (1, 2, 8), (40, 2, 8), 8, &[]);
    assert!(why.contains("endpoint approach blocked"), "{why}");
    assert!(why.contains("driver"), "{why}");
}

#[test]
fn a_walled_in_driver_names_every_blocked_column() {
    let mut occ = OccupancyIndex::default();
    for (dx, dz) in [(1, 0), (-1, 0), (0, 1), (0, -1)] {
        for y in 0..=20 {
            occ.cells.insert((1 + dx, y, 8 + dz), ("minecraft:stone".to_string(), Occupant::Loose));
        }
    }
    let why = diagnose(&occ, (1, 2, 8), (40, 2, 8), 8, &[]);
    assert_eq!(
        why,
        "endpoint approach blocked: the driver anchor (1, 2, 8) is walled in — every neighbouring column of the \
         8-bit stack (y 1..=16) is occupied: (2, 1, 8) blocked by loose block `minecraft:stone`; (0, 1, 8) blocked \
         by loose block `minecraft:stone`; (1, 1, 9) blocked by loose block `minecraft:stone`; (1, 1, 7) blocked by \
         loose block `minecraft:stone`. Move the endpoint, shrink the neighbouring cell's keepout, or leave a clear \
         lane beside the port"
    );
}

#[test]
fn a_walled_in_sink_is_reported_as_the_sink() {
    let mut occ = OccupancyIndex::default();
    for (dx, dz) in [(1, 0), (-1, 0), (0, 1), (0, -1)] {
        occ.halos.insert((40 + dx, 4, 8 + dz), "u7".to_string());
    }
    let why = diagnose(&occ, (1, 2, 8), (40, 2, 8), 2, &[]);
    assert!(why.starts_with("endpoint approach blocked: the sink anchor (40, 2, 8)"), "{why}");
    assert!(why.contains("(y 1..=4)"), "{why}");
    assert!(why.contains("(41, 4, 8) blocked by the influence halo of instance `u7`"), "{why}");
}

#[test]
fn diagnose_names_a_sealed_wall() {
    let mut occ = OccupancyIndex::default();
    wall(&mut occ, 20, -400..=400, 0..=20);
    let tried = vec!["straight run blocked".to_string(), "L blocked".to_string()];
    let why = diagnose(&occ, (1, 2, 8), (40, 2, 8), 8, &tried);
    assert!(why.contains("no corridor"), "{why}");
    assert!(why.contains("(20,"), "names the blocker location: {why}");
    assert!(why.contains("loose block"), "names the owner: {why}");
    assert_eq!(
        why,
        "no corridor from (1, 2, 8) to (40, 2, 8) for a 8-bit bus on level y=2: the direct line is blocked at \
         (20, 1, 8) by loose block `minecraft:stone`. A bounded detour search (margin 96 cells, 400000 nodes) found \
         no clear rectilinear corridor either — the layers hemming the endpoints in are: loose block. Move one of \
         them, give the bus a gate to route through in two legs, or free a lane at least 1 cell clear of other \
         redstone (dust one cell apart shorts, so the corridor needs 2 cells of pitch). Template attempts: straight \
         run blocked | L blocked"
    );
}

#[test]
fn the_culprits_are_listed_once_each_in_order() {
    let mut occ = OccupancyIndex::default();
    occ.cells.insert((2, 1, 9), ("minecraft:stone".to_string(), Occupant::Instance("zeta".into())));
    occ.cells.insert((0, 3, 7), ("minecraft:redstone_wire".to_string(), Occupant::Bus("alpha".into())));
    occ.cells.insert((41, 1, 10), ("minecraft:stone".to_string(), Occupant::Instance("zeta".into())));
    occ.halos.insert((39, 3, 8), "mid".to_string());
    let why = diagnose(&occ, (1, 2, 8), (40, 2, 8), 2, &[]);
    assert!(
        why.contains("the layers hemming the endpoints in are: bus `alpha`, instance `zeta`, the influence halo of instance `mid`."),
        "{why}"
    );
    assert!(why.contains("the direct line is blocked at (39, 3, 8) by the influence halo of instance `mid`"), "{why}");
    assert!(why.ends_with("Template attempts: none"), "{why}");
}

#[test]
fn an_endpoint_column_never_blocks() {
    let mut occ = OccupancyIndex::default();
    occ.cells.insert((1, 2, 8), ("minecraft:repeater".to_string(), Occupant::Bus("own".into())));
    assert_eq!(blocker(&occ, (1, 2, 8), (40, 2, 8), 1, 1, 8), None);
    occ.cells.insert((5, 3, 8), ("minecraft:stone".to_string(), Occupant::Loose));
    // A one-bit stack spans y 1..=2: the stone at y 3 is above it.
    assert_eq!(blocker(&occ, (1, 2, 8), (40, 2, 8), 1, 5, 8), None);
    // A two-bit stack spans y 1..=4 and hits it.
    assert_eq!(
        blocker(&occ, (1, 2, 8), (40, 2, 8), 2, 5, 8),
        Some(((5, 3, 8), "loose block `minecraft:stone`".to_string()))
    );
}

#[test]
fn the_retry_ladder_widens() {
    let l = ladder();
    assert_eq!((l[0].turn_cost, l[0].margin, l[0].max_iter), (12, 24, 80_000));
    assert_eq!((l[1].turn_cost, l[1].margin, l[1].max_iter), (4, 96, 400_000));
}
