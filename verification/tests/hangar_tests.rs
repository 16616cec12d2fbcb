//! Tests of the line: insertion, the tick, overflow recording, utilization,
//! and the whole driver run. Labor quantities are in thousandths.
use taktsim::task::Task;
use taktsim::msn::MSN;
use taktsim::station::Station;
use taktsim::sot::SOT;
use taktsim::hangar::Hangar;
use taktsim::sim::SIM;

fn three_stations() -> Vec<Station> {
    vec![Station::new("S1"), Station::new("S2"), Station::new("S3")]
}

fn task_table() -> Vec<Task> {
    vec![Task::new(
        100_000,
        vec!["S1".to_string()],
        "SOT1".to_string(),
        "V1".to_string(),
    )]
}

#[test]
fn msn_insertion_works() {
    let mut hangar = Hangar::new("1", 1_000);
    let station = Station::new("1");
    hangar.add_station(station).unwrap();
    let msn = MSN::new(1, "V1", &task_table());
    hangar.insert_msn(msn);
    assert!(hangar.get_station("1").unwrap().get_current_msn().is_some());
}

#[test]
fn hangar_tacting_works() {
    let mut hangar = Hangar::new("1", 1_000);
    hangar.set_stations(three_stations());
    let msn = MSN::new(1, "V1", &task_table());
    hangar.insert_msn(msn);
    hangar.tact();
    assert!(hangar.get_station("S1").unwrap().get_current_msn().is_none());
    assert!(hangar.get_station("S2").unwrap().get_current_msn().is_some());
    assert!(hangar.get_station("S3").unwrap().get_current_msn().is_none());
}

#[test]
fn osw_calculation_works() {
    let mut hangar = Hangar::new("1", 1_000);
    hangar.set_stations(three_stations());
    let msn = MSN::new(1, "V1", &task_table());
    hangar.insert_msn(msn);
    for _ in 0..3 {
        hangar.tact();
    }
    println!("OSW: {:#?}", hangar.get_osw());
}

#[test]
fn add_station_rejects_duplicate_name() {
    let mut hangar = Hangar::new("1", 1_000);
    hangar.add_station(Station::new("S1")).unwrap();
    assert!(hangar.add_station(Station::new("S1")).is_err());
    // A lookup for a name nobody carries comes back empty instead of failing.
    assert!(hangar.get_station("S9").is_none());
}

/// The worked example: one team of one worker at full efficiency on the entry
/// station, one unit with a single task of workload 1.0 there, tick duration
/// 1.0. The first tick finishes the task and books full utilization; the two
/// that follow only move the unit along, booking none; the exit records a
/// residual of zero.
#[test]
fn single_unit_drains_in_three_ticks() {
    let mut hangar = Hangar::new("H", 1_000);
    hangar.set_stations(three_stations());
    hangar.set_sot(vec![SOT::new("T", vec!["S1".to_string()], 1, 1_000)]);
    let table = vec![Task::new(
        1_000_000,
        vec!["S1".to_string()],
        "T".to_string(),
        "V1".to_string(),
    )];
    hangar.insert_msn(MSN::new(1, "V1", &table));

    hangar.tact();
    let unit = hangar.get_station("S2").unwrap().get_current_msn().unwrap();
    assert_eq!(unit.get_workload(), 0);
    assert!(hangar.get_osw().is_empty());

    hangar.tact();
    assert!(hangar.get_station("S3").unwrap().get_current_msn().is_some());

    hangar.tact();
    assert!(hangar.get_station("S1").unwrap().get_current_msn().is_none());
    assert!(hangar.get_station("S2").unwrap().get_current_msn().is_none());
    assert!(hangar.get_station("S3").unwrap().get_current_msn().is_none());
    assert_eq!(hangar.get_osw().as_slice(), &[0]);

    let util = hangar.get_sot_utilization();
    let history = util.get("T").unwrap();
    assert_eq!(history.as_slice(), &[(1_000_000, 1_000_000), (0, 1_000_000), (0, 1_000_000)]);
}

/// Utilization stays within the budget on every tick (the recorded ratio lies
/// in [0, 1]), and a partly idle tick books exactly the labor spent.
#[test]
fn utilization_stays_in_bounds() {
    let mut hangar = Hangar::new("H", 2_000);
    hangar.set_stations(three_stations());
    hangar.set_sot(vec![SOT::new("T", vec!["S1".to_string()], 1, 1_000)]);
    // Budget per tick: 1 worker x 1.0 efficiency x 2.0 time units = 2.0 labor.
    let table = vec![Task::new(
        1_500_000,
        vec!["S1".to_string()],
        "T".to_string(),
        "V1".to_string(),
    )];
    hangar.insert_msn(MSN::new(1, "V1", &table));
    hangar.tact();
    hangar.tact();
    let util = hangar.get_sot_utilization();
    let history = util.get("T").unwrap();
    assert_eq!(history.as_slice(), &[(1_500_000, 2_000_000), (0, 2_000_000)]);
    for (used, total) in history {
        assert!(used <= total && *total > 0);
    }
}

/// Overflow burn: a team that finishes its eligible work early sweeps its
/// assigned stations in their configured order and helps with its own tasks
/// there, regardless of per-station eligibility.
#[test]
fn overflow_burn_follows_assignment_order() {
    let mut hangar = Hangar::new("H", 10_000);
    hangar.set_stations(three_stations());
    // Assigned to S2 first, then S1: the sweep hits S2 before S1.
    hangar.set_sot(vec![SOT::new(
        "T",
        vec!["S2".to_string(), "S1".to_string()],
        1,
        1_000,
    )]);
    // The unit's only task is eligible nowhere the unit stands during the
    // first tick, so all its progress comes from the overflow sweep at S1.
    let table = vec![Task::new(
        4_000_000,
        vec!["S3".to_string()],
        "T".to_string(),
        "V1".to_string(),
    )];
    hangar.insert_msn(MSN::new(1, "V1", &table));
    hangar.tact();
    let unit = hangar.get_station("S2").unwrap().get_current_msn().unwrap();
    assert_eq!(unit.get_workload(), 0);
    let util = hangar.get_sot_utilization();
    assert_eq!(util.get("T").unwrap().as_slice(), &[(4_000_000, 10_000_000)]);
}

/// Conservation, observed from outside: units enter one per tick and leave
/// one per tick once the pipeline is full; nothing is duplicated or lost.
#[test]
fn units_flow_through_in_order() {
    let mut hangar = Hangar::new("H", 1_000);
    hangar.set_stations(three_stations());
    let table = task_table();
    for serial in 0..3u32 {
        hangar.insert_msn(MSN::new(serial, "V1", &table));
        hangar.tact();
    }
    // Three inserted: each tick advanced everything one station, so the
    // first unit has already exited, two are still in the line, and the
    // entry station is empty again.
    assert!(hangar.get_station("S1").unwrap().get_current_msn().is_none());
    assert!(hangar.get_station("S2").unwrap().get_current_msn().is_some());
    assert!(hangar.get_station("S3").unwrap().get_current_msn().is_some());
    assert_eq!(hangar.get_osw().len(), 1);
    // Two drain ticks: one unit exits per tick, recorded in the overflow
    // history, and the line empties.
    for _ in 0..2 {
        hangar.tact();
    }
    assert_eq!(hangar.get_osw().len(), 3);
    assert!(hangar.get_station("S1").unwrap().get_current_msn().is_none());
    assert!(hangar.get_station("S2").unwrap().get_current_msn().is_none());
    assert!(hangar.get_station("S3").unwrap().get_current_msn().is_none());
}

fn build_sim() -> SIM {
    let mut sim = SIM::new();
    sim.set_tacttime(1_000);
    sim.add_hangar("1");
    let stations = three_stations();
    let raw_cvat: u64 = 1_000;
    let sots = vec![SOT::new(
        "SOT1",
        vec!["S1".to_string()],
        1,
        sim.effective_cvat(raw_cvat),
    )];
    let table = task_table();
    let msns = vec![MSN::new(1, "V1", &table), MSN::new(2, "V1", &table)];
    sim.load_data(stations, sots, msns).unwrap();
    sim
}

#[test]
fn hangar_tacts_until_end() {
    let mut sim = build_sim();
    sim.run().unwrap();

    println!("{:#?}", sim.get_hangar(0).get_all_stations());
    // Last Station has no MSN
    assert!(sim
        .get_hangar(0)
        .get_last_station()
        .get_current_msn()
        .is_none())
}

/// Replaying an identical sequence of inserts and ticks from the same initial
/// configuration produces identical overflow and utilization histories.
#[test]
fn replay_is_deterministic() {
    let mut first = build_sim();
    let mut second = build_sim();
    first.run().unwrap();
    second.run().unwrap();
    assert_eq!(
        first.get_hangar(0).get_osw(),
        second.get_hangar(0).get_osw()
    );
    assert_eq!(
        first.get_hangar(0).get_sot_utilization(),
        second.get_hangar(0).get_sot_utilization()
    );
}

/// A team assigned to a station the line does not have is a fatal
/// configuration error, reported before any tick runs.
#[test]
fn load_data_rejects_unknown_station() {
    let mut sim = SIM::new();
    sim.set_tacttime(1_000);
    sim.add_hangar("1");
    let sots = vec![SOT::new("SOT1", vec!["S9".to_string()], 1, 900)];
    let result = sim.load_data(three_stations(), sots, vec![]);
    assert!(result.is_err());
}

/// The mutable accessors reach the same stations the lookups do, and a unit
/// taken out of a slot can be put back unchanged.
#[test]
fn mutable_accessors_reach_the_line() {
    let mut hangar = Hangar::new("H", 1_000);
    hangar.set_stations(three_stations());
    hangar.insert_msn(MSN::new(1, "V1", &task_table()));
    {
        let st = hangar.get_station_mut("S1").unwrap();
        let slot = st.get_msn_mut();
        assert!(slot.is_some());
        let unit = st.take_msn();
        st.put_msn(unit);
        assert!(st.get_current_msn().is_some());
    }
    assert!(hangar.get_station_mut("S9").is_none());
    let last = hangar.get_last_station_mut();
    last.msn_to_sink();
    assert!(hangar.get_last_station().get_current_msn().is_none());
    assert!(hangar.get_station("S1").unwrap().get_current_msn().is_some());
}
