//! Tests of the task, work-unit and station primitives. All labor quantities
//! are in thousandths: a workload of 100.0 person-hours is 100_000.
use taktsim::task::Task;
use taktsim::msn::MSN;
use taktsim::station::Station;
use taktsim::sot::SOT;

fn small_task_table() -> Vec<Task> {
    vec![
        Task::new(
            100_000,
            vec!["S1".to_string()],
            "SOT1".to_string(),
            "V1".to_string(),
        ),
        Task::new(
            50_000,
            vec!["S2".to_string()],
            "SOT1".to_string(),
            "V2".to_string(),
        ),
    ]
}

#[test]
fn test_work_and_get_remaining_time() {
    let mut task = Task::new(
        100_000,
        vec!["Station1".to_string(), "Station2".to_string()],
        "SOT1".to_string(),
        "Version1".to_string(),
    );
    let mut remaining_time = task.work_and_get_remaining_time(10_000);
    // Tact 9 times
    for _ in 0..9 {
        remaining_time = task.work_and_get_remaining_time(10_000);
    }
    assert_eq!(remaining_time, 0);
    assert_eq!(task.get_workload(), 0);
}

#[test]
fn consume_splits_budget_exactly() {
    let mut task = Task::new(
        10_000,
        vec!["S1".to_string()],
        "T".to_string(),
        "V1".to_string(),
    );
    // Not enough budget: all of it is used, workload keeps the difference.
    let left = task.work_and_get_remaining_time(3_000);
    assert_eq!(left, 0);
    assert_eq!(task.get_workload(), 7_000);
    // More than enough: workload hits exactly zero, the surplus comes back.
    let left = task.work_and_get_remaining_time(8_000);
    assert_eq!(left, 1_000);
    assert_eq!(task.get_workload(), 0);
    // A finished task hands any further budget straight back.
    let left = task.work_and_get_remaining_time(500);
    assert_eq!(left, 500);
}

#[test]
fn msn_takes_only_its_variant() {
    let table = small_task_table();
    let msn = MSN::new(7, "V1", &table);
    assert_eq!(msn.task_count(), 1);
    assert_eq!(msn.get_workload(), 100_000);
    let other = MSN::new(8, "V2", &table);
    assert_eq!(other.get_workload(), 50_000);
}

#[test]
fn task_selection_by_station_and_team() {
    let table = vec![
        Task::new(10_000, vec!["S1".to_string()], "T1".to_string(), "V1".to_string()),
        Task::new(20_000, vec!["S2".to_string()], "T1".to_string(), "V1".to_string()),
        Task::new(30_000, vec!["S1".to_string()], "T2".to_string(), "V1".to_string()),
        Task::new(40_000, vec!["S1".to_string(), "S2".to_string()], "T1".to_string(), "V1".to_string()),
    ];
    let msn = MSN::new(1, "V1", &table);
    // Team T1 at station S1: the first and the fourth task qualify.
    assert_eq!(msn.get_tasks(&"S1".to_string(), &"T1".to_string()), vec![0, 3]);
    // Team T1 anywhere: everything T1 owns, in unit order.
    assert_eq!(msn.get_sot_tasks(&"T1".to_string()), vec![0, 1, 3]);
    assert_eq!(msn.get_sot_tasks(&"T2".to_string()), vec![2]);
}

#[test]
fn team_works_tasks_in_order_until_budget_runs_out() {
    let table = vec![
        Task::new(10_000, vec!["S1".to_string()], "T1".to_string(), "V1".to_string()),
        Task::new(20_000, vec!["S1".to_string()], "T1".to_string(), "V1".to_string()),
    ];
    let mut msn = MSN::new(1, "V1", &table);
    let sot = SOT::new("T1", vec!["S1".to_string()], 2, 500);
    let idxs = msn.get_sot_tasks(&"T1".to_string());
    // A budget of 2.5 finishes the first task and takes 1.5 off the second.
    let left = sot.work(&mut msn, &idxs, 25_000);
    assert_eq!(left, 0);
    assert_eq!(msn.get_workload(), 5_000);
}

#[test]
fn station_normalizes_name() {
    let station = Station::new("s1");
    assert_eq!(station.get_name(), "S1");
    let already = Station::new("DOCK-2");
    assert_eq!(already.get_name(), "DOCK-2");
}

#[test]
fn station_tacting_works() {
    let mut this_station = Station::new("B");
    let mut previous_station = Station::new("A");

    let msn = MSN::new(1, "V1", &small_task_table());
    previous_station.set_current_msn(msn);

    // Trying to tact from A->B
    previous_station.tact_msn(&mut this_station);

    assert!(this_station.get_current_msn().is_some());
    assert!(previous_station.get_current_msn().is_none());
}

#[test]
fn tacting_no_impact_on_workload() {
    let mut this_station = Station::new("B");
    let mut previous_station = Station::new("A");

    let msn = MSN::new(1, "V1", &small_task_table());
    let workload = msn.get_workload();

    previous_station.set_current_msn(msn);
    previous_station.tact_msn(&mut this_station);

    assert!(workload == this_station.get_current_msn().unwrap().get_workload());
}

#[test]
fn settings_apply_the_inefficiency_correction() {
    let mut settings = taktsim::settings::Settings::new();
    assert_eq!(settings.get_tacttime(), 9_300);
    assert_eq!(settings.get_bc_inefficiency(), 86);
    settings.set_bc_inefficiency(100);
    // effective = raw - correction, floored at zero
    assert_eq!(settings.effective_cvat(700), 600);
    assert_eq!(settings.effective_cvat(50), 0);
    settings.set_tacttime(1_000);
    assert_eq!(settings.get_tacttime(), 1_000);
}
