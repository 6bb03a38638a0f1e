use forrest::config::{ConfigFile, MachineConfig};
use forrest::machine::Status;
use forrest::manager::{Error, Manager};
use forrest::triplet::Triplet;

const GIB: u64 = 1024 * 1024 * 1024;

fn builder() -> Triplet {
    Triplet::new(
        "acme".to_string(),
        "widgets".to_string(),
        "builder".to_string(),
    )
}

fn manager(ram_bytes: u64, budget: u64) -> Manager {
    let mut cfg = ConfigFile::new();
    cfg.insert(builder(), MachineConfig { ram_bytes });
    Manager::new(cfg, budget)
}

fn statuses(mgr: &Manager) -> Vec<Status> {
    mgr.machines().iter().map(|m| m.status()).collect()
}

fn consumed(mgr: &Manager) -> u64 {
    mgr.machines().iter().map(|m| m.ram_consumed()).sum()
}

#[test]
fn three_requests_spawn_two_under_budget() {
    let mut mgr = manager(4 * GIB, 10 * GIB);
    for _ in 0..3 {
        assert_eq!(mgr.request_machine(builder()), Ok(()));
    }
    assert_eq!(
        statuses(&mgr),
        vec![Status::Requested, Status::Requested, Status::Requested]
    );

    mgr.reschedule(0);
    // Registration has no budget check; the spawn attempt then goes in
    // creation order: two machines fit, the third would need 12 GiB in all.
    assert_eq!(
        statuses(&mgr),
        vec![Status::Starting, Status::Starting, Status::Registered]
    );
    assert_eq!(consumed(&mgr), 8 * GIB);
    assert!(consumed(&mgr) <= mgr.total_ram_bytes());
}

#[test]
fn only_one_of_two_six_gib_machines_spawns() {
    let mut mgr = manager(6 * GIB, 10 * GIB);
    assert_eq!(mgr.request_machine(builder()), Ok(()));
    assert_eq!(mgr.request_machine(builder()), Ok(()));

    mgr.reschedule(0);
    assert_eq!(statuses(&mgr), vec![Status::Starting, Status::Registered]);
    assert_eq!(consumed(&mgr), 6 * GIB);

    // The second machine keeps waiting for RAM in later passes too.
    mgr.reschedule(1);
    assert_eq!(statuses(&mgr), vec![Status::Starting, Status::Registered]);
    assert!(consumed(&mgr) <= mgr.total_ram_bytes());
}

#[test]
fn the_pool_never_exceeds_the_budget() {
    let mut mgr = manager(3 * GIB, 10 * GIB);
    for round in 0..5u64 {
        assert_eq!(mgr.request_machine(builder()), Ok(()));
        mgr.reschedule(round);
        assert!(consumed(&mgr) <= mgr.total_ram_bytes());
    }
}

#[test]
fn unknown_class_request_is_dropped() {
    let mut mgr = manager(4 * GIB, 10 * GIB);
    let unknown = Triplet::new(
        "acme".to_string(),
        "widgets".to_string(),
        "deploy".to_string(),
    );
    assert_eq!(
        mgr.request_machine(unknown.clone()),
        Err(Error::UnknownMachineClass)
    );
    assert!(mgr.machines().is_empty());

    assert_eq!(
        mgr.reconcile_demand(&unknown, 2),
        Err(Error::UnknownMachineClass)
    );
    assert!(mgr.machines().is_empty());
}

#[test]
fn feedback_is_routed_by_runner_name() {
    let mut mgr = manager(4 * GIB, 10 * GIB);
    assert_eq!(mgr.request_machine(builder()), Ok(()));
    mgr.reschedule(0);
    assert_eq!(statuses(&mgr), vec![Status::Starting]);

    let name = mgr.machines()[0].runner_name().to_string();
    assert!(mgr.apply_feedback(&name, Some(true), false));
    assert_eq!(statuses(&mgr), vec![Status::Waiting]);

    let unknown_name = "forrest-builder-0000000000000000".to_string();
    assert!(!mgr.apply_feedback(&unknown_name, Some(true), true));
    assert_eq!(statuses(&mgr), vec![Status::Waiting]);
}

#[test]
fn demand_drop_kills_the_cheapest_available_machines() {
    let mut mgr = manager(4 * GIB, 12 * GIB);
    for _ in 0..3 {
        assert_eq!(mgr.request_machine(builder()), Ok(()));
    }
    mgr.reschedule(0);
    assert_eq!(
        statuses(&mgr),
        vec![Status::Starting, Status::Starting, Status::Starting]
    );

    // First machine goes idle, second claims a job, third keeps starting.
    let first = mgr.machines()[0].runner_name().to_string();
    let second = mgr.machines()[1].runner_name().to_string();
    assert!(mgr.apply_feedback(&first, Some(true), false));
    assert!(mgr.apply_feedback(&second, Some(true), true));
    // A fourth machine is demanded but sees no pass yet.
    assert_eq!(mgr.request_machine(builder()), Ok(()));
    assert_eq!(
        statuses(&mgr),
        vec![
            Status::Waiting,
            Status::Running,
            Status::Starting,
            Status::Requested
        ]
    );

    // Demand drops from four to two: the requested (cost 0) and the starting
    // (cost 3) machine die first; the running machine is never preempted.
    assert_eq!(mgr.reconcile_demand(&builder(), 2), Ok(()));
    assert_eq!(
        statuses(&mgr),
        vec![
            Status::Waiting,
            Status::Running,
            Status::Stopped,
            Status::Stopped
        ]
    );
}

#[test]
fn demand_drop_never_kills_committed_machines() {
    let mut mgr = manager(4 * GIB, 12 * GIB);
    assert_eq!(mgr.request_machine(builder()), Ok(()));
    mgr.reschedule(0);
    let name = mgr.machines()[0].runner_name().to_string();
    assert!(mgr.apply_feedback(&name, Some(true), true));
    assert_eq!(statuses(&mgr), vec![Status::Running]);

    // The one live machine is committed to a job: a drop to zero leaves it.
    assert_eq!(mgr.reconcile_demand(&builder(), 0), Ok(()));
    assert_eq!(statuses(&mgr), vec![Status::Running]);
}

#[test]
fn demand_shortfall_is_covered_with_requested_machines() {
    let mut mgr = manager(4 * GIB, 10 * GIB);
    assert_eq!(mgr.request_machine(builder()), Ok(()));
    assert_eq!(mgr.reconcile_demand(&builder(), 3), Ok(()));
    assert_eq!(
        statuses(&mgr),
        vec![Status::Requested, Status::Requested, Status::Requested]
    );

    // Demand already met: nothing changes.
    assert_eq!(mgr.reconcile_demand(&builder(), 3), Ok(()));
    assert_eq!(mgr.machines().len(), 3);
}

#[test]
fn stopped_machines_are_swept_by_the_next_pass() {
    let mut mgr = manager(4 * GIB, 12 * GIB);
    assert_eq!(mgr.request_machine(builder()), Ok(()));
    assert_eq!(mgr.request_machine(builder()), Ok(()));
    mgr.reschedule(0);
    assert_eq!(statuses(&mgr), vec![Status::Starting, Status::Starting]);

    assert_eq!(mgr.reconcile_demand(&builder(), 0), Ok(()));
    assert_eq!(statuses(&mgr), vec![Status::Stopped, Status::Stopped]);
    assert_eq!(consumed(&mgr), 0);

    mgr.reschedule(1);
    assert!(mgr.machines().is_empty());
}

#[test]
fn freed_ram_is_handed_to_waiting_machines() {
    let deploy = Triplet::new(
        "acme".to_string(),
        "widgets".to_string(),
        "deploy".to_string(),
    );
    let mut cfg = ConfigFile::new();
    cfg.insert(builder(), MachineConfig { ram_bytes: 6 * GIB });
    cfg.insert(deploy.clone(), MachineConfig { ram_bytes: 6 * GIB });
    let mut mgr = Manager::new(cfg, 10 * GIB);

    assert_eq!(mgr.request_machine(builder()), Ok(()));
    mgr.reschedule(0);
    assert_eq!(mgr.request_machine(deploy.clone()), Ok(()));
    mgr.reschedule(1);
    // The builder machine holds 6 GiB, so the deploy machine cannot launch.
    assert_eq!(statuses(&mgr), vec![Status::Starting, Status::Registered]);

    // Demand for builders drops to zero: the builder machine is killed, the
    // next pass sweeps it, and its RAM lets the deploy machine launch.
    assert_eq!(mgr.reconcile_demand(&builder(), 0), Ok(()));
    assert_eq!(statuses(&mgr), vec![Status::Stopped, Status::Registered]);
    mgr.reschedule(2);
    assert_eq!(statuses(&mgr), vec![Status::Starting]);
    assert_eq!(consumed(&mgr), 6 * GIB);
    assert!(consumed(&mgr) <= mgr.total_ram_bytes());
}

#[test]
fn stuck_starting_machines_are_killed_after_timeout() {
    let mut mgr = manager(4 * GIB, 12 * GIB);
    assert_eq!(mgr.request_machine(builder()), Ok(()));
    mgr.reschedule(1_000);
    assert_eq!(statuses(&mgr), vec![Status::Starting]);

    // Not yet past the timeout.
    mgr.kill_stuck_machines(30_000, 60_000);
    assert_eq!(statuses(&mgr), vec![Status::Starting]);

    // Past the timeout: the machine is treated as failed and killed; demand
    // reconciliation then re-requests a fresh machine, which the next pass
    // launches while the dead one is swept out.
    mgr.kill_stuck_machines(61_000, 60_000);
    assert_eq!(statuses(&mgr), vec![Status::Stopped]);
    assert_eq!(mgr.reconcile_demand(&builder(), 1), Ok(()));
    mgr.reschedule(61_500);
    assert_eq!(statuses(&mgr), vec![Status::Starting]);
}

#[test]
fn triplet_display_and_equality() {
    let t = builder();
    assert_eq!(t.display_string(), "acme/widgets/builder".to_string());
    assert_eq!(t, builder());
    let other = Triplet::new(
        "acme".to_string(),
        "widgets".to_string(),
        "deploy".to_string(),
    );
    assert_ne!(t, other);
}

#[test]
fn config_lookup_prefers_the_earlier_entry() {
    let mut cfg = ConfigFile::new();
    cfg.insert(builder(), MachineConfig { ram_bytes: 1 });
    cfg.insert(builder(), MachineConfig { ram_bytes: 2 });
    assert_eq!(cfg.lookup(&builder()), Some(MachineConfig { ram_bytes: 1 }));

    let missing = Triplet::new("a".to_string(), "b".to_string(), "c".to_string());
    assert_eq!(cfg.lookup(&missing), None);
}
