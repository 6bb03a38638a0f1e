use forrest::config::{ConfigFile, MachineConfig};
use forrest::machine::{Machine, Status};
use forrest::triplet::Triplet;

fn triplet() -> Triplet {
    Triplet::new(
        "acme".to_string(),
        "widgets".to_string(),
        "builder".to_string(),
    )
}

fn config(ram_bytes: u64) -> ConfigFile {
    let mut cfg = ConfigFile::new();
    cfg.insert(triplet(), MachineConfig { ram_bytes });
    cfg
}

fn machine(ram_bytes: u64) -> Machine {
    Machine::new(&config(ram_bytes), triplet()).unwrap()
}

/// A machine driven into the given externally reachable state.
/// (`Registering` is in-flight only and cannot be observed from outside.)
fn machine_in(status: Status) -> Machine {
    let mut m = machine(4);
    let mut avail: u64 = 100;
    match status {
        Status::Requested => {}
        Status::Registering => unreachable!("registration is in flight only"),
        Status::Registered => {
            // A pass without any free RAM registers but cannot launch.
            let mut none: u64 = 0;
            m.reschedule(&mut none, 0);
        }
        Status::Starting => {
            m.reschedule(&mut avail, 0);
        }
        Status::Waiting => {
            m.reschedule(&mut avail, 0);
            m.status_feedback(Some(true), false);
        }
        Status::Running => {
            m.reschedule(&mut avail, 0);
            m.status_feedback(Some(true), true);
        }
        Status::Stopping => {
            m.reschedule(&mut avail, 0);
            m.status_feedback(Some(true), true);
            m.status_feedback(Some(true), false);
        }
        Status::Stopped => {
            m.kill();
        }
    }
    assert_eq!(m.status(), status);
    m
}

/// The state-feedback transition table, written out independently.
fn expected_next(s: Status, online: Option<bool>, busy: bool) -> Status {
    match s {
        Status::Requested | Status::Registering | Status::Registered => s,
        Status::Stopping | Status::Stopped => s,
        // The table's rows apply first match first: a starting machine that
        // is not yet seen online stays starting, whatever `busy` says.
        Status::Starting => match (online, busy) {
            (Some(false) | None, _) => Status::Starting,
            (Some(true), false) => Status::Waiting,
            (Some(true), true) => Status::Running,
        },
        Status::Waiting => match (online, busy) {
            (_, true) => Status::Running,
            (Some(true) | None, false) => Status::Waiting,
            (Some(false), false) => Status::Stopping,
        },
        Status::Running => match (online, busy) {
            (Some(false), _) => Status::Stopping,
            (Some(true) | None, true) => Status::Running,
            (Some(true) | None, false) => Status::Stopping,
        },
    }
}

#[test]
fn feedback_table_is_followed_exactly() {
    let states = [
        Status::Requested,
        Status::Registered,
        Status::Starting,
        Status::Waiting,
        Status::Running,
        Status::Stopping,
        Status::Stopped,
    ];
    let onlines = [Some(true), Some(false), None];
    let busys = [false, true];
    for &s in &states {
        for &online in &onlines {
            for &busy in &busys {
                let mut m = machine_in(s);
                m.status_feedback(online, busy);
                assert_eq!(
                    m.status(),
                    expected_next(s, online, busy),
                    "from {:?} with online={:?} busy={}",
                    s,
                    online,
                    busy
                );
            }
        }
    }
}

#[test]
fn starting_machine_runs_a_job_and_stops() {
    let mut m = machine_in(Status::Starting);
    m.status_feedback(Some(true), false);
    assert_eq!(m.status(), Status::Waiting);
    m.status_feedback(Some(true), true);
    assert_eq!(m.status(), Status::Running);
    m.status_feedback(Some(true), false);
    assert_eq!(m.status(), Status::Stopping);
}

#[test]
fn ram_consumed_follows_the_lifecycle() {
    let ram: u64 = 7 * 1024;
    for &s in &[Status::Requested, Status::Registered, Status::Stopped] {
        let mut m = machine(ram);
        match s {
            Status::Requested => {}
            Status::Registered => {
                let mut none: u64 = 0;
                m.reschedule(&mut none, 0);
            }
            _ => m.kill(),
        }
        assert_eq!(m.status(), s);
        assert_eq!(m.ram_consumed(), 0);
        assert_eq!(m.ram_required(), ram);
    }
    for &s in &[
        Status::Starting,
        Status::Waiting,
        Status::Running,
        Status::Stopping,
    ] {
        let m = machine_in(s);
        assert_eq!(m.ram_consumed(), m.ram_required());
        assert_ne!(m.ram_consumed(), 0);
    }
}

#[test]
fn cost_to_kill_is_strictly_increasing() {
    let expected = [
        (Status::Requested, 0u32),
        (Status::Registered, 2),
        (Status::Starting, 3),
        (Status::Waiting, 4),
        (Status::Running, u32::MAX),
        (Status::Stopping, u32::MAX),
        (Status::Stopped, u32::MAX),
    ];
    let mut last: u32 = 0;
    for &(s, cost) in &expected {
        let m = machine_in(s);
        assert_eq!(m.cost_to_kill(), cost);
        assert!(m.cost_to_kill() >= last);
        last = m.cost_to_kill();
    }
}

#[test]
fn kill_is_terminal_and_idempotent() {
    for &s in &[
        Status::Requested,
        Status::Registered,
        Status::Starting,
        Status::Waiting,
        Status::Running,
        Status::Stopping,
        Status::Stopped,
    ] {
        let mut m = machine_in(s);
        m.kill();
        assert_eq!(m.status(), Status::Stopped);
        assert_eq!(m.ram_consumed(), 0);
        m.kill();
        assert_eq!(m.status(), Status::Stopped);
        assert_eq!(m.ram_consumed(), 0);
    }
}

#[test]
fn runner_name_has_the_fixed_format() {
    let m = machine(4);
    let name = m.runner_name();
    assert_eq!(name.len(), "forrest-builder-".len() + 16);
    assert!(name.starts_with("forrest-builder-"));
    let suffix = &name["forrest-builder-".len()..];
    assert_eq!(suffix.len(), 16);
    assert!(suffix.chars().all(|c| c.is_ascii_alphanumeric()));
}

#[test]
fn runner_names_do_not_collide() {
    let cfg = config(4);
    let mut names: Vec<String> = Vec::new();
    for _ in 0..10_000 {
        let m = Machine::new(&cfg, triplet()).unwrap();
        names.push(m.runner_name().to_string());
    }
    names.sort();
    for pair in names.windows(2) {
        assert_ne!(pair[0], pair[1]);
    }
}

#[test]
fn unknown_identity_is_rejected_at_creation() {
    let cfg = ConfigFile::new();
    assert!(Machine::new(&cfg, triplet()).is_none());

    let other = Triplet::new(
        "acme".to_string(),
        "widgets".to_string(),
        "deploy".to_string(),
    );
    assert!(Machine::new(&config(4), other).is_none());
}

#[test]
fn reschedule_respects_the_budget() {
    let mut m = machine(6);
    let mut avail: u64 = 5;
    m.reschedule(&mut avail, 0);
    assert_eq!(m.status(), Status::Registered);
    assert_eq!(avail, 5);

    let mut avail: u64 = 6;
    m.reschedule(&mut avail, 0);
    assert_eq!(m.status(), Status::Starting);
    assert_eq!(avail, 0);
}

#[test]
fn reschedule_leaves_later_states_alone() {
    for &s in &[
        Status::Waiting,
        Status::Running,
        Status::Stopping,
        Status::Stopped,
    ] {
        let mut m = machine_in(s);
        let mut avail: u64 = 100;
        m.reschedule(&mut avail, 0);
        assert_eq!(m.status(), s);
        assert_eq!(avail, 100);
    }
}

#[test]
fn starting_duration_is_measured_from_launch() {
    let mut m = machine(4);
    assert_eq!(m.starting_duration(10), None);
    let mut avail: u64 = 100;
    m.reschedule(&mut avail, 5);
    assert_eq!(m.status(), Status::Starting);
    assert_eq!(m.starting_duration(12), Some(7));
    assert_eq!(m.starting_duration(5), Some(0));
    assert_eq!(m.starting_duration(3), Some(0));
    m.status_feedback(Some(true), false);
    assert_eq!(m.starting_duration(12), None);
}

#[test]
fn availability_and_terminal_checks() {
    assert!(machine_in(Status::Requested).status().is_available());
    assert!(machine_in(Status::Registered).status().is_available());
    assert!(machine_in(Status::Starting).status().is_available());
    assert!(machine_in(Status::Waiting).status().is_available());
    assert!(!machine_in(Status::Running).status().is_available());
    assert!(!machine_in(Status::Stopping).status().is_available());
    assert!(!machine_in(Status::Stopped).status().is_available());

    assert!(machine_in(Status::Stopped).status().is_stopped());
    assert!(!machine_in(Status::Running).status().is_stopped());
}

#[test]
fn status_names_are_stable() {
    assert_eq!(Status::Requested.name(), "requested");
    assert_eq!(Status::Registering.name(), "registering");
    assert_eq!(Status::Registered.name(), "registered");
    assert_eq!(Status::Starting.name(), "starting");
    assert_eq!(Status::Waiting.name(), "waiting");
    assert_eq!(Status::Running.name(), "running");
    assert_eq!(Status::Stopping.name(), "stopping");
    assert_eq!(Status::Stopped.name(), "stopped");
}

#[test]
fn machine_accessors_reflect_creation() {
    let cfg = config(4096);
    let m = Machine::new(&cfg, triplet()).unwrap();
    assert_eq!(m.machine_config().ram_bytes, 4096);
    assert_eq!(m.ram_required(), 4096);
    assert_eq!(*m.triplet().owner(), "acme".to_string());
    assert_eq!(*m.triplet().repository(), "widgets".to_string());
    assert_eq!(*m.triplet().machine_name(), "builder".to_string());
    assert_eq!(m.inner().status, Status::Requested);
    assert_eq!(m.inner().started, None);
    assert!(m.cfg().lookup(&triplet()).is_some());
}
