//! The lifecycle state machine of one provisioned (or being-provisioned)
//! runner machine.

use vstd::prelude::*;

use rand::Rng;

use crate::config::{lookup_spec, ConfigFile, MachineConfig};
use crate::triplet::{Triplet, TripletView};

verus! {

use vstd::string::StringExecFns;

/// The lifecycle state of a machine.
#[derive(Clone, Copy, Debug, PartialEq, Eq, Structural)]
pub enum Status {
    /// Demand recorded; no registration attempted yet.
    Requested,
    /// Registration with the runner-issuing service is in flight.
    Registering,
    /// Registration succeeded; not yet resource-checked for launch.
    Registered,
    /// VM launch initiated; not yet observed online.
    Starting,
    /// Runner online, idle, no job claimed.
    Waiting,
    /// Runner online and executing a job.
    Running,
    /// Job finished or runner observed offline while busy; teardown pending.
    Stopping,
    /// Fully torn down; terminal.
    Stopped,
}

impl Status {
    /// States in which the machine is not yet committed to a job and could be
    /// redirected or killed without losing in-progress work.
    pub open spec fn is_available_spec(self) -> bool {
        match self {
            Status::Requested
            | Status::Registering
            | Status::Registered
            | Status::Starting
            | Status::Waiting => true,
            Status::Running | Status::Stopping | Status::Stopped => false,
        }
    }

    /// Is this machine available to process a new job?
    ///
    /// A machine that is already processing a job is not.
    pub fn is_available(&self) -> (r: bool)
        ensures
            r == self.is_available_spec(),
    {
        match self {
            Status::Requested
            | Status::Registering
            | Status::Registered
            | Status::Starting
            | Status::Waiting => true,
            Status::Running | Status::Stopping | Status::Stopped => false,
        }
    }

    /// Is this machine in its final done state?
    ///
    /// Machines will not be in this state for long, because the manager
    /// removes them from its pool the very next time it runs a pass.
    pub fn is_stopped(&self) -> (r: bool)
        ensures
            r == (self is Stopped),
    {
        *self == Status::Stopped
    }

    /// A short lower-case name for the state, for logs and error reports.
    pub fn name(&self) -> (r: &'static str)
        ensures
            r@ == self.name_spec(),
    {
        match self {
            Status::Requested => "requested",
            Status::Registering => "registering",
            Status::Registered => "registered",
            Status::Starting => "starting",
            Status::Waiting => "waiting",
            Status::Running => "running",
            Status::Stopping => "stopping",
            Status::Stopped => "stopped",
        }
    }

    /// The view of the name `name` returns for each state.
    pub open spec fn name_spec(self) -> Seq<char> {
        match self {
            Status::Requested => "requested"@,
            Status::Registering => "registering"@,
            Status::Registered => "registered"@,
            Status::Starting => "starting"@,
            Status::Waiting => "waiting"@,
            Status::Running => "running"@,
            Status::Stopping => "stopping"@,
            Status::Stopped => "stopped"@,
        }
    }
}

/// Does a machine in state `s` hold its RAM reservation?
///
/// RAM is reserved from the moment launch begins until teardown completes,
/// not only while actively running a job.
pub open spec fn consumes_ram(s: Status) -> bool {
    match s {
        Status::Starting | Status::Waiting | Status::Running | Status::Stopping => true,
        Status::Requested | Status::Registering | Status::Registered | Status::Stopped => false,
    }
}

/// The cost of killing a machine in state `s`: how much effort already went
/// into it. States that must never be preempted cost the maximum value.
pub open spec fn cost_to_kill_spec(s: Status) -> u32 {
    match s {
        Status::Requested => 0,
        Status::Registering => 1,
        Status::Registered => 2,
        Status::Starting => 3,
        Status::Waiting => 4,
        Status::Running | Status::Stopping | Status::Stopped => u32::MAX,
    }
}

/// The state-feedback transition table: the state a machine in state `s`
/// moves to when the outside world reports `online` (or cannot tell, `None`)
/// and whether the runner is busy with a job.
pub open spec fn next_status(s: Status, online: Option<bool>, busy: bool) -> Status {
    match (s, online, busy) {
        // Stay in the current state: feedback is ignored pre-launch, and
        // terminal paths are not reopened.
        (Status::Requested, _, _) => Status::Requested,
        (Status::Registering, _, _) => Status::Registering,
        (Status::Registered, _, _) => Status::Registered,
        (Status::Starting, Some(false) | None, _) => Status::Starting,
        (Status::Waiting, Some(true) | None, false) => Status::Waiting,
        (Status::Running, Some(true) | None, true) => Status::Running,
        (Status::Stopping, _, _) => Status::Stopping,
        (Status::Stopped, _, _) => Status::Stopped,
        // The runner on the machine has registered itself but does not run a
        // job yet.
        (Status::Starting, Some(true), false) => Status::Waiting,
        // The runner has taken up a job.
        (Status::Starting | Status::Waiting, _, true) => Status::Running,
        // The job is complete, or the runner vanished: the machine is about
        // to stop.
        (Status::Waiting, Some(false), _)
        | (Status::Running, Some(false), _)
        | (Status::Running, _, false) => Status::Stopping,
    }
}

/// Is `c` an ASCII letter or digit?
pub open spec fn is_alnum(c: char) -> bool {
    ('a' <= c && c <= 'z') || ('A' <= c && c <= 'Z') || ('0' <= c && c <= '9')
}

/// Is `s` a valid random runner-name suffix: exactly 16 ASCII letters or
/// digits?
pub open spec fn alnum_suffix(s: Seq<char>) -> bool {
    s.len() == 16 && (forall|i: int| 0 <= i < s.len() ==> is_alnum(#[trigger] s[i]))
}

/// Does `name` have the fixed runner-name format: the prefix `forrest-`, the
/// machine class name, and a 16-character random alphanumeric suffix?
pub open spec fn runner_name_ok(name: Seq<char>, machine_name: Seq<char>) -> bool {
    exists|suffix: Seq<char>|
        #[trigger] alnum_suffix(suffix) && name == "forrest-"@ + machine_name + "-"@ + suffix
}

/// Relies on rand's `Alphanumeric` distribution: every sampled byte is an
/// ASCII letter or digit, so collecting 16 of them gives 16 such characters.
#[verifier::external_body]
fn random_alphanumeric_suffix() -> (r: String)
    ensures
        alnum_suffix(r@),
{
    rand::thread_rng()
        .sample_iter(&rand::distributions::Alphanumeric)
        .take(16)
        .map(char::from)
        .collect()
}

/// Build a runner name like `forrest-build-rHCiNOhFdypjtnfj` for a machine of
/// the class `machine_name`.
fn make_runner_name(machine_name: &String) -> (r: String)
    ensures
        runner_name_ok(r@, machine_name@),
{
    let suffix = random_alphanumeric_suffix();
    let mut name = String::from_str("forrest-");
    name.append(machine_name.as_str());
    name.append("-");
    name.append(suffix.as_str());
    proof {
        assert(alnum_suffix(suffix@) && name@ == "forrest-"@ + machine_name@ + "-"@ + suffix@);
    }
    name
}

/// The cost to kill is strictly increasing along
/// `Requested < Registering < Registered < Starting < Waiting`, and is the
/// maximum representable value for `Running`, `Stopping` and `Stopped`.
pub proof fn lemma_cost_to_kill_monotone()
    ensures
        cost_to_kill_spec(Status::Requested) < cost_to_kill_spec(Status::Registering),
        cost_to_kill_spec(Status::Registering) < cost_to_kill_spec(Status::Registered),
        cost_to_kill_spec(Status::Registered) < cost_to_kill_spec(Status::Starting),
        cost_to_kill_spec(Status::Starting) < cost_to_kill_spec(Status::Waiting),
        cost_to_kill_spec(Status::Waiting) < cost_to_kill_spec(Status::Running),
        cost_to_kill_spec(Status::Running) == u32::MAX,
        cost_to_kill_spec(Status::Stopping) == u32::MAX,
        cost_to_kill_spec(Status::Stopped) == u32::MAX,
{
}

/// The mutable part of `Machine`: what changes as the machine transitions
/// through its states.
pub struct Inner {
    /// The instant (in milliseconds of some monotonic clock supplied by the
    /// caller) at which the machine entered `Starting`.
    pub started: Option<u64>,
    pub status: Status,
}

/// The mathematical view of a `Machine`.
pub struct MachineView {
    pub cfg: Seq<(TripletView, MachineConfig)>,
    pub started: Option<u64>,
    pub status: Status,
    pub runner_name: Seq<char>,
    pub triplet: TripletView,
    pub machine_config: MachineConfig,
}

/// `m` with its status replaced by `s`; everything else is kept.
pub open spec fn with_status(m: MachineView, s: Status) -> MachineView {
    MachineView { status: s, ..m }
}

/// The machine `m` after a kill: stopped, with everything else kept.
pub open spec fn killed(m: MachineView) -> MachineView {
    with_status(m, Status::Stopped)
}

/// The RAM (in bytes) the machine `m` currently consumes.
pub open spec fn ram_consumed_spec(m: MachineView) -> u64 {
    if consumes_ram(m.status) {
        m.machine_config.ram_bytes
    } else {
        0
    }
}

/// One resource-aware advancement step of the machine `m` under `avail` bytes
/// of free RAM at instant `now`: the machine afterwards, and the RAM left.
///
/// A requested machine registers (no budget check) and is then, like any
/// registered machine, considered for launch within the same step: it
/// launches only when its requirement fits into `avail`, which then shrinks
/// by exactly that requirement. Every other state is left alone.
pub open spec fn step_spec(m: MachineView, avail: u64, now: u64) -> (MachineView, u64) {
    let registered = if m.status is Requested {
        with_status(m, Status::Registered)
    } else {
        m
    };
    if registered.status is Registered && registered.machine_config.ram_bytes <= avail {
        (
            (MachineView { status: Status::Starting, started: Some(now), ..registered }),
            (avail - registered.machine_config.ram_bytes) as u64,
        )
    } else {
        (registered, avail)
    }
}

/// The time the machine `m` has spent in `Starting` as of instant `now`;
/// defined only while it is starting.
pub open spec fn starting_duration_spec(m: MachineView, now: u64) -> Option<u64> {
    if m.status is Starting {
        match m.started {
            Some(s) => Some(if now >= s { (now - s) as u64 } else { 0 }),
            None => None,
        }
    } else {
        None
    }
}

/// A reschedule step launches a machine only when its RAM requirement fits
/// into the available budget, and it then deducts exactly that requirement
/// from the budget.
pub proof fn lemma_step_spawns_within_budget(m: MachineView, avail: u64, now: u64)
    ensures
        !(m.status is Starting) && step_spec(m, avail, now).0.status is Starting ==> {
            &&& m.machine_config.ram_bytes <= avail
            &&& step_spec(m, avail, now).1 == avail - m.machine_config.ram_bytes
        },
{
}

/// A reschedule step keeps the sum of the machine's RAM reservation and the
/// remaining budget: launching moves bytes from the budget into the
/// reservation, everything else touches neither.
pub proof fn lemma_step_preserves_accounting(m: MachineView, avail: u64, now: u64)
    ensures
        ram_consumed_spec(step_spec(m, avail, now).0) + step_spec(m, avail, now).1
            == ram_consumed_spec(m) + avail,
{
}

/// Status feedback never grows a machine's RAM reservation: it can only keep
/// it or (once teardown completes elsewhere) leave it to `kill` to free.
pub proof fn lemma_feedback_never_grows(m: MachineView, online: Option<bool>, busy: bool)
    ensures
        ram_consumed_spec(with_status(m, next_status(m.status, online, busy)))
            <= ram_consumed_spec(m),
{
}

/// Killing a machine frees its whole RAM reservation, and killing it twice is
/// the same as killing it once.
pub proof fn lemma_kill_idempotent(m: MachineView)
    ensures
        killed(killed(m)) == killed(m),
        ram_consumed_spec(killed(m)) == 0,
{
}

/// A machine consumes RAM exactly in the states that hold a reservation, and
/// there it consumes exactly its configured requirement. (For a class
/// configured with zero RAM bytes both sides are zero in every state.)
pub proof fn lemma_ram_consumed_iff(m: MachineView)
    requires
        m.machine_config.ram_bytes > 0,
    ensures
        ram_consumed_spec(m) != 0 <==> consumes_ram(m.status),
        consumes_ram(m.status) ==> ram_consumed_spec(m) == m.machine_config.ram_bytes,
{
}

/// One state machine instance representing a single provisioned (or
/// being-provisioned) runner.
///
/// A machine pins the configuration snapshot in effect when it was created
/// and caches its own class's configuration out of it: an identity that later
/// disappears from a reloaded configuration does not invalidate it.
pub struct Machine {
    cfg: ConfigFile,
    inner: Inner,
    machine_config: MachineConfig,
    runner_name: String,
    triplet: Triplet,
}

impl View for Machine {
    type V = MachineView;

    closed spec fn view(&self) -> MachineView {
        MachineView {
            cfg: self.cfg@,
            started: self.inner.started,
            status: self.inner.status,
            runner_name: self.runner_name@,
            triplet: self.triplet@,
            machine_config: self.machine_config,
        }
    }
}

impl Machine {
    /// Get a new machine in the `Requested` state, or `None` (the request is
    /// dropped) when the identity is unknown to the configuration snapshot.
    ///
    /// # Arguments
    ///
    /// * `cfg` - The version of the config file this machine will use
    ///   throughout its lifetime.
    /// * `triplet` - The (owner, repository, machine name) triplet that
    ///   requested this machine.
    pub fn new(cfg: &ConfigFile, triplet: Triplet) -> (r: Option<Machine>)
        ensures
            match r {
                Some(m) => {
                    &&& m@.cfg == cfg@
                    &&& m@.triplet == triplet@
                    &&& m@.status is Requested
                    &&& m@.started is None
                    &&& Some(m@.machine_config) == lookup_spec(cfg@, triplet@)
                    &&& runner_name_ok(m@.runner_name, triplet@.machine_name)
                },
                None => lookup_spec(cfg@, triplet@) is None,
            },
    {
        let machine_config = match cfg.lookup(&triplet) {
            Some(machine_config) => machine_config,
            None => {
                return None;
            },
        };

        let runner_name = make_runner_name(triplet.machine_name());

        Some(
            Machine {
                cfg: cfg.clone(),
                inner: Inner { started: None, status: Status::Requested },
                machine_config,
                runner_name,
                triplet,
            },
        )
    }

    /// The mutable part of the machine, read-only.
    pub fn inner(&self) -> (r: &Inner)
        ensures
            r.started == self@.started,
            r.status == self@.status,
    {
        &self.inner
    }

    /// How much effort went into this machine already?
    ///
    /// When demand for a machine type suddenly drops (because e.g. a run was
    /// canceled) we need to decide which machines to kill. It makes more
    /// sense to kill a machine that is e.g. not yet registered as runner
    /// instead of one that is already booted and waiting for a job.
    pub fn cost_to_kill(&self) -> (r: u32)
        ensures
            r == cost_to_kill_spec(self@.status),
    {
        match self.inner.status {
            Status::Requested => 0,
            Status::Registering => 1,
            Status::Registered => 2,
            Status::Starting => 3,
            Status::Waiting => 4,
            Status::Running | Status::Stopping | Status::Stopped => u32::MAX,
        }
    }

    /// The configuration snapshot this machine was created under.
    pub fn cfg(&self) -> (r: &ConfigFile)
        ensures
            r@ == self@.cfg,
    {
        &self.cfg
    }

    /// The identity this machine was requested for.
    pub fn triplet(&self) -> (r: &Triplet)
        ensures
            r@ == self@.triplet,
    {
        &self.triplet
    }

    /// The machine class configuration resolved at creation time.
    pub fn machine_config(&self) -> (r: &MachineConfig)
        ensures
            *r == self@.machine_config,
    {
        &self.machine_config
    }

    /// The amount of RAM (in bytes) the machine may currently consume.
    pub fn ram_consumed(&self) -> (r: u64)
        ensures
            r == ram_consumed_spec(self@),
    {
        match self.inner.status {
            Status::Requested | Status::Registering | Status::Registered | Status::Stopped => 0,
            Status::Starting | Status::Waiting | Status::Running | Status::Stopping => {
                self.ram_required()
            },
        }
    }

    /// Get the amount of RAM (in bytes) the machine would consume if it were
    /// started.
    pub fn ram_required(&self) -> (r: u64)
        ensures
            r == self@.machine_config.ram_bytes,
    {
        self.machine_config.ram_bytes
    }

    /// The generated, globally unique runner name of this machine.
    pub fn runner_name(&self) -> (r: &str)
        ensures
            r@ == self@.runner_name,
    {
        self.runner_name.as_str()
    }

    /// Is this the machine the runner name `name` addresses?
    pub fn has_runner_name(&self, name: &String) -> (r: bool)
        ensures
            r == (self@.runner_name == name@),
    {
        self.runner_name == *name
    }

    /// The amount of time the machine has already spent in the starting
    /// state, as of the instant `now` (in milliseconds of the same monotonic
    /// clock that `reschedule` was called with).
    ///
    /// E.g. the machine was booted but we did not observe it registering as
    /// runner yet via the API.
    pub fn starting_duration(&self, now: u64) -> (r: Option<u64>)
        ensures
            r == starting_duration_spec(self@, now),
    {
        match self.inner.status {
            Status::Starting => match self.inner.started {
                Some(s) => Some(if now >= s { now - s } else { 0 }),
                None => None,
            },
            _ => None,
        }
    }

    /// The current lifecycle state.
    pub fn status(&self) -> (r: Status)
        ensures
            r == self@.status,
    {
        self.inner.status
    }

    /// Register this machine as a JIT runner with the runner-issuing service.
    ///
    /// Registration has no RAM cost and is never blocked by budget. The
    /// actuation itself is a stub that always succeeds; a production
    /// collaborator performs the wire call and reports failures as a kill.
    fn register(&mut self)
        requires
            old(self)@.status is Requested,
        ensures
            final(self)@ == with_status(old(self)@, Status::Registered),
    {
        self.inner.status = Status::Registering;

        // Registration with the runner-issuing service would happen here; the
        // stub succeeds immediately.
        self.inner.status = Status::Registered;
    }

    /// Launch the backing VM and record when the launch began.
    ///
    /// Only the reschedule pass calls this, after confirming that the
    /// machine's RAM requirement fits into the available budget. The
    /// actuation itself is a stub that always succeeds.
    fn spawn(&mut self, now: u64)
        requires
            old(self)@.status is Registered,
        ensures
            final(self)@ == (MachineView {
                status: Status::Starting,
                started: Some(now),
                ..old(self)@
            }),
    {
        // Launching the VM would happen here; the stub succeeds immediately.
        self.inner.status = Status::Starting;
        self.inner.started = Some(now);
    }

    /// Stop this machine, set the status to stopped and maybe de-register the
    /// JIT runner.
    ///
    /// Applicable in every state; killing an already-stopped machine is a
    /// no-op beyond re-setting the same terminal state.
    pub fn kill(&mut self)
        ensures
            final(self)@ == killed(old(self)@),
    {
        // Tearing the VM down would happen here; the stub succeeds
        // immediately.
        self.inner.status = Status::Stopped;
    }

    /// Request a move of the machine through its state machine.
    ///
    /// This either triggers the registration as a JIT runner or launches the
    /// VM. Other progress in the state machine is made via `status_feedback`.
    ///
    /// The `ram_available` argument is used to decide if the machine can be
    /// spawned and is updated _if_ the machine was spawned. Leaving a
    /// registered machine unadvanced for want of RAM is normal backpressure,
    /// not an error.
    pub fn reschedule(&mut self, ram_available: &mut u64, now: u64)
        ensures
            final(self)@ == step_spec(old(self)@, *old(ram_available), now).0,
            *final(ram_available) == step_spec(old(self)@, *old(ram_available), now).1,
    {
        if self.status() == Status::Requested {
            self.register();
        }

        if self.status() == Status::Registered {
            let ram_required = self.ram_required();

            if ram_required > *ram_available {
                // Postpone starting due to insufficient RAM: normal
                // backpressure, not an error.
                return;
            }

            self.spawn(now);
            *ram_available = *ram_available - ram_required;
        }
    }

    /// Update the state of the machine using feedback from jobs and the
    /// runner API.
    ///
    /// The feedback we get from job states may be able to tell us if the
    /// machine is online (because it could not be processing a job otherwise)
    /// but it can not tell us if the machine is offline, hence the
    /// `Option<bool>`.
    pub fn status_feedback(&mut self, online: Option<bool>, busy: bool)
        ensures
            final(self)@ == with_status(
                old(self)@,
                next_status(old(self)@.status, online, busy),
            ),
    {
        let new = match (self.inner.status, online, busy) {
            // Stay in the current state.
            (Status::Requested, _, _) => Status::Requested,
            (Status::Registering, _, _) => Status::Registering,
            (Status::Registered, _, _) => Status::Registered,
            (Status::Starting, Some(false) | None, _) => Status::Starting,
            (Status::Waiting, Some(true) | None, false) => Status::Waiting,
            (Status::Running, Some(true) | None, true) => Status::Running,
            (Status::Stopping, _, _) => Status::Stopping,
            (Status::Stopped, _, _) => Status::Stopped,
            // The action runner on the machine has registered itself but does
            // not run a job yet.
            (Status::Starting, Some(true), false) => Status::Waiting,
            // The action runner has taken up a job.
            (Status::Starting | Status::Waiting, _, true) => Status::Running,
            // The job is complete and the machine about to stop.
            (Status::Waiting, Some(false), _)
            | (Status::Running, Some(false), _)
            | (Status::Running, _, false) => Status::Stopping,
        };

        self.inner.status = new;
    }
}

} // verus!

