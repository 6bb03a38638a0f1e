//! The fleet manager: the pool of live machines, the global RAM budget, and
//! the reconciliation passes that advance, create and preempt machines.

use vstd::prelude::*;

use crate::config::{lookup_spec, ConfigFile, MachineConfig};
use crate::machine::{
    cost_to_kill_spec, killed, next_status, ram_consumed_spec, runner_name_ok, step_spec,
    with_status, Machine, MachineView,
};
use crate::triplet::{Triplet, TripletView};

verus! {

/// An error the fleet manager reports to its caller.
#[derive(Clone, Copy, Debug, PartialEq, Eq, Structural)]
pub enum Error {
    /// A requested identity has no matching machine class in the
    /// configuration snapshot. Recovered locally: the request is dropped and
    /// may be retried once the configuration contains the class.
    UnknownMachineClass,
}

/// The views of a pool of machines, in pool order.
pub open spec fn views_of(pool: Seq<Machine>) -> Seq<MachineView> {
    pool.map_values(|m: Machine| m@)
}

/// The total RAM (in bytes) the machines of `pool` currently consume.
pub open spec fn sum_ram(pool: Seq<MachineView>) -> int
    decreases pool.len(),
{
    if pool.len() == 0 {
        0
    } else {
        ram_consumed_spec(pool[0]) + sum_ram(pool.skip(1))
    }
}

/// One whole reschedule pass over `pool` with `avail` bytes of RAM to hand
/// out, at instant `now`: every machine takes its advancement step in pool
/// order, threading the shrinking RAM counter from one to the next.
pub open spec fn pass_spec(pool: Seq<MachineView>, avail: u64, now: u64) -> (
    Seq<MachineView>,
    u64,
)
    decreases pool.len(),
{
    if pool.len() == 0 {
        (Seq::<MachineView>::empty(), avail)
    } else {
        let stepped = step_spec(pool[0], avail, now);
        let rest = pass_spec(pool.skip(1), stepped.1, now);
        (seq![stepped.0] + rest.0, rest.1)
    }
}

/// `pool` with every stopped machine swept out.
pub open spec fn swept(pool: Seq<MachineView>) -> Seq<MachineView> {
    pool.filter(|m: MachineView| !(m.status is Stopped))
}

/// Is `m` a live (non-terminal) machine demanded for the identity `t`?
pub open spec fn is_live_for(m: MachineView, t: TripletView) -> bool {
    m.triplet == t && !(m.status is Stopped)
}

/// May a demand drop for the identity `t` kill `m`? Only machines that are
/// not yet committed to a job may be preempted.
pub open spec fn is_killable_for(m: MachineView, t: TripletView) -> bool {
    m.triplet == t && m.status.is_available_spec()
}

/// The number of live machines `pool` holds for the identity `t`.
pub open spec fn live_count(pool: Seq<MachineView>, t: TripletView) -> int
    decreases pool.len(),
{
    if pool.len() == 0 {
        0
    } else {
        (if is_live_for(pool[0], t) {
            1int
        } else {
            0int
        }) + live_count(pool.skip(1), t)
    }
}

proof fn lemma_sum_ram_concat(a: Seq<MachineView>, b: Seq<MachineView>)
    ensures
        sum_ram(a + b) == sum_ram(a) + sum_ram(b),
    decreases a.len(),
{
    if a.len() == 0 {
        assert(a + b =~= b);
    } else {
        assert((a + b)[0] == a[0]);
        assert((a + b).skip(1) =~= a.skip(1) + b);
        lemma_sum_ram_concat(a.skip(1), b);
    }
}

proof fn lemma_sum_ram_push(s: Seq<MachineView>, x: MachineView)
    ensures
        sum_ram(s.push(x)) == sum_ram(s) + ram_consumed_spec(x),
{
    assert(s.push(x) =~= s + seq![x]);
    lemma_sum_ram_concat(s, seq![x]);
    assert(seq![x].skip(1) =~= Seq::<MachineView>::empty());
    assert(sum_ram(seq![x]) == ram_consumed_spec(x) + sum_ram(seq![x].skip(1)));
    assert(sum_ram(Seq::<MachineView>::empty()) == 0);
}

proof fn lemma_sum_ram_nonneg(s: Seq<MachineView>)
    ensures
        sum_ram(s) >= 0,
    decreases s.len(),
{
    if s.len() > 0 {
        lemma_sum_ram_nonneg(s.skip(1));
    }
}

proof fn lemma_sum_ram_update(s: Seq<MachineView>, j: int, x: MachineView)
    requires
        0 <= j < s.len(),
    ensures
        sum_ram(s.update(j, x)) == sum_ram(s) - ram_consumed_spec(s[j]) + ram_consumed_spec(x),
    decreases s.len(),
{
    if j == 0 {
        assert(s.update(0, x)[0] == x);
        assert(s.update(0, x).skip(1) =~= s.skip(1));
    } else {
        assert(s.update(j, x)[0] == s[0]);
        assert(s.update(j, x).skip(1) =~= s.skip(1).update(j - 1, x));
        lemma_sum_ram_update(s.skip(1), j - 1, x);
    }
}

/// The mathematical view of a `Manager`.
pub struct ManagerView {
    pub cfg: Seq<(TripletView, MachineConfig)>,
    pub total_ram_bytes: u64,
    pub pool: Seq<MachineView>,
}

impl ManagerView {
    /// The manager's invariant: what its live machines consume never exceeds
    /// the global RAM budget.
    pub open spec fn wf(self) -> bool {
        sum_ram(self.pool) <= self.total_ram_bytes
    }

    /// The RAM (in bytes) still free under the budget.
    pub open spec fn avail_spec(self) -> u64 {
        (self.total_ram_bytes - sum_ram(self.pool)) as u64
    }
}

/// The fleet manager: owns the pool of live machines and the global RAM
/// budget, creates machines to satisfy demand, advances each machine through
/// its lifecycle under the budget, and removes or preempts machines to free
/// resources.
pub struct Manager {
    cfg: ConfigFile,
    total_ram_bytes: u64,
    pool: Vec<Machine>,
}

impl View for Manager {
    type V = ManagerView;

    closed spec fn view(&self) -> ManagerView {
        ManagerView {
            cfg: self.cfg@,
            total_ram_bytes: self.total_ram_bytes,
            pool: views_of(self.pool@),
        }
    }
}

impl Manager {
    /// A manager with no machines yet, over the configuration snapshot `cfg`
    /// and a global budget of `total_ram_bytes` bytes of RAM.
    pub fn new(cfg: ConfigFile, total_ram_bytes: u64) -> (r: Manager)
        ensures
            r@.cfg == cfg@,
            r@.total_ram_bytes == total_ram_bytes,
            r@.pool == Seq::<MachineView>::empty(),
            r@.wf(),
    {
        let r = Manager { cfg, total_ram_bytes, pool: Vec::new() };
        proof {
            assert(r@.pool =~= Seq::<MachineView>::empty());
        }
        r
    }

    /// The pool of live machines, in creation order.
    pub fn machines(&self) -> (r: &Vec<Machine>)
        ensures
            views_of(r@) == self@.pool,
    {
        &self.pool
    }

    /// The global RAM budget (in bytes).
    pub fn total_ram_bytes(&self) -> (r: u64)
        ensures
            r == self@.total_ram_bytes,
    {
        self.total_ram_bytes
    }

    /// Record demand for one machine of the class `triplet` names: create a
    /// machine in the `Requested` state and add it to the pool.
    ///
    /// An identity unknown to the configuration snapshot fails with
    /// `UnknownMachineClass` and the request is dropped.
    pub fn request_machine(&mut self, triplet: Triplet) -> (r: Result<(), Error>)
        requires
            old(self)@.wf(),
        ensures
            final(self)@.cfg == old(self)@.cfg,
            final(self)@.total_ram_bytes == old(self)@.total_ram_bytes,
            final(self)@.wf(),
            match r {
                Ok(()) => {
                    &&& lookup_spec(old(self)@.cfg, triplet@) is Some
                    &&& final(self)@.pool.len() == old(self)@.pool.len() + 1
                    &&& final(self)@.pool.take(old(self)@.pool.len() as int) == old(self)@.pool
                    &&& is_fresh_machine_for(final(self)@.pool.last(), old(self)@.cfg, triplet@)
                },
                Err(Error::UnknownMachineClass) => {
                    &&& lookup_spec(old(self)@.cfg, triplet@) is None
                    &&& final(self)@.pool == old(self)@.pool
                },
            },
    {
        match Machine::new(&self.cfg, triplet) {
            Some(m) => {
                let ghost old_pool = self@.pool;
                let ghost mv = m@;
                self.pool.push(m);
                proof {
                    assert(self@.pool =~= old_pool.push(mv));
                    assert(self@.pool.take(old_pool.len() as int) =~= old_pool);
                    lemma_sum_ram_push(old_pool, mv);
                }
                Ok(())
            },
            None => Err(Error::UnknownMachineClass),
        }
    }

    /// One reschedule pass: compute the RAM still free under the budget, let
    /// every machine take its advancement step in creation order (earlier
    /// machines get first claim on the shrinking counter), then sweep every
    /// stopped machine out of the pool.
    ///
    /// Afterwards the pool never consumes more than the global budget.
    pub fn reschedule(&mut self, now: u64)
        requires
            old(self)@.wf(),
        ensures
            final(self)@.cfg == old(self)@.cfg,
            final(self)@.total_ram_bytes == old(self)@.total_ram_bytes,
            final(self)@.pool == swept(
                pass_spec(old(self)@.pool, old(self)@.avail_spec(), now).0,
            ),
            forall|j: int|
                0 <= j < final(self)@.pool.len() ==> !((#[trigger] final(self)@.pool[j]).status
                    is Stopped),
            sum_ram(final(self)@.pool) <= final(self)@.total_ram_bytes,
            final(self)@.wf(),
    {
        let ghost orig = self@.pool;

        // How much of the budget the pool currently holds.
        let mut consumed: u64 = 0;
        let mut i: usize = 0;
        while i < self.pool.len()
            invariant
                i <= self.pool.len(),
                self.total_ram_bytes == old(self)@.total_ram_bytes,
                self.cfg@ == old(self)@.cfg,
                views_of(self.pool@) == orig,
                orig == old(self)@.pool,
                sum_ram(orig) <= self.total_ram_bytes,
                consumed == sum_ram(orig.take(i as int)),
            decreases self.pool.len() - i,
        {
            proof {
                assert(orig.take(i + 1) =~= orig.take(i as int).push(orig[i as int]));
                lemma_sum_ram_push(orig.take(i as int), orig[i as int]);
                assert(orig.take(i + 1) + orig.skip(i + 1) =~= orig);
                lemma_sum_ram_concat(orig.take(i + 1), orig.skip(i + 1));
                lemma_sum_ram_nonneg(orig.skip(i + 1));
                assert(orig[i as int] == self.pool@[i as int]@);
            }
            consumed = consumed + self.pool[i].ram_consumed();
            i = i + 1;
        }
        proof {
            assert(orig.take(i as int) =~= orig);
            lemma_sum_ram_nonneg(orig);
        }

        let mut avail: u64 = self.total_ram_bytes - consumed;
        let ghost avail0 = avail;
        assert(avail0 == old(self)@.avail_spec());

        let mut old_pool: Vec<Machine> = Vec::new();
        core::mem::swap(&mut self.pool, &mut old_pool);
        let ghost mut stepped: Seq<MachineView> = Seq::<MachineView>::empty();
        proof {
            assert(views_of(self.pool@) =~= Seq::<MachineView>::empty());
            assert(views_of(old_pool@) =~= orig);
            assert(swept(stepped) =~= Seq::<MachineView>::empty());
        }

        while old_pool.len() > 0
            invariant
                self.total_ram_bytes == old(self)@.total_ram_bytes,
                self.cfg@ == old(self)@.cfg,
                pass_spec(orig, avail0, now).0 == stepped + pass_spec(
                    views_of(old_pool@),
                    avail,
                    now,
                ).0,
                pass_spec(orig, avail0, now).1 == pass_spec(views_of(old_pool@), avail, now).1,
                views_of(self.pool@) == swept(stepped),
                sum_ram(views_of(self.pool@)) + sum_ram(views_of(old_pool@)) + avail
                    == self.total_ram_bytes as int,
            decreases old_pool.len(),
        {
            let ghost remaining = views_of(old_pool@);
            let mut m = old_pool.remove(0);
            let ghost mv = m@;
            let ghost avail_pre = avail;
            proof {
                assert(mv == remaining[0]);
                assert(views_of(old_pool@) =~= remaining.skip(1));
            }

            m.reschedule(&mut avail, now);

            let ghost sv = step_spec(mv, avail_pre, now).0;
            proof {
                crate::machine::lemma_step_preserves_accounting(mv, avail_pre, now);
                // One unfolding of the pass at the head of the remainder.
                assert(pass_spec(remaining, avail_pre, now).0 == seq![sv] + pass_spec(
                    remaining.skip(1),
                    avail,
                    now,
                ).0);
                assert(stepped + pass_spec(remaining, avail_pre, now).0 =~= stepped.push(sv)
                    + pass_spec(remaining.skip(1), avail, now).0);
            }

            let ghost done_pre = views_of(self.pool@);
            if !m.status().is_stopped() {
                self.pool.push(m);
                proof {
                    assert(views_of(self.pool@) =~= done_pre.push(sv));
                    lemma_sum_ram_push(done_pre, sv);
                }
            }
            proof {
                let stepped_pre = stepped;
                stepped = stepped.push(sv);
                reveal(Seq::filter);
                assert(stepped.drop_last() =~= stepped_pre);
                assert(stepped.last() == sv);
            }
        }
        proof {
            assert(views_of(old_pool@) =~= Seq::<MachineView>::empty());
            assert(pass_spec(orig, avail0, now).0 =~= stepped);
            lemma_sum_ram_nonneg(views_of(old_pool@));
            broadcast use vstd::seq_lib::group_filter_ensures;

            // The sweep keeps exactly the machines the filter predicate
            // admits: none of them is stopped.
            assert forall|j: int|
                0 <= j < views_of(self.pool@).len() implies !((views_of(self.pool@)[j]).status
                is Stopped) by {
                assert(views_of(self.pool@) == stepped.filter(
                    |m: MachineView| !(m.status is Stopped),
                ));
            };
        }
    }

    /// Route a status/feedback signal to the machine named `runner_name`.
    ///
    /// Returns whether the pool holds a machine of that name; a signal for an
    /// unknown name is dropped.
    pub fn apply_feedback(&mut self, runner_name: &String, online: Option<bool>, busy: bool) -> (r:
        bool)
        requires
            old(self)@.wf(),
        ensures
            final(self)@.cfg == old(self)@.cfg,
            final(self)@.total_ram_bytes == old(self)@.total_ram_bytes,
            final(self)@.wf(),
            r == exists|j: int|
                0 <= j < old(self)@.pool.len() && (#[trigger] old(self)@.pool[j]).runner_name
                    == runner_name@,
            !r ==> final(self)@.pool == old(self)@.pool,
            r ==> exists|j: int|
                {
                    &&& 0 <= j < old(self)@.pool.len()
                    &&& (#[trigger] old(self)@.pool[j]).runner_name == runner_name@
                    &&& forall|k: int|
                        0 <= k < j ==> (#[trigger] old(self)@.pool[k]).runner_name != runner_name@
                    &&& final(self)@.pool == old(self)@.pool.update(
                        j,
                        with_status(
                            old(self)@.pool[j],
                            next_status(old(self)@.pool[j].status, online, busy),
                        ),
                    )
                },
    {
        let mut i: usize = 0;
        while i < self.pool.len()
            invariant
                i <= self.pool.len(),
                self.total_ram_bytes == old(self)@.total_ram_bytes,
                self.cfg@ == old(self)@.cfg,
                views_of(self.pool@) == old(self)@.pool,
                old(self)@.wf(),
                forall|k: int|
                    0 <= k < i ==> (#[trigger] old(self)@.pool[k]).runner_name != runner_name@,
            decreases self.pool.len() - i,
        {
            proof {
                assert(old(self)@.pool[i as int] == self.pool@[i as int]@);
            }
            if self.pool[i].has_runner_name(runner_name) {
                let ghost pool0 = self@.pool;
                let mut m = self.pool.remove(i);
                m.status_feedback(online, busy);
                let ghost mv = m@;
                self.pool.insert(i, m);
                proof {
                    assert(views_of(self.pool@) =~= pool0.update(i as int, mv));
                    lemma_sum_ram_update(pool0, i as int, mv);
                    crate::machine::lemma_feedback_never_grows(pool0[i as int], online, busy);
                }
                return true;
            }
            i = i + 1;
        }
        false
    }

    /// Reconcile the demand for the identity `triplet` with the pool: create
    /// `Requested` machines to cover a shortfall against `desired`, or, on a
    /// surplus, kill the surplus number of cheapest-to-kill machines for that
    /// identity among those not yet committed to a job. Machines already
    /// committed to a job are never forcibly killed by a demand drop.
    pub fn reconcile_demand(&mut self, triplet: &Triplet, desired: usize) -> (r: Result<(), Error>)
        requires
            old(self)@.wf(),
        ensures
            final(self)@.cfg == old(self)@.cfg,
            final(self)@.total_ram_bytes == old(self)@.total_ram_bytes,
            final(self)@.wf(),
            reconcile_outcome(old(self)@, final(self)@, triplet@, desired as int, r),
    {
        let ghost pool0 = self@.pool;
        let ghost t = triplet@;

        // Count the live (non-terminal) machines for this identity.
        let mut live: usize = 0;
        let mut i: usize = 0;
        proof {
            assert(pool0.skip(0) =~= pool0);
        }
        while i < self.pool.len()
            invariant
                i <= self.pool.len(),
                self.total_ram_bytes == old(self)@.total_ram_bytes,
                self.cfg@ == old(self)@.cfg,
                views_of(self.pool@) == pool0,
                pool0 == old(self)@.pool,
                t == triplet@,
                old(self)@.wf(),
                live <= i,
                live + live_count(pool0.skip(i as int), t) == live_count(pool0, t),
            decreases self.pool.len() - i,
        {
            proof {
                assert(pool0.skip(i as int)[0] == pool0[i as int]);
                assert(pool0.skip(i as int).skip(1) =~= pool0.skip(i + 1));
                assert(pool0[i as int] == self.pool@[i as int]@);
            }
            let m = &self.pool[i];
            let is_live = m.triplet() == triplet && !m.status().is_stopped();
            proof {
                // One unfolding of the live count at the head of the rest.
                assert(live_count(pool0.skip(i as int), t) == (if is_live_for(
                    pool0[i as int],
                    t,
                ) {
                    1int
                } else {
                    0int
                }) + live_count(pool0.skip(i + 1), t));
            }
            if is_live {
                live = live + 1;
            }
            i = i + 1;
        }
        proof {
            assert(pool0.skip(self.pool.len() as int) =~= Seq::<MachineView>::empty());
            assert(live == live_count(pool0, t));
        }

        if live < desired {
            // Shortfall: make sure the class is known, then cover it with
            // fresh machines.
            match self.cfg.lookup(triplet) {
                None => {
                    proof {
                        assert(reconcile_outcome(
                            old(self)@,
                            self@,
                            t,
                            desired as int,
                            Err(Error::UnknownMachineClass),
                        ));
                    }
                    return Err(Error::UnknownMachineClass);
                },
                Some(_) => {},
            }
            let needed = desired - live;
            let mut k: usize = 0;
            while k < needed
                invariant
                    k <= needed,
                    self.total_ram_bytes == old(self)@.total_ram_bytes,
                    self.cfg@ == old(self)@.cfg,
                    pool0 == old(self)@.pool,
                    t == triplet@,
                    lookup_spec(old(self)@.cfg, t) is Some,
                    views_of(self.pool@).len() == pool0.len() + k,
                    views_of(self.pool@).take(pool0.len() as int) == pool0,
                    forall|j: int|
                        pool0.len() <= j < views_of(self.pool@).len() ==> is_fresh_machine_for(
                            #[trigger] views_of(self.pool@)[j],
                            old(self)@.cfg,
                            t,
                        ),
                    sum_ram(views_of(self.pool@)) == sum_ram(pool0),
                    old(self)@.wf(),
                decreases needed - k,
            {
                let ghost cur = views_of(self.pool@);
                match Machine::new(&self.cfg, triplet.clone()) {
                    Some(m) => {
                        let ghost mv = m@;
                        self.pool.push(m);
                        proof {
                            assert(views_of(self.pool@) =~= cur.push(mv));
                            lemma_sum_ram_push(cur, mv);
                            assert(views_of(self.pool@).take(pool0.len() as int) =~= cur.take(
                                pool0.len() as int,
                            ));
                        }
                    },
                    None => {
                        proof {
                            assert(false);
                        }
                    },
                }
                k = k + 1;
            }
            proof {
                assert(reconcile_outcome(old(self)@, self@, t, desired as int, Ok(())));
            }
            Ok(())
        } else if live == desired {
            proof {
                assert(reconcile_outcome(old(self)@, self@, t, desired as int, Ok(())));
            }
            Ok(())
        } else {
            // Surplus: kill the cheapest preemptible machines, one at a time,
            // until the surplus is covered or no machine may be preempted.
            let mut remaining = live - desired;
            let ghost mut ks: Set<int> = Set::<int>::empty();
            let mut none_left = false;
            proof {
                assert(ks.len() == 0);
            }
            while remaining > 0 && !none_left
                invariant
                    self.total_ram_bytes == old(self)@.total_ram_bytes,
                    self.cfg@ == old(self)@.cfg,
                    pool0 == old(self)@.pool,
                    t == triplet@,
                    desired < live,
                    live == live_count(pool0, t),
                    ks.finite(),
                    ks.len() + remaining == live - desired,
                    views_of(self.pool@).len() == pool0.len(),
                    forall|idx: int| #[trigger]
                        ks.contains(idx) ==> 0 <= idx < pool0.len() && is_killable_for(
                            pool0[idx],
                            t,
                        ) && views_of(self.pool@)[idx] == killed(pool0[idx]),
                    forall|idx: int|
                        0 <= idx < pool0.len() && !ks.contains(idx) ==> views_of(self.pool@)[idx]
                            == #[trigger] pool0[idx],
                    forall|i2: int, j2: int|
                        #[trigger] ks.contains(i2) && 0 <= j2 < pool0.len() && is_killable_for(
                            #[trigger] pool0[j2],
                            t,
                        ) && !ks.contains(j2) ==> cost_to_kill_spec(pool0[i2].status)
                            <= cost_to_kill_spec(pool0[j2].status),
                    sum_ram(views_of(self.pool@)) <= sum_ram(pool0),
                    old(self)@.wf(),
                    none_left ==> (forall|j2: int|
                        0 <= j2 < pool0.len() && is_killable_for(#[trigger] pool0[j2], t)
                            ==> ks.contains(j2)),
                decreases remaining, (if none_left { 0int } else { 1int }),
            {
                match self.cheapest_available_index(triplet) {
                    Some(b) => {
                        let ghost cur = views_of(self.pool@);
                        let mut m = self.pool.remove(b);
                        m.kill();
                        let ghost mv = m@;
                        self.pool.insert(b, m);
                        proof {
                            assert(views_of(self.pool@) =~= cur.update(b as int, mv));
                            lemma_sum_ram_update(cur, b as int, mv);
                            // A machine already killed is stopped, so it is
                            // not preemptible again: `b` is fresh.
                            assert(!ks.contains(b as int));
                            assert(cur[b as int] == pool0[b as int]);
                            assert forall|j2: int|
                                0 <= j2 < pool0.len() && is_killable_for(
                                    #[trigger] pool0[j2],
                                    t,
                                ) && !ks.contains(j2) implies cost_to_kill_spec(
                                pool0[b as int].status,
                            ) <= cost_to_kill_spec(pool0[j2].status) by {
                                assert(cur[j2] == pool0[j2]);
                            };
                            vstd::set::axiom_set_insert_len(ks, b as int);
                            ks = ks.insert(b as int);
                        }
                        remaining = remaining - 1;
                    },
                    None => {
                        proof {
                            assert forall|j2: int|
                                0 <= j2 < pool0.len() && is_killable_for(
                                    #[trigger] pool0[j2],
                                    t,
                                ) implies ks.contains(j2) by {
                                if !ks.contains(j2) {
                                    assert(views_of(self.pool@)[j2] == pool0[j2]);
                                }
                            };
                        }
                        none_left = true;
                    },
                }
            }
            proof {
                assert(demand_drop_outcome(pool0, views_of(self.pool@), t, desired as int, ks));
                assert(reconcile_outcome(old(self)@, self@, t, desired as int, Ok(())));
            }
            Ok(())
        }
    }

    /// Kill every machine that has been stuck in `Starting` for at least
    /// `timeout` milliseconds as of the instant `now`.
    ///
    /// A stuck machine is treated as failed: it is killed here, the next pass
    /// sweeps it, and demand reconciliation re-requests a fresh machine if
    /// demand still exists (retry by recreation, not in place).
    pub fn kill_stuck_machines(&mut self, now: u64, timeout: u64)
        requires
            old(self)@.wf(),
        ensures
            final(self)@.cfg == old(self)@.cfg,
            final(self)@.total_ram_bytes == old(self)@.total_ram_bytes,
            final(self)@.wf(),
            final(self)@.pool.len() == old(self)@.pool.len(),
            forall|j: int|
                0 <= j < old(self)@.pool.len() ==> final(self)@.pool[j] == (if is_stuck(
                    #[trigger] old(self)@.pool[j],
                    now,
                    timeout,
                ) {
                    killed(old(self)@.pool[j])
                } else {
                    old(self)@.pool[j]
                }),
    {
        let ghost pool0 = self@.pool;
        let mut i: usize = 0;
        while i < self.pool.len()
            invariant
                i <= self.pool.len(),
                self.total_ram_bytes == old(self)@.total_ram_bytes,
                self.cfg@ == old(self)@.cfg,
                pool0 == old(self)@.pool,
                views_of(self.pool@).len() == pool0.len(),
                forall|j: int|
                    0 <= j < i ==> views_of(self.pool@)[j] == (if is_stuck(
                        #[trigger] pool0[j],
                        now,
                        timeout,
                    ) {
                        killed(pool0[j])
                    } else {
                        pool0[j]
                    }),
                forall|j: int| i <= j < pool0.len() ==> views_of(self.pool@)[j] == #[trigger] pool0[j],
                sum_ram(views_of(self.pool@)) <= sum_ram(pool0),
                old(self)@.wf(),
            decreases self.pool.len() - i,
        {
            proof {
                assert(views_of(self.pool@)[i as int] == self.pool@[i as int]@);
            }
            let stuck = match self.pool[i].starting_duration(now) {
                Some(d) => d >= timeout,
                None => false,
            };
            if stuck {
                let ghost cur = views_of(self.pool@);
                let mut m = self.pool.remove(i);
                m.kill();
                let ghost mv = m@;
                self.pool.insert(i, m);
                proof {
                    assert(views_of(self.pool@) =~= cur.update(i as int, mv));
                    lemma_sum_ram_update(cur, i as int, mv);
                }
            }
            i = i + 1;
        }
    }

    /// The index of a cheapest-to-kill machine among those a demand drop for
    /// `triplet` may preempt, or `None` when no machine may be.
    fn cheapest_available_index(&self, triplet: &Triplet) -> (r: Option<usize>)
        ensures
            match r {
                Some(b) => {
                    &&& 0 <= b < self@.pool.len()
                    &&& is_killable_for(self@.pool[b as int], triplet@)
                    &&& forall|j: int|
                        0 <= j < self@.pool.len() && is_killable_for(
                            #[trigger] self@.pool[j],
                            triplet@,
                        ) ==> cost_to_kill_spec(self@.pool[b as int].status) <= cost_to_kill_spec(
                            self@.pool[j].status,
                        )
                },
                None => forall|j: int|
                    0 <= j < self@.pool.len() ==> !is_killable_for(
                        #[trigger] self@.pool[j],
                        triplet@,
                    ),
            },
    {
        let mut best: Option<usize> = None;
        let mut best_cost: u32 = 0;
        let mut i: usize = 0;
        while i < self.pool.len()
            invariant
                i <= self.pool.len(),
                match best {
                    Some(b) => {
                        &&& 0 <= b < i
                        &&& is_killable_for(self@.pool[b as int], triplet@)
                        &&& best_cost == cost_to_kill_spec(self@.pool[b as int].status)
                        &&& forall|j: int|
                            0 <= j < i && is_killable_for(#[trigger] self@.pool[j], triplet@)
                                ==> best_cost <= cost_to_kill_spec(self@.pool[j].status)
                    },
                    None => forall|j: int|
                        0 <= j < i ==> !is_killable_for(#[trigger] self@.pool[j], triplet@),
                },
            decreases self.pool.len() - i,
        {
            proof {
                assert(self@.pool[i as int] == self.pool@[i as int]@);
            }
            let m = &self.pool[i];
            if m.triplet() == triplet && m.status().is_available() {
                let c = m.cost_to_kill();
                match best {
                    None => {
                        best = Some(i);
                        best_cost = c;
                    },
                    Some(_) => {
                        if c < best_cost {
                            best = Some(i);
                            best_cost = c;
                        }
                    },
                }
            }
            i = i + 1;
        }
        best
    }
}

/// Has the machine `m` been stuck in `Starting` for at least `timeout`
/// milliseconds as of the instant `now`?
pub open spec fn is_stuck(m: MachineView, now: u64, timeout: u64) -> bool {
    match crate::machine::starting_duration_spec(m, now) {
        Some(d) => d >= timeout,
        None => false,
    }
}

/// The outcome `reconcile_demand` promises for the identity `t` and the
/// desired count `desired`: a shortfall is covered with fresh machines (or
/// reported when the class is unknown), an exact match changes nothing, and a
/// surplus kills the cheapest preemptible machines.
pub open spec fn reconcile_outcome(
    pre: ManagerView,
    post: ManagerView,
    t: TripletView,
    desired: int,
    r: Result<(), Error>,
) -> bool {
    match r {
        Ok(()) => {
            if live_count(pre.pool, t) < desired {
                &&& lookup_spec(pre.cfg, t) is Some
                &&& post.pool.len() == pre.pool.len() + desired - live_count(pre.pool, t)
                &&& post.pool.take(pre.pool.len() as int) == pre.pool
                &&& forall|k: int|
                    pre.pool.len() <= k < post.pool.len() ==> is_fresh_machine_for(
                        #[trigger] post.pool[k],
                        pre.cfg,
                        t,
                    )
            } else if live_count(pre.pool, t) == desired {
                post.pool == pre.pool
            } else {
                exists|ks: Set<int>| demand_drop_outcome(pre.pool, post.pool, t, desired, ks)
            }
        },
        Err(Error::UnknownMachineClass) => {
            &&& live_count(pre.pool, t) < desired
            &&& lookup_spec(pre.cfg, t) is None
            &&& post.pool == pre.pool
        },
    }
}

/// The outcome of a demand drop for the identity `t` down to `desired`
/// machines: `pool1` is `pool0` with the machines at the index set `ks`
/// killed. Only machines not yet committed to a job are preempted, cheapest
/// first, and no more of them than the surplus; fewer only when the
/// preemptible machines run out.
pub open spec fn demand_drop_outcome(
    pool0: Seq<MachineView>,
    pool1: Seq<MachineView>,
    t: TripletView,
    desired: int,
    ks: Set<int>,
) -> bool {
    &&& ks.finite()
    &&& pool1.len() == pool0.len()
    &&& (forall|i: int| #[trigger]
        ks.contains(i) ==> 0 <= i < pool0.len() && is_killable_for(pool0[i], t) && pool1[i]
            == killed(pool0[i]))
    &&& (forall|i: int|
        0 <= i < pool0.len() && !ks.contains(i) ==> pool1[i] == #[trigger] pool0[i])
    &&& ks.len() <= live_count(pool0, t) - desired
    &&& (ks.len() == live_count(pool0, t) - desired || (forall|i: int|
        0 <= i < pool0.len() && is_killable_for(#[trigger] pool0[i], t) ==> ks.contains(i)))
    &&& (forall|i: int, j: int|
        #[trigger] ks.contains(i) && 0 <= j < pool0.len() && is_killable_for(
            #[trigger] pool0[j],
            t,
        ) && !ks.contains(j) ==> cost_to_kill_spec(pool0[i].status) <= cost_to_kill_spec(
            pool0[j].status,
        ))
}

/// Is `m` what a just-created machine for the identity `t` under the
/// configuration snapshot `cfg` looks like: requested, not yet launched, with
/// its class's configuration resolved and a well-formed runner name?
pub open spec fn is_fresh_machine_for(
    m: MachineView,
    cfg: Seq<(TripletView, MachineConfig)>,
    t: TripletView,
) -> bool {
    &&& m.cfg == cfg
    &&& m.triplet == t
    &&& m.status is Requested
    &&& m.started is None
    &&& Some(m.machine_config) == lookup_spec(cfg, t)
    &&& runner_name_ok(m.runner_name, t.machine_name)
}

} // verus!
