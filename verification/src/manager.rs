//! The registry: the supervisors of all services, by name, which of them
//! have a worker, and which of those were asked to stop. It decides who is
//! to be started, supervised and stopped; the caller runs the workers and
//! reports when one has ended.

use vstd::prelude::*;
use crate::errors::{BloomError, Fault};
use crate::ordering::places;
use crate::service::{shown, Service};
use crate::service_file::ServiceFile;
use crate::text::{append_chars, chars_of, string_of};
use crate::status::ServiceState;
use crate::supervisor::{
    consistent, fresh, revived, supervise, Mode, Supervision, Supervisor, SupervisorAction,
    SupervisorEvent,
};
use crate::text::same_str;

verus! {

/// Seconds that shutdown waits for one worker to end.
pub const JOIN_LIMIT_SECS: u64 = 10;

/// The registry of supervisors.
pub struct Manager {
    /// The supervisors, in the order in which they were registered.
    pub supervisors: Vec<Supervisor>,
    /// For each supervisor, whether a worker runs it: from the moment the
    /// worker is asked for until the caller reports that it has ended.
    pub workers: Vec<bool>,
    /// For each supervisor, whether its worker was asked to stop.
    pub stopping: Vec<bool>,
    /// Whether shutdown has begun.
    pub shutting_down: bool,
}

/// The mathematical content of a [`Manager`].
pub struct Registry {
    pub supervisors: Seq<Supervision>,
    pub workers: Seq<bool>,
    pub stopping: Seq<bool>,
    pub shutting_down: bool,
}

/// The supervisions that a vector of supervisors holds.
pub open spec fn supervisions(v: Seq<Supervisor>) -> Seq<Supervision> {
    Seq::new(v.len(), |i: int| v[i]@)
}

impl View for Manager {
    type V = Registry;

    open spec fn view(&self) -> Registry {
        Registry {
            supervisors: supervisions(self.supervisors@),
            workers: self.workers@,
            stopping: self.stopping@,
            shutting_down: self.shutting_down,
        }
    }
}

impl Registry {
    /// Every supervisor has its two marks, only a worker that there is was
    /// asked to stop, no two supervisors have the same name, and every
    /// supervisor is consistent.
    pub open spec fn wf(self) -> bool {
        &&& self.workers.len() == self.supervisors.len()
        &&& self.stopping.len() == self.supervisors.len()
        &&& forall|i: int| 0 <= i < self.stopping.len() ==> (#[trigger] self.stopping[i]
            ==> self.workers[i])
        &&& forall|i: int|
            0 <= i < self.supervisors.len() ==> consistent(#[trigger] self.supervisors[i])
        &&& forall|i: int, j: int|
            0 <= i < j < self.supervisors.len() ==> (#[trigger] self.supervisors[i]).d.name != (
            #[trigger] self.supervisors[j]).d.name
    }

    /// Whether a service `name` is registered.
    pub open spec fn has(self, name: Seq<char>) -> bool {
        exists|i: int| 0 <= i < self.supervisors.len() && (#[trigger] self.supervisors[i]).d.name == name
    }

    /// The places, in order, of the supervisors among `0..k` that `pick`
    /// chooses.
    pub open spec fn chosen(self, pick: spec_fn(Registry, int) -> bool, k: int) -> Seq<int>
        decreases k,
    {
        if k <= 0 {
            Seq::empty()
        } else if pick(self, k - 1) {
            self.chosen(pick, k - 1).push(k - 1)
        } else {
            self.chosen(pick, k - 1)
        }
    }

    /// Supervisor `i` is to get a worker at boot: its service names a
    /// startup package and it needs a worker.
    pub open spec fn boots(self, i: int) -> bool {
        self.supervisors[i].d.starts_at_boot() && self.idle(i)
    }

    /// Supervisor `i` needs a worker: it has none, and its loop has not
    /// ended.
    pub open spec fn idle(self, i: int) -> bool {
        !self.workers[i] && self.supervisors[i].mode != Mode::Finished
    }

    /// Supervisor `i` has a worker.
    pub open spec fn busy(self, i: int) -> bool {
        self.workers[i]
    }

    /// The registry after a call for shutdown: the shutdown flag is set,
    /// and nothing else is changed. The workers keep their marks until they
    /// are reported to have ended.
    pub open spec fn after_shutdown(self) -> Registry {
        Registry { shutting_down: true, ..self }
    }

    /// The service of supervisor `i` runs or is about to: it has a worker,
    /// which may still be stopping it, or its supervisor holds a process.
    pub open spec fn running(self, i: int) -> bool {
        self.workers[i] || self.supervisors[i].child is Some
    }

    /// The supervisors that a call for shutdown wants stopped and joined:
    /// at the first call those that have a worker, in order; at a later call
    /// none.
    pub open spec fn to_stop(self) -> Seq<int> {
        if self.shutting_down {
            Seq::empty()
        } else {
            self.chosen(|m: Registry, i: int| m.busy(i), self.supervisors.len() as int)
        }
    }

    /// The registry with a worker marked for each supervisor that `pick`
    /// chooses.
    pub open spec fn with_workers(self, pick: spec_fn(Registry, int) -> bool) -> Registry {
        Registry {
            workers: Seq::new(self.workers.len(), |i: int| self.workers[i] || pick(self, i)),
            ..self
        }
    }
}

impl Manager {
    /// A registry without supervisors.
    pub fn new() -> (m: Manager)
        ensures
            m@.wf(),
            m@.supervisors.len() == 0,
            !m@.shutting_down,
    {
        Manager {
            supervisors: Vec::new(),
            workers: Vec::new(),
            stopping: Vec::new(),
            shutting_down: false,
        }
    }

    /// Whether the registry is valid: every supervisor has its two marks,
    /// only a worker that there is was asked to stop, no two supervisors
    /// have the same name, and every supervisor is consistent.
    pub fn is_well_formed(&self) -> (r: bool)
        ensures
            r == self@.wf(),
    {
        let n = self.supervisors.len();
        if self.workers.len() != n || self.stopping.len() != n {
            return false;
        }
        let mut i: usize = 0;
        while i < n
            invariant
                i <= n,
                n == self@.supervisors.len(),
                self@.workers.len() == n,
                self@.stopping.len() == n,
                forall|k: int| 0 <= k < i ==> consistent(#[trigger] self@.supervisors[k]),
                forall|k: int| 0 <= k < i ==> (#[trigger] self@.stopping[k] ==> self@.workers[k]),
                forall|a: int, b: int|
                    0 <= a < b < i ==> (#[trigger] self@.supervisors[a]).d.name != (
                    #[trigger] self@.supervisors[b]).d.name,
            decreases n - i,
        {
            if !self.supervisors[i].is_consistent() {
                proof {
                    assert(!consistent(self@.supervisors[i as int]));
                }
                return false;
            }
            if self.stopping[i] && !self.workers[i] {
                proof {
                    assert(self@.stopping[i as int] && !self@.workers[i as int]);
                }
                return false;
            }
            let mut j: usize = 0;
            while j < i
                invariant
                    j <= i,
                    i < n,
                    n == self@.supervisors.len(),
                    forall|a: int|
                        0 <= a < j ==> (#[trigger] self@.supervisors[a]).d.name
                            != self@.supervisors[i as int].d.name,
                decreases i - j,
            {
                if same_str(
                    self.supervisors[j].service.name.as_str(),
                    self.supervisors[i].service.name.as_str(),
                ) {
                    proof {
                        assert(self@.supervisors[j as int].d.name == self@.supervisors[i as int].d.name);
                    }
                    return false;
                }
                j += 1;
            }
            i += 1;
        }
        true
    }

    /// The place of the supervisor of the service `name`.
    pub fn find(&self, name: &str) -> (r: Option<usize>)
        ensures
            match r {
                Some(i) => i < self@.supervisors.len() && self@.supervisors[i as int].d.name
                    == name@ && forall|k: int|
                    0 <= k < i ==> (#[trigger] self@.supervisors[k]).d.name != name@,
                None => !self@.has(name@),
            },
    {
        let mut i: usize = 0;
        while i < self.supervisors.len()
            invariant
                i <= self.supervisors.len(),
                forall|k: int| 0 <= k < i ==> (#[trigger] self@.supervisors[k]).d.name != name@,
            decreases self.supervisors.len() - i,
        {
            if same_str(self.supervisors[i].service.name.as_str(), name) {
                return Some(i);
            }
            i += 1;
        }
        None
    }

    /// Registers a service: it gets a fresh supervisor, after those that
    /// are there. A name that is taken is refused as `AlreadyRegistered`,
    /// and the registry stays as it is.
    pub fn register(&mut self, descriptor: ServiceFile) -> (r: Result<(), BloomError>)
        requires
            old(self)@.wf(),
        ensures
            final(self)@.wf(),
            match r {
                Ok(_) => !old(self)@.has(descriptor@.name) && final(self)@ == (Registry {
                    supervisors: old(self)@.supervisors.push(fresh(descriptor@)),
                    workers: old(self)@.workers.push(false),
                    stopping: old(self)@.stopping.push(false),
                    ..old(self)@
                }),
                Err(e) => old(self)@.has(descriptor@.name) && e@ == Fault::AlreadyRegistered(
                    descriptor@.name,
                ) && final(self)@ == old(self)@,
            },
    {
        match self.find(descriptor.name.as_str()) {
            Some(_) => Err(BloomError::AlreadyRegistered(descriptor.name.clone())),
            None => {
                let ghost before = self@;
                self.supervisors.push(Supervisor::new(descriptor));
                self.workers.push(false);
                self.stopping.push(false);
                proof {
                    assert(self@.supervisors =~= before.supervisors.push(fresh(descriptor@)));
                    assert forall|i: int, j: int|
                        0 <= i < j < self@.supervisors.len() implies (
                    #[trigger] self@.supervisors[i]).d.name != (
                    #[trigger] self@.supervisors[j]).d.name by {
                        if j == before.supervisors.len() {
                            assert(before.supervisors[i].d.name != descriptor@.name);
                        } else {
                            assert(before.supervisors[i].d.name != before.supervisors[j].d.name);
                        }
                    }
                }
                Ok(())
            },
        }
    }

    /// The state of the service `name`, or `NotFound`.
    pub fn state_of(&self, name: &str) -> (r: Result<ServiceState, BloomError>)
        ensures
            match r {
                Ok(st) => exists|i: int|
                    0 <= i < self@.supervisors.len() && (#[trigger] self@.supervisors[i]).d.name
                        == name@ && self@.supervisors[i].state == st,
                Err(e) => !self@.has(name@) && e@ == Fault::NotFound(name@),
            },
    {
        match self.find(name) {
            Some(i) => {
                proof {
                    assert(self@.supervisors[i as int].d.name == name@);
                }
                Ok(self.supervisors[i].state)
            },
            None => Err(BloomError::NotFound(name.to_owned())),
        }
    }

    /// What is shown of every service, in the order of registration.
    pub fn status(&self) -> (r: Vec<Service>)
        ensures
            r@.len() == self@.supervisors.len(),
            forall|i: int|
                0 <= i < r@.len() ==> (#[trigger] r@[i])@ == shown(
                    self@.supervisors[i].d,
                    self@.supervisors[i].state,
                ),
    {
        let mut r: Vec<Service> = Vec::new();
        let mut i: usize = 0;
        while i < self.supervisors.len()
            invariant
                i <= self.supervisors.len(),
                r@.len() == i,
                forall|k: int|
                    0 <= k < i ==> (#[trigger] r@[k])@ == shown(
                        self@.supervisors[k].d,
                        self@.supervisors[k].state,
                    ),
            decreases self.supervisors.len() - i,
        {
            r.push(Service::of(&self.supervisors[i].service, self.supervisors[i].state));
            i += 1;
        }
        r
    }

    /// Marks a worker for each supervisor that has none and that `boot`
    /// or any service selects, and lists them in order.
    fn claim(&mut self, boot_only: bool) -> (r: Vec<usize>)
        requires
            old(self)@.wf(),
        ensures
            final(self)@.wf(),
            places(r@) == old(self)@.chosen(
                if boot_only {
                    |m: Registry, i: int| m.boots(i)
                } else {
                    |m: Registry, i: int| m.idle(i)
                },
                old(self)@.supervisors.len() as int,
            ),
            final(self)@ == old(self)@.with_workers(
                if boot_only {
                    |m: Registry, i: int| m.boots(i)
                } else {
                    |m: Registry, i: int| m.idle(i)
                },
            ),
            forall|p: int| 0 <= p < r@.len() ==> #[trigger] r@[p] < old(self)@.supervisors.len(),
    {
        let ghost before = self@;
        let ghost pick = if boot_only {
            |m: Registry, i: int| m.boots(i)
        } else {
            |m: Registry, i: int| m.idle(i)
        };
        let mut r: Vec<usize> = Vec::new();
        let n = self.supervisors.len();
        let mut i: usize = 0;
        proof {
            assert(places(r@) =~= Seq::<int>::empty());
        }
        while i < n
            invariant
                i <= n,
                n == before.supervisors.len(),
                before.wf(),
                self@.supervisors == before.supervisors,
                self@.shutting_down == before.shutting_down,
                self@.stopping == before.stopping,
                self@.workers.len() == n,
                pick == if boot_only {
                    |m: Registry, i: int| m.boots(i)
                } else {
                    |m: Registry, i: int| m.idle(i)
                },
                places(r@) == before.chosen(pick, i as int),
                forall|p: int| 0 <= p < r@.len() ==> #[trigger] r@[p] < n,
                forall|k: int|
                    0 <= k < i ==> #[trigger] self@.workers[k] == (before.workers[k] || pick(
                        before,
                        k,
                    )),
                forall|k: int| i <= k < n ==> #[trigger] self@.workers[k] == before.workers[k],
            decreases n - i,
        {
            let ended = match self.supervisors[i].mode {
                Mode::Finished => true,
                _ => false,
            };
            let wanted = !self.workers[i] && !ended && (!boot_only
                || self.supervisors[i].service.starts_at_boot());
            proof {
                assert(self@.supervisors[i as int] == before.supervisors[i as int]);
                assert(wanted == pick(before, i as int));
            }
            if wanted {
                let ghost so_far = places(r@);
                r.push(i);
                self.workers.set(i, true);
                proof {
                    assert(places(r@) =~= so_far.push(i as int));
                }
            }
            i += 1;
        }
        proof {
            assert(self@.workers =~= before.with_workers(pick).workers);
        }
        r
    }

    /// The supervisors to start at boot: those whose services name a
    /// startup package and that have no worker yet, in the order in which
    /// they were registered. Each is marked as having a worker. After
    /// shutdown has begun there are none.
    pub fn start_startup_services(&mut self) -> (r: Vec<usize>)
        requires
            old(self)@.wf(),
        ensures
            final(self)@.wf(),
            old(self)@.shutting_down ==> r@.len() == 0 && final(self)@ == old(self)@,
            !old(self)@.shutting_down ==> places(r@) == old(self)@.chosen(
                |m: Registry, i: int| m.boots(i),
                old(self)@.supervisors.len() as int,
            ) && final(self)@ == old(self)@.with_workers(|m: Registry, i: int| m.boots(i)),
            forall|p: int| 0 <= p < r@.len() ==> #[trigger] r@[p] < final(self)@.supervisors.len(),
    {
        if self.shutting_down {
            return Vec::new();
        }
        self.claim(true)
    }

    /// The supervisors that need a worker: those that have none and whose
    /// loop has not ended, in order. Each is marked as having one, so that
    /// asking again lists none. After shutdown has begun there are none.
    pub fn supervise_all(&mut self) -> (r: Vec<usize>)
        requires
            old(self)@.wf(),
        ensures
            final(self)@.wf(),
            old(self)@.shutting_down ==> r@.len() == 0 && final(self)@ == old(self)@,
            !old(self)@.shutting_down ==> places(r@) == old(self)@.chosen(
                |m: Registry, i: int| m.idle(i),
                old(self)@.supervisors.len() as int,
            ) && final(self)@ == old(self)@.with_workers(|m: Registry, i: int| m.idle(i)),
            forall|p: int| 0 <= p < r@.len() ==> #[trigger] r@[p] < final(self)@.supervisors.len(),
    {
        if self.shutting_down {
            return Vec::new();
        }
        self.claim(false)
    }

    /// Starts the service `name`: a worker is to be made for it, and it is
    /// marked as having one. A supervisor whose loop has ended is made ready
    /// for another run. A service that has a worker or a process is refused
    /// as running already, an unknown name is `NotFound`, and after shutdown
    /// has begun the request is `Cancelled`; the registry then stays as it
    /// is.
    pub fn start(&mut self, name: &str) -> (r: Result<usize, BloomError>)
        requires
            old(self)@.wf(),
        ensures
            final(self)@.wf(),
            match r {
                Ok(i) => i < old(self)@.supervisors.len() && old(self)@.supervisors[i as int].d.name
                    == name@ && !old(self)@.shutting_down && !old(self)@.running(i as int)
                    && final(self)@ == (Registry {
                    workers: old(self)@.workers.update(i as int, true),
                    stopping: old(self)@.stopping.update(i as int, false),
                    supervisors: old(self)@.supervisors.update(
                        i as int,
                        revived(old(self)@.supervisors[i as int]),
                    ),
                    ..old(self)@
                }),
                Err(e) => final(self)@ == old(self)@ && if old(self)@.shutting_down {
                    e@ == Fault::Cancelled
                } else if !old(self)@.has(name@) {
                    e@ == Fault::NotFound(name@)
                } else {
                    e@ == Fault::LaunchFailed(already_running(name@)) && exists|i: int|
                        0 <= i < old(self)@.supervisors.len() && (
                        #[trigger] old(self)@.supervisors[i]).d.name == name@ && old(
                            self,
                        )@.running(i)
                },
            },
    {
        if self.shutting_down {
            return Err(BloomError::Cancelled);
        }
        match self.find(name) {
            None => Err(BloomError::NotFound(name.to_owned())),
            Some(i) => {
                let ghost before = self@;
                proof {
                    assert(before.supervisors[i as int].d.name == name@);
                }
                if self.workers[i] || self.supervisors[i].child.is_some() {
                    let mut msg = chars_of("Service '");
                    append_chars(&mut msg, &chars_of(name));
                    append_chars(&mut msg, &chars_of("' already running"));
                    return Err(BloomError::LaunchFailed(string_of(&msg)));
                }
                self.workers.set(i, true);
                self.stopping.set(i, false);
                let mut taken: Vec<Supervisor> = Vec::new();
                core::mem::swap(&mut self.supervisors, &mut taken);
                let mut sup = taken.remove(i);
                sup.revive();
                taken.insert(i, sup);
                core::mem::swap(&mut self.supervisors, &mut taken);
                proof {
                    assert(self@.supervisors =~= before.supervisors.update(
                        i as int,
                        revived(before.supervisors[i as int]),
                    ));
                    assert forall|a: int, b: int| 0 <= a < b < self@.supervisors.len() implies (
                    #[trigger] self@.supervisors[a]).d.name != (
                    #[trigger] self@.supervisors[b]).d.name by {
                        assert(before.supervisors[a].d.name != before.supervisors[b].d.name);
                    }
                }
                Ok(i)
            },
        }
    }

    /// Stops the service `name`: says whether its worker is to be told to
    /// stop, which is so when it has one that was not told yet, and marks
    /// the worker as asked to stop. An unknown name is `NotFound`.
    pub fn stop(&mut self, name: &str) -> (r: Result<bool, BloomError>)
        requires
            old(self)@.wf(),
        ensures
            final(self)@.wf(),
            match r {
                Ok(told) => exists|i: int|
                    0 <= i < old(self)@.supervisors.len() && (
                    #[trigger] old(self)@.supervisors[i]).d.name == name@ && told == (old(
                        self,
                    )@.workers[i] && !old(self)@.stopping[i]) && final(self)@ == (Registry {
                        stopping: old(self)@.stopping.update(i, old(self)@.workers[i]),
                        ..old(self)@
                    }),
                Err(e) => final(self)@ == old(self)@ && !old(self)@.has(name@) && e@
                    == Fault::NotFound(name@),
            },
            old(self)@.has(name@) ==> r is Ok,
    {
        match self.find(name) {
            None => Err(BloomError::NotFound(name.to_owned())),
            Some(i) => {
                let ghost before = self@;
                let told = self.workers[i] && !self.stopping[i];
                let alive = self.workers[i];
                self.stopping.set(i, alive);
                proof {
                    assert(before.supervisors[i as int].d.name == name@);
                    assert(self@.supervisors =~= before.supervisors);
                }
                Ok(told)
            },
        }
    }

    /// Whether the worker of supervisor `i` is to stop its service: it was
    /// asked to, or shutdown has begun.
    pub fn asked_to_stop(&self, i: usize) -> (r: bool)
        requires
            self@.wf(),
            i < self@.supervisors.len(),
        ensures
            r == (self@.stopping[i as int] || self@.shutting_down),
    {
        self.stopping[i] || self.shutting_down
    }

    /// Takes the report that the worker of supervisor `i` has ended: the
    /// supervisor has no worker any more, and nothing is asked of one.
    pub fn worker_ended(&mut self, i: usize)
        requires
            old(self)@.wf(),
            i < old(self)@.supervisors.len(),
        ensures
            final(self)@.wf(),
            final(self)@ == (Registry {
                workers: old(self)@.workers.update(i as int, false),
                stopping: old(self)@.stopping.update(i as int, false),
                ..old(self)@
            }),
    {
        let ghost before = self@;
        self.workers.set(i, false);
        self.stopping.set(i, false);
        proof {
            assert(self@.supervisors =~= before.supervisors);
        }
    }

    /// One step of the supervisor at place `i`, taken while the registry is
    /// held; what it says to do is done after the registry is let go.
    pub fn step(&mut self, i: usize, event: SupervisorEvent) -> (action: SupervisorAction)
        requires
            old(self)@.wf(),
            i < old(self)@.supervisors.len(),
        ensures
            final(self)@.wf(),
            action == supervise(old(self)@.supervisors[i as int], event).action,
            final(self)@ == (Registry {
                supervisors: old(self)@.supervisors.update(
                    i as int,
                    supervise(old(self)@.supervisors[i as int], event).state,
                ),
                ..old(self)@
            }),
    {
        let ghost before = self@;
        let mut taken: Vec<Supervisor> = Vec::new();
        core::mem::swap(&mut self.supervisors, &mut taken);
        let mut sup = taken.remove(i);
        let action = sup.step(event);
        taken.insert(i, sup);
        core::mem::swap(&mut self.supervisors, &mut taken);
        proof {
            assert(self@.supervisors =~= before.supervisors.update(
                i as int,
                supervise(before.supervisors[i as int], event).state,
            ));
            assert forall|a: int, b: int| 0 <= a < b < self@.supervisors.len() implies (
            #[trigger] self@.supervisors[a]).d.name != (#[trigger] self@.supervisors[b]).d.name by {
                assert(before.supervisors[a].d.name != before.supervisors[b].d.name);
            }
        }
        action
    }

    /// Begins shutdown. The first call sets the shutdown flag and lists the
    /// supervisors whose workers are to be stopped and joined: those that
    /// have one, in order. Every later call changes nothing and lists none.
    pub fn shutdown(&mut self) -> (r: Vec<usize>)
        requires
            old(self)@.wf(),
        ensures
            final(self)@.wf(),
            final(self)@.shutting_down,
            final(self)@ == old(self)@.after_shutdown(),
            places(r@) == old(self)@.to_stop(),
            r@.len() == old(self)@.to_stop().len(),
            forall|p: int| 0 <= p < r@.len() ==> #[trigger] r@[p] < final(self)@.supervisors.len(),
    {
        let mut r: Vec<usize> = Vec::new();
        proof {
            assert(places(r@) =~= Seq::<int>::empty());
        }
        if self.shutting_down {
            return r;
        }
        let ghost before = self@;
        let ghost pick = |m: Registry, i: int| m.busy(i);
        let n = self.workers.len();
        let mut i: usize = 0;
        while i < n
            invariant
                i <= n,
                n == before.supervisors.len(),
                before.wf(),
                self@ == before,
                pick == |m: Registry, i: int| m.busy(i),
                places(r@) == before.chosen(pick, i as int),
                forall|p: int| 0 <= p < r@.len() ==> #[trigger] r@[p] < n,
            decreases n - i,
        {
            if self.workers[i] {
                let ghost so_far = places(r@);
                r.push(i);
                proof {
                    assert(places(r@) =~= so_far.push(i as int));
                }
            }
            i += 1;
        }
        self.shutting_down = true;
        proof {
            assert(self@.supervisors =~= before.supervisors);
        }
        r
    }
}

/// The words that refuse the start of a service that runs already.
pub open spec fn already_running(name: Seq<char>) -> Seq<char> {
    "Service '"@ + name + "' already running"@
}

/// Shutdown is idempotent: once shutdown was called for, calling for it
/// again changes nothing and wants nothing stopped.
pub proof fn lemma_shutdown_idempotent(m: Registry)
    ensures
        m.after_shutdown().shutting_down,
        m.after_shutdown().after_shutdown() == m.after_shutdown(),
        m.after_shutdown().to_stop() == Seq::<int>::empty(),
{
}

} // verus!
