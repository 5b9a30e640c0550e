//! The broker's registry of workers: who is alive, which service each one
//! serves, whose turn it is, and who has been silent for too long.

use crate::data_structures::{same_bytes, Identity};
use crate::errors::{ErrorView, RustydomoError};
use crate::frames::{
    frames_view, heartbeat_message, make_heartbeat, make_worker_message, worker_message,
};
use crate::registry::{
    lemma_can_handle_iff_announced, lemma_empty_wf, lemma_position, lemma_refreshed_wf,
    lemma_registered_holds,
    lemma_registered_wf, lemma_removed_at_wf, lemma_rotated_wf, lemma_swept, lemma_without,
    RegistryView, WorkerView,
};
use std::collections::VecDeque;
use vstd::prelude::*;
use vstd::slice::slice_to_vec;

verus! {

/// The period, in milliseconds, at which the broker sends heartbeats.
pub const HEARTBEAT_INTERVAL: u64 = 400;

/// How long, in milliseconds, a worker stays registered after its last
/// activity unless the registry is made with another delay: two and a half
/// heartbeat intervals.
pub const EXPIRATION_TIME: u64 = 1000;

/// Two and a half times `heartbeat_interval`, rounded down, and `u64::MAX`
/// where that does not fit.
pub open spec fn expiration_delay(heartbeat_interval: nat) -> nat {
    if 5 * heartbeat_interval / 2 > u64::MAX {
        u64::MAX as nat
    } else {
        5 * heartbeat_interval / 2
    }
}

/// The expiration delay, in milliseconds, that goes with a heartbeat
/// interval: two and a half times the interval.
pub fn expiration_for(heartbeat_interval: u64) -> (delay: u64)
    ensures
        delay == expiration_delay(heartbeat_interval as nat),
{
    let half = heartbeat_interval / 2;
    let odd = heartbeat_interval % 2;
    if half > (u64::MAX - 2) / 5 {
        u64::MAX
    } else {
        half * 5 + odd * 2
    }
}

/// What the registry keeps of one worker.
#[derive(Debug)]
pub struct ServiceInfo {
    /// The service the worker announced.
    pub service_name: String,
    /// The identity the transport gave the worker.
    pub identity: Identity,
    /// The instant, in milliseconds, at which the worker was last heard of.
    pub last_activity: u64,
}

impl ServiceInfo {
    /// The worker as the registry's view shows it, under the delay
    /// `t_expire`: it expires that long after its last activity.
    pub open spec fn seen(&self, t_expire: int) -> WorkerView {
        WorkerView {
            identity: self.identity@,
            service: self.service_name@,
            expiration: self.last_activity + t_expire,
        }
    }
}

impl Clone for ServiceInfo {
    fn clone(&self) -> (copy: ServiceInfo)
        ensures
            copy.service_name@ == self.service_name@,
            copy.identity@ == self.identity@,
            copy.last_activity == self.last_activity,
    {
        ServiceInfo {
            service_name: self.service_name.clone(),
            identity: self.identity.clone(),
            last_activity: self.last_activity,
        }
    }
}

/// The workers of one service, the next to be chosen first.
struct ServiceWorkers {
    name: String,
    workers: Vec<Identity>,
}

/// The identities of a list of workers.
spec fn identities(workers: Seq<Identity>) -> Seq<Seq<u8>> {
    Seq::new(workers.len(), |i: int| workers[i]@)
}

/// No two services of the list have the same name.
spec fn names_distinct(services: Seq<ServiceWorkers>) -> bool {
    forall|i: int, j: int|
        0 <= i < j < services.len() ==> (#[trigger] services[i]).name@ != (
        #[trigger] services[j]).name@
}

/// Whether the list has a service of this name.
spec fn has_service(services: Seq<ServiceWorkers>, name: Seq<char>) -> bool {
    exists|k: int| 0 <= k < services.len() && (#[trigger] services[k]).name@ == name
}

/// A place at which the list has the service of this name.
spec fn service_at(services: Seq<ServiceWorkers>, name: Seq<char>) -> int {
    choose|k: int| 0 <= k < services.len() && (#[trigger] services[k]).name@ == name
}

/// The queue of the service of this name: empty where the list has none.
spec fn queue_of(services: Seq<ServiceWorkers>, name: Seq<char>) -> Seq<Seq<u8>> {
    if has_service(services, name) {
        identities(services[service_at(services, name)].workers@)
    } else {
        Seq::empty()
    }
}

/// With distinct names, the queue of a service's name is that service's.
proof fn lemma_queue_at(services: Seq<ServiceWorkers>, at: int)
    requires
        names_distinct(services),
        0 <= at < services.len(),
    ensures
        has_service(services, services[at].name@),
        service_at(services, services[at].name@) == at,
        queue_of(services, services[at].name@) == identities(services[at].workers@),
{
    let name = services[at].name@;
    let found = service_at(services, name);
    assert(0 <= found < services.len() && services[found].name@ == name);
    if found < at {
        assert(services[found].name@ != services[at].name@);
    } else if at < found {
        assert(services[at].name@ != services[found].name@);
    }
}

/// What a change of one service's workers does to the queues.
proof fn lemma_queue_update(before: Seq<ServiceWorkers>, after: Seq<ServiceWorkers>, at: int)
    requires
        names_distinct(before),
        0 <= at < before.len(),
        after.len() == before.len(),
        after[at].name@ == before[at].name@,
        forall|k: int| 0 <= k < before.len() && k != at ==> after[k] == before[k],
    ensures
        names_distinct(after),
        forall|name: Seq<char>| #[trigger]
            queue_of(after, name) == if name == before[at].name@ {
                identities(after[at].workers@)
            } else {
                queue_of(before, name)
            },
{
    assert forall|k: int| 0 <= k < before.len() implies (#[trigger] after[k]).name@
        == before[k].name@ by {}
    assert forall|i: int, j: int| 0 <= i < j < after.len() implies (#[trigger] after[i]).name@ != (
    #[trigger] after[j]).name@ by {
        assert(before[i].name@ != before[j].name@);
    }
    assert forall|name: Seq<char>| #[trigger]
        queue_of(after, name) == if name == before[at].name@ {
            identities(after[at].workers@)
        } else {
            queue_of(before, name)
        } by {
        if has_service(after, name) {
            let place = service_at(after, name);
            assert(before[place].name@ == name);
            lemma_queue_at(before, place);
            lemma_queue_at(after, place);
        } else if has_service(before, name) {
            let place = service_at(before, name);
            assert(after[place].name@ == name);
        }
    }
}

/// What a new service does to the queues.
proof fn lemma_queue_push(before: Seq<ServiceWorkers>, entry: ServiceWorkers)
    requires
        names_distinct(before),
        !has_service(before, entry.name@),
    ensures
        names_distinct(before.push(entry)),
        queue_of(before, entry.name@) == Seq::<Seq<u8>>::empty(),
        forall|name: Seq<char>| #[trigger]
            queue_of(before.push(entry), name) == if name == entry.name@ {
                identities(entry.workers@)
            } else {
                queue_of(before, name)
            },
{
    let after = before.push(entry);
    assert forall|i: int, j: int| 0 <= i < j < after.len() implies (#[trigger] after[i]).name@ != (
    #[trigger] after[j]).name@ by {
        assert(after[i] == before[i]);
        if j < before.len() {
            assert(after[j] == before[j]);
        }
    }
    assert forall|name: Seq<char>| #[trigger]
        queue_of(after, name) == if name == entry.name@ {
            identities(entry.workers@)
        } else {
            queue_of(before, name)
        } by {
        if has_service(after, name) {
            let place = service_at(after, name);
            lemma_queue_at(after, place);
            if place < before.len() {
                assert(after[place] == before[place]);
                lemma_queue_at(before, place);
            }
        } else if has_service(before, name) {
            let place = service_at(before, name);
            assert(after[place] == before[place]);
        } else if name == entry.name@ {
            assert(after[before.len() as int].name@ == name);
        }
    }
}

/// Base context of the broker: every registered worker, and for each service
/// the workers that serve it.
pub struct MajordomoContext {
    /// All registered workers, the one heard of last at the front.
    registered_workers: VecDeque<ServiceInfo>,
    /// The workers registered by service name.
    services: Vec<ServiceWorkers>,
    /// The delay after which a silent worker expires, in milliseconds.
    expiration_time: u64,
}

impl View for MajordomoContext {
    type V = RegistryView;

    closed spec fn view(&self) -> RegistryView {
        RegistryView {
            lru: Seq::new(
                self.registered_workers@.len(),
                |i: int| self.registered_workers@[i].seen(self.expiration_time as int),
            ),
            queues: Map::total(|name: Seq<char>| queue_of(self.services@, name)),
            t_expire: self.expiration_time as int,
        }
    }
}

impl MajordomoContext {
    /// Whether the context is in order: its view is a well-formed registry,
    /// and it keeps one list of workers per service name.
    pub closed spec fn wf(&self) -> bool {
        &&& names_distinct(self.services@)
        &&& self@.wf()
    }

    /// A context in order shows a well-formed registry.
    pub proof fn lemma_view_wf(&self)
        requires
            self.wf(),
        ensures
            self@.wf(),
    {
    }

    /// A registry without workers, with the default expiration delay.
    pub fn new() -> (context: MajordomoContext)
        ensures
            context.wf(),
            context@ == RegistryView::empty(EXPIRATION_TIME as int),
    {
        MajordomoContext::with_expiration(EXPIRATION_TIME)
    }

    /// A registry without workers in which a worker expires
    /// `expiration_time` milliseconds after its last activity.
    pub fn with_expiration(expiration_time: u64) -> (context: MajordomoContext)
        ensures
            context.wf(),
            context@ == RegistryView::empty(expiration_time as int),
    {
        let context = MajordomoContext {
            registered_workers: VecDeque::new(),
            services: Vec::new(),
            expiration_time,
        };
        proof {
            lemma_empty_wf(expiration_time as int);
            assert(context@.lru =~= Seq::empty());
            assert(context@.queues =~= RegistryView::empty(expiration_time as int).queues);
        }
        context
    }

    /// The delay after which a silent worker expires, in milliseconds.
    pub fn expiration_time(&self) -> (delay: u64)
        ensures
            delay == self@.t_expire,
    {
        self.expiration_time
    }

    /// The place of the service `name` in the list of services.
    fn find_service(&self, name: &String) -> (place: Option<usize>)
        ensures
            place matches Some(at) ==> at < self.services@.len() && self.services@[at as int].name@
                == name@,
            place is None ==> !has_service(self.services@, name@),
    {
        let mut at: usize = 0;
        while at < self.services.len()
            invariant
                at <= self.services@.len(),
                forall|k: int| 0 <= k < at ==> (#[trigger] self.services@[k]).name@ != name@,
            decreases self.services@.len() - at,
        {
            if self.services[at].name == *name {
                return Some(at);
            }
            at += 1;
        }
        None
    }

    /// The place of the worker `identity` in the list of workers.
    fn find_worker(&self, identity: &[u8]) -> (place: Option<usize>)
        ensures
            place matches Some(at) ==> at < self@.lru.len() && self@.lru[at as int].identity
                == identity@,
            place is None ==> !self@.contains(identity@),
    {
        let mut at: usize = 0;
        while at < self.registered_workers.len()
            invariant
                at <= self.registered_workers@.len(),
                self@.lru.len() == self.registered_workers@.len(),
                forall|k: int| 0 <= k < at ==> (#[trigger] self@.lru[k]).identity != identity@,
            decreases self.registered_workers@.len() - at,
        {
            if same_bytes(self.registered_workers[at].identity.value.as_slice(), identity) {
                return Some(at);
            }
            at += 1;
        }
        None
    }

    /// Indicates whether the given service can currently be handled by the
    /// broker, that is whether at least one worker serves it.
    pub fn can_handle_service(&self, service_name: &str) -> (able: bool)
        requires
            self.wf(),
        ensures
            able == self@.can_handle(service_name@),
            able == self@.announced(service_name@),
    {
        proof {
            lemma_can_handle_iff_announced(self@, service_name@);
        }
        let name = service_name.to_string();
        match self.find_service(&name) {
            Some(at) => {
                proof {
                    lemma_queue_at(self.services@, at as int);
                }
                self.services[at].workers.len() > 0
            },
            None => false,
        }
    }

    /// The instant that counts as the last activity of a worker active at
    /// `now`: `now`, or the instant of the worker heard of last where that is
    /// later.
    fn activity_instant(&self, now: u64) -> (instant: u64)
        ensures
            instant + self@.t_expire == self@.next_expiration(now as int),
    {
        if self.registered_workers.len() > 0 {
            let latest = self.registered_workers[0].last_activity;
            if latest > now {
                latest
            } else {
                now
            }
        } else {
            now
        }
    }

    /// Moves the worker at place `at` to the front, active at `now`.
    fn touch(&mut self, at: usize, now: u64)
        requires
            old(self).wf(),
            at < old(self)@.lru.len(),
        ensures
            final(self).wf(),
            final(self)@ == old(self)@.refreshed(old(self)@.lru[at as int].identity, now as int),
    {
        let instant = self.activity_instant(now);
        proof {
            lemma_position(old(self)@, at as int);
            lemma_refreshed_wf(old(self)@, old(self)@.lru[at as int].identity, now as int);
        }
        if let Some(mut entry) = self.registered_workers.remove(at) {
            entry.last_activity = instant;
            self.registered_workers.push_front(entry);
        }
        proof {
            let wanted = old(self)@.refreshed(old(self)@.lru[at as int].identity, now as int);
            assert(self@.lru =~= wanted.lru);
            assert(self@.queues =~= wanted.queues);
        }
    }

    /// Registers a worker so that tasks can be dispatched to it. Any string
    /// of bytes is taken as the identity, whole. The worker goes to the front
    /// of the workers and to the back of the queue of `service_name`. It
    /// expires one delay after `now`, or when the worker heard of last
    /// expires where that is later. A worker that is registered already is
    /// refreshed and keeps its service. This never fails.
    pub fn register_worker(&mut self, identity: &[u8], service_name: &str, now: u64) -> (done:
        Result<(), RustydomoError>)
        requires
            old(self).wf(),
        ensures
            final(self).wf(),
            done is Ok,
            final(self)@ == old(self)@.registered(identity@, service_name@, now as int),
            final(self)@.contains(identity@),
            !old(self)@.contains(identity@) ==> final(self)@.can_handle(service_name@),
    {
        let worker = Identity { value: slice_to_vec(identity) };
        proof {
            lemma_registered_holds(old(self)@, identity@, service_name@, now as int);
        }
        match self.find_worker(identity) {
            Some(at) => {
                self.touch(at, now);
            },
            None => {
                let instant = self.activity_instant(now);
                let name = service_name.to_string();
                let place = self.find_service(&name);
                let entry = ServiceInfo {
                    service_name: name.clone(),
                    identity: worker.clone(),
                    last_activity: instant,
                };
                self.registered_workers.push_front(entry);
                match place {
                    Some(at) => {
                        self.services[at].workers.push(worker);
                        proof {
                            lemma_queue_update(old(self).services@, self.services@, at as int);
                            lemma_queue_at(old(self).services@, at as int);
                            assert(identities(self.services@[at as int].workers@) =~= identities(
                                old(self).services@[at as int].workers@,
                            ).push(identity@));
                        }
                    },
                    None => {
                        let mut workers: Vec<Identity> = Vec::new();
                        workers.push(worker);
                        let listed = ServiceWorkers { name, workers };
                        proof {
                            lemma_queue_push(old(self).services@, listed);
                            assert(identities(listed.workers@) =~= Seq::<Seq<u8>>::empty().push(
                                identity@,
                            ));
                        }
                        self.services.push(listed);
                    },
                }
                proof {
                    let wanted = old(self)@.registered(identity@, service_name@, now as int);
                    lemma_registered_wf(old(self)@, identity@, service_name@, now as int);
                    assert(self@.lru =~= wanted.lru);
                    assert(self@.queues =~= wanted.queues);
                }
            },
        }
        Ok(())
    }

    /// Records that the worker `identity` showed activity at `now`: it moves
    /// to the front of the workers. It expires one delay after `now`, or when
    /// the worker heard of last expires where that is later, so that no
    /// expiration ever moves backwards. An identity that is not registered
    /// changes nothing, and is no fault: this never fails.
    pub fn refresh_expiration_time(&mut self, identity: &[u8], now: u64) -> (done: Result<
        (),
        RustydomoError,
    >)
        requires
            old(self).wf(),
        ensures
            final(self).wf(),
            done is Ok,
            final(self)@ == old(self)@.refreshed(identity@, now as int),
            !old(self)@.contains(identity@) ==> *final(self) == *old(self),
    {
        match self.find_worker(identity) {
            Some(at) => {
                self.touch(at, now);
            },
            None => {},
        }
        Ok(())
    }

    /// Takes the worker at place `at` out of the workers and out of the queue
    /// of its service.
    fn remove_at(&mut self, at: usize)
        requires
            old(self).wf(),
            at < old(self)@.lru.len(),
        ensures
            final(self).wf(),
            final(self)@ == old(self)@.removed_at(at as int),
    {
        proof {
            lemma_removed_at_wf(old(self)@, at as int);
        }
        let ghost gone = old(self)@.lru[at as int];
        let ghost queue = old(self)@.queues[gone.service];
        assert(queue.contains(gone.identity));
        assert(has_service(old(self).services@, gone.service));
        if let Some(entry) = self.registered_workers.remove(at) {
            assert(entry.seen(self.expiration_time as int) == gone);
            if let Some(place) = self.find_service(&entry.service_name) {
                proof {
                    lemma_queue_at(old(self).services@, place as int);
                }
                let mut slot: usize = 0;
                let count = self.services[place].workers.len();
                while slot < count && !same_bytes(
                    self.services[place].workers[slot].value.as_slice(),
                    entry.identity.value.as_slice(),
                )
                    invariant
                        slot <= count,
                        place < self.services@.len(),
                        count == self.services@[place as int].workers@.len(),
                        forall|k: int|
                            0 <= k < slot ==> (#[trigger] self.services@[place as int].workers@[k])@
                                != entry.identity@,
                    decreases count - slot,
                {
                    slot += 1;
                }
                proof {
                    let found = queue.index_of(gone.identity);
                    assert(queue[found] == gone.identity);
                    assert(queue[found] == self.services@[place as int].workers@[found]@);
                    assert(slot < count);
                    assert(queue[slot as int] == gone.identity);
                    lemma_without(queue, slot as int);
                }
                self.services[place].workers.remove(slot);
                proof {
                    lemma_queue_update(old(self).services@, self.services@, place as int);
                    assert(identities(self.services@[place as int].workers@) =~= queue.remove(
                        slot as int,
                    ));
                }
            }
        }
        proof {
            let wanted = old(self)@.removed_at(at as int);
            assert(self@.lru =~= wanted.lru);
            assert(self@.queues =~= wanted.queues);
        }
    }

    /// Takes the worker `identity` out of the registry. An identity that is
    /// not registered is reported as `ServiceNotAvailable` and changes
    /// nothing.
    pub fn remove_worker(&mut self, identity: &[u8]) -> (done: Result<(), RustydomoError>)
        requires
            old(self).wf(),
        ensures
            final(self).wf(),
            done is Ok <==> old(self)@.contains(identity@),
            final(self)@ == old(self)@.removed(identity@),
            done matches Err(fault) ==> fault@ == ErrorView::ServiceNotAvailable(
                crate::text::identity_text(identity@),
            ) && *final(self) == *old(self),
    {
        match self.find_worker(identity) {
            Some(at) => {
                proof {
                    lemma_position(self@, at as int);
                }
                self.remove_at(at);
                Ok(())
            },
            None => Err(
                RustydomoError::ServiceNotAvailable(crate::text::identity_string(identity)),
            ),
        }
    }

    /// Whether the worker at place `at` has expired at `now`.
    fn expired_at(&self, at: usize, now: u64) -> (expired: bool)
        requires
            at < self@.lru.len(),
        ensures
            expired == (self@.lru[at as int].expiration < now),
    {
        self.expiration_time < now && self.registered_workers[at].last_activity < now
            - self.expiration_time
    }

    /// Takes out the workers that have expired at `now`. It goes from the
    /// back of the workers, where the one heard of longest ago stands, and
    /// stops at the first worker that has not expired.
    pub fn check_expired_workers(&mut self, now: u64)
        requires
            old(self).wf(),
        ensures
            final(self).wf(),
            final(self)@ == old(self)@.swept(now as int),
            forall|i: int|
                0 <= i < final(self)@.lru.len() ==> (#[trigger] final(self)@.lru[i]).expiration
                    >= now,
            final(self)@.lru.len() <= old(self)@.lru.len(),
            final(self)@.lru == old(self)@.lru.take(final(self)@.lru.len() as int),
            final(self)@.t_expire == old(self)@.t_expire,
            forall|i: int|
                final(self)@.lru.len() <= i < old(self)@.lru.len() ==> (
                #[trigger] old(self)@.lru[i]).expiration < now,
    {
        proof {
            lemma_swept(old(self)@, now as int);
        }
        loop
            invariant
                self.wf(),
                self@.swept(now as int) == old(self)@.swept(now as int),
            ensures
                self.wf(),
                self@ == old(self)@.swept(now as int),
            decreases self@.lru.len(),
        {
            let count = self.registered_workers.len();
            if count == 0 || !self.expired_at(count - 1, now) {
                break ;
            }
            proof {
                lemma_removed_at_wf(self@, count - 1);
            }
            self.remove_at(count - 1);
        }
    }

    /// Chooses the worker that serves the next request for `service_name`:
    /// the one at the front of the service's queue, which then goes to the
    /// back. There is none where no worker serves the service.
    pub fn next_worker(&mut self, service_name: &str) -> (chosen: Option<Identity>)
        requires
            old(self).wf(),
        ensures
            final(self).wf(),
            final(self)@ == old(self)@.rotated(service_name@),
            chosen is Some <==> old(self)@.can_handle(service_name@),
            chosen matches Some(worker) ==> Some(worker@) == old(self)@.next_worker(
                service_name@,
            ),
    {
        let name = service_name.to_string();
        match self.find_service(&name) {
            Some(at) => {
                proof {
                    lemma_queue_at(self.services@, at as int);
                    lemma_rotated_wf(self@, service_name@);
                }
                let count = self.services[at].workers.len();
                if count == 0 {
                    None
                } else if count == 1 {
                    Some(self.services[at].workers[0].clone())
                } else {
                    let first = self.services[at].workers.remove(0);
                    let chosen = first.clone();
                    self.services[at].workers.push(first);
                    proof {
                        let queue = old(self)@.queues[service_name@];
                        let wanted = old(self)@.rotated(service_name@);
                        lemma_queue_update(old(self).services@, self.services@, at as int);
                        assert(identities(self.services@[at as int].workers@)
                            =~= queue.drop_first().push(queue[0]));
                        assert(self@.lru =~= wanted.lru);
                        assert(self@.queues =~= wanted.queues);
                    }
                    Some(chosen)
                }
            },
            None => None,
        }
    }

    /// Every registered worker, the one heard of last first.
    pub fn all(&self) -> (workers: Vec<ServiceInfo>)
        ensures
            workers@.len() == self@.lru.len(),
            forall|i: int|
                0 <= i < workers@.len() ==> (#[trigger] workers@[i]).seen(self@.t_expire)
                    == self@.lru[i],
    {
        let mut workers: Vec<ServiceInfo> = Vec::new();
        let mut at: usize = 0;
        while at < self.registered_workers.len()
            invariant
                at <= self.registered_workers@.len(),
                self@.lru.len() == self.registered_workers@.len(),
                workers@.len() == at,
                forall|i: int|
                    0 <= i < at ==> (#[trigger] workers@[i]).seen(self@.t_expire) == self@.lru[i],
            decreases self.registered_workers@.len() - at,
        {
            workers.push(self.registered_workers[at].clone());
            at += 1;
        }
        workers
    }

    /// Hands the task `payload` to the worker whose turn it is to serve
    /// `target_service`, and moves that worker to the back of the service's
    /// queue. The result is the message to send on the workers' socket: the
    /// worker's identity, `MDPW02`, and the payload. Where no worker serves
    /// the service there is no message and nothing changes.
    pub fn process_tasks(&mut self, target_service: String, payload: Vec<Vec<u8>>) -> (message:
        Option<Vec<Vec<u8>>>)
        requires
            old(self).wf(),
        ensures
            final(self).wf(),
            final(self)@ == old(self)@.rotated(target_service@),
            message is Some <==> old(self)@.can_handle(target_service@),
            message matches Some(frames) ==> frames_view(frames@) == worker_message(
                old(self)@.queues[target_service@][0],
                frames_view(payload@),
            ),
    {
        match self.next_worker(target_service.as_str()) {
            Some(worker) => Some(make_worker_message(worker.value.as_slice(), &payload)),
            None => None,
        }
    }

    /// Sends the task `payload` to the next available worker of
    /// `service_name`; workers of one service are taken in turn. The result
    /// is the message to send on the workers' socket. A service that no
    /// worker serves is reported as `ServiceNotAvailable`, and nothing
    /// changes.
    pub fn send_task_to_worker(&mut self, service_name: String, payload: Vec<Vec<u8>>) -> (sent:
        Result<Vec<Vec<u8>>, RustydomoError>)
        requires
            old(self).wf(),
        ensures
            final(self).wf(),
            final(self)@ == old(self)@.rotated(service_name@),
            sent is Ok <==> old(self)@.can_handle(service_name@),
            sent matches Ok(frames) ==> frames_view(frames@) == worker_message(
                old(self)@.queues[service_name@][0],
                frames_view(payload@),
            ),
            sent matches Err(fault) ==> fault@ == ErrorView::ServiceNotAvailable(service_name@)
                && *final(self) == *old(self),
    {
        if self.can_handle_service(service_name.as_str()) {
            match self.process_tasks(service_name.clone(), payload) {
                Some(frames) => Ok(frames),
                None => Err(RustydomoError::ServiceNotAvailable(service_name)),
            }
        } else {
            Err(RustydomoError::ServiceNotAvailable(service_name))
        }
    }

    /// The heartbeats of one tick: for every registered worker, the one heard
    /// of last first, the message of the worker's identity, `MDPW02` and the
    /// command `HEARTBEAT`.
    pub fn send_heartbeat(&self) -> (messages: Vec<Vec<Vec<u8>>>)
        ensures
            messages@.len() == self@.lru.len(),
            forall|i: int|
                0 <= i < messages@.len() ==> frames_view((#[trigger] messages@[i])@)
                    == heartbeat_message(self@.lru[i].identity),
    {
        let mut messages: Vec<Vec<Vec<u8>>> = Vec::new();
        let mut at: usize = 0;
        while at < self.registered_workers.len()
            invariant
                at <= self.registered_workers@.len(),
                self@.lru.len() == self.registered_workers@.len(),
                messages@.len() == at,
                forall|i: int|
                    0 <= i < at ==> frames_view((#[trigger] messages@[i])@) == heartbeat_message(
                        self@.lru[i].identity,
                    ),
            decreases self.registered_workers@.len() - at,
        {
            messages.push(make_heartbeat(self.registered_workers[at].identity.value.as_slice()));
            at += 1;
        }
        messages
    }
}

} // verus!
