//! The registry of workers as a mathematical value: the workers in order of
//! their last activity, and for each service the workers that announced it in
//! the order in which they are next to be chosen.

use vstd::arithmetic::div_mod::{
    lemma_fundamental_div_mod, lemma_fundamental_div_mod_converse, lemma_mod_bound,
};
use vstd::prelude::*;

verus! {

/// One registered worker.
pub struct WorkerView {
    /// The identity the transport gave the worker.
    pub identity: Seq<u8>,
    /// The service the worker announced.
    pub service: Seq<char>,
    /// The instant, in milliseconds, after which the worker counts as gone.
    pub expiration: int,
}

/// The whole registry.
pub struct RegistryView {
    /// Every live worker, the one heard of last at the front.
    pub lru: Seq<WorkerView>,
    /// For every service name the identities of its workers, the next to be
    /// chosen at the front. A service without workers has the empty sequence.
    pub queues: Map<Seq<char>, Seq<Seq<u8>>>,
    /// How long a worker stays registered after its last activity, in
    /// milliseconds.
    pub t_expire: int,
}

impl RegistryView {
    /// The registry without workers.
    pub open spec fn empty(t_expire: int) -> RegistryView {
        RegistryView {
            lru: Seq::empty(),
            queues: Map::total(|service: Seq<char>| Seq::<Seq<u8>>::empty()),
            t_expire,
        }
    }

    /// Whether a worker with this identity is registered.
    pub open spec fn contains(self, identity: Seq<u8>) -> bool {
        exists|i: int| 0 <= i < self.lru.len() && (#[trigger] self.lru[i]).identity == identity
    }

    /// A place at which the worker with this identity stands in `lru`.
    pub open spec fn position(self, identity: Seq<u8>) -> int {
        choose|i: int| 0 <= i < self.lru.len() && (#[trigger] self.lru[i]).identity == identity
    }

    /// Whether a worker with this identity is registered for this service.
    pub open spec fn serves(self, identity: Seq<u8>, service: Seq<char>) -> bool {
        exists|i: int|
            0 <= i < self.lru.len() && (#[trigger] self.lru[i]).identity == identity
                && self.lru[i].service == service
    }

    /// Whether a registered worker announced `service`.
    pub open spec fn announced(self, service: Seq<char>) -> bool {
        exists|i: int| 0 <= i < self.lru.len() && (#[trigger] self.lru[i]).service == service
    }

    /// Whether at least one worker serves `service`.
    pub open spec fn can_handle(self, service: Seq<char>) -> bool {
        self.queues[service].len() > 0
    }

    /// The worker that is next to serve `service`, if the service has one.
    pub open spec fn next_worker(self, service: Seq<char>) -> Option<Seq<u8>> {
        if self.queues[service].len() > 0 {
            Some(self.queues[service][0])
        } else {
            None
        }
    }

    /// The expiration instant of a worker that is active at `now`: `now` plus
    /// the registry's delay, and never earlier than that of the worker heard
    /// of last.
    pub open spec fn next_expiration(self, now: int) -> int {
        if self.lru.len() > 0 && self.lru[0].expiration > now + self.t_expire {
            self.lru[0].expiration
        } else {
            now + self.t_expire
        }
    }

    /// The registry after the worker `identity` showed activity at `now`: its
    /// entry moves to the front with a new expiration instant. An unknown
    /// identity changes nothing.
    pub open spec fn refreshed(self, identity: Seq<u8>, now: int) -> RegistryView {
        if self.contains(identity) {
            let at = self.position(identity);
            let entry = WorkerView { expiration: self.next_expiration(now), ..self.lru[at] };
            RegistryView { lru: seq![entry] + self.lru.remove(at), ..self }
        } else {
            self
        }
    }

    /// The registry after the worker `identity` announced `service` at `now`.
    /// A new worker goes to the front of `lru` and to the back of the
    /// service's queue; a known one is refreshed and stays with its service.
    pub open spec fn registered(
        self,
        identity: Seq<u8>,
        service: Seq<char>,
        now: int,
    ) -> RegistryView {
        if self.contains(identity) {
            self.refreshed(identity, now)
        } else {
            RegistryView {
                lru: seq![
                    WorkerView { identity, service, expiration: self.next_expiration(now) },
                ] + self.lru,
                queues: self.queues.insert(service, self.queues[service].push(identity)),
                t_expire: self.t_expire,
            }
        }
    }

    /// A queue without the identity `identity`.
    pub open spec fn without(queue: Seq<Seq<u8>>, identity: Seq<u8>) -> Seq<Seq<u8>> {
        if queue.contains(identity) {
            queue.remove(queue.index_of(identity))
        } else {
            queue
        }
    }

    /// The registry without the worker at place `at` of `lru`.
    pub open spec fn removed_at(self, at: int) -> RegistryView {
        let gone = self.lru[at];
        RegistryView {
            lru: self.lru.remove(at),
            queues: self.queues.insert(
                gone.service,
                Self::without(self.queues[gone.service], gone.identity),
            ),
            t_expire: self.t_expire,
        }
    }

    /// The registry without the worker `identity`. An unknown identity changes
    /// nothing.
    pub open spec fn removed(self, identity: Seq<u8>) -> RegistryView {
        if self.contains(identity) {
            self.removed_at(self.position(identity))
        } else {
            self
        }
    }

    /// The registry after the expired workers were taken from the back of
    /// `lru`, one by one, up to the first that has not expired at `now`.
    pub open spec fn swept(self, now: int) -> RegistryView
        decreases self.lru.len(),
    {
        if self.lru.len() > 0 && self.lru.last().expiration < now {
            self.removed_at(self.lru.len() - 1).swept(now)
        } else {
            self
        }
    }

    /// The registry after the worker at the front of the queue of `service`
    /// was chosen: with two workers or more it goes to the back.
    pub open spec fn rotated(self, service: Seq<char>) -> RegistryView {
        let queue = self.queues[service];
        if queue.len() > 1 {
            RegistryView {
                queues: self.queues.insert(service, queue.drop_first().push(queue[0])),
                ..self
            }
        } else {
            self
        }
    }

    /// What holds of every registry: no identity stands twice in `lru`; `lru`
    /// is ordered by expiration, the latest first; every worker of `lru`
    /// stands in the queue of its service; and every queue holds workers of
    /// `lru` that announced that service, none of them twice.
    pub open spec fn wf(self) -> bool {
        &&& self.t_expire >= 0
        &&& self.queues.dom() =~= Set::<Seq<char>>::full()
        &&& forall|i: int, j: int|
            0 <= i < j < self.lru.len() ==> (#[trigger] self.lru[i]).identity != (
            #[trigger] self.lru[j]).identity
        &&& forall|i: int, j: int|
            0 <= i <= j < self.lru.len() ==> (#[trigger] self.lru[i]).expiration >= (
            #[trigger] self.lru[j]).expiration
        &&& forall|i: int|
            0 <= i < self.lru.len() ==> self.queues[(#[trigger] self.lru[i]).service].contains(
                self.lru[i].identity,
            )
        &&& forall|service: Seq<char>, k: int|
            0 <= k < self.queues[service].len() ==> self.serves(
                #[trigger] self.queues[service][k],
                service,
            )
        &&& forall|service: Seq<char>| (#[trigger] self.queues[service]).no_duplicates()
    }
}

/// The empty registry is well formed.
pub proof fn lemma_empty_wf(t_expire: int)
    requires
        t_expire >= 0,
    ensures
        RegistryView::empty(t_expire).wf(),
{
}

/// Where a known identity stands: at the one place of `lru` that holds it.
pub proof fn lemma_position(view: RegistryView, at: int)
    requires
        view.wf(),
        0 <= at < view.lru.len(),
    ensures
        view.contains(view.lru[at].identity),
        view.position(view.lru[at].identity) == at,
{
    let identity = view.lru[at].identity;
    let found = view.position(identity);
    assert(0 <= found < view.lru.len() && view.lru[found].identity == identity);
    if found < at {
        assert(view.lru[found].identity != view.lru[at].identity);
    } else if at < found {
        assert(view.lru[at].identity != view.lru[found].identity);
    }
}

/// Activity of a worker keeps the registry well formed.
pub proof fn lemma_refreshed_wf(view: RegistryView, identity: Seq<u8>, now: int)
    requires
        view.wf(),
    ensures
        view.refreshed(identity, now).wf(),
{
    if view.contains(identity) {
        let at = view.position(identity);
        let next = view.refreshed(identity, now);
        let entry = next.lru[0];
        assert forall|i: int| 0 < i < next.lru.len() implies #[trigger] next.lru[i] == view.lru[if i
            <= at {
            i - 1
        } else {
            i
        }] by {}
        assert forall|i: int, j: int| 0 <= i < j < next.lru.len() implies (
        #[trigger] next.lru[i]).identity != (#[trigger] next.lru[j]).identity by {
            let source_j = if j <= at { j - 1 } else { j };
            assert(next.lru[j] == view.lru[source_j]);
            if i == 0 {
                if source_j < at {
                    assert(view.lru[source_j].identity != view.lru[at].identity);
                } else {
                    assert(view.lru[at].identity != view.lru[source_j].identity);
                }
            } else {
                let source_i = if i <= at { i - 1 } else { i };
                assert(next.lru[i] == view.lru[source_i]);
                assert(view.lru[source_i].identity != view.lru[source_j].identity);
            }
        }
        assert forall|i: int, j: int| 0 <= i <= j < next.lru.len() implies (
        #[trigger] next.lru[i]).expiration >= (#[trigger] next.lru[j]).expiration by {
            if j > 0 {
                let source_j = if j <= at { j - 1 } else { j };
                assert(next.lru[j] == view.lru[source_j]);
                assert(view.lru[0].expiration >= view.lru[source_j].expiration);
                if i > 0 {
                    let source_i = if i <= at { i - 1 } else { i };
                    assert(next.lru[i] == view.lru[source_i]);
                    assert(view.lru[source_i].expiration >= view.lru[source_j].expiration);
                }
            }
        }
        assert forall|i: int| 0 <= i < next.lru.len() implies next.queues[(
        #[trigger] next.lru[i]).service].contains(next.lru[i].identity) by {
            let source = if i == 0 { at } else if i <= at { i - 1 } else { i };
            assert(next.lru[i].service == view.lru[source].service);
            assert(next.lru[i].identity == view.lru[source].identity);
            assert(view.queues[view.lru[source].service].contains(view.lru[source].identity));
        }
        assert forall|service: Seq<char>, k: int|
            0 <= k < next.queues[service].len() implies next.serves(
            #[trigger] next.queues[service][k],
            service,
        ) by {
            let wanted = view.queues[service][k];
            assert(view.serves(wanted, service));
            let source = choose|i: int|
                0 <= i < view.lru.len() && (#[trigger] view.lru[i]).identity == wanted
                    && view.lru[i].service == service;
            let target = if source == at { 0 } else if source < at { source + 1 } else { source };
            assert(next.lru[target].identity == wanted && next.lru[target].service == service);
        }
    }
}

/// The announcement of a worker keeps the registry well formed.
pub proof fn lemma_registered_wf(
    view: RegistryView,
    identity: Seq<u8>,
    service: Seq<char>,
    now: int,
)
    requires
        view.wf(),
    ensures
        view.registered(identity, service, now).wf(),
{
    if view.contains(identity) {
        lemma_refreshed_wf(view, identity, now);
    } else {
        let next = view.registered(identity, service, now);
        assert forall|i: int| 0 < i < next.lru.len() implies #[trigger] next.lru[i] == view.lru[i
            - 1] by {}
        assert forall|i: int, j: int| 0 <= i < j < next.lru.len() implies (
        #[trigger] next.lru[i]).identity != (#[trigger] next.lru[j]).identity by {
            assert(next.lru[j] == view.lru[j - 1]);
            if i > 0 {
                assert(next.lru[i] == view.lru[i - 1]);
            }
        }
        assert forall|i: int, j: int| 0 <= i <= j < next.lru.len() implies (
        #[trigger] next.lru[i]).expiration >= (#[trigger] next.lru[j]).expiration by {
            if j > 0 {
                assert(next.lru[j] == view.lru[j - 1]);
                assert(view.lru[0].expiration >= view.lru[j - 1].expiration);
                if i > 0 {
                    assert(next.lru[i] == view.lru[i - 1]);
                }
            }
        }
        let grown = view.queues[service].push(identity);
        assert forall|i: int| 0 <= i < next.lru.len() implies next.queues[(
        #[trigger] next.lru[i]).service].contains(next.lru[i].identity) by {
            if i == 0 {
                assert(grown[grown.len() - 1] == identity);
            } else {
                let entry = view.lru[i - 1];
                assert(next.lru[i] == entry);
                assert(view.queues[entry.service].contains(entry.identity));
                if entry.service == service {
                    let k = view.queues[service].index_of(entry.identity);
                    assert(grown[k] == entry.identity);
                }
            }
        }
        assert forall|name: Seq<char>, k: int|
            0 <= k < next.queues[name].len() implies next.serves(
            #[trigger] next.queues[name][k],
            name,
        ) by {
            if name == service && k == grown.len() - 1 {
                assert(next.lru[0].identity == identity && next.lru[0].service == service);
            } else {
                let wanted = view.queues[name][k];
                assert(view.serves(wanted, name));
                let source = choose|i: int|
                    0 <= i < view.lru.len() && (#[trigger] view.lru[i]).identity == wanted
                        && view.lru[i].service == name;
                assert(next.lru[source + 1] == view.lru[source]);
            }
        }
        assert forall|name: Seq<char>| (#[trigger] next.queues[name]).no_duplicates() by {
            assert(view.queues[name].no_duplicates());
            if name == service {
                assert forall|a: int, b: int|
                    0 <= a < grown.len() && 0 <= b < grown.len() && a != b implies grown[a]
                    != grown[b] by {
                    if a == grown.len() - 1 {
                        assert(view.serves(view.queues[service][b], service));
                    } else if b == grown.len() - 1 {
                        assert(view.serves(view.queues[service][a], service));
                    }
                }
            }
        }
    }
}

/// After its announcement a worker is registered; and where it was not
/// registered before, it stands at the front of `lru` with the service it
/// announced, at the back of that service's queue, and the service can be
/// handled.
pub proof fn lemma_registered_holds(
    view: RegistryView,
    identity: Seq<u8>,
    service: Seq<char>,
    now: int,
)
    requires
        view.wf(),
    ensures
        view.registered(identity, service, now).contains(identity),
        !view.contains(identity) ==> {
            let next = view.registered(identity, service, now);
            &&& next.lru.len() == view.lru.len() + 1
            &&& next.lru[0].identity == identity
            &&& next.lru[0].service == service
            &&& next.queues[service].last() == identity
            &&& next.can_handle(service)
        },
{
    let next = view.registered(identity, service, now);
    assert(next.lru[0].identity == identity);
}

/// In a well-formed registry a queue without one of its identities is the
/// queue with that one place taken out.
pub proof fn lemma_without(queue: Seq<Seq<u8>>, at: int)
    requires
        queue.no_duplicates(),
        0 <= at < queue.len(),
    ensures
        RegistryView::without(queue, queue[at]) == queue.remove(at),
{
    let found = queue.index_of(queue[at]);
    assert(0 <= found < queue.len() && queue[found] == queue[at]);
}

/// Taking a worker out keeps the registry well formed.
pub proof fn lemma_removed_at_wf(view: RegistryView, at: int)
    requires
        view.wf(),
        0 <= at < view.lru.len(),
    ensures
        view.removed_at(at).wf(),
        view.removed_at(at).lru.len() == view.lru.len() - 1,
{
    let next = view.removed_at(at);
    let gone = view.lru[at];
    let queue = view.queues[gone.service];
    assert(queue.contains(gone.identity));
    let slot = queue.index_of(gone.identity);
    let shrunk = queue.remove(slot);
    assert(next.queues[gone.service] == shrunk);
    assert(queue.no_duplicates());
    assert forall|i: int| 0 <= i < next.lru.len() implies #[trigger] next.lru[i] == view.lru[if i
        < at {
        i
    } else {
        i + 1
    }] by {}
    assert forall|k: int| 0 <= k < shrunk.len() implies #[trigger] shrunk[k] == queue[if k
        < slot {
        k
    } else {
        k + 1
    }] by {}
    assert forall|i: int, j: int| 0 <= i < j < next.lru.len() implies (
    #[trigger] next.lru[i]).identity != (#[trigger] next.lru[j]).identity by {
        let source_i = if i < at { i } else { i + 1 };
        let source_j = if j < at { j } else { j + 1 };
        assert(next.lru[i] == view.lru[source_i]);
        assert(next.lru[j] == view.lru[source_j]);
        assert(view.lru[source_i].identity != view.lru[source_j].identity);
    }
    assert forall|i: int, j: int| 0 <= i <= j < next.lru.len() implies (
    #[trigger] next.lru[i]).expiration >= (#[trigger] next.lru[j]).expiration by {
        let source_i = if i < at { i } else { i + 1 };
        let source_j = if j < at { j } else { j + 1 };
        assert(next.lru[i] == view.lru[source_i]);
        assert(next.lru[j] == view.lru[source_j]);
        assert(view.lru[source_i].expiration >= view.lru[source_j].expiration);
    }
    assert forall|i: int| 0 <= i < next.lru.len() implies next.queues[(
    #[trigger] next.lru[i]).service].contains(next.lru[i].identity) by {
        let source = if i < at { i } else { i + 1 };
        let entry = view.lru[source];
        assert(next.lru[i] == entry);
        assert(view.queues[entry.service].contains(entry.identity));
        if entry.service == gone.service {
            let k = queue.index_of(entry.identity);
            if source < at {
                assert(view.lru[source].identity != view.lru[at].identity);
            } else {
                assert(view.lru[at].identity != view.lru[source].identity);
            }
            assert(k != slot);
            let target = if k < slot { k } else { k - 1 };
            assert(shrunk[target] == entry.identity);
        }
    }
    assert forall|name: Seq<char>, k: int|
        0 <= k < next.queues[name].len() implies next.serves(
        #[trigger] next.queues[name][k],
        name,
    ) by {
        let wanted = next.queues[name][k];
        if name == gone.service {
            let source_k = if k < slot { k } else { k + 1 };
            assert(shrunk[k] == queue[source_k]);
            assert(view.serves(view.queues[name][source_k], name));
            assert(queue[source_k] != queue[slot]);
        } else {
            assert(view.serves(view.queues[name][k], name));
        }
        let source = choose|i: int|
            0 <= i < view.lru.len() && (#[trigger] view.lru[i]).identity == wanted
                && view.lru[i].service == name;
        assert(source != at);
        let target = if source < at { source } else { source - 1 };
        assert(next.lru[target] == view.lru[source]);
    }
    assert forall|name: Seq<char>| (#[trigger] next.queues[name]).no_duplicates() by {
        assert(view.queues[name].no_duplicates());
        if name == gone.service {
            assert forall|a: int, b: int|
                0 <= a < shrunk.len() && 0 <= b < shrunk.len() && a != b implies shrunk[a]
                != shrunk[b] by {
                let source_a = if a < slot { a } else { a + 1 };
                let source_b = if b < slot { b } else { b + 1 };
                assert(shrunk[a] == queue[source_a]);
                assert(shrunk[b] == queue[source_b]);
            }
        }
    }
}

/// Taking a worker out by its identity keeps the registry well formed.
pub proof fn lemma_removed_wf(view: RegistryView, identity: Seq<u8>)
    requires
        view.wf(),
    ensures
        view.removed(identity).wf(),
        !view.removed(identity).contains(identity),
{
    if view.contains(identity) {
        let at = view.position(identity);
        lemma_removed_at_wf(view, at);
        let next = view.removed_at(at);
        if next.contains(identity) {
            let other = next.position(identity);
            let source = if other < at { other } else { other + 1 };
            assert(next.lru[other] == view.lru[source]);
            if source < at {
                assert(view.lru[source].identity != view.lru[at].identity);
            } else {
                assert(view.lru[at].identity != view.lru[source].identity);
            }
        }
    }
}

/// The choice of a worker keeps the registry well formed.
pub proof fn lemma_rotated_wf(view: RegistryView, service: Seq<char>)
    requires
        view.wf(),
    ensures
        view.rotated(service).wf(),
{
    let queue = view.queues[service];
    if queue.len() > 1 {
        let next = view.rotated(service);
        let turned = queue.drop_first().push(queue[0]);
        assert(next.queues[service] == turned);
        assert(queue.no_duplicates());
        assert forall|k: int| 0 <= k < turned.len() implies #[trigger] turned[k] == queue[if k
            == turned.len() - 1 {
            0
        } else {
            k + 1
        }] by {}
        assert forall|i: int| 0 <= i < next.lru.len() implies next.queues[(
        #[trigger] next.lru[i]).service].contains(next.lru[i].identity) by {
            let entry = view.lru[i];
            assert(view.queues[entry.service].contains(entry.identity));
            if entry.service == service {
                let k = queue.index_of(entry.identity);
                let target = if k == 0 { turned.len() - 1 } else { k - 1 };
                assert(turned[target] == entry.identity);
            }
        }
        assert forall|name: Seq<char>, k: int|
            0 <= k < next.queues[name].len() implies next.serves(
            #[trigger] next.queues[name][k],
            name,
        ) by {
            if name == service {
                let source_k = if k == turned.len() - 1 { 0 } else { k + 1 };
                assert(turned[k] == queue[source_k]);
                assert(view.serves(view.queues[name][source_k], name));
            } else {
                assert(view.serves(view.queues[name][k], name));
            }
            let wanted = next.queues[name][k];
            let source = choose|i: int|
                0 <= i < view.lru.len() && (#[trigger] view.lru[i]).identity == wanted
                    && view.lru[i].service == name;
            assert(next.lru[source] == view.lru[source]);
        }
        assert forall|name: Seq<char>| (#[trigger] next.queues[name]).no_duplicates() by {
            assert(view.queues[name].no_duplicates());
            if name == service {
                assert forall|a: int, b: int|
                    0 <= a < turned.len() && 0 <= b < turned.len() && a != b implies turned[a]
                    != turned[b] by {
                    let source_a = if a == turned.len() - 1 { 0 } else { a + 1 };
                    let source_b = if b == turned.len() - 1 { 0 } else { b + 1 };
                    assert(turned[a] == queue[source_a]);
                    assert(turned[b] == queue[source_b]);
                }
            }
        }
    }
}

/// What a sweep at `now` leaves: a well-formed registry whose `lru` is the
/// front part of the old one, holds no worker that has expired at `now`, and
/// lacks only workers that have.
pub proof fn lemma_swept(view: RegistryView, now: int)
    requires
        view.wf(),
    ensures
        view.swept(now).wf(),
        view.swept(now).t_expire == view.t_expire,
        view.swept(now).lru.len() <= view.lru.len(),
        view.swept(now).lru == view.lru.take(view.swept(now).lru.len() as int),
        forall|i: int|
            0 <= i < view.swept(now).lru.len() ==> (#[trigger] view.swept(now).lru[i]).expiration
                >= now,
        forall|i: int|
            view.swept(now).lru.len() <= i < view.lru.len() ==> (#[trigger] view.lru[i]).expiration
                < now,
    decreases view.lru.len(),
{
    let last = view.lru.len() - 1;
    if view.lru.len() > 0 && view.lru.last().expiration < now {
        let shorter = view.removed_at(last);
        lemma_removed_at_wf(view, last);
        lemma_swept(shorter, now);
        let left = shorter.swept(now);
        assert(shorter.lru == view.lru.take(last));
        assert(left.lru == view.lru.take(left.lru.len() as int));
        assert forall|i: int| left.lru.len() <= i < view.lru.len() implies (
        #[trigger] view.lru[i]).expiration < now by {
            if i < last {
                assert(shorter.lru[i] == view.lru[i]);
            }
        }
    } else {
        assert(view.lru == view.lru.take(view.lru.len() as int));
        assert forall|i: int| 0 <= i < view.lru.len() implies (#[trigger] view.lru[i]).expiration
            >= now by {
            assert(view.lru[i].expiration >= view.lru[last].expiration);
        }
    }
}

/// In a well-formed registry every worker stands at one place of `lru` and
/// at no other, at one place of the queue of its service and at no other,
/// and in no other queue.
pub proof fn lemma_one_slot_one_queue(view: RegistryView, at: int)
    requires
        view.wf(),
        0 <= at < view.lru.len(),
    ensures
        forall|other: int|
            0 <= other < view.lru.len() && other != at ==> (#[trigger] view.lru[other]).identity
                != view.lru[at].identity,
        exists|slot: int|
            {
                &&& 0 <= slot < view.queues[view.lru[at].service].len()
                &&& #[trigger] view.queues[view.lru[at].service][slot] == view.lru[at].identity
                &&& forall|k: int|
                    0 <= k < view.queues[view.lru[at].service].len() && k != slot
                        ==> #[trigger] view.queues[view.lru[at].service][k]
                        != view.lru[at].identity
            },
        forall|service: Seq<char>|
            service != view.lru[at].service ==> !(#[trigger] view.queues[service]).contains(
                view.lru[at].identity,
            ),
{
    let worker = view.lru[at];
    let queue = view.queues[worker.service];
    assert forall|other: int| 0 <= other < view.lru.len() && other != at implies (
    #[trigger] view.lru[other]).identity != worker.identity by {
        if other < at {
            assert(view.lru[other].identity != view.lru[at].identity);
        } else {
            assert(view.lru[at].identity != view.lru[other].identity);
        }
    }
    assert(queue.contains(worker.identity));
    let slot = queue.index_of(worker.identity);
    assert(queue.no_duplicates());
    assert(queue[slot] == worker.identity);
    assert forall|service: Seq<char>| service != worker.service implies !(
    #[trigger] view.queues[service]).contains(worker.identity) by {
        if view.queues[service].contains(worker.identity) {
            let k = view.queues[service].index_of(worker.identity);
            assert(view.serves(view.queues[service][k], service));
            let place = choose|i: int|
                0 <= i < view.lru.len() && (#[trigger] view.lru[i]).identity == worker.identity
                    && view.lru[i].service == service;
            assert(place == at);
        }
    }
}

/// In a well-formed registry every identity of a queue is that of a
/// registered worker which announced the queue's service.
pub proof fn lemma_queued_is_registered(view: RegistryView, service: Seq<char>, slot: int)
    requires
        view.wf(),
        0 <= slot < view.queues[service].len(),
    ensures
        view.contains(view.queues[service][slot]),
        view.lru[view.position(view.queues[service][slot])].service == service,
{
    let identity = view.queues[service][slot];
    assert(view.serves(identity, service));
    let place = choose|i: int|
        0 <= i < view.lru.len() && (#[trigger] view.lru[i]).identity == identity
            && view.lru[i].service == service;
    lemma_position(view, place);
}

/// In a well-formed registry a service can be handled if and only if a
/// registered worker announced it.
pub proof fn lemma_can_handle_iff_announced(view: RegistryView, service: Seq<char>)
    requires
        view.wf(),
    ensures
        view.can_handle(service) <==> view.announced(service),
{
    if view.can_handle(service) {
        assert(view.serves(view.queues[service][0], service));
    }
    if view.announced(service) {
        let at = choose|i: int|
            0 <= i < view.lru.len() && (#[trigger] view.lru[i]).service == service;
        assert(view.queues[view.lru[at].service].contains(view.lru[at].identity));
    }
}

/// Activity of a worker that is not registered changes nothing.
pub proof fn lemma_refresh_unknown(view: RegistryView, identity: Seq<u8>, now: int)
    requires
        !view.contains(identity),
    ensures
        view.refreshed(identity, now) == view,
{
}

/// With a clock that does not run backwards, activity at `now` expires one
/// delay after `now`: that is so in an empty registry, and wherever `now` is
/// not earlier than the last activity of the worker heard of last.
pub proof fn lemma_expiration_after_now(view: RegistryView, now: int)
    requires
        view.lru.len() == 0 || view.lru[0].expiration <= now + view.t_expire,
    ensures
        view.next_expiration(now) == now + view.t_expire,
{
}

/// Activity never brings the expiration of a worker forward: the refreshed
/// worker stands at the front and expires no earlier than it did, and no
/// earlier than one delay after `now`.
pub proof fn lemma_refresh_never_earlier(view: RegistryView, at: int, now: int)
    requires
        view.wf(),
        0 <= at < view.lru.len(),
    ensures
        ({
            let worker = view.lru[at];
            let next = view.refreshed(worker.identity, now);
            &&& next.lru.len() == view.lru.len()
            &&& next.lru[0].identity == worker.identity
            &&& next.lru[0].service == worker.service
            &&& next.lru[0].expiration >= worker.expiration
            &&& next.lru[0].expiration >= now + view.t_expire
        }),
{
    lemma_position(view, at);
    assert(view.lru[0].expiration >= view.lru[at].expiration);
}

/// The workers that `count` requests in a row for `service` are handed to,
/// in the order of the requests.
pub open spec fn picks(view: RegistryView, service: Seq<char>, count: nat) -> Seq<Seq<u8>>
    decreases count,
{
    if count == 0 || !view.can_handle(service) {
        Seq::empty()
    } else {
        seq![view.queues[service][0]] + picks(view.rotated(service), service, (count - 1) as nat)
    }
}

/// How often `worker` stands in `chosen`.
pub open spec fn times_picked(chosen: Seq<Seq<u8>>, worker: Seq<u8>) -> nat
    decreases chosen.len(),
{
    if chosen.len() == 0 {
        0
    } else {
        times_picked(chosen.drop_last(), worker) + if chosen.last() == worker {
            1nat
        } else {
            0nat
        }
    }
}

/// Requests in a row for one service go round its workers: the request at
/// place `i` goes to the worker at place `i` modulo the number of workers.
pub proof fn lemma_picks_go_round(view: RegistryView, service: Seq<char>, count: nat)
    requires
        view.wf(),
        view.can_handle(service),
    ensures
        picks(view, service, count).len() == count,
        forall|i: int|
            0 <= i < count ==> #[trigger] picks(view, service, count)[i]
                == view.queues[service][i % (view.queues[service].len() as int)],
    decreases count,
{
    let queue = view.queues[service];
    let workers = queue.len() as int;
    if count > 0 {
        let next = view.rotated(service);
        let turned = next.queues[service];
        assert(turned.len() == workers);
        lemma_rotated_wf(view, service);
        lemma_picks_go_round(next, service, (count - 1) as nat);
        let rest = picks(next, service, (count - 1) as nat);
        assert forall|i: int| 0 <= i < count implies #[trigger] picks(view, service, count)[i]
            == queue[i % workers] by {
            if i == 0 {
                assert(0int % workers == 0) by (nonlinear_arith)
                    requires
                        workers > 0,
                ;
            } else {
                let before = (i - 1) % workers;
                lemma_mod_bound(i - 1, workers);
                lemma_fundamental_div_mod(i - 1, workers);
                assert(rest[i - 1] == turned[before]);
                let rounds = (i - 1) / workers;
                assert(rounds * workers == workers * rounds) by (nonlinear_arith);
                if before == workers - 1 {
                    assert((rounds + 1) * workers == rounds * workers + workers)
                        by (nonlinear_arith);
                    lemma_fundamental_div_mod_converse(i, workers, rounds + 1, 0);
                    assert(turned[before] == queue[0]);
                } else {
                    lemma_fundamental_div_mod_converse(i, workers, rounds, before + 1);
                    assert(turned[before] == queue[before + 1]);
                }
            }
        }
    }
}

/// How often the worker at place `slot` of a queue without duplicates stands
/// in a sequence that goes round the queue.
proof fn lemma_times_picked(chosen: Seq<Seq<u8>>, queue: Seq<Seq<u8>>, slot: int)
    requires
        queue.no_duplicates(),
        0 <= slot < queue.len(),
        forall|i: int| 0 <= i < chosen.len() ==> #[trigger] chosen[i] == queue[i % (queue.len() as int)],
    ensures
        times_picked(chosen, queue[slot]) == chosen.len() / queue.len() + if slot < chosen.len()
            % queue.len() {
            1nat
        } else {
            0nat
        },
    decreases chosen.len(),
{
    let count = chosen.len() as int;
    let workers = queue.len() as int;
    if count == 0 {
        lemma_fundamental_div_mod_converse(0, workers, 0, 0);
    } else {
        let shorter = chosen.drop_last();
        assert forall|i: int| 0 <= i < shorter.len() implies #[trigger] shorter[i] == queue[i
            % workers] by {
            assert(shorter[i] == chosen[i]);
        }
        lemma_times_picked(shorter, queue, slot);
        let last = (count - 1) % workers;
        let rounds = (count - 1) / workers;
        lemma_mod_bound(count - 1, workers);
        lemma_fundamental_div_mod(count - 1, workers);
        assert(chosen.last() == queue[last]);
        assert(rounds * workers == workers * rounds) by (nonlinear_arith);
        if last == workers - 1 {
            assert((rounds + 1) * workers == rounds * workers + workers) by (nonlinear_arith);
            lemma_fundamental_div_mod_converse(count, workers, rounds + 1, 0);
        } else {
            lemma_fundamental_div_mod_converse(count, workers, rounds, last + 1);
        }
        if last != slot {
            assert(queue[last] != queue[slot]);
        }
    }
}

/// Requests in a row for one service are shared out evenly: of `count`
/// requests for a service with some number of workers, each worker gets the
/// quotient of the two numbers, rounded down or rounded up.
pub proof fn lemma_fair_share(view: RegistryView, service: Seq<char>, count: nat, slot: int)
    requires
        view.wf(),
        0 <= slot < view.queues[service].len(),
    ensures
        ({
            let workers = view.queues[service].len();
            let share = times_picked(picks(view, service, count), view.queues[service][slot]);
            share == count / workers || share == (count + workers - 1) / (workers as int)
        }),
{
    let queue = view.queues[service];
    let workers = queue.len() as int;
    lemma_picks_go_round(view, service, count);
    lemma_times_picked(picks(view, service, count), queue, slot);
    let rounds = count as int / workers;
    let left = count as int % workers;
    lemma_mod_bound(count as int, workers);
    lemma_fundamental_div_mod(count as int, workers);
    assert(rounds * workers == workers * rounds) by (nonlinear_arith);
    if left > 0 {
        assert((rounds + 1) * workers == rounds * workers + workers) by (nonlinear_arith);
        lemma_fundamental_div_mod_converse(count + workers - 1, workers, rounds + 1, left - 1);
    }
}

} // verus!
