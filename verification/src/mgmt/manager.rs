//! The manager's side of the control channel: which workers are subscribed,
//! how many publishes each has in flight, and who is told about a change of
//! the pool.

use vstd::prelude::*;

verus! {

/// The kind of a change that the manager publishes.
#[derive(Clone, Copy, Debug, PartialEq, Eq)]
pub enum Change {
    /// A server was added to the pool.
    AddServer,
    /// A server was taken down.
    MarkServerDown,
    /// A server was made active.
    MarkServerActive,
}

/// What an [`Event`] stands for in contracts.
pub struct EventView {
    /// The kind of change.
    pub change: Change,
    /// The URI text of the server concerned.
    pub url: Seq<char>,
}

/// A change of the pool, as it is published to the workers.
#[derive(Debug, PartialEq, Eq)]
pub struct Event {
    /// The kind of change.
    pub change: Change,
    /// The URI text of the server concerned.
    pub url: String,
}

impl View for Event {
    type V = EventView;

    open spec fn view(&self) -> EventView {
        EventView { change: self.change, url: self.url@ }
    }
}

impl Clone for Event {
    fn clone(&self) -> (e: Event)
        ensures
            e@ == self@,
    {
        Event { change: self.change, url: self.url.clone() }
    }
}


impl Event {
    /// The event that says `change` of the server at `url`.
    pub fn new(change: Change, url: &str) -> (e: Event)
        ensures
            e@ == (EventView { change, url: url@ }),
    {
        Event { change, url: String::from_str(url) }
    }
}

/// The most publishes that one subscriber may have in flight. A subscriber
/// that has this many is passed over until one of them has ended.
pub const MAX_IN_FLIGHT: u32 = 5;

/// One subscribed worker: its id and the publishes sent to it that have not
/// ended yet.
#[derive(Clone, Copy, Debug, PartialEq, Eq)]
pub struct SubscriberHandle {
    /// The id of the subscription.
    pub id: u64,
    /// How many publishes are on their way to this subscriber.
    pub requests_in_flight: u32,
}

impl SubscriberHandle {
    /// Whether a publish goes to this subscriber.
    pub open spec fn has_room(self) -> bool {
        self.requests_in_flight < MAX_IN_FLIGHT
    }

    /// The subscriber after a publish: one more in flight where it had room.
    pub open spec fn sent(self) -> SubscriberHandle {
        if self.has_room() {
            SubscriberHandle { requests_in_flight: (self.requests_in_flight + 1) as u32, ..self }
        } else {
            self
        }
    }

    /// The subscriber after a delivery succeeded: one less in flight.
    pub open spec fn acknowledged(self) -> SubscriberHandle {
        if self.requests_in_flight > 0 {
            SubscriberHandle { requests_in_flight: (self.requests_in_flight - 1) as u32, ..self }
        } else {
            self
        }
    }
}

/// The ids of the subscribers that a publish goes to, in the order of the
/// subscribers.
pub open spec fn targets(subscribers: Seq<SubscriberHandle>) -> Seq<u64>
    decreases subscribers.len(),
{
    if subscribers.len() == 0 {
        Seq::empty()
    } else if subscribers.last().has_room() {
        targets(subscribers.drop_last()).push(subscribers.last().id)
    } else {
        targets(subscribers.drop_last())
    }
}

/// The subscribers after a publish.
pub open spec fn published(subscribers: Seq<SubscriberHandle>) -> Seq<SubscriberHandle> {
    subscribers.map_values(|h: SubscriberHandle| h.sent())
}

/// Whether subscriber `i` has the id `id`.
pub open spec fn subscribed_at(subscribers: Seq<SubscriberHandle>, id: u64, i: int) -> bool {
    0 <= i < subscribers.len() && subscribers[i].id == id
}

/// Whether some subscriber has the id `id`.
pub open spec fn subscribed(subscribers: Seq<SubscriberHandle>, id: u64) -> bool {
    exists|i: int| subscribed_at(subscribers, id, i)
}

/// The place of the subscriber with the id `id`.
pub open spec fn place_of(subscribers: Seq<SubscriberHandle>, id: u64) -> int {
    choose|i: int| subscribed_at(subscribers, id, i)
}

/// The subscribers without the one with the id `id`.
pub open spec fn without(subscribers: Seq<SubscriberHandle>, id: u64) -> Seq<SubscriberHandle> {
    if subscribed(subscribers, id) {
        subscribers.remove(place_of(subscribers, id))
    } else {
        subscribers
    }
}

/// The subscribers after the delivery to `id` ended: with one less in
/// flight where it succeeded, without the subscriber where it failed.
pub open spec fn delivered(subscribers: Seq<SubscriberHandle>, id: u64, ok: bool) -> Seq<
    SubscriberHandle,
> {
    if !ok {
        without(subscribers, id)
    } else if subscribed(subscribers, id) {
        let i = place_of(subscribers, id);
        subscribers.update(i, subscribers[i].acknowledged())
    } else {
        subscribers
    }
}

/// The ids grow from each subscriber to the next.
pub open spec fn ascending(subscribers: Seq<SubscriberHandle>) -> bool {
    forall|i: int, j: int| 0 <= i < j < subscribers.len() ==> subscribers[i].id < subscribers[j].id
}

/// The workers that are subscribed to the manager, in the order in which
/// they subscribed.
#[derive(Debug)]
pub struct SubscriberMap {
    subscribers: Vec<SubscriberHandle>,
}

impl View for SubscriberMap {
    type V = Seq<SubscriberHandle>;

    closed spec fn view(&self) -> Seq<SubscriberHandle> {
        self.subscribers@
    }
}

impl SubscriberMap {
    /// No two subscribers have the same id: ids grow in the order of
    /// subscription.
    pub open spec fn wf(&self) -> bool {
        ascending(self@)
    }

    /// No subscribers.
    pub fn new() -> (m: SubscriberMap)
        ensures
            m@ == Seq::<SubscriberHandle>::empty(),
            m.wf(),
    {
        SubscriberMap { subscribers: Vec::new() }
    }

    /// The number of subscribers.
    pub fn len(&self) -> (n: usize)
        ensures
            n == self@.len(),
    {
        self.subscribers.len()
    }

    /// Where the subscriber with the id `id` stands.
    fn position(&self, id: u64) -> (r: Option<usize>)
        ensures
            r is Some <==> subscribed(self@, id),
            r matches Some(i) ==> subscribed_at(self@, id, i as int),
            self.wf() && r is Some ==> r->0 == place_of(self@, id),
    {
        let mut i: usize = 0;
        while i < self.subscribers.len()
            invariant
                i <= self.subscribers.len(),
                forall|k: int| 0 <= k < i ==> !subscribed_at(self@, id, k),
            decreases self.subscribers.len() - i,
        {
            if self.subscribers[i].id == id {
                assert(subscribed_at(self@, id, i as int));
                proof {
                    if self.wf() {
                        let j = place_of(self@, id);
                        assert(subscribed_at(self@, id, j));
                        assert(j == i);
                    }
                }
                return Some(i);
            }
            i = i + 1;
        }
        None
    }

    /// The highest id in the map, if the map has a subscriber.
    pub fn last_id(&self) -> (r: Option<u64>)
        ensures
            r is Some <==> self@.len() > 0,
            r matches Some(id) ==> id == self@.last().id,
    {
        let n = self.subscribers.len();
        if n == 0 {
            None
        } else {
            Some(self.subscribers[n - 1].id)
        }
    }

    /// The number of publishes in flight to the subscriber `id`, if it is
    /// subscribed.
    pub fn in_flight(&self, id: u64) -> (r: Option<u32>)
        requires
            self.wf(),
        ensures
            r is Some <==> subscribed(self@, id),
            r matches Some(n) ==> n == self@[place_of(self@, id)].requests_in_flight,
    {
        match self.position(id) {
            Some(i) => Some(self.subscribers[i].requests_in_flight),
            None => None,
        }
    }

    /// Takes a new subscriber in, with nothing in flight. Its id is above
    /// every id in the map.
    fn insert(&mut self, id: u64)
        requires
            old(self).wf(),
            forall|i: int| 0 <= i < old(self)@.len() ==> old(self)@[i].id < id,
        ensures
            final(self).wf(),
            final(self)@ == old(self)@.push(SubscriberHandle { id, requests_in_flight: 0 }),
    {
        self.subscribers.push(SubscriberHandle { id, requests_in_flight: 0 });
    }

    /// Takes the subscriber `id` out, if it is there.
    pub fn remove(&mut self, id: u64)
        requires
            old(self).wf(),
        ensures
            final(self).wf(),
            final(self)@ == without(old(self)@, id),
    {
        match self.position(id) {
            Some(i) => {
                self.subscribers.remove(i);
            },
            None => {},
        }
    }

    /// Marks a publish as sent to every subscriber that has room and hands
    /// back their ids, in the order of subscription. A subscriber with
    /// [`MAX_IN_FLIGHT`] publishes in flight is passed over: it is not told.
    pub fn publish(&mut self) -> (ids: Vec<u64>)
        requires
            old(self).wf(),
        ensures
            final(self).wf(),
            final(self)@ == published(old(self)@),
            ids@ == targets(old(self)@),
    {
        let ghost before = self@;
        let mut ids: Vec<u64> = Vec::new();
        let mut i: usize = 0;
        while i < self.subscribers.len()
            invariant
                i <= self.subscribers.len(),
                self@.len() == before.len(),
                forall|k: int| 0 <= k < i ==> self@[k] == before[k].sent(),
                forall|k: int| i <= k < before.len() ==> self@[k] == before[k],
                ids@ == targets(before.take(i as int)),
            decreases self.subscribers.len() - i,
        {
            let h = self.subscribers[i];
            proof {
                assert(before.take(i + 1).drop_last() =~= before.take(i as int));
            }
            if h.requests_in_flight < MAX_IN_FLIGHT {
                self.subscribers.set(
                    i,
                    SubscriberHandle { id: h.id, requests_in_flight: h.requests_in_flight + 1 },
                );
                ids.push(h.id);
            }
            i = i + 1;
        }
        assert(before.take(i as int) =~= before);
        assert(self@ =~= published(before));
        ids
    }

    /// Takes note of how the delivery to the subscriber `id` ended: after a
    /// success it has one less in flight; after an error it is dropped.
    pub fn complete(&mut self, id: u64, ok: bool)
        requires
            old(self).wf(),
        ensures
            final(self).wf(),
            final(self)@ == delivered(old(self)@, id, ok),
    {
        if !ok {
            self.remove(id);
        } else {
            match self.position(id) {
                Some(i) => {
                    let h = self.subscribers[i];
                    if h.requests_in_flight > 0 {
                        self.subscribers.set(
                            i,
                            SubscriberHandle {
                                id: h.id,
                                requests_in_flight: h.requests_in_flight - 1,
                            },
                        );
                    } else {
                        assert(self@ =~= delivered(self@, id, ok));
                    }
                },
                None => {},
            }
        }
    }
}

/// A worker's subscription: dropping it takes the worker out of the map.
#[derive(Debug, PartialEq, Eq)]
pub struct SubscriptionImpl {
    id: u64,
}

impl SubscriptionImpl {
    /// The id of the subscription.
    pub closed spec fn spec_id(&self) -> u64 {
        self.id
    }

    /// The subscription with the id `id`.
    pub fn new(id: u64) -> (s: SubscriptionImpl)
        ensures
            s.spec_id() == id,
    {
        SubscriptionImpl { id: id }
    }

    /// The id of the subscription.
    pub fn id(&self) -> (id: u64)
        ensures
            id == self.spec_id(),
    {
        self.id
    }

    /// Ends the subscription: the subscriber leaves the map.
    pub fn drop(self, subscribers: &mut SubscriberMap)
        requires
            old(subscribers).wf(),
        ensures
            final(subscribers).wf(),
            final(subscribers)@ == without(old(subscribers)@, self.spec_id()),
    {
        subscribers.remove(self.id);
    }
}

/// The publisher: it owns the map of subscribers and hands out the ids.
#[derive(Debug)]
pub struct PublisherImpl {
    next_id: u64,
    subscribers: SubscriberMap,
}

impl PublisherImpl {
    /// The id that the next subscriber gets.
    pub closed spec fn next(&self) -> u64 {
        self.next_id
    }

    /// The subscribers.
    pub closed spec fn subscribers(&self) -> Seq<SubscriberHandle> {
        self.subscribers@
    }

    /// The subscribers are in the order of their ids, and while ids are
    /// left to hand out, every id is below the next one.
    pub closed spec fn wf(&self) -> bool {
        &&& self.subscribers.wf()
        &&& self.next_id < u64::MAX ==> forall|i: int|
            0 <= i < self.subscribers@.len() ==> self.subscribers@[i].id < self.next_id
    }

    /// The id that a publisher over `subscribers` hands out first: zero for
    /// an empty map, else the id behind the highest one in the map.
    pub open spec fn first_id(subscribers: Seq<SubscriberHandle>) -> u64 {
        if subscribers.len() == 0 {
            0
        } else if subscribers.last().id == u64::MAX {
            u64::MAX
        } else {
            (subscribers.last().id + 1) as u64
        }
    }

    /// A publisher over `subscribers`.
    pub fn new(subscribers: SubscriberMap) -> (p: PublisherImpl)
        requires
            subscribers.wf(),
        ensures
            p.wf(),
            p.next() == PublisherImpl::first_id(subscribers@),
            p.subscribers() == subscribers@,
    {
        let next_id = match subscribers.last_id() {
            None => 0,
            Some(id) => if id == u64::MAX {
                u64::MAX
            } else {
                id + 1
            },
        };
        PublisherImpl { next_id, subscribers }
    }

    /// Takes a subscriber in, under the next id and with nothing in flight,
    /// and hands back its subscription. When the ids have run out, nobody is
    /// taken in.
    pub fn subscribe(&mut self) -> (r: Option<SubscriptionImpl>)
        requires
            old(self).wf(),
        ensures
            final(self).wf(),
            old(self).next() < u64::MAX ==> {
                &&& r matches Some(s)
                &&& s.spec_id() == old(self).next()
                &&& final(self).next() == old(self).next() + 1
                &&& final(self).subscribers() == old(self).subscribers().push(
                    SubscriberHandle { id: old(self).next(), requests_in_flight: 0 },
                )
            },
            old(self).next() == u64::MAX ==> r is None && final(self).next() == old(self).next()
                && final(self).subscribers() == old(self).subscribers(),
    {
        if self.next_id == u64::MAX {
            return None;
        }
        let id = self.next_id;
        self.subscribers.insert(id);
        self.next_id = id + 1;
        Some(SubscriptionImpl::new(id))
    }

    /// Ends a subscription.
    pub fn unsubscribe(&mut self, subscription: SubscriptionImpl)
        requires
            old(self).wf(),
        ensures
            final(self).wf(),
            final(self).next() == old(self).next(),
            final(self).subscribers() == without(old(self).subscribers(), subscription.spec_id()),
    {
        let ghost before = self.subscribers@;
        subscription.drop(&mut self.subscribers);
        proof {
            if self.next_id < u64::MAX {
                lemma_without_keeps_bound(before, subscription.spec_id(), self.next_id);
            }
        }
    }

    /// Marks a publish as sent to every subscriber that has room and hands
    /// back their ids.
    pub fn publish(&mut self) -> (ids: Vec<u64>)
        requires
            old(self).wf(),
        ensures
            final(self).wf(),
            final(self).next() == old(self).next(),
            final(self).subscribers() == published(old(self).subscribers()),
            ids@ == targets(old(self).subscribers()),
    {
        self.subscribers.publish()
    }

    /// Takes note of how the delivery to the subscriber `id` ended.
    pub fn complete(&mut self, id: u64, ok: bool)
        requires
            old(self).wf(),
        ensures
            final(self).wf(),
            final(self).next() == old(self).next(),
            final(self).subscribers() == delivered(old(self).subscribers(), id, ok),
    {
        let ghost before = self.subscribers@;
        self.subscribers.complete(id, ok);
        proof {
            if self.next_id < u64::MAX {
                lemma_without_keeps_bound(before, id, self.next_id);
            }
        }
    }

    /// The number of subscribers.
    pub fn len(&self) -> (n: usize)
        ensures
            n == self.subscribers().len(),
    {
        self.subscribers.len()
    }

    /// The number of publishes in flight to the subscriber `id`, if it is
    /// subscribed.
    pub fn in_flight(&self, id: u64) -> (r: Option<u32>)
        requires
            self.wf(),
        ensures
            r is Some <==> subscribed(self.subscribers(), id),
            r matches Some(n) ==> n == self.subscribers()[place_of(
                self.subscribers(),
                id,
            )].requests_in_flight,
    {
        self.subscribers.in_flight(id)
    }
}

/// Taking a subscriber out leaves the ids of the others as they are: an
/// upper bound of all ids is one of those that are left.
proof fn lemma_without_keeps_bound(subscribers: Seq<SubscriberHandle>, id: u64, bound: u64)
    requires
        forall|i: int| 0 <= i < subscribers.len() ==> subscribers[i].id < bound,
    ensures
        forall|i: int|
            0 <= i < without(subscribers, id).len() ==> without(subscribers, id)[i].id < bound,
{
    if subscribed(subscribers, id) {
        let p = place_of(subscribers, id);
        assert(subscribed_at(subscribers, id, p));
        let rest = subscribers.remove(p);
        assert forall|i: int| 0 <= i < rest.len() implies rest[i].id < bound by {
            if i < p {
                assert(rest[i] == subscribers[i]);
            } else {
                assert(rest[i] == subscribers[i + 1]);
            }
        }
    }
}


/// A change together with the subscribers that are to be told of it.
#[derive(Debug, PartialEq, Eq)]
pub struct Publish {
    /// The change.
    pub event: Event,
    /// The ids of the subscribers to deliver it to, in the order of
    /// subscription.
    pub subscribers: Vec<u64>,
}

/// Publishes a change of the server at `url` to the subscribers that have
/// room.
fn publish(change: Change, url: &str, subscribers: &mut SubscriberMap) -> (p: Publish)
    requires
        old(subscribers).wf(),
    ensures
        final(subscribers).wf(),
        final(subscribers)@ == published(old(subscribers)@),
        p.event@ == (EventView { change, url: url@ }),
        p.subscribers@ == targets(old(subscribers)@),
{
    let ids = subscribers.publish();
    Publish { event: Event::new(change, url), subscribers: ids }
}

/// Asks every subscriber that has room to add the server at `url` to its
/// pool.
pub fn publish_new_server(url: &str, subscribers: &mut SubscriberMap) -> (p: Publish)
    requires
        old(subscribers).wf(),
    ensures
        final(subscribers).wf(),
        final(subscribers)@ == published(old(subscribers)@),
        p.event@ == (EventView { change: Change::AddServer, url: url@ }),
        p.subscribers@ == targets(old(subscribers)@),
{
    publish(Change::AddServer, url, subscribers)
}

/// Asks every subscriber that has room to take the server at `url` down in
/// its pool.
pub fn publish_server_state_down(url: &str, subscribers: &mut SubscriberMap) -> (p: Publish)
    requires
        old(subscribers).wf(),
    ensures
        final(subscribers).wf(),
        final(subscribers)@ == published(old(subscribers)@),
        p.event@ == (EventView { change: Change::MarkServerDown, url: url@ }),
        p.subscribers@ == targets(old(subscribers)@),
{
    publish(Change::MarkServerDown, url, subscribers)
}

/// Asks every subscriber that has room to make the server at `url` active
/// in its pool.
pub fn publish_server_state_active(url: &str, subscribers: &mut SubscriberMap) -> (p: Publish)
    requires
        old(subscribers).wf(),
    ensures
        final(subscribers).wf(),
        final(subscribers)@ == published(old(subscribers)@),
        p.event@ == (EventView { change: Change::MarkServerActive, url: url@ }),
        p.subscribers@ == targets(old(subscribers)@),
{
    publish(Change::MarkServerActive, url, subscribers)
}

/// A worker process that the manager has started.
#[derive(Clone, Copy, Debug, PartialEq, Eq)]
pub struct Worker {
    /// The id that the manager gave the worker.
    pub id: u64,
    /// The process id of the worker.
    pub pid: i32,
}

/// The supervisor's record of its workers and their subscriptions.
#[derive(Debug)]
pub struct Manager {
    inner: Inner,
}

/// What the manager keeps.
#[derive(Debug)]
pub struct Inner {
    workers: Vec<Worker>,
    publisher: PublisherImpl,
}

impl Manager {
    /// The workers that were started, in the order in which they were
    /// recorded.
    pub closed spec fn workers(&self) -> Seq<Worker> {
        self.inner.workers@
    }

    /// The subscribers.
    pub closed spec fn subscribers(&self) -> Seq<SubscriberHandle> {
        self.inner.publisher.subscribers()
    }

    /// The id that the next subscriber gets.
    pub closed spec fn next_id(&self) -> u64 {
        self.inner.publisher.next()
    }

    /// The subscribers are in the order of their ids, and while ids are
    /// left to hand out, every id is below the next one.
    pub closed spec fn wf(&self) -> bool {
        self.inner.publisher.wf()
    }

    /// A manager without workers and without subscribers.
    pub fn new() -> (m: Manager)
        ensures
            m.wf(),
            m.workers() == Seq::<Worker>::empty(),
            m.subscribers() == Seq::<SubscriberHandle>::empty(),
            m.next_id() == 0,
    {
        Manager {
            inner: Inner { workers: Vec::new(), publisher: PublisherImpl::new(SubscriberMap::new()) },
        }
    }

    /// The ids of the `count` workers to start: zero up to `count`, in
    /// order. Every worker that was started is reported with
    /// [`Manager::worker_started`].
    pub fn start_workers(&self, count: usize) -> (ids: Vec<u64>)
        ensures
            ids@.len() == count,
            forall|i: int| 0 <= i < count ==> ids@[i] == i,
    {
        let mut ids: Vec<u64> = Vec::new();
        let mut i: usize = 0;
        while i < count
            invariant
                i <= count,
                ids@.len() == i,
                forall|k: int| 0 <= k < i ==> ids@[k] == k,
            decreases count - i,
        {
            ids.push(i as u64);
            i = i + 1;
        }
        ids
    }

    /// Records a worker that was started.
    pub fn worker_started(&mut self, id: u64, pid: i32)
        ensures
            final(self).workers() == old(self).workers().push(Worker { id, pid }),
            final(self).subscribers() == old(self).subscribers(),
            final(self).next_id() == old(self).next_id(),
            old(self).wf() ==> final(self).wf(),
    {
        self.inner.workers.push(Worker { id, pid });
    }

    /// A copy of the record of the workers.
    pub fn started(&self) -> (v: Vec<Worker>)
        ensures
            v@ == self.workers(),
    {
        let mut v: Vec<Worker> = Vec::new();
        let mut i: usize = 0;
        while i < self.inner.workers.len()
            invariant
                i <= self.inner.workers.len(),
                v@ == self.inner.workers@.take(i as int),
            decreases self.inner.workers.len() - i,
        {
            v.push(self.inner.workers[i]);
            assert(self.inner.workers@.take(i + 1) =~= self.inner.workers@.take(i as int).push(
                self.inner.workers@[i as int],
            ));
            i = i + 1;
        }
        assert(self.inner.workers@.take(i as int) =~= self.inner.workers@);
        v
    }

    /// Takes a worker's subscription.
    pub fn subscribe(&mut self) -> (r: Option<SubscriptionImpl>)
        requires
            old(self).wf(),
        ensures
            final(self).wf(),
            final(self).workers() == old(self).workers(),
            old(self).next_id() < u64::MAX ==> {
                &&& r matches Some(s)
                &&& s.spec_id() == old(self).next_id()
                &&& final(self).next_id() == old(self).next_id() + 1
                &&& final(self).subscribers() == old(self).subscribers().push(
                    SubscriberHandle { id: old(self).next_id(), requests_in_flight: 0 },
                )
            },
            old(self).next_id() == u64::MAX ==> r is None && final(self).next_id() == old(
                self,
            ).next_id() && final(self).subscribers() == old(self).subscribers(),
    {
        self.inner.publisher.subscribe()
    }

    /// Ends a worker's subscription.
    pub fn unsubscribe(&mut self, subscription: SubscriptionImpl)
        requires
            old(self).wf(),
        ensures
            final(self).wf(),
            final(self).workers() == old(self).workers(),
            final(self).next_id() == old(self).next_id(),
            final(self).subscribers() == without(old(self).subscribers(), subscription.spec_id()),
    {
        self.inner.publisher.unsubscribe(subscription)
    }

    /// Takes note of how the delivery of a publish to the subscriber `id`
    /// ended: after a success it has one less in flight; after an error it
    /// is dropped, and the other subscribers are not touched.
    pub fn delivery_ended(&mut self, id: u64, ok: bool)
        requires
            old(self).wf(),
        ensures
            final(self).wf(),
            final(self).workers() == old(self).workers(),
            final(self).next_id() == old(self).next_id(),
            final(self).subscribers() == delivered(old(self).subscribers(), id, ok),
    {
        self.inner.publisher.complete(id, ok)
    }

    fn publish(&mut self, change: Change, url: &str) -> (p: Publish)
        requires
            old(self).wf(),
        ensures
            final(self).wf(),
            final(self).workers() == old(self).workers(),
            final(self).next_id() == old(self).next_id(),
            final(self).subscribers() == published(old(self).subscribers()),
            p.event@ == (EventView { change, url: url@ }),
            p.subscribers@ == targets(old(self).subscribers()),
    {
        let ids = self.inner.publisher.publish();
        Publish { event: Event::new(change, url), subscribers: ids }
    }

    /// Asks all workers that have room to add the server at `url` to their
    /// pool.
    pub fn publish_new_server(&mut self, url: &str) -> (p: Publish)
        requires
            old(self).wf(),
        ensures
            final(self).wf(),
            final(self).workers() == old(self).workers(),
            final(self).next_id() == old(self).next_id(),
            final(self).subscribers() == published(old(self).subscribers()),
            p.event@ == (EventView { change: Change::AddServer, url: url@ }),
            p.subscribers@ == targets(old(self).subscribers()),
    {
        self.publish(Change::AddServer, url)
    }

    /// Asks all workers that have room to take the server at `url` down in
    /// their pool.
    pub fn publish_server_state_down(&mut self, url: &str) -> (p: Publish)
        requires
            old(self).wf(),
        ensures
            final(self).wf(),
            final(self).workers() == old(self).workers(),
            final(self).next_id() == old(self).next_id(),
            final(self).subscribers() == published(old(self).subscribers()),
            p.event@ == (EventView { change: Change::MarkServerDown, url: url@ }),
            p.subscribers@ == targets(old(self).subscribers()),
    {
        self.publish(Change::MarkServerDown, url)
    }

    /// Asks all workers that have room to make the server at `url` active
    /// in their pool.
    pub fn publish_server_state_active(&mut self, url: &str) -> (p: Publish)
        requires
            old(self).wf(),
        ensures
            final(self).wf(),
            final(self).workers() == old(self).workers(),
            final(self).next_id() == old(self).next_id(),
            final(self).subscribers() == published(old(self).subscribers()),
            p.event@ == (EventView { change: Change::MarkServerActive, url: url@ }),
            p.subscribers@ == targets(old(self).subscribers()),
    {
        self.publish(Change::MarkServerActive, url)
    }

    /// Publishes a change that the health checker has made.
    pub fn publish_event(&mut self, event: Event) -> (p: Publish)
        requires
            old(self).wf(),
        ensures
            final(self).wf(),
            final(self).workers() == old(self).workers(),
            final(self).next_id() == old(self).next_id(),
            final(self).subscribers() == published(old(self).subscribers()),
            p.event == event,
            p.subscribers@ == targets(old(self).subscribers()),
    {
        let ids = self.inner.publisher.publish();
        Publish { event, subscribers: ids }
    }
}

/// A publish goes to a subscriber exactly if it has room: every id handed
/// back belongs to a subscriber with fewer than [`MAX_IN_FLIGHT`] publishes
/// in flight, and every such subscriber's id is handed back.
pub proof fn lemma_targets_have_room(subscribers: Seq<SubscriberHandle>, id: u64)
    ensures
        targets(subscribers).contains(id) <==> exists|i: int|
            subscribed_at(subscribers, id, i) && subscribers[i].has_room(),
    decreases subscribers.len(),
{
    if subscribers.len() > 0 {
        let front = subscribers.drop_last();
        let last = subscribers.last();
        lemma_targets_have_room(front, id);
        if targets(subscribers).contains(id) {
            let k = choose|k: int| 0 <= k < targets(subscribers).len() && targets(subscribers)[k] == id;
            if last.has_room() && k == targets(front).len() {
                assert(subscribed_at(subscribers, id, subscribers.len() - 1));
            } else {
                assert(targets(front)[k] == id);
                assert(targets(front).contains(id));
                let i = choose|i: int| subscribed_at(front, id, i) && front[i].has_room();
                assert(subscribed_at(subscribers, id, i) && subscribers[i].has_room());
            }
        }
        if exists|i: int| subscribed_at(subscribers, id, i) && subscribers[i].has_room() {
            let i = choose|i: int| subscribed_at(subscribers, id, i) && subscribers[i].has_room();
            if i == subscribers.len() - 1 {
                assert(targets(subscribers) == targets(front).push(id));
                assert(targets(subscribers)[targets(front).len() as int] == id);
            } else {
                assert(subscribed_at(front, id, i) && front[i].has_room());
                assert(targets(front).contains(id));
                let k = choose|k: int| 0 <= k < targets(front).len() && targets(front)[k] == id;
                assert(targets(subscribers)[k] == id);
            }
        }
    }
}

/// No subscriber ever has more than [`MAX_IN_FLIGHT`] publishes in flight:
/// a publish keeps the bound.
pub proof fn lemma_publish_keeps_cap(subscribers: Seq<SubscriberHandle>)
    requires
        forall|i: int| 0 <= i < subscribers.len() ==> subscribers[i].requests_in_flight <= MAX_IN_FLIGHT,
    ensures
        published(subscribers).len() == subscribers.len(),
        forall|i: int|
            0 <= i < subscribers.len() ==> published(subscribers)[i].requests_in_flight
                <= MAX_IN_FLIGHT && published(subscribers)[i].id == subscribers[i].id,
{
}

} // verus!
