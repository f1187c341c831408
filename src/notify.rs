use vstd::prelude::*;
use crate::model::{ConfigKey, ServiceName};

verus! {

/// The two streams of change events.
#[derive(Debug, Clone, Copy, PartialEq, Eq, Structural)]
pub enum Topic {
    Config,
    Instance,
}

/// A change pushed to subscribers.
#[derive(Debug, Clone)]
pub enum ChangeEvent {
    Config { namespace: String, group: String, data_id: String },
    Instance { service_name: String },
}

impl ChangeEvent {
    pub open spec fn spec_topic(self) -> Topic {
        match self {
            ChangeEvent::Config { .. } => Topic::Config,
            ChangeEvent::Instance { .. } => Topic::Instance,
        }
    }

    /// The topic on which this event travels.
    pub fn topic(&self) -> (r: Topic)
        ensures
            r == self.spec_topic(),
    {
        match self {
            ChangeEvent::Config { .. } => Topic::Config,
            ChangeEvent::Instance { .. } => Topic::Instance,
        }
    }

    /// The event announcing a change of the configuration entry `key`.
    pub open spec fn spec_config(key: ConfigKey) -> ChangeEvent {
        ChangeEvent::Config { namespace: key.namespace, group: key.group, data_id: key.data_id }
    }

    pub fn config(key: &ConfigKey) -> (r: ChangeEvent)
        ensures
            r == Self::spec_config(*key),
    {
        ChangeEvent::Config {
            namespace: key.namespace.clone(),
            group: key.group.clone(),
            data_id: key.data_id.clone(),
        }
    }

    /// The event announcing a change among the instances of `service`.
    pub fn instance(service: &ServiceName) -> (r: ChangeEvent)
        ensures
            r == (ChangeEvent::Instance { service_name: service.0 }),
    {
        ChangeEvent::Instance { service_name: service.0.clone() }
    }

    pub fn copied(&self) -> (r: ChangeEvent)
        ensures
            r == *self,
    {
        match self {
            ChangeEvent::Config { namespace, group, data_id } => ChangeEvent::Config {
                namespace: namespace.clone(),
                group: group.clone(),
                data_id: data_id.clone(),
            },
            ChangeEvent::Instance { service_name } => ChangeEvent::Instance {
                service_name: service_name.clone(),
            },
        }
    }
}

/// What a subscriber finds when it asks for its next event.
#[derive(Debug, Clone)]
pub enum Delivery {
    /// The oldest event not yet taken.
    Event(ChangeEvent),
    /// This many events were dropped because the subscriber fell behind;
    /// newer ones follow.
    Lagged(u64),
    /// Nothing new yet.
    Idle,
    /// The hub is shut down (or the subscription is gone) and nothing is left.
    Closed,
}

/// One live subscription: its pending events, oldest first, and how many
/// events were dropped since it last looked.
#[derive(Debug)]
pub struct Subscriber {
    pub id: u64,
    pub topic: Topic,
    pub queue: Vec<ChangeEvent>,
    pub missed: u64,
}

/// The pending queue of one subscriber after `ev` is offered to it, with room
/// for `cap` events: when full, the oldest is dropped.
pub open spec fn offered(queue: Seq<ChangeEvent>, cap: nat, ev: ChangeEvent) -> Seq<ChangeEvent> {
    if queue.len() < cap {
        queue.push(ev)
    } else {
        queue.drop_first().push(ev)
    }
}

/// The dropped-event count after `ev` is offered to a queue of `len` events.
pub open spec fn missed_after(missed: u64, len: nat, cap: nat) -> u64 {
    if len < cap || missed == u64::MAX {
        missed
    } else {
        (missed + 1) as u64
    }
}

/// A topic-based broadcast hub: each subscriber has a bounded queue, and a
/// publish never waits for a slow subscriber.
pub struct SseHub {
    pub capacity: usize,
    pub next_id: u64,
    pub subscribers: Vec<Subscriber>,
    pub closed: bool,
}

/// Room of each subscriber queue of a hub made by `SseHub::new`.
pub const DEFAULT_CAPACITY: usize = 1024;

impl SseHub {
    pub open spec fn wf(&self) -> bool {
        &&& self.capacity > 0
        &&& forall|i: int| 0 <= i < self.subscribers@.len() ==> {
            &&& (#[trigger] self.subscribers@[i]).queue@.len() <= self.capacity
            &&& self.subscribers@[i].id < self.next_id
        }
        &&& forall|i: int, j: int| 0 <= i < j < self.subscribers@.len() ==> self.subscribers@[i].id
            != self.subscribers@[j].id
    }

    /// Position of the subscription `id`, if it is live.
    pub open spec fn index_of(&self, id: u64) -> int {
        choose|i: int| 0 <= i < self.subscribers@.len() && self.subscribers@[i].id == id
    }

    pub open spec fn has(&self, id: u64) -> bool {
        exists|i: int| 0 <= i < self.subscribers@.len() && self.subscribers@[i].id == id
    }

    /// `after` is `before` once `ev` was offered to every subscriber of its
    /// topic (nothing changes on a closed hub).
    pub open spec fn broadcast(before: SseHub, after: SseHub, ev: ChangeEvent) -> bool {
        &&& after.capacity == before.capacity
        &&& after.next_id == before.next_id
        &&& after.closed == before.closed
        &&& after.subscribers@.len() == before.subscribers@.len()
        &&& forall|i: int| 0 <= i < before.subscribers@.len() ==> {
            let o = #[trigger] before.subscribers@[i];
            let n = after.subscribers@[i];
            &&& n.id == o.id
            &&& n.topic == o.topic
            &&& if !before.closed && o.topic == ev.spec_topic() {
                &&& n.queue@ == offered(o.queue@, before.capacity as nat, ev)
                &&& n.missed == missed_after(o.missed, o.queue@.len(), before.capacity as nat)
            } else {
                &&& n.queue@ == o.queue@
                &&& n.missed == o.missed
            }
        }
    }

    /// A hub whose subscribers each buffer up to `capacity` events.
    pub fn with_capacity(capacity: usize) -> (r: SseHub)
        requires
            capacity > 0,
        ensures
            r.wf(),
            r.capacity == capacity,
            r.subscribers@.len() == 0,
            !r.closed,
    {
        SseHub { capacity, next_id: 0, subscribers: Vec::new(), closed: false }
    }

    pub fn new() -> (r: SseHub)
        ensures
            r.wf(),
            r.capacity == DEFAULT_CAPACITY,
            r.subscribers@.len() == 0,
            !r.closed,
    {
        Self::with_capacity(DEFAULT_CAPACITY)
    }

    /// Opens a subscription to `topic`; it sees only events published after
    /// this call. `None` once every id has been handed out.
    pub fn subscribe(&mut self, topic: Topic) -> (r: Option<u64>)
        requires
            old(self).wf(),
        ensures
            final(self).wf(),
            final(self).capacity == old(self).capacity,
            final(self).closed == old(self).closed,
            old(self).next_id < u64::MAX <==> r.is_some(),
            r.is_none() ==> final(self).subscribers@ == old(self).subscribers@,
            r.is_some() ==> {
                let s = final(self).subscribers@.last();
                &&& final(self).subscribers@.drop_last() == old(self).subscribers@
                &&& s.id == r.unwrap()
                &&& s.topic == topic
                &&& s.queue@.len() == 0
                &&& s.missed == 0
                &&& !old(self).has(r.unwrap())
            },
    {
        if self.next_id == u64::MAX {
            return None;
        }
        let id = self.next_id;
        self.subscribers.push(Subscriber { id, topic, queue: Vec::new(), missed: 0 });
        self.next_id = id + 1;
        proof {
            assert(self.subscribers@.drop_last() =~= old(self).subscribers@);
        }
        Some(id)
    }

    /// Ends the subscription `id`; returns whether it was live. Other
    /// subscriptions are untouched.
    pub fn unsubscribe(&mut self, id: u64) -> (r: bool)
        requires
            old(self).wf(),
        ensures
            final(self).wf(),
            r == old(self).has(id),
            !final(self).has(id),
            final(self).capacity == old(self).capacity,
            final(self).closed == old(self).closed,
            r ==> final(self).subscribers@ == old(self).subscribers@.remove(old(self).index_of(id)),
            !r ==> final(self).subscribers@ == old(self).subscribers@,
    {
        let mut i: usize = 0;
        while i < self.subscribers.len()
            invariant
                i <= self.subscribers@.len(),
                old(self).wf(),
                self.subscribers@ == old(self).subscribers@,
                self.capacity == old(self).capacity,
                self.next_id == old(self).next_id,
                self.closed == old(self).closed,
                forall|t: int| 0 <= t < i ==> self.subscribers@[t].id != id,
            decreases self.subscribers@.len() - i,
        {
            if self.subscribers[i].id == id {
                proof {
                    assert(old(self).has(id));
                    let j = old(self).index_of(id);
                    if j != i as int {
                        assert(self.subscribers@[j].id == self.subscribers@[i as int].id);
                    }
                }
                let _gone = self.subscribers.remove(i);
                proof {
                    assert(self.subscribers@ == old(self).subscribers@.remove(i as int));
                    assert(old(self).index_of(id) == i as int);
                    if self.has(id) {
                        let k = choose|k: int|
                            0 <= k < self.subscribers@.len() && self.subscribers@[k].id == id;
                        if k < i {
                            assert(old(self).subscribers@[k].id == id);
                        } else {
                            assert(old(self).subscribers@[k + 1].id == id);
                        }
                    }
                }
                return true;
            }
            i = i + 1;
        }
        false
    }

    /// Sends `ev` to every subscriber of its topic and returns how many there
    /// were. A full queue drops its oldest event and counts it as missed.
    /// After `close` nothing is delivered.
    pub fn publish(&mut self, ev: ChangeEvent) -> (r: usize)
        requires
            old(self).wf(),
        ensures
            final(self).wf(),
            Self::broadcast(*old(self), *final(self), ev),
    {
        if self.closed {
            return 0;
        }
        let topic = ev.topic();
        let mut count: usize = 0;
        let mut i: usize = 0;
        while i < self.subscribers.len()
            invariant
                i <= self.subscribers@.len(),
                count <= i,
                self.wf(),
                !old(self).closed,
                topic == ev.spec_topic(),
                self.capacity == old(self).capacity,
                self.next_id == old(self).next_id,
                self.closed == old(self).closed,
                self.subscribers@.len() == old(self).subscribers@.len(),
                forall|t: int| i <= t < self.subscribers@.len() ==> self.subscribers@[t]
                    == old(self).subscribers@[t],
                forall|t: int| 0 <= t < i ==> {
                    let o = #[trigger] old(self).subscribers@[t];
                    let n = self.subscribers@[t];
                    &&& n.id == o.id
                    &&& n.topic == o.topic
                    &&& if o.topic == ev.spec_topic() {
                        &&& n.queue@ == offered(o.queue@, old(self).capacity as nat, ev)
                        &&& n.missed == missed_after(o.missed, o.queue@.len(), old(self).capacity as nat)
                    } else {
                        &&& n.queue@ == o.queue@
                        &&& n.missed == o.missed
                    }
                },
            decreases self.subscribers@.len() - i,
        {
            if self.subscribers[i].topic == topic {
                let ghost before = self.subscribers@;
                let mut s = self.subscribers.remove(i);
                let ghost q0 = s.queue@;
                if s.queue.len() >= self.capacity {
                    let _dropped = s.queue.remove(0);
                    if s.missed < u64::MAX {
                        s.missed = s.missed + 1;
                    }
                }
                s.queue.push(ev.copied());
                proof {
                    if q0.len() >= self.capacity {
                        assert(s.queue@ =~= q0.drop_first().push(ev));
                    } else {
                        assert(s.queue@ =~= q0.push(ev));
                    }
                }
                self.subscribers.insert(i, s);
                proof {
                    assert(self.subscribers@ =~= before.update(i as int, self.subscribers@[i as int]));
                }
                count = count + 1;
            }
            i = i + 1;
        }
        count
    }

    /// Takes the next thing subscriber `id` should see: first any lag
    /// notice, then its oldest pending event; once nothing is pending, `Idle`
    /// while the hub is open and `Closed` after it was shut down. An unknown
    /// id gets `Closed`.
    pub fn poll(&mut self, id: u64) -> (r: Delivery)
        requires
            old(self).wf(),
        ensures
            final(self).wf(),
            final(self).capacity == old(self).capacity,
            final(self).next_id == old(self).next_id,
            final(self).closed == old(self).closed,
            final(self).subscribers@.len() == old(self).subscribers@.len(),
            !old(self).has(id) ==> r is Closed && final(self).subscribers@ == old(self).subscribers@,
            old(self).has(id) ==> {
                let i = old(self).index_of(id);
                let o = old(self).subscribers@[i];
                let n = final(self).subscribers@[i];
                &&& forall|j: int| 0 <= j < old(self).subscribers@.len() && j != i
                    ==> final(self).subscribers@[j] == old(self).subscribers@[j]
                &&& n.id == o.id
                &&& n.topic == o.topic
                &&& if o.missed > 0 {
                    &&& r == Delivery::Lagged(o.missed)
                    &&& n.missed == 0
                    &&& n.queue@ == o.queue@
                } else if o.queue@.len() > 0 {
                    &&& r == Delivery::Event(o.queue@[0])
                    &&& n.missed == 0
                    &&& n.queue@ == o.queue@.drop_first()
                } else {
                    &&& r == (if old(self).closed { Delivery::Closed } else { Delivery::Idle })
                    &&& n.missed == 0
                    &&& n.queue@ == o.queue@
                }
            },
    {
        let mut i: usize = 0;
        while i < self.subscribers.len()
            invariant
                i <= self.subscribers@.len(),
                old(self).wf(),
                self.subscribers@ == old(self).subscribers@,
                self.capacity == old(self).capacity,
                self.next_id == old(self).next_id,
                self.closed == old(self).closed,
                forall|t: int| 0 <= t < i ==> self.subscribers@[t].id != id,
            decreases self.subscribers@.len() - i,
        {
            if self.subscribers[i].id == id {
                proof {
                    assert(old(self).has(id));
                    let j = old(self).index_of(id);
                    if j != i as int {
                        assert(self.subscribers@[j].id == self.subscribers@[i as int].id);
                    }
                }
                let ghost before = self.subscribers@;
                let mut s = self.subscribers.remove(i);
                let ghost q0 = s.queue@;
                let r = if s.missed > 0 {
                    let n = s.missed;
                    s.missed = 0;
                    Delivery::Lagged(n)
                } else if s.queue.len() > 0 {
                    let e = s.queue.remove(0);
                    proof {
                        assert(s.queue@ =~= q0.drop_first());
                    }
                    Delivery::Event(e)
                } else if self.closed {
                    Delivery::Closed
                } else {
                    Delivery::Idle
                };
                self.subscribers.insert(i, s);
                proof {
                    assert(self.subscribers@ =~= before.update(i as int, self.subscribers@[i as int]));
                }
                return r;
            }
            i = i + 1;
        }
        Delivery::Closed
    }

    /// Shuts the hub down: subscribers drain what is pending, then see `Closed`.
    pub fn close(&mut self)
        requires
            old(self).wf(),
        ensures
            final(self).wf(),
            final(self).closed,
            final(self).capacity == old(self).capacity,
            final(self).next_id == old(self).next_id,
            final(self).subscribers@ == old(self).subscribers@,
    {
        self.closed = true;
    }
}

/// Receives change announcements from the stores' callers.
pub trait Notifier: Sized {
    spec fn ready(&self) -> bool;

    /// `after` is `before` once the change of the configuration entry `key`
    /// was announced.
    spec fn config_sent(before: Self, after: Self, key: ConfigKey) -> bool;

    /// `after` is `before` once the change of `service` was announced.
    spec fn instance_sent(before: Self, after: Self, service: ServiceName) -> bool;

    fn notify_config_change(&mut self, key: &ConfigKey)
        requires
            old(self).ready(),
        ensures
            final(self).ready(),
            Self::config_sent(*old(self), *final(self), *key),
    ;

    fn notify_instance_change(&mut self, service: &ServiceName)
        requires
            old(self).ready(),
        ensures
            final(self).ready(),
            Self::instance_sent(*old(self), *final(self), *service),
    ;
}

impl Notifier for SseHub {
    open spec fn ready(&self) -> bool {
        self.wf()
    }

    /// The `config` event for `key` was offered to every subscriber of that topic.
    open spec fn config_sent(before: SseHub, after: SseHub, key: ConfigKey) -> bool {
        SseHub::broadcast(before, after, ChangeEvent::spec_config(key))
    }

    /// The `instance` event for `service` was offered to every subscriber of that topic.
    open spec fn instance_sent(before: SseHub, after: SseHub, service: ServiceName) -> bool {
        SseHub::broadcast(before, after, ChangeEvent::Instance { service_name: service.0 })
    }

    /// Sends a `config` event naming `key` to the subscribers of that topic.
    fn notify_config_change(&mut self, key: &ConfigKey) {
        let _ = self.publish(ChangeEvent::config(key));
    }

    /// Sends an `instance` event naming `service` to the subscribers of that topic.
    fn notify_instance_change(&mut self, service: &ServiceName) {
        let _ = self.publish(ChangeEvent::instance(service));
    }
}

/// The notifier to use when none is attached: announcements go nowhere.
pub struct Silent;

impl Notifier for Silent {
    open spec fn ready(&self) -> bool {
        true
    }

    /// Nothing changes.
    open spec fn config_sent(before: Silent, after: Silent, key: ConfigKey) -> bool {
        before == after
    }

    /// Nothing changes.
    open spec fn instance_sent(before: Silent, after: Silent, service: ServiceName) -> bool {
        before == after
    }

    fn notify_config_change(&mut self, key: &ConfigKey) {
    }

    fn notify_instance_change(&mut self, service: &ServiceName) {
    }
}

} // verus!
