//! Handing each signal on to everyone who asked for it.
//!
//! A registry holds one bounded queue for each subscriber. Publishing
//! puts the event at the end of every queue that is open and has room. A
//! queue that is full misses the event and stays; a queue whose receiver
//! is gone is taken out of the registry. Neither keeps the event from the
//! other subscribers, and each is reported to the caller, who may log it.
//!
//! A registry has one owner at a time. Where several threads publish and
//! subscribe, the owner keeps the registry behind a lock.

use std::collections::VecDeque;
use std::sync::Arc;
use vstd::prelude::*;

verus! {

/// Why an event did not reach a subscriber.
#[derive(Clone, Copy, Debug, PartialEq, Eq)]
pub enum FailureReason {
    /// The subscriber's queue was full.
    Full,
    /// The subscriber's receiver is gone.
    Closed,
}

/// One delivery that failed.
#[derive(Clone, Copy, Debug, PartialEq, Eq)]
pub struct DeliveryFailure {
    /// The subscriber that the event did not reach.
    pub subscriber: u64,
    /// Why it did not.
    pub reason: FailureReason,
}

/// The mathematical content of one subscriber.
pub ghost struct SubscriberView<T> {
    /// The number that `subscribe` gave out.
    pub id: u64,
    /// The events that wait to be received, oldest first.
    pub pending: Seq<T>,
    /// Whether the receiver is still there.
    pub open: bool,
}

/// The mathematical content of a [`Registry`].
pub ghost struct RegistryView<T> {
    /// The subscribers, in the order in which they subscribed.
    pub subscribers: Seq<SubscriberView<T>>,
    /// How many events a queue holds at most.
    pub capacity: nat,
}

struct Subscriber<T> {
    id: u64,
    queue: VecDeque<Arc<T>>,
    open: bool,
}

impl<T> Subscriber<T> {
    spec fn content(self) -> SubscriberView<T> {
        SubscriberView {
            id: self.id,
            pending: self.queue@.map_values(|event: Arc<T>| *event),
            open: self.open,
        }
    }
}

/// The subscribers and their queues.
pub struct Registry<T> {
    subscribers: Vec<Subscriber<T>>,
    capacity: usize,
    next: u64,
}

/// Whether an event that is published reaches this subscriber.
pub open spec fn reached<T>(subscriber: SubscriberView<T>, capacity: nat) -> bool {
    subscriber.open && subscriber.pending.len() < capacity
}

/// The subscribers after `event` was published to `subscribers`: those
/// whose receiver is gone are left out, those with room have the event at
/// the end of their queue, and those without room are as before.
pub open spec fn after_publish<T>(
    subscribers: Seq<SubscriberView<T>>,
    event: T,
    capacity: nat,
) -> Seq<SubscriberView<T>>
    decreases subscribers.len(),
{
    if subscribers.len() == 0 {
        Seq::empty()
    } else {
        let before = after_publish(subscribers.drop_last(), event, capacity);
        let last = subscribers.last();
        if !last.open {
            before
        } else if last.pending.len() < capacity {
            before.push(SubscriberView { pending: last.pending.push(event), ..last })
        } else {
            before.push(last)
        }
    }
}

/// The deliveries that fail when an event is published to `subscribers`,
/// in the order of the subscribers.
pub open spec fn failures_of<T>(subscribers: Seq<SubscriberView<T>>, capacity: nat) -> Seq<
    DeliveryFailure,
>
    decreases subscribers.len(),
{
    if subscribers.len() == 0 {
        Seq::empty()
    } else {
        let before = failures_of(subscribers.drop_last(), capacity);
        let last = subscribers.last();
        if !last.open {
            before.push(DeliveryFailure { subscriber: last.id, reason: FailureReason::Closed })
        } else if last.pending.len() < capacity {
            before
        } else {
            before.push(DeliveryFailure { subscriber: last.id, reason: FailureReason::Full })
        }
    }
}

/// The place of the first subscriber with the number `id`, if there is one.
pub open spec fn position<T>(subscribers: Seq<SubscriberView<T>>, id: u64) -> Option<int>
    decreases subscribers.len(),
{
    if subscribers.len() == 0 {
        None
    } else {
        match position(subscribers.drop_last(), id) {
            Some(place) => Some(place),
            None => if subscribers.last().id == id {
                Some(subscribers.len() - 1)
            } else {
                None
            },
        }
    }
}

/// The place of the subscriber `id`, if it is open and an event waits in
/// its queue.
pub open spec fn waiting<T>(subscribers: Seq<SubscriberView<T>>, id: u64) -> Option<int> {
    match position(subscribers, id) {
        Some(place) => if subscribers[place].open && subscribers[place].pending.len() > 0 {
            Some(place)
        } else {
            None
        },
        None => None,
    }
}

/// A place is that of a subscriber with the number asked for, and no
/// subscriber before it has that number.
pub proof fn lemma_position<T>(subscribers: Seq<SubscriberView<T>>, id: u64)
    ensures
        position(subscribers, id) matches Some(place) ==> 0 <= place < subscribers.len()
            && subscribers[place].id == id && forall|i: int|
            0 <= i < place ==> subscribers[i].id != id,
        position(subscribers, id) is None ==> forall|i: int|
            0 <= i < subscribers.len() ==> subscribers[i].id != id,
    decreases subscribers.len(),
{
    if subscribers.len() > 0 {
        let before = subscribers.drop_last();
        lemma_position(before, id);
        assert forall|i: int| 0 <= i < before.len() implies before[i] == subscribers[i] by {}
        match position(before, id) {
            Some(place) => {
                assert forall|i: int| 0 <= i < place implies subscribers[i].id != id by {
                    assert(before[i].id != id);
                }
            },
            None => {
                assert forall|i: int| 0 <= i < before.len() implies subscribers[i].id != id by {
                    assert(before[i].id != id);
                }
            },
        }
    }
}

/// Another handle on the value behind `value`, by `Arc::clone` of the
/// standard library: the two handles share one value, so what the new one
/// shows is what the old one shows.
#[verifier::external_body]
fn share<T>(value: &Arc<T>) -> (shared: Arc<T>)
    ensures
        *shared == **value,
{
    Arc::clone(value)
}

/// One more subscriber at the end changes what comes before it in nothing.
pub proof fn lemma_publish_push<T>(
    subscribers: Seq<SubscriberView<T>>,
    last: SubscriberView<T>,
    event: T,
    capacity: nat,
)
    ensures
        after_publish(subscribers.push(last), event, capacity) == if !last.open {
            after_publish(subscribers, event, capacity)
        } else if last.pending.len() < capacity {
            after_publish(subscribers, event, capacity).push(
                SubscriberView { pending: last.pending.push(event), ..last },
            )
        } else {
            after_publish(subscribers, event, capacity).push(last)
        },
        failures_of(subscribers.push(last), capacity) == if !last.open {
            failures_of(subscribers, capacity).push(
                DeliveryFailure { subscriber: last.id, reason: FailureReason::Closed },
            )
        } else if last.pending.len() < capacity {
            failures_of(subscribers, capacity)
        } else {
            failures_of(subscribers, capacity).push(
                DeliveryFailure { subscriber: last.id, reason: FailureReason::Full },
            )
        },
{
    assert(subscribers.push(last).drop_last() =~= subscribers);
}

/// How many of the subscribers an event that is published does not reach.
pub open spec fn missed<T>(subscribers: Seq<SubscriberView<T>>, capacity: nat) -> nat
    decreases subscribers.len(),
{
    if subscribers.len() == 0 {
        0
    } else if reached(subscribers.last(), capacity) {
        missed(subscribers.drop_last(), capacity)
    } else {
        1 + missed(subscribers.drop_last(), capacity)
    }
}

/// A subscriber that cannot take the event keeps it from no other: every
/// subscriber that is open and has room has the event at the end of its
/// queue afterwards, every other subscriber is reported with the reason,
/// and there are as many reports as subscribers that the event did not
/// reach. Those whose receiver is gone are no longer in the list; all
/// others are, in their order.
pub proof fn lemma_publish<T>(subscribers: Seq<SubscriberView<T>>, event: T, capacity: nat)
    ensures
        failures_of(subscribers, capacity).len() == missed(subscribers, capacity),
        forall|i: int|
            0 <= i < subscribers.len() && reached(#[trigger] subscribers[i], capacity)
                ==> after_publish(subscribers, event, capacity).contains(
                SubscriberView { pending: subscribers[i].pending.push(event), ..subscribers[i] },
            ),
        forall|i: int|
            0 <= i < subscribers.len() && (#[trigger] subscribers[i]).open && !reached(
                subscribers[i],
                capacity,
            ) ==> after_publish(subscribers, event, capacity).contains(subscribers[i])
                && failures_of(subscribers, capacity).contains(
                DeliveryFailure { subscriber: subscribers[i].id, reason: FailureReason::Full },
            ),
        forall|i: int|
            0 <= i < subscribers.len() && !(#[trigger] subscribers[i]).open ==> failures_of(
                subscribers,
                capacity,
            ).contains(
                DeliveryFailure { subscriber: subscribers[i].id, reason: FailureReason::Closed },
            ),
        forall|j: int|
            0 <= j < after_publish(subscribers, event, capacity).len() ==> (
            #[trigger] after_publish(subscribers, event, capacity)[j]).open,
    decreases subscribers.len(),
{
    if subscribers.len() > 0 {
        let before = subscribers.drop_last();
        let last = subscribers.last();
        lemma_publish(before, event, capacity);
        let after = after_publish(subscribers, event, capacity);
        let earlier = after_publish(before, event, capacity);
        let failed = failures_of(subscribers, capacity);
        let failed_earlier = failures_of(before, capacity);
        assert forall|i: int|
            0 <= i < subscribers.len() && reached(
                #[trigger] subscribers[i],
                capacity,
            ) implies after.contains(
            SubscriberView { pending: subscribers[i].pending.push(event), ..subscribers[i] },
        ) by {
            let served = SubscriberView {
                pending: subscribers[i].pending.push(event),
                ..subscribers[i]
            };
            if i < before.len() {
                assert(before[i] == subscribers[i]);
                let j = choose|j: int| 0 <= j < earlier.len() && earlier[j] == served;
                assert(after[j] == served);
            } else {
                assert(after[after.len() - 1] == served);
            }
        }
        assert forall|i: int|
            0 <= i < subscribers.len() && (#[trigger] subscribers[i]).open && !reached(
                subscribers[i],
                capacity,
            ) implies after.contains(subscribers[i]) && failed.contains(
            DeliveryFailure { subscriber: subscribers[i].id, reason: FailureReason::Full },
        ) by {
            let report = DeliveryFailure {
                subscriber: subscribers[i].id,
                reason: FailureReason::Full,
            };
            if i < before.len() {
                assert(before[i] == subscribers[i]);
                let j = choose|j: int| 0 <= j < earlier.len() && earlier[j] == subscribers[i];
                assert(after[j] == subscribers[i]);
                let k = choose|k: int| 0 <= k < failed_earlier.len() && failed_earlier[k] == report;
                assert(failed[k] == report);
            } else {
                assert(after[after.len() - 1] == subscribers[i]);
                assert(failed[failed.len() - 1] == report);
            }
        }
        assert forall|i: int|
            0 <= i < subscribers.len() && !(#[trigger] subscribers[i]).open implies failed.contains(
            DeliveryFailure { subscriber: subscribers[i].id, reason: FailureReason::Closed },
        ) by {
            let report = DeliveryFailure {
                subscriber: subscribers[i].id,
                reason: FailureReason::Closed,
            };
            if i < before.len() {
                assert(before[i] == subscribers[i]);
                let k = choose|k: int| 0 <= k < failed_earlier.len() && failed_earlier[k] == report;
                assert(failed[k] == report);
            } else {
                assert(failed[failed.len() - 1] == report);
            }
        }
        assert forall|j: int| 0 <= j < after.len() implies (#[trigger] after[j]).open by {
            if j < earlier.len() {
                assert(after[j] == earlier[j]);
            }
        }
    }
}

/// The content of each subscriber, in order.
spec fn contents<T>(subscribers: Seq<Subscriber<T>>) -> Seq<SubscriberView<T>> {
    subscribers.map_values(|s: Subscriber<T>| s.content())
}

/// Whether the numbers of the subscribers rise along the list and are all
/// below `next`.
spec fn ordered<T>(subscribers: Seq<Subscriber<T>>, next: u64) -> bool {
    &&& forall|i: int| 0 <= i < subscribers.len() ==> (#[trigger] subscribers[i]).id < next
    &&& forall|i: int, j: int|
        0 <= i < j < subscribers.len() ==> (#[trigger] subscribers[i]).id < (
        #[trigger] subscribers[j]).id
}

/// Taking a subscriber out of the list, changing what it holds and putting
/// it back at its place changes that one place and nothing else; where its
/// number is kept, the numbers stay in order.
proof fn lemma_put_back<T>(
    subscribers: Seq<Subscriber<T>>,
    place: int,
    changed: Subscriber<T>,
    next: u64,
)
    requires
        0 <= place < subscribers.len(),
        changed.id == subscribers[place].id,
        ordered(subscribers, next),
    ensures
        subscribers.remove(place).insert(place, changed) == subscribers.update(place, changed),
        contents(subscribers.update(place, changed)) == contents(subscribers).update(
            place,
            changed.content(),
        ),
        ordered(subscribers.update(place, changed), next),
{
    let after = subscribers.update(place, changed);
    assert(subscribers.remove(place).insert(place, changed) =~= after);
    assert(contents(after) =~= contents(subscribers).update(place, changed.content()));
    assert forall|i: int| 0 <= i < after.len() implies (#[trigger] after[i]).id
        == subscribers[i].id by {}
}

impl<T> View for Registry<T> {
    type V = RegistryView<T>;

    closed spec fn view(&self) -> RegistryView<T> {
        RegistryView { subscribers: contents(self.subscribers@), capacity: self.capacity as nat }
    }
}

impl<T> Registry<T> {
    /// Whether the numbers of the subscribers rise along the list and are
    /// all among those given out. Every registry that this module hands
    /// out is so, and every operation keeps it so.
    pub closed spec fn well_formed(&self) -> bool {
        ordered(self.subscribers@, self.next)
    }

    /// How many subscribers there have been.
    pub closed spec fn issued(&self) -> nat {
        self.next as nat
    }

    /// A registry without subscribers, whose queues will hold up to
    /// `capacity` events each.
    pub fn new(capacity: usize) -> (registry: Registry<T>)
        ensures
            registry.well_formed(),
            registry@.subscribers == Seq::<SubscriberView<T>>::empty(),
            registry@.capacity == capacity,
            registry.issued() == 0,
    {
        let registry = Registry { subscribers: Vec::new(), capacity, next: 0 };
        assert(registry@.subscribers =~= Seq::empty());
        registry
    }

    /// How many subscribers the registry holds.
    pub fn len(&self) -> (len: usize)
        ensures
            len == self@.subscribers.len(),
    {
        self.subscribers.len()
    }

    /// Adds a subscriber with an empty queue at the end of the list and
    /// returns its number, which no subscriber had before. There is none
    /// left only after 2^64 - 1 subscriptions.
    pub fn subscribe(&mut self) -> (id: Option<u64>)
        requires
            old(self).well_formed(),
        ensures
            final(self).well_formed(),
            id is Some <==> old(self).issued() < u64::MAX,
            id is None ==> final(self)@ == old(self)@ && final(self).issued() == old(self).issued(),
            id matches Some(id) ==> {
                &&& id == old(self).issued()
                &&& position(old(self)@.subscribers, id) is None
                &&& final(self).issued() == old(self).issued() + 1
                &&& final(self)@.capacity == old(self)@.capacity
                &&& final(self)@.subscribers == old(self)@.subscribers.push(
                    SubscriberView { id, pending: Seq::empty(), open: true },
                )
            },
    {
        if self.next == u64::MAX {
            return None;
        }
        let id = self.next;
        proof {
            lemma_position(self@.subscribers, id);
            if let Some(place) = position(self@.subscribers, id) {
                assert(self@.subscribers[place].id == self.subscribers@[place].id);
            }
        }
        let subscriber = Subscriber { id, queue: VecDeque::new(), open: true };
        assert(subscriber.content().pending =~= Seq::empty());
        self.subscribers.push(subscriber);
        self.next = id + 1;
        assert(final(self)@.subscribers =~= old(self)@.subscribers.push(
            SubscriberView { id, pending: Seq::empty(), open: true },
        ));
        Some(id)
    }

    /// Publishes `event`: every subscriber that is open and has room gets
    /// it at the end of its queue. A subscriber whose receiver is gone is
    /// taken out of the registry; one whose queue is full stays as it is.
    /// Both are reported, in the order of the subscribers, and neither
    /// keeps the event from the others.
    pub fn publish(&mut self, event: T) -> (failures: Vec<DeliveryFailure>)
        requires
            old(self).well_formed(),
        ensures
            final(self).well_formed(),
            final(self).issued() == old(self).issued(),
            final(self)@.capacity == old(self)@.capacity,
            final(self)@.subscribers == after_publish(
                old(self)@.subscribers,
                event,
                old(self)@.capacity,
            ),
            failures@ == failures_of(old(self)@.subscribers, old(self)@.capacity),
    {
        let shared = Arc::new(event);
        let ghost before = self@.subscribers;
        let ghost capacity = self.capacity as nat;
        let mut failures: Vec<DeliveryFailure> = Vec::new();
        let mut i: usize = 0;
        let ghost mut done: int = 0;
        proof {
            assert(before.take(0) =~= Seq::empty());
            assert(before.skip(0) =~= before);
            assert(self@.subscribers =~= after_publish(before.take(0), event, capacity)
                + before.skip(0));
        }
        while i < self.subscribers.len()
            invariant
                self.well_formed(),
                self.next == old(self).next,
                self.capacity == old(self).capacity,
                capacity == self.capacity,
                *shared == event,
                0 <= done <= before.len(),
                i == after_publish(before.take(done), event, capacity).len(),
                self@.subscribers == after_publish(before.take(done), event, capacity)
                    + before.skip(done),
                failures@ == failures_of(before.take(done), capacity),
            decreases before.len() - done,
        {
            let ghost delivered = after_publish(before.take(done), event, capacity);
            let ghost current = self.subscribers@;
            let ghost views = self@.subscribers;
            proof {
                assert(views.len() == current.len());
                assert(views.len() == delivered.len() + before.skip(done).len());
                assert(before.skip(done).len() == before.len() - done);
                assert(before.skip(done + 1).len() == before.len() - done - 1);
                assert(self@.subscribers[i as int] == before.skip(done)[0]);
                assert(self@.subscribers[i as int] == current[i as int].content());
                assert(before.take(done + 1) =~= before.take(done).push(before[done]));
                lemma_publish_push(before.take(done), before[done], event, capacity);
            }
            let open = self.subscribers[i].open;
            let id = self.subscribers[i].id;
            let room = self.subscribers[i].queue.len() < self.capacity;
            if !open {
                let _ = self.subscribers.remove(i);
                failures.push(DeliveryFailure { subscriber: id, reason: FailureReason::Closed });
                proof {
                    let now = self.subscribers@;
                    let want = delivered + before.skip(done + 1);
                    assert(now == current.remove(i as int));
                    assert(now.len() == want.len());
                    assert forall|j: int| 0 <= j < now.len() implies self@.subscribers[j]
                        == want[j] by {
                        if j < i {
                            assert(now[j] == current[j]);
                            assert(views[j] == current[j].content());
                        } else {
                            assert(now[j] == current[j + 1]);
                            assert(views[j + 1] == current[j + 1].content());
                            assert(views[j + 1] == before.skip(done)[j + 1 - i]);
                        }
                    }
                    assert(self@.subscribers =~= want);
                }
            } else if room {
                let mut subscriber = self.subscribers.remove(i);
                let ghost waiting = subscriber.content().pending;
                subscriber.queue.push_back(share(&shared));
                proof {
                    assert(subscriber.content().pending =~= waiting.push(event));
                }
                self.subscribers.insert(i, subscriber);
                proof {
                    lemma_put_back(current, i as int, subscriber, self.next);
                    let served = SubscriberView {
                        pending: before[done].pending.push(event),
                        ..before[done]
                    };
                    assert(views.update(i as int, served) =~= delivered.push(served)
                        + before.skip(done + 1));
                }
                i += 1;
            } else {
                failures.push(DeliveryFailure { subscriber: id, reason: FailureReason::Full });
                i += 1;
                proof {
                    assert(self@.subscribers =~= delivered.push(before[done]) + before.skip(
                        done + 1,
                    ));
                }
            }
            proof {
                done = done + 1;
            }
        }
        proof {
            assert(before.take(done) =~= before);
        }
        failures
    }

    /// The place of the subscriber `id` in the list.
    fn find(&self, id: u64) -> (place: Option<usize>)
        ensures
            place is Some <==> position(self@.subscribers, id) is Some,
            place matches Some(place) ==> position(self@.subscribers, id) == Some(place as int)
                && place < self.subscribers.len(),
    {
        let ghost all = self@.subscribers;
        let mut i: usize = 0;
        while i < self.subscribers.len()
            invariant
                i <= self.subscribers.len(),
                all == self@.subscribers,
                all.len() == self.subscribers.len(),
                forall|j: int| 0 <= j < i ==> all[j].id != id,
            decreases self.subscribers.len() - i,
        {
            assert(all[i as int] == self.subscribers@[i as int].content());
            if self.subscribers[i].id == id {
                proof {
                    lemma_position(all, id);
                }
                return Some(i);
            }
            i += 1;
        }
        proof {
            lemma_position(all, id);
        }
        None
    }

    /// Takes the oldest event out of the queue of the subscriber `id`.
    /// There is none where the queue is empty, where the subscriber was
    /// closed, and where no subscriber has this number.
    pub fn receive(&mut self, id: u64) -> (event: Option<Arc<T>>)
        requires
            old(self).well_formed(),
        ensures
            final(self).well_formed(),
            final(self).issued() == old(self).issued(),
            final(self)@.capacity == old(self)@.capacity,
            event is Some <==> waiting(old(self)@.subscribers, id) is Some,
            event is None ==> final(self)@ == old(self)@,
            event matches Some(event) ==> {
                let place = waiting(old(self)@.subscribers, id)->0;
                let subscriber = old(self)@.subscribers[place];
                &&& *event == subscriber.pending[0]
                &&& final(self)@.subscribers == old(self)@.subscribers.update(
                    place,
                    SubscriberView { pending: subscriber.pending.skip(1), ..subscriber },
                )
            },
    {
        let place = match self.find(id) {
            Some(place) => place,
            None => return None,
        };
        let ghost before = self@.subscribers;
        let ghost current = self.subscribers@;
        assert(before[place as int] == current[place as int].content());
        if !self.subscribers[place].open || self.subscribers[place].queue.len() == 0 {
            return None;
        }
        let mut subscriber = self.subscribers.remove(place);
        let ghost pending = subscriber.content().pending;
        let event = subscriber.queue.pop_front();
        proof {
            assert(subscriber.content().pending =~= pending.skip(1));
            assert(*event->0 == pending[0]);
        }
        self.subscribers.insert(place, subscriber);
        proof {
            lemma_put_back(current, place as int, subscriber, self.next);
        }
        event
    }

    /// Records that the receiver of the subscriber `id` is gone. The
    /// subscriber stays in the list until the next event is published. A
    /// number that no subscriber has changes nothing.
    pub fn close(&mut self, id: u64)
        requires
            old(self).well_formed(),
        ensures
            final(self).well_formed(),
            final(self).issued() == old(self).issued(),
            final(self)@.capacity == old(self)@.capacity,
            final(self)@.subscribers == match position(old(self)@.subscribers, id) {
                Some(place) => old(self)@.subscribers.update(
                    place,
                    SubscriberView { open: false, ..old(self)@.subscribers[place] },
                ),
                None => old(self)@.subscribers,
            },
    {
        let place = match self.find(id) {
            Some(place) => place,
            None => return ,
        };
        let ghost before = self@.subscribers;
        let ghost current = self.subscribers@;
        assert(before[place as int] == current[place as int].content());
        let mut subscriber = self.subscribers.remove(place);
        subscriber.open = false;
        self.subscribers.insert(place, subscriber);
        proof {
            lemma_put_back(current, place as int, subscriber, self.next);
        }
    }
}

} // verus!
