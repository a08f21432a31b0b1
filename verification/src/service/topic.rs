//! Publish/subscribe: subscribers of a topic receive what is published to it.
//!
//! The broadcaster keeps two tables: the subscription ids of each topic, and
//! the sender through which each subscription is reached. Sending is I/O: the
//! broadcaster decides who is to receive what, and its caller does the sending
//! and reports back the subscriptions whose receiver has gone.
use std::sync::Arc;

use dashmap::{DashMap, DashSet};
use tokio::sync::mpsc::{Receiver, Sender};
use vstd::prelude::*;

use crate::error::{message_of, KvError};
use crate::pb::{values_response, CommandResponse, ResponseView, Scalar, Value};
use crate::text::{decimal, push_decimal};

verus! {

#[verifier::external_type_specification]
#[verifier::external_body]
#[verifier::reject_recursive_types(K)]
#[verifier::reject_recursive_types(V)]
#[verifier::reject_recursive_types(S)]
pub struct ExDashMap<K, V, S>(DashMap<K, V, S>);

#[verifier::external_type_specification]
#[verifier::external_body]
#[verifier::reject_recursive_types(K)]
#[verifier::reject_recursive_types(S)]
pub struct ExDashSet<K, S>(DashSet<K, S>);

#[verifier::external_type_specification]
#[verifier::external_body]
#[verifier::reject_recursive_types(T)]
pub struct ExSender<T>(Sender<T>);

#[verifier::external_type_specification]
#[verifier::external_body]
#[verifier::reject_recursive_types(T)]
pub struct ExReceiver<T>(Receiver<T>);

/// `tokio::sync::mpsc::channel` panics on a zero buffer and on a buffer above
/// its semaphore's limit of `usize::MAX >> 3` (that is, `usize::MAX / 8`)
/// permits; otherwise it returns the two ends of a new channel. Nothing more
/// is stated of them.
pub assume_specification<T>[ tokio::sync::mpsc::channel::<T> ](buffer: usize) -> (Sender<T>, Receiver<T>)
    requires
        buffer > 0,
        buffer <= usize::MAX / 8,
;

/// Cloning a `Sender` gives another handle to the same channel; nothing is
/// stated of it.
pub assume_specification<T>[ <Sender<T> as Clone>::clone ](s: &Sender<T>) -> Sender<T>;

/// The subscription ids of each topic, by topic name.
pub type TopicTable = DashMap<String, DashSet<u32>>;

/// The sender of each subscription, by subscription id.
pub type SubscriptionTable = DashMap<u32, Sender<Arc<CommandResponse>>>;

/// The subscription ids of each topic in a topic table.
pub uninterp spec fn topic_members(m: DashMap<String, DashSet<u32>>) -> Map<Seq<char>, Set<u32>>;

/// The ids that have a sender in a subscription table.
pub uninterp spec fn subscription_ids(m: DashMap<u32, Sender<Arc<CommandResponse>>>) -> Set<u32>;

/// Calls `DashMap::new`: the new topic table is empty.
#[verifier::external_body]
fn new_topic_table() -> (r: TopicTable)
    ensures
        topic_members(r).is_empty(),
{
    DashMap::new()
}

/// Calls `DashMap::new`: the new subscription table is empty.
#[verifier::external_body]
fn new_subscription_table() -> (r: SubscriptionTable)
    ensures
        subscription_ids(r).is_empty(),
{
    DashMap::new()
}

/// The members of `name` in `m`, or no member when `m` lacks the topic.
pub open spec fn members_of(m: Map<Seq<char>, Set<u32>>, name: Seq<char>) -> Set<u32> {
    if m.contains_key(name) {
        m[name]
    } else {
        Set::empty()
    }
}

/// Calls `DashMap::entry`, `Entry::or_default` and `DashSet::insert`: adds
/// `id` to the members of `name`, creating the topic when it is missing.
#[verifier::external_body]
fn add_member(topics: &mut DashMap<String, DashSet<u32>>, name: String, id: u32)
    ensures
        topic_members(*final(topics)) == topic_members(*old(topics)).insert(
            name@,
            members_of(topic_members(*old(topics)), name@).insert(id),
        ),
{
    topics.entry(name).or_default().insert(id);
}

/// Calls `DashMap::get_mut`, then `DashSet::remove` and `DashSet::is_empty`
/// on the topic found: removes `id` from the members of `name` and tells
/// whether none is left; `None` when there is no such topic.
#[verifier::external_body]
fn remove_member(topics: &mut DashMap<String, DashSet<u32>>, name: &String, id: u32) -> (r: Option<
    bool,
>)
    ensures
        topic_members(*old(topics)).contains_key(name@) <==> r is Some,
        r is None ==> topic_members(*final(topics)) == topic_members(*old(topics)),
        r matches Some(empty) ==> {
            &&& topic_members(*final(topics)) == topic_members(*old(topics)).insert(
                name@,
                topic_members(*old(topics))[name@].remove(id),
            )
            &&& empty == (topic_members(*old(topics))[name@].remove(id) == Set::<u32>::empty())
        },
{
    match topics.get_mut(name) {
        Some(v) => {
            v.remove(&id);
            Some(v.is_empty())
        },
        None => None,
    }
}

/// Calls `DashMap::remove`: the topic `name` is gone.
#[verifier::external_body]
fn drop_topic(topics: &mut DashMap<String, DashSet<u32>>, name: &String)
    ensures
        topic_members(*final(topics)) == topic_members(*old(topics)).remove(name@),
{
    topics.remove(name);
}

/// Calls `DashMap::get` and clones the topic's `DashSet` into a vector: the
/// members of `name` (each once, in no stated order), or `None` when there is
/// no such topic.
#[verifier::external_body]
fn members(topics: &DashMap<String, DashSet<u32>>, name: &String) -> (r: Option<Vec<u32>>)
    ensures
        topic_members(*topics).contains_key(name@) <==> r is Some,
        r matches Some(v) ==> v@.to_set() == topic_members(*topics)[name@] && v@.no_duplicates(),
{
    match topics.get(name) {
        Some(topic) => Some(topic.value().clone().into_iter().collect()),
        None => None,
    }
}

/// Calls `DashMap::insert`: `id` now has a sender.
#[verifier::external_body]
fn insert_subscription(
    subscriptions: &mut DashMap<u32, Sender<Arc<CommandResponse>>>,
    id: u32,
    tx: Sender<Arc<CommandResponse>>,
)
    ensures
        subscription_ids(*final(subscriptions)) == subscription_ids(*old(subscriptions)).insert(id),
{
    subscriptions.insert(id, tx);
}

/// Calls `DashMap::remove`: `id` no longer has a sender; gives back `id` when
/// it had one.
#[verifier::external_body]
fn take_subscription(subscriptions: &mut DashMap<u32, Sender<Arc<CommandResponse>>>, id: u32) -> (r:
    Option<u32>)
    ensures
        subscription_ids(*final(subscriptions)) == subscription_ids(*old(subscriptions)).remove(id),
        r == (if subscription_ids(*old(subscriptions)).contains(id) {
            Some(id)
        } else {
            None
        }),
{
    subscriptions.remove(&id).map(|(id, _)| id)
}

/// Calls `DashMap::get` and clones the sender found: a handle to the channel
/// of `id`, or `None` when `id` has no sender.
#[verifier::external_body]
fn sender_of(subscriptions: &DashMap<u32, Sender<Arc<CommandResponse>>>, id: u32) -> (r: Option<
    Sender<Arc<CommandResponse>>,
>)
    ensures
        r is Some <==> subscription_ids(*subscriptions).contains(id),
{
    match subscriptions.get(&id) {
        Some(tx) => Some(tx.value().clone()),
        None => None,
    }
}

/// How many messages a subscriber's channel holds before sending waits.
pub const BROADCAST_CAPACITY: usize = 128;

/// The model of a broadcaster.
pub struct BroadcasterView {
    /// The subscription ids of each topic.
    pub topics: Map<Seq<char>, Set<u32>>,
    /// The ids that can still be reached.
    pub subscriptions: Set<u32>,
}

/// A message to be sent to one subscription.
pub struct Delivery {
    /// The subscription it is for.
    pub id: u32,
    /// Where to send it.
    pub sender: Sender<Arc<CommandResponse>>,
}

/// What subscribing hands back: the subscriber's receiving end, and the first
/// message (the subscription's id) still to be sent to it.
pub struct Subscription {
    pub receiver: Receiver<Arc<CommandResponse>>,
    pub greeting: Delivery,
    pub message: CommandResponse,
}

/// The topics and their subscribers.
pub struct Broadcaster {
    topics: DashMap<String, DashSet<u32>>,
    subscriptions: DashMap<u32, Sender<Arc<CommandResponse>>>,
}

impl Default for Broadcaster {
    fn default() -> (r: Self)
        ensures
            r.well_formed(),
            r.view().topics == Map::<Seq<char>, Set<u32>>::empty(),
            r.view().subscriptions == Set::<u32>::empty(),
    {
        Broadcaster::new()
    }
}

/// The id handed out by the `k`-th draw (counting from 0) of a fresh
/// `SubscriptionIds`: ids start at 1 and wrap around after `u32::MAX`.
pub open spec fn nth_id(k: nat) -> u32 {
    ((k + 1) % 0x1_0000_0000) as u32
}

/// The source of subscription ids. A program keeps one for all its
/// broadcasters, so that every subscription of the process gets its own id.
pub struct SubscriptionIds {
    next: u32,
    drawn: Ghost<nat>,
}

impl SubscriptionIds {
    /// How many ids have been drawn.
    pub closed spec fn drawn(&self) -> nat {
        self.drawn@
    }

    /// The counter's invariant: the next id is the one for the next draw.
    pub closed spec fn well_formed(&self) -> bool {
        self.next == nth_id(self.drawn@)
    }

    /// A source whose first id is 1.
    pub fn new() -> (r: Self)
        ensures
            r.well_formed(),
            r.drawn() == 0,
    {
        SubscriptionIds { next: 1, drawn: Ghost(0) }
    }

    /// Hands out the next subscription id.
    pub fn get_next_subscription_id(&mut self) -> (id: u32)
        requires
            old(self).well_formed(),
        ensures
            final(self).well_formed(),
            id == nth_id(old(self).drawn()),
            final(self).drawn() == old(self).drawn() + 1,
    {
        let id = self.next;
        self.next = self.next.wrapping_add(1);
        self.drawn = Ghost(self.drawn@ + 1);
        proof {
            let k = old(self).drawn@;
            assert(((k + 1) % 0x1_0000_0000 + 1) % 0x1_0000_0000 == (k + 2) % 0x1_0000_0000) by (nonlinear_arith);
        }
        id
    }
}

/// The first 2^32 draws from a fresh source are pairwise distinct; the draws
/// before the `u32::MAX`-th are exactly 1, 2, 3, ... in order.
pub proof fn law_ids_distinct(i: nat, j: nat)
    requires
        i < 0x1_0000_0000,
        j < 0x1_0000_0000,
        i != j,
    ensures
        nth_id(i) != nth_id(j),
        i < 0xffff_ffff ==> nth_id(i) == i + 1,
{
}

/// The model of subscribing to `name` under the id `id`.
pub open spec fn subscribe_step(b: BroadcasterView, name: Seq<char>, id: u32) -> BroadcasterView {
    BroadcasterView {
        topics: b.topics.insert(name, members_of(b.topics, name).insert(id)),
        subscriptions: b.subscriptions.insert(id),
    }
}

/// The topic table after `id` leaves `name`: a topic left without members
/// is dropped.
pub open spec fn leave_topic(topics: Map<Seq<char>, Set<u32>>, name: Seq<char>, id: u32) -> Map<
    Seq<char>,
    Set<u32>,
> {
    if !topics.contains_key(name) {
        topics
    } else if topics[name].remove(id) == Set::<u32>::empty() {
        topics.remove(name)
    } else {
        topics.insert(name, topics[name].remove(id))
    }
}

/// The model of removing subscription `id` from `name`.
pub open spec fn remove_step(b: BroadcasterView, name: Seq<char>, id: u32) -> BroadcasterView {
    BroadcasterView {
        topics: leave_topic(b.topics, name, id),
        subscriptions: b.subscriptions.remove(id),
    }
}

/// The model of removing the subscriptions `ids` from `name`, in order.
pub open spec fn remove_all(b: BroadcasterView, name: Seq<char>, ids: Seq<u32>) -> BroadcasterView
    decreases ids.len(),
{
    if ids.len() == 0 {
        b
    } else {
        remove_step(remove_all(b, name, ids.drop_last()), name, ids.last())
    }
}

/// The subscriptions that a publication to `name` reaches.
pub open spec fn audience(b: BroadcasterView, name: Seq<char>) -> Set<u32> {
    members_of(b.topics, name).intersect(b.subscriptions)
}

/// The model of the first message a subscription receives: its id.
pub open spec fn greeting_response(id: u32) -> ResponseView {
    values_response(seq![Some(Scalar::Int(id as i64))])
}

/// The error with which unsubscribing an unknown subscription is answered.
pub open spec fn unknown_subscription_message(id: u32) -> Seq<char> {
    "Not found: "@ + "subscription "@ + decimal(id as nat)
}

impl Broadcaster {
    /// The model of this broadcaster.
    pub closed spec fn view(&self) -> BroadcasterView {
        BroadcasterView {
            topics: topic_members(self.topics),
            subscriptions: subscription_ids(self.subscriptions),
        }
    }

    /// No topic is left without members.
    pub open spec fn well_formed(&self) -> bool {
        forall|name: Seq<char>| #[trigger]
            self.view().topics.contains_key(name) ==> self.view().topics[name] != Set::<u32>::empty()
    }

    /// A broadcaster without topics.
    pub fn new() -> (r: Self)
        ensures
            r.well_formed(),
            r.view().topics == Map::<Seq<char>, Set<u32>>::empty(),
            r.view().subscriptions == Set::<u32>::empty(),
    {
        Broadcaster { topics: new_topic_table(), subscriptions: new_subscription_table() }
    }

    /// Subscribes to `name` under `id` (drawn by the caller from the one
    /// process-wide `SubscriptionIds`): the new subscription joins the topic
    /// (created if need be) and gets a channel; its first message, still to be
    /// sent, is its id.
    pub fn subscribe_with_id(&mut self, name: String, id: u32) -> (r: Subscription)
        requires
            old(self).well_formed(),
        ensures
            final(self).well_formed(),
            final(self).view() == subscribe_step(old(self).view(), name@, id),
            r.greeting.id == id,
            r.message@ == greeting_response(id),
    {
        let ghost before = self.view();
        add_member(&mut self.topics, name, id);
        let (tx, rx) = tokio::sync::mpsc::channel(BROADCAST_CAPACITY);
        let v: Value = Value::integer(id as i64);
        let message = CommandResponse::from_value(v);
        let tx1 = tx.clone();
        insert_subscription(&mut self.subscriptions, id, tx);
        proof {
            assert(self.view() == subscribe_step(before, name@, id));
            assert(members_of(before.topics, name@).insert(id).contains(id));
        }
        Subscription { receiver: rx, greeting: Delivery { id, sender: tx1 }, message }
    }

    /// Removes subscription `id` from `name` (dropping the topic if it is left
    /// without members) and from the senders; gives back `id` when it had a
    /// sender.
    pub fn remove_subscription(&mut self, name: String, id: u32) -> (r: Option<u32>)
        requires
            old(self).well_formed(),
        ensures
            final(self).well_formed(),
            final(self).view() == remove_step(old(self).view(), name@, id),
            r == (if old(self).view().subscriptions.contains(id) {
                Some(id)
            } else {
                None
            }),
    {
        let ghost before = self.view();
        match remove_member(&mut self.topics, &name, id) {
            Some(empty) => {
                if empty {
                    drop_topic(&mut self.topics, &name);
                }
            },
            None => {},
        }
        let r = take_subscription(&mut self.subscriptions, id);
        proof {
            assert(self.view().topics == leave_topic(before.topics, name@, id));
            assert forall|n: Seq<char>| #[trigger]
                self.view().topics.contains_key(n) implies self.view().topics[n] != Set::<u32>::empty() by {
                assert(before.topics.contains_key(n));
            }
        }
        r
    }

    /// Removes from `name` every subscription in `gone` (those whose receiver
    /// has gone), one after another.
    pub fn drop_unreachable(&mut self, name: &String, gone: Vec<u32>)
        requires
            old(self).well_formed(),
        ensures
            final(self).well_formed(),
            final(self).view() == remove_all(old(self).view(), name@, gone@),
            forall|id: u32| #[trigger] gone@.contains(id) ==> !final(self).view().subscriptions.contains(id),
            forall|id: u32| !gone@.contains(id) ==> (#[trigger] final(self).view().subscriptions.contains(id)
                <==> old(self).view().subscriptions.contains(id)),
    {
        let mut i: usize = 0;
        while i < gone.len()
            invariant
                self.well_formed(),
                i <= gone@.len(),
                self.view() == remove_all(old(self).view(), name@, gone@.take(i as int)),
            decreases gone@.len() - i,
        {
            self.remove_subscription(name.clone(), gone[i]);
            proof {
                assert(gone@.take(i + 1 as int).drop_last() =~= gone@.take(i as int));
            }
            i = i + 1;
        }
        proof {
            assert(gone@.take(gone@.len() as int) =~= gone@);
            law_dropped_are_gone(old(self).view(), name@, gone@, name@);
        }
    }

    /// Unsubscribes `id` from `name`: `Ok(id)` when `id` was subscribed, and a
    /// not-found error naming the subscription otherwise.
    pub fn unsubscribe(&mut self, name: String, id: u32) -> (r: Result<u32, KvError>)
        requires
            old(self).well_formed(),
        ensures
            final(self).well_formed(),
            final(self).view() == remove_step(old(self).view(), name@, id),
            old(self).view().subscriptions.contains(id) ==> r == Ok::<u32, KvError>(id),
            !old(self).view().subscriptions.contains(id) ==> (r matches Err(e) && e is NotFound
                && message_of(e) == unknown_subscription_message(id)),
    {
        match self.remove_subscription(name, id) {
            Some(id) => Ok(id),
            None => {
                let mut text = String::from_str("subscription ");
                push_decimal(&mut text, id);
                let e = KvError::NotFound(text);
                assert(message_of(e) =~= unknown_subscription_message(id));
                Err(e)
            },
        }
    }

    /// Whom a publication to `name` is to reach: one delivery for each
    /// subscription of the topic that still has a sender.
    pub fn publish(&self, name: &String) -> (r: Vec<Delivery>)
        ensures
            r@.map_values(|d: Delivery| d.id).to_set() == audience(self.view(), name@),
            r@.map_values(|d: Delivery| d.id).no_duplicates(),
    {
        let mut out: Vec<Delivery> = Vec::new();
        match members(&self.topics, name) {
            Some(ids) => {
                let ghost topic = topic_members(self.topics)[name@];
                let mut i: usize = 0;
                while i < ids.len()
                    invariant
                        i <= ids@.len(),
                        ids@.to_set() == topic,
                        ids@.no_duplicates(),
                        topic == members_of(self.view().topics, name@),
                        forall|a: int|
                            0 <= a < out@.len() ==> exists|b: int|
                                0 <= b < i && #[trigger] out@[a].id == ids@[b]
                                    && self.view().subscriptions.contains(ids@[b]),
                        forall|b: int|
                            0 <= b < i && self.view().subscriptions.contains(#[trigger] ids@[b])
                                ==> exists|a: int| 0 <= a < out@.len() && #[trigger] out@[a].id
                                == ids@[b],
                        forall|a1: int, a2: int|
                            0 <= a1 < out@.len() && 0 <= a2 < out@.len() && a1 != a2 ==> (#[trigger] out@[a1]).id
                                != (#[trigger] out@[a2]).id,
                    decreases ids@.len() - i,
                {
                    let id = ids[i];
                    match sender_of(&self.subscriptions, id) {
                        Some(sender) => {
                            proof {
                                assert forall|a: int| 0 <= a < out@.len() implies (#[trigger] out@[a]).id != id by {
                                    let b = choose|b: int|
                                        0 <= b < i && #[trigger] out@[a].id == ids@[b]
                                            && self.view().subscriptions.contains(ids@[b]);
                                    assert(ids@[b] != ids@[i as int]);
                                }
                            }
                            let ghost before = out@;
                            out.push(Delivery { id, sender });
                            proof {
                                assert forall|a: int| 0 <= a < before.len() implies out@[a] == #[trigger] before[a] by {}
                                assert(out@[before.len() as int].id == ids@[i as int]);
                                assert forall|b: int|
                                    0 <= b <= i && self.view().subscriptions.contains(#[trigger] ids@[b])
                                    implies exists|a: int| 0 <= a < out@.len() && #[trigger] out@[a].id == ids@[b] by {
                                    if b < i {
                                        let a = choose|a: int| 0 <= a < before.len() && #[trigger] before[a].id == ids@[b];
                                        assert(out@[a] == before[a]);
                                    } else {
                                        assert(out@[before.len() as int].id == ids@[b]);
                                    }
                                }
                            }
                        },
                        None => {},
                    }
                    i = i + 1;
                }
                proof {
                    let got = out@.map_values(|d: Delivery| d.id);
                    let want = audience(self.view(), name@);
                    assert forall|x: u32| got.to_set().contains(x) <==> want.contains(x) by {
                        if got.to_set().contains(x) {
                            let a = choose|a: int| 0 <= a < got.len() && got[a] == x;
                            assert(got[a] == out@[a].id);
                            let b = choose|b: int|
                                0 <= b < ids@.len() && #[trigger] out@[a].id == ids@[b]
                                    && self.view().subscriptions.contains(ids@[b]);
                            assert(ids@.to_set().contains(ids@[b]));
                        }
                        if want.contains(x) {
                            assert(ids@.to_set().contains(x));
                            let b = choose|b: int| 0 <= b < ids@.len() && ids@[b] == x;
                            let a = choose|a: int| 0 <= a < out@.len() && #[trigger] out@[a].id == ids@[b];
                            assert(got[a] == x);
                        }
                    }
                    assert(got.to_set() =~= want);
                    assert forall|a1: int, a2: int| 0 <= a1 < got.len() && 0 <= a2 < got.len() && a1 != a2 implies got[a1] != got[a2] by {
                        assert(got[a1] == out@[a1].id);
                        assert(got[a2] == out@[a2].id);
                    }
                }
            },
            None => {
                proof {
                    assert(out@.map_values(|d: Delivery| d.id).to_set() =~= audience(self.view(), name@));
                }
            },
        }
        out
    }
}

/// A new subscription is reached by the next publication to its topic.
pub proof fn law_subscriber_is_reached(b: BroadcasterView, name: Seq<char>, id: u32)
    ensures
        audience(subscribe_step(b, name, id), name).contains(id),
{
}

/// Subscribing under an id that no subscription has adds exactly that one
/// subscription and leaves every other topic as it was.
pub proof fn law_subscribe_adds_one(b: BroadcasterView, name: Seq<char>, id: u32, other: Seq<char>)
    requires
        !b.subscriptions.contains(id),
    ensures
        subscribe_step(b, name, id).subscriptions.remove(id) == b.subscriptions,
        other != name ==> members_of(subscribe_step(b, name, id).topics, other) == members_of(b.topics, other),
{
    assert(subscribe_step(b, name, id).subscriptions.remove(id) =~= b.subscriptions);
}

/// Once a subscription is removed, no publication reaches it, whatever the
/// topic; every other subscription is reached as before.
pub proof fn law_removed_is_not_reached(b: BroadcasterView, name: Seq<char>, id: u32, other: Seq<char>)
    ensures
        !audience(remove_step(b, name, id), other).contains(id),
        audience(remove_step(b, name, id), other) == audience(b, other).remove(id),
{
    let after = remove_step(b, name, id);
    assert(audience(after, other) =~= audience(b, other).remove(id)) by {
        assert forall|x: u32| audience(after, other).contains(x) <==> audience(b, other).remove(id).contains(x) by {
            if other == name && b.topics.contains_key(name) {
                if b.topics[name].remove(id) == Set::<u32>::empty() {
                    assert(!b.topics[name].remove(id).contains(x));
                }
            }
        }
    }
}

/// Removing a subscription twice: the second time it is no longer there.
pub proof fn law_second_removal_finds_nothing(b: BroadcasterView, name: Seq<char>, id: u32)
    ensures
        !remove_step(b, name, id).subscriptions.contains(id),
        remove_step(remove_step(b, name, id), name, id).subscriptions == remove_step(b, name, id).subscriptions,
{
    assert(remove_step(remove_step(b, name, id), name, id).subscriptions =~= remove_step(b, name, id).subscriptions);
}

/// Removing the subscriptions `ids` from a topic removes each of them
/// entirely: none of them is left among the subscriptions or reached by any
/// publication, and every other subscription is kept and reached as before.
pub proof fn law_dropped_are_gone(b: BroadcasterView, name: Seq<char>, ids: Seq<u32>, other: Seq<char>)
    ensures
        forall|id: u32| #[trigger] ids.contains(id) ==> !remove_all(b, name, ids).subscriptions.contains(id),
        forall|id: u32| !ids.contains(id) ==> (#[trigger] remove_all(b, name, ids).subscriptions.contains(id)
            <==> b.subscriptions.contains(id)),
        forall|id: u32| #[trigger] audience(remove_all(b, name, ids), other).contains(id)
            <==> (audience(b, other).contains(id) && !ids.contains(id)),
    decreases ids.len(),
{
    if ids.len() > 0 {
        let front = ids.drop_last();
        let last = ids.last();
        law_dropped_are_gone(b, name, front, other);
        let prev = remove_all(b, name, front);
        law_removed_is_not_reached(prev, name, last, other);
        assert forall|id: u32| #[trigger] ids.contains(id) <==> (front.contains(id) || id == last) by {
            if ids.contains(id) {
                let j = choose|j: int| 0 <= j < ids.len() && ids[j] == id;
                if j < ids.len() - 1 {
                    assert(front[j] == id);
                }
            }
            if front.contains(id) {
                let j = choose|j: int| 0 <= j < front.len() && front[j] == id;
                assert(ids[j] == id);
            }
            if id == last {
                assert(ids[ids.len() - 1] == id);
            }
        }
    }
}

} // verus!
