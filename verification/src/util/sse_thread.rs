//! Server-sent events for threads: every subscriber of a thread gets the
//! thread's state once and then each new post as it is published.

use crate::util::guarantees::lemma_sweep;
use crate::util::mailbox::{Attempt, Client, Delivery, Mailbox, Subscriber};
use std::collections::HashMap;
use vstd::prelude::*;
use vstd::utf8::encode_utf8;

verus! {

broadcast use vstd::std_specs::hash::group_hash_axioms;

/// The number of frames that the mailbox of a subscriber has room for.
pub const MAILBOX_CAPACITY: usize = 100;

/// The number of seconds from one sweep of the registry to the next.
pub const SWEEP_INTERVAL: u64 = 60;

/// The frame that carries the state of a thread, `null` when there is none.
pub open spec fn thread_frame(json: Option<Seq<char>>) -> Seq<u8> {
    match json {
        Some(json) => encode_utf8("event: thread\ndata: "@ + json + "\n\n"@),
        None => encode_utf8("event: thread\ndata: "@ + "null"@ + "\n\n"@),
    }
}

/// The frame that carries a new post.
pub open spec fn post_frame(json: Seq<char>) -> Seq<u8> {
    encode_utf8("event: post\ndata: "@ + json + "\n\n"@)
}

/// The keep-alive frame; it has no data line.
pub open spec fn ping_frame() -> Seq<u8> {
    encode_utf8("event: ping\n\n"@)
}

/// One message for the subscribers of a thread. The payloads are JSON text,
/// already encoded by the caller.
#[derive(Clone, Copy)]
pub enum Event<'a> {
    /// The state of a thread at the moment of subscription, `None` when the
    /// thread does not exist.
    Thread(Option<&'a str>),
    /// A post that was added to the thread.
    Post(&'a str),
    /// A keep-alive that also probes whether the subscriber still listens.
    Ping,
}

impl<'a> Event<'a> {
    /// The frame of the event as it goes over the wire: an `event:` line, a
    /// `data:` line unless the event is a ping, and an empty line, in UTF-8.
    pub open spec fn frame(self) -> Seq<u8> {
        match self {
            Event::Thread(Some(json)) => thread_frame(Some(json@)),
            Event::Thread(None) => thread_frame(None),
            Event::Post(json) => post_frame(json@),
            Event::Ping => ping_frame(),
        }
    }

    /// Encodes the event as a wire-ready frame.
    pub fn to_message(self) -> (frame: Vec<u8>)
        ensures
            frame@ == self.frame(),
    {
        let message = match self {
            Event::Thread(thread) => {
                let json = match thread {
                    Some(json) => json,
                    None => "null",
                };
                String::from_str("event: thread\ndata: ").concat(json).concat("\n\n")
            },
            Event::Post(json) => String::from_str("event: post\ndata: ").concat(json).concat(
                "\n\n",
            ),
            Event::Ping => String::from_str("event: ping\n\n"),
        };
        message.as_str().as_bytes_vec()
    }
}

/// The state of a thread as a new subscriber gets it: the thread's
/// identifier, which is the topic, and the thread with its posts as JSON
/// text.
pub struct Snapshot {
    pub id: i32,
    pub json: String,
}

/// The topic that a subscriber of `thread` is registered under; none when
/// the thread does not exist.
pub open spec fn topic_of(thread: Option<Snapshot>) -> Option<i32> {
    match thread {
        Some(thread) => Some(thread.id),
        None => None,
    }
}

/// The first frame of a subscriber of `thread`.
pub open spec fn snapshot_frame(thread: Option<Snapshot>) -> Seq<u8> {
    match thread {
        Some(thread) => thread_frame(Some(thread.json@)),
        None => thread_frame(None),
    }
}

/// Whether `mailbox` is one to which the snapshot of `thread` was offered
/// and accepted, and nothing else.
pub open spec fn holds_snapshot(mailbox: Mailbox, thread: Option<Snapshot>) -> bool {
    mailbox.attempts == seq![
        Attempt { frame: snapshot_frame(thread), outcome: Delivery::Accepted },
    ]
}

/// The mailboxes that stand for a list of subscribers.
spec fn mailboxes(subscribers: Seq<Subscriber>) -> Seq<Mailbox> {
    subscribers.map_values(|s: Subscriber| s@)
}

/// The mailboxes after `frame` was offered to each of them, the i-th offer
/// ending with the i-th outcome.
pub open spec fn offered_all(list: Seq<Mailbox>, frame: Seq<u8>, outcomes: Seq<Delivery>) -> Seq<
    Mailbox,
>
    recommends
        outcomes.len() == list.len(),
{
    Seq::new(list.len(), |i: int| list[i].offered(frame, outcomes[i]))
}

/// The mailboxes whose latest offer was accepted, in their order.
pub open spec fn survivors(list: Seq<Mailbox>) -> Seq<Mailbox>
    decreases list.len(),
{
    if list.len() == 0 {
        Seq::empty()
    } else if list.last().answered() {
        survivors(list.drop_last()).push(list.last())
    } else {
        survivors(list.drop_last())
    }
}

/// Whether no topic of the registry is left without a subscriber.
pub open spec fn populated(registry: Map<i32, Seq<Mailbox>>) -> bool {
    forall|topic: i32| #[trigger] registry.contains_key(topic) ==> registry[topic].len() > 0
}

/// The number of subscribers that `topic` has in the registry.
pub open spec fn audience(registry: Map<i32, Seq<Mailbox>>, topic: i32) -> nat {
    if registry.contains_key(topic) {
        registry[topic].len()
    } else {
        0
    }
}

/// The registry after a subscriber with the given mailbox asked for `topic`:
/// the mailbox is the last of the topic's list, or belongs to no list when
/// there is no topic.
pub open spec fn subscribed(
    registry: Map<i32, Seq<Mailbox>>,
    topic: Option<i32>,
    mailbox: Mailbox,
) -> Map<i32, Seq<Mailbox>> {
    match topic {
        Some(topic) => if registry.contains_key(topic) {
            registry.insert(topic, registry[topic].push(mailbox))
        } else {
            registry.insert(topic, seq![mailbox])
        },
        None => registry,
    }
}

/// The registry after `frame` was published to `topic`, the offer to the
/// topic's i-th subscriber ending with the i-th outcome. No list changes its
/// length or its order, and no other topic is touched.
pub open spec fn published(
    registry: Map<i32, Seq<Mailbox>>,
    topic: i32,
    frame: Seq<u8>,
    outcomes: Seq<Delivery>,
) -> Map<i32, Seq<Mailbox>> {
    if registry.contains_key(topic) {
        registry.insert(topic, offered_all(registry[topic], frame, outcomes))
    } else {
        registry
    }
}

/// The list of `topic` after a sweep in which the ping to its i-th
/// subscriber ended with the i-th outcome of `outcomes[topic]`.
pub open spec fn swept(
    registry: Map<i32, Seq<Mailbox>>,
    outcomes: Map<i32, Seq<Delivery>>,
    topic: i32,
) -> Seq<Mailbox> {
    survivors(offered_all(registry[topic], ping_frame(), outcomes[topic]))
}

/// The registry after a sweep: every subscriber got a ping, those whose
/// ping was not accepted are gone, and so are the topics that lost all
/// their subscribers.
pub open spec fn reaped(
    registry: Map<i32, Seq<Mailbox>>,
    outcomes: Map<i32, Seq<Delivery>>,
) -> Map<i32, Seq<Mailbox>> {
    Map::new(
        |topic: i32| registry.contains_key(topic) && swept(registry, outcomes, topic).len() > 0,
        |topic: i32| swept(registry, outcomes, topic),
    )
}

/// Whether `outcomes` holds one outcome for every subscriber of the registry.
pub open spec fn one_for_each(
    registry: Map<i32, Seq<Mailbox>>,
    outcomes: Map<i32, Seq<Delivery>>,
) -> bool {
    forall|topic: i32| #[trigger]
        registry.contains_key(topic) ==> outcomes.contains_key(topic) && outcomes[topic].len()
            == registry[topic].len()
}

/// Whether `after` is `before` with `frame` published to `topic`, however
/// the single offers ended.
pub open spec fn is_publication(
    before: Map<i32, Seq<Mailbox>>,
    after: Map<i32, Seq<Mailbox>>,
    topic: i32,
    frame: Seq<u8>,
) -> bool {
    exists|outcomes: Seq<Delivery>|
        outcomes.len() == audience(before, topic) && after == #[trigger] published(
            before,
            topic,
            frame,
            outcomes,
        )
}

/// Whether `after` is `before` after a sweep, however the single pings
/// ended.
pub open spec fn is_sweep(before: Map<i32, Seq<Mailbox>>, after: Map<i32, Seq<Mailbox>>) -> bool {
    exists|outcomes: Map<i32, Seq<Delivery>>|
        one_for_each(before, outcomes) && after == #[trigger] reaped(before, outcomes)
}

/// The topics and their subscribers. A topic is in the registry exactly as
/// long as it has a subscriber. Whatever changes the registry or offers a
/// frame takes the registry for itself alone, so that of two calls one is
/// over before the other begins.
pub struct Broadcaster(HashMap<i32, Vec<Subscriber>>);

/// The mailboxes of each topic of `map`.
spec fn registry_of(map: Map<i32, Vec<Subscriber>>) -> Map<i32, Seq<Mailbox>> {
    Map::new(|topic: i32| map.contains_key(topic), |topic: i32| mailboxes(map[topic]@))
}

impl View for Broadcaster {
    type V = Map<i32, Seq<Mailbox>>;

    closed spec fn view(&self) -> Map<i32, Seq<Mailbox>> {
        registry_of(self.0@)
    }
}

/// Offers the frame of `event` to each subscriber of the list, first to
/// last.
fn fan_out(subscribers: &mut Vec<Subscriber>, event: Event) -> (outcomes: Ghost<Seq<Delivery>>)
    ensures
        outcomes@.len() == old(subscribers)@.len(),
        mailboxes(final(subscribers)@) == offered_all(
            mailboxes(old(subscribers)@),
            event.frame(),
            outcomes@,
        ),
{
    let ghost mut outcomes: Seq<Delivery> = Seq::empty();
    let mut i: usize = 0;
    while i < subscribers.len()
        invariant
            i <= subscribers.len(),
            subscribers.len() == old(subscribers).len(),
            outcomes.len() == i,
            forall|j: int|
                0 <= j < i ==> (#[trigger] subscribers@[j])@ == old(subscribers)@[j]@.offered(
                    event.frame(),
                    outcomes[j],
                ),
            forall|j: int|
                i <= j < subscribers.len() ==> #[trigger] subscribers@[j] == old(subscribers)@[j],
        decreases subscribers.len() - i,
    {
        let outcome = subscribers[i].offer(event.to_message());
        proof {
            outcomes = outcomes.push(outcome);
        }
        i += 1;
    }
    Ghost(outcomes)
}

/// Offers a ping to each subscriber of the list, first to last, and keeps
/// those that took it.
fn probe(subscribers: Vec<Subscriber>) -> (r: (Vec<Subscriber>, Ghost<Seq<Delivery>>))
    ensures
        r.1@.len() == subscribers@.len(),
        mailboxes(r.0@) == survivors(offered_all(mailboxes(subscribers@), ping_frame(), r.1@)),
{
    let ghost mut outcomes: Seq<Delivery> = Seq::empty();
    let mut live: Vec<Subscriber> = Vec::new();
    for subscriber in it: subscribers.into_iter()
        invariant
            outcomes.len() == it.index(),
            it.seq() == subscribers@,
            mailboxes(live@) == survivors(
                offered_all(
                    mailboxes(subscribers@.take(it.index() as int)),
                    ping_frame(),
                    outcomes,
                ),
            ),
    {
        let ghost before = offered_all(
            mailboxes(subscribers@.take(it.index() as int)),
            ping_frame(),
            outcomes,
        );
        let mut subscriber = subscriber;
        let outcome = subscriber.offer(Event::Ping.to_message());
        proof {
            outcomes = outcomes.push(outcome);
            let after = offered_all(
                mailboxes(subscribers@.take(it.index() + 1)),
                ping_frame(),
                outcomes,
            );
            assert(after.drop_last() =~= before);
        }
        if outcome.is_accepted() {
            live.push(subscriber);
        }
    }
    assert(subscribers@.take(subscribers@.len() as int) =~= subscribers@);
    (live, Ghost(outcomes))
}

/// The part of a sweep that is done: the topics that `outcomes` holds, swept.
spec fn reaped_so_far(
    registry: Map<i32, Seq<Mailbox>>,
    outcomes: Map<i32, Seq<Delivery>>,
) -> Map<i32, Seq<Mailbox>> {
    Map::new(
        |topic: i32| outcomes.contains_key(topic) && swept(registry, outcomes, topic).len() > 0,
        |topic: i32| swept(registry, outcomes, topic),
    )
}

/// In a list without repetitions, the entry at `i` parts those before it from
/// those after it.
proof fn lemma_visit(list: Seq<i32>, i: int)
    requires
        0 <= i < list.len(),
        list.no_duplicates(),
    ensures
        !list.take(i).contains(list[i]),
        !list.skip(i + 1).contains(list[i]),
        forall|topic: i32|
            list.take(i + 1).contains(topic) <==> topic == list[i] || list.take(i).contains(topic),
        forall|topic: i32|
            list.skip(i).contains(topic) <==> topic == list[i] || list.skip(i + 1).contains(topic),
{
    let upto = list.take(i);
    let through = list.take(i + 1);
    let from = list.skip(i);
    let after = list.skip(i + 1);
    assert forall|topic: i32| through.contains(topic) implies topic == list[i] || upto.contains(
        topic,
    ) by {
        let j = choose|j: int| 0 <= j < through.len() && through[j] == topic;
        if j < i {
            assert(upto[j] == topic);
        }
    }
    assert forall|topic: i32| topic == list[i] || upto.contains(topic) implies through.contains(
        topic,
    ) by {
        if topic == list[i] {
            assert(through[i] == topic);
        } else {
            let j = choose|j: int| 0 <= j < upto.len() && upto[j] == topic;
            assert(through[j] == topic);
        }
    }
    assert forall|topic: i32| from.contains(topic) implies topic == list[i] || after.contains(
        topic,
    ) by {
        let j = choose|j: int| 0 <= j < from.len() && from[j] == topic;
        if j > 0 {
            assert(after[j - 1] == topic);
        }
    }
    assert forall|topic: i32| topic == list[i] || after.contains(topic) implies from.contains(
        topic,
    ) by {
        if topic == list[i] {
            assert(from[0] == topic);
        } else {
            let j = choose|j: int| 0 <= j < after.len() && after[j] == topic;
            assert(from[j + 1] == topic);
        }
    }
    if upto.contains(list[i]) {
        let j = choose|j: int| 0 <= j < upto.len() && upto[j] == list[i];
        assert(list[j] == list[i]);
    }
    if after.contains(list[i]) {
        let j = choose|j: int| 0 <= j < after.len() && after[j] == list[i];
        assert(list[i + 1 + j] == list[i]);
    }
}

/// The topics of `map`, each once.
fn topics_of(map: &HashMap<i32, Vec<Subscriber>>) -> (topics: Vec<i32>)
    ensures
        topics@.no_duplicates(),
        forall|topic: i32| map@.contains_key(topic) <==> topics@.contains(topic),
{
    let mut topics: Vec<i32> = Vec::new();
    for topic in it: map.keys()
        invariant
            it.seq().no_duplicates(),
            it.seq().unref().to_set() == map@.dom(),
            topics@ == it.seq().unref().take(it.index()),
            it.index() == it.seq().len() ==> (forall|topic: i32|
                map@.contains_key(topic) <==> topics@.contains(topic)),
            topics@.no_duplicates(),
    {
        topics.push(*topic);
        assert(it.index() + 1 == it.seq().len() ==> topics@ =~= it.seq().unref());
    }
    topics
}

impl Broadcaster {
    #[verifier::type_invariant]
    spec fn no_topic_is_empty(self) -> bool {
        populated(self@)
    }

    /// An empty registry.
    pub fn create() -> (broadcaster: Self)
        ensures
            broadcaster@ == Map::<i32, Seq<Mailbox>>::empty(),
    {
        let broadcaster = Broadcaster(HashMap::new());
        broadcaster
    }

    /// Delivers one event to every subscriber of the thread. A subscriber
    /// that does not take the frame misses it and stays registered.
    pub fn send(&mut self, thread_id: i32, event: Event)
        ensures
            is_publication(old(self)@, final(self)@, thread_id, event.frame()),
            final(self)@.dom() == old(self)@.dom(),
            forall|topic: i32| audience(final(self)@, topic) == audience(old(self)@, topic),
            populated(final(self)@),
    {
        proof {
            use_type_invariant(&*self);
        }
        let mut map = HashMap::new();
        std::mem::swap(&mut map, &mut self.0);
        let ghost before = registry_of(map@);
        let ghost mut outcomes: Seq<Delivery> = Seq::empty();
        match map.remove(&thread_id) {
            Some(subscribers) => {
                let mut subscribers = subscribers;
                let results = fan_out(&mut subscribers, event);
                proof {
                    outcomes = results@;
                }
                map.insert(thread_id, subscribers);
            },
            None => {},
        }
        assert(registry_of(map@) =~= published(before, thread_id, event.frame(), outcomes));
        self.0 = map;
    }

    /// Finishes a subscription whose snapshot was offered to the mailbox
    /// with `outcome`. Only when the mailbox accepted the snapshot does the
    /// stream go to the caller, and the sending end to the list of `topic`,
    /// if there is a topic.
    pub fn enroll(
        &mut self,
        topic: Option<i32>,
        subscriber: Subscriber,
        client: Client,
        outcome: Delivery,
    ) -> (stream: Option<Client>)
        ensures
            outcome is Accepted ==> stream == Some(client) && final(self)@ == subscribed(
                old(self)@,
                topic,
                subscriber@,
            ),
            !(outcome is Accepted) ==> stream is None && final(self)@ == old(self)@,
            populated(final(self)@),
    {
        proof {
            use_type_invariant(&*self);
        }
        if !outcome.is_accepted() {
            return None;
        }
        if let Some(topic) = topic {
            let mut map = HashMap::new();
            std::mem::swap(&mut map, &mut self.0);
            let ghost before = registry_of(map@);
            let mut list = match map.remove(&topic) {
                Some(list) => list,
                None => Vec::new(),
            };
            let ghost earlier = list@;
            list.push(subscriber);
            assert(mailboxes(list@) =~= mailboxes(earlier).push(subscriber@));
            assert(!before.contains_key(topic) ==> mailboxes(list@) =~= seq![subscriber@]);
            map.insert(topic, list);
            assert(registry_of(map@) =~= subscribed(before, Some(topic), subscriber@));
            self.0 = map;
        }
        Some(client)
    }

    /// Registers a new subscriber of `thread` and returns its stream, which
    /// starts with the thread's state. A subscriber of a thread that does
    /// not exist gets the `null` state and is registered nowhere.
    pub fn new_subscriber(&mut self, thread: Option<Snapshot>) -> (stream: Option<Client>)
        ensures
            match stream {
                Some(client) => exists|mailbox: Mailbox|
                    #![trigger holds_snapshot(mailbox, thread)]
                    holds_snapshot(mailbox, thread) && client.source() == mailbox.handle
                        && final(self)@ == subscribed(old(self)@, topic_of(thread), mailbox),
                None => final(self)@ == old(self)@,
            },
            thread is None ==> final(self)@ == old(self)@,
            populated(final(self)@),
    {
        let (subscriber, client) = Subscriber::open(MAILBOX_CAPACITY);
        let mut subscriber = subscriber;
        let frame = match &thread {
            Some(thread) => Event::Thread(Some(thread.json.as_str())).to_message(),
            None => Event::Thread(None).to_message(),
        };
        let outcome = subscriber.offer(frame);
        let topic = match &thread {
            Some(thread) => Some(thread.id),
            None => None,
        };
        proof {
            if outcome is Accepted {
                assert(holds_snapshot(subscriber@, thread));
            }
        }
        self.enroll(topic, subscriber, client, outcome)
    }

    /// Sends a ping to every subscriber of every topic. A subscriber that
    /// does not take it is dropped, and a topic that is left without a
    /// subscriber is dropped with it.
    pub fn remove_dead(&mut self)
        ensures
            is_sweep(old(self)@, final(self)@),
            final(self)@.dom().subset_of(old(self)@.dom()),
            forall|topic: i32| audience(final(self)@, topic) <= audience(old(self)@, topic),
            populated(final(self)@),
    {
        let mut map = HashMap::new();
        std::mem::swap(&mut map, &mut self.0);
        let ghost all = map@;
        let ghost before = registry_of(all);
        let topics = topics_of(&map);
        let mut live: HashMap<i32, Vec<Subscriber>> = HashMap::new();
        let ghost mut outcomes: Map<i32, Seq<Delivery>> = Map::empty();
        let mut i: usize = 0;
        assert(topics@.skip(0) =~= topics@);
        while i < topics.len()
            invariant
                i <= topics.len(),
                before == registry_of(all),
                topics@.no_duplicates(),
                forall|topic: i32| all.contains_key(topic) <==> topics@.contains(topic),
                forall|topic: i32|
                    map@.contains_key(topic) <==> topics@.skip(i as int).contains(topic),
                forall|topic: i32| #[trigger]
                    map@.contains_key(topic) ==> map@[topic] == all[topic],
                forall|topic: i32|
                    outcomes.contains_key(topic) <==> topics@.take(i as int).contains(topic),
                forall|topic: i32| #[trigger]
                    outcomes.contains_key(topic) ==> outcomes[topic].len() == before[topic].len(),
                registry_of(live@) == reaped_so_far(before, outcomes),
            decreases topics.len() - i,
        {
            let topic = topics[i];
            proof {
                lemma_visit(topics@, i as int);
            }
            let ghost earlier = outcomes;
            match map.remove(&topic) {
                Some(subscribers) => {
                    let (kept, results) = probe(subscribers);
                    proof {
                        outcomes = outcomes.insert(topic, results@);
                    }
                    let ghost swept_before = registry_of(live@);
                    if kept.len() > 0 {
                        live.insert(topic, kept);
                    }
                    proof {
                        let so_far = reaped_so_far(before, outcomes);
                        assert forall|other: i32| so_far.contains_key(other) == registry_of(
                            live@,
                        ).contains_key(other) by {
                            if other != topic {
                                assert(swept_before.contains_key(other) == reaped_so_far(
                                    before,
                                    earlier,
                                ).contains_key(other));
                            }
                        }
                        assert forall|other: i32| so_far.contains_key(other) implies so_far[other]
                            == registry_of(live@)[other] by {
                            if other != topic {
                                assert(swept_before[other] == reaped_so_far(
                                    before,
                                    earlier,
                                )[other]);
                            }
                        }
                    }
                },
                None => {},
            }
            i += 1;
        }
        assert(reaped_so_far(before, outcomes) =~= reaped(before, outcomes));
        proof {
            assert forall|topic: i32| audience(registry_of(live@), topic) <= audience(
                before,
                topic,
            ) by {
                if before.contains_key(topic) {
                    lemma_sweep(before, outcomes, topic);
                }
            }
        }
        self.0 = live;
    }

    /// The number of topics that have a subscriber.
    pub fn topic_count(&self) -> (count: usize)
        ensures
            count == self@.dom().len(),
    {
        assert(self@.dom() =~= self.0@.dom());
        self.0.len()
    }

    /// The number of subscribers of `thread_id`.
    pub fn subscriber_count(&self, thread_id: i32) -> (count: usize)
        ensures
            count == audience(self@, thread_id),
    {
        match self.0.get(&thread_id) {
            Some(list) => list.len(),
            None => 0,
        }
    }
}

} // verus!
