//! What a subscriber can rely on, proved from the way the broadcaster
//! changes its registry.
//!
//! A mailbox hands its frames to the stream in the order in which it accepted
//! them, so `Mailbox::delivered` is what the stream of a subscriber yields.

use crate::util::mailbox::{delivered, Attempt, Delivery, Mailbox};
use crate::util::sse_thread::{
    audience, holds_snapshot, offered_all, ping_frame, populated, post_frame, published, reaped,
    snapshot_frame, subscribed, survivors, swept, thread_frame, Snapshot,
};
use vstd::prelude::*;
use vstd::utf8::{encode_utf8, is_ascii_chars_encode_utf8};

verus! {

/// One change of the registry, with the outcomes of the offers that it made.
pub enum Step {
    /// `Broadcaster::new_subscriber` took a subscriber with this mailbox
    /// for this topic.
    Subscribe { wanted: Option<i32>, mailbox: Mailbox },
    /// `Broadcaster::send` offered `frame` to the subscribers of `topic`.
    Publish { topic: i32, frame: Seq<u8>, outcomes: Seq<Delivery> },
    /// `Broadcaster::remove_dead` offered a ping to every subscriber.
    Sweep { answers: Map<i32, Seq<Delivery>> },
}

/// The registry after one step.
pub open spec fn after_step(registry: Map<i32, Seq<Mailbox>>, step: Step) -> Map<
    i32,
    Seq<Mailbox>,
> {
    match step {
        Step::Subscribe { wanted, mailbox } => subscribed(registry, wanted, mailbox),
        Step::Publish { topic, frame, outcomes } => published(registry, topic, frame, outcomes),
        Step::Sweep { answers } => reaped(registry, answers),
    }
}

/// The registry after the steps, made one after the other.
pub open spec fn after(registry: Map<i32, Seq<Mailbox>>, steps: Seq<Step>) -> Map<i32, Seq<Mailbox>>
    decreases steps.len(),
{
    if steps.len() == 0 {
        registry
    } else {
        after_step(after(registry, steps.drop_last()), steps.last())
    }
}

/// The number of accepted outcomes among `outcomes`.
pub open spec fn accepted_count(outcomes: Seq<Delivery>) -> nat
    decreases outcomes.len(),
{
    if outcomes.len() == 0 {
        0
    } else if outcomes.last() is Accepted {
        accepted_count(outcomes.drop_last()) + 1
    } else {
        accepted_count(outcomes.drop_last())
    }
}

/// Where the subscriber that stood at `index` in the list of `topic` stands
/// after the steps, as long as it took every ping: a sweep moves it up by
/// the number of subscribers before it that did not.
pub open spec fn place(steps: Seq<Step>, topic: i32, index: int) -> int
    decreases steps.len(),
{
    if steps.len() == 0 {
        index
    } else {
        let before = place(steps.drop_last(), topic, index);
        match steps.last() {
            Step::Sweep { answers } => accepted_count(answers[topic].take(before)) as int,
            _ => before,
        }
    }
}

/// Whether the subscriber at `index` in the list of `topic` took every frame
/// that the steps offered to it, each of these steps having one outcome for
/// each subscriber of the topic.
pub open spec fn took_all(
    registry: Map<i32, Seq<Mailbox>>,
    steps: Seq<Step>,
    topic: i32,
    index: int,
) -> bool
    decreases steps.len(),
{
    if steps.len() == 0 {
        true
    } else {
        let earlier = steps.drop_last();
        let count = audience(after(registry, earlier), topic);
        let at = place(earlier, topic, index);
        &&& took_all(registry, earlier, topic, index)
        &&& match steps.last() {
            Step::Subscribe { .. } => true,
            Step::Publish { topic: to, frame, outcomes } => to == topic ==> outcomes.len() == count
                && outcomes[at] is Accepted,
            Step::Sweep { answers } => answers.contains_key(topic) && answers[topic].len()
                == count && answers[topic][at] is Accepted,
        }
    }
}

/// The frames that the steps offered to the subscribers of `topic`, in the
/// order of the steps: what was published to the topic, and a ping for
/// every sweep.
pub open spec fn offers(steps: Seq<Step>, topic: i32) -> Seq<Seq<u8>>
    decreases steps.len(),
{
    if steps.len() == 0 {
        Seq::empty()
    } else {
        let earlier = offers(steps.drop_last(), topic);
        match steps.last() {
            Step::Subscribe { .. } => earlier,
            Step::Publish { topic: to, frame, outcomes } => if to == topic {
                earlier.push(frame)
            } else {
                earlier
            },
            Step::Sweep { .. } => earlier.push(ping_frame()),
        }
    }
}

/// The frames that the steps published to `topic`, in the order of the
/// steps.
pub open spec fn updates(steps: Seq<Step>, topic: i32) -> Seq<Seq<u8>>
    decreases steps.len(),
{
    if steps.len() == 0 {
        Seq::empty()
    } else {
        let earlier = updates(steps.drop_last(), topic);
        match steps.last() {
            Step::Publish { topic: to, frame, outcomes } => if to == topic {
                earlier.push(frame)
            } else {
                earlier
            },
            _ => earlier,
        }
    }
}

/// Whether none of the steps is a sweep.
pub open spec fn without_sweep(steps: Seq<Step>) -> bool {
    forall|k: int| 0 <= k < steps.len() ==> !(#[trigger] steps[k] is Sweep)
}

/// Whether each of the steps publishes the frame of the same place in
/// `frames` to `topic`.
pub open spec fn publishes(steps: Seq<Step>, topic: i32, frames: Seq<Seq<u8>>) -> bool {
    &&& steps.len() == frames.len()
    &&& forall|k: int|
        0 <= k < steps.len() ==> (#[trigger] steps[k] matches Step::Publish { topic: to, frame, .. }
            && to == topic && frame == frames[k])
}

/// The UTF-8 encoding of a text is the encoding of its parts, one after the
/// other.
pub proof fn lemma_encoding_of_parts(head: Seq<char>, tail: Seq<char>)
    ensures
        encode_utf8(head + tail) == encode_utf8(head) + encode_utf8(tail),
    decreases head.len(),
{
    if head.len() > 0 {
        lemma_encoding_of_parts(head.drop_first(), tail);
        assert((head + tail).drop_first() =~= head.drop_first() + tail);
    }
}

/// The two line feeds that end a frame.
pub open spec fn empty_line() -> Seq<u8> {
    seq![10u8, 10u8]
}

/// A frame with data is its header, the payload in UTF-8 as it is, and an
/// empty line; the frame of a ping is its header and an empty line.
pub proof fn lemma_frame_layout(json: Seq<char>)
    ensures
        thread_frame(Some(json)) == encode_utf8("event: thread\ndata: "@) + encode_utf8(json)
            + empty_line(),
        thread_frame(None) == encode_utf8("event: thread\ndata: "@) + encode_utf8("null"@)
            + empty_line(),
        post_frame(json) == encode_utf8("event: post\ndata: "@) + encode_utf8(json) + empty_line(),
        ping_frame() == encode_utf8("event: ping"@) + empty_line(),
{
    reveal_strlit("\n\n");
    reveal_strlit("event: ping");
    reveal_strlit("event: ping\n\n");
    is_ascii_chars_encode_utf8("\n\n"@);
    lemma_encoding_of_parts("event: thread\ndata: "@ + json, "\n\n"@);
    lemma_encoding_of_parts("event: thread\ndata: "@, json);
    lemma_encoding_of_parts("event: thread\ndata: "@ + "null"@, "\n\n"@);
    lemma_encoding_of_parts("event: thread\ndata: "@, "null"@);
    lemma_encoding_of_parts("event: post\ndata: "@ + json, "\n\n"@);
    lemma_encoding_of_parts("event: post\ndata: "@, json);
    assert("event: ping\n\n"@ =~= "event: ping"@ + "\n\n"@);
    lemma_encoding_of_parts("event: ping"@, "\n\n"@);
}

/// Offering a frame adds it to what the stream yields exactly when the
/// mailbox accepts it.
pub proof fn lemma_offer(mailbox: Mailbox, frame: Seq<u8>, outcome: Delivery)
    ensures
        mailbox.offered(frame, outcome).handle == mailbox.handle,
        outcome is Accepted ==> mailbox.offered(frame, outcome).delivered()
            == mailbox.delivered().push(frame),
        !(outcome is Accepted) ==> mailbox.offered(frame, outcome).delivered()
            == mailbox.delivered(),
        mailbox.offered(frame, outcome).answered() == (outcome is Accepted),
{
    let attempts = mailbox.attempts.push(Attempt { frame, outcome });
    assert(attempts.drop_last() =~= mailbox.attempts);
}

/// A stream never yields more frames than were offered to its mailbox.
pub proof fn lemma_delivered_bound(attempts: Seq<Attempt>)
    ensures
        delivered(attempts).len() <= attempts.len(),
    decreases attempts.len(),
{
    if attempts.len() > 0 {
        lemma_delivered_bound(attempts.drop_last());
    }
}

/// A publication changes neither the topics of the registry nor the number
/// or the order of the subscribers of any topic, and it offers the frame to
/// the subscribers of its topic only.
pub proof fn lemma_publication_keeps_lists(
    registry: Map<i32, Seq<Mailbox>>,
    topic: i32,
    frame: Seq<u8>,
    outcomes: Seq<Delivery>,
)
    ensures
        published(registry, topic, frame, outcomes).dom() == registry.dom(),
        forall|other: i32|
            audience(published(registry, topic, frame, outcomes), other) == audience(
                registry,
                other,
            ),
        forall|other: i32|
            other != topic && registry.contains_key(other) ==> published(
                registry,
                topic,
                frame,
                outcomes,
            )[other] == registry[other],
        populated(registry) ==> populated(published(registry, topic, frame, outcomes)),
{
}

/// A subscriber that takes every frame stays in the list of its topic, and
/// its stream yields, after what it had yielded before, exactly the frames
/// that were offered to the topic since, in the order of the steps.
pub proof fn lemma_steady_subscriber(
    registry: Map<i32, Seq<Mailbox>>,
    topic: i32,
    index: int,
    steps: Seq<Step>,
)
    requires
        registry.contains_key(topic),
        0 <= index < registry[topic].len(),
        took_all(registry, steps, topic, index),
    ensures
        after(registry, steps).contains_key(topic),
        0 <= place(steps, topic, index) < after(registry, steps)[topic].len(),
        after(registry, steps)[topic][place(steps, topic, index)].handle
            == registry[topic][index].handle,
        after(registry, steps)[topic][place(steps, topic, index)].delivered()
            == registry[topic][index].delivered() + offers(steps, topic),
    decreases steps.len(),
{
    if steps.len() > 0 {
        let earlier = steps.drop_last();
        lemma_steady_subscriber(registry, topic, index, earlier);
        let before = after(registry, earlier);
        let at = place(earlier, topic, index);
        match steps.last() {
            Step::Subscribe { .. } => {},
            Step::Publish { topic: to, frame, outcomes } => {
                if to == topic {
                    lemma_offer(before[topic][at], frame, outcomes[at]);
                }
            },
            Step::Sweep { answers } => {
                lemma_survivor_place(before[topic], ping_frame(), answers[topic], at);
                lemma_offer(before[topic][at], ping_frame(), Delivery::Accepted);
            },
        }
    }
}

/// A subscriber that was registered with the state of its thread and takes
/// every frame sees that state first and then, as long as no sweep sends it
/// a ping, exactly the frames that are published to its thread, in the
/// order of their publication. Whoever else subscribes meanwhile, and
/// whatever is published to other threads, makes no difference.
pub proof fn lemma_snapshot_then_updates(
    registry: Map<i32, Seq<Mailbox>>,
    thread: Option<Snapshot>,
    topic: i32,
    index: int,
    steps: Seq<Step>,
)
    requires
        registry.contains_key(topic),
        0 <= index < registry[topic].len(),
        holds_snapshot(registry[topic][index], thread),
        without_sweep(steps),
        took_all(registry, steps, topic, index),
    ensures
        after(registry, steps).contains_key(topic),
        index < after(registry, steps)[topic].len(),
        after(registry, steps)[topic][index].delivered() == seq![snapshot_frame(thread)] + updates(
            steps,
            topic,
        ),
{
    lemma_steady_subscriber(registry, topic, index, steps);
    lemma_without_sweep(steps, topic, index);
    let first = registry[topic][index].attempts;
    assert(delivered(first.drop_last()) =~= Seq::<Seq<u8>>::empty());
}

/// Without a sweep no ping is offered and no subscriber moves.
pub proof fn lemma_without_sweep(steps: Seq<Step>, topic: i32, index: int)
    requires
        without_sweep(steps),
    ensures
        offers(steps, topic) == updates(steps, topic),
        place(steps, topic, index) == index,
    decreases steps.len(),
{
    if steps.len() > 0 {
        let earlier = steps.drop_last();
        assert forall|k: int| 0 <= k < earlier.len() implies !(#[trigger] earlier[k] is Sweep) by {
            assert(earlier[k] == steps[k]);
        }
        lemma_without_sweep(earlier, topic, index);
        assert(!(steps[steps.len() - 1] is Sweep));
    }
}

/// Steps that publish one frame after the other to one topic publish to it
/// exactly these frames, as many as there are steps, and hold no sweep.
pub proof fn lemma_publications(steps: Seq<Step>, topic: i32, frames: Seq<Seq<u8>>)
    requires
        publishes(steps, topic, frames),
    ensures
        updates(steps, topic) == frames,
        updates(steps, topic).len() == steps.len(),
        without_sweep(steps),
    decreases steps.len(),
{
    if steps.len() > 0 {
        let earlier = steps.drop_last();
        let first = frames.drop_last();
        assert forall|k: int| 0 <= k < earlier.len() implies (#[trigger] earlier[k] matches
        Step::Publish { topic: to, frame, .. } && to == topic && frame == first[k]) by {
            assert(earlier[k] == steps[k]);
        }
        lemma_publications(earlier, topic, first);
        assert(steps[steps.len() - 1] is Publish);
        assert(updates(steps, topic) =~= frames);
    } else {
        assert(updates(steps, topic) =~= frames);
    }
}

/// Two publications to one topic reach each of its subscribers in the order
/// in which they were made: whoever takes both sees the first and then the
/// second, and nobody sees the second before the first.
pub proof fn lemma_publish_order(
    registry: Map<i32, Seq<Mailbox>>,
    topic: i32,
    first: Seq<u8>,
    first_outcomes: Seq<Delivery>,
    second: Seq<u8>,
    second_outcomes: Seq<Delivery>,
    index: int,
)
    requires
        registry.contains_key(topic),
        0 <= index < registry[topic].len(),
        first_outcomes.len() == registry[topic].len(),
        second_outcomes.len() == registry[topic].len(),
    ensures
        ({
            let after = published(
                published(registry, topic, first, first_outcomes),
                topic,
                second,
                second_outcomes,
            );
            let seen = registry[topic][index].delivered();
            &&& after.contains_key(topic)
            &&& after[topic].len() == registry[topic].len()
            &&& after[topic][index].delivered() == seen + (if first_outcomes[index] is Accepted {
                seq![first]
            } else {
                Seq::empty()
            }) + (if second_outcomes[index] is Accepted {
                seq![second]
            } else {
                Seq::empty()
            })
        }),
{
    let between = published(registry, topic, first, first_outcomes);
    lemma_offer(registry[topic][index], first, first_outcomes[index]);
    lemma_offer(between[topic][index], second, second_outcomes[index]);
}

/// A subscriber of a thread that does not exist is registered nowhere, so
/// nothing that happens later, to whatever topic, is offered to its mailbox:
/// the registry goes on as if the subscriber had never come.
pub proof fn lemma_unregistered_subscriber(
    registry: Map<i32, Seq<Mailbox>>,
    mailbox: Mailbox,
    steps: Seq<Step>,
)
    ensures
        subscribed(registry, None, mailbox) == registry,
        after(subscribed(registry, None, mailbox), steps) == after(registry, steps),
{
}

/// Registering a subscriber appends it to the list of its topic and leaves
/// every other list as it is; no topic is left empty.
pub proof fn lemma_subscription(registry: Map<i32, Seq<Mailbox>>, topic: i32, mailbox: Mailbox)
    ensures
        subscribed(registry, Some(topic), mailbox).contains_key(topic),
        audience(subscribed(registry, Some(topic), mailbox), topic) == audience(registry, topic)
            + 1,
        subscribed(registry, Some(topic), mailbox)[topic].last() == mailbox,
        forall|other: i32|
            other != topic ==> subscribed(registry, Some(topic), mailbox).contains_key(other)
                == registry.contains_key(other),
        forall|other: i32|
            other != topic && registry.contains_key(other) ==> subscribed(
                registry,
                Some(topic),
                mailbox,
            )[other] == registry[other],
        populated(registry) ==> populated(subscribed(registry, Some(topic), mailbox)),
{
}

/// Of a list of mailboxes, those whose latest offer was accepted are as
/// many as the accepted outcomes, each of them was in the list, and they
/// keep their order.
pub proof fn lemma_survivors(list: Seq<Mailbox>, frame: Seq<u8>, outcomes: Seq<Delivery>)
    requires
        outcomes.len() == list.len(),
    ensures
        ({
            let kept = survivors(offered_all(list, frame, outcomes));
            &&& kept.len() == accepted_count(outcomes)
            &&& kept.len() <= list.len()
            &&& forall|j: int|
                0 <= j < kept.len() ==> (#[trigger] kept[j]).answered() && exists|i: int|
                    0 <= i < list.len() && outcomes[i] is Accepted && #[trigger] list[i].offered(
                        frame,
                        Delivery::Accepted,
                    ) == kept[j]
            &&& forall|i: int|
                0 <= i < list.len() && outcomes[i] is Accepted ==> kept.contains(
                    #[trigger] list[i].offered(frame, Delivery::Accepted),
                )
        }),
    decreases list.len(),
{
    let all = offered_all(list, frame, outcomes);
    let kept = survivors(all);
    if list.len() > 0 {
        let n = list.len() - 1;
        let head = list.drop_last();
        let head_outcomes = outcomes.drop_last();
        lemma_survivors(head, frame, head_outcomes);
        let head_all = offered_all(head, frame, head_outcomes);
        let head_kept = survivors(head_all);
        assert(all.drop_last() =~= head_all);
        lemma_offer(list[n], frame, outcomes[n]);
        assert forall|j: int| 0 <= j < kept.len() implies (#[trigger] kept[j]).answered()
            && exists|i: int|
            0 <= i < list.len() && outcomes[i] is Accepted && #[trigger] list[i].offered(
                frame,
                Delivery::Accepted,
            ) == kept[j] by {
            if j < head_kept.len() {
                let i = choose|i: int|
                    0 <= i < head.len() && head_outcomes[i] is Accepted
                        && #[trigger] head[i].offered(frame, Delivery::Accepted) == head_kept[j];
                assert(list[i].offered(frame, Delivery::Accepted) == kept[j]);
            } else {
                assert(list[n].offered(frame, Delivery::Accepted) == kept[j]);
            }
        }
        assert forall|i: int| 0 <= i < list.len() && outcomes[i] is Accepted implies kept.contains(
            #[trigger] list[i].offered(frame, Delivery::Accepted),
        ) by {
            if i < n {
                let wanted = head[i].offered(frame, Delivery::Accepted);
                let j = choose|j: int| 0 <= j < head_kept.len() && head_kept[j] == wanted;
                assert(kept[j] == wanted);
            } else {
                assert(kept[kept.len() - 1] == list[n].offered(frame, Delivery::Accepted));
            }
        }
    }
}

/// A mailbox that accepts the frame stays, and it moves up by the number of
/// mailboxes before it that did not.
pub proof fn lemma_survivor_place(
    list: Seq<Mailbox>,
    frame: Seq<u8>,
    outcomes: Seq<Delivery>,
    index: int,
)
    requires
        outcomes.len() == list.len(),
        0 <= index < list.len(),
        outcomes[index] is Accepted,
    ensures
        accepted_count(outcomes.take(index)) < survivors(offered_all(list, frame, outcomes)).len(),
        survivors(offered_all(list, frame, outcomes))[accepted_count(outcomes.take(index)) as int]
            == list[index].offered(frame, Delivery::Accepted),
    decreases list.len(),
{
    let n = list.len() - 1;
    let head = list.drop_last();
    let head_outcomes = outcomes.drop_last();
    let all = offered_all(list, frame, outcomes);
    let head_all = offered_all(head, frame, head_outcomes);
    assert(all.drop_last() =~= head_all);
    lemma_offer(list[n], frame, outcomes[n]);
    lemma_survivors(head, frame, head_outcomes);
    if index < n {
        assert(head_outcomes.take(index) =~= outcomes.take(index));
        lemma_survivor_place(head, frame, head_outcomes, index);
    }
}

/// A subscriber that takes the ping of a sweep is still there afterwards,
/// with the ping as the latest frame of its stream and before every
/// subscriber that it stood before.
pub proof fn lemma_sweep_keeps_listener(
    registry: Map<i32, Seq<Mailbox>>,
    outcomes: Map<i32, Seq<Delivery>>,
    topic: i32,
    index: int,
)
    requires
        registry.contains_key(topic),
        outcomes.contains_key(topic),
        outcomes[topic].len() == registry[topic].len(),
        0 <= index < registry[topic].len(),
        outcomes[topic][index] is Accepted,
    ensures
        reaped(registry, outcomes).contains_key(topic),
        accepted_count(outcomes[topic].take(index)) < reaped(registry, outcomes)[topic].len(),
        reaped(registry, outcomes)[topic][accepted_count(outcomes[topic].take(index)) as int]
            == registry[topic][index].offered(ping_frame(), Delivery::Accepted),
        reaped(registry, outcomes)[topic][accepted_count(
            outcomes[topic].take(index),
        ) as int].delivered() == registry[topic][index].delivered().push(ping_frame()),
{
    lemma_survivor_place(registry[topic], ping_frame(), outcomes[topic], index);
    lemma_offer(registry[topic][index], ping_frame(), Delivery::Accepted);
}

/// A sweep keeps of every topic exactly the subscribers that took the ping,
/// in their order, and it forgets a topic exactly when none of its
/// subscribers did. No topic is left empty, none is added, and no list
/// grows.
pub proof fn lemma_sweep(
    registry: Map<i32, Seq<Mailbox>>,
    outcomes: Map<i32, Seq<Delivery>>,
    topic: i32,
)
    requires
        registry.contains_key(topic),
        outcomes.contains_key(topic),
        outcomes[topic].len() == registry[topic].len(),
    ensures
        populated(reaped(registry, outcomes)),
        reaped(registry, outcomes).dom().subset_of(registry.dom()),
        reaped(registry, outcomes).contains_key(topic) == (accepted_count(outcomes[topic]) > 0),
        audience(reaped(registry, outcomes), topic) == accepted_count(outcomes[topic]),
        audience(reaped(registry, outcomes), topic) <= audience(registry, topic),
        reaped(registry, outcomes).contains_key(topic) ==> reaped(registry, outcomes)[topic]
            == swept(registry, outcomes, topic),
{
    lemma_survivors(registry[topic], ping_frame(), outcomes[topic]);
}

/// A subscriber that does not take the ping of a sweep is gone afterwards:
/// if it was alone, its topic is gone with it, and in any case the list of
/// its topic has become shorter.
pub proof fn lemma_sweep_drops_silent_subscriber(
    registry: Map<i32, Seq<Mailbox>>,
    outcomes: Map<i32, Seq<Delivery>>,
    topic: i32,
    index: int,
)
    requires
        registry.contains_key(topic),
        outcomes.contains_key(topic),
        outcomes[topic].len() == registry[topic].len(),
        0 <= index < registry[topic].len(),
        !(outcomes[topic][index] is Accepted),
    ensures
        audience(reaped(registry, outcomes), topic) < audience(registry, topic),
        registry[topic].len() == 1 ==> !reaped(registry, outcomes).contains_key(topic),
{
    lemma_sweep(registry, outcomes, topic);
    lemma_one_rejected(outcomes[topic], index);
}

/// With one outcome that is not an acceptance, fewer outcomes are accepted
/// than there are outcomes.
pub proof fn lemma_one_rejected(outcomes: Seq<Delivery>, index: int)
    requires
        0 <= index < outcomes.len(),
        !(outcomes[index] is Accepted),
    ensures
        accepted_count(outcomes) < outcomes.len(),
    decreases outcomes.len(),
{
    lemma_accepted_bound(outcomes.drop_last());
    if index < outcomes.len() - 1 {
        lemma_one_rejected(outcomes.drop_last(), index);
    }
}

/// No more outcomes are accepted than there are outcomes.
pub proof fn lemma_accepted_bound(outcomes: Seq<Delivery>)
    ensures
        accepted_count(outcomes) <= outcomes.len(),
    decreases outcomes.len(),
{
    if outcomes.len() > 0 {
        lemma_accepted_bound(outcomes.drop_last());
    }
}

/// A sweep of a registry without subscribers leaves it without subscribers.
pub proof fn lemma_sweep_of_nothing(outcomes: Map<i32, Seq<Delivery>>)
    ensures
        reaped(Map::<i32, Seq<Mailbox>>::empty(), outcomes) == Map::<i32, Seq<Mailbox>>::empty(),
{
}

} // verus!
