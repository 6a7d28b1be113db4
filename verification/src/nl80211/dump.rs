//! Draining the answer to a dump: the messages that arrive, in one batch or
//! in many, before the message that ends it.

use vstd::prelude::*;
use crate::nl80211::message::{message_views, NlMessage, NlMessageView};

verus! {

/// Where the first message that ends a dump stands, or the number of
/// messages if none does.
pub open spec fn first_done(messages: Seq<NlMessageView>) -> int
    decreases messages.len(),
{
    if messages.len() == 0 {
        0
    } else if messages[0].is_done() {
        0
    } else {
        1 + first_done(messages.skip(1))
    }
}

/// The first end of a dump stands inside the batch or right behind it, no
/// message before it ends a dump, and the message there does.
pub proof fn first_done_is_the_first(messages: Seq<NlMessageView>)
    ensures
        0 <= first_done(messages) <= messages.len(),
        forall|i: int| 0 <= i < first_done(messages) ==> !(#[trigger] messages[i]).is_done(),
        first_done(messages) < messages.len() ==> messages[first_done(messages)].is_done(),
    decreases messages.len(),
{
    if messages.len() > 0 && !messages[0].is_done() {
        let rest = messages.skip(1);
        first_done_is_the_first(rest);
        assert forall|i: int| 0 <= i < first_done(messages) implies !(
        #[trigger] messages[i]).is_done() by {
            if i > 0 {
                assert(messages[i] == rest[i - 1]);
            }
        }
        if first_done(messages) < messages.len() {
            assert(messages[first_done(messages)] == rest[first_done(rest)]);
        }
    }
}

/// Finds the first message that ends a dump.
pub fn find_done(batch: &Vec<NlMessage>) -> (end: usize)
    ensures
        end == first_done(message_views(batch@)),
        end <= batch@.len(),
{
    let ghost all = message_views(batch@);
    let mut end: usize = 0;
    assert(all.skip(0) =~= all);
    while end < batch.len()
        invariant
            end <= batch@.len(),
            all == message_views(batch@),
            first_done(all) == end + first_done(all.skip(end as int)),
        decreases batch@.len() - end,
    {
        assert(all.skip(end as int)[0] == batch@[end as int]@);
        assert(all.skip(end as int).skip(1) =~= all.skip(end + 1));
        if batch[end].is_done() {
            return end;
        }
        end += 1;
    }
    end
}

/// What was drained from the answer to a dump.
#[derive(Debug)]
pub struct Dump<T> {
    /// What the messages gave, in the order of arrival.
    pub items: Vec<T>,
    /// How many batches were read.
    pub batches_read: usize,
    /// Whether the end of the dump was seen.
    pub complete: bool,
}

/// Whether a batch holds a message that ends a dump.
pub open spec fn holds_done(batch: Seq<NlMessage>) -> bool {
    first_done(message_views(batch)) < batch.len()
}

/// How many batches are read: all up to the first that holds the end of the
/// dump, that one included.
pub open spec fn batches_read(batches: Seq<Vec<NlMessage>>) -> int
    decreases batches.len(),
{
    if batches.len() == 0 {
        0
    } else if holds_done(batches[0]@) {
        1
    } else {
        1 + batches_read(batches.skip(1))
    }
}

/// Whether the end of the dump is among the batches.
pub open spec fn dump_is_complete(batches: Seq<Vec<NlMessage>>) -> bool
    decreases batches.len(),
{
    if batches.len() == 0 {
        false
    } else if holds_done(batches[0]@) {
        true
    } else {
        dump_is_complete(batches.skip(1))
    }
}

/// The messages of a dump: those that arrive before the first message that
/// ends it, in the order of arrival.
pub open spec fn dump_messages(batches: Seq<Vec<NlMessage>>) -> Seq<NlMessage>
    decreases batches.len(),
{
    if batches.len() == 0 {
        Seq::empty()
    } else if holds_done(batches[0]@) {
        batches[0]@.take(first_done(message_views(batches[0]@)))
    } else {
        batches[0]@ + dump_messages(batches.skip(1))
    }
}

/// The values among the outcomes, in their order.
pub open spec fn somes<T>(outcomes: Seq<Option<T>>) -> Seq<T>
    decreases outcomes.len(),
{
    if outcomes.len() == 0 {
        Seq::empty()
    } else {
        match outcomes.last() {
            Some(value) => somes(outcomes.drop_last()).push(value),
            None => somes(outcomes.drop_last()),
        }
    }
}

/// `outcomes` holds, for each of the messages, something that `f` may return
/// for it.
pub open spec fn outcomes_of<T, F: Fn(&NlMessage) -> Option<T>>(
    f: F,
    messages: Seq<NlMessage>,
    outcomes: Seq<Option<T>>,
) -> bool {
    &&& outcomes.len() == messages.len()
    &&& forall|k: int|
        0 <= k < messages.len() ==> call_ensures(f, (&#[trigger] messages[k],), outcomes[k])
}

/// Drains the answer to a dump from the batches in which it arrived. `f` is
/// applied to every message before the first that ends the dump, and what it
/// gives is collected in the order of arrival; a message for which it gives
/// nothing is passed over. No batch behind the one that holds the end of the
/// dump is read.
pub fn recv_all<T, F: Fn(&NlMessage) -> Option<T>>(batches: &Vec<Vec<NlMessage>>, f: F) -> (dump:
    Dump<T>)
    requires
        forall|m: &NlMessage| call_requires(f, (m,)),
    ensures
        dump.batches_read == batches_read(batches@),
        dump.complete == dump_is_complete(batches@),
        exists|outcomes: Seq<Option<T>>|
            outcomes_of(f, dump_messages(batches@), outcomes) && dump.items@ == somes(outcomes),
{
    let mut items: Vec<T> = Vec::new();
    let ghost mut outcomes: Seq<Option<T>> = Seq::empty();
    let ghost mut seen: Seq<NlMessage> = Seq::empty();
    let mut read: usize = 0;
    let mut complete: bool = false;
    assert(batches@.skip(0) =~= batches@);
    while read < batches.len() && !complete
        invariant
            read <= batches@.len(),
            forall|m: &NlMessage| call_requires(f, (m,)),
            outcomes_of(f, seen, outcomes),
            items@ == somes(outcomes),
            complete ==> batches_read(batches@) == read && dump_is_complete(batches@)
                && dump_messages(batches@) == seen,
            !complete ==> batches_read(batches@) == read + batches_read(batches@.skip(read as int))
                && dump_is_complete(batches@) == dump_is_complete(batches@.skip(read as int))
                && dump_messages(batches@) == seen + dump_messages(batches@.skip(read as int)),
        decreases batches@.len() - read,
    {
        let batch = &batches[read];
        let end = find_done(batch);
        let ghost before = seen;
        let ghost rest = batches@.skip(read as int);
        assert(rest[0] == batches@[read as int]);
        assert(rest.skip(1) =~= batches@.skip(read + 1));
        let mut j: usize = 0;
        while j < end
            invariant
                j <= end <= batch@.len(),
                forall|m: &NlMessage| call_requires(f, (m,)),
                seen == before + batch@.take(j as int),
                outcomes_of(f, seen, outcomes),
                items@ == somes(outcomes),
            decreases end - j,
        {
            let outcome = f(&batch[j]);
            proof {
                let grown = seen.push(batch@[j as int]);
                let told = outcomes.push(outcome);
                assert(told.drop_last() =~= outcomes);
                assert(grown =~= before + batch@.take(j + 1));
                assert forall|k: int| 0 <= k < grown.len() implies call_ensures(
                    f,
                    (&#[trigger] grown[k],),
                    told[k],
                ) by {
                    if k < seen.len() {
                        assert(grown[k] == seen[k]);
                    }
                }
                seen = grown;
                outcomes = told;
            }
            match outcome {
                Some(item) => {
                    items.push(item);
                },
                None => {},
            }
            j += 1;
        }
        read += 1;
        complete = end < batch.len();
        proof {
            if !complete {
                assert(batch@.take(end as int) =~= batch@);
                assert(before + (batch@ + dump_messages(rest.skip(1))) =~= (before + batch@)
                    + dump_messages(rest.skip(1)));
            } else {
                assert(before + batch@.take(end as int) =~= seen);
            }
        }
    }
    proof {
        if !complete {
            assert(batches@.skip(read as int) =~= Seq::<Vec<NlMessage>>::empty());
            assert(seen + Seq::<NlMessage>::empty() =~= seen);
        }
    }
    Dump { items, batches_read: read, complete }
}

/// Once the end of the dump has arrived, nothing that arrives behind it is
/// read or changes what the dump holds.
pub proof fn nothing_is_read_behind_the_end(batches: Seq<Vec<NlMessage>>, more: Seq<Vec<NlMessage>>)
    requires
        dump_is_complete(batches),
    ensures
        dump_is_complete(batches + more),
        batches_read(batches + more) == batches_read(batches),
        batches_read(batches) <= batches.len(),
        dump_messages(batches + more) == dump_messages(batches),
    decreases batches.len(),
{
    if batches.len() > 0 {
        assert((batches + more)[0] == batches[0]);
        if !holds_done(batches[0]@) {
            assert((batches + more).skip(1) =~= batches.skip(1) + more);
            nothing_is_read_behind_the_end(batches.skip(1), more);
        }
    }
}

} // verus!
