//! The mathematical model of one flush: a batch of decoded messages is
//! dispatched, message by message, to the oldest outstanding handler.  A
//! summary pops that handler; a record is delivered to it in place.  The
//! model says exactly which batches dispatch cleanly and what every handler
//! holds afterwards, and the lemma at the end states the FIFO correlation
//! law: a batch made of one record-group per outstanding request delivers to
//! each handler exactly its own records, in order, followed by its own
//! summary.

use vstd::prelude::*;
use crate::handler::{accepts_record, absorb_record, absorb_summary, HandlerView};
use crate::protocol::{Message, Summary, Value};

verus! {

/// The state of a dispatch in progress: whether any message so far was
/// refused, the handler of every queue slot, and the index of the oldest
/// slot whose summary has not yet arrived.
#[verifier::ext_equal]
pub struct BatchOutcome {
    pub ok: bool,
    pub handlers: Seq<HandlerView>,
    pub front: int,
}

/// The state in which a flush starts: nothing refused yet.
pub open spec fn batch_start(handlers: Seq<HandlerView>, front: int) -> BatchOutcome {
    BatchOutcome { ok: true, handlers, front }
}

/// What one message does to the handler it is routed to.
pub open spec fn step_handler(h: HandlerView, m: Message) -> HandlerView {
    match m {
        Message::Record(rec) => absorb_record(h, rec),
        Message::Summary(s) => absorb_summary(h, s),
    }
}

/// May the next message be dispatched?  There must be an outstanding
/// handler, and a record must land on a handler that accepts records.
pub open spec fn can_step(o: BatchOutcome, m: Message) -> bool {
    &&& o.front < o.handlers.len()
    &&& (m is Summary || accepts_record(o.handlers[o.front]))
}

/// Dispatch one message: route it to the front handler, advancing past that
/// handler when the message is its terminal summary.  A refused message
/// marks the outcome as not ok, and a dispatch that is already not ok stays
/// as it is — the real dispatcher stops at the first violation.
pub open spec fn step_outcome(o: BatchOutcome, m: Message) -> BatchOutcome {
    if !o.ok {
        o
    } else if can_step(o, m) {
        BatchOutcome {
            ok: true,
            handlers: o.handlers.update(o.front, step_handler(o.handlers[o.front], m)),
            front: o.front + (if m is Summary { 1int } else { 0int }),
        }
    } else {
        BatchOutcome { ok: false, handlers: o.handlers, front: o.front }
    }
}

/// Dispatch a whole batch of messages in order.
pub open spec fn run_from(o: BatchOutcome, msgs: Seq<Message>) -> BatchOutcome
    decreases msgs.len(),
{
    if msgs.len() == 0 {
        o
    } else {
        step_outcome(run_from(o, msgs.drop_last()), msgs.last())
    }
}

/// Dispatch a whole batch against the given queue of handlers.
pub open spec fn run_batch(handlers: Seq<HandlerView>, front: int, msgs: Seq<Message>) -> BatchOutcome {
    run_from(batch_start(handlers, front), msgs)
}

/// The handlers after synthetic failure summaries are delivered to the
/// slots from `from` up to (not including) `upto`.
pub open spec fn fail_between(hs: Seq<HandlerView>, from: int, upto: int) -> Seq<HandlerView> {
    Seq::new(
        hs.len(),
        |i: int| if from <= i < upto {
            absorb_summary(hs[i], Summary::TransportFailure)
        } else {
            hs[i]
        },
    )
}

/// The handlers after synthetic failure summaries are delivered to every
/// slot from `from` on, as happens when the transport fails mid-flush.
pub open spec fn fail_from(hs: Seq<HandlerView>, from: int) -> Seq<HandlerView> {
    fail_between(hs, from, hs.len() as int)
}

/// How many terminal summaries a batch holds.
pub open spec fn num_summaries(msgs: Seq<Message>) -> int
    decreases msgs.len(),
{
    if msgs.len() == 0 {
        0
    } else {
        num_summaries(msgs.drop_last()) + (if msgs.last() is Summary { 1int } else { 0int })
    }
}

/// A dispatch that refuses nothing moves the front index forward by exactly
/// one request per terminal summary in the batch: summaries delivered and
/// requests answered are the same count.
pub proof fn lemma_run_from_counts_summaries(o: BatchOutcome, msgs: Seq<Message>)
    requires
        run_from(o, msgs).ok,
    ensures
        run_from(o, msgs).front == o.front + num_summaries(msgs),
    decreases msgs.len(),
{
    if msgs.len() > 0 {
        let prev = run_from(o, msgs.drop_last());
        assert(prev.ok);
        lemma_run_from_counts_summaries(o, msgs.drop_last());
    }
}

/// Once a message is refused, the rest of the batch changes nothing.
pub proof fn lemma_run_from_stuck(o: BatchOutcome, msgs: Seq<Message>, k: int)
    requires
        0 <= k <= msgs.len(),
        !run_from(o, msgs.take(k)).ok,
    ensures
        run_from(o, msgs) == run_from(o, msgs.take(k)),
    decreases msgs.len(),
{
    if msgs.len() == k {
        assert(msgs.take(k) =~= msgs);
    } else {
        assert(msgs.drop_last().take(k) =~= msgs.take(k));
        lemma_run_from_stuck(o, msgs.drop_last(), k);
    }
}

/// Dispatching a batch split in two dispatches the first part, then the
/// second from where the first left off.
pub proof fn lemma_run_from_append(o: BatchOutcome, a: Seq<Message>, b: Seq<Message>)
    ensures
        run_from(o, a + b) == run_from(run_from(o, a), b),
    decreases b.len(),
{
    if b.len() == 0 {
        assert(a + b =~= a);
    } else {
        lemma_run_from_append(o, a, b.drop_last());
        assert((a + b).drop_last() =~= a + b.drop_last());
        assert((a + b).last() == b.last());
    }
}

/// One group of a well-formed batch: the records intended for one request,
/// followed by that request's terminal summary.
pub struct Group {
    pub records: Seq<Vec<Value>>,
    pub summary: Summary,
}

/// A group fits its handler when it streams no records at a handler that
/// declared it expects none.
pub open spec fn group_accepted(h: HandlerView, g: Group) -> bool {
    h is Capture ==> g.records.len() == 0
}

/// A handler after a whole sequence of records is delivered to it in order.
pub open spec fn fold_records(h: HandlerView, recs: Seq<Vec<Value>>) -> HandlerView
    decreases recs.len(),
{
    if recs.len() == 0 {
        h
    } else {
        absorb_record(fold_records(h, recs.drop_last()), recs.last())
    }
}

/// A handler that has received exactly its own group: every record, in
/// order, then its summary.
pub open spec fn delivered(h: HandlerView, g: Group) -> HandlerView {
    absorb_summary(fold_records(h, g.records), g.summary)
}

/// The records of a group as messages.
pub open spec fn record_msgs(recs: Seq<Vec<Value>>) -> Seq<Message> {
    recs.map(|i: int, r: Vec<Value>| Message::Record(r))
}

/// The messages of one group: its records, then its summary.
pub open spec fn group_msgs(g: Group) -> Seq<Message> {
    record_msgs(g.records).push(Message::Summary(g.summary))
}

/// The messages of a whole well-formed batch: one group per outstanding
/// request, oldest first.
pub open spec fn batch_msgs(groups: Seq<Group>) -> Seq<Message>
    decreases groups.len(),
{
    if groups.len() == 0 {
        Seq::empty()
    } else {
        group_msgs(groups.first()) + batch_msgs(groups.drop_first())
    }
}

/// Absorbing records never changes a handler's shape, so whether it accepts
/// records does not change either.
pub proof fn lemma_fold_records_accepts(h: HandlerView, recs: Seq<Vec<Value>>)
    ensures
        accepts_record(fold_records(h, recs)) == accepts_record(h),
        fold_records(h, recs) is Capture <==> h is Capture,
    decreases recs.len(),
{
    if recs.len() > 0 {
        lemma_fold_records_accepts(h, recs.drop_last());
    }
}

/// Dispatching only records delivers each to the front handler in order and
/// moves past none of them.
pub proof fn lemma_run_from_records(o: BatchOutcome, recs: Seq<Vec<Value>>)
    requires
        o.ok,
        0 <= o.front < o.handlers.len(),
        accepts_record(o.handlers[o.front]) || recs.len() == 0,
    ensures
        run_from(o, record_msgs(recs)).ok,
        run_from(o, record_msgs(recs)).front == o.front,
        run_from(o, record_msgs(recs)).handlers =~= o.handlers.update(
            o.front,
            fold_records(o.handlers[o.front], recs),
        ),
    decreases recs.len(),
{
    if recs.len() == 0 {
        assert(record_msgs(recs) =~= Seq::<Message>::empty());
        assert(o.handlers.update(o.front, fold_records(o.handlers[o.front], recs)) =~= o.handlers);
    } else {
        lemma_run_from_records(o, recs.drop_last());
        let prev = run_from(o, record_msgs(recs.drop_last()));
        assert(record_msgs(recs).drop_last() =~= record_msgs(recs.drop_last()));
        assert(record_msgs(recs).last() == Message::Record(recs.last()));
        lemma_fold_records_accepts(o.handlers[o.front], recs.drop_last());
        assert(prev.handlers[o.front] == fold_records(o.handlers[o.front], recs.drop_last()));
        assert(run_from(o, record_msgs(recs)) == step_outcome(prev, Message::Record(recs.last())));
        assert(run_from(o, record_msgs(recs)).handlers =~= o.handlers.update(
            o.front,
            fold_records(o.handlers[o.front], recs),
        ));
    }
}

/// The FIFO correlation law.  Take any queue of handlers with `groups.len()`
/// of them outstanding, and a batch holding one group per outstanding
/// request, oldest first, each group acceptable to its handler.  Dispatching
/// that batch refuses nothing; it delivers exactly one terminal summary per
/// outstanding request, so the front index ends at the queue's end; every
/// handler that was already done is untouched; and each outstanding handler
/// receives exactly the records of its own group, in arrival order, followed
/// by its own summary.
pub proof fn lemma_flush_fifo(handlers: Seq<HandlerView>, front: int, groups: Seq<Group>)
    requires
        0 <= front,
        front + groups.len() == handlers.len(),
        forall|i: int|
            0 <= i < groups.len() ==> group_accepted(#[trigger] handlers[front + i], groups[i]),
    ensures
        run_batch(handlers, front, batch_msgs(groups)).ok,
        run_batch(handlers, front, batch_msgs(groups)).front == handlers.len(),
        num_summaries(batch_msgs(groups)) == groups.len(),
        run_batch(handlers, front, batch_msgs(groups)).handlers.len() == handlers.len(),
        forall|i: int|
            0 <= i < front ==> run_batch(handlers, front, batch_msgs(groups)).handlers[i]
                == handlers[i],
        forall|i: int|
            0 <= i < groups.len() ==> run_batch(handlers, front, batch_msgs(groups)).handlers[
                front + i
            ] == delivered(#[trigger] handlers[front + i], groups[i]),
    decreases groups.len(),
{
    let o = batch_start(handlers, front);
    if groups.len() == 0 {
        assert(batch_msgs(groups) =~= Seq::<Message>::empty());
    } else {
        let g = groups.first();
        let rest = groups.drop_first();
        assert(group_accepted(handlers[front + 0], groups[0]));
        assert(batch_msgs(groups) == group_msgs(g) + batch_msgs(rest));
        lemma_run_from_append(o, group_msgs(g), batch_msgs(rest));
        // First the records of the head group, then its summary.
        lemma_run_from_append(o, record_msgs(g.records), seq![Message::Summary(g.summary)]);
        assert(record_msgs(g.records) + seq![Message::Summary(g.summary)] =~= group_msgs(g));
        lemma_run_from_records(o, g.records);
        let after_recs = run_from(o, record_msgs(g.records));
        lemma_fold_records_accepts(handlers[front], g.records);
        let one = seq![Message::Summary(g.summary)];
        assert(one.drop_last() =~= Seq::<Message>::empty());
        let after_group = run_from(o, group_msgs(g));
        assert(after_group == run_from(after_recs, one));
        assert(run_from(after_recs, one.drop_last()) == after_recs);
        assert(one.last() == Message::Summary(g.summary));
        assert(after_group == step_outcome(after_recs, Message::Summary(g.summary)));
        assert(after_group.ok && after_group.front == front + 1);
        assert(after_group.handlers =~= handlers.update(front, delivered(handlers[front], g)));
        // The tail of the batch is a flush of the remaining groups against
        // the queue as the head group left it.
        let handlers2 = after_group.handlers;
        assert forall|i: int| 0 <= i < rest.len() implies group_accepted(
            #[trigger] handlers2[front + 1 + i],
            rest[i],
        ) by {
            assert(handlers2[front + 1 + i] == handlers[front + (1 + i)]);
            assert(group_accepted(handlers[front + (1 + i)], groups[1 + i]));
        }
        lemma_flush_fifo(handlers2, front + 1, rest);
        assert(run_from(after_group, batch_msgs(rest)) == run_batch(
            handlers2,
            front + 1,
            batch_msgs(rest),
        ));
        let out = run_batch(handlers, front, batch_msgs(groups));
        assert(out == run_from(after_group, batch_msgs(rest)));
        assert forall|i: int| 0 <= i < front implies out.handlers[i] == handlers[i] by {
            assert(out.handlers[i] == handlers2[i]);
            assert(handlers2[i] == handlers[i]);
        }
        assert forall|i: int| 0 <= i < groups.len() implies out.handlers[front + i] == delivered(
            #[trigger] handlers[front + i],
            groups[i],
        ) by {
            if i == 0 {
                assert(out.handlers[front] == handlers2[front]);
                assert(handlers2[front] == delivered(handlers[front], g));
            } else {
                assert(out.handlers[(front + 1) + (i - 1)] == delivered(
                    handlers2[(front + 1) + (i - 1)],
                    rest[i - 1],
                ));
                assert(handlers2[front + i] == handlers[front + i]);
                assert(rest[i - 1] == groups[i]);
            }
        }
    }
    lemma_run_from_counts_summaries(batch_start(handlers, front), batch_msgs(groups));
}

} // verus!
