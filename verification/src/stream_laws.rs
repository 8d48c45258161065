//! What holds of a transfer as a whole, whatever happens to it on the way.

use crate::fields::Field;
use crate::get::{range_response_of, strong_etag, ContentRange};
use crate::get_error::GetResultErrorView;
use crate::header::{etag_of, ErrorView};
use crate::range::GetRange;
use crate::stream::{
    is_retry_of, next, BodyError, EventView, ResumableView, RetryRequest, StreamErrorView,
    StreamView, TransferView,
};
use std::ops::Range;
use vstd::prelude::*;

verus! {

/// The state after some events, and all bytes that were delivered until then.
pub open spec fn run<E>(state: StreamView<E>, events: Seq<EventView<E>>) -> (
    StreamView<E>,
    Seq<u8>,
)
    decreases events.len(),
{
    if events.len() == 0 {
        (state, Seq::empty())
    } else {
        let (before, delivered) = run(state, events.drop_last());
        let step = next(before, events.last());
        match step.chunk {
            Some(bytes) => (step.state, delivered + bytes),
            None => (step.state, delivered),
        }
    }
}

/// The chunks that are delivered on some events, one by one.
pub open spec fn chunks<E>(state: StreamView<E>, events: Seq<EventView<E>>) -> Seq<Seq<u8>>
    decreases events.len(),
{
    if events.len() == 0 {
        Seq::empty()
    } else {
        let delivered = chunks(state, events.drop_last());
        match next(run(state, events.drop_last()).0, events.last()).chunk {
            Some(bytes) => delivered.push(bytes),
            None => delivered,
        }
    }
}

/// The events without the frames that are no data.
pub open spec fn without_other_frames<E>(events: Seq<EventView<E>>) -> Seq<EventView<E>> {
    events.filter(|event: EventView<E>| !(event is OtherFrame))
}

/// The transfer that a state stands for, while it is under way.
pub open spec fn under_way<E>(state: StreamView<E>) -> Option<TransferView> {
    match state {
        StreamView::Reading(t) => Some(t),
        StreamView::Ended(t) => Some(t.transfer()),
        StreamView::Failed(t, _) => Some(t.transfer()),
        StreamView::Waiting(t, _) => Some(t.transfer()),
        StreamView::Requesting(t, _) => Some(t.transfer()),
        StreamView::Skipping(t, _, _) => Some(t.transfer()),
        _ => None,
    }
}

/// Some bytes are those of the object at a position.
pub open spec fn found_at(object: Seq<u8>, at: int, bytes: Seq<u8>) -> bool {
    &&& 0 <= at
    &&& at + bytes.len() <= object.len()
    &&& bytes == object.subrange(at, at + bytes.len())
}

/// The position in the object that the body being read has reached.
pub open spec fn position<E>(state: StreamView<E>) -> Option<int> {
    match state {
        StreamView::Reading(t) => Some(t.range.start as int),
        StreamView::Skipping(t, _, left) => Some(t.range.start - left),
        _ => None,
    }
}

/// A body is a faithful copy: its next chunk is that of the object at the position that the body
/// has reached.
pub open spec fn faithful<E>(object: Seq<u8>, state: StreamView<E>, event: EventView<E>) -> bool {
    match (position(state), event) {
        (Some(at), EventView::Data(bytes)) => found_at(object, at, bytes),
        _ => true,
    }
}

/// Every body of a run is a faithful copy.
pub open spec fn all_faithful<E>(
    object: Seq<u8>,
    state: StreamView<E>,
    events: Seq<EventView<E>>,
) -> bool {
    forall|i: int|
        0 <= i < events.len() ==> faithful(
            object,
            run(state, events.take(i)).0,
            #[trigger] events[i],
        )
}

/// The invariant of a run: what is delivered and what is still to be delivered make up the range,
/// and neither the store nor the entity tag changes.
spec fn in_step<E>(t: TransferView, state: StreamView<E>, delivered: Seq<u8>) -> bool {
    &&& t.range.start + delivered.len() <= t.range.end
    &&& match under_way(state) {
        Some(now) => {
            &&& now.store == t.store
            &&& now.etag == t.etag
            &&& now.range.start == t.range.start + delivered.len()
            &&& now.range.end == t.range.end
        },
        None => state is Finished ==> t.range.start + delivered.len() == t.range.end,
    }
    &&& state matches StreamView::Broken(store, _) ==> store == t.store
}

proof fn lemma_in_step<E>(t: TransferView, events: Seq<EventView<E>>)
    requires
        t.range.start <= t.range.end,
    ensures
        in_step(t, run(StreamView::Reading(t), events).0, run(StreamView::Reading(t), events).1),
    decreases events.len(),
{
    if events.len() > 0 {
        lemma_in_step(t, events.drop_last());
    }
}

/// At any time, what was delivered and what is still to be delivered make up the range of the
/// transfer. So no more than the range is ever delivered, and the transfer ends without an error
/// only when all of it was. The entity tag stays what it was, and an error names the store.
pub proof fn law_delivered_and_outstanding<E>(t: TransferView, events: Seq<EventView<E>>)
    requires
        t.range.start <= t.range.end,
    ensures
        ({
            let (state, delivered) = run(StreamView::Reading(t), events);
            let reached = t.range.start + delivered.len();
            &&& reached <= t.range.end
            &&& under_way(state) matches Some(now) ==> now == (TransferView {
                range: Range { start: reached as u64, end: t.range.end },
                ..t
            })
            &&& state is Finished ==> reached == t.range.end
            &&& state matches StreamView::Broken(store, _) ==> store == t.store
        }),
{
    lemma_in_step(t, events);
}

/// One step keeps the bytes delivered a copy of the object.
proof fn lemma_step_is_faithful<E>(
    object: Seq<u8>,
    t: TransferView,
    state: StreamView<E>,
    delivered: Seq<u8>,
    event: EventView<E>,
)
    requires
        in_step(t, state, delivered),
        faithful(object, state, event),
        found_at(object, t.range.start as int, delivered),
    ensures
        next(state, event).chunk matches Some(bytes) ==> found_at(
            object,
            t.range.start as int,
            delivered + bytes,
        ),
{
    let at = t.range.start + delivered.len();
    match next(state, event).chunk {
        Some(bytes) => {
            match (state, event) {
                (StreamView::Reading(now), EventView::Data(data)) => {
                    assert(bytes == data);
                },
                (StreamView::Skipping(now, _, left), EventView::Data(data)) => {
                    assert(bytes == data.skip(left as int));
                    assert(bytes =~= object.subrange(at, at + bytes.len()));
                },
                _ => {},
            }
            assert(delivered + bytes =~= object.subrange(
                t.range.start as int,
                at + bytes.len(),
            ));
        },
        None => {},
    }
}

/// However often a body breaks off and is requested again, the bytes delivered are those of the
/// object, from the start of the range on, each once and in order, provided that each body is
/// a faithful copy. If the transfer ends without an error, they are all bytes of the range.
pub proof fn law_delivery<E>(object: Seq<u8>, t: TransferView, events: Seq<EventView<E>>)
    requires
        t.range.start <= t.range.end <= object.len(),
        all_faithful(object, StreamView::Reading(t), events),
    ensures
        ({
            let (state, delivered) = run(StreamView::Reading(t), events);
            &&& found_at(object, t.range.start as int, delivered)
            &&& state is Finished ==> delivered == object.subrange(
                t.range.start as int,
                t.range.end as int,
            )
        }),
    decreases events.len(),
{
    let start = StreamView::<E>::Reading(t);
    lemma_in_step(t, events);
    if events.len() == 0 {
        assert(run(start, events).1 =~= object.subrange(
            t.range.start as int,
            t.range.start as int,
        ));
    } else {
        let init = events.drop_last();
        let last = events[events.len() - 1];
        assert forall|i: int| 0 <= i < init.len() implies faithful(
            object,
            run(start, init.take(i)).0,
            #[trigger] init[i],
        ) by {
            assert(init.take(i) =~= events.take(i));
            assert(init[i] == events[i]);
        }
        law_delivery(object, t, init);
        lemma_in_step(t, init);
        assert(events.take(events.len() - 1) =~= init);
        assert(faithful(object, run(start, init).0, last));
        lemma_step_is_faithful(object, t, run(start, init).0, run(start, init).1, last);
    }
}

/// The body of a response is combined with the bytes delivered before only if the response has the
/// same entity tag and passes the checks, and its range covers what is still to be delivered. Its
/// first byte is then at the start of its range.
pub proof fn law_only_the_same_representation_is_combined<E>(
    t: ResumableView,
    error: BodyError<E>,
    fields: Seq<Field>,
)
    ensures
        ({
            let state = next(StreamView::Requesting(t, error), EventView::Reply(fields)).state;
            &&& under_way(state) is Some || state is Broken
            &&& under_way(state) is Some ==> {
                &&& under_way(state) == Some(t.transfer())
                &&& etag_of(fields) == Ok::<Seq<char>, ErrorView>(t.etag)
                &&& range_response_of(fields) matches Ok(answer) && {
                    &&& answer.range.start <= t.range.start
                    &&& t.range.end <= answer.range.end
                    &&& position(state) == Some(answer.range.start as int)
                }
            }
        }),
{
}

/// Every chunk, delivered or skipped, advances the body by its length.
pub proof fn law_chunks_advance_the_body<E>(state: StreamView<E>, bytes: Seq<u8>)
    requires
        position(state) is Some,
    ensures
        ({
            let after = next(state, EventView::Data(bytes)).state;
            &&& position(after) is Some || after is Broken
            &&& position(after) matches Some(at) ==> at == position(state)->0 + bytes.len()
        }),
{
}

/// A transfer without a strong entity tag is never resumed: its body is read until it ends or
/// fails, and nothing is requested again.
pub proof fn law_no_retry_without_strong_etag<E>(t: TransferView, events: Seq<EventView<E>>)
    requires
        t.etag is None,
    ensures
        ({
            let state = run(StreamView::Reading(t), events).0;
            &&& state is Reading || state is Finished || state is Broken
            &&& state matches StreamView::Reading(now) ==> now.etag is None
        }),
    decreases events.len(),
{
    if events.len() > 0 {
        law_no_retry_without_strong_etag(t, events.drop_last());
    }
}

/// Every retry asks for exactly the bytes that were not delivered yet, and carries the strong
/// entity tag of the first response as its validator.
pub proof fn law_retry_asks_for_the_rest<E>(
    t: TransferView,
    events: Seq<EventView<E>>,
    now: ResumableView,
    error: BodyError<E>,
    request: RetryRequest,
)
    requires
        t.range.start <= t.range.end,
        t.etag matches Some(tag) ==> strong_etag(tag),
        run(StreamView::Reading(t), events).0 == StreamView::Waiting(now, error),
        is_retry_of(request, now),
    ensures
        request.range == GetRange::Bounded(
            Range {
                start: (t.range.start + run(StreamView::Reading(t), events).1.len()) as u64,
                end: t.range.end,
            },
        ),
        request.if_range matches Some(tag) && t.etag == Some(tag.0@),
{
    lemma_in_step(t, events);
    assert(under_way(run(StreamView::Reading(t), events).0) == Some(now.transfer()));
}

/// The events of a retry that is allowed and answered, after a body that could not be read.
pub open spec fn retry_after_failure<E>(error: E, fields: Seq<Field>) -> Seq<EventView<E>> {
    seq![
        EventView::BodyFailed(error),
        EventView::Exhausted(false),
        EventView::Slept,
        EventView::Reply(fields),
    ]
}

/// The events of a retry that is allowed and answered, after a body that ended early.
pub open spec fn retry_after_end<E>(fields: Seq<Field>) -> Seq<EventView<E>> {
    seq![
        EventView::End,
        EventView::Exhausted(false),
        EventView::Exhausted(false),
        EventView::Slept,
        EventView::Reply(fields),
    ]
}

/// Where four or five events lead, step by step.
proof fn lemma_run_step<E>(state: StreamView<E>, events: Seq<EventView<E>>, event: EventView<E>)
    ensures
        ({
            let (before, delivered) = run(state, events);
            let step = next(before, event);
            run(state, events.push(event)) == (
                step.state,
                match step.chunk {
                    Some(bytes) => delivered + bytes,
                    None => delivered,
                },
            )
        }),
{
    assert(events.push(event).drop_last() =~= events);
}

proof fn lemma_run_failure<E>(t: TransferView, error: E, fields: Seq<Field>)
    requires
        t.etag is Some,
    ensures
        ({
            let now = ResumableView { store: t.store, etag: t.etag->0, range: t.range };
            run(StreamView::Reading(t), retry_after_failure(error, fields)) == (
                next(
                    StreamView::Requesting(now, BodyError::Transport(error)),
                    EventView::Reply(fields),
                ).state,
                Seq::<u8>::empty(),
            )
        }),
{
    let start = StreamView::<E>::Reading(t);
    let none = Seq::<EventView<E>>::empty();
    lemma_run_step(start, none, EventView::BodyFailed(error));
    let one = none.push(EventView::BodyFailed(error));
    lemma_run_step(start, one, EventView::Exhausted(false));
    let two = one.push(EventView::Exhausted(false));
    lemma_run_step(start, two, EventView::Slept);
    let three = two.push(EventView::Slept);
    lemma_run_step(start, three, EventView::Reply(fields));
    assert(three.push(EventView::Reply(fields)) =~= retry_after_failure(error, fields));
}

proof fn lemma_run_end<E>(t: TransferView, fields: Seq<Field>)
    requires
        t.etag is Some,
        t.range.start != t.range.end,
    ensures
        ({
            let now = ResumableView { store: t.store, etag: t.etag->0, range: t.range };
            let error = BodyError::<E>::Truncated {
                expected: t.range.end,
                actual: t.range.start,
            };
            run(StreamView::<E>::Reading(t), retry_after_end(fields)) == (
                next(StreamView::Requesting(now, error), EventView::Reply(fields)).state,
                Seq::<u8>::empty(),
            )
        }),
{
    let start = StreamView::<E>::Reading(t);
    let none = Seq::<EventView<E>>::empty();
    lemma_run_step(start, none, EventView::End);
    let one = none.push(EventView::End);
    lemma_run_step(start, one, EventView::Exhausted(false));
    let two = one.push(EventView::Exhausted(false));
    lemma_run_step(start, two, EventView::Exhausted(false));
    let three = two.push(EventView::Exhausted(false));
    lemma_run_step(start, three, EventView::Slept);
    let four = three.push(EventView::Slept);
    lemma_run_step(start, four, EventView::Reply(fields));
    assert(four.push(EventView::Reply(fields)) =~= retry_after_end(fields));
}

/// A body that breaks off early, or cannot be read, is resumed where it broke off, if the object
/// has a strong entity tag, retries are not exhausted, and the retry is answered with the rest of
/// the same representation.
pub proof fn law_resumes_where_it_broke_off<E>(
    t: TransferView,
    error: E,
    fields: Seq<Field>,
    answer: ContentRange,
)
    requires
        t.etag is Some,
        etag_of(fields) == Ok::<Seq<char>, ErrorView>(t.etag->0),
        range_response_of(fields) == Ok::<ContentRange, GetResultErrorView>(
            answer,
        ),
        answer.range == t.range,
    ensures
        run(StreamView::Reading(t), retry_after_failure(error, fields)) == (
            StreamView::<E>::Reading(t),
            Seq::<u8>::empty(),
        ),
        t.range.start != t.range.end ==> run(
            StreamView::<E>::Reading(t),
            retry_after_end(fields),
        ) == (
            StreamView::<E>::Reading(t),
            Seq::<u8>::empty(),
        ),
{
    lemma_run_failure(t, error, fields);
    if t.range.start != t.range.end {
        lemma_run_end::<E>(t, fields);
    }
}

/// If the retry is answered with another representation, the transfer fails with what the retry
/// was made for.
pub proof fn law_changed_object_is_not_resumed<E>(
    t: TransferView,
    error: E,
    fields: Seq<Field>,
    etag: Seq<char>,
)
    requires
        t.etag is Some,
        etag_of(fields) == Ok::<Seq<char>, ErrorView>(etag),
        t.etag != Some(etag),
    ensures
        run(StreamView::Reading(t), retry_after_failure(error, fields)).0 == StreamView::Broken(
            t.store,
            StreamErrorView::Body(BodyError::Transport(error)),
        ),
        t.range.start != t.range.end ==> run(
            StreamView::<E>::Reading(t),
            retry_after_end(fields),
        ).0 == StreamView::<E>::Broken(
            t.store,
            StreamErrorView::Body(
                BodyError::Truncated { expected: t.range.end, actual: t.range.start },
            ),
        ),
{
    lemma_run_failure(t, error, fields);
    if t.range.start != t.range.end {
        lemma_run_end::<E>(t, fields);
    }
}

/// Frames that are no data never matter: without them the transfer comes to the same state, and
/// delivers the same bytes in the same chunks.
pub proof fn law_other_frames_do_not_matter<E>(state: StreamView<E>, events: Seq<EventView<E>>)
    ensures
        run(state, events) == run(state, without_other_frames(events)),
        chunks(state, events) == chunks(state, without_other_frames(events)),
    decreases events.len(),
{
    reveal(Seq::filter);
    if events.len() > 0 {
        law_other_frames_do_not_matter(state, events.drop_last());
        let rest = without_other_frames(events.drop_last());
        if !(events.last() is OtherFrame) {
            assert(without_other_frames(events) == rest.push(events.last()));
            assert(rest.push(events.last()).drop_last() =~= rest);
        }
    }
}

/// The chunks that are delivered, put together, are the bytes that are delivered.
pub proof fn law_chunks_make_up_what_is_delivered<E>(
    state: StreamView<E>,
    events: Seq<EventView<E>>,
)
    ensures
        chunks(state, events).flatten() == run(state, events).1,
    decreases events.len(),
{
    if events.len() > 0 {
        law_chunks_make_up_what_is_delivered(state, events.drop_last());
        let delivered = chunks(state, events.drop_last());
        if let Some(bytes) = next(run(state, events.drop_last()).0, events.last()).chunk {
            delivered.lemma_flatten_push(bytes);
        }
    }
}

/// A transfer that has ended stays as it is.
pub proof fn law_end_is_final<E>(state: StreamView<E>, events: Seq<EventView<E>>)
    requires
        state is Finished || state is Broken,
    ensures
        run(state, events) == (state, Seq::<u8>::empty()),
    decreases events.len(),
{
    if events.len() > 0 {
        law_end_is_final(state, events.drop_last());
    }
}

} // verus!
