//! What each event does to a transfer, and that a transfer that gets all its bytes completes.

use crate::fields::Field;
use crate::get::{range_response_of, strong_etag, ContentRange};
use crate::get_error::GetResultErrorView;
use crate::header::{etag_of, ErrorView};
use crate::range::GetRange;
use crate::stream::{
    is_retry_of, next, BodyError, EventView, ResumableView, RetryRequest, StepView, StreamErrorView,
    StreamView, TransferView,
};
use crate::stream_laws::{chunks, retry_after_end, retry_after_failure, run};
use std::ops::Range;
use vstd::prelude::*;

verus! {

/// The step leads to a state and delivers nothing.
pub open spec fn leads_to<E>(step: StepView<E>, state: StreamView<E>) -> bool {
    step.state == state && step.chunk is None
}

/// The step ends the transfer of the store with an error, and delivers nothing.
pub open spec fn fails_with<E>(
    step: StepView<E>,
    store: Seq<char>,
    error: StreamErrorView<E>,
) -> bool {
    leads_to(step, StreamView::Broken(store, error))
}

/// A chunk is delivered, whole and as it is, exactly if it does not go past the end of the range. The
/// transfer then goes on behind it. A chunk that goes past the end is an error.
pub proof fn law_data<E>(t: TransferView, bytes: Seq<u8>)
    ensures
        ({
            let step = next(StreamView::<E>::Reading(t), EventView::Data(bytes));
            &&& t.range.start + bytes.len() <= t.range.end ==> {
                &&& step.chunk == Some(bytes)
                &&& step.state matches StreamView::Reading(now) && {
                    &&& now.store == t.store
                    &&& now.etag == t.etag
                    &&& now.range.start == t.range.start + bytes.len()
                    &&& now.range.end == t.range.end
                }
            }
            &&& t.range.start + bytes.len() > t.range.end ==> fails_with(
                step,
                t.store,
                StreamErrorView::Get(GetResultErrorView::BodyTooLong { expected: t.range.end }),
            )
        }),
{
}

/// The end of the body ends the transfer without an error exactly if nothing is left to be
/// delivered. Else the transfer is resumed if it has an entity tag, and is reported as truncated
/// where it stands if it has none.
pub proof fn law_end<E>(t: TransferView)
    ensures
        ({
            let step = next(StreamView::<E>::Reading(t), EventView::End);
            &&& step.state is Finished <==> t.range.start == t.range.end
            &&& step.chunk is None
            &&& t.range.start != t.range.end ==> match t.etag {
                Some(etag) => step.state matches StreamView::Ended(now) && now.store == t.store
                    && now.etag == etag && now.range == t.range,
                None => fails_with(
                    step,
                    t.store,
                    StreamErrorView::Get(
                        GetResultErrorView::TruncatedBody {
                            expected: t.range.end,
                            actual: t.range.start,
                        },
                    ),
                ),
            }
        }),
{
}

/// A body that cannot be read is kept in mind with its error if the transfer has an entity tag, and
/// is reported if it has none.
pub proof fn law_body_failed<E>(t: TransferView, error: E)
    ensures
        ({
            let step = next(StreamView::Reading(t), EventView::BodyFailed(error));
            match t.etag {
                Some(etag) => step.chunk is None && (step.state matches StreamView::Failed(now, e)
                    && now.store == t.store && now.etag == etag && now.range == t.range && e
                    == BodyError::Transport(error)),
                None => fails_with(
                    step,
                    t.store,
                    StreamErrorView::Body(BodyError::Transport(error)),
                ),
            }
        }),
{
}

/// Whether retries are exhausted decides: if they are, what went wrong is reported; if they are not,
/// an early end is taken for a body that cannot be read, and such a body is waited for.
pub proof fn law_judgement<E>(t: ResumableView, error: BodyError<E>)
    ensures
        fails_with(
            next(StreamView::<E>::Ended(t), EventView::Exhausted(true)),
            t.store,
            StreamErrorView::Get(
                GetResultErrorView::TruncatedBody { expected: t.range.end, actual: t.range.start },
            ),
        ),
        leads_to(
            next(StreamView::<E>::Ended(t), EventView::Exhausted(false)),
            StreamView::Failed(
                t,
                BodyError::Truncated { expected: t.range.end, actual: t.range.start },
            ),
        ),
        fails_with(
            next(StreamView::Failed(t, error), EventView::Exhausted(true)),
            t.store,
            StreamErrorView::Body(error),
        ),
        leads_to(
            next(StreamView::Failed(t, error), EventView::Exhausted(false)),
            StreamView::Waiting(t, error),
        ),
{
}

/// After the delay the retry is requested; a delay or a request that is not possible is reported.
pub proof fn law_waiting<E>(t: ResumableView, error: BodyError<E>, cause: E)
    ensures
        leads_to(
            next(StreamView::Waiting(t, error), EventView::Slept),
            StreamView::Requesting(t, error),
        ),
        fails_with(
            next(StreamView::Waiting(t, error), EventView::SleepFailed),
            t.store,
            StreamErrorView::Runtime,
        ),
        fails_with(
            next(StreamView::Requesting(t, error), EventView::RequestFailed(cause)),
            t.store,
            StreamErrorView::Request(cause),
        ),
{
}

/// What a retry asks for: the bounds of what is not delivered yet, and the entity tag as validator
/// exactly if it is strong.
pub proof fn law_retry(request: RetryRequest, t: ResumableView)
    ensures
        is_retry_of(request, t) <==> {
            &&& request.range matches GetRange::Bounded(r) && r.start == t.range.start && r.end
                == t.range.end
            &&& strong_etag(t.etag) ==> (request.if_range matches Some(tag) && tag.0@ == t.etag)
            &&& !strong_etag(t.etag) ==> request.if_range is None
        },
{
}

/// A reply is read exactly if it has the same entity tag, passes the checks of a partial response,
/// and its range covers all that is not delivered yet. What it carries in front of that is skipped.
pub proof fn law_reply<E>(t: ResumableView, error: BodyError<E>, fields: Seq<Field>, c: ContentRange)
    requires
        etag_of(fields) == Ok::<Seq<char>, ErrorView>(t.etag),
        range_response_of(fields) == Ok::<ContentRange, GetResultErrorView>(c),
    ensures
        ({
            let step = next(StreamView::Requesting(t, error), EventView::Reply(fields));
            &&& c.range.start == t.range.start && t.range.end <= c.range.end ==> leads_to(
                step,
                StreamView::Reading(
                    TransferView { store: t.store, etag: Some(t.etag), range: t.range },
                ),
            )
            &&& c.range.start < t.range.start && t.range.end <= c.range.end ==> leads_to(
                step,
                StreamView::Skipping(t, c.range, (t.range.start - c.range.start) as u64),
            )
            &&& c.range.start > t.range.start || t.range.end > c.range.end ==> fails_with(
                step,
                t.store,
                StreamErrorView::Get(
                    GetResultErrorView::UnexpectedRange { expected: t.range, actual: c.range },
                ),
            )
        }),
{
}

/// What is reported of a reply that is not read: an entity tag that cannot be had; what the retry
/// was made for, if the tag is another; else what the checks of a partial response find.
pub proof fn law_refused_reply<E>(t: ResumableView, error: BodyError<E>, fields: Seq<Field>)
    ensures
        ({
            let step = next(StreamView::Requesting(t, error), EventView::Reply(fields));
            match etag_of(fields) {
                Err(e) => fails_with(step, t.store, StreamErrorView::Header(e)),
                Ok(etag) => {
                    &&& etag != t.etag ==> fails_with(step, t.store, StreamErrorView::Body(error))
                    &&& etag == t.etag ==> (range_response_of(fields) matches Err(e) ==> fails_with(
                        step,
                        t.store,
                        StreamErrorView::Get(e),
                    ))
                },
            }
        }),
{
}

/// What was delivered before is skipped, byte by byte and no further: a chunk that is skipped whole
/// brings the transfer nearer by its length, and of a chunk that goes beyond, the rest is taken as
/// if it had been read alone.
pub proof fn law_skipped_data<E>(t: ResumableView, actual: Range<u64>, left: u64, bytes: Seq<u8>)
    ensures
        ({
            let step = next(StreamView::<E>::Skipping(t, actual, left), EventView::Data(bytes));
            let transfer = TransferView { store: t.store, etag: Some(t.etag), range: t.range };
            &&& bytes.len() < left ==> leads_to(
                step,
                StreamView::Skipping(t, actual, (left - bytes.len()) as u64),
            )
            &&& bytes.len() == left ==> leads_to(step, StreamView::Reading(transfer))
            &&& bytes.len() > left ==> step == next(
                StreamView::<E>::Reading(transfer),
                EventView::Data(bytes.subrange(left as int, bytes.len() as int)),
            )
        }),
{
    if bytes.len() > left {
        assert(bytes.skip(left as int) =~= bytes.subrange(left as int, bytes.len() as int));
    }
}

/// A reply that ends while it is skipped did not carry the range that it declared; one that cannot
/// be read is reported.
pub proof fn law_skipping_ends<E>(t: ResumableView, actual: Range<u64>, left: u64, error: E)
    ensures
        fails_with(
            next(StreamView::<E>::Skipping(t, actual, left), EventView::End),
            t.store,
            StreamErrorView::Get(
                GetResultErrorView::UnexpectedRange { expected: t.range, actual },
            ),
        ),
        fails_with(
            next(StreamView::Skipping(t, actual, left), EventView::BodyFailed(error)),
            t.store,
            StreamErrorView::Body(BodyError::Transport(error)),
        ),
{
}

/// A state waits for an event.
pub open spec fn is_awaited<E>(state: StreamView<E>, event: EventView<E>) -> bool {
    match event {
        EventView::Data(_) => state is Reading || state is Skipping,
        EventView::End => state is Reading || state is Skipping,
        EventView::BodyFailed(_) => state is Reading || state is Skipping,
        EventView::OtherFrame => false,
        EventView::Exhausted(_) => state is Ended || state is Failed,
        EventView::Slept => state is Waiting,
        EventView::SleepFailed => state is Waiting,
        EventView::Reply(_) => state is Requesting,
        EventView::RequestFailed(_) => state is Requesting,
    }
}

/// An event that a state does not wait for, such as a frame that is no data, changes nothing.
pub proof fn law_other_events_change_nothing<E>(state: StreamView<E>, event: EventView<E>)
    requires
        !is_awaited(state, event),
    ensures
        leads_to(next(state, event), state),
{
}

/// The events of a body that comes in these pieces and then ends.
pub open spec fn whole_body<E>(pieces: Seq<Seq<u8>>) -> Seq<EventView<E>> {
    pieces.map_values(|bytes: Seq<u8>| EventView::<E>::Data(bytes)).push(EventView::End)
}

/// A body that comes in pieces of any length, and carries as many bytes as the range has, is
/// delivered piece by piece, and its end ends the transfer without an error.
pub proof fn law_whole_body_completes<E>(t: TransferView, pieces: Seq<Seq<u8>>)
    requires
        t.range.start + pieces.flatten().len() == t.range.end,
    ensures
        run(StreamView::<E>::Reading(t), whole_body(pieces)) == (
            StreamView::<E>::Finished,
            pieces.flatten(),
        ),
        chunks(StreamView::<E>::Reading(t), whole_body(pieces)) == pieces,
{
    let data = pieces.map_values(|bytes: Seq<u8>| EventView::<E>::Data(bytes));
    lemma_pieces::<E>(t, pieces);
    assert(whole_body::<E>(pieces).drop_last() =~= data);
}

/// Pieces that do not go past the end of the range are all delivered.
proof fn lemma_pieces<E>(t: TransferView, pieces: Seq<Seq<u8>>)
    requires
        t.range.start + pieces.flatten().len() <= t.range.end,
    ensures
        ({
            let data = pieces.map_values(|bytes: Seq<u8>| EventView::<E>::Data(bytes));
            let reached = (t.range.start + pieces.flatten().len()) as u64;
            &&& run(StreamView::<E>::Reading(t), data) == (
                StreamView::<E>::Reading(
                    TransferView { range: Range { start: reached, end: t.range.end }, ..t },
                ),
                pieces.flatten(),
            )
            &&& chunks(StreamView::<E>::Reading(t), data) == pieces
        }),
    decreases pieces.len(),
{
    let data = pieces.map_values(|bytes: Seq<u8>| EventView::<E>::Data(bytes));
    if pieces.len() > 0 {
        let init = pieces.drop_last();
        let last = pieces.last();
        init.lemma_flatten_push(last);
        assert(init.push(last) =~= pieces);
        lemma_pieces::<E>(t, init);
        assert(data.drop_last() =~= init.map_values(|bytes: Seq<u8>| EventView::<E>::Data(bytes)));
        assert(data.last() == EventView::<E>::Data(last));
    } else {
        assert(pieces =~= Seq::empty());
        assert(pieces.flatten() =~= Seq::empty());
    }
}

/// Events one after the other.
proof fn lemma_run_on<E>(state: StreamView<E>, first: Seq<EventView<E>>, then: Seq<EventView<E>>)
    ensures
        ({
            let (between, delivered) = run(state, first);
            run(state, first + then) == (
                run(between, then).0,
                delivered + run(between, then).1,
            )
        }),
    decreases then.len(),
{
    let (between, delivered) = run(state, first);
    if then.len() > 0 {
        lemma_run_on(state, first, then.drop_last());
        assert((first + then).drop_last() =~= first + then.drop_last());
        assert((first + then).last() == then.last());
        match next(run(between, then.drop_last()).0, then.last()).chunk {
            Some(bytes) => {
                assert(delivered + run(between, then.drop_last()).1 + bytes =~= delivered + (run(
                    between,
                    then.drop_last(),
                ).1 + bytes));
            },
            None => {},
        }
    } else {
        assert(first + then =~= first);
        assert(delivered + Seq::<u8>::empty() =~= delivered);
    }
}

/// A body that broke off, because it could not be read or because it ended early, is completed by one
/// retry that is allowed and answered with the rest: the bytes before and the bytes of the reply are
/// delivered in order, each in pieces of any length, and the transfer ends without an error.
pub proof fn law_resumed_body_completes<E>(
    t: TransferView,
    before: Seq<Seq<u8>>,
    error: E,
    fields: Seq<Field>,
    answer: ContentRange,
    rest: Seq<Seq<u8>>,
)
    requires
        t.etag is Some,
        etag_of(fields) == Ok::<Seq<char>, ErrorView>(t.etag->0),
        range_response_of(fields) == Ok::<ContentRange, GetResultErrorView>(answer),
        t.range.start + before.flatten().len() == answer.range.start,
        answer.range.start < answer.range.end,
        answer.range.end == t.range.end,
        answer.range.start + rest.flatten().len() == answer.range.end,
    ensures
        ({
            let data = before.map_values(|bytes: Seq<u8>| EventView::<E>::Data(bytes));
            let done = (StreamView::<E>::Finished, before.flatten() + rest.flatten());
            &&& run(
                StreamView::Reading(t),
                data + retry_after_failure(error, fields) + whole_body(rest),
            ) == done
            &&& run(StreamView::Reading(t), data + retry_after_end(fields) + whole_body(rest))
                == done
        }),
{
    let data = before.map_values(|bytes: Seq<u8>| EventView::<E>::Data(bytes));
    let start = StreamView::<E>::Reading(t);
    let now = TransferView { range: answer.range, ..t };
    lemma_pieces::<E>(t, before);
    assert(answer.range == (Range { start: answer.range.start, end: t.range.end }));
    crate::stream_laws::law_resumes_where_it_broke_off(now, error, fields, answer);
    law_whole_body_completes::<E>(now, rest);
    assert(before.flatten() + Seq::<u8>::empty() =~= before.flatten());
    lemma_run_on(start, data, retry_after_failure(error, fields));
    lemma_run_on(start, data + retry_after_failure(error, fields), whole_body(rest));
    lemma_run_on(start, data, retry_after_end(fields));
    lemma_run_on(start, data + retry_after_end(fields), whole_body(rest));
}

/// A reply that starts too early, but ends with the range, completes the transfer too: the bytes in
/// front of those that are not delivered yet are skipped, however they are parted into pieces, and
/// exactly the others are delivered.
pub proof fn law_longer_reply_completes<E>(
    t: ResumableView,
    actual: Range<u64>,
    left: u64,
    pieces: Seq<Seq<u8>>,
)
    requires
        left > 0,
        t.range.start <= t.range.end,
        pieces.flatten().len() == left + (t.range.end - t.range.start),
    ensures
        run(StreamView::<E>::Skipping(t, actual, left), whole_body(pieces)) == (
            StreamView::<E>::Finished,
            pieces.flatten().skip(left as int),
        ),
{
    let data = pieces.map_values(|bytes: Seq<u8>| EventView::<E>::Data(bytes));
    lemma_skipped_pieces::<E>(t, actual, left, pieces);
    assert(whole_body::<E>(pieces).drop_last() =~= data);
    if pieces.flatten().len() == left {
        assert(pieces.flatten().skip(left as int) =~= Seq::<u8>::empty());
    }
}

/// Where pieces lead of which some bytes are skipped.
proof fn lemma_skipped_pieces<E>(
    t: ResumableView,
    actual: Range<u64>,
    left: u64,
    pieces: Seq<Seq<u8>>,
)
    requires
        left > 0,
        t.range.start <= t.range.end,
        pieces.flatten().len() <= left + (t.range.end - t.range.start),
    ensures
        ({
            let data = pieces.map_values(|bytes: Seq<u8>| EventView::<E>::Data(bytes));
            let n = pieces.flatten().len();
            run(StreamView::<E>::Skipping(t, actual, left), data) == if n < left {
                (StreamView::<E>::Skipping(t, actual, (left - n) as u64), Seq::<u8>::empty())
            } else {
                (
                    StreamView::<E>::Reading(
                        TransferView {
                            store: t.store,
                            etag: Some(t.etag),
                            range: Range {
                                start: (t.range.start + (n - left)) as u64,
                                end: t.range.end,
                            },
                        },
                    ),
                    pieces.flatten().skip(left as int),
                )
            }
        }),
    decreases pieces.len(),
{
    let data = pieces.map_values(|bytes: Seq<u8>| EventView::<E>::Data(bytes));
    if pieces.len() > 0 {
        let init = pieces.drop_last();
        let last = pieces.last();
        init.lemma_flatten_push(last);
        assert(init.push(last) =~= pieces);
        lemma_skipped_pieces::<E>(t, actual, left, init);
        assert(data.drop_last() =~= init.map_values(|bytes: Seq<u8>| EventView::<E>::Data(bytes)));
        assert(data.last() == EventView::<E>::Data(last));
        let n = init.flatten().len();
        let whole = pieces.flatten();
        assert(whole == init.flatten() + last);
        if n < left {
            law_skipped_data::<E>(t, actual, (left - n) as u64, last);
            if n + last.len() > left {
                let rest = last.subrange(left - n, last.len() as int);
                assert(Seq::<u8>::empty() + rest =~= whole.skip(left as int));
            } else if n + last.len() == left {
                assert(whole.skip(left as int) =~= Seq::<u8>::empty());
                assert(t.range == (Range { start: t.range.start, end: t.range.end }));
            }
        } else {
            assert(init.flatten().skip(left as int) + last =~= whole.skip(left as int));
        }
    } else {
        assert(pieces =~= Seq::empty());
        assert(pieces.flatten() =~= Seq::empty());
    }
}

} // verus!
