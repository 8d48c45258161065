//! A response body that is resumed where it broke off.
//!
//! The body is read chunk by chunk. Each state of the transfer is a type of its own; its methods
//! take what the caller has learned and give the [`Step`] that comes next. A body that breaks off
//! is requested again from the first byte that was not delivered, provided that a strong entity
//! tag vouches for the bytes being those of the same representation.

use crate::chunk::{chunk_bytes, chunk_from};
use crate::fields::{header_fields, Field};
use crate::get::{is_strong_etag, range_response_of, strong_etag, validate_range_response};
use crate::get_error::{GetResultError, GetResultErrorView};
use crate::header::{self, etag_of, get_etag};
use crate::range::{copy_range, GetRange};
use crate::runtime::RetryRuntimeError;
use crate::views::option_view;
use bytes::Bytes;
use http::HeaderMap;
use std::ops::Range;
use vstd::prelude::*;

verus! {

/// The error of a store.
#[derive(Debug)]
pub enum Error<S> {
    /// Something went wrong that the store has no more to say about.
    Generic {
        /// The name of the store.
        store: &'static str,
        /// What went wrong.
        source: S,
    },
}

/// Why a body could not be read to its end.
#[derive(Debug)]
pub enum BodyError<E> {
    /// Reading it failed.
    Transport(E),
    /// It ended early.
    Truncated {
        /// Where it was to end.
        expected: u64,
        /// Where it ended.
        actual: u64,
    },
}

/// Why a transfer failed.
#[derive(Debug)]
pub enum StreamError<E> {
    /// The response was not acceptable, or its body was too short or too long.
    Get(GetResultError),
    /// The entity tag of the response to a retry could not be read.
    Header(header::Error),
    /// The body could not be read, and was not to be requested again.
    Body(BodyError<E>),
    /// The retry could not be delayed.
    Runtime(RetryRuntimeError),
    /// The retry could not be requested.
    Request(E),
}

/// Why a transfer failed, with strings as sequences of characters.
pub enum StreamErrorView<E> {
    Get(GetResultErrorView),
    Header(header::ErrorView),
    Body(BodyError<E>),
    Runtime,
    Request(E),
}

impl<E> View for StreamError<E> {
    type V = StreamErrorView<E>;

    open spec fn view(&self) -> StreamErrorView<E> {
        match *self {
            StreamError::Get(e) => StreamErrorView::Get(e@),
            StreamError::Header(e) => StreamErrorView::Header(e@),
            StreamError::Body(e) => StreamErrorView::Body(e),
            StreamError::Runtime(_) => StreamErrorView::Runtime,
            StreamError::Request(e) => StreamErrorView::Request(e),
        }
    }
}

/// A transfer: the store, the strong entity tag of the object, if it has one, and the range of the
/// object that is still to be delivered.
pub struct TransferView {
    pub store: Seq<char>,
    pub etag: Option<Seq<char>>,
    pub range: Range<u64>,
}

/// A transfer of which nothing has been delivered yet. It keeps the entity tag only if that is
/// strong.
pub open spec fn new_transfer(
    store: Seq<char>,
    etag: Option<Seq<char>>,
    range: Range<u64>,
) -> TransferView {
    TransferView {
        store,
        etag: match etag {
            Some(tag) => if strong_etag(tag) {
                Some(tag)
            } else {
                None
            },
            None => None,
        },
        range,
    }
}

/// A transfer that can be resumed, because the object has a strong entity tag.
pub struct ResumableView {
    pub store: Seq<char>,
    pub etag: Seq<char>,
    pub range: Range<u64>,
}

impl ResumableView {
    /// The transfer as such.
    pub open spec fn transfer(self) -> TransferView {
        TransferView { store: self.store, etag: Some(self.etag), range: self.range }
    }
}

/// The state of a transfer.
pub enum StreamView<E> {
    /// The next chunk is being read.
    Reading(TransferView),
    /// The body ended early, and it is asked whether retries are exhausted.
    Ended(ResumableView),
    /// The body could not be read, and it is asked whether retries are exhausted.
    Failed(ResumableView, BodyError<E>),
    /// The retry is being delayed.
    Waiting(ResumableView, BodyError<E>),
    /// The retry is being requested.
    Requesting(ResumableView, BodyError<E>),
    /// The response to the retry starts too early; so many bytes are still to be skipped.
    Skipping(ResumableView, Range<u64>, u64),
    /// Everything was delivered.
    Finished,
    /// The transfer of the store failed.
    Broken(Seq<char>, StreamErrorView<E>),
}

/// What the caller has learned.
pub enum EventView<E> {
    /// The body carried a chunk.
    Data(Seq<u8>),
    /// The body carried a frame that is no data.
    OtherFrame,
    /// The body ended.
    End,
    /// The body could not be read.
    BodyFailed(E),
    /// Retries are exhausted, or are not.
    Exhausted(bool),
    /// The delay is over.
    Slept,
    /// The retry could not be delayed.
    SleepFailed,
    /// The retry was answered, with these header fields.
    Reply(Seq<Field>),
    /// The retry could not be requested.
    RequestFailed(E),
}

/// The state that follows, and the chunk that is delivered on the way, if any.
pub struct StepView<E> {
    pub state: StreamView<E>,
    pub chunk: Option<Seq<u8>>,
}

/// A step that delivers nothing.
pub open spec fn silent<E>(state: StreamView<E>) -> StepView<E> {
    StepView { state, chunk: None }
}

/// A step in which a response turns out not to be acceptable.
pub open spec fn broken<E>(store: Seq<char>, error: GetResultErrorView) -> StepView<E> {
    silent(StreamView::Broken(store, StreamErrorView::Get(error)))
}

/// The body ended before everything was delivered.
pub open spec fn truncated(range: Range<u64>) -> GetResultErrorView {
    GetResultErrorView::TruncatedBody { expected: range.end, actual: range.start }
}

/// A chunk is delivered if it does not exceed what is still to be delivered.
pub open spec fn after_data<E>(t: TransferView, bytes: Seq<u8>) -> StepView<E> {
    if t.range.start + bytes.len() > t.range.end {
        broken(t.store, GetResultErrorView::BodyTooLong { expected: t.range.end })
    } else {
        let range = Range { start: (t.range.start + bytes.len()) as u64, end: t.range.end };
        StepView { state: StreamView::Reading(TransferView { range, ..t }), chunk: Some(bytes) }
    }
}

/// The end of the body ends the transfer if everything was delivered.
pub open spec fn after_end<E>(t: TransferView) -> StepView<E> {
    if t.range.start == t.range.end {
        silent(StreamView::Finished)
    } else {
        match t.etag {
            Some(etag) => silent(
                StreamView::Ended(ResumableView { store: t.store, etag, range: t.range }),
            ),
            None => broken(t.store, truncated(t.range)),
        }
    }
}

/// A body that cannot be read is requested again if the transfer can be resumed.
pub open spec fn after_body_failed<E>(t: TransferView, error: E) -> StepView<E> {
    match t.etag {
        Some(etag) => silent(
            StreamView::Failed(
                ResumableView { store: t.store, etag, range: t.range },
                BodyError::Transport(error),
            ),
        ),
        None => silent(
            StreamView::Broken(t.store, StreamErrorView::Body(BodyError::Transport(error))),
        ),
    }
}

/// A body that ended early is taken for one that could not be read, unless retries are exhausted.
pub open spec fn after_ended<E>(t: ResumableView, exhausted: bool) -> StepView<E> {
    if exhausted {
        broken(t.store, truncated(t.range))
    } else {
        silent(
            StreamView::Failed(
                t,
                BodyError::Truncated { expected: t.range.end, actual: t.range.start },
            ),
        )
    }
}

/// A retry is delayed, unless retries are exhausted.
pub open spec fn after_failed<E>(
    t: ResumableView,
    error: BodyError<E>,
    exhausted: bool,
) -> StepView<E> {
    if exhausted {
        silent(StreamView::Broken(t.store, StreamErrorView::Body(error)))
    } else {
        silent(StreamView::Waiting(t, error))
    }
}

/// The transfer goes on when the bytes that were delivered before have been skipped.
pub open spec fn resumed<E>(t: ResumableView, actual: Range<u64>, left: u64) -> StepView<E> {
    if left == 0 {
        silent(StreamView::Reading(t.transfer()))
    } else {
        silent(StreamView::Skipping(t, actual, left))
    }
}

/// The response to a retry is read if it is of the same representation and covers what is still to
/// be delivered. The error that the retry was made for is reported if the representation changed.
pub open spec fn after_reply<E>(
    t: ResumableView,
    error: BodyError<E>,
    fields: Seq<Field>,
) -> StepView<E> {
    match etag_of(fields) {
        Err(e) => silent(StreamView::Broken(t.store, StreamErrorView::Header(e))),
        Ok(etag) => if etag != t.etag {
            silent(StreamView::Broken(t.store, StreamErrorView::Body(error)))
        } else {
            match range_response_of(fields) {
                Err(e) => broken(t.store, e),
                Ok(content_range) => {
                    let actual = content_range.range;
                    if actual.start <= t.range.start && t.range.end <= actual.end {
                        resumed(t, actual, (t.range.start - actual.start) as u64)
                    } else {
                        broken(
                            t.store,
                            GetResultErrorView::UnexpectedRange { expected: t.range, actual },
                        )
                    }
                },
            }
        },
    }
}

/// Of a chunk that reaches beyond what is to be skipped, the rest is delivered.
pub open spec fn after_skipped_data<E>(
    t: ResumableView,
    actual: Range<u64>,
    left: u64,
    bytes: Seq<u8>,
) -> StepView<E> {
    if bytes.len() <= left {
        resumed(t, actual, (left - bytes.len()) as u64)
    } else {
        after_data(t.transfer(), bytes.skip(left as int))
    }
}

/// The step from a state on an event. An event that the state does not wait for changes nothing.
pub open spec fn next<E>(state: StreamView<E>, event: EventView<E>) -> StepView<E> {
    match (state, event) {
        (StreamView::Reading(t), EventView::Data(bytes)) => after_data(t, bytes),
        (StreamView::Reading(t), EventView::End) => after_end(t),
        (StreamView::Reading(t), EventView::BodyFailed(e)) => after_body_failed(t, e),
        (StreamView::Ended(t), EventView::Exhausted(exhausted)) => after_ended(t, exhausted),
        (StreamView::Failed(t, error), EventView::Exhausted(exhausted)) => {
            after_failed(t, error, exhausted)
        },
        (StreamView::Waiting(t, error), EventView::Slept) => {
            silent(StreamView::Requesting(t, error))
        },
        (StreamView::Waiting(t, error), EventView::SleepFailed) => {
            silent(StreamView::Broken(t.store, StreamErrorView::Runtime))
        },
        (StreamView::Requesting(t, error), EventView::Reply(fields)) => {
            after_reply(t, error, fields)
        },
        (StreamView::Requesting(t, error), EventView::RequestFailed(e)) => {
            silent(StreamView::Broken(t.store, StreamErrorView::Request(e)))
        },
        (StreamView::Skipping(t, actual, left), EventView::Data(bytes)) => {
            after_skipped_data(t, actual, left, bytes)
        },
        (StreamView::Skipping(t, actual, left), EventView::End) => {
            broken(t.store, GetResultErrorView::UnexpectedRange { expected: t.range, actual })
        },
        (StreamView::Skipping(t, actual, left), EventView::BodyFailed(e)) => {
            silent(StreamView::Broken(t.store, StreamErrorView::Body(BodyError::Transport(e))))
        },
        _ => silent(state),
    }
}

/// The validator that makes a server send the whole object if it has changed.
#[derive(Debug)]
pub struct IfRange(pub String);

impl Clone for IfRange {
    fn clone(&self) -> (r: IfRange)
        ensures
            r == *self,
    {
        IfRange(self.0.clone())
    }
}

/// What a retry asks for, beside what the request asked for.
#[derive(Debug)]
pub struct RetryRequest {
    /// The range of the object.
    pub range: GetRange,
    /// The validator.
    pub if_range: Option<IfRange>,
}

/// The next chunk is to be read.
#[derive(Debug)]
pub struct Reading {
    store: &'static str,
    etag: Option<String>,
    range: Range<u64>,
}

impl View for Reading {
    type V = TransferView;

    closed spec fn view(&self) -> TransferView {
        TransferView { store: self.store@, etag: option_view(self.etag), range: self.range }
    }
}

/// A transfer that can be resumed.
#[derive(Debug)]
struct Resumable {
    store: &'static str,
    etag: String,
    range: Range<u64>,
}

impl View for Resumable {
    type V = ResumableView;

    closed spec fn view(&self) -> ResumableView {
        ResumableView { store: self.store@, etag: self.etag@, range: self.range }
    }
}

/// The body ended early; it is asked whether retries are exhausted.
#[derive(Debug)]
pub struct Ended {
    transfer: Resumable,
}

impl View for Ended {
    type V = ResumableView;

    closed spec fn view(&self) -> ResumableView {
        self.transfer@
    }
}

/// The body could not be read; it is asked whether retries are exhausted.
#[derive(Debug)]
pub struct Failed<E> {
    transfer: Resumable,
    error: BodyError<E>,
}

impl<E> View for Failed<E> {
    type V = (ResumableView, BodyError<E>);

    closed spec fn view(&self) -> (ResumableView, BodyError<E>) {
        (self.transfer@, self.error)
    }
}

/// The retry is to be delayed.
#[derive(Debug)]
pub struct Waiting<E> {
    transfer: Resumable,
    error: BodyError<E>,
}

impl<E> View for Waiting<E> {
    type V = (ResumableView, BodyError<E>);

    closed spec fn view(&self) -> (ResumableView, BodyError<E>) {
        (self.transfer@, self.error)
    }
}

/// The retry is to be requested.
#[derive(Debug)]
pub struct Requesting<E> {
    transfer: Resumable,
    error: BodyError<E>,
}

impl<E> View for Requesting<E> {
    type V = (ResumableView, BodyError<E>);

    closed spec fn view(&self) -> (ResumableView, BodyError<E>) {
        (self.transfer@, self.error)
    }
}

/// The next chunk of the response to the retry is to be read and skipped.
#[derive(Debug)]
pub struct Skipping {
    transfer: Resumable,
    actual: Range<u64>,
    left: u64,
}

impl View for Skipping {
    type V = (ResumableView, Range<u64>, u64);

    closed spec fn view(&self) -> (ResumableView, Range<u64>, u64) {
        (self.transfer@, self.actual, self.left)
    }
}

/// What the caller has to do next.
#[derive(Debug)]
pub enum Step<E> {
    /// Read the next frame of the body.
    Read(Reading),
    /// Deliver a chunk, and then read the next frame of the body.
    Deliver(Bytes, Reading),
    /// Find out whether retries are exhausted.
    JudgeEnd(Ended),
    /// Find out whether retries are exhausted.
    JudgeFailure(Failed<E>),
    /// Delay the retry.
    Wait(Waiting<E>),
    /// Request the retry.
    Request(RetryRequest, Requesting<E>),
    /// Read the next frame of the body, which is that of the response to the retry.
    Skip(Skipping),
    /// End the transfer; everything was delivered.
    Finish,
    /// End the transfer with an error.
    Fail(Error<StreamError<E>>),
}

impl<E> View for Step<E> {
    type V = StepView<E>;

    open spec fn view(&self) -> StepView<E> {
        match *self {
            Step::Read(s) => silent(StreamView::Reading(s@)),
            Step::Deliver(chunk, s) => StepView {
                state: StreamView::Reading(s@),
                chunk: Some(chunk_bytes(chunk)),
            },
            Step::JudgeEnd(s) => silent(StreamView::Ended(s@)),
            Step::JudgeFailure(s) => silent(StreamView::Failed(s@.0, s@.1)),
            Step::Wait(s) => silent(StreamView::Waiting(s@.0, s@.1)),
            Step::Request(_, s) => silent(StreamView::Requesting(s@.0, s@.1)),
            Step::Skip(s) => silent(StreamView::Skipping(s@.0, s@.1, s@.2)),
            Step::Finish => silent(StreamView::Finished),
            Step::Fail(Error::Generic { store, source }) => {
                silent(StreamView::Broken(store@, source@))
            },
        }
    }
}

/// What a retry of a transfer asks for: exactly what is still to be delivered, of the same
/// representation.
pub open spec fn is_retry_of(request: RetryRequest, t: ResumableView) -> bool {
    &&& request.range == GetRange::Bounded(t.range)
    &&& match request.if_range {
        Some(tag) => strong_etag(t.etag) && tag.0@ == t.etag,
        None => !strong_etag(t.etag),
    }
}


/// The error of a store, from what went wrong.
fn fail<E>(store: &'static str, source: StreamError<E>) -> (r: Step<E>)
    ensures
        r@ == silent(StreamView::<E>::Broken(store@, source@)),
{
    Step::Fail(Error::Generic { store, source })
}

impl Reading {
    /// A transfer of which nothing has been delivered yet. It can be resumed only if the entity tag
    /// is strong: bytes of another response can only be combined with those delivered before if
    /// a strong validator says that they are of the same representation (RFC 9110, section 8.8.3).
    pub fn new(store: &'static str, etag: Option<String>, range: Range<u64>) -> (r: Reading)
        ensures
            r@ == new_transfer(store@, option_view(etag), range),
    {
        let etag: Option<String> = match etag {
            Some(tag) => if is_strong_etag(tag.as_str()) {
                Some(tag)
            } else {
                None
            },
            None => None,
        };
        Reading { store, etag, range }
    }

    /// The range that is still to be delivered.
    pub fn range(&self) -> (r: Range<u64>)
        ensures
            r == self@.range,
    {
        copy_range(&self.range)
    }

    /// The body carried a chunk.
    pub fn data<E>(self, chunk: Bytes) -> (r: Step<E>)
        ensures
            r@ == next::<E>(
                StreamView::Reading(self@),
                EventView::Data(chunk_bytes(chunk)),
            ),
    {
        let mut s = self;
        match s.range.start.checked_add(chunk.len() as u64) {
            Some(next) => {
                if next > s.range.end {
                    let expected: u64 = s.range.end;
                    return fail(
                        s.store,
                        StreamError::Get(GetResultError::BodyTooLong { expected }),
                    );
                }
                s.range = Range { start: next, end: s.range.end };
                Step::Deliver(chunk, s)
            },
            None => {
                let expected: u64 = s.range.end;
                fail(s.store, StreamError::Get(GetResultError::BodyTooLong { expected }))
            },
        }
    }

    /// The body carried a frame that is no data.
    pub fn other_frame<E>(self) -> (r: Step<E>)
        ensures
            r@ == next::<E>(StreamView::Reading(self@), EventView::OtherFrame),
    {
        Step::Read(self)
    }

    /// The body ended.
    pub fn end<E>(self) -> (r: Step<E>)
        ensures
            r@ == next::<E>(StreamView::Reading(self@), EventView::End),
    {
        if self.range.start == self.range.end {
            return Step::Finish;
        }
        match self.etag {
            Some(etag) => Step::JudgeEnd(
                Ended { transfer: Resumable { store: self.store, etag, range: self.range } },
            ),
            None => fail(
                self.store,
                StreamError::Get(
                    GetResultError::TruncatedBody {
                        expected: self.range.end,
                        actual: self.range.start,
                    },
                ),
            ),
        }
    }

    /// The body could not be read.
    pub fn failed<E>(self, error: E) -> (r: Step<E>)
        ensures
            r@ == next(StreamView::Reading(self@), EventView::BodyFailed(error)),
    {
        match self.etag {
            Some(etag) => Step::JudgeFailure(
                Failed {
                    transfer: Resumable { store: self.store, etag, range: self.range },
                    error: BodyError::Transport(error),
                },
            ),
            None => fail(self.store, StreamError::Body(BodyError::Transport(error))),
        }
    }
}

impl Ended {
    /// Retries are exhausted, or are not.
    pub fn judge<E>(self, exhausted: bool) -> (r: Step<E>)
        ensures
            r@ == next::<E>(StreamView::Ended(self@), EventView::Exhausted(exhausted)),
    {
        let expected: u64 = self.transfer.range.end;
        let actual: u64 = self.transfer.range.start;
        if exhausted {
            return fail(
                self.transfer.store,
                StreamError::Get(GetResultError::TruncatedBody { expected, actual }),
            );
        }
        Step::JudgeFailure(
            Failed { transfer: self.transfer, error: BodyError::Truncated { expected, actual } },
        )
    }
}

impl<E> Failed<E> {
    /// Retries are exhausted, or are not.
    pub fn judge(self, exhausted: bool) -> (r: Step<E>)
        ensures
            r@ == next(StreamView::Failed(self@.0, self@.1), EventView::Exhausted(exhausted)),
    {
        if exhausted {
            return fail(self.transfer.store, StreamError::Body(self.error));
        }
        Step::Wait(Waiting { transfer: self.transfer, error: self.error })
    }
}

impl<E> Waiting<E> {
    /// Why the body is requested again.
    pub fn error(&self) -> (r: &BodyError<E>)
        ensures
            *r == self@.1,
    {
        &self.error
    }

    /// The delay is over.
    pub fn slept(self) -> (r: Step<E>)
        ensures
            r@ == next(StreamView::Waiting(self@.0, self@.1), EventView::Slept),
            r matches Step::Request(request, _) && is_retry_of(request, self@.0),
    {
        let if_range: Option<IfRange> = if is_strong_etag(self.transfer.etag.as_str()) {
            Some(IfRange(self.transfer.etag.clone()))
        } else {
            None
        };
        let range = GetRange::Bounded(copy_range(&self.transfer.range));
        Step::Request(
            RetryRequest { range, if_range },
            Requesting { transfer: self.transfer, error: self.error },
        )
    }

    /// The retry could not be delayed.
    pub fn sleep_failed(self, error: RetryRuntimeError) -> (r: Step<E>)
        ensures
            r@ == next(StreamView::Waiting(self@.0, self@.1), EventView::SleepFailed),
    {
        fail(self.transfer.store, StreamError::Runtime(error))
    }
}

/// Skips what is left to be skipped, or goes on reading.
fn resume<E>(transfer: Resumable, actual: Range<u64>, left: u64) -> (r: Step<E>)
    ensures
        r@ == resumed::<E>(transfer@, actual, left),
{
    if left == 0 {
        Step::Read(
            Reading { store: transfer.store, etag: Some(transfer.etag), range: transfer.range },
        )
    } else {
        Step::Skip(Skipping { transfer, actual, left })
    }
}

impl<E> Requesting<E> {
    /// The retry was answered.
    pub fn reply(self, headers: &HeaderMap) -> (r: Step<E>)
        ensures
            r@ == next(
                StreamView::Requesting(self@.0, self@.1),
                EventView::Reply(header_fields(*headers)),
            ),
    {
        let transfer = self.transfer;
        let etag: String = match get_etag(headers) {
            Ok(etag) => etag,
            Err(e) => return fail(transfer.store, StreamError::Header(e)),
        };
        if !(transfer.etag == etag) {
            // Report what the retry was made for
            return fail(transfer.store, StreamError::Body(self.error));
        }
        let actual: Range<u64> = match validate_range_response(headers) {
            Ok(content_range) => content_range.range,
            Err(e) => return fail(transfer.store, StreamError::Get(e)),
        };
        if actual.start <= transfer.range.start && actual.end >= transfer.range.end {
            let left: u64 = transfer.range.start - actual.start;
            resume(transfer, actual, left)
        } else {
            fail(
                transfer.store,
                StreamError::Get(
                    GetResultError::UnexpectedRange { expected: transfer.range, actual },
                ),
            )
        }
    }

    /// The retry could not be requested.
    pub fn failed(self, error: E) -> (r: Step<E>)
        ensures
            r@ == next(
                StreamView::Requesting(self@.0, self@.1),
                EventView::RequestFailed(error),
            ),
    {
        fail(self.transfer.store, StreamError::Request(error))
    }
}

impl Skipping {
    /// The body carried a chunk.
    pub fn data<E>(self, chunk: Bytes) -> (r: Step<E>)
        ensures
            r@ == next::<E>(
                StreamView::Skipping(self@.0, self@.1, self@.2),
                EventView::Data(chunk_bytes(chunk)),
            ),
    {
        let n: u64 = chunk.len() as u64;
        if n <= self.left {
            resume(self.transfer, self.actual, self.left - n)
        } else {
            let keep = chunk_from(&chunk, self.left as usize);
            let transfer = self.transfer;
            let reading = Reading {
                store: transfer.store,
                etag: Some(transfer.etag),
                range: transfer.range,
            };
            reading.data(keep)
        }
    }

    /// The body carried a frame that is no data.
    pub fn other_frame<E>(self) -> (r: Step<E>)
        ensures
            r@ == next::<E>(
                StreamView::Skipping(self@.0, self@.1, self@.2),
                EventView::OtherFrame,
            ),
    {
        Step::Skip(self)
    }

    /// The body ended.
    pub fn end<E>(self) -> (r: Step<E>)
        ensures
            r@ == next::<E>(StreamView::Skipping(self@.0, self@.1, self@.2), EventView::End),
    {
        fail(
            self.transfer.store,
            StreamError::Get(
                GetResultError::UnexpectedRange {
                    expected: self.transfer.range,
                    actual: self.actual,
                },
            ),
        )
    }

    /// The body could not be read.
    pub fn failed<E>(self, error: E) -> (r: Step<E>)
        ensures
            r@ == next(
                StreamView::Skipping(self@.0, self@.1, self@.2),
                EventView::BodyFailed(error),
            ),
    {
        fail(self.transfer.store, StreamError::Body(BodyError::Transport(error)))
    }
}

} // verus!
