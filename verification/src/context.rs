//! One request for an object: what is asked for, and what becomes of the response.

use crate::attributes::{AttributeView, Attributes};
use crate::fields::{header_fields, Field};
use crate::get::{get_range_meta, range_meta_of, strong_etag, ResponseParts};
use crate::get_attributes::{attributes_fault, attributes_of, get_attributes};
use crate::get_error::{GetResultError, GetResultErrorView};
use crate::get_laws::law_accepted_range;
use crate::header::{HeaderConfig, ObjectMeta, ObjectMetaView};
use crate::range::{copy_range, GetRange, InvalidGetRange};
use crate::stream::{
    is_retry_of, new_transfer, BodyError, Error, EventView, IfRange, Reading, ResumableView,
    RetryRequest, StreamView, TransferView,
};
use crate::stream_laws::{all_faithful, law_delivery, law_retry_asks_for_the_rest, run};
use crate::views::option_view;
use std::ops::Range;
use vstd::prelude::*;

verus! {

/// One request for an object.
#[derive(Debug)]
pub struct GetContext<O> {
    /// The name of the store.
    pub store: &'static str,
    /// How the store uses header fields.
    pub header_config: HeaderConfig,
    /// Where the object is.
    pub location: String,
    /// The part of the object that is asked for, or all of it.
    pub range: Option<GetRange>,
    /// What else is asked for, which is handed on as it is.
    pub options: O,
}

/// What the client is told to request.
#[derive(Debug)]
pub struct GetRequest<'a, O> {
    /// Where the object is.
    pub location: &'a str,
    /// The part of the object that is asked for, or all of it.
    pub range: Option<GetRange>,
    /// The validator of a retry.
    pub if_range: Option<IfRange>,
    /// What else is asked for.
    pub options: &'a O,
}

/// An object, of which the body is still to be read.
#[derive(Debug)]
pub struct GetResult<X> {
    /// The transfer of the body.
    pub stream: Reading,
    /// What is known of the object.
    pub meta: ObjectMeta,
    /// The range of the object that the body carries.
    pub range: Range<u64>,
    /// The attributes of the object.
    pub attributes: Attributes,
    /// What else came with the response.
    pub extensions: X,
}

/// An object, of which the body is still to be read, but for what else came with the response.
pub struct GetResultView {
    pub stream: TransferView,
    pub meta: ObjectMetaView,
    pub range: Range<u64>,
    pub attributes: Map<AttributeView, Seq<char>>,
}

impl<X> View for GetResult<X> {
    type V = GetResultView;

    open spec fn view(&self) -> GetResultView {
        GetResultView {
            stream: self.stream@,
            meta: self.meta@,
            range: self.range,
            attributes: self.attributes@,
        }
    }
}

/// Why a range can never be met, if it is asked for.
pub open spec fn range_fault(range: Option<GetRange>) -> Option<InvalidGetRange> {
    match range {
        Some(range) => range.fault(),
        None => None,
    }
}

impl<O> GetContext<O> {
    /// What a response gives: the object, if the response is acceptable and all its attributes are
    /// text.
    pub open spec fn result_of(self, status: u16, fields: Seq<Field>) -> Result<
        GetResultView,
        GetResultErrorView,
    > {
        match range_meta_of(self.header_config, self.location@, self.range, status, fields) {
            Err(e) => Err(e),
            Ok((range, meta)) => match attributes_fault(fields, self.header_config) {
                Some(e) => Err(e),
                None => Ok(
                    GetResultView {
                        stream: new_transfer(self.store@, meta.e_tag, range),
                        meta,
                        range,
                        attributes: attributes_of(fields, self.header_config),
                    },
                ),
            },
        }
    }

    /// A request for the object, with this range and this validator, that asks for nothing else than
    /// the context does.
    pub open spec fn is_request(
        self,
        request: GetRequest<O>,
        range: Option<GetRange>,
        if_range: Option<IfRange>,
    ) -> bool {
        &&& request.location@ == self.location@
        &&& *request.options == self.options
        &&& request.range == range
        &&& request.if_range == if_range
    }

    /// What the client is told to request first. A range that can never be met is refused, and nothing
    /// is requested.
    pub fn first_request(&self) -> (r: Result<GetRequest<'_, O>, Error<InvalidGetRange>>)
        ensures
            match range_fault(self.range) {
                Some(fault) => r matches Err(e) && e == (Error::Generic {
                    store: self.store,
                    source: fault,
                }),
                None => r matches Ok(request) && self.is_request(request, self.range, None),
            },
    {
        let range: Option<GetRange> = match &self.range {
            Some(range) => {
                match range.is_valid() {
                    Ok(()) => {},
                    Err(e) => return Err(self.err(e)),
                }
                Some(range.clone())
            },
            None => None,
        };
        Ok(
            GetRequest {
                location: self.location.as_str(),
                range,
                if_range: None,
                options: &self.options,
            },
        )
    }

    /// What the client is told to request for a retry.
    pub fn retry_request(&self, retry: RetryRequest) -> (r: GetRequest<'_, O>)
        ensures
            self.is_request(r, Some(retry.range), retry.if_range),
    {
        GetRequest {
            location: self.location.as_str(),
            range: Some(retry.range),
            if_range: retry.if_range,
            options: &self.options,
        }
    }

    /// The error of the store, from what went wrong.
    pub fn err<E>(&self, e: E) -> (r: Error<E>)
        ensures
            r == (Error::Generic { store: self.store, source: e }),
    {
        Error::Generic { store: self.store, source: e }
    }

    /// What the response gives.
    pub fn get_result<X>(&self, response: ResponseParts<X>) -> (r: Result<
        GetResult<X>,
        Error<GetResultError>,
    >)
        ensures
            match self.result_of(response.status, header_fields(response.headers)) {
                Ok(result) => r matches Ok(found) && found@ == result && found.extensions
                    == response.extensions,
                Err(fault) => r matches Err(Error::Generic { store, source }) && store == self.store
                    && source@ == fault,
            },
    {
        let (range, meta) = match get_range_meta(
            self.header_config,
            self.location.as_str(),
            self.range.as_ref(),
            &response,
        ) {
            Ok(found) => found,
            Err(e) => return Err(self.err(e)),
        };
        let attributes = match get_attributes(self.header_config, &response.headers) {
            Ok(attributes) => attributes,
            Err(e) => return Err(self.err(e)),
        };
        let etag: Option<String> = match &meta.e_tag {
            Some(tag) => Some(tag.clone()),
            None => None,
        };
        let stream = self.retry_stream(etag, copy_range(&range));
        Ok(GetResult { stream, meta, range, attributes, extensions: response.extensions })
    }

    /// The transfer of a body that carries `range` of the object. It is resumed where it breaks off
    /// only if the entity tag is strong.
    pub fn retry_stream(&self, etag: Option<String>, range: Range<u64>) -> (r: Reading)
        ensures
            r@ == new_transfer(self.store@, option_view(etag), range),
    {
        Reading::new(self.store, etag, range)
    }
}

/// A response gives an object exactly if it is accepted and no attribute is at fault. The object has
/// the range and the description that the response is accepted with, and the attributes that its
/// fields give. Its transfer is that of the store, starts with the whole range, and has the entity
/// tag of the object exactly if there is one and it is strong.
pub proof fn law_result<O>(
    context: GetContext<O>,
    status: u16,
    fields: Seq<Field>,
    result: GetResultView,
)
    ensures
        context.result_of(status, fields) == Ok::<GetResultView, GetResultErrorView>(result) <==> {
            &&& range_meta_of(
                context.header_config,
                context.location@,
                context.range,
                status,
                fields,
            ) == Ok::<(Range<u64>, ObjectMetaView), GetResultErrorView>((result.range, result.meta))
            &&& attributes_fault(fields, context.header_config) is None
            &&& result.attributes == attributes_of(fields, context.header_config)
            &&& result.stream.store == context.store@
            &&& result.stream.range == result.range
            &&& result.stream.etag is Some <==> (result.meta.e_tag matches Some(tag) && strong_etag(
                tag,
            ))
            &&& result.stream.etag is Some ==> result.stream.etag == result.meta.e_tag
        },
{
}

/// The view of an object has each value in its place.
pub proof fn law_result_keeps_its_values<X>(result: GetResult<X>)
    ensures
        result@.stream == result.stream@,
        result@.meta == result.meta@,
        result@.range == result.range,
        result@.attributes == result.attributes@,
{
}

/// What is reported of a response that gives no object: why it is not accepted, or else the fault of
/// its attributes.
pub proof fn law_result_errors<O>(context: GetContext<O>, status: u16, fields: Seq<Field>)
    ensures
        match range_meta_of(
            context.header_config,
            context.location@,
            context.range,
            status,
            fields,
        ) {
            Err(e) => context.result_of(status, fields) == Err::<GetResultView, GetResultErrorView>(
                e,
            ),
            Ok(_) => attributes_fault(fields, context.header_config) matches Some(e)
                ==> context.result_of(status, fields) == Err::<GetResultView, GetResultErrorView>(
                e,
            ),
        },
{
}

/// Nothing is wrong with a request for all of an object, and with a request for a range exactly what
/// is wrong with the range: that it ends before it has begun, or is longer than a buffer can be.
pub proof fn law_range_faults(range: Option<GetRange>)
    ensures
        range_fault(range) is Some <==> (range matches Some(GetRange::Bounded(r)) && (r.start
            >= r.end || r.end - r.start > usize::MAX)),
        range matches Some(asked) ==> range_fault(range) == asked.fault(),
{
}

/// The first request is made exactly if nothing is wrong with the range that is asked for. It then
/// asks for just that range, of the object of the context and with its options, and has no
/// validator. Else the error names the store and what is wrong.
pub proof fn law_first_request<O>(
    context: GetContext<O>,
    r: Result<GetRequest<'static, O>, Error<InvalidGetRange>>,
)
    requires
        call_ensures(GetContext::<O>::first_request, (&context,), r),
    ensures
        r is Ok <==> (context.range matches Some(asked) ==> asked.fault() is None),
        r matches Ok(request) ==> {
            &&& request.location@ == context.location@
            &&& request.range == context.range
            &&& request.if_range is None
            &&& *request.options == context.options
        },
        r matches Err(Error::Generic { store, source }) ==> {
            &&& store == context.store
            &&& context.range matches Some(asked) && asked.fault() == Some(source)
        },
{
}

/// What came with the response beside its status and its fields is handed on as it is, and has no
/// part in what is made of the response.
pub proof fn law_extensions_are_handed_on<O, X>(
    context: GetContext<O>,
    response: ResponseParts<X>,
    r: Result<GetResult<X>, Error<GetResultError>>,
)
    requires
        call_ensures(GetContext::<O>::get_result::<X>, (&context, response), r),
    ensures
        r is Ok <==> context.result_of(response.status, header_fields(response.headers)) is Ok,
        r matches Ok(found) ==> found.extensions == response.extensions,
{
}

/// A request is for the object of the context, with the range and the validator that it is made for
/// and with the options of the context, and whatever is so is such a request.
pub proof fn law_requests<O>(
    context: GetContext<O>,
    request: GetRequest<O>,
    range: Option<GetRange>,
    if_range: Option<IfRange>,
)
    ensures
        context.is_request(request, range, if_range) <==> request.location@ == context.location@
            && *request.options == context.options && request.range == range && request.if_range
            == if_range,
{
}

/// The transfer of an accepted response starts with the range that it was accepted with, which lies
/// within the object. It keeps the entity tag of the object if that is strong, and no other.
pub proof fn law_transfer_of_a_result<O>(
    context: GetContext<O>,
    status: u16,
    fields: Seq<Field>,
)
    ensures
        context.result_of(status, fields) matches Ok(result) ==> {
            &&& result.stream.range == result.range
            &&& result.range.start <= result.range.end <= result.meta.size
            &&& result.stream.etag matches Some(tag) ==> strong_etag(tag) && result.meta.e_tag
                == Some(tag)
        },
{
    law_accepted_range(context.header_config, context.location@, context.range, status, fields);
}

/// An object is retrieved as it is: where the response is accepted and the transfer of its body ends
/// without an error, exactly the bytes of the accepted range were delivered, in order, however
/// often the body broke off, provided that each body is a faithful copy of the object.
pub proof fn law_retrieval<O, E>(
    context: GetContext<O>,
    status: u16,
    fields: Seq<Field>,
    result: GetResultView,
    object: Seq<u8>,
    events: Seq<EventView<E>>,
)
    requires
        context.result_of(status, fields) == Ok::<GetResultView, GetResultErrorView>(result),
        object.len() == result.meta.size,
        all_faithful(object, StreamView::Reading(result.stream), events),
        run(StreamView::Reading(result.stream), events).0 is Finished,
    ensures
        run(StreamView::Reading(result.stream), events).1 == object.subrange(
            result.range.start as int,
            result.range.end as int,
        ),
{
    law_transfer_of_a_result(context, status, fields);
    law_delivery(object, result.stream, events);
}

/// Every retry, the first or a later one, is for the same object and asks for the same as the first
/// request, but for two things: its range is what was not delivered yet of the accepted range, and
/// its validator is the entity tag of the object, which is strong.
pub proof fn law_retry_request<O, E>(
    context: GetContext<O>,
    status: u16,
    fields: Seq<Field>,
    result: GetResultView,
    events: Seq<EventView<E>>,
    now: ResumableView,
    error: BodyError<E>,
    retry: RetryRequest,
    request: GetRequest<O>,
)
    requires
        context.result_of(status, fields) == Ok::<GetResultView, GetResultErrorView>(result),
        run(StreamView::Reading(result.stream), events).0 == StreamView::Waiting(now, error),
        is_retry_of(retry, now),
        context.is_request(request, Some(retry.range), retry.if_range),
    ensures
        request.location@ == context.location@,
        *request.options == context.options,
        request.range == Some(
            GetRange::Bounded(
                Range {
                    start: (result.range.start + run(
                        StreamView::Reading(result.stream),
                        events,
                    ).1.len()) as u64,
                    end: result.range.end,
                },
            ),
        ),
        request.if_range matches Some(tag) && strong_etag(tag.0@) && result.meta.e_tag == Some(
            tag.0@,
        ),
{
    law_transfer_of_a_result(context, status, fields);
    law_retry_asks_for_the_rest(result.stream, events, now, error, retry);
}

} // verus!
