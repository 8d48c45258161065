use bytes::Bytes;
use http::{HeaderMap, HeaderName, HeaderValue};
use object_store_get::context::GetContext;
use object_store_get::get::ResponseParts;
use object_store_get::get_error::GetResultError;
use object_store_get::header::{self, HeaderConfig};
use object_store_get::range::GetRange;
use object_store_get::runtime::RetryRuntimeError;
use object_store_get::stream::{BodyError, Error, Reading, RetryRequest, Step, StreamError};
use std::collections::VecDeque;

/// What a body carries.
#[derive(Clone)]
enum Frame {
    Data(&'static [u8]),
    Trailers,
    Fail(&'static str),
}

/// A response to a retry.
struct Reply {
    headers: Vec<(&'static str, &'static str)>,
    body: Vec<Frame>,
}

/// What happened in a transfer.
struct Outcome {
    chunks: Vec<Vec<u8>>,
    requests: Vec<RetryRequest>,
    waits: usize,
    error: Option<StreamError<&'static str>>,
}

impl Outcome {
    fn bytes(&self) -> Vec<u8> {
        self.chunks.concat()
    }

    fn message(&self) -> String {
        match self.error.as_ref().unwrap() {
            StreamError::Get(e) => e.to_string(),
            StreamError::Header(e) => e.to_string(),
            StreamError::Body(BodyError::Transport(e)) => e.to_string(),
            StreamError::Body(BodyError::Truncated { expected, actual }) => {
                GetResultError::TruncatedBody {
                    expected: *expected,
                    actual: *actual,
                }
                .to_string()
            }
            StreamError::Runtime(e) => e.to_string(),
            StreamError::Request(e) => e.to_string(),
        }
    }
}

fn header_map(fields: &[(&'static str, &'static str)]) -> HeaderMap {
    let mut map = HeaderMap::new();
    for (name, value) in fields {
        map.append(
            HeaderName::from_bytes(name.as_bytes()).unwrap(),
            HeaderValue::from_bytes(value.as_bytes()).unwrap(),
        );
    }
    map
}

/// Runs the transfer of an object of `size` bytes with at most `retries` retries.
fn transfer(
    etag: Option<&str>,
    size: u64,
    body: Vec<Frame>,
    replies: Vec<Reply>,
    retries: usize,
) -> Outcome {
    let start = Reading::new("mem", etag.map(|tag| tag.to_string()), 0..size);
    drive(start, body, replies, retries)
}

/// Runs a transfer with at most `retries` retries.
fn drive(start: Reading, body: Vec<Frame>, replies: Vec<Reply>, retries: usize) -> Outcome {
    let mut body: VecDeque<Frame> = body.into();
    let mut replies: VecDeque<Reply> = replies.into();
    let mut out = Outcome {
        chunks: vec![],
        requests: vec![],
        waits: 0,
        error: None,
    };
    let mut step: Step<&'static str> = Step::Read(start);
    loop {
        step = match step {
            Step::Read(s) => match body.pop_front() {
                None => s.end(),
                Some(Frame::Data(b)) => s.data(Bytes::from_static(b)),
                Some(Frame::Trailers) => s.other_frame(),
                Some(Frame::Fail(e)) => s.failed(e),
            },
            Step::Deliver(chunk, s) => {
                out.chunks.push(chunk.to_vec());
                Step::Read(s)
            }
            Step::JudgeEnd(s) => s.judge(out.waits >= retries),
            Step::JudgeFailure(s) => s.judge(out.waits >= retries),
            Step::Wait(s) => {
                out.waits += 1;
                s.slept()
            }
            Step::Request(request, s) => {
                out.requests.push(request);
                match replies.pop_front() {
                    Some(reply) => {
                        body = reply.body.into();
                        s.reply(&header_map(&reply.headers))
                    }
                    None => s.failed("no reply"),
                }
            }
            Step::Skip(s) => match body.pop_front() {
                None => s.end(),
                Some(Frame::Data(b)) => s.data(Bytes::from_static(b)),
                Some(Frame::Trailers) => s.other_frame(),
                Some(Frame::Fail(e)) => s.failed(e),
            },
            Step::Finish => return out,
            Step::Fail(Error::Generic { store, source }) => {
                assert_eq!(store, "mem");
                out.error = Some(source);
                return out;
            }
        }
    }
}

fn reply(
    length: &'static str,
    range: &'static str,
    etag: &'static str,
    body: Vec<Frame>,
) -> Reply {
    Reply {
        headers: vec![
            ("content-length", length),
            ("content-range", range),
            ("etag", etag),
        ],
        body,
    }
}

fn asked(request: &RetryRequest) -> (u64, u64, Option<&str>) {
    let GetRange::Bounded(range) = &request.range else {
        panic!("unbounded retry");
    };
    let tag = request.if_range.as_ref().map(|tag| tag.0.as_str());
    (range.start, range.end, tag)
}

#[test]
fn retries_a_clean_eof_before_the_declared_body_length() {
    let out = transfer(
        Some("\"abc\""),
        10,
        vec![Frame::Data(b"hello")],
        vec![reply(
            "5",
            "bytes 5-9/10",
            "\"abc\"",
            vec![Frame::Data(b"world")],
        )],
        3,
    );
    assert!(out.error.is_none());
    assert_eq!(out.bytes(), b"helloworld");
    assert_eq!(out.requests.len(), 1);
    assert_eq!(asked(&out.requests[0]), (5, 10, Some("\"abc\"")));
}

#[test]
fn truncated_body_is_not_retried_without_a_valid_strong_etag() {
    for etag in [
        None,
        Some("W/\"abc\""),
        Some("abc"),
        Some("\"abc\",\"other\""),
    ] {
        let out = transfer(etag, 10, vec![Frame::Data(b"hello")], vec![], 3);
        assert!(
            out.message()
                .contains("Response body ended at byte 5, expected byte 10"),
            "unexpected error for ETag {etag:?}: {}",
            out.message()
        );
        assert_eq!(out.requests.len(), 0);
    }
}

#[test]
fn a_body_is_read_to_its_end() {
    let out = transfer(
        Some("123"),
        11,
        vec![
            Frame::Data(b"Hello"),
            Frame::Data(b""),
            Frame::Trailers,
            Frame::Data(b" World"),
        ],
        vec![],
        3,
    );
    assert!(out.error.is_none());
    assert_eq!(out.bytes(), b"Hello World");
    assert_eq!(out.chunks.len(), 3);
}

#[test]
fn a_body_error_is_retried_with_the_rest() {
    let out = transfer(
        Some("\"123\""),
        10,
        vec![Frame::Data(b"banana"), Frame::Fail("reset")],
        vec![reply(
            "4",
            "bytes 6-9/10",
            "\"123\"",
            vec![Frame::Data(b"1234")],
        )],
        3,
    );
    assert!(out.error.is_none());
    assert_eq!(out.bytes(), b"banana1234");
    assert_eq!(asked(&out.requests[0]), (6, 10, Some("\"123\"")));
}

#[test]
fn a_body_is_retried_several_times() {
    let out = transfer(
        Some("\"foo\""),
        20,
        vec![Frame::Data(b"hello"), Frame::Fail("reset")],
        vec![
            reply(
                "15",
                "bytes 5-19/20",
                "\"foo\"",
                vec![Frame::Data(b"baz"), Frame::Fail("reset")],
            ),
            reply(
                "12",
                "bytes 8-19/20",
                "\"foo\"",
                vec![Frame::Data(b"123456789012")],
            ),
        ],
        3,
    );
    assert!(out.error.is_none());
    assert_eq!(out.bytes(), b"hellobaz123456789012");
    assert_eq!(asked(&out.requests[0]), (5, 20, Some("\"foo\"")));
    assert_eq!(asked(&out.requests[1]), (8, 20, Some("\"foo\"")));
}

#[test]
fn another_representation_is_not_resumed() {
    let out = transfer(
        Some("\"foo\""),
        12,
        vec![Frame::Data(b"test"), Frame::Fail("reset")],
        vec![reply(
            "8",
            "bytes 4-11/12",
            "\"baz\"",
            vec![Frame::Data(b"12345678")],
        )],
        3,
    );
    assert_eq!(out.bytes(), b"test");
    assert!(matches!(
        out.error,
        Some(StreamError::Body(BodyError::Transport("reset")))
    ));

    let out = transfer(
        Some("\"foo\""),
        12,
        vec![Frame::Data(b"test")],
        vec![reply("8", "bytes 4-11/12", "\"baz\"", vec![])],
        3,
    );
    assert!(matches!(
        out.error,
        Some(StreamError::Body(BodyError::Truncated {
            expected: 12,
            actual: 4
        }))
    ));
}

#[test]
fn a_longer_reply_is_skipped_to_the_rest() {
    // In one chunk
    let out = transfer(
        Some("\"abc\""),
        10,
        vec![Frame::Data(b"hello"), Frame::Fail("reset")],
        vec![reply(
            "10",
            "bytes 0-9/10",
            "\"abc\"",
            vec![Frame::Data(b"helloworld")],
        )],
        3,
    );
    assert!(out.error.is_none());
    assert_eq!(out.bytes(), b"helloworld");

    // With a chunk that ends where the rest starts
    let out = transfer(
        Some("\"abc\""),
        10,
        vec![Frame::Data(b"hello"), Frame::Fail("reset")],
        vec![reply(
            "8",
            "bytes 2-9/10",
            "\"abc\"",
            vec![
                Frame::Trailers,
                Frame::Data(b"l"),
                Frame::Data(b""),
                Frame::Data(b"lo"),
                Frame::Data(b"world"),
            ],
        )],
        3,
    );
    assert!(out.error.is_none());
    assert_eq!(out.bytes(), b"helloworld");
}

#[test]
fn a_reply_that_ends_before_the_rest_is_refused() {
    let out = transfer(
        Some("\"abc\""),
        10,
        vec![Frame::Data(b"hello"), Frame::Fail("reset")],
        vec![reply(
            "10",
            "bytes 0-9/10",
            "\"abc\"",
            vec![Frame::Data(b"hel")],
        )],
        3,
    );
    assert_eq!(out.message(), "Requested 5..10, got 0..10");

    let out = transfer(
        Some("\"abc\""),
        10,
        vec![Frame::Data(b"hello"), Frame::Fail("reset")],
        vec![reply(
            "10",
            "bytes 0-9/10",
            "\"abc\"",
            vec![Frame::Fail("again")],
        )],
        3,
    );
    assert!(matches!(
        out.error,
        Some(StreamError::Body(BodyError::Transport("again")))
    ));
}

#[test]
fn a_reply_that_does_not_cover_the_rest_is_refused() {
    for (length, range, message) in [
        ("4", "bytes 6-9/10", "Requested 5..10, got 6..10"),
        ("4", "bytes 5-8/10", "Requested 5..10, got 5..9"),
        ("3", "bytes 5-9/10", "Range response declared 3 bytes for Content-Range 5..10"),
    ] {
        let out = transfer(
            Some("\"abc\""),
            10,
            vec![Frame::Data(b"hello"), Frame::Fail("reset")],
            vec![reply(length, range, "\"abc\"", vec![])],
            3,
        );
        assert_eq!(out.message(), message);
        assert_eq!(out.bytes(), b"hello");
    }
}

#[test]
fn a_reply_without_an_etag_is_refused() {
    let out = transfer(
        Some("\"abc\""),
        10,
        vec![Frame::Fail("reset")],
        vec![Reply {
            headers: vec![("content-length", "10"), ("content-range", "bytes 0-9/10")],
            body: vec![],
        }],
        3,
    );
    assert!(matches!(
        out.error,
        Some(StreamError::Header(header::Error::MissingEtag))
    ));
}

#[test]
fn a_body_that_is_too_long_is_refused() {
    let out = transfer(
        Some("\"abc\""),
        4,
        vec![Frame::Data(b"hello")],
        vec![],
        3,
    );
    assert_eq!(
        out.message(),
        "Response body exceeded expected end byte 4"
    );
    assert!(out.chunks.is_empty());

    let out = transfer(
        Some("\"abc\""),
        6,
        vec![Frame::Data(b"hello"), Frame::Fail("reset")],
        vec![reply(
            "7",
            "bytes 0-6/7",
            "\"abc\"",
            vec![Frame::Data(b"hello!!")],
        )],
        3,
    );
    assert_eq!(
        out.message(),
        "Response body exceeded expected end byte 6"
    );
    assert_eq!(out.bytes(), b"hello");
}

#[test]
fn exhausted_retries_report_the_error() {
    let out = transfer(Some("\"abc\""), 4, vec![Frame::Fail("reset")], vec![], 0);
    assert!(matches!(
        out.error,
        Some(StreamError::Body(BodyError::Transport("reset")))
    ));
    let out = transfer(Some("\"abc\""), 4, vec![], vec![], 0);
    assert!(matches!(
        out.error,
        Some(StreamError::Get(GetResultError::TruncatedBody {
            expected: 4,
            actual: 0
        }))
    ));

    // Retries run out between the end of the body and the retry
    let start = Reading::new("mem", Some("\"abc\"".to_string()), 0..4);
    let Step::JudgeEnd(ended) = start.end::<&str>() else {
        panic!("not resumable");
    };
    let Step::JudgeFailure(failed) = ended.judge::<&str>(false) else {
        panic!("not retried");
    };
    assert!(matches!(
        failed.judge(true),
        Step::Fail(Error::Generic {
            store: "mem",
            source: StreamError::Body(BodyError::Truncated {
                expected: 4,
                actual: 0
            })
        })
    ));
}

#[test]
fn a_retry_that_cannot_be_made_is_reported() {
    let out = transfer(Some("\"abc\""), 4, vec![Frame::Fail("reset")], vec![], 1);
    assert!(matches!(out.error, Some(StreamError::Request("no reply"))));

    let start = Reading::new("mem", Some("\"abc\"".to_string()), 0..4);
    let Step::JudgeFailure(failed) = start.failed("reset") else {
        panic!("not resumable");
    };
    let Step::Wait(waiting) = failed.judge(false) else {
        panic!("not retried");
    };
    assert!(matches!(waiting.error(), BodyError::Transport("reset")));
    assert!(matches!(
        waiting.sleep_failed(RetryRuntimeError),
        Step::Fail(Error::Generic {
            source: StreamError::Runtime(RetryRuntimeError),
            ..
        })
    ));
}

#[test]
fn a_range_is_retrieved_through_a_retry() {
    let ctx = GetContext {
        store: "mem",
        header_config: HeaderConfig {
            etag_required: true,
            last_modified_required: false,
            version_header: None,
            user_defined_metadata_prefix: None,
        },
        location: "test".to_string(),
        range: Some(GetRange::Bounded(6..11)),
        options: (),
    };
    let result = ctx
        .get_result(ResponseParts {
            status: 206,
            headers: header_map(&[
                ("content-length", "5"),
                ("content-range", "bytes 6-10/12"),
                ("etag", "\"123\""),
            ]),
            extensions: (),
        })
        .unwrap();
    let out = drive(
        result.stream,
        vec![Frame::Data(b"Wo")],
        vec![reply(
            "3",
            "bytes 8-10/12",
            "\"123\"",
            vec![Frame::Data(b"rld")],
        )],
        3,
    );
    assert!(out.error.is_none());
    assert_eq!(out.bytes(), b"World");
    assert_eq!(asked(&out.requests[0]), (8, 11, Some("\"123\"")));
}

#[test]
fn a_retry_asks_for_the_same_but_for_range_and_validator() {
    let ctx = GetContext {
        store: "mem",
        header_config: HeaderConfig {
            etag_required: true,
            last_modified_required: false,
            version_header: None,
            user_defined_metadata_prefix: None,
        },
        location: "a/b".to_string(),
        range: Some(GetRange::Offset(6)),
        options: "version 7",
    };
    let first = ctx.first_request().unwrap();
    assert_eq!(first.location, "a/b");
    assert!(matches!(first.range, Some(GetRange::Offset(6))));
    assert!(first.if_range.is_none());
    assert_eq!(*first.options, "version 7");

    let stream = ctx.retry_stream(Some("\"123\"".to_string()), 6..11);
    let out = drive(stream, vec![Frame::Data(b"Wo")], vec![], 1);
    for retry in out.requests {
        let request = ctx.retry_request(retry);
        assert_eq!(request.location, "a/b");
        assert!(matches!(request.range, Some(GetRange::Bounded(r)) if r == (8..11)));
        assert_eq!(request.if_range.unwrap().0, "\"123\"");
        assert_eq!(*request.options, "version 7");
    }
    assert_eq!(out.waits, 1);
}

#[test]
fn frames_that_are_no_data_do_not_matter() {
    let run = |other: bool| {
        let frames = |body: Vec<Frame>| -> Vec<Frame> {
            let mut all = vec![];
            for frame in body {
                if other {
                    all.push(Frame::Trailers);
                }
                all.push(frame);
            }
            all
        };
        transfer(
            Some("\"abc\""),
            10,
            frames(vec![Frame::Data(b"he"), Frame::Data(b"llo"), Frame::Fail("reset")]),
            vec![reply(
                "7",
                "bytes 3-9/10",
                "\"abc\"",
                frames(vec![Frame::Data(b"l"), Frame::Data(b"ow"), Frame::Data(b"orld")]),
            )],
            3,
        )
    };
    let chunks: [&[u8]; 4] = [b"he", b"llo", b"w", b"orld"];
    for other in [false, true] {
        let out = run(other);
        assert!(out.error.is_none());
        assert_eq!(out.chunks, chunks);
        assert_eq!(out.bytes(), b"helloworld");
    }
}
