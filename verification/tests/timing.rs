use object_store_get::backoff::{Backoff, Jitter};
use object_store_get::decimal::{parse_u64, u64_to_string, ParseNumberError};
use object_store_get::runtime::{Delay, Host, RetryRuntime};
use object_store_get::text::{eq_ignore_ascii_case, split_once, strip_prefix, trim};
use rand::rand_core::utils::fill_bytes_via_next_word;
use rand::{Rng, RngExt, TryRng};
use std::convert::Infallible;
use std::time::Duration;

struct FixedRng(u64);

impl TryRng for FixedRng {
    type Error = Infallible;

    fn try_next_u32(&mut self) -> Result<u32, Self::Error> {
        Ok(self.0 as _)
    }

    fn try_next_u64(&mut self) -> Result<u64, Self::Error> {
        Ok(self.0)
    }

    fn try_fill_bytes(&mut self, dst: &mut [u8]) -> Result<(), Self::Error> {
        fill_bytes_via_next_word(dst, || self.try_next_u64())
    }
}

/// Durations in seconds are never negative here, so that their bits are ordered as they are.
fn key(secs: f64) -> u64 {
    secs.to_bits()
}

fn next(backoff: &mut Backoff, base: f64, rng: Option<&mut dyn Rng>) -> Duration {
    let start = f64::from_bits(backoff.init_backoff());
    let end = f64::from_bits(backoff.next_backoff()) * base;
    let drawn = match (backoff.jitter(), rng) {
        (Jitter::Deterministic, _) => (start + end) / 2.,
        (Jitter::Random, Some(mut rng)) => (&mut rng).random_range(start..end),
        _ => panic!("no source of draws"),
    };
    Duration::from_secs_f64(f64::from_bits(backoff.next(key(drawn))))
}

#[test]
fn test_backoff() {
    let init_backoff_secs = 1.;
    let max_backoff_secs = 500.;
    let base = 3f64;

    let assert_fuzzy_eq = |a: f64, b: f64| assert!((b - a).abs() < 0.0001, "{a} != {b}");

    // Create a static rng that takes the minimum of the range
    let mut rng = FixedRng(0);
    let mut backoff = Backoff::new_randomized(key(init_backoff_secs), key(max_backoff_secs));

    for _ in 0..20 {
        let value = next(&mut backoff, base, Some(&mut rng));
        assert_eq!(value.as_secs_f64(), init_backoff_secs);
    }

    // Create a static rng that takes the maximum of the range
    let mut rng = FixedRng(u64::MAX);
    let mut backoff = Backoff::new_randomized(key(init_backoff_secs), key(max_backoff_secs));

    for i in 0..20 {
        let value = (base.powi(i) * init_backoff_secs).min(max_backoff_secs);
        assert_fuzzy_eq(
            next(&mut backoff, base, Some(&mut rng)).as_secs_f64(),
            value,
        );
    }

    // Create a static rng that takes the mid point of the range
    let mut rng = FixedRng(u64::MAX / 2);
    let mut backoff = Backoff::new_randomized(key(init_backoff_secs), key(max_backoff_secs));

    let mut value = init_backoff_secs;
    for _ in 0..20 {
        assert_fuzzy_eq(
            next(&mut backoff, base, Some(&mut rng)).as_secs_f64(),
            value,
        );
        value = (init_backoff_secs + (value * base - init_backoff_secs) / 2.).min(max_backoff_secs);
    }
}

#[test]
fn test_host_neutral_backoff_is_deterministic() {
    let init = key(Duration::from_millis(10).as_secs_f64());
    let max = key(Duration::from_secs(1).as_secs_f64());
    let mut left = Backoff::new(init, max);
    let mut right = Backoff::new(init, max);

    for _ in 0..16 {
        assert_eq!(next(&mut left, 2., None), next(&mut right, 2., None));
    }
}

#[test]
fn backoffs_follow_the_draws() {
    let mut backoff = Backoff::new_web(10, 50);
    assert_eq!(backoff.jitter(), Jitter::Web);
    assert_eq!(backoff.init_backoff(), 10);
    assert_eq!(backoff.next(20), 10);
    assert_eq!(backoff.next_backoff(), 20);
    assert_eq!(backoff.next(70), 20);
    assert_eq!(backoff.next(50), 50);
    assert_eq!(backoff.next(10), 50);
    assert_eq!(backoff.next(10), 10);
    // The first backoff is not capped
    let mut backoff = Backoff::new_with_jitter(60, 50, Jitter::Random);
    assert_eq!(backoff.next(60), 60);
    assert_eq!(backoff.next(60), 50);
}

#[test]
fn host_neutral_runtime_rejects_delayed_retry() {
    let runtime = RetryRuntime::new(false, false);
    let error = runtime
        .sleep(Duration::from_millis(1).as_nanos())
        .expect_err("host-neutral delayed retry unexpectedly succeeded");
    assert!(error.to_string().contains("delayed retry requires"));
}

#[test]
fn the_browser_comes_first() {
    assert_eq!(RetryRuntime::new(true, true).host, Host::Web);
    assert_eq!(RetryRuntime::new(true, false).host, Host::Web);
    assert_eq!(RetryRuntime::new(false, true).host, Host::Native);
    assert_eq!(RetryRuntime::new(false, false).host, Host::Unsupported);
    assert_eq!(RetryRuntime::new(false, true).elapsed(7), 7);
    assert_eq!(RetryRuntime::new(true, false).elapsed(7), 7);
    assert_eq!(RetryRuntime::new(false, false).elapsed(7), 0);
    assert!(matches!(
        RetryRuntime::new(false, true).sleep(0),
        Ok(Delay::Timer(0))
    ));
}

fn timeouts(millis: u128) -> Vec<u32> {
    timeouts_of_nanos(millis * 1_000_000)
}

fn timeouts_of_nanos(nanos: u128) -> Vec<u32> {
    let Ok(Delay::Timeouts(mut timeouts)) = RetryRuntime::new(true, false).sleep(nanos) else {
        panic!("no timeouts");
    };
    let mut all = vec![];
    while let Some(timeout) = timeouts.next() {
        all.push(timeout);
    }
    all
}

#[test]
fn a_long_delay_takes_several_timeouts() {
    assert_eq!(timeouts(0), [1]);
    assert_eq!(timeouts(25), [25]);
    let max = u32::MAX as u128;
    assert_eq!(timeouts(max), [u32::MAX]);
    assert_eq!(timeouts(2 * max + 3), [u32::MAX, u32::MAX, 3]);
    // A fraction of a millisecond is waited for only if there is nothing else
    assert_eq!(timeouts_of_nanos(999_999), [1]);
    assert_eq!(timeouts_of_nanos(2_999_999), [2]);
}

#[test]
fn a_native_delay_takes_the_whole_time() {
    let runtime = RetryRuntime::new(false, true);
    for nanos in [0, 1, 2_999_999, Duration::MAX.as_nanos()] {
        assert!(matches!(runtime.sleep(nanos), Ok(Delay::Timer(n)) if n == nanos));
    }
}

#[test]
fn elapsed_time_never_decreases() {
    for (web, native) in [(true, false), (false, true), (false, false)] {
        let runtime = RetryRuntime::new(web, native);
        let mut last = 0;
        for clock in [0, 1, 1, 7, u128::MAX] {
            let elapsed = runtime.elapsed(clock);
            assert!(elapsed >= last);
            assert_eq!(elapsed, if web || native { clock } else { 0 });
            last = elapsed;
        }
    }
}

#[test]
fn without_a_host_no_delay_is_possible() {
    let runtime = RetryRuntime::new(false, false);
    for nanos in [0, 1, Duration::MAX.as_nanos()] {
        assert!(runtime.sleep(nanos).is_err());
        assert_eq!(runtime.elapsed(nanos), 0);
    }
}

#[test]
fn backoffs_stay_below_a_multiple_of_the_one_before() {
    // Each draw is at most three times what is returned with it
    let mut backoff = Backoff::new_randomized(10, 70);
    let draws = [30, 25, 75, 130, 210];
    let mut returned = vec![];
    for drawn in draws {
        returned.push(backoff.next(drawn));
    }
    assert_eq!(returned, [10, 30, 25, 70, 70]);
    for pair in returned.windows(2) {
        assert!(pair[1] <= 3 * pair[0]);
    }
}

#[test]
fn numbers_are_read() {
    assert_eq!(parse_u64("0"), Ok(0));
    assert_eq!(parse_u64("+007"), Ok(7));
    assert_eq!(parse_u64("18446744073709551615"), Ok(u64::MAX));
    for s in ["", "+", "-", "-0", " 1", "1 ", "1_0", "0x1", "\u{661}", "++1"] {
        assert!(s.parse::<u64>().is_err());
        let expected = if s.is_empty() {
            ParseNumberError::Empty
        } else {
            ParseNumberError::InvalidDigit
        };
        assert_eq!(parse_u64(s), Err(expected), "{s:?}");
        assert_eq!(
            expected.to_string(),
            s.parse::<u64>().unwrap_err().to_string()
        );
    }
    for s in ["18446744073709551616", "99999999999999999999x"] {
        assert_eq!(parse_u64(s), Err(ParseNumberError::Overflow));
        assert_eq!(
            ParseNumberError::Overflow.to_string(),
            s.parse::<u64>().unwrap_err().to_string()
        );
    }
}

#[test]
fn numbers_read_back() {
    for n in [0, 9, 10, 1234567890, u64::MAX] {
        assert_eq!(u64_to_string(n), n.to_string());
        assert_eq!(parse_u64(&u64_to_string(n)), Ok(n));
    }
}

#[test]
fn text_is_taken_apart() {
    for c in (0..0x11_0000).filter_map(char::from_u32) {
        let s = format!("{c}x{c}");
        if c.is_whitespace() || c < '\u{100}' {
            assert_eq!(trim(&s), s.trim());
        }
    }
    assert_eq!(trim("  \n"), "");
    assert_eq!(strip_prefix("bytes 1", "bytes "), Some("1"));
    assert_eq!(strip_prefix("byte", "bytes "), None);
    assert_eq!(strip_prefix("b\u{e9}", "b"), Some("\u{e9}"));
    assert_eq!(split_once("a/b/c", '/'), Some(("a", "b/c")));
    assert_eq!(split_once("abc", '/'), None);
    assert!(eq_ignore_ascii_case("IdenTity", "identity"));
    assert!(!eq_ignore_ascii_case("identit\u{fd}", "identit\u{dd}"));
    assert!(!eq_ignore_ascii_case("identity", "identit"));
}
