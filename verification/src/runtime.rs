//! What the host offers for a delayed retry.

use vstd::prelude::*;

verus! {

/// The host offers no timer, so that a retry cannot be delayed.
#[derive(Debug, Clone, Copy, PartialEq, Eq, Structural)]
pub struct RetryRuntimeError;

impl RetryRuntimeError {
    /// What the error says.
    pub open spec fn message(self) -> Seq<char> {
        "delayed retry requires a native Tokio timer or the explicit browser `web` host capability"@
    }

    /// The error as text.
    pub fn to_string(&self) -> (r: String)
        ensures
            r@ == self.message(),
    {
        "delayed retry requires a native Tokio timer or the explicit browser `web` host capability".to_owned()
    }
}

/// Whose clock and timer are used.
#[derive(Debug, Clone, Copy, PartialEq, Eq, Structural)]
pub enum Host {
    /// Those of the operating system.
    Native,
    /// Those of the browser.
    Web,
    /// There are none.
    Unsupported,
}

/// The clock and the timer of a retried request.
#[derive(Debug, Clone, Copy)]
pub struct RetryRuntime {
    /// Whose they are.
    pub host: Host,
}

/// How to wait.
#[derive(Debug)]
pub enum Delay {
    /// On one timer, for so many nanoseconds.
    Timer(u128),
    /// On one browser timeout after another.
    Timeouts(Timeouts),
}

/// The browser timeouts that make up a delay. A timeout takes at most `u32::MAX` milliseconds.
#[derive(Debug)]
pub struct Timeouts {
    /// The milliseconds that are left to wait.
    pub left: u128,
}

/// The length of the first timeout of a delay of `millis` milliseconds.
pub open spec fn first_timeout(millis: nat) -> nat {
    if millis < u32::MAX {
        millis
    } else {
        u32::MAX as nat
    }
}

/// The timeouts of a delay of `millis` milliseconds.
pub open spec fn timeouts(millis: nat) -> Seq<nat>
    decreases millis,
{
    if millis == 0 {
        Seq::empty()
    } else {
        seq![first_timeout(millis)] + timeouts((millis - first_timeout(millis)) as nat)
    }
}

/// The sum of some numbers.
pub open spec fn total(s: Seq<nat>) -> nat
    decreases s.len(),
{
    if s.len() == 0 {
        0
    } else {
        s[0] + total(s.skip(1))
    }
}

/// The nanoseconds of a millisecond.
pub const NANOS_PER_MILLI: u128 = 1_000_000;

/// The time since the start, in nanoseconds, given what the clock says. Without a clock no time
/// passes.
pub open spec fn elapsed_of(host: Host, clock_nanos: u128) -> u128 {
    match host {
        Host::Unsupported => 0,
        _ => clock_nanos,
    }
}

/// How to wait for `nanos` nanoseconds. In the browser, whole milliseconds are waited for, and at
/// least one. Without a timer there is no waiting.
pub open spec fn delay_of(host: Host, nanos: u128) -> Result<Delay, RetryRuntimeError> {
    match host {
        Host::Native => Ok(Delay::Timer(nanos)),
        Host::Web => Ok(
            Delay::Timeouts(
                Timeouts {
                    left: if nanos < NANOS_PER_MILLI {
                        1
                    } else {
                        nanos / NANOS_PER_MILLI
                    },
                },
            ),
        ),
        Host::Unsupported => Err(RetryRuntimeError),
    }
}

/// The nanoseconds that the timers of a delay run for, one after the other.
pub open spec fn running_time(delay: Delay) -> nat {
    match delay {
        Delay::Timer(nanos) => nanos as nat,
        Delay::Timeouts(t) => total(timeouts(t.left as nat)) * NANOS_PER_MILLI as nat,
    }
}

impl RetryRuntime {
    /// The clock and the timer of the browser, if the host is one, or else those of the operating
    /// system, if they can be used.
    pub fn new(web: bool, native: bool) -> (r: RetryRuntime)
        ensures
            web ==> r.host is Web,
            !web && native ==> r.host is Native,
            !web && !native ==> r.host is Unsupported,
    {
        if web {
            RetryRuntime { host: Host::Web }
        } else if native {
            RetryRuntime { host: Host::Native }
        } else {
            RetryRuntime { host: Host::Unsupported }
        }
    }

    /// The time since the start, in nanoseconds, given what the clock says.
    pub fn elapsed(&self, clock_nanos: u128) -> (r: u128)
        ensures
            r == elapsed_of(self.host, clock_nanos),
    {
        match self.host {
            Host::Native => clock_nanos,
            Host::Web => clock_nanos,
            Host::Unsupported => 0,
        }
    }

    /// How to wait for `nanos` nanoseconds.
    pub fn sleep(&self, nanos: u128) -> (r: Result<Delay, RetryRuntimeError>)
        ensures
            r == delay_of(self.host, nanos),
    {
        match self.host {
            Host::Native => Ok(Delay::Timer(nanos)),
            Host::Web => {
                let millis: u128 = nanos / NANOS_PER_MILLI;
                let left: u128 = if millis == 0 {
                    1
                } else {
                    millis
                };
                Ok(Delay::Timeouts(Timeouts { left }))
            },
            Host::Unsupported => Err(RetryRuntimeError),
        }
    }
}

impl Timeouts {
    /// The length of the next timeout, if there is time left to wait.
    pub fn next(&mut self) -> (r: Option<u32>)
        ensures
            match r {
                Some(timeout) => {
                    &&& old(self).left > 0
                    &&& timeout == first_timeout(old(self).left as nat)
                    &&& final(self).left == old(self).left - timeout
                    &&& timeouts(old(self).left as nat) == seq![timeout as nat] + timeouts(
                        final(self).left as nat,
                    )
                },
                None => old(self).left == 0 && final(self).left == 0,
            },
    {
        if self.left == 0 {
            return None;
        }
        let next: u32 = if self.left < u32::MAX as u128 {
            self.left as u32
        } else {
            u32::MAX
        };
        self.left = self.left - next as u128;
        Some(next)
    }
}

/// The timeouts of a delay add up to the delay, and none of them is empty or longer than a browser
/// allows.
pub proof fn law_timeouts_add_up(millis: nat)
    ensures
        total(timeouts(millis)) == millis,
        forall|i: int|
            0 <= i < timeouts(millis).len() ==> 0 < #[trigger] timeouts(millis)[i] <= u32::MAX,
    decreases millis,
{
    if millis > 0 {
        let rest = (millis - first_timeout(millis)) as nat;
        law_timeouts_add_up(rest);
        let all = timeouts(millis);
        assert(all.skip(1) =~= timeouts(rest));
        assert forall|i: int| 0 <= i < all.len() implies 0 < #[trigger] all[i] <= u32::MAX by {
            if i > 0 {
                assert(all[i] == timeouts(rest)[i - 1]);
            }
        }
    }
}

/// With a clock that does not go back, the time since the start never decreases. It grows by what
/// the clock advances, but without a host, where it stays zero.
pub proof fn law_elapsed_time_never_decreases(host: Host, before: u128, after: u128)
    requires
        before <= after,
    ensures
        elapsed_of(host, before) <= elapsed_of(host, after),
        host is Unsupported ==> elapsed_of(host, before) == 0 && elapsed_of(host, after) == 0,
        !(host is Unsupported) ==> elapsed_of(host, after) - elapsed_of(host, before) == after
            - before,
{
}

/// Without a host every delay is refused, an empty one too, and no time passes. On any other host
/// no delay is refused, and once its timers have run, one after the other, the whole delay has
/// passed: to the nanosecond on a native host, and in the browser but for a fraction of a
/// millisecond.
pub proof fn law_delays(host: Host, nanos: u128, before: u128, after: u128)
    ensures
        host is Unsupported ==> delay_of(host, nanos) == Err::<Delay, RetryRuntimeError>(
            RetryRuntimeError,
        ) && elapsed_of(host, before) == 0 && elapsed_of(host, after) == 0,
        !(host is Unsupported) ==> delay_of(host, nanos) is Ok,
        delay_of(host, nanos) matches Ok(delay) && after >= before + running_time(delay) ==> {
            let passed = elapsed_of(host, after) - elapsed_of(host, before);
            &&& host is Native ==> passed >= nanos
            &&& host is Web ==> passed > nanos - NANOS_PER_MILLI && passed >= NANOS_PER_MILLI
        },
{
    if let Ok(Delay::Timeouts(t)) = delay_of(host, nanos) {
        law_timeouts_add_up(t.left as nat);
    }
}

/// The browser comes first: a host that is one uses its clock and timer, whatever else can be used,
/// and only a host that offers neither has none.
pub proof fn law_hosts(web: bool, native: bool, runtime: RetryRuntime)
    requires
        call_ensures(RetryRuntime::new, (web, native), runtime),
    ensures
        runtime.host is Web <==> web,
        runtime.host is Native <==> native && !web,
        runtime.host is Unsupported <==> !native && !web,
{
}

/// How a delay is waited for, to the nanosecond: on a native host on one timer that runs for just the
/// delay, and in the browser for the whole milliseconds of the delay, or for one if there are none.
pub proof fn law_delays_are_exact(host: Host, nanos: u128, clock: u128)
    ensures
        host is Native ==> (delay_of(host, nanos) matches Ok(Delay::Timer(n)) && n == nanos),
        host is Web ==> (delay_of(host, nanos) matches Ok(Delay::Timeouts(t)) && {
            &&& t.left >= 1
            &&& nanos < 1_000_000 ==> t.left == 1
            &&& nanos >= 1_000_000 ==> t.left * 1_000_000 <= nanos < t.left * 1_000_000 + 1_000_000
        }),
        host is Unsupported ==> delay_of(host, nanos) is Err,
        elapsed_of(host, clock) == if host is Unsupported {
            0
        } else {
            clock
        },
{
}

/// No delay takes more timeouts than it needs: every timeout but the last is as long as a browser
/// allows, which is 4294967295 milliseconds, and without a delay there is none.
pub proof fn law_timeouts_are_long(millis: nat)
    ensures
        timeouts(millis).len() == 0 <==> millis == 0,
        forall|i: int|
            0 <= i < timeouts(millis).len() - 1 ==> #[trigger] timeouts(millis)[i] == 4294967295,
        first_timeout(millis) <= millis,
        first_timeout(millis) == millis || first_timeout(millis) == 4294967295,
        first_timeout(millis) <= 4294967295,
    decreases millis,
{
    if millis > 0 {
        let rest = (millis - first_timeout(millis)) as nat;
        law_timeouts_are_long(rest);
        let all = timeouts(millis);
        assert forall|i: int| 0 <= i < all.len() - 1 implies #[trigger] all[i] == 4294967295 by {
            if i > 0 {
                assert(all[i] == timeouts(rest)[i - 1]);
            }
        }
    }
}

} // verus!
