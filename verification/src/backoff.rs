//! Exponential backoff with decorrelated jitter.
//!
//! Durations stand here as integers that are ordered as the durations are. What is computed from
//! durations, the bound of the next draw and the draw itself, is computed by the caller.

use vstd::prelude::*;

verus! {

/// Where the draws come from.
#[derive(Debug, Clone, Copy, PartialEq, Eq, Structural)]
pub enum Jitter {
    /// The middle of the interval is drawn.
    Deterministic,
    /// A random number generator draws from the interval.
    Random,
    /// The random numbers of the browser draw from the interval.
    Web,
}

/// The state of a backoff.
///
/// Consecutive calls to [`Backoff::next`] return the consecutive backoffs.
#[derive(Debug)]
pub struct Backoff {
    init_backoff: u64,
    next_backoff: u64,
    max_backoff: u64,
    jitter: Jitter,
}

/// The state of a backoff: the first backoff, the one that comes next, the greatest, and where the
/// draws come from.
pub struct BackoffView {
    pub init: u64,
    pub next: u64,
    pub max: u64,
    pub jitter: Jitter,
}

impl View for Backoff {
    type V = BackoffView;

    closed spec fn view(&self) -> BackoffView {
        BackoffView {
            init: self.init_backoff,
            next: self.next_backoff,
            max: self.max_backoff,
            jitter: self.jitter,
        }
    }
}

/// A draw, but for the part that exceeds the greatest backoff.
pub open spec fn capped(max: u64, drawn: u64) -> u64 {
    if drawn < max {
        drawn
    } else {
        max
    }
}

impl BackoffView {
    /// A backoff of which nothing has been returned yet.
    pub open spec fn fresh(init: u64, max: u64, jitter: Jitter) -> BackoffView {
        BackoffView { init, next: init, max, jitter }
    }

    /// The state after one call.
    pub open spec fn advanced(self, drawn: u64) -> BackoffView {
        BackoffView { next: capped(self.max, drawn), ..self }
    }

    /// What consecutive calls return, each with its draw.
    pub open spec fn returned(self, draws: Seq<u64>) -> Seq<u64>
        decreases draws.len(),
    {
        if draws.len() == 0 {
            Seq::empty()
        } else {
            seq![self.next] + self.advanced(draws[0]).returned(draws.skip(1))
        }
    }
}

impl Backoff {
    /// A backoff whose draws are the middle of the interval.
    pub fn new(init: u64, max: u64) -> (r: Backoff)
        ensures
            r@ == BackoffView::fresh(init, max, Jitter::Deterministic),
    {
        Backoff::new_with_jitter(init, max, Jitter::Deterministic)
    }

    /// A backoff with random draws.
    pub fn new_randomized(init: u64, max: u64) -> (r: Backoff)
        ensures
            r@ == BackoffView::fresh(init, max, Jitter::Random),
    {
        Backoff::new_with_jitter(init, max, Jitter::Random)
    }

    /// A backoff with draws from the browser.
    pub fn new_web(init: u64, max: u64) -> (r: Backoff)
        ensures
            r@ == BackoffView::fresh(init, max, Jitter::Web),
    {
        Backoff::new_with_jitter(init, max, Jitter::Web)
    }

    /// A backoff that starts with `init` and never exceeds `max` afterwards.
    pub fn new_with_jitter(init: u64, max: u64, jitter: Jitter) -> (r: Backoff)
        ensures
            r@ == BackoffView::fresh(init, max, jitter),
    {
        Backoff { init_backoff: init, next_backoff: init, max_backoff: max, jitter }
    }

    /// The first backoff, which every draw starts from.
    pub fn init_backoff(&self) -> (r: u64)
        ensures
            r == self@.init,
    {
        self.init_backoff
    }

    /// The backoff that comes next, of which the draw is at most a multiple.
    pub fn next_backoff(&self) -> (r: u64)
        ensures
            r == self@.next,
    {
        self.next_backoff
    }

    /// The greatest backoff, which every draw is cut to.
    pub fn max_backoff(&self) -> (r: u64)
        ensures
            r == self@.max,
    {
        self.max_backoff
    }

    /// Where the draws come from.
    pub fn jitter(&self) -> (r: Jitter)
        ensures
            r == self@.jitter,
    {
        self.jitter
    }

    /// Returns the next backoff to wait for, and keeps the draw for the one after it.
    pub fn next(&mut self, drawn: u64) -> (r: u64)
        ensures
            r == old(self)@.next,
            final(self)@ == old(self)@.advanced(drawn),
    {
        let next: u64 = if drawn < self.max_backoff {
            drawn
        } else {
            self.max_backoff
        };
        let current: u64 = self.next_backoff;
        self.next_backoff = next;
        current
    }
}

/// The first backoff is the initial one. Every later one is the draw of the call before, but for
/// the part that exceeds the greatest backoff.
pub proof fn law_backoffs(init: u64, max: u64, jitter: Jitter, draws: Seq<u64>)
    ensures
        ({
            let returned = BackoffView::fresh(init, max, jitter).returned(draws);
            &&& returned.len() == draws.len()
            &&& draws.len() > 0 ==> returned[0] == init
            &&& forall|i: int|
                0 < i < draws.len() ==> #[trigger] returned[i] == capped(max, draws[i - 1])
        }),
{
    lemma_returned(BackoffView::fresh(init, max, jitter), draws);
}

/// The first backoff is the initial one, whatever the greatest is. Every later one is the lesser of
/// the greatest backoff and of the draw of the call before.
pub proof fn law_backoffs_are_capped_draws(
    init: u64,
    max: u64,
    jitter: Jitter,
    draws: Seq<u64>,
    i: int,
)
    requires
        0 <= i < draws.len(),
    ensures
        ({
            let returned = BackoffView::fresh(init, max, jitter).returned(draws);
            &&& i == 0 ==> returned[i] == init
            &&& i > 0 ==> {
                &&& returned[i] <= max
                &&& returned[i] <= draws[i - 1]
                &&& returned[i] == max || returned[i] == draws[i - 1]
            }
        }),
{
    law_backoffs(init, max, jitter, draws);
}

/// A new backoff has the bounds and the source of draws that it is made with, and keeps them from
/// call to call.
pub proof fn law_bounds_are_kept(init: u64, max: u64, jitter: Jitter, state: BackoffView, drawn: u64)
    ensures
        ({
            let fresh = BackoffView::fresh(init, max, jitter);
            &&& fresh.init == init && fresh.next == init
            &&& fresh.max == max
            &&& fresh.jitter == jitter
        }),
        ({
            let after = state.advanced(drawn);
            &&& after.init == state.init
            &&& after.max == state.max
            &&& after.jitter == state.jitter
            &&& after.next <= drawn && after.next <= state.max
            &&& after.next == drawn || after.next == state.max
        }),
{
}

/// What consecutive calls return, from any state.
proof fn lemma_returned(state: BackoffView, draws: Seq<u64>)
    ensures
        ({
            let returned = state.returned(draws);
            &&& returned.len() == draws.len()
            &&& draws.len() > 0 ==> returned[0] == state.next
            &&& forall|i: int|
                0 < i < draws.len() ==> #[trigger] returned[i] == capped(state.max, draws[i - 1])
        }),
    decreases draws.len(),
{
    if draws.len() > 0 {
        let rest = state.advanced(draws[0]).returned(draws.skip(1));
        lemma_returned(state.advanced(draws[0]), draws.skip(1));
        let returned = state.returned(draws);
        assert forall|i: int| 0 < i < draws.len() implies #[trigger] returned[i] == capped(
            state.max,
            draws[i - 1],
        ) by {
            assert(returned[i] == rest[i - 1]);
            if i > 1 {
                assert(draws.skip(1)[i - 2] == draws[i - 1]);
            }
        }
    }
}

/// Where the initial backoff is at most the greatest, and no draw is below the initial backoff,
/// every backoff lies between the two.
pub proof fn law_backoffs_stay_in_bounds(
    init: u64,
    max: u64,
    jitter: Jitter,
    draws: Seq<u64>,
    i: int,
)
    requires
        init <= max,
        forall|j: int| 0 <= j < draws.len() ==> init <= #[trigger] draws[j],
        0 <= i < draws.len(),
    ensures
        init <= BackoffView::fresh(init, max, jitter).returned(draws)[i] <= max,
{
    law_backoffs(init, max, jitter, draws);
    if i > 0 {
        assert(init <= draws[i - 1]);
    }
}

/// Where no draw exceeds a bound that depends on the backoff returned with it, such as a multiple of
/// that backoff, no backoff exceeds the bound that the one before it gives.
pub proof fn law_backoffs_grow_at_most_by_the_bound(
    init: u64,
    max: u64,
    jitter: Jitter,
    draws: Seq<u64>,
    bound: spec_fn(u64) -> u64,
    i: int,
)
    requires
        ({
            let returned = BackoffView::fresh(init, max, jitter).returned(draws);
            forall|j: int|
                0 <= j < draws.len() ==> #[trigger] draws[j] <= bound(returned[j])
        }),
        0 < i < draws.len(),
    ensures
        ({
            let returned = BackoffView::fresh(init, max, jitter).returned(draws);
            returned[i] <= bound(returned[i - 1])
        }),
{
    law_backoffs(init, max, jitter, draws);
    let returned = BackoffView::fresh(init, max, jitter).returned(draws);
    assert(returned[i] == capped(max, draws[i - 1]));
    assert(draws[i - 1] <= bound(returned[i - 1]));
}

/// Two backoffs that start alike and draw by the same rule, each draw from the initial backoff and
/// from the backoff returned with it, return the same, call by call. The middle of the interval is
/// such a rule.
pub proof fn law_backoffs_by_a_rule_agree(
    init: u64,
    max: u64,
    jitter: Jitter,
    left: Seq<u64>,
    right: Seq<u64>,
    rule: spec_fn(u64, u64) -> u64,
)
    requires
        left.len() == right.len(),
        ({
            let returned = BackoffView::fresh(init, max, jitter).returned(left);
            forall|j: int| 0 <= j < left.len() ==> #[trigger] left[j] == rule(init, returned[j])
        }),
        ({
            let returned = BackoffView::fresh(init, max, jitter).returned(right);
            forall|j: int| 0 <= j < right.len() ==> #[trigger] right[j] == rule(init, returned[j])
        }),
    ensures
        BackoffView::fresh(init, max, jitter).returned(left) == BackoffView::fresh(
            init,
            max,
            jitter,
        ).returned(right),
{
    law_backoffs(init, max, jitter, left);
    law_backoffs(init, max, jitter, right);
    let a = BackoffView::fresh(init, max, jitter).returned(left);
    let b = BackoffView::fresh(init, max, jitter).returned(right);
    assert forall|i: int| 0 <= i < a.len() implies a[i] == b[i] by {
        lemma_by_a_rule(init, max, left, right, a, b, rule, i);
    }
    assert(a =~= b);
}

/// Backoffs that are drawn by a rule are equal one after the other.
proof fn lemma_by_a_rule(
    init: u64,
    max: u64,
    left: Seq<u64>,
    right: Seq<u64>,
    a: Seq<u64>,
    b: Seq<u64>,
    rule: spec_fn(u64, u64) -> u64,
    i: int,
)
    requires
        0 <= i < left.len(),
        left.len() == right.len(),
        a.len() == left.len(),
        b.len() == right.len(),
        a[0] == init && b[0] == init,
        forall|j: int| 0 < j < left.len() ==> #[trigger] a[j] == capped(max, left[j - 1]),
        forall|j: int| 0 < j < right.len() ==> #[trigger] b[j] == capped(max, right[j - 1]),
        forall|j: int| 0 <= j < left.len() ==> #[trigger] left[j] == rule(init, a[j]),
        forall|j: int| 0 <= j < right.len() ==> #[trigger] right[j] == rule(init, b[j]),
    ensures
        a[i] == b[i],
    decreases i,
{
    if i > 0 {
        lemma_by_a_rule(init, max, left, right, a, b, rule, i - 1);
        assert(left[i - 1] == right[i - 1]);
    }
}

} // verus!
