//! Drawing fresh terms for a randomized problem.
use vstd::prelude::*;

use crate::problems::{
    whole_term, term_views, BasicOperation, ImplementedProblem, MathProblem, MathProblemView,
    Term, TermView,
};
use crate::text::{int_text, int_to_text};

verus! {

/// Why fresh terms could not be drawn. Each reason carries the values drawn
/// before it arose.
#[derive(PartialEq, Eq, Debug)]
pub enum GenerateError {
    /// The next value had to be drawn from an empty range.
    EmptyRange(Vec<i32>),
    /// The dividend made as divisor times quotient does not fit in an `i32`.
    Overflow(Vec<i32>),
}

/// Whether a kind asks for a subtraction.
pub open spec fn is_subtraction(kind: ImplementedProblem) -> bool {
    ||| kind == ImplementedProblem::LargeFormatFourOp(BasicOperation::Subtraction)
    ||| kind == ImplementedProblem::MissingOperand(BasicOperation::Subtraction)
    ||| kind == ImplementedProblem::FourOp(BasicOperation::Subtraction)
}

/// Whether a kind asks for a division.
pub open spec fn is_division(kind: ImplementedProblem) -> bool {
    kind == ImplementedProblem::ShortDiv || kind == ImplementedProblem::LongDiv
}

/// Whether `x` lies in the problem's range `lower_bound..upper_bound`.
pub open spec fn in_bounds(p: MathProblemView, x: int) -> bool {
    p.lower_bound <= x < p.upper_bound
}

/// Whether `draws` is a sequence of values that generation can draw for `p`,
/// in the order it draws them:
/// - a subtraction draws the minuend from the range, then the subtrahend from
///   the range too when negative results are allowed (`auxillary`), and from
///   `lower_bound..minuend` when they are not;
/// - a division draws the divisor from the range, then either the dividend
///   from `divisor..upper_bound` when remainders are allowed, or a quotient
///   from the range;
/// - a proportion draws four values from the range, then which of the four
///   positions becomes the unknown, from `0..4`;
/// - any other kind draws one value from the range per operand.
pub open spec fn draws_fit(p: MathProblemView, d: Seq<i32>) -> bool {
    let kind = p.problem_type;
    if is_subtraction(kind) {
        &&& d.len() == 2
        &&& in_bounds(p, d[0] as int)
        &&& if p.auxillary {
            in_bounds(p, d[1] as int)
        } else {
            p.lower_bound <= d[1] < d[0]
        }
    } else if is_division(kind) {
        &&& d.len() == 2
        &&& in_bounds(p, d[0] as int)
        &&& if p.auxillary {
            d[0] <= d[1] < p.upper_bound
        } else {
            in_bounds(p, d[1] as int)
        }
    } else if kind == ImplementedProblem::Proportions {
        &&& d.len() == 5
        &&& forall|i: int| 0 <= i < 4 ==> #[trigger] in_bounds(p, d[i] as int)
        &&& 0 <= d[4] < 4
    } else {
        &&& d.len() == kind.operand_count()
        &&& forall|i: int| 0 <= i < d.len() ==> #[trigger] in_bounds(p, d[i] as int)
    }
}

/// A term showing the integer `x`.
pub open spec fn number_term(x: int) -> TermView {
    whole_term(int_text(x))
}

/// Whether a product fits in an `i32`.
pub open spec fn fits_i32(x: int) -> bool {
    i32::MIN <= x <= i32::MAX
}

/// Whether the draws make a dividend that cannot be held: a division without
/// remainder whose divisor times quotient leaves the `i32` range.
pub open spec fn dividend_overflows(p: MathProblemView, d: Seq<i32>) -> bool {
    is_division(p.problem_type) && !p.auxillary && !fits_i32(d[0] * d[1])
}

/// The terms made from the draws:
/// - a subtraction shows minuend and subtrahend;
/// - a division with remainder shows the drawn dividend and the divisor;
///   without remainder it shows divisor times quotient and the divisor;
/// - a proportion shows its four values with the drawn position replaced by `x`;
/// - any other kind shows its values in the order drawn.
pub open spec fn terms_for_draws(p: MathProblemView, d: Seq<i32>) -> Seq<TermView> {
    let kind = p.problem_type;
    if is_subtraction(kind) {
        seq![number_term(d[0] as int), number_term(d[1] as int)]
    } else if is_division(kind) {
        if p.auxillary {
            seq![number_term(d[1] as int), number_term(d[0] as int)]
        } else {
            seq![number_term(d[0] * d[1]), number_term(d[0] as int)]
        }
    } else if kind == ImplementedProblem::Proportions {
        Seq::new(
            4,
            |i: int|
                if i == d[4] {
                    whole_term("x"@)
                } else {
                    number_term(d[i] as int)
                },
        )
    } else {
        Seq::new(kind.operand_count(), |i: int| number_term(d[i] as int))
    }
}

/// `p` with its terms replaced.
pub open spec fn with_terms(p: MathProblemView, terms: Seq<TermView>) -> MathProblemView {
    MathProblemView { terms, ..p }
}

/// Whether `after` is `before` with freshly drawn terms: a problem that is not
/// randomized stays as it is; a randomized one keeps every setting and gets the
/// terms of a complete sequence of draws, each from its range.
pub open spec fn regenerated(before: MathProblemView, after: MathProblemView) -> bool {
    if before.randomized {
        exists|d: Seq<i32>|
            draws_complete(before, d) && !dividend_overflows(before, d) && after == with_terms(
                before,
                #[trigger] terms_for_draws(before, d),
            )
    } else {
        after == before
    }
}

/// Whether generating terms for `p` draws anything at all.
pub open spec fn needs_draws(p: MathProblemView) -> bool {
    p.problem_type.operand_count() > 0
}

/// Whether a randomized problem has a non-empty range to draw from whenever it
/// draws at all. Drawing from an empty range is not allowed.
pub open spec fn drawable(p: MathProblemView) -> bool {
    p.randomized && needs_draws(p) ==> p.lower_bound < p.upper_bound
}

/// Whether some outcome of the draws meets an empty range: a subtraction
/// without negative results whose minuend is drawn as `lower_bound`.
pub open spec fn may_meet_empty_range(p: MathProblemView) -> bool {
    is_subtraction(p.problem_type) && !p.auxillary
}

/// The range `lo..hi` of the next value to draw for `p`, once the values `d`
/// have been drawn, or `None` when the draws are complete:
/// - a subtraction draws from the problem's range, then from the range again
///   when negative results are allowed, or from `lower_bound..minuend`;
/// - a division draws from the range, then from `divisor..upper_bound` when
///   remainders are allowed, or from the range;
/// - a proportion draws from the range four times, then from `0..4`;
/// - any other kind draws from the range once per operand.
pub open spec fn draw_range(p: MathProblemView, d: Seq<i32>) -> Option<(i32, i32)> {
    let kind = p.problem_type;
    let whole = Some((p.lower_bound, p.upper_bound));
    if is_subtraction(kind) {
        if d.len() == 0 {
            whole
        } else if d.len() == 1 {
            if p.auxillary {
                whole
            } else {
                Some((p.lower_bound, d[0]))
            }
        } else {
            None
        }
    } else if is_division(kind) {
        if d.len() == 0 {
            whole
        } else if d.len() == 1 {
            if p.auxillary {
                Some((d[0], p.upper_bound))
            } else {
                whole
            }
        } else {
            None
        }
    } else if kind == ImplementedProblem::Proportions {
        if d.len() < 4 {
            whole
        } else if d.len() == 4 {
            Some((0i32, 4i32))
        } else {
            None
        }
    } else if d.len() < kind.operand_count() {
        whole
    } else {
        None
    }
}

/// Whether `x` lies in the range `r`.
pub open spec fn in_range(r: Option<(i32, i32)>, x: i32) -> bool {
    match r {
        Some((lo, hi)) => lo <= x < hi,
        None => false,
    }
}

/// Whether `r` is an empty range.
pub open spec fn is_empty_range(r: Option<(i32, i32)>) -> bool {
    match r {
        Some((lo, hi)) => lo >= hi,
        None => false,
    }
}

/// Whether each value of `d` lies in the range announced for it after the
/// values before it.
pub open spec fn draws_follow(p: MathProblemView, d: Seq<i32>) -> bool {
    forall|k: int| 0 <= k < d.len() ==> in_range(#[trigger] draw_range(p, d.take(k)), d[k])
}

/// Whether `d` is a complete sequence of draws for `p`, each from its range.
pub open spec fn draws_complete(p: MathProblemView, d: Seq<i32>) -> bool {
    draws_follow(p, d) && draw_range(p, d) is None
}

/// Whether `e` reports what happened on some draws for `p`: values drawn from
/// their ranges up to an empty one, or complete draws whose dividend overflows.
pub open spec fn failed_draw(p: MathProblemView, e: GenerateError) -> bool {
    match e {
        GenerateError::EmptyRange(d) => draws_follow(p, d@) && is_empty_range(draw_range(p, d@)),
        GenerateError::Overflow(d) => draws_complete(p, d@) && dividend_overflows(p, d@),
    }
}

/// Draws taken from the announced ranges, up to the end, fit the problem.
pub proof fn complete_draws_fit(p: MathProblemView, d: Seq<i32>)
    requires
        draws_complete(p, d),
    ensures
        draws_fit(p, d),
{
    let kind = p.problem_type;
    let needed: int = if is_subtraction(kind) || is_division(kind) {
        2
    } else if kind == ImplementedProblem::Proportions {
        5
    } else {
        kind.operand_count() as int
    };
    if d.len() > needed {
        assert(in_range(draw_range(p, d.take(needed)), d[needed]));
    }
    assert(d.len() == needed);
    if is_subtraction(kind) || is_division(kind) {
        assert(in_range(draw_range(p, d.take(0)), d[0]));
        assert(in_range(draw_range(p, d.take(1)), d[1]));
        assert(d.take(1)[0] == d[0]);
    } else {
        assert forall|i: int| 0 <= i < d.len() && i < kind.operand_count() implies #[trigger] in_bounds(
            p,
            d[i] as int,
        ) by {
            assert(in_range(draw_range(p, d.take(i)), d[i]));
        }
        if kind == ImplementedProblem::Proportions {
            assert(in_range(draw_range(p, d.take(4)), d[4]));
        }
    }
}

/// A failure reported for a problem that can be drawn from is one that its
/// draws can meet.
pub proof fn reported_failure_is_possible(p: MathProblemView, e: GenerateError)
    requires
        drawable(p),
        p.randomized,
        failed_draw(p, e),
    ensures
        may_meet_empty_range(p) || may_overflow(p),
{
    match e {
        GenerateError::EmptyRange(d) => {
            let d = d@;
            if d.len() > 0 {
                assert(in_range(draw_range(p, d.take(0)), d[0]));
            }
        },
        GenerateError::Overflow(d) => {
            let d = d@;
            complete_draws_fit(p, d);
            assert(in_bounds(p, d[0] as int) && in_bounds(p, d[1] as int) && !fits_i32(
                d[0] as int * d[1] as int,
            ));
        },
    }
}

/// Whether some outcome of the draws makes a dividend that overflows.
pub open spec fn may_overflow(p: MathProblemView) -> bool {
    &&& is_division(p.problem_type)
    &&& !p.auxillary
    &&& exists|a: int, b: int|
        in_bounds(p, a) && in_bounds(p, b) && !#[trigger] fits_i32(a * b)
}

/// Draws an integer from `lo..hi` with `rand::random_range`, which uses the
/// thread-local generator and panics on an empty range (so `lo < hi` is
/// required). Only that the result lies in the range is claimed: the value
/// itself is left to chance.
#[verifier::external_body]
fn random_in(lo: i32, hi: i32) -> (x: i32)
    requires
        lo < hi,
    ensures
        lo <= x < hi,
{
    rand::random_range(lo..hi)
}

/// A term showing the integer `x`.
fn number(x: i32) -> (t: Term)
    ensures
        t@ == number_term(x as int),
{
    Term::new(int_to_text(x as i64))
}

impl ImplementedProblem {
    /// Whether this kind asks for a subtraction.
    pub fn is_subtraction_kind(&self) -> (b: bool)
        ensures
            b == is_subtraction(*self),
    {
        match *self {
            ImplementedProblem::LargeFormatFourOp(BasicOperation::Subtraction) => true,
            ImplementedProblem::MissingOperand(BasicOperation::Subtraction) => true,
            ImplementedProblem::FourOp(BasicOperation::Subtraction) => true,
            _ => false,
        }
    }

    /// Whether this kind asks for a division.
    pub fn is_division_kind(&self) -> (b: bool)
        ensures
            b == is_division(*self),
    {
        match *self {
            ImplementedProblem::ShortDiv => true,
            ImplementedProblem::LongDiv => true,
            _ => false,
        }
    }
}

impl MathProblem {
    /// The terms the given draws make for this problem, or `None` when the
    /// dividend of a division without remainder does not fit in an `i32`.
    pub fn terms_from_draws(&self, draws: &Vec<i32>) -> (terms: Option<Vec<Term>>)
        requires
            draws_fit(self@, draws@),
        ensures
            terms is None <==> dividend_overflows(self@, draws@),
            terms matches Some(t) ==> term_views(t@) == terms_for_draws(self@, draws@),
    {
        let ghost p = self@;
        let ghost d = draws@;
        let mut terms: Vec<Term> = Vec::new();
        if self.problem_type.is_subtraction_kind() {
            terms.push(number(draws[0]));
            terms.push(number(draws[1]));
        } else if self.problem_type.is_division_kind() {
            if self.auxillary {
                terms.push(number(draws[1]));
                terms.push(number(draws[0]));
            } else {
                match draws[0].checked_mul(draws[1]) {
                    Some(dividend) => {
                        terms.push(number(dividend));
                        terms.push(number(draws[0]));
                    },
                    None => {
                        return None;
                    },
                }
            }
        } else if self.problem_type == ImplementedProblem::Proportions {
            let unknown = draws[4];
            let mut i: usize = 0;
            while i < 4
                invariant
                    i <= 4,
                    draws@ == d,
                    d.len() == 5,
                    unknown == d[4],
                    terms.len() == i,
                    forall|j: int|
                        0 <= j < i ==> #[trigger] terms[j]@ == (if j == d[4] {
                            whole_term("x"@)
                        } else {
                            number_term(d[j] as int)
                        }),
                decreases 4 - i,
            {
                if i as i32 == unknown {
                    terms.push(Term::new(String::from_str("x")));
                } else {
                    terms.push(number(draws[i]));
                }
                i = i + 1;
            }
        } else {
            let n = self.problem_type.required_operands();
            let mut i: usize = 0;
            while i < n
                invariant
                    i <= n,
                    draws@ == d,
                    d.len() == n,
                    terms.len() == i,
                    forall|j: int| 0 <= j < i ==> #[trigger] terms[j]@ == number_term(d[j] as int),
                decreases n - i,
            {
                terms.push(number(draws[i]));
                i = i + 1;
            }
        }
        proof {
            assert(term_views(terms@) =~= terms_for_draws(p, d));
        }
        Some(terms)
    }

    /// Whether the problem can be drawn for: when it is randomized and needs
    /// values, its range is not empty.
    pub fn can_draw(&self) -> (b: bool)
        ensures
            b == drawable(self@),
    {
        !(self.randomized && self.problem_type.required_operands() > 0
            && self.lower_bound >= self.upper_bound)
    }

    /// The range `lo..hi` of the next value to draw once `drawn` have been
    /// drawn, or `None` when the draws are complete.
    pub fn next_draw_range(&self, drawn: &Vec<i32>) -> (r: Option<(i32, i32)>)
        ensures
            r == draw_range(self@, drawn@),
    {
        let n = drawn.len();
        let lo = self.lower_bound;
        let hi = self.upper_bound;
        if self.problem_type.is_subtraction_kind() {
            if n == 0 {
                Some((lo, hi))
            } else if n == 1 {
                if self.auxillary {
                    Some((lo, hi))
                } else {
                    Some((lo, drawn[0]))
                }
            } else {
                None
            }
        } else if self.problem_type.is_division_kind() {
            if n == 0 {
                Some((lo, hi))
            } else if n == 1 {
                if self.auxillary {
                    Some((drawn[0], hi))
                } else {
                    Some((lo, hi))
                }
            } else {
                None
            }
        } else if self.problem_type == ImplementedProblem::Proportions {
            if n < 4 {
                Some((lo, hi))
            } else if n == 4 {
                Some((0, 4))
            } else {
                None
            }
        } else if n < self.problem_type.required_operands() {
            Some((lo, hi))
        } else {
            None
        }
    }

    /// Draws fresh terms when the problem is randomized; a problem that is not
    /// randomized is left as it is. Each value is drawn from the range that
    /// `next_draw_range` gives for the values drawn before it. When that range
    /// is empty (a subtraction without negative results whose minuend came out
    /// as `lower_bound`), or the dividend would not fit in an `i32`, the problem
    /// is left as it is and the draws made are returned with the reason.
    pub fn generate(&mut self) -> (r: Result<(), GenerateError>)
        requires
            drawable(old(self)@),
        ensures
            !old(self).randomized ==> r is Ok && final(self)@ == old(self)@,
            r is Ok ==> regenerated(old(self)@, final(self)@),
            r is Err ==> final(self)@ == old(self)@,
            r matches Err(e) ==> old(self).randomized && failed_draw(old(self)@, e),
            !may_meet_empty_range(old(self)@) && !may_overflow(old(self)@) ==> r is Ok,
    {
        if !self.randomized {
            return Ok(());
        }
        let ghost p = self@;
        let mut draws: Vec<i32> = Vec::new();
        loop
            invariant
                self@ == p,
                p.randomized,
                drawable(p),
                draws_follow(p, draws@),
                draws.len() <= 5,
            ensures
                self@ == p,
                draws_complete(p, draws@),
            decreases 5 - draws.len(),
        {
            match self.next_draw_range(&draws) {
                None => {
                    break;
                },
                Some((lo, hi)) => {
                    if lo >= hi {
                        let r = Err(GenerateError::EmptyRange(draws));
                        proof {
                            reported_failure_is_possible(p, r->Err_0);
                        }
                        return r;
                    }
                    let x = random_in(lo, hi);
                    let ghost before = draws@;
                    draws.push(x);
                    proof {
                        assert forall|k: int| 0 <= k < draws@.len() implies in_range(
                            #[trigger] draw_range(p, draws@.take(k)),
                            draws@[k],
                        ) by {
                            if k < before.len() {
                                assert(draws@.take(k) =~= before.take(k));
                            } else {
                                assert(draws@.take(k) =~= before);
                            }
                        }
                    }
                },
            }
        }
        proof {
            complete_draws_fit(p, draws@);
        }
        match self.terms_from_draws(&draws) {
            Some(terms) => {
                self.terms = terms;
                assert(self@ == with_terms(p, terms_for_draws(p, draws@)));
                Ok(())
            },
            None => {
                let r = Err(GenerateError::Overflow(draws));
                proof {
                    reported_failure_is_possible(p, r->Err_0);
                }
                r
            },
        }
    }
}

} // verus!
