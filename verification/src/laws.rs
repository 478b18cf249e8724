//! Properties that hold across the library's operations.
use vstd::prelude::*;

use crate::editor::{clamp_copies, padded_terms, MAX_COPIES, MIN_COPIES};
use crate::generate::{
    complete_draws_fit, dividend_overflows, draw_range, draws_complete, draws_fit, is_division,
    is_subtraction, number_term, regenerated, terms_for_draws, with_terms,
};
use crate::problems::{
    display_text, term_text, whole_term, BasicOperation, ImplementedProblem, MathProblemView,
    TermView,
};
use crate::sheet::{block_text, column};
use crate::text::{digit_char, int_text, nat_text};

verus! {

/// Every kind has exactly one input field per operand.
pub proof fn fields_match_operands(kind: ImplementedProblem)
    ensures
        kind.field_labels().len() == kind.operand_count(),
{
}

/// Setting the operation of a kind keeps how many operands it has and whether
/// it has an operation; a kind with an operation then carries exactly the one
/// set (the last setting wins), and a kind without one is left unchanged.
pub proof fn set_operation_laws(kind: ImplementedProblem, a: BasicOperation, b: BasicOperation)
    ensures
        kind.with_operation(a).operand_count() == kind.operand_count(),
        kind.with_operation(a).has_operation() == kind.has_operation(),
        kind.with_operation(a).with_operation(b) == kind.with_operation(b),
        !kind.has_operation() ==> kind.with_operation(a) == kind,
        kind.has_operation() && a != b ==> kind.with_operation(a) != kind.with_operation(b),
{
}

/// A plain term is written as its whole part.
pub proof fn plain_term_shows_whole(whole: Seq<char>)
    ensures
        term_text(whole_term(whole)) == whole,
{
}

/// Drawn terms fill the kind: a randomized problem with fresh terms has as many
/// terms as its kind needs, so it is never written as the error notice.
pub proof fn regenerated_terms_fill_the_kind(before: MathProblemView, after: MathProblemView)
    requires
        before.randomized,
        regenerated(before, after),
    ensures
        after.terms.len() == after.problem_type.operand_count(),
        display_text(after) != "Error Occurred"@,
{
    let d = choose|d: Seq<i32>|
        draws_complete(before, d) && !dividend_overflows(before, d) && after == with_terms(
            before,
            #[trigger] terms_for_draws(before, d),
        );
    complete_draws_fit(before, d);
    assert(after.terms == terms_for_draws(before, d));
    reveal_strlit("Error Occurred");
    reveal_strlit("$");
    reveal_strlit("$(");
    reveal_strlit("Unimplemented problem type: ");
    let shown = display_text(after);
    if shown == "Error Occurred"@ {
        assert(shown[0] == 'E');
    }
}

/// Fresh terms change nothing but the terms.
pub proof fn regeneration_keeps_settings(before: MathProblemView, after: MathProblemView)
    requires
        regenerated(before, after),
    ensures
        after == with_terms(before, after.terms),
{
}

/// A subtraction that does not allow negative results draws a subtrahend
/// smaller than its minuend, so the difference is positive.
pub proof fn subtraction_without_negative_result(p: MathProblemView, d: Seq<i32>)
    requires
        is_subtraction(p.problem_type),
        !p.auxillary,
        draws_fit(p, d),
    ensures
        terms_for_draws(p, d) == seq![number_term(d[0] as int), number_term(d[1] as int)],
        d[0] - d[1] > 0,
        p.lower_bound <= d[1],
        d[0] < p.upper_bound,
{
}

/// A division that does not allow remainders shows divisor times a drawn
/// quotient as its dividend, so the division is exact; one that allows them
/// draws a dividend no smaller than the divisor.
pub proof fn division_dividend(p: MathProblemView, d: Seq<i32>)
    requires
        is_division(p.problem_type),
        draws_fit(p, d),
        !dividend_overflows(p, d),
    ensures
        !p.auxillary ==> terms_for_draws(p, d) == seq![
            number_term(d[0] * d[1]),
            number_term(d[0] as int),
        ],
        !p.auxillary && d[0] != 0 ==> (d[0] * d[1]) % (d[0] as int) == 0,
        p.auxillary ==> terms_for_draws(p, d) == seq![
            number_term(d[1] as int),
            number_term(d[0] as int),
        ] && d[0] <= d[1],
{
    if !p.auxillary && d[0] != 0 {
        let a = d[0] as int;
        let b = d[1] as int;
        assert((a * b) % a == 0) by (nonlinear_arith)
            requires
                a != 0,
        ;
    }
}

/// The last character of a decimal text is a digit.
pub proof fn int_text_ends_in_digit(x: int)
    ensures
        int_text(x).len() > 0,
        int_text(x).last() == digit_char((if x < 0 {
            -x
        } else {
            x
        }) as nat % 10),
{
    let n: nat = (if x < 0 {
        -x
    } else {
        x
    }) as nat;
    assert(nat_text(n).last() == digit_char(n % 10));
}

/// A proportion shows its four drawn values with exactly one of them, the one
/// at the drawn position, replaced by the unknown `x`.
pub proof fn proportion_has_one_unknown(p: MathProblemView, d: Seq<i32>)
    requires
        p.problem_type == ImplementedProblem::Proportions,
        draws_fit(p, d),
    ensures
        terms_for_draws(p, d).len() == 4,
        terms_for_draws(p, d)[d[4] as int] == whole_term("x"@),
        forall|i: int|
            0 <= i < 4 && i != d[4] ==> #[trigger] terms_for_draws(p, d)[i] == number_term(
                d[i] as int,
            ) && terms_for_draws(p, d)[i] != whole_term("x"@),
{
    reveal_strlit("x");
    assert forall|i: int| 0 <= i < 4 && i != d[4] implies #[trigger] terms_for_draws(p, d)[i]
        != whole_term("x"@) by {
        int_text_ends_in_digit(d[i] as int);
        let t = int_text(d[i] as int);
        if t == "x"@ {
            assert(t.last() == 'x');
        }
    }
}

/// Choosing a kind leaves at least as many terms as the kind needs: the terms
/// held stay first, and any added after them are empty.
pub proof fn chosen_kind_has_enough_terms(terms: Seq<TermView>, kind: ImplementedProblem)
    ensures
        padded_terms(terms, kind.operand_count()).len() >= kind.operand_count(),
        padded_terms(terms, kind.operand_count()).len() == if terms.len() >= kind.operand_count() {
            terms.len()
        } else {
            kind.operand_count()
        },
        padded_terms(terms, kind.operand_count()).take(terms.len() as int) == terms,
        forall|j: int|
            terms.len() <= j < padded_terms(terms, kind.operand_count()).len() ==> #[trigger] padded_terms(
                terms,
                kind.operand_count(),
            )[j] == whole_term(Seq::empty()),
{
    assert(padded_terms(terms, kind.operand_count()).take(terms.len() as int) =~= terms);
}

/// The left column of a worksheet holds the problems at even positions and the
/// right column those at odd positions, each in worksheet order.
pub proof fn columns_alternate(ps: Seq<MathProblemView>, parity: int)
    requires
        parity == 0 || parity == 1,
    ensures
        column(ps, parity).len() == (ps.len() + 1 - parity) / 2,
        forall|k: int|
            0 <= k < column(ps, parity).len() ==> #[trigger] column(ps, parity)[k] == block_text(
                ps[2 * k + parity],
            ),
    decreases ps.len(),
{
    if ps.len() > 0 {
        let rest = ps.drop_last();
        columns_alternate(rest, parity);
        assert forall|k: int|
            0 <= k < column(ps, parity).len() implies #[trigger] column(ps, parity)[k] == block_text(
            ps[2 * k + parity],
        ) by {
            if k < column(rest, parity).len() {
                assert(rest[2 * k + parity] == ps[2 * k + parity]);
            }
        }
    }
}

/// Deleting the copy that duplicating put in front of a problem gives the
/// worksheet back.
/// (`duplicate(i)` leaves `problems.insert(i, copy)`, `delete(i)` leaves
/// `problems.remove(i)`.)
pub proof fn delete_undoes_duplicate(problems: Seq<MathProblemView>, i: int, copy: MathProblemView)
    requires
        0 <= i < problems.len(),
    ensures
        problems.insert(i, copy).remove(i) == problems,
{
    assert(problems.insert(i, copy).remove(i) =~= problems);
}

/// Storing a problem that is not randomized, opened for editing and left
/// unchanged, gives the worksheet back.
pub proof fn unchanged_edit_keeps_the_worksheet(
    problems: Seq<MathProblemView>,
    i: int,
    stored: MathProblemView,
)
    requires
        0 <= i < problems.len(),
        !problems[i].randomized,
        regenerated(problems[i], stored),
    ensures
        problems.update(i, stored) == problems,
{
    assert(problems.update(i, stored) =~= problems);
}

/// Whether a kind carries the subtraction: `LargeFormatFourOp`,
/// `MissingOperand` or `FourOp` with `BasicOperation::Subtraction`.
pub open spec fn carries_subtraction(kind: ImplementedProblem) -> bool {
    kind.has_operation() && kind.with_operation(BasicOperation::Subtraction) == kind
}

/// Every kind that carries the subtraction and does not allow negative results
/// draws its minuend from the problem's range and then its subtrahend from
/// `lower_bound..minuend`.
pub proof fn subtraction_draws_below_the_minuend(p: MathProblemView, minuend: i32)
    requires
        carries_subtraction(p.problem_type),
        !p.auxillary,
    ensures
        draw_range(p, Seq::empty()) == Some((p.lower_bound, p.upper_bound)),
        draw_range(p, seq![minuend]) == Some((p.lower_bound, minuend)),
        draw_range(p, seq![minuend, minuend]) is None,
{
}

/// Every kind that carries the subtraction and allows negative results draws
/// both values from the problem's range.
pub proof fn subtraction_with_negative_results_draws_from_the_range(p: MathProblemView, first: i32)
    requires
        carries_subtraction(p.problem_type),
        p.auxillary,
    ensures
        draw_range(p, Seq::empty()) == Some((p.lower_bound, p.upper_bound)),
        draw_range(p, seq![first]) == Some((p.lower_bound, p.upper_bound)),
{
}

/// Fresh terms of a subtraction without negative results are a minuend and a
/// smaller subtrahend, both in the problem's range: `lower_bound <= b < a <
/// upper_bound`, whichever kind carries the subtraction.
pub proof fn regenerated_subtraction_is_not_negative(before: MathProblemView, after: MathProblemView)
    requires
        carries_subtraction(before.problem_type),
        !before.auxillary,
        before.randomized,
        regenerated(before, after),
    ensures
        exists|a: i32, b: i32|
            after.terms == seq![number_term(a as int), number_term(b as int)] && before.lower_bound
                <= b < a < before.upper_bound,
{
    let d = choose|d: Seq<i32>|
        draws_complete(before, d) && !dividend_overflows(before, d) && after == with_terms(
            before,
            #[trigger] terms_for_draws(before, d),
        );
    complete_draws_fit(before, d);
    assert(after.terms == seq![number_term(d[0] as int), number_term(d[1] as int)]);
}

/// A division draws its divisor from the problem's range, then its dividend
/// from `divisor..upper_bound` when remainders are allowed, or a quotient from
/// the range when they are not.
pub proof fn division_draw_ranges(p: MathProblemView, divisor: i32, second: i32)
    requires
        p.problem_type == ImplementedProblem::ShortDiv || p.problem_type
            == ImplementedProblem::LongDiv,
    ensures
        draw_range(p, Seq::empty()) == Some((p.lower_bound, p.upper_bound)),
        p.auxillary ==> draw_range(p, seq![divisor]) == Some((divisor, p.upper_bound)),
        !p.auxillary ==> draw_range(p, seq![divisor]) == Some((p.lower_bound, p.upper_bound)),
        draw_range(p, seq![divisor, second]) is None,
{
}

/// A proportion draws four values from the problem's range, then the position
/// of the unknown from `0..4`.
pub proof fn proportion_draw_ranges(p: MathProblemView, d: Seq<i32>)
    requires
        p.problem_type == ImplementedProblem::Proportions,
    ensures
        d.len() < 4 ==> draw_range(p, d) == Some((p.lower_bound, p.upper_bound)),
        d.len() == 4 ==> draw_range(p, d) == Some((0i32, 4i32)),
        d.len() > 4 ==> draw_range(p, d) is None,
{
}

/// Any other kind draws one value per operand, each from the problem's range.
pub proof fn other_kinds_draw_from_the_range(p: MathProblemView, d: Seq<i32>)
    requires
        !carries_subtraction(p.problem_type),
        p.problem_type != ImplementedProblem::ShortDiv,
        p.problem_type != ImplementedProblem::LongDiv,
        p.problem_type != ImplementedProblem::Proportions,
    ensures
        d.len() < p.problem_type.operand_count() ==> draw_range(p, d) == Some(
            (p.lower_bound, p.upper_bound),
        ),
        d.len() >= p.problem_type.operand_count() ==> draw_range(p, d) is None,
        p.problem_type != ImplementedProblem::MoreToCome ==> p.problem_type.operand_count() == 2,
        d.len() == p.problem_type.operand_count() ==> terms_for_draws(p, d).len() == d.len()
            && forall|i: int|
            0 <= i < d.len() ==> #[trigger] terms_for_draws(p, d)[i] == number_term(d[i] as int),
{
}

/// The number of copies kept always lies in `MIN_COPIES..=MAX_COPIES`, and a
/// number already there is kept as asked.
pub proof fn copies_stay_within_limits(n: usize)
    ensures
        MIN_COPIES <= clamp_copies(n) <= MAX_COPIES,
        MIN_COPIES <= n <= MAX_COPIES ==> clamp_copies(n) == n,
        n < MIN_COPIES ==> clamp_copies(n) == MIN_COPIES,
        n > MAX_COPIES ==> clamp_copies(n) == MAX_COPIES,
{
}

} // verus!
