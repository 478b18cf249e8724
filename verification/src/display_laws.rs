//! Properties of how problems, kinds and worksheets are written.
use vstd::prelude::*;

use crate::laws::columns_alternate;
use crate::problems::{
    display_text, kind_text, operation_text, term_text, BasicOperation, ImplementedProblem,
    MathProblemView, TermView,
};
use crate::sheet::{block_text, column, join_lines, worksheet_text};
use crate::text::{digit_char, int_text, nat_text};

verus! {

/// Texts that differ only in one middle piece differ.
pub proof fn middle_piece_decides(a: Seq<char>, x: Seq<char>, y: Seq<char>, b: Seq<char>)
    requires
        x != y,
    ensures
        a + x + b != a + y + b,
{
    if a + x + b == a + y + b {
        assert((a + x + b).len() == (a + y + b).len());
        assert((a + x + b).subrange(a.len() as int, (a.len() + x.len()) as int) =~= x);
        assert((a + y + b).subrange(a.len() as int, (a.len() + y.len()) as int) =~= y);
    }
}

/// The four operations have four different symbols.
pub proof fn operation_symbols_differ(a: BasicOperation, b: BasicOperation)
    requires
        a != b,
    ensures
        operation_text(a) != operation_text(b),
        operation_text(a).len() == 1,
{
    reveal_strlit("+");
    reveal_strlit("-");
    reveal_strlit("*");
    reveal_strlit("◦");
    if operation_text(a) == operation_text(b) {
        assert(operation_text(a)[0] == operation_text(b)[0]);
    }
}

/// A kind that carries an operation is named after it: its name is its
/// family's name, then the operation's symbol in parentheses, so kinds of one
/// family with different operations have different names.
pub proof fn kind_names_show_the_operation(kind: ImplementedProblem, a: BasicOperation, b: BasicOperation)
    requires
        kind.has_operation(),
        a != b,
    ensures
        kind_text(kind.with_operation(a)) != kind_text(kind.with_operation(b)),
        kind == ImplementedProblem::MissingOperand(a) ==> kind_text(kind) == "Missing Operand ("@
            + operation_text(a) + ")"@,
        kind == ImplementedProblem::FourOp(a) ==> kind_text(kind) == "Basic Arithmetic ("@
            + operation_text(a) + ")"@,
        kind == ImplementedProblem::LargeFormatFourOp(a) ==> kind_text(kind)
            == "Large Format Basic Arithmetic ("@ + operation_text(a) + ")"@,
{
    operation_symbols_differ(a, b);
    let prefix = match kind {
        ImplementedProblem::LargeFormatFourOp(_) => "Large Format Basic Arithmetic ("@,
        ImplementedProblem::MissingOperand(_) => "Missing Operand ("@,
        _ => "Basic Arithmetic ("@,
    };
    middle_piece_decides(prefix, operation_text(a), operation_text(b), ")"@);
}

/// A basic arithmetic problem writes both its terms in full, fractions
/// included: `$a o b = ___$`.
pub proof fn four_op_writes_both_terms(p: MathProblemView, o: BasicOperation)
    requires
        p.problem_type == ImplementedProblem::FourOp(o),
        p.terms.len() >= 2,
    ensures
        display_text(p) == "$"@ + term_text(p.terms[0]) + " "@ + operation_text(o) + " "@
            + term_text(p.terms[1]) + " = \\_\\_\\_$"@,
{
}

/// A missing-operand problem writes its operand and result in full:
/// `$a o ___ = c$`.
pub proof fn missing_operand_writes_both_terms(p: MathProblemView, o: BasicOperation)
    requires
        p.problem_type == ImplementedProblem::MissingOperand(o),
        p.terms.len() >= 2,
    ensures
        display_text(p) == "$"@ + term_text(p.terms[0]) + " "@ + operation_text(o)
            + " \\_\\_\\_ = "@ + term_text(p.terms[1]) + "$"@,
{
}

/// A horizontal division writes dividend and divisor in full:
/// `$a ÷ b = ___$`.
pub proof fn short_division_writes_both_terms(p: MathProblemView)
    requires
        p.problem_type == ImplementedProblem::ShortDiv,
        p.terms.len() >= 2,
    ensures
        display_text(p) == "$"@ + term_text(p.terms[0]) + " ÷ "@ + term_text(p.terms[1])
            + " = \\_\\_\\_$"@,
{
}

/// A proportion writes its four terms in full: `$(a)/(b) = (c)/(d)$`.
pub proof fn proportion_writes_all_terms(p: MathProblemView)
    requires
        p.problem_type == ImplementedProblem::Proportions,
        p.terms.len() >= 4,
    ensures
        display_text(p) == "$("@ + term_text(p.terms[0]) + ")/("@ + term_text(p.terms[1])
            + ") = ("@ + term_text(p.terms[2]) + ")/("@ + term_text(p.terms[3]) + ")$"@,
{
}

/// A term with a fraction shows its numerator and denominator after its whole
/// part.
pub proof fn fraction_is_shown(t: TermView)
    requires
        t.denominator != 0,
    ensures
        term_text(t) == t.whole + " ("@ + int_text(t.numerator as int) + ") / ("@ + int_text(
            t.denominator as int,
        ) + ")"@,
        term_text(t).subrange(0, t.whole.len() as int) == t.whole,
        term_text(t).len() > t.whole.len(),
{
    assert(term_text(t).subrange(0, t.whole.len() as int) =~= t.whole);
    reveal_strlit(" (");
}

/// Whether `p` is written as math from its terms: one of the four kinds with
/// a written form, holding as many terms as it needs.
pub open spec fn written_from_terms(p: MathProblemView) -> bool {
    &&& (p.problem_type matches ImplementedProblem::FourOp(_) || p.problem_type
        matches ImplementedProblem::MissingOperand(_) || p.problem_type
        == ImplementedProblem::ShortDiv || p.problem_type == ImplementedProblem::Proportions)
    &&& p.terms.len() >= p.problem_type.operand_count()
}

proof fn four_op_display_differs(p: MathProblemView, q: MathProblemView, i: int, o: BasicOperation)
    requires
        p.problem_type == ImplementedProblem::FourOp(o),
        q.problem_type == p.problem_type,
        p.terms.len() >= 2,
        q.terms.len() >= 2,
        i == 0 || i == 1,
        term_text(p.terms[i]) != term_text(q.terms[i]),
        i != 0 ==> term_text(p.terms[0]) == term_text(q.terms[0]),
        i != 1 ==> term_text(p.terms[1]) == term_text(q.terms[1]),
    ensures
        display_text(p) != display_text(q),
{
    four_op_writes_both_terms(p, o);
    four_op_writes_both_terms(q, o);
    let x = term_text(p.terms[i]);
    let y = term_text(q.terms[i]);
    let t0 = term_text(p.terms[0]);
    let t1 = term_text(p.terms[1]);
    let op = operation_text(o);
    if i == 0 {
        let a = "$"@;
        let b = " "@ + op + " "@ + t1 + " = \\_\\_\\_$"@;
        assert(display_text(p) =~= a + x + b);
        assert(display_text(q) =~= a + y + b);
        middle_piece_decides(a, x, y, b);
    } else {
        let a = "$"@ + t0 + " "@ + op + " "@;
        let b = " = \\_\\_\\_$"@;
        assert(display_text(p) =~= a + x + b);
        assert(display_text(q) =~= a + y + b);
        middle_piece_decides(a, x, y, b);
    }
}

proof fn missing_operand_texts_differ(
    t0p: Seq<char>,
    t1p: Seq<char>,
    t0q: Seq<char>,
    t1q: Seq<char>,
    op: Seq<char>,
    i: int,
)
    requires
        i == 0 ==> t0p != t0q && t1p == t1q,
        i == 1 ==> t1p != t1q && t0p == t0q,
        i == 0 || i == 1,
    ensures
        "$"@ + t0p + " "@ + op + " \\_\\_\\_ = "@ + t1p + "$"@ != "$"@ + t0q + " "@ + op
            + " \\_\\_\\_ = "@ + t1q + "$"@,
{
    if i == 0 {
        let a = "$"@;
        let b = " "@ + op + " \\_\\_\\_ = "@ + t1p + "$"@;
        assert("$"@ + t0p + " "@ + op + " \\_\\_\\_ = "@ + t1p + "$"@ =~= a + t0p + b);
        assert("$"@ + t0q + " "@ + op + " \\_\\_\\_ = "@ + t1q + "$"@ =~= a + t0q + b);
        middle_piece_decides(a, t0p, t0q, b);
    } else {
        let a = "$"@ + t0p + " "@ + op + " \\_\\_\\_ = "@;
        let b = "$"@;
        assert("$"@ + t0q + " "@ + op + " \\_\\_\\_ = "@ + t1q + "$"@ =~= a + t1q + b);
        middle_piece_decides(a, t1p, t1q, b);
    }
}

proof fn missing_operand_display_differs(
    p: MathProblemView,
    q: MathProblemView,
    i: int,
    o: BasicOperation,
)
    requires
        p.problem_type == ImplementedProblem::MissingOperand(o),
        q.problem_type == p.problem_type,
        p.terms.len() >= 2,
        q.terms.len() >= 2,
        i == 0 || i == 1,
        term_text(p.terms[i]) != term_text(q.terms[i]),
        i != 0 ==> term_text(p.terms[0]) == term_text(q.terms[0]),
        i != 1 ==> term_text(p.terms[1]) == term_text(q.terms[1]),
    ensures
        display_text(p) != display_text(q),
{
    missing_operand_writes_both_terms(p, o);
    missing_operand_writes_both_terms(q, o);
    missing_operand_texts_differ(
        term_text(p.terms[0]),
        term_text(p.terms[1]),
        term_text(q.terms[0]),
        term_text(q.terms[1]),
        operation_text(o),
        i,
    );
}

proof fn short_division_display_differs(p: MathProblemView, q: MathProblemView, i: int)
    requires
        p.problem_type == ImplementedProblem::ShortDiv,
        q.problem_type == p.problem_type,
        p.terms.len() >= 2,
        q.terms.len() >= 2,
        i == 0 || i == 1,
        term_text(p.terms[i]) != term_text(q.terms[i]),
        i != 0 ==> term_text(p.terms[0]) == term_text(q.terms[0]),
        i != 1 ==> term_text(p.terms[1]) == term_text(q.terms[1]),
    ensures
        display_text(p) != display_text(q),
{
    short_division_writes_both_terms(p);
    short_division_writes_both_terms(q);
    let x = term_text(p.terms[i]);
    let y = term_text(q.terms[i]);
    let t0 = term_text(p.terms[0]);
    let t1 = term_text(p.terms[1]);
    if i == 0 {
        let a = "$"@;
        let b = " ÷ "@ + t1 + " = \\_\\_\\_$"@;
        assert(display_text(p) =~= a + x + b);
        assert(display_text(q) =~= a + y + b);
        middle_piece_decides(a, x, y, b);
    } else {
        let a = "$"@ + t0 + " ÷ "@;
        let b = " = \\_\\_\\_$"@;
        assert(display_text(p) =~= a + x + b);
        assert(display_text(q) =~= a + y + b);
        middle_piece_decides(a, x, y, b);
    }
}

/// How a proportion is written from the texts of its four terms.
pub open spec fn proportion_text(t: Seq<Seq<char>>) -> Seq<char> {
    "$("@ + t[0] + ")/("@ + t[1] + ") = ("@ + t[2] + ")/("@ + t[3] + ")$"@
}

proof fn proportion_texts_differ(tp: Seq<Seq<char>>, tq: Seq<Seq<char>>, i: int)
    requires
        tp.len() == 4,
        tq.len() == 4,
        0 <= i < 4,
        tp[i] != tq[i],
        forall|j: int| 0 <= j < 4 && j != i ==> tp[j] == tq[j],
    ensures
        proportion_text(tp) != proportion_text(tq),
{
    let x = tp[i];
    let y = tq[i];
    assert(i != 0 ==> tp[0] == tq[0]);
    assert(i != 1 ==> tp[1] == tq[1]);
    assert(i != 2 ==> tp[2] == tq[2]);
    assert(i != 3 ==> tp[3] == tq[3]);
    let (a, b) = if i == 0 {
        ("$("@, ")/("@ + tp[1] + ") = ("@ + tp[2] + ")/("@ + tp[3] + ")$"@)
    } else if i == 1 {
        ("$("@ + tp[0] + ")/("@, ") = ("@ + tp[2] + ")/("@ + tp[3] + ")$"@)
    } else if i == 2 {
        ("$("@ + tp[0] + ")/("@ + tp[1] + ") = ("@, ")/("@ + tp[3] + ")$"@)
    } else {
        ("$("@ + tp[0] + ")/("@ + tp[1] + ") = ("@ + tp[2] + ")/("@, ")$"@)
    };
    assert(proportion_text(tp) =~= a + x + b);
    assert(proportion_text(tq) =~= a + y + b);
    middle_piece_decides(a, x, y, b);
}

proof fn proportion_display_differs(p: MathProblemView, q: MathProblemView, i: int)
    requires
        p.problem_type == ImplementedProblem::Proportions,
        q.problem_type == p.problem_type,
        p.terms.len() >= 4,
        q.terms.len() >= 4,
        0 <= i < 4,
        term_text(p.terms[i]) != term_text(q.terms[i]),
        i != 0 ==> term_text(p.terms[0]) == term_text(q.terms[0]),
        i != 1 ==> term_text(p.terms[1]) == term_text(q.terms[1]),
        i != 2 ==> term_text(p.terms[2]) == term_text(q.terms[2]),
        i != 3 ==> term_text(p.terms[3]) == term_text(q.terms[3]),
    ensures
        display_text(p) != display_text(q),
{
    proportion_writes_all_terms(p);
    proportion_writes_all_terms(q);
    let tp = seq![
        term_text(p.terms[0]),
        term_text(p.terms[1]),
        term_text(p.terms[2]),
        term_text(p.terms[3]),
    ];
    let tq = seq![
        term_text(q.terms[0]),
        term_text(q.terms[1]),
        term_text(q.terms[2]),
        term_text(q.terms[3]),
    ];
    assert(display_text(p) == proportion_text(tp));
    assert(display_text(q) == proportion_text(tq));
    proportion_texts_differ(tp, tq, i);
}

/// Every term a problem is written from shows in its display: two problems of
/// the same kind whose terms are written alike except at one position, where
/// they are written differently, display differently.
pub proof fn display_shows_every_term(p: MathProblemView, q: MathProblemView, i: int)
    requires
        written_from_terms(p),
        q.problem_type == p.problem_type,
        q.terms.len() >= p.problem_type.operand_count(),
        0 <= i < p.problem_type.operand_count(),
        term_text(p.terms[i]) != term_text(q.terms[i]),
        forall|j: int|
            0 <= j < p.problem_type.operand_count() && j != i ==> #[trigger] term_text(p.terms[j])
                == term_text(q.terms[j]),
    ensures
        display_text(p) != display_text(q),
{
    if p.problem_type == ImplementedProblem::Proportions {
        assert(i != 0 ==> term_text(p.terms[0]) == term_text(q.terms[0]));
        assert(i != 1 ==> term_text(p.terms[1]) == term_text(q.terms[1]));
        assert(i != 2 ==> term_text(p.terms[2]) == term_text(q.terms[2]));
        assert(i != 3 ==> term_text(p.terms[3]) == term_text(q.terms[3]));
        proportion_display_differs(p, q, i);
    } else {
        assert(i != 0 ==> term_text(p.terms[0]) == term_text(q.terms[0]));
        assert(i != 1 ==> term_text(p.terms[1]) == term_text(q.terms[1]));
        match p.problem_type {
            ImplementedProblem::FourOp(o) => four_op_display_differs(p, q, i, o),
            ImplementedProblem::MissingOperand(o) => missing_operand_display_differs(p, q, i, o),
            _ => short_division_display_differs(p, q, i),
        }
    }
}

/// Where a piece of text stands in a longer one.
pub open spec fn occurs_at(text: Seq<char>, piece: Seq<char>, at: int) -> bool {
    0 <= at && at + piece.len() <= text.len() && text.subrange(at, at + piece.len()) == piece
}

/// Each part stands in the lines joined from the parts.
pub proof fn joined_lines_hold_each_part(parts: Seq<Seq<char>>, k: int) -> (at: int)
    requires
        0 <= k < parts.len(),
    ensures
        occurs_at(join_lines(parts), parts[k], at),
    decreases parts.len(),
{
    if parts.len() == 1 {
        assert(join_lines(parts).subrange(0, parts[0].len() as int) =~= parts[0]);
        0
    } else {
        let rest = parts.drop_last();
        let head = join_lines(rest);
        reveal_strlit("\n");
        assert(join_lines(parts) == head + "\n"@ + parts.last());
        if k < parts.len() - 1 {
            let at = joined_lines_hold_each_part(rest, k);
            assert(rest[k] == parts[k]);
            assert(join_lines(parts).subrange(at, at + parts[k].len()) =~= head.subrange(
                at,
                at + parts[k].len(),
            ));
            at
        } else {
            let at: int = (head.len() + 1) as int;
            assert(join_lines(parts).subrange(at, at + parts[k].len()) =~= parts.last());
            at
        }
    }
}

/// Every problem of a worksheet has its block in the worksheet's source: the
/// problem at position `k` stands in the left column when `k` is even and in
/// the right one when it is odd, as the `k / 2`-th block there.
pub proof fn worksheet_holds_every_problem(ps: Seq<MathProblemView>, k: int) -> (at: int)
    requires
        0 <= k < ps.len(),
    ensures
        occurs_at(worksheet_text(ps), block_text(ps[k]), at),
        column(ps, k % 2)[k / 2] == block_text(ps[k]),
        column(ps, 0).len() + column(ps, 1).len() == ps.len(),
{
    columns_alternate(ps, 0);
    columns_alternate(ps, 1);
    let head = "#import \"worksheet.typ\": *\n\n#set text(size: 25pt)\n\n#stack(dir: ltr, [#box(width: 50%)[\n"@;
    let mid = "\n]],\n[#box(width: 50%)[\n"@;
    let tail = "\n]])"@;
    let left = join_lines(column(ps, 0));
    let right = join_lines(column(ps, 1));
    let text = worksheet_text(ps);
    assert(text == head + left + mid + right + tail);
    let parity = k % 2;
    assert(2 * (k / 2) + parity == k);
    assert(column(ps, parity)[k / 2] == block_text(ps[k]));
    let piece = block_text(ps[k]);
    if parity == 0 {
        let inner = joined_lines_hold_each_part(column(ps, 0), k / 2);
        let at: int = head.len() as int + inner;
        assert(text.subrange(at, at + piece.len()) =~= left.subrange(inner, inner + piece.len()));
        at
    } else {
        let inner = joined_lines_hold_each_part(column(ps, 1), k / 2);
        let at: int = (head.len() + left.len() + mid.len()) as int + inner;
        assert(text.subrange(at, at + piece.len()) =~= right.subrange(inner, inner + piece.len()));
        at
    }
}

/// The value of a decimal digit character, and -1 for any other character.
pub open spec fn digit_value(c: char) -> int {
    if c == '0' {
        0
    } else if c == '1' {
        1
    } else if c == '2' {
        2
    } else if c == '3' {
        3
    } else if c == '4' {
        4
    } else if c == '5' {
        5
    } else if c == '6' {
        6
    } else if c == '7' {
        7
    } else if c == '8' {
        8
    } else if c == '9' {
        9
    } else {
        -1
    }
}

/// The number a string of decimal digits reads as, most significant first.
pub open spec fn decimal_value(s: Seq<char>) -> int
    decreases s.len(),
{
    if s.len() == 0 {
        0
    } else {
        decimal_value(s.drop_last()) * 10 + digit_value(s.last())
    }
}

/// The decimal text of a natural number is made of digits, starts with a
/// non-zero digit unless the number is zero, and reads back as the number.
pub proof fn decimal_text_reads_back(n: nat)
    ensures
        nat_text(n).len() > 0,
        forall|i: int| 0 <= i < nat_text(n).len() ==> 0 <= #[trigger] digit_value(nat_text(n)[i]) < 10,
        n > 0 ==> nat_text(n)[0] != '0',
        decimal_value(nat_text(n)) == n,
    decreases n,
{
    let d = (n % 10) as nat;
    assert(digit_value(digit_char(d)) == d);
    if n >= 10 {
        let q = (n / 10) as nat;
        decimal_text_reads_back(q);
        let t = nat_text(n);
        assert(t == nat_text(q) + seq![digit_char(d)]);
        assert(t.drop_last() =~= nat_text(q));
        assert(t[0] == nat_text(q)[0]);
        assert forall|i: int| 0 <= i < t.len() implies 0 <= #[trigger] digit_value(t[i]) < 10 by {
            if i < nat_text(q).len() {
                assert(t[i] == nat_text(q)[i]);
            }
        }
        assert(t.last() == digit_char(d));
        assert(decimal_value(t) == decimal_value(t.drop_last()) * 10 + digit_value(t.last()));
        assert(q * 10 + d == n);
    } else {
        let t = nat_text(n);
        assert(t.drop_last() =~= Seq::<char>::empty());
        assert(decimal_value(t) == decimal_value(t.drop_last()) * 10 + digit_value(t.last()));
    }
}

/// The decimal text of an integer is its natural number's text, after a `-`
/// sign exactly when the integer is negative.
pub proof fn integer_text_reads_back(x: int)
    ensures
        x < 0 ==> int_text(x)[0] == '-' && int_text(x).drop_first() == nat_text((-x) as nat),
        x >= 0 ==> int_text(x) == nat_text(x as nat) && int_text(x)[0] != '-',
        x >= 0 ==> decimal_value(int_text(x)) == x,
        x < 0 ==> decimal_value(int_text(x).drop_first()) == -x,
{
    if x < 0 {
        decimal_text_reads_back((-x) as nat);
        assert(int_text(x).drop_first() =~= nat_text((-x) as nat));
    } else {
        decimal_text_reads_back(x as nat);
        assert(0 <= digit_value(nat_text(x as nat)[0]) < 10);
    }
}

/// A worksheet block holds its problem's display: problems that display
/// differently have different blocks.
pub proof fn blocks_show_the_display(p: MathProblemView, q: MathProblemView)
    requires
        display_text(p) != display_text(q),
    ensures
        block_text(p) != block_text(q),
{
    middle_piece_decides("#block[\n"@, display_text(p), display_text(q), "\n]"@);
}

/// The first two characters of a kind's name, which tell the families apart.
proof fn kind_name_start(k: ImplementedProblem)
    ensures
        kind_text(k).len() >= 2,
        kind_text(k)[0] == match k {
            ImplementedProblem::LargeFormatFourOp(_) => 'L',
            ImplementedProblem::MissingOperand(_) => 'M',
            ImplementedProblem::FourOp(_) => 'B',
            ImplementedProblem::LongDiv => 'L',
            ImplementedProblem::ShortDiv => 'H',
            ImplementedProblem::Proportions => 'P',
            ImplementedProblem::DirectPercent => 'D',
            ImplementedProblem::MoreToCome => 'U',
        },
        kind_text(k)[1] == match k {
            ImplementedProblem::LargeFormatFourOp(_) => 'a',
            ImplementedProblem::LongDiv => 'o',
            _ => kind_text(k)[1],
        },
{
    reveal_strlit("Large Format Basic Arithmetic (");
    reveal_strlit("Missing Operand (");
    reveal_strlit("Basic Arithmetic (");
    reveal_strlit("Long Division");
    reveal_strlit("Horizontal Division");
    reveal_strlit("Proportions");
    reveal_strlit("Direct Percent");
    reveal_strlit("Unimplemented");
}

/// Different kinds have different names, so every entry of the kind menu can
/// be told apart.
pub proof fn kind_names_differ(a: ImplementedProblem, b: ImplementedProblem)
    requires
        a != b,
    ensures
        kind_text(a) != kind_text(b),
{
    kind_name_start(a);
    kind_name_start(b);
    if kind_text(a) == kind_text(b) {
        assert(kind_text(a)[0] == kind_text(b)[0]);
        assert(kind_text(a)[1] == kind_text(b)[1]);
        match (a, b) {
            (ImplementedProblem::LargeFormatFourOp(x), ImplementedProblem::LargeFormatFourOp(y)) => {
                kind_names_show_the_operation(a, x, y);
                assert(a.with_operation(x) == a && a.with_operation(y) == b);
            },
            (ImplementedProblem::MissingOperand(x), ImplementedProblem::MissingOperand(y)) => {
                kind_names_show_the_operation(a, x, y);
                assert(a.with_operation(x) == a && a.with_operation(y) == b);
            },
            (ImplementedProblem::FourOp(x), ImplementedProblem::FourOp(y)) => {
                kind_names_show_the_operation(a, x, y);
                assert(a.with_operation(x) == a && a.with_operation(y) == b);
            },
            _ => {},
        }
    }
}

} // verus!
