//! The Typst source of a worksheet: the problems laid out in two columns.
use vstd::prelude::*;

use crate::problems::{display_text, MathProblem, MathProblemView};

verus! {

/// The views of a sequence of problems.
pub open spec fn problem_views(ps: Seq<MathProblem>) -> Seq<MathProblemView> {
    ps.map_values(|p: MathProblem| p@)
}

/// A problem wrapped in a Typst block.
pub open spec fn block_text(p: MathProblemView) -> Seq<char> {
    "#block[\n"@ + display_text(p) + "\n]"@
}

/// The blocks of the problems whose position has the given parity, in order:
/// parity 0 gives the left column, parity 1 the right one.
pub open spec fn column(ps: Seq<MathProblemView>, parity: int) -> Seq<Seq<char>>
    decreases ps.len(),
{
    if ps.len() == 0 {
        Seq::empty()
    } else {
        let rest = column(ps.drop_last(), parity);
        if (ps.len() - 1) % 2 == parity {
            rest.push(block_text(ps.last()))
        } else {
            rest
        }
    }
}

/// The parts joined with a newline between each two.
pub open spec fn join_lines(parts: Seq<Seq<char>>) -> Seq<char>
    decreases parts.len(),
{
    if parts.len() == 0 {
        Seq::empty()
    } else if parts.len() == 1 {
        parts[0]
    } else {
        join_lines(parts.drop_last()) + "\n"@ + parts.last()
    }
}

/// The Typst source of a worksheet: the template import, the text size, and
/// a stack of two half-width boxes, the left one holding the problems at even
/// positions and the right one those at odd positions.
pub open spec fn worksheet_text(ps: Seq<MathProblemView>) -> Seq<char> {
    "#import \"worksheet.typ\": *\n\n#set text(size: 25pt)\n\n#stack(dir: ltr, [#box(width: 50%)[\n"@
        + join_lines(column(ps, 0)) + "\n]],\n[#box(width: 50%)[\n"@ + join_lines(column(ps, 1))
        + "\n]])"@
}

/// Appends a line to a column built so far.
fn push_line(col: &mut String, line: &String, first: bool, Ghost(parts): Ghost<Seq<Seq<char>>>)
    requires
        first == (parts.len() == 0),
        old(col)@ == join_lines(parts),
    ensures
        final(col)@ == join_lines(parts.push(line@)),
{
    proof {
        reveal_strlit("\n");
        assert(parts.push(line@).drop_last() =~= parts);
    }
    if !first {
        col.append("\n");
    }
    col.append(line.as_str());
    proof {
        if parts.len() == 0 {
            assert(col@ =~= join_lines(parts.push(line@)));
        }
    }
}

/// The Typst source of a worksheet holding the given problems.
pub fn worksheet_source(problems: &Vec<MathProblem>) -> (source: String)
    ensures
        source@ == worksheet_text(problem_views(problems@)),
{
    let ghost ps = problem_views(problems@);
    let mut left = String::new();
    let mut right = String::new();
    let mut i: usize = 0;
    proof {
        assert(ps.take(0) =~= Seq::<MathProblemView>::empty());
    }
    while i < problems.len()
        invariant
            i <= problems.len(),
            ps == problem_views(problems@),
            left@ == join_lines(column(ps.take(i as int), 0)),
            right@ == join_lines(column(ps.take(i as int), 1)),
            column(ps.take(i as int), 0).len() == (i + 1) / 2,
            column(ps.take(i as int), 1).len() == i / 2,
        decreases problems.len() - i,
    {
        let mut block = String::from_str("#block[\n");
        block.append(problems[i].display().as_str());
        block.append("\n]");
        proof {
            assert(ps.take(i + 1).drop_last() =~= ps.take(i as int));
            assert(ps.take(i + 1).last() == problems[i as int]@);
        }
        if i % 2 == 0 {
            push_line(&mut left, &block, i == 0, Ghost(column(ps.take(i as int), 0)));
        } else {
            push_line(&mut right, &block, i == 1, Ghost(column(ps.take(i as int), 1)));
        }
        i = i + 1;
    }
    proof {
        assert(ps.take(problems.len() as int) =~= ps);
    }
    let mut source = String::from_str(
        "#import \"worksheet.typ\": *\n\n#set text(size: 25pt)\n\n#stack(dir: ltr, [#box(width: 50%)[\n",
    );
    source.append(left.as_str());
    source.append("\n]],\n[#box(width: 50%)[\n");
    source.append(right.as_str());
    source.append("\n]])");
    source
}

} // verus!
