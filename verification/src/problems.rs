//! The kinds of worksheet problems, their terms, and how a problem is written
//! as a line of Typst math.
use vstd::prelude::*;

use crate::text::{int_text, nat_text, push_int_text, push_nat_text};

verus! {

/// One of the four basic operations a problem can ask about.
#[derive(Clone, Copy, PartialEq, Eq, Structural, Debug)]
pub enum BasicOperation {
    Undecided,
    Addition,
    Subtraction,
    Multiplication,
}

/// The symbol shown for an operation.
pub open spec fn operation_text(op: BasicOperation) -> Seq<char> {
    match op {
        BasicOperation::Addition => "+"@,
        BasicOperation::Subtraction => "-"@,
        BasicOperation::Multiplication => "*"@,
        BasicOperation::Undecided => "◦"@,
    }
}

impl BasicOperation {
    /// The operations a user can choose from, in menu order.
    pub fn iterator() -> (ops: Vec<BasicOperation>)
        ensures
            ops@ == seq![
                BasicOperation::Addition,
                BasicOperation::Subtraction,
                BasicOperation::Multiplication,
            ],
    {
        let mut ops = Vec::new();
        ops.push(BasicOperation::Addition);
        ops.push(BasicOperation::Subtraction);
        ops.push(BasicOperation::Multiplication);
        ops
    }

    /// The symbol of the operation.
    pub fn to_string(&self) -> (s: String)
        ensures
            s@ == operation_text(*self),
    {
        match *self {
            BasicOperation::Addition => String::from_str("+"),
            BasicOperation::Subtraction => String::from_str("-"),
            BasicOperation::Multiplication => String::from_str("*"),
            BasicOperation::Undecided => String::from_str("◦"),
        }
    }
}

/// The kinds of problem a worksheet can hold.
#[derive(Clone, Copy, PartialEq, Eq, Structural, Debug)]
pub enum ImplementedProblem {
    LargeFormatFourOp(BasicOperation),
    MissingOperand(BasicOperation),
    FourOp(BasicOperation),
    LongDiv,
    ShortDiv,
    Proportions,
    DirectPercent,
    MoreToCome,
}

/// The name of a kind of problem, as shown in the menu.
pub open spec fn kind_text(kind: ImplementedProblem) -> Seq<char> {
    match kind {
        ImplementedProblem::LargeFormatFourOp(o) => "Large Format Basic Arithmetic ("@
            + operation_text(o) + ")"@,
        ImplementedProblem::MissingOperand(o) => "Missing Operand ("@ + operation_text(o) + ")"@,
        ImplementedProblem::FourOp(o) => "Basic Arithmetic ("@ + operation_text(o) + ")"@,
        ImplementedProblem::LongDiv => "Long Division"@,
        ImplementedProblem::ShortDiv => "Horizontal Division"@,
        ImplementedProblem::Proportions => "Proportions"@,
        ImplementedProblem::DirectPercent => "Direct Percent"@,
        ImplementedProblem::MoreToCome => "Unimplemented"@,
    }
}

/// The label of the `n`-th operand field, counting from one.
pub open spec fn operand_label(n: nat) -> Seq<char> {
    "Operand "@ + nat_text(n)
}

impl ImplementedProblem {
    /// How many terms a problem of this kind is written with.
    pub open spec fn operand_count(self) -> nat {
        match self {
            ImplementedProblem::Proportions => 4,
            ImplementedProblem::MoreToCome => 0,
            _ => 2,
        }
    }

    /// Whether this kind carries an operation.
    pub open spec fn has_operation(self) -> bool {
        match self {
            ImplementedProblem::LargeFormatFourOp(_) => true,
            ImplementedProblem::MissingOperand(_) => true,
            ImplementedProblem::FourOp(_) => true,
            _ => false,
        }
    }

    /// This kind with its operation replaced by `op`; a kind without an
    /// operation stays as it is.
    pub open spec fn with_operation(self, op: BasicOperation) -> ImplementedProblem {
        match self {
            ImplementedProblem::LargeFormatFourOp(_) => ImplementedProblem::LargeFormatFourOp(op),
            ImplementedProblem::MissingOperand(_) => ImplementedProblem::MissingOperand(op),
            ImplementedProblem::FourOp(_) => ImplementedProblem::FourOp(op),
            _ => self,
        }
    }

    /// The labels of the input fields of a problem of this kind.
    pub open spec fn field_labels(self) -> Seq<Seq<char>> {
        match self {
            ImplementedProblem::MissingOperand(_) => seq!["Operand 1"@, "Result"@],
            ImplementedProblem::LongDiv => seq!["Dividend"@, "Divisor"@],
            ImplementedProblem::ShortDiv => seq!["Dividend"@, "Divisor"@],
            ImplementedProblem::Proportions => seq![
                "Numerator 1"@,
                "Denominator 1"@,
                "Numerator 2"@,
                "Denominator 2"@,
            ],
            ImplementedProblem::DirectPercent => seq!["Percentage"@, "Whole"@],
            _ => Seq::new(self.operand_count(), |i: int| operand_label((i + 1) as nat)),
        }
    }

    /// The kinds a user can choose from, in menu order. Long division is not
    /// offered yet, nor the placeholder kind.
    pub fn iterator() -> (kinds: Vec<ImplementedProblem>)
        ensures
            kinds@ == seq![
                ImplementedProblem::LargeFormatFourOp(BasicOperation::Undecided),
                ImplementedProblem::MissingOperand(BasicOperation::Undecided),
                ImplementedProblem::FourOp(BasicOperation::Undecided),
                ImplementedProblem::ShortDiv,
                ImplementedProblem::Proportions,
                ImplementedProblem::DirectPercent,
            ],
    {
        let mut kinds = Vec::new();
        kinds.push(ImplementedProblem::LargeFormatFourOp(BasicOperation::Undecided));
        kinds.push(ImplementedProblem::MissingOperand(BasicOperation::Undecided));
        kinds.push(ImplementedProblem::FourOp(BasicOperation::Undecided));
        kinds.push(ImplementedProblem::ShortDiv);
        kinds.push(ImplementedProblem::Proportions);
        kinds.push(ImplementedProblem::DirectPercent);
        kinds
    }

    /// How many terms a problem of this kind is written with.
    pub fn required_operands(&self) -> (n: usize)
        ensures
            n == self.operand_count(),
    {
        match *self {
            ImplementedProblem::LargeFormatFourOp(_) => 2,
            ImplementedProblem::MissingOperand(_) => 2,
            ImplementedProblem::FourOp(_) => 2,
            ImplementedProblem::LongDiv => 2,
            ImplementedProblem::ShortDiv => 2,
            ImplementedProblem::Proportions => 4,
            ImplementedProblem::DirectPercent => 2,
            ImplementedProblem::MoreToCome => 0,
        }
    }

    /// The labels of the input fields of a problem of this kind.
    pub fn fields(&self) -> (labels: Vec<String>)
        ensures
            labels.len() == self.field_labels().len(),
            forall|i: int| 0 <= i < labels.len() ==> #[trigger] labels[i]@ == self.field_labels()[i],
    {
        let mut labels: Vec<String> = Vec::new();
        match *self {
            ImplementedProblem::MissingOperand(_) => {
                labels.push(String::from_str("Operand 1"));
                labels.push(String::from_str("Result"));
            },
            ImplementedProblem::LongDiv | ImplementedProblem::ShortDiv => {
                labels.push(String::from_str("Dividend"));
                labels.push(String::from_str("Divisor"));
            },
            ImplementedProblem::Proportions => {
                labels.push(String::from_str("Numerator 1"));
                labels.push(String::from_str("Denominator 1"));
                labels.push(String::from_str("Numerator 2"));
                labels.push(String::from_str("Denominator 2"));
            },
            ImplementedProblem::DirectPercent => {
                labels.push(String::from_str("Percentage"));
                labels.push(String::from_str("Whole"));
            },
            _ => {
                let n = self.required_operands();
                let mut i: usize = 0;
                while i < n
                    invariant
                        i <= n,
                        n == self.operand_count(),
                        n <= 2,
                        labels.len() == i,
                        forall|j: int|
                            0 <= j < i ==> #[trigger] labels[j]@ == operand_label((j + 1) as nat),
                    decreases n - i,
                {
                    let mut label = String::from_str("Operand ");
                    push_nat_text(&mut label, (i + 1) as u64);
                    labels.push(label);
                    i = i + 1;
                }
            },
        }
        labels
    }

    /// Whether this kind carries an operation.
    pub fn requires_operation(&self) -> (b: bool)
        ensures
            b == self.has_operation(),
    {
        match *self {
            ImplementedProblem::LargeFormatFourOp(_) => true,
            ImplementedProblem::MissingOperand(_) => true,
            ImplementedProblem::FourOp(_) => true,
            _ => false,
        }
    }

    /// Replaces the operation of a kind that carries one; other kinds are left
    /// as they are.
    pub fn set_operation(&mut self, new_op: BasicOperation)
        ensures
            *final(self) == old(self).with_operation(new_op),
    {
        match *self {
            ImplementedProblem::LargeFormatFourOp(_) => {
                *self = ImplementedProblem::LargeFormatFourOp(new_op);
            },
            ImplementedProblem::MissingOperand(_) => {
                *self = ImplementedProblem::MissingOperand(new_op);
            },
            ImplementedProblem::FourOp(_) => {
                *self = ImplementedProblem::FourOp(new_op);
            },
            _ => {},
        }
    }

    /// The name of the kind, as shown in the menu.
    pub fn to_string(&self) -> (s: String)
        ensures
            s@ == kind_text(*self),
    {
        match *self {
            ImplementedProblem::LargeFormatFourOp(o) => {
                let mut s = String::from_str("Large Format Basic Arithmetic (");
                let op = o.to_string();
                s.append(op.as_str());
                s.append(")");
                s
            },
            ImplementedProblem::MissingOperand(o) => {
                let mut s = String::from_str("Missing Operand (");
                let op = o.to_string();
                s.append(op.as_str());
                s.append(")");
                s
            },
            ImplementedProblem::FourOp(o) => {
                let mut s = String::from_str("Basic Arithmetic (");
                let op = o.to_string();
                s.append(op.as_str());
                s.append(")");
                s
            },
            ImplementedProblem::LongDiv => String::from_str("Long Division"),
            ImplementedProblem::ShortDiv => String::from_str("Horizontal Division"),
            ImplementedProblem::Proportions => String::from_str("Proportions"),
            ImplementedProblem::DirectPercent => String::from_str("Direct Percent"),
            ImplementedProblem::MoreToCome => String::from_str("Unimplemented"),
        }
    }
}

/// Limits for randomly drawn values.
#[derive(Clone, Copy, PartialEq, Eq, Structural, Debug)]
pub struct Bound {
    pub main_lower: i32,
    pub main_upper: i32,
    pub aux_lower: i32,
    pub aux_upper: i32,
    pub denom_upper: u8,
}

impl Bound {
    /// The default limits.
    pub fn new() -> (b: Bound)
        ensures
            b == (Bound { main_lower: 0, main_upper: 100, aux_lower: 0, aux_upper: 10, denom_upper: 0 }),
    {
        Bound { main_lower: 0, main_upper: 100, aux_lower: 0, aux_upper: 10, denom_upper: 0 }
    }
}

/// What a term holds: its written whole part and, when the denominator is
/// not zero, a fraction.
pub struct TermView {
    pub whole: Seq<char>,
    pub numerator: u32,
    pub denominator: u32,
}

/// One operand of a problem.
#[derive(Debug)]
pub struct Term {
    pub whole: String,
    pub numerator: u32,
    pub denominator: u32,
}

impl View for Term {
    type V = TermView;

    open spec fn view(&self) -> TermView {
        TermView { whole: self.whole@, numerator: self.numerator, denominator: self.denominator }
    }
}

/// A term written with its whole part alone.
pub open spec fn whole_term(whole: Seq<char>) -> TermView {
    TermView { whole, numerator: 0, denominator: 0 }
}

/// How a term is written: the whole part, then ` (numerator) / (denominator)`
/// when the denominator is not zero.
pub open spec fn term_text(t: TermView) -> Seq<char> {
    if t.denominator == 0 {
        t.whole
    } else {
        t.whole + " ("@ + int_text(t.numerator as int) + ") / ("@ + int_text(t.denominator as int)
            + ")"@
    }
}

impl Clone for Term {
    fn clone(&self) -> (t: Self)
        ensures
            t@ == self@,
    {
        Term { whole: self.whole.clone(), numerator: self.numerator, denominator: self.denominator }
    }
}

impl Term {
    /// A term with the given whole part and no fraction.
    pub fn new(whole: String) -> (t: Term)
        ensures
            t@ == whole_term(whole@),
    {
        Term { whole, numerator: 0, denominator: 0 }
    }

    /// An empty term.
    pub fn default() -> (t: Term)
        ensures
            t@ == whole_term(Seq::empty()),
    {
        Term { whole: String::new(), numerator: 0, denominator: 0 }
    }

    /// How the term is written.
    pub fn to_string(&self) -> (s: String)
        ensures
            s@ == term_text(self@),
    {
        if self.denominator == 0 {
            self.whole.clone()
        } else {
            let mut s = self.whole.clone();
            s.append(" (");
            push_int_text(&mut s, self.numerator as i64);
            s.append(") / (");
            push_int_text(&mut s, self.denominator as i64);
            s.append(")");
            s
        }
    }
}

/// The views of a sequence of terms.
pub open spec fn term_views(terms: Seq<Term>) -> Seq<TermView> {
    terms.map_values(|t: Term| t@)
}

/// A copy of each term, in order.
pub fn copy_terms(terms: &Vec<Term>) -> (copy: Vec<Term>)
    ensures
        term_views(copy@) == term_views(terms@),
{
    let mut copy: Vec<Term> = Vec::new();
    let mut i: usize = 0;
    while i < terms.len()
        invariant
            i <= terms.len(),
            copy.len() == i,
            forall|j: int| 0 <= j < i ==> #[trigger] copy[j]@ == terms[j]@,
        decreases terms.len() - i,
    {
        copy.push(terms[i].clone());
        i = i + 1;
    }
    proof {
        assert(term_views(copy@) =~= term_views(terms@));
    }
    copy
}

/// What a problem holds, with its terms by their views.
pub struct MathProblemView {
    pub randomized: bool,
    pub auxillary: bool,
    pub allow_fractions: bool,
    pub allow_decimals: bool,
    pub digits_after_decimal: u8,
    pub main_bound: Bound,
    pub lower_bound: i32,
    pub upper_bound: i32,
    pub problem_type: ImplementedProblem,
    pub terms: Seq<TermView>,
}

/// One problem of a worksheet.
pub struct MathProblem {
    pub randomized: bool,
    pub auxillary: bool,
    pub allow_fractions: bool,
    pub allow_decimals: bool,
    pub digits_after_decimal: u8,
    pub main_bound: Bound,
    pub lower_bound: i32,
    pub upper_bound: i32,
    pub problem_type: ImplementedProblem,
    pub terms: Vec<Term>,
}

impl View for MathProblem {
    type V = MathProblemView;

    open spec fn view(&self) -> MathProblemView {
        MathProblemView {
            randomized: self.randomized,
            auxillary: self.auxillary,
            allow_fractions: self.allow_fractions,
            allow_decimals: self.allow_decimals,
            digits_after_decimal: self.digits_after_decimal,
            main_bound: self.main_bound,
            lower_bound: self.lower_bound,
            upper_bound: self.upper_bound,
            problem_type: self.problem_type,
            terms: term_views(self.terms@),
        }
    }
}

impl Clone for MathProblem {
    fn clone(&self) -> (p: Self)
        ensures
            p@ == self@,
    {
        MathProblem {
            randomized: self.randomized,
            auxillary: self.auxillary,
            allow_fractions: self.allow_fractions,
            allow_decimals: self.allow_decimals,
            digits_after_decimal: self.digits_after_decimal,
            main_bound: self.main_bound,
            lower_bound: self.lower_bound,
            upper_bound: self.upper_bound,
            problem_type: self.problem_type,
            terms: copy_terms(&self.terms),
        }
    }
}

/// A fresh problem: randomized, of no kind yet, drawing from `0..100`.
pub open spec fn fresh_problem() -> MathProblemView {
    MathProblemView {
        randomized: true,
        auxillary: false,
        allow_fractions: false,
        allow_decimals: false,
        digits_after_decimal: 0,
        main_bound: Bound { main_lower: 0, main_upper: 100, aux_lower: 0, aux_upper: 10, denom_upper: 0 },
        lower_bound: 0,
        upper_bound: 100,
        problem_type: ImplementedProblem::MoreToCome,
        terms: Seq::empty(),
    }
}

/// The text `{:?}` gives for a list of terms.
pub uninterp spec fn terms_debug_text(terms: Seq<TermView>) -> Seq<char>;

/// Formats the terms with `{:?}` through std's `format!`, which uses the
/// derived `Debug` of `Term` and of `Vec`. The contract claims only that the
/// result is determined by what the terms hold (their whole parts, numerators
/// and denominators); it does not spell out the escaping rules of `Debug`.
#[verifier::external_body]
fn debug_terms(terms: &Vec<Term>) -> (s: String)
    ensures
        s@ == terms_debug_text(term_views(terms@)),
{
    format!("{:?}", terms)
}

/// How a problem is written as Typst math; a problem with fewer terms than its
/// kind needs is written as an error notice.
pub open spec fn display_text(p: MathProblemView) -> Seq<char> {
    let t = p.terms;
    if p.problem_type.operand_count() > t.len() {
        "Error Occurred"@
    } else {
        match p.problem_type {
            ImplementedProblem::FourOp(o) => "$"@ + term_text(t[0]) + " "@ + operation_text(o)
                + " "@ + term_text(t[1]) + " = \\_\\_\\_$"@,
            ImplementedProblem::MissingOperand(o) => "$"@ + term_text(t[0]) + " "@
                + operation_text(o) + " \\_\\_\\_ = "@ + term_text(t[1]) + "$"@,
            ImplementedProblem::ShortDiv => "$"@ + term_text(t[0]) + " ÷ "@ + term_text(t[1])
                + " = \\_\\_\\_$"@,
            ImplementedProblem::Proportions => "$("@ + term_text(t[0]) + ")/("@ + term_text(t[1])
                + ") = ("@ + term_text(t[2]) + ")/("@ + term_text(t[3]) + ")$"@,
            _ => "Unimplemented problem type: "@ + kind_text(p.problem_type) + " with parameters "@
                + terms_debug_text(t),
        }
    }
}

impl MathProblem {
    /// A fresh problem: randomized, of no kind yet, drawing from `0..100`.
    pub fn new() -> (p: MathProblem)
        ensures
            p@ == fresh_problem(),
    {
        let p = MathProblem {
            randomized: true,
            auxillary: false,
            allow_fractions: false,
            allow_decimals: false,
            digits_after_decimal: 0,
            main_bound: Bound::new(),
            lower_bound: 0,
            upper_bound: 100,
            problem_type: ImplementedProblem::MoreToCome,
            terms: Vec::new(),
        };
        proof {
            assert(p@.terms =~= Seq::<TermView>::empty());
        }
        p
    }

    /// The text of a main term; no rule for it exists yet, so it is empty.
    pub fn gen_term(&self) -> (s: String)
        ensures
            s@ == Seq::<char>::empty(),
    {
        String::new()
    }

    /// The text of an auxiliary term; no rule for it exists yet, so it is empty.
    pub fn gen_aux_term(&self) -> (s: String)
        ensures
            s@ == Seq::<char>::empty(),
    {
        String::new()
    }

    /// How the problem is written as Typst math.
    pub fn display(&self) -> (s: String)
        ensures
            s@ == display_text(self@),
    {
        if self.problem_type.required_operands() > self.terms.len() {
            return String::from_str("Error Occurred");
        }
        match self.problem_type {
            ImplementedProblem::FourOp(o) => {
                let mut s = String::from_str("$");
                s.append(self.terms[0].to_string().as_str());
                s.append(" ");
                s.append(o.to_string().as_str());
                s.append(" ");
                s.append(self.terms[1].to_string().as_str());
                s.append(" = \\_\\_\\_$");
                s
            },
            ImplementedProblem::MissingOperand(o) => {
                let mut s = String::from_str("$");
                s.append(self.terms[0].to_string().as_str());
                s.append(" ");
                s.append(o.to_string().as_str());
                s.append(" \\_\\_\\_ = ");
                s.append(self.terms[1].to_string().as_str());
                s.append("$");
                s
            },
            ImplementedProblem::ShortDiv => {
                let mut s = String::from_str("$");
                s.append(self.terms[0].to_string().as_str());
                s.append(" ÷ ");
                s.append(self.terms[1].to_string().as_str());
                s.append(" = \\_\\_\\_$");
                s
            },
            ImplementedProblem::Proportions => {
                let mut s = String::from_str("$(");
                s.append(self.terms[0].to_string().as_str());
                s.append(")/(");
                s.append(self.terms[1].to_string().as_str());
                s.append(") = (");
                s.append(self.terms[2].to_string().as_str());
                s.append(")/(");
                s.append(self.terms[3].to_string().as_str());
                s.append(")$");
                s
            },
            _ => {
                let mut s = String::from_str("Unimplemented problem type: ");
                s.append(self.problem_type.to_string().as_str());
                s.append(" with parameters ");
                s.append(debug_terms(&self.terms).as_str());
                s
            },
        }
    }
}

} // verus!
