use worksheet::problems::{BasicOperation, Bound, ImplementedProblem, MathProblem, Term};
use worksheet::text::int_to_text;

fn all_kinds() -> Vec<ImplementedProblem> {
    vec![
        ImplementedProblem::LargeFormatFourOp(BasicOperation::Addition),
        ImplementedProblem::MissingOperand(BasicOperation::Subtraction),
        ImplementedProblem::FourOp(BasicOperation::Multiplication),
        ImplementedProblem::LongDiv,
        ImplementedProblem::ShortDiv,
        ImplementedProblem::Proportions,
        ImplementedProblem::DirectPercent,
        ImplementedProblem::MoreToCome,
    ]
}

fn problem_with(kind: ImplementedProblem, wholes: &[&str]) -> MathProblem {
    let mut p = MathProblem::new();
    p.problem_type = kind;
    p.terms = wholes.iter().map(|w| Term::new(w.to_string())).collect();
    p
}

#[test]
fn operation_menu_lists_three_operations() {
    assert_eq!(
        BasicOperation::iterator(),
        vec![BasicOperation::Addition, BasicOperation::Subtraction, BasicOperation::Multiplication]
    );
}

#[test]
fn operation_symbols() {
    assert_eq!(BasicOperation::Addition.to_string(), "+");
    assert_eq!(BasicOperation::Subtraction.to_string(), "-");
    assert_eq!(BasicOperation::Multiplication.to_string(), "*");
    assert_eq!(BasicOperation::Undecided.to_string(), "◦");
}

#[test]
fn kind_menu_leaves_out_long_division_and_placeholder() {
    let kinds = ImplementedProblem::iterator();
    assert_eq!(
        kinds,
        vec![
            ImplementedProblem::LargeFormatFourOp(BasicOperation::Undecided),
            ImplementedProblem::MissingOperand(BasicOperation::Undecided),
            ImplementedProblem::FourOp(BasicOperation::Undecided),
            ImplementedProblem::ShortDiv,
            ImplementedProblem::Proportions,
            ImplementedProblem::DirectPercent,
        ]
    );
    assert!(!kinds.contains(&ImplementedProblem::LongDiv));
    assert!(!kinds.contains(&ImplementedProblem::MoreToCome));
}

#[test]
fn kind_names() {
    assert_eq!(
        ImplementedProblem::LargeFormatFourOp(BasicOperation::Undecided).to_string(),
        "Large Format Basic Arithmetic (◦)"
    );
    assert_eq!(
        ImplementedProblem::MissingOperand(BasicOperation::Subtraction).to_string(),
        "Missing Operand (-)"
    );
    assert_eq!(
        ImplementedProblem::FourOp(BasicOperation::Addition).to_string(),
        "Basic Arithmetic (+)"
    );
    assert_eq!(ImplementedProblem::LongDiv.to_string(), "Long Division");
    assert_eq!(ImplementedProblem::ShortDiv.to_string(), "Horizontal Division");
    assert_eq!(ImplementedProblem::Proportions.to_string(), "Proportions");
    assert_eq!(ImplementedProblem::DirectPercent.to_string(), "Direct Percent");
    assert_eq!(ImplementedProblem::MoreToCome.to_string(), "Unimplemented");
}

#[test]
fn operand_counts() {
    let counts: Vec<usize> = all_kinds().iter().map(|k| k.required_operands()).collect();
    assert_eq!(counts, vec![2, 2, 2, 2, 2, 4, 2, 0]);
}

#[test]
fn field_labels_of_each_kind() {
    assert_eq!(
        ImplementedProblem::MissingOperand(BasicOperation::Addition).fields(),
        vec!["Operand 1".to_string(), "Result".to_string()]
    );
    assert_eq!(ImplementedProblem::LongDiv.fields(), vec!["Dividend", "Divisor"]);
    assert_eq!(ImplementedProblem::ShortDiv.fields(), vec!["Dividend", "Divisor"]);
    assert_eq!(
        ImplementedProblem::Proportions.fields(),
        vec!["Numerator 1", "Denominator 1", "Numerator 2", "Denominator 2"]
    );
    assert_eq!(ImplementedProblem::DirectPercent.fields(), vec!["Percentage", "Whole"]);
    assert_eq!(
        ImplementedProblem::FourOp(BasicOperation::Undecided).fields(),
        vec!["Operand 1", "Operand 2"]
    );
    assert_eq!(
        ImplementedProblem::LargeFormatFourOp(BasicOperation::Multiplication).fields(),
        vec!["Operand 1", "Operand 2"]
    );
    assert!(ImplementedProblem::MoreToCome.fields().is_empty());
}

#[test]
fn every_kind_has_one_field_per_operand() {
    for kind in all_kinds() {
        assert_eq!(kind.fields().len(), kind.required_operands());
    }
}

#[test]
fn kinds_with_an_operation() {
    let flags: Vec<bool> = all_kinds().iter().map(|k| k.requires_operation()).collect();
    assert_eq!(flags, vec![true, true, true, false, false, false, false, false]);
}

#[test]
fn set_operation_replaces_the_operation() {
    let mut kind = ImplementedProblem::FourOp(BasicOperation::Undecided);
    kind.set_operation(BasicOperation::Subtraction);
    assert_eq!(kind, ImplementedProblem::FourOp(BasicOperation::Subtraction));
    kind.set_operation(BasicOperation::Addition);
    assert_eq!(kind, ImplementedProblem::FourOp(BasicOperation::Addition));
    let mut missing = ImplementedProblem::MissingOperand(BasicOperation::Addition);
    missing.set_operation(BasicOperation::Multiplication);
    assert_eq!(missing, ImplementedProblem::MissingOperand(BasicOperation::Multiplication));
    let mut large = ImplementedProblem::LargeFormatFourOp(BasicOperation::Addition);
    large.set_operation(BasicOperation::Undecided);
    assert_eq!(large, ImplementedProblem::LargeFormatFourOp(BasicOperation::Undecided));
}

#[test]
fn set_operation_leaves_other_kinds_alone() {
    for kind in [
        ImplementedProblem::LongDiv,
        ImplementedProblem::ShortDiv,
        ImplementedProblem::Proportions,
        ImplementedProblem::DirectPercent,
        ImplementedProblem::MoreToCome,
    ] {
        let mut changed = kind;
        changed.set_operation(BasicOperation::Addition);
        assert_eq!(changed, kind);
        assert_eq!(changed.required_operands(), kind.required_operands());
    }
}

#[test]
fn default_bound() {
    assert_eq!(
        Bound::new(),
        Bound { main_lower: 0, main_upper: 100, aux_lower: 0, aux_upper: 10, denom_upper: 0 }
    );
}

#[test]
fn terms_are_written_with_their_fraction() {
    let plain = Term::new("17".to_string());
    assert_eq!(plain.whole, "17");
    assert_eq!((plain.numerator, plain.denominator), (0, 0));
    assert_eq!(plain.to_string(), "17");
    let empty = Term::default();
    assert_eq!(empty.whole, "");
    assert_eq!(empty.to_string(), "");
    let mixed = Term { whole: "3".to_string(), numerator: 1, denominator: 2 };
    assert_eq!(mixed.to_string(), "3 (1) / (2)");
    let zero_over = Term { whole: "x".to_string(), numerator: 4000000000, denominator: 7 };
    assert_eq!(zero_over.to_string(), "x (4000000000) / (7)");
    let no_denominator = Term { whole: "5".to_string(), numerator: 9, denominator: 0 };
    assert_eq!(no_denominator.to_string(), "5");
}

#[test]
fn cloned_term_keeps_its_parts() {
    let t = Term { whole: "8".to_string(), numerator: 2, denominator: 3 };
    let c = t.clone();
    assert_eq!((c.whole.as_str(), c.numerator, c.denominator), ("8", 2, 3));
}

#[test]
fn fresh_problem_settings() {
    let p = MathProblem::new();
    assert!(p.randomized);
    assert!(!p.auxillary);
    assert!(!p.allow_fractions);
    assert!(!p.allow_decimals);
    assert_eq!(p.digits_after_decimal, 0);
    assert_eq!(p.main_bound, Bound::new());
    assert_eq!((p.lower_bound, p.upper_bound), (0, 100));
    assert_eq!(p.problem_type, ImplementedProblem::MoreToCome);
    assert!(p.terms.is_empty());
    assert_eq!(p.gen_term(), "");
    assert_eq!(p.gen_aux_term(), "");
}

#[test]
fn cloned_problem_is_equal_in_every_setting() {
    let mut p = problem_with(ImplementedProblem::ShortDiv, &["12", "4"]);
    p.auxillary = true;
    p.lower_bound = -3;
    let c = p.clone();
    assert_eq!(c.problem_type, p.problem_type);
    assert_eq!(c.display(), p.display());
    assert!(c.auxillary);
    assert_eq!(c.lower_bound, -3);
}

#[test]
fn display_basic_arithmetic() {
    let p = problem_with(ImplementedProblem::FourOp(BasicOperation::Addition), &["12", "5"]);
    assert_eq!(p.display(), "$12 + 5 = \\_\\_\\_$");
}

#[test]
fn display_missing_operand() {
    let p = problem_with(ImplementedProblem::MissingOperand(BasicOperation::Multiplication), &["6", "42"]);
    assert_eq!(p.display(), "$6 * \\_\\_\\_ = 42$");
}

#[test]
fn display_horizontal_division() {
    let p = problem_with(ImplementedProblem::ShortDiv, &["12", "4"]);
    assert_eq!(p.display(), "$12 ÷ 4 = \\_\\_\\_$");
}

#[test]
fn display_proportion() {
    let p = problem_with(ImplementedProblem::Proportions, &["1", "2", "x", "8"]);
    assert_eq!(p.display(), "$(1)/(2) = (x)/(8)$");
}

#[test]
fn display_with_fraction_terms() {
    let mut p = problem_with(ImplementedProblem::FourOp(BasicOperation::Subtraction), &["3", "1"]);
    p.terms[0].numerator = 1;
    p.terms[0].denominator = 4;
    assert_eq!(p.display(), "$3 (1) / (4) - 1 = \\_\\_\\_$");
}

#[test]
fn display_with_too_few_terms_is_an_error_notice() {
    let p = problem_with(ImplementedProblem::Proportions, &["1", "2", "3"]);
    assert_eq!(p.display(), "Error Occurred");
    let q = problem_with(ImplementedProblem::FourOp(BasicOperation::Addition), &[]);
    assert_eq!(q.display(), "Error Occurred");
}

#[test]
fn display_unimplemented_kind_lists_its_terms() {
    let p = problem_with(ImplementedProblem::DirectPercent, &["50", "8"]);
    assert_eq!(
        p.display(),
        "Unimplemented problem type: Direct Percent with parameters [Term { whole: \"50\", numerator: 0, denominator: 0 }, Term { whole: \"8\", numerator: 0, denominator: 0 }]"
    );
    let q = problem_with(ImplementedProblem::MoreToCome, &[]);
    assert_eq!(q.display(), "Unimplemented problem type: Unimplemented with parameters []");
    let r = problem_with(ImplementedProblem::LargeFormatFourOp(BasicOperation::Addition), &["a\"b", "2"]);
    assert_eq!(
        r.display(),
        "Unimplemented problem type: Large Format Basic Arithmetic (+) with parameters [Term { whole: \"a\\\"b\", numerator: 0, denominator: 0 }, Term { whole: \"2\", numerator: 0, denominator: 0 }]"
    );
    let s = problem_with(ImplementedProblem::LongDiv, &["9", "3"]);
    assert!(s.display().starts_with("Unimplemented problem type: Long Division with parameters ["));
}

#[test]
fn decimal_text_of_integers() {
    assert_eq!(int_to_text(0), "0");
    assert_eq!(int_to_text(7), "7");
    assert_eq!(int_to_text(1234), "1234");
    assert_eq!(int_to_text(-7), "-7");
    assert_eq!(int_to_text(-1000), "-1000");
    assert_eq!(int_to_text(i64::MAX), i64::MAX.to_string());
    assert_eq!(int_to_text(i64::MIN), i64::MIN.to_string());
    for x in [-123456789i64, -10, -1, 9, 10, 99, 100, 2147483647] {
        assert_eq!(int_to_text(x), x.to_string());
    }
}
