use worksheet::generate::GenerateError;
use worksheet::problems::{BasicOperation, ImplementedProblem, MathProblem, Term};

fn problem(kind: ImplementedProblem, auxillary: bool, lower: i32, upper: i32) -> MathProblem {
    let mut p = MathProblem::new();
    p.problem_type = kind;
    p.auxillary = auxillary;
    p.lower_bound = lower;
    p.upper_bound = upper;
    p
}

fn wholes(terms: &[Term]) -> Vec<String> {
    terms.iter().map(|t| t.whole.clone()).collect()
}

fn value(t: &Term) -> i64 {
    assert_eq!((t.numerator, t.denominator), (0, 0));
    t.whole.parse::<i64>().expect("a drawn term is a number")
}

#[test]
fn subtraction_terms_from_draws() {
    let p = problem(ImplementedProblem::FourOp(BasicOperation::Subtraction), false, 0, 100);
    let terms = p.terms_from_draws(&vec![57, 12]).unwrap();
    assert_eq!(wholes(&terms), vec!["57", "12"]);
}

#[test]
fn division_terms_from_draws() {
    let exact = problem(ImplementedProblem::ShortDiv, false, -10, 10);
    let terms = exact.terms_from_draws(&vec![-4, 6]).unwrap();
    assert_eq!(wholes(&terms), vec!["-24", "-4"]);
    let with_remainder = problem(ImplementedProblem::LongDiv, true, 0, 100);
    let terms = with_remainder.terms_from_draws(&vec![7, 51]).unwrap();
    assert_eq!(wholes(&terms), vec!["51", "7"]);
}

#[test]
fn division_dividend_that_overflows_gives_none() {
    let p = problem(ImplementedProblem::ShortDiv, false, 0, 100000);
    assert!(p.terms_from_draws(&vec![99999, 99999]).is_none());
    let q = problem(ImplementedProblem::ShortDiv, false, -100000, 100000);
    assert!(q.terms_from_draws(&vec![-99999, 99999]).is_none());
    assert_eq!(wholes(&q.terms_from_draws(&vec![-46340, 46340]).unwrap()), vec!["-2147395600", "-46340"]);
}

#[test]
fn proportion_terms_from_draws() {
    let p = problem(ImplementedProblem::Proportions, false, 0, 10);
    let terms = p.terms_from_draws(&vec![1, 2, 3, 4, 2]).unwrap();
    assert_eq!(wholes(&terms), vec!["1", "2", "x", "4"]);
    let terms = p.terms_from_draws(&vec![9, 8, 7, 6, 0]).unwrap();
    assert_eq!(wholes(&terms), vec!["x", "8", "7", "6"]);
}

#[test]
fn other_kinds_use_their_draws_in_order() {
    let p = problem(ImplementedProblem::DirectPercent, false, -5, 5);
    assert_eq!(wholes(&p.terms_from_draws(&vec![-5, 4]).unwrap()), vec!["-5", "4"]);
    let q = problem(ImplementedProblem::MoreToCome, false, 0, 1);
    assert!(q.terms_from_draws(&vec![]).unwrap().is_empty());
}

#[test]
fn problem_that_is_not_randomized_is_left_alone() {
    let mut p = problem(ImplementedProblem::FourOp(BasicOperation::Addition), false, 5, 5);
    p.randomized = false;
    p.terms = vec![Term::new("1".to_string()), Term::new("2".to_string())];
    assert_eq!(p.generate(), Ok(()));
    assert_eq!(wholes(&p.terms), vec!["1", "2"]);
}

#[test]
fn empty_bounds_cannot_be_drawn_from() {
    for kind in [
        ImplementedProblem::FourOp(BasicOperation::Addition),
        ImplementedProblem::FourOp(BasicOperation::Subtraction),
        ImplementedProblem::ShortDiv,
        ImplementedProblem::Proportions,
        ImplementedProblem::DirectPercent,
    ] {
        let p = problem(kind, false, 10, 10);
        assert!(!p.can_draw());
        let mut fixed = problem(kind, false, 10, 10);
        fixed.randomized = false;
        assert!(fixed.can_draw());
        assert!(problem(kind, false, 9, 10).can_draw());
    }
    assert!(problem(ImplementedProblem::MoreToCome, false, 10, 0).can_draw());
}

#[test]
fn ranges_of_the_next_draw() {
    let sub = problem(ImplementedProblem::FourOp(BasicOperation::Subtraction), false, 2, 9);
    assert_eq!(sub.next_draw_range(&vec![]), Some((2, 9)));
    assert_eq!(sub.next_draw_range(&vec![6]), Some((2, 6)));
    assert_eq!(sub.next_draw_range(&vec![6, 3]), None);
    let sub_neg = problem(ImplementedProblem::MissingOperand(BasicOperation::Subtraction), true, 2, 9);
    assert_eq!(sub_neg.next_draw_range(&vec![6]), Some((2, 9)));
    let div = problem(ImplementedProblem::ShortDiv, true, 1, 20);
    assert_eq!(div.next_draw_range(&vec![]), Some((1, 20)));
    assert_eq!(div.next_draw_range(&vec![7]), Some((7, 20)));
    assert_eq!(div.next_draw_range(&vec![7, 8]), None);
    let exact = problem(ImplementedProblem::LongDiv, false, 1, 20);
    assert_eq!(exact.next_draw_range(&vec![7]), Some((1, 20)));
    let prop = problem(ImplementedProblem::Proportions, false, 0, 5);
    assert_eq!(prop.next_draw_range(&vec![1, 2, 3]), Some((0, 5)));
    assert_eq!(prop.next_draw_range(&vec![1, 2, 3, 4]), Some((0, 4)));
    assert_eq!(prop.next_draw_range(&vec![1, 2, 3, 4, 0]), None);
    let percent = problem(ImplementedProblem::DirectPercent, false, -3, 3);
    assert_eq!(percent.next_draw_range(&vec![0]), Some((-3, 3)));
    assert_eq!(percent.next_draw_range(&vec![0, 1]), None);
    let none = problem(ImplementedProblem::MoreToCome, false, 0, 3);
    assert_eq!(none.next_draw_range(&vec![]), None);
}

#[test]
fn placeholder_kind_gets_no_terms() {
    let mut p = problem(ImplementedProblem::MoreToCome, false, 10, 0);
    p.terms = vec![Term::new("old".to_string())];
    assert_eq!(p.generate(), Ok(()));
    assert!(p.terms.is_empty());
}

#[test]
fn dividend_overflow_is_reported() {
    let mut p = problem(ImplementedProblem::ShortDiv, false, 100000, 100001);
    assert_eq!(p.generate(), Err(GenerateError::Overflow(vec![100000, 100000])));
    assert!(p.terms.is_empty());
}

#[test]
fn generated_values_lie_in_the_range() {
    for _ in 0..50 {
        let mut p = problem(ImplementedProblem::FourOp(BasicOperation::Addition), false, -20, 20);
        assert_eq!(p.generate(), Ok(()));
        assert_eq!(p.terms.len(), 2);
        for t in &p.terms {
            let v = value(t);
            assert!(-20 <= v && v < 20);
        }
        let mut q = problem(ImplementedProblem::DirectPercent, true, 3, 4);
        assert_eq!(q.generate(), Ok(()));
        assert_eq!(wholes(&q.terms), vec!["3", "3"]);
    }
}

#[test]
fn subtraction_without_negative_results_has_smaller_subtrahend() {
    let mut successes = 0;
    for _ in 0..200 {
        let mut p = problem(ImplementedProblem::MissingOperand(BasicOperation::Subtraction), false, 0, 50);
        match p.generate() {
            Ok(()) => {
                successes += 1;
                let a = value(&p.terms[0]);
                let b = value(&p.terms[1]);
                assert!(0 <= b && b < a && a < 50);
            }
            Err(e) => {
                assert_eq!(e, GenerateError::EmptyRange(vec![0]));
                assert!(p.terms.is_empty());
            }
        }
    }
    assert!(successes > 0);
}

#[test]
fn subtraction_allowing_negative_results_draws_both_from_the_range() {
    for _ in 0..50 {
        let mut p = problem(ImplementedProblem::LargeFormatFourOp(BasicOperation::Subtraction), true, 0, 3);
        assert_eq!(p.generate(), Ok(()));
        for t in &p.terms {
            let v = value(t);
            assert!(0 <= v && v < 3);
        }
    }
}

#[test]
fn subtraction_from_the_smallest_minuend_meets_an_empty_range() {
    let mut p = problem(ImplementedProblem::FourOp(BasicOperation::Subtraction), false, 7, 8);
    assert_eq!(p.generate(), Err(GenerateError::EmptyRange(vec![7])));
    assert!(p.terms.is_empty());
}

#[test]
fn division_without_remainder_is_exact() {
    for _ in 0..50 {
        let mut p = problem(ImplementedProblem::ShortDiv, false, 1, 12);
        assert_eq!(p.generate(), Ok(()));
        let dividend = value(&p.terms[0]);
        let divisor = value(&p.terms[1]);
        assert!(1 <= divisor && divisor < 12);
        assert_eq!(dividend % divisor, 0);
        assert!(1 <= dividend / divisor && dividend / divisor < 12);
    }
}

#[test]
fn division_with_remainder_has_dividend_at_least_divisor() {
    for _ in 0..50 {
        let mut p = problem(ImplementedProblem::LongDiv, true, 1, 30);
        assert_eq!(p.generate(), Ok(()));
        let dividend = value(&p.terms[0]);
        let divisor = value(&p.terms[1]);
        assert!(1 <= divisor && divisor <= dividend && dividend < 30);
    }
}

#[test]
fn proportion_has_exactly_one_unknown() {
    for _ in 0..50 {
        let mut p = problem(ImplementedProblem::Proportions, false, 0, 9);
        assert_eq!(p.generate(), Ok(()));
        assert_eq!(p.terms.len(), 4);
        let unknowns = p.terms.iter().filter(|t| t.whole == "x").count();
        assert_eq!(unknowns, 1);
        for t in p.terms.iter().filter(|t| t.whole != "x") {
            let v = value(t);
            assert!(0 <= v && v < 9);
        }
        assert_ne!(p.display(), "Error Occurred");
    }
}

#[test]
fn generation_keeps_every_setting() {
    let mut p = problem(ImplementedProblem::FourOp(BasicOperation::Multiplication), true, 2, 9);
    p.allow_fractions = true;
    p.digits_after_decimal = 3;
    assert_eq!(p.generate(), Ok(()));
    assert!(p.randomized && p.auxillary && p.allow_fractions);
    assert_eq!(p.digits_after_decimal, 3);
    assert_eq!((p.lower_bound, p.upper_bound), (2, 9));
    assert_eq!(p.problem_type, ImplementedProblem::FourOp(BasicOperation::Multiplication));
}

#[test]
fn draws_vary_between_calls() {
    let mut seen = std::collections::HashSet::new();
    for _ in 0..100 {
        let mut p = problem(ImplementedProblem::FourOp(BasicOperation::Addition), false, 0, 1000000);
        assert_eq!(p.generate(), Ok(()));
        seen.insert(p.terms[0].whole.clone());
    }
    assert!(seen.len() > 1);
}
