//! The state of the worksheet editor and how each user action changes it.
//! The window itself draws this state and reports the actions.
use vstd::prelude::*;

use crate::generate::{
    drawable, failed_draw, may_meet_empty_range, may_overflow, regenerated,
    reported_failure_is_possible, GenerateError,
};
use crate::problems::{
    fresh_problem, whole_term, BasicOperation, ImplementedProblem, MathProblem, MathProblemView,
    Term, TermView,
};
use crate::sheet::problem_views;

verus! {

/// The value of `problem_editing` while a new problem is being set up.
pub const NEW_PROBLEM: usize = usize::MAX;

/// The fewest copies of a new problem that can be asked for.
pub const MIN_COPIES: usize = 1;

/// The most copies of a new problem that can be asked for.
pub const MAX_COPIES: usize = 30;

/// What the editor holds.
pub struct EditorView {
    pub problems: Seq<MathProblemView>,
    pub randomizing: bool,
    pub problem_editing: usize,
    pub editing_problem: bool,
    pub temp_problem: MathProblemView,
    pub copies: usize,
}

/// The problems of a worksheet, and the problem being set up in the edit window.
pub struct WorksheetEditor {
    /// The problems, in worksheet order.
    pub problems: Vec<MathProblem>,
    /// Whether new problems start randomized.
    pub randomizing: bool,
    /// Which problem the edit window changes; `NEW_PROBLEM` for a new one.
    pub problem_editing: usize,
    /// Whether the edit window is open.
    pub editing_problem: bool,
    /// The problem as set up in the edit window.
    pub temp_problem: MathProblem,
    /// How many copies of a new problem are added.
    pub copies: usize,
}

impl View for WorksheetEditor {
    type V = EditorView;

    open spec fn view(&self) -> EditorView {
        EditorView {
            problems: problem_views(self.problems@),
            randomizing: self.randomizing,
            problem_editing: self.problem_editing,
            editing_problem: self.editing_problem,
            temp_problem: self.temp_problem@,
            copies: self.copies,
        }
    }
}

/// Whether drawing fresh terms for `p` can fail on some outcome.
pub open spec fn may_fail(p: MathProblemView) -> bool {
    p.randomized && (may_meet_empty_range(p) || may_overflow(p))
}

/// The terms of `terms` followed by empty terms up to `n` of them.
pub open spec fn padded_terms(terms: Seq<TermView>, n: nat) -> Seq<TermView> {
    if terms.len() >= n {
        terms
    } else {
        terms + Seq::new((n - terms.len()) as nat, |i: int| whole_term(Seq::empty()))
    }
}

/// The number of copies kept when `n` are asked for.
pub open spec fn clamp_copies(n: usize) -> usize {
    if n < MIN_COPIES {
        MIN_COPIES
    } else if n > MAX_COPIES {
        MAX_COPIES
    } else {
        n
    }
}

impl WorksheetEditor {
    /// An editor with no problems, making randomized problems, window closed.
    pub fn new() -> (e: WorksheetEditor)
        ensures
            e@ == (EditorView {
                problems: Seq::empty(),
                randomizing: true,
                problem_editing: 0,
                editing_problem: false,
                temp_problem: fresh_problem(),
                copies: 1,
            }),
    {
        let e = WorksheetEditor {
            problems: Vec::new(),
            randomizing: true,
            problem_editing: 0,
            editing_problem: false,
            temp_problem: MathProblem::new(),
            copies: 1,
        };
        proof {
            assert(e@.problems =~= Seq::<MathProblemView>::empty());
        }
        e
    }

    /// Opens the edit window on a fresh problem, randomized as new problems
    /// are, to be added once.
    pub fn start_new_problem(&mut self)
        ensures
            final(self)@ == (EditorView {
                problem_editing: NEW_PROBLEM,
                editing_problem: true,
                temp_problem: MathProblemView { randomized: old(self).randomizing, ..fresh_problem() },
                copies: 1,
                ..old(self)@
            }),
    {
        self.problem_editing = NEW_PROBLEM;
        self.editing_problem = true;
        let mut fresh = MathProblem::new();
        fresh.randomized = self.randomizing;
        self.temp_problem = fresh;
        self.copies = 1;
    }

    /// Draws fresh terms for every randomized problem, in order. On the first
    /// failure it stops and reports it; problems before that one have fresh
    /// terms and the others are as they were.
    pub fn regenerate_all(&mut self) -> (r: Result<(), GenerateError>)
        requires
            forall|i: int|
                0 <= i < old(self)@.problems.len() ==> #[trigger] drawable(old(self)@.problems[i]),
        ensures
            final(self)@ == (EditorView { problems: final(self)@.problems, ..old(self)@ }),
            final(self)@.problems.len() == old(self)@.problems.len(),
            r is Ok ==> forall|i: int|
                0 <= i < old(self)@.problems.len() ==> regenerated(
                    #[trigger] old(self)@.problems[i],
                    final(self)@.problems[i],
                ),
            r matches Err(e) ==> exists|k: int|
                0 <= k < old(self)@.problems.len() && #[trigger] may_fail(old(self)@.problems[k])
                    && failed_draw(old(self)@.problems[k], e) && (forall|i: int|
                    0 <= i < k ==> regenerated(
                        #[trigger] old(self)@.problems[i],
                        final(self)@.problems[i],
                    )) && (forall|i: int|
                    k <= i < old(self)@.problems.len() ==> #[trigger] final(self)@.problems[i]
                        == old(self)@.problems[i]),
    {
        let ghost before = self@.problems;
        let n = self.problems.len();
        let mut i: usize = 0;
        while i < n
            invariant
                i <= n,
                n == before.len(),
                self@ == (EditorView { problems: self@.problems, ..old(self)@ }),
                before == old(self)@.problems,
                forall|j: int| 0 <= j < n ==> #[trigger] drawable(before[j]),
                self@.problems.len() == n,
                forall|j: int| 0 <= j < i ==> regenerated(#[trigger] before[j], self@.problems[j]),
                forall|j: int| i <= j < n ==> #[trigger] self@.problems[j] == before[j],
            decreases n - i,
        {
            if self.problems[i].randomized {
                let ghost prev = self@.problems;
                assert(prev[i as int] == before[i as int]);
                let mut p = self.problems[i].clone();
                assert(p@ == before[i as int]);
                let r = p.generate();
                match r {
                    Ok(()) => {
                        let ghost p_view = p@;
                        self.problems.set(i, p);
                        proof {
                            assert(self@.problems =~= prev.update(i as int, p_view));
                        }
                    },
                    Err(e) => {
                        proof {
                            assert(drawable(before[i as int]));
                            reported_failure_is_possible(before[i as int], e);
                            assert(failed_draw(before[i as int], e));
                            assert(may_fail(before[i as int]));
                        }
                        return Err(e);
                    },
                }
            } else {
                assert(regenerated(before[i as int], self@.problems[i as int]));
            }
            i = i + 1;
        }
        Ok(())
    }

    /// Opens the edit window on a copy of problem `i`.
    pub fn start_edit(&mut self, i: usize)
        requires
            i < old(self).problems.len(),
        ensures
            final(self)@ == (EditorView {
                problem_editing: i,
                editing_problem: true,
                temp_problem: old(self)@.problems[i as int],
                ..old(self)@
            }),
    {
        self.problem_editing = i;
        self.editing_problem = true;
        self.temp_problem = self.problems[i].clone();
    }

    /// Puts a copy of problem `i` in front of it, with fresh terms when it is
    /// randomized. When the terms cannot be drawn nothing changes.
    pub fn duplicate(&mut self, i: usize) -> (r: Result<(), GenerateError>)
        requires
            i < old(self).problems.len(),
            drawable(old(self)@.problems[i as int]),
        ensures
            r is Err ==> final(self)@ == old(self)@ && may_fail(old(self)@.problems[i as int]),
            r matches Err(e) ==> failed_draw(old(self)@.problems[i as int], e),
            r is Ok ==> exists|copy: MathProblemView|
                #[trigger] regenerated(old(self)@.problems[i as int], copy) && final(self)@ == (
                EditorView { problems: old(self)@.problems.insert(i as int, copy), ..old(self)@ }),
            !may_fail(old(self)@.problems[i as int]) ==> r is Ok,
    {
        let ghost before = self@;
        let mut copy = self.problems[i].clone();
        assert(copy@ == before.problems[i as int]);
        let r = copy.generate();
        match r {
            Ok(()) => {
                let ghost copy_view = copy@;
                assert(regenerated(before.problems[i as int], copy_view));
                self.problems.insert(i, copy);
                proof {
                    assert(self@.problems =~= before.problems.insert(i as int, copy_view));
                    assert(self@ == (EditorView {
                        problems: before.problems.insert(i as int, copy_view),
                        ..before
                    }));
                }
                Ok(())
            },
            Err(e) => {
                proof {
                    reported_failure_is_possible(before.problems[i as int], e);
                }
                Err(e)
            },
        }
    }

    /// Removes problem `i`.
    pub fn delete(&mut self, i: usize)
        requires
            i < old(self).problems.len(),
        ensures
            final(self)@ == (EditorView {
                problems: old(self)@.problems.remove(i as int),
                ..old(self)@
            }),
    {
        let ghost before = self@;
        self.problems.remove(i);
        proof {
            assert(self@.problems =~= before.problems.remove(i as int));
        }
    }

    /// Draws fresh terms for problem `i` when it is randomized. When the terms
    /// cannot be drawn nothing changes.
    pub fn regenerate(&mut self, i: usize) -> (r: Result<(), GenerateError>)
        requires
            i < old(self).problems.len(),
            drawable(old(self)@.problems[i as int]),
        ensures
            r is Err ==> final(self)@ == old(self)@ && may_fail(old(self)@.problems[i as int]),
            r matches Err(e) ==> failed_draw(old(self)@.problems[i as int], e),
            r is Ok ==> exists|p: MathProblemView|
                #[trigger] regenerated(old(self)@.problems[i as int], p) && final(self)@ == (
                EditorView { problems: old(self)@.problems.update(i as int, p), ..old(self)@ }),
            !may_fail(old(self)@.problems[i as int]) ==> r is Ok,
    {
        let ghost before = self@;
        let mut p = self.problems[i].clone();
        assert(p@ == before.problems[i as int]);
        let r = p.generate();
        match r {
            Ok(()) => {
                let ghost p_view = p@;
                assert(regenerated(before.problems[i as int], p_view));
                self.problems.set(i, p);
                proof {
                    assert(self@.problems =~= before.problems.update(i as int, p_view));
                    assert(self@ == (EditorView {
                        problems: before.problems.update(i as int, p_view),
                        ..before
                    }));
                }
                Ok(())
            },
            Err(e) => {
                proof {
                    reported_failure_is_possible(before.problems[i as int], e);
                }
                Err(e)
            },
        }
    }

    /// Chooses the kind of the problem being set up, and adds empty terms until
    /// it has as many as the kind needs.
    pub fn choose_problem_type(&mut self, kind: ImplementedProblem)
        ensures
            final(self)@ == (EditorView {
                temp_problem: MathProblemView {
                    problem_type: kind,
                    terms: padded_terms(old(self)@.temp_problem.terms, kind.operand_count()),
                    ..old(self)@.temp_problem
                },
                ..old(self)@
            }),
    {
        let ghost before = self@;
        self.temp_problem.problem_type = kind;
        let n = kind.required_operands();
        while self.temp_problem.terms.len() < n
            invariant
                n == kind.operand_count(),
                self@ == (EditorView {
                    temp_problem: MathProblemView {
                        problem_type: kind,
                        terms: self@.temp_problem.terms,
                        ..before.temp_problem
                    },
                    ..before
                }),
                before.temp_problem.terms.len() <= self@.temp_problem.terms.len(),
                self@.temp_problem.terms.len() <= n || self@.temp_problem.terms
                    == before.temp_problem.terms,
                forall|j: int|
                    0 <= j < before.temp_problem.terms.len() ==> #[trigger] self@.temp_problem.terms[j]
                        == before.temp_problem.terms[j],
                forall|j: int|
                    before.temp_problem.terms.len() <= j < self@.temp_problem.terms.len()
                        ==> #[trigger] self@.temp_problem.terms[j] == whole_term(Seq::empty()),
            decreases n - self.temp_problem.terms.len(),
        {
            let ghost prev = self@.temp_problem.terms;
            self.temp_problem.terms.push(Term::default());
            proof {
                assert(self@.temp_problem.terms =~= prev.push(whole_term(Seq::empty())));
            }
        }
        proof {
            assert(self@.temp_problem.terms =~= padded_terms(
                before.temp_problem.terms,
                kind.operand_count(),
            ));
        }
    }

    /// Flips whether the problem being set up is randomized; new problems then
    /// follow it.
    pub fn toggle_randomized(&mut self)
        ensures
            final(self)@ == (EditorView {
                randomizing: !old(self).temp_problem.randomized,
                temp_problem: MathProblemView {
                    randomized: !old(self).temp_problem.randomized,
                    ..old(self)@.temp_problem
                },
                ..old(self)@
            }),
    {
        self.temp_problem.randomized = !self.temp_problem.randomized;
        self.randomizing = self.temp_problem.randomized;
    }

    /// Flips whether fractions are allowed; decimals are then not.
    pub fn toggle_fractions(&mut self)
        ensures
            final(self)@ == (EditorView {
                temp_problem: MathProblemView {
                    allow_fractions: !old(self).temp_problem.allow_fractions,
                    allow_decimals: false,
                    ..old(self)@.temp_problem
                },
                ..old(self)@
            }),
    {
        self.temp_problem.allow_fractions = !self.temp_problem.allow_fractions;
        self.temp_problem.allow_decimals = false;
    }

    /// Flips whether decimals are allowed; fractions are then not, and two
    /// digits after the decimal point are asked for.
    pub fn toggle_decimals(&mut self)
        ensures
            final(self)@ == (EditorView {
                temp_problem: MathProblemView {
                    allow_decimals: !old(self).temp_problem.allow_decimals,
                    allow_fractions: false,
                    digits_after_decimal: 2,
                    ..old(self)@.temp_problem
                },
                ..old(self)@
            }),
    {
        self.temp_problem.allow_decimals = !self.temp_problem.allow_decimals;
        self.temp_problem.allow_fractions = false;
        self.temp_problem.digits_after_decimal = 2;
    }

    /// Sets the number of digits after the decimal point; with none, decimals
    /// are no longer allowed.
    pub fn set_digits_after_decimal(&mut self, digits: u8)
        ensures
            final(self)@ == (EditorView {
                temp_problem: MathProblemView {
                    digits_after_decimal: digits,
                    allow_decimals: digits != 0 && old(self).temp_problem.allow_decimals,
                    ..old(self)@.temp_problem
                },
                ..old(self)@
            }),
    {
        self.temp_problem.digits_after_decimal = digits;
        if digits == 0 {
            self.temp_problem.allow_decimals = false;
        }
    }

    /// Chooses the operation of the problem being set up, when its kind has one.
    pub fn choose_operation(&mut self, op: BasicOperation)
        ensures
            final(self)@ == (EditorView {
                temp_problem: MathProblemView {
                    problem_type: old(self).temp_problem.problem_type.with_operation(op),
                    ..old(self)@.temp_problem
                },
                ..old(self)@
            }),
    {
        self.temp_problem.problem_type.set_operation(op);
    }

    /// Sets how many copies of a new problem are added, kept within
    /// `MIN_COPIES..=MAX_COPIES`.
    pub fn set_copies(&mut self, n: usize)
        ensures
            final(self)@ == (EditorView { copies: clamp_copies(n), ..old(self)@ }),
    {
        self.copies = if n < MIN_COPIES {
            MIN_COPIES
        } else if n > MAX_COPIES {
            MAX_COPIES
        } else {
            n
        };
    }

    /// Closes the edit window and stores the problem set up in it. A new
    /// problem is added `copies` times at the end, each copy with its own
    /// fresh terms when it is randomized; an existing problem is replaced by the
    /// one set up, with fresh terms when it is randomized. When terms cannot be
    /// drawn nothing changes.
    pub fn update_problem(&mut self) -> (r: Result<(), GenerateError>)
        requires
            old(self).problem_editing == NEW_PROBLEM || old(self).problem_editing < old(
                self,
            ).problems.len(),
            drawable(old(self)@.temp_problem),
        ensures
            r is Err ==> final(self)@ == old(self)@ && may_fail(old(self)@.temp_problem),
            r matches Err(e) ==> failed_draw(old(self)@.temp_problem, e),
            !may_fail(old(self)@.temp_problem) ==> r is Ok,
            r is Ok && old(self).problem_editing == NEW_PROBLEM ==> {
                &&& final(self)@ == (EditorView {
                    problems: final(self)@.problems,
                    editing_problem: false,
                    ..old(self)@
                })
                &&& final(self)@.problems.len() == old(self)@.problems.len() + old(self).copies
                &&& final(self)@.problems.take(old(self)@.problems.len() as int)
                    == old(self)@.problems
                &&& forall|j: int|
                    old(self)@.problems.len() <= j < final(self)@.problems.len() ==> regenerated(
                        old(self)@.temp_problem,
                        #[trigger] final(self)@.problems[j],
                    )
            },
            r is Ok && old(self).problem_editing != NEW_PROBLEM ==> {
                &&& regenerated(old(self)@.temp_problem, final(self)@.temp_problem)
                &&& final(self)@ == (EditorView {
                    problems: old(self)@.problems.update(
                        old(self).problem_editing as int,
                        final(self)@.temp_problem,
                    ),
                    editing_problem: false,
                    temp_problem: final(self)@.temp_problem,
                    ..old(self)@
                })
            },
    {
        let ghost before = self@;
        if self.problem_editing == NEW_PROBLEM {
            let mut added: Vec<MathProblem> = Vec::new();
            let mut k: usize = 0;
            while k < self.copies
                invariant
                    k <= self.copies,
                    self@ == before,
                    drawable(before.temp_problem),
                    added.len() == k,
                    forall|j: int|
                        0 <= j < k ==> regenerated(before.temp_problem, #[trigger] added[j]@),
                decreases self.copies - k,
            {
                let mut copy = self.temp_problem.clone();
                let r = copy.generate();
                match r {
                    Ok(()) => {
                        added.push(copy);
                    },
                    Err(e) => {
                        proof {
                            reported_failure_is_possible(before.temp_problem, e);
                        }
                        return Err(e);
                    },
                }
                k = k + 1;
            }
            let ghost added_views = problem_views(added@);
            self.problems.append(&mut added);
            self.editing_problem = false;
            proof {
                assert(self@.problems =~= before.problems + added_views);
                assert(self@.problems.take(before.problems.len() as int) =~= before.problems);
                assert forall|j: int|
                    before.problems.len() <= j < self@.problems.len() implies regenerated(
                    before.temp_problem,
                    #[trigger] self@.problems[j],
                ) by {
                    assert(self@.problems[j] == added_views[j - before.problems.len()]);
                }
            }
            Ok(())
        } else {
            let r = self.temp_problem.generate();
            match r {
                Ok(()) => {
                    let stored = self.temp_problem.clone();
                    self.problems.set(self.problem_editing, stored);
                    self.editing_problem = false;
                    proof {
                        assert(self@.problems =~= before.problems.update(
                            before.problem_editing as int,
                            self@.temp_problem,
                        ));
                    }
                    Ok(())
                },
                Err(e) => {
                    proof {
                        reported_failure_is_possible(before.temp_problem, e);
                    }
                    Err(e)
                },
            }
        }
    }
}

} // verus!
