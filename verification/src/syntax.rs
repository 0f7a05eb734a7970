use vstd::prelude::*;

use crate::ltl::Formula;
use crate::time::Duration;

verus! {

/// A user-facing formula, before normalization: negation may appear
/// anywhere.  `T` is the handle of an atomic predicate.
#[derive(Debug, PartialEq, Eq)]
pub enum Syntax<T> {
    Pure { value: bool, pretty: String },
    Thunk(T),
    Not(Box<Syntax<T>>),
    And(Box<Syntax<T>>, Box<Syntax<T>>),
    Or(Box<Syntax<T>>, Box<Syntax<T>>),
    Implies(Box<Syntax<T>>, Box<Syntax<T>>),
    Next(Box<Syntax<T>>),
    Always(Box<Syntax<T>>, Option<Duration>),
    Eventually(Box<Syntax<T>>, Option<Duration>),
}

/// The negation normal form of `s`, negated once more when `negated`
/// is true: negations are pushed to the leaves by De Morgan's laws and
/// by the dualities of the temporal connectives, with bounds preserved.
pub open spec fn spec_nnf<T>(s: Syntax<T>, negated: bool) -> Formula<T>
    decreases s,
{
    match s {
        Syntax::Pure { value, pretty } => {
            if value != negated {
                Formula::True { pretty }
            } else {
                Formula::False { pretty }
            }
        },
        Syntax::Thunk(handle) => Formula::Thunk { handle, negated },
        Syntax::Not(inner) => spec_nnf(*inner, !negated),
        Syntax::And(a, b) => {
            if negated {
                Formula::Or(
                    Box::new(spec_nnf(*a, true)),
                    Box::new(spec_nnf(*b, true)),
                )
            } else {
                Formula::And(
                    Box::new(spec_nnf(*a, false)),
                    Box::new(spec_nnf(*b, false)),
                )
            }
        },
        Syntax::Or(a, b) => {
            if negated {
                Formula::And(
                    Box::new(spec_nnf(*a, true)),
                    Box::new(spec_nnf(*b, true)),
                )
            } else {
                Formula::Or(
                    Box::new(spec_nnf(*a, false)),
                    Box::new(spec_nnf(*b, false)),
                )
            }
        },
        Syntax::Implies(a, b) => {
            if negated {
                Formula::And(
                    Box::new(spec_nnf(*a, false)),
                    Box::new(spec_nnf(*b, true)),
                )
            } else {
                Formula::Implies(
                    Box::new(spec_nnf(*a, false)),
                    Box::new(spec_nnf(*b, false)),
                )
            }
        },
        Syntax::Next(a) => Formula::Next(Box::new(spec_nnf(*a, negated))),
        Syntax::Always(a, bound) => {
            if negated {
                Formula::Eventually(Box::new(spec_nnf(*a, true)), bound)
            } else {
                Formula::Always(Box::new(spec_nnf(*a, false)), bound)
            }
        },
        Syntax::Eventually(a, bound) => {
            if negated {
                Formula::Always(Box::new(spec_nnf(*a, true)), bound)
            } else {
                Formula::Eventually(Box::new(spec_nnf(*a, false)), bound)
            }
        },
    }
}

impl<T> Syntax<T> {
    /// Normalize to negation normal form.
    pub fn nnf(self) -> (r: Formula<T>)
        ensures
            r == spec_nnf(self, false),
    {
        self.nnf_under(false)
    }

    /// Normalize `self`, negated once more when `negated` is true.
    pub fn nnf_under(self, negated: bool) -> (r: Formula<T>)
        ensures
            r == spec_nnf(self, negated),
        decreases self,
    {
        match self {
            Syntax::Pure { value, pretty } => {
                if value != negated {
                    Formula::True { pretty }
                } else {
                    Formula::False { pretty }
                }
            },
            Syntax::Thunk(handle) => Formula::Thunk { handle, negated },
            Syntax::Not(inner) => inner.nnf_under(!negated),
            Syntax::And(a, b) => {
                if negated {
                    Formula::Or(
                        Box::new(a.nnf_under(true)),
                        Box::new(b.nnf_under(true)),
                    )
                } else {
                    Formula::And(
                        Box::new(a.nnf_under(false)),
                        Box::new(b.nnf_under(false)),
                    )
                }
            },
            Syntax::Or(a, b) => {
                if negated {
                    Formula::And(
                        Box::new(a.nnf_under(true)),
                        Box::new(b.nnf_under(true)),
                    )
                } else {
                    Formula::Or(
                        Box::new(a.nnf_under(false)),
                        Box::new(b.nnf_under(false)),
                    )
                }
            },
            Syntax::Implies(a, b) => {
                if negated {
                    Formula::And(
                        Box::new(a.nnf_under(false)),
                        Box::new(b.nnf_under(true)),
                    )
                } else {
                    Formula::Implies(
                        Box::new(a.nnf_under(false)),
                        Box::new(b.nnf_under(false)),
                    )
                }
            },
            Syntax::Next(a) => Formula::Next(Box::new(a.nnf_under(negated))),
            Syntax::Always(a, bound) => {
                if negated {
                    Formula::Eventually(Box::new(a.nnf_under(true)), bound)
                } else {
                    Formula::Always(Box::new(a.nnf_under(false)), bound)
                }
            },
            Syntax::Eventually(a, bound) => {
                if negated {
                    Formula::Always(Box::new(a.nnf_under(true)), bound)
                } else {
                    Formula::Eventually(Box::new(a.nnf_under(false)), bound)
                }
            },
        }
    }
}

/// The embedding of a normalized formula back into the user-facing
/// syntax: a negated thunk becomes `Not` applied directly to the leaf.
pub open spec fn spec_to_syntax<T>(f: Formula<T>) -> Syntax<T>
    decreases f,
{
    match f {
        Formula::True { pretty } => Syntax::Pure { value: true, pretty },
        Formula::False { pretty } => Syntax::Pure { value: false, pretty },
        Formula::Thunk { handle, negated } => {
            if negated {
                Syntax::Not(Box::new(Syntax::Thunk(handle)))
            } else {
                Syntax::Thunk(handle)
            }
        },
        Formula::And(a, b) => Syntax::And(
            Box::new(spec_to_syntax(*a)),
            Box::new(spec_to_syntax(*b)),
        ),
        Formula::Or(a, b) => Syntax::Or(
            Box::new(spec_to_syntax(*a)),
            Box::new(spec_to_syntax(*b)),
        ),
        Formula::Implies(a, b) => Syntax::Implies(
            Box::new(spec_to_syntax(*a)),
            Box::new(spec_to_syntax(*b)),
        ),
        Formula::Next(a) => Syntax::Next(Box::new(spec_to_syntax(*a))),
        Formula::Always(a, bound) => Syntax::Always(Box::new(spec_to_syntax(*a)), bound),
        Formula::Eventually(a, bound) => Syntax::Eventually(Box::new(spec_to_syntax(*a)), bound),
    }
}

/// Negation appears only directly on a `Thunk` leaf.
pub open spec fn negations_on_leaves<T>(s: Syntax<T>) -> bool
    decreases s,
{
    match s {
        Syntax::Pure { .. } => true,
        Syntax::Thunk(_) => true,
        Syntax::Not(inner) => *inner matches Syntax::Thunk(_),
        Syntax::And(a, b) => negations_on_leaves(*a) && negations_on_leaves(*b),
        Syntax::Or(a, b) => negations_on_leaves(*a) && negations_on_leaves(*b),
        Syntax::Implies(a, b) => negations_on_leaves(*a) && negations_on_leaves(*b),
        Syntax::Next(a) => negations_on_leaves(*a),
        Syntax::Always(a, _) => negations_on_leaves(*a),
        Syntax::Eventually(a, _) => negations_on_leaves(*a),
    }
}

/// Normalization is idempotent: normalizing the embedding of an
/// already normalized formula changes nothing.
pub proof fn lemma_nnf_idempotent<T>(s: Syntax<T>)
    ensures
        spec_nnf(spec_to_syntax(spec_nnf(s, false)), false) == spec_nnf(s, false),
{
    lemma_nnf_fixed_point(spec_nnf(s, false));
}

/// Every formula produced by normalization is a fixed point of
/// normalization under the embedding into syntax.
pub proof fn lemma_nnf_fixed_point<T>(f: Formula<T>)
    ensures
        spec_nnf(spec_to_syntax(f), false) == f,
    decreases f,
{
    match f {
        Formula::True { .. } => {},
        Formula::False { .. } => {},
        Formula::Thunk { handle, negated } => {
            if negated {
                assert(spec_nnf(Syntax::Thunk(handle), true) == Formula::Thunk {
                    handle,
                    negated: true,
                });
            }
        },
        Formula::And(a, b) => {
            lemma_nnf_fixed_point(*a);
            lemma_nnf_fixed_point(*b);
        },
        Formula::Or(a, b) => {
            lemma_nnf_fixed_point(*a);
            lemma_nnf_fixed_point(*b);
        },
        Formula::Implies(a, b) => {
            lemma_nnf_fixed_point(*a);
            lemma_nnf_fixed_point(*b);
        },
        Formula::Next(a) => {
            lemma_nnf_fixed_point(*a);
        },
        Formula::Always(a, _) => {
            lemma_nnf_fixed_point(*a);
        },
        Formula::Eventually(a, _) => {
            lemma_nnf_fixed_point(*a);
        },
    }
}

/// Normalization leaves no negation except directly on a leaf: the
/// normalized formula, read back as syntax, is negation-free but for
/// `Not` around atomic predicates.
pub proof fn lemma_nnf_negations_on_leaves<T>(s: Syntax<T>, negated: bool)
    ensures
        negations_on_leaves(spec_to_syntax(spec_nnf(s, negated))),
    decreases s,
{
    match s {
        Syntax::Pure { .. } => {},
        Syntax::Thunk(_) => {},
        Syntax::Not(inner) => {
            lemma_nnf_negations_on_leaves(*inner, !negated);
        },
        Syntax::And(a, b) => {
            lemma_nnf_negations_on_leaves(*a, negated);
            lemma_nnf_negations_on_leaves(*b, negated);
        },
        Syntax::Or(a, b) => {
            lemma_nnf_negations_on_leaves(*a, negated);
            lemma_nnf_negations_on_leaves(*b, negated);
        },
        Syntax::Implies(a, b) => {
            if negated {
                lemma_nnf_negations_on_leaves(*a, false);
                lemma_nnf_negations_on_leaves(*b, true);
            } else {
                lemma_nnf_negations_on_leaves(*a, false);
                lemma_nnf_negations_on_leaves(*b, false);
            }
        },
        Syntax::Next(a) => {
            lemma_nnf_negations_on_leaves(*a, negated);
        },
        Syntax::Always(a, _) => {
            lemma_nnf_negations_on_leaves(*a, negated);
        },
        Syntax::Eventually(a, _) => {
            lemma_nnf_negations_on_leaves(*a, negated);
        },
    }
}

} // verus!
