use vstd::prelude::*;

use crate::time::{Duration, Time};

verus! {

/// A formula in negation normal form: negation never appears as a
/// connective, it is absorbed into the `negated` flag of a `Thunk`
/// leaf or into the `False` literal.  The type parameter `T` is the
/// handle of an atomic predicate; production code uses an identifier
/// into a table of runtime callables, tests use small plain values.
#[derive(Debug, PartialEq, Eq)]
pub enum Formula<T> {
    True { pretty: String },
    False { pretty: String },
    Thunk { handle: T, negated: bool },
    And(Box<Formula<T>>, Box<Formula<T>>),
    Or(Box<Formula<T>>, Box<Formula<T>>),
    Implies(Box<Formula<T>>, Box<Formula<T>>),
    Next(Box<Formula<T>>),
    Always(Box<Formula<T>>, Option<Duration>),
    Eventually(Box<Formula<T>>, Option<Duration>),
}

/// Why an `Eventually` obligation failed.
#[derive(Debug, Clone, Copy, PartialEq, Eq)]
pub enum EventuallyViolation {
    /// No witness arrived before the bound ran out; carries the tick at
    /// which the obligation was given up.
    TimedOut(Time),
    /// The test ended while the obligation was still open.
    TestEnded,
}

/// The structured cause of a `False` verdict.
#[derive(Debug, PartialEq, Eq)]
pub enum Violation<T> {
    /// A literal or an atomic predicate evaluated to false; carries the
    /// source text captured at construction time.
    False { condition: String },
    /// Both sides of a conjunction failed.
    And { left: Box<Violation<T>>, right: Box<Violation<T>> },
    /// Both sides of a disjunction failed.
    Or { left: Box<Violation<T>>, right: Box<Violation<T>> },
    /// The antecedent held, and the consequent failed.
    Implies { left: Box<Formula<T>>, right: Box<Violation<T>> },
    Eventually { subformula: Box<Formula<T>>, reason: EventuallyViolation },
    Always {
        subformula: Box<Formula<T>>,
        violation: Box<Violation<T>>,
        start: Time,
        time: Time,
    },
}

/// The output of one evaluation step: a definite verdict, or the
/// obligations that remain open.
#[derive(Debug, PartialEq, Eq)]
pub enum Value<T> {
    True,
    False(Violation<T>),
    Residual(Residual<T>),
}

/// A partially evaluated formula together with the context needed to
/// resume it at the next tick.
///
/// The structural variants store a `Value` for each side so that a side
/// that already decided keeps its verdict while the other side is still
/// stepped; by construction a decided side is never one that would have
/// collapsed the whole residual at combination time.
#[derive(Debug, PartialEq, Eq)]
pub enum Residual<T> {
    /// The sub-formula is carried unchanged and evaluated at the next
    /// step.
    Next(Box<Formula<T>>),
    And(Box<Value<T>>, Box<Value<T>>),
    Or(Box<Value<T>>, Box<Value<T>>),
    Implies {
        antecedent: Box<Value<T>>,
        formula: Box<Formula<T>>,
        consequent: Box<Value<T>>,
    },
    /// Has held since `start`; must continue to hold through
    /// `start + bound`, or indefinitely when unbounded.
    Always {
        subformula: Box<Formula<T>>,
        start: Time,
        bound: Option<Duration>,
    },
    /// Has failed to hold since `start`; must become true no later than
    /// `start + bound`, or is an open liveness obligation when unbounded.
    Eventually {
        subformula: Box<Formula<T>>,
        start: Time,
        bound: Option<Duration>,
    },
}

impl<T: Copy> Formula<T> {
    /// A structurally equal copy.
    pub fn duplicate(&self) -> (r: Self)
        ensures
            r == *self,
        decreases *self,
    {
        match self {
            Formula::True { pretty } => Formula::True { pretty: pretty.clone() },
            Formula::False { pretty } => Formula::False { pretty: pretty.clone() },
            Formula::Thunk { handle, negated } => Formula::Thunk {
                handle: *handle,
                negated: *negated,
            },
            Formula::And(a, b) => Formula::And(
                Box::new(a.duplicate()),
                Box::new(b.duplicate()),
            ),
            Formula::Or(a, b) => Formula::Or(
                Box::new(a.duplicate()),
                Box::new(b.duplicate()),
            ),
            Formula::Implies(a, b) => Formula::Implies(
                Box::new(a.duplicate()),
                Box::new(b.duplicate()),
            ),
            Formula::Next(a) => Formula::Next(Box::new(a.duplicate())),
            Formula::Always(a, bound) => Formula::Always(
                Box::new(a.duplicate()),
                *bound,
            ),
            Formula::Eventually(a, bound) => Formula::Eventually(
                Box::new(a.duplicate()),
                *bound,
            ),
        }
    }
}

impl<T: Copy> Violation<T> {
    /// A structurally equal copy.
    pub fn duplicate(&self) -> (r: Self)
        ensures
            r == *self,
        decreases *self,
    {
        match self {
            Violation::False { condition } => Violation::False {
                condition: condition.clone(),
            },
            Violation::And { left, right } => Violation::And {
                left: Box::new(left.duplicate()),
                right: Box::new(right.duplicate()),
            },
            Violation::Or { left, right } => Violation::Or {
                left: Box::new(left.duplicate()),
                right: Box::new(right.duplicate()),
            },
            Violation::Implies { left, right } => Violation::Implies {
                left: Box::new(left.duplicate()),
                right: Box::new(right.duplicate()),
            },
            Violation::Eventually { subformula, reason } => Violation::Eventually {
                subformula: Box::new(subformula.duplicate()),
                reason: match reason {
                    EventuallyViolation::TimedOut(t) => EventuallyViolation::TimedOut(*t),
                    EventuallyViolation::TestEnded => EventuallyViolation::TestEnded,
                },
            },
            Violation::Always { subformula, violation, start, time } => Violation::Always {
                subformula: Box::new(subformula.duplicate()),
                violation: Box::new(violation.duplicate()),
                start: *start,
                time: *time,
            },
        }
    }
}

impl<T: Copy> Value<T> {
    /// A structurally equal copy.
    pub fn duplicate(&self) -> (r: Self)
        ensures
            r == *self,
        decreases *self,
    {
        match self {
            Value::True => Value::True,
            Value::False(v) => Value::False(v.duplicate()),
            Value::Residual(r) => Value::Residual(r.duplicate()),
        }
    }
}

impl<T: Copy> Residual<T> {
    /// A structurally equal copy.
    pub fn duplicate(&self) -> (r: Self)
        ensures
            r == *self,
        decreases *self,
    {
        match self {
            Residual::Next(f) => Residual::Next(Box::new(f.duplicate())),
            Residual::And(l, r) => Residual::And(
                Box::new(l.duplicate()),
                Box::new(r.duplicate()),
            ),
            Residual::Or(l, r) => Residual::Or(
                Box::new(l.duplicate()),
                Box::new(r.duplicate()),
            ),
            Residual::Implies { antecedent, formula, consequent } => Residual::Implies {
                antecedent: Box::new(antecedent.duplicate()),
                formula: Box::new(formula.duplicate()),
                consequent: Box::new(consequent.duplicate()),
            },
            Residual::Always { subformula, start, bound } => Residual::Always {
                subformula: Box::new(subformula.duplicate()),
                start: *start,
                bound: *bound,
            },
            Residual::Eventually { subformula, start, bound } => Residual::Eventually {
                subformula: Box::new(subformula.duplicate()),
                start: *start,
                bound: *bound,
            },
        }
    }
}

} // verus!
