use vstd::prelude::*;

use crate::ltl::{EventuallyViolation, Formula, Residual, Value, Violation};

verus! {

/// The verdict a residual carries if the test stops right now.
///
/// An unbounded `Always` is a safety obligation and defaults to true
/// on truncation; an `Eventually` without a witness is a liveness
/// obligation and defaults to false.
#[derive(Debug, PartialEq, Eq)]
pub enum StopDefault<T> {
    True,
    False(Violation<T>),
}

/// The conjunction rule over stopping defaults: a failing side decides
/// the whole, two holding sides hold, and an undecidable side leaves
/// the rest undecidable.
pub open spec fn spec_stop_and<T>(
    l: Option<StopDefault<T>>,
    r: Option<StopDefault<T>>,
) -> Option<StopDefault<T>> {
    match (l, r) {
        (Some(StopDefault::False(a)), Some(StopDefault::False(b))) => Some(StopDefault::False(
            Violation::And { left: Box::new(a), right: Box::new(b) },
        )),
        (Some(StopDefault::False(a)), _) => Some(StopDefault::False(a)),
        (_, Some(StopDefault::False(b))) => Some(StopDefault::False(b)),
        (Some(StopDefault::True), Some(StopDefault::True)) => Some(StopDefault::True),
        _ => None,
    }
}

/// The disjunction rule over stopping defaults, dual to conjunction.
pub open spec fn spec_stop_or<T>(
    l: Option<StopDefault<T>>,
    r: Option<StopDefault<T>>,
) -> Option<StopDefault<T>> {
    match (l, r) {
        (Some(StopDefault::True), _) => Some(StopDefault::True),
        (_, Some(StopDefault::True)) => Some(StopDefault::True),
        (Some(StopDefault::False(a)), Some(StopDefault::False(b))) => Some(StopDefault::False(
            Violation::Or { left: Box::new(a), right: Box::new(b) },
        )),
        _ => None,
    }
}

/// The implication rule over stopping defaults: an antecedent that
/// defaults to false satisfies the whole vacuously; one that defaults
/// to true passes the consequent's default through.
pub open spec fn spec_stop_implies<T>(
    formula: Formula<T>,
    antecedent: Option<StopDefault<T>>,
    consequent: Option<StopDefault<T>>,
) -> Option<StopDefault<T>> {
    match antecedent {
        None => None,
        Some(StopDefault::False(_)) => Some(StopDefault::True),
        Some(StopDefault::True) => match consequent {
            None => None,
            Some(StopDefault::True) => Some(StopDefault::True),
            Some(StopDefault::False(v)) => Some(StopDefault::False(
                Violation::Implies { left: Box::new(formula), right: Box::new(v) },
            )),
        },
    }
}

/// The verdict `r` carries if the test stops right now: `None` when it
/// cannot be decided (an obligation about the next state).
pub open spec fn spec_stop_default<T>(r: Residual<T>) -> Option<StopDefault<T>>
    decreases r,
{
    match r {
        Residual::Next(_) => None,
        Residual::And(l, rr) => spec_stop_and(
            spec_stop_default_value(*l),
            spec_stop_default_value(*rr),
        ),
        Residual::Or(l, rr) => spec_stop_or(
            spec_stop_default_value(*l),
            spec_stop_default_value(*rr),
        ),
        Residual::Implies { antecedent, formula, consequent } => spec_stop_implies(
            *formula,
            spec_stop_default_value(*antecedent),
            spec_stop_default_value(*consequent),
        ),
        Residual::Always { .. } => Some(StopDefault::True),
        Residual::Eventually { subformula, .. } => Some(StopDefault::False(
            Violation::Eventually { subformula, reason: EventuallyViolation::TestEnded },
        )),
    }
}

/// The stopping default of a stored side: a decided verdict is its own
/// default.
pub open spec fn spec_stop_default_value<T>(v: Value<T>) -> Option<StopDefault<T>>
    decreases v,
{
    match v {
        Value::True => Some(StopDefault::True),
        Value::False(x) => Some(StopDefault::False(x)),
        Value::Residual(r) => spec_stop_default(r),
    }
}

/// Combine the stopping defaults of both sides of a conjunction.
pub fn stop_and<T>(
    l: Option<StopDefault<T>>,
    r: Option<StopDefault<T>>,
) -> (res: Option<StopDefault<T>>)
    ensures
        res == spec_stop_and(l, r),
{
    match (l, r) {
        (Some(StopDefault::False(a)), Some(StopDefault::False(b))) => Some(StopDefault::False(
            Violation::And { left: Box::new(a), right: Box::new(b) },
        )),
        (Some(StopDefault::False(a)), _) => Some(StopDefault::False(a)),
        (_, Some(StopDefault::False(b))) => Some(StopDefault::False(b)),
        (Some(StopDefault::True), Some(StopDefault::True)) => Some(StopDefault::True),
        _ => None,
    }
}

/// Combine the stopping defaults of both sides of a disjunction.
pub fn stop_or<T>(
    l: Option<StopDefault<T>>,
    r: Option<StopDefault<T>>,
) -> (res: Option<StopDefault<T>>)
    ensures
        res == spec_stop_or(l, r),
{
    match (l, r) {
        (Some(StopDefault::True), _) => Some(StopDefault::True),
        (_, Some(StopDefault::True)) => Some(StopDefault::True),
        (Some(StopDefault::False(a)), Some(StopDefault::False(b))) => Some(StopDefault::False(
            Violation::Or { left: Box::new(a), right: Box::new(b) },
        )),
        _ => None,
    }
}

/// Combine the stopping defaults of both sides of an implication.
pub fn stop_implies<T>(
    formula: Formula<T>,
    antecedent: Option<StopDefault<T>>,
    consequent: Option<StopDefault<T>>,
) -> (res: Option<StopDefault<T>>)
    ensures
        res == spec_stop_implies(formula, antecedent, consequent),
{
    match antecedent {
        None => None,
        Some(StopDefault::False(_)) => Some(StopDefault::True),
        Some(StopDefault::True) => match consequent {
            None => None,
            Some(StopDefault::True) => Some(StopDefault::True),
            Some(StopDefault::False(v)) => Some(StopDefault::False(
                Violation::Implies { left: Box::new(formula), right: Box::new(v) },
            )),
        },
    }
}

/// The verdict `residual` carries if the test stops right now, or
/// `None` when that cannot be decided.
pub fn stop_default<T: Copy>(residual: &Residual<T>) -> (r: Option<StopDefault<T>>)
    ensures
        r == spec_stop_default(*residual),
    decreases *residual,
{
    match residual {
        Residual::Next(_) => None,
        Residual::And(l, rr) => {
            let sl = stop_default_value(l);
            let sr = stop_default_value(rr);
            stop_and(sl, sr)
        },
        Residual::Or(l, rr) => {
            let sl = stop_default_value(l);
            let sr = stop_default_value(rr);
            stop_or(sl, sr)
        },
        Residual::Implies { antecedent, formula, consequent } => {
            let sa = stop_default_value(antecedent);
            let sc = stop_default_value(consequent);
            stop_implies(formula.duplicate(), sa, sc)
        },
        Residual::Always { .. } => Some(StopDefault::True),
        Residual::Eventually { subformula, .. } => Some(StopDefault::False(
            Violation::Eventually {
                subformula: Box::new(subformula.duplicate()),
                reason: EventuallyViolation::TestEnded,
            },
        )),
    }
}

/// The stopping default of a stored side of a structural residual.
pub fn stop_default_value<T: Copy>(value: &Value<T>) -> (r: Option<StopDefault<T>>)
    ensures
        r == spec_stop_default_value(*value),
    decreases *value,
{
    match value {
        Value::True => Some(StopDefault::True),
        Value::False(x) => Some(StopDefault::False(x.duplicate())),
        Value::Residual(r) => stop_default(r),
    }
}

} // verus!
