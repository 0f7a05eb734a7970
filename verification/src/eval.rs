use vstd::prelude::*;

use crate::ltl::{EventuallyViolation, Formula, Residual, Value, Violation};
use crate::time::{past_deadline, spec_past_deadline, Time};

verus! {

/// A runtime evaluation error, surfaced to the caller of `evaluate`
/// and `step`; property violations are values, not errors.
#[derive(Debug, Clone, PartialEq, Eq)]
pub enum EvalError {
    /// An atomic predicate threw or returned something that is neither
    /// a boolean nor a formula; carries the resolver's message.
    Thunk { message: String },
    /// Atomic predicates kept returning new formulas past the
    /// evaluation budget.
    DepthExceeded,
}

/// What one evaluation comes to: a value, or one of the two ways it
/// can fail.
#[derive(Debug, PartialEq, Eq)]
pub enum EvalOutcome<T> {
    Value(Value<T>),
    ResolveFailed,
    NoFuel,
}

/// The mathematical model of a thunk resolver for one tick: what
/// formula each atomic predicate resolves to, with `None` for a
/// predicate that fails.
pub type ThunkModel<T> = spec_fn(T, bool) -> Option<Formula<T>>;

/// Resolves atomic predicates for the current tick.
///
/// The production resolver calls user code in the scripting runtime;
/// the evaluator never introspects thunks.  When `negated` is true the
/// resolver must return the normal form of the negated predicate: the
/// resolver owns negation.
pub trait ThunkResolver<T> {
    /// The resolution this resolver implements for the current tick.
    spec fn model(&self) -> ThunkModel<T>;

    /// Resolve one atomic predicate to a formula, or fail with a
    /// message.
    fn resolve(&self, handle: &T, negated: bool) -> (r: Result<Formula<T>, String>)
        ensures
            match r {
                Ok(f) => self.model()(*handle, negated) == Some(f),
                Err(_) => self.model()(*handle, negated) is None,
            },
    ;
}

/// The conjunction rule: any failure fails the whole (both failures
/// are reported when both sides failed), both truths succeed, and
/// anything else remains open.
pub open spec fn spec_and_combine<T>(l: Value<T>, r: Value<T>) -> Value<T> {
    match (l, r) {
        (Value::False(a), Value::False(b)) => Value::False(
            Violation::And { left: Box::new(a), right: Box::new(b) },
        ),
        (Value::False(a), _) => Value::False(a),
        (_, Value::False(b)) => Value::False(b),
        (Value::True, Value::True) => Value::True,
        (l2, r2) => Value::Residual(Residual::And(Box::new(l2), Box::new(r2))),
    }
}

/// The disjunction rule: any truth satisfies the whole, both failures
/// fail it, and a failure beside an open side leaves only the open
/// side.
pub open spec fn spec_or_combine<T>(l: Value<T>, r: Value<T>) -> Value<T> {
    match (l, r) {
        (Value::True, _) => Value::True,
        (_, Value::True) => Value::True,
        (Value::False(a), Value::False(b)) => Value::False(
            Violation::Or { left: Box::new(a), right: Box::new(b) },
        ),
        (Value::False(_), r2) => r2,
        (l2, Value::False(_)) => l2,
        (l2, r2) => Value::Residual(Residual::Or(Box::new(l2), Box::new(r2))),
    }
}

/// The implication rule over the values of both sides: a failed
/// antecedent satisfies the whole vacuously, a holding antecedent
/// passes the consequent through (wrapping its violation), and an open
/// antecedent keeps both sides tracked.
pub open spec fn spec_implies_combine<T>(fa: Formula<T>, va: Value<T>, vc: Value<T>) -> Value<T> {
    match va {
        Value::False(_) => Value::True,
        Value::True => match vc {
            Value::True => Value::True,
            Value::False(v) => Value::False(
                Violation::Implies { left: Box::new(fa), right: Box::new(v) },
            ),
            Value::Residual(_) => Value::Residual(Residual::Implies {
                antecedent: Box::new(Value::True),
                formula: Box::new(fa),
                consequent: Box::new(vc),
            }),
        },
        Value::Residual(_) => Value::Residual(Residual::Implies {
            antecedent: Box::new(va),
            formula: Box::new(fa),
            consequent: Box::new(vc),
        }),
    }
}

/// Evaluation of a fresh formula as of tick `t`.
///
/// Atomic predicates resolve through `m` and the returned formula is
/// evaluated in turn, spending one unit of `fuel`; `Next` never looks
/// at the current tick; `Always` and `Eventually` open residual
/// obligations carrying `t` as their start.
pub open spec fn spec_evaluate<T>(m: ThunkModel<T>, f: Formula<T>, t: Time, fuel: nat) -> EvalOutcome<T>
    decreases fuel, f,
{
    match f {
        Formula::True { .. } => EvalOutcome::Value(Value::True),
        Formula::False { pretty } => EvalOutcome::Value(
            Value::False(Violation::False { condition: pretty }),
        ),
        Formula::Thunk { handle, negated } => match m(handle, negated) {
            Option::None => EvalOutcome::ResolveFailed,
            Option::Some(g) => if fuel == 0 {
                EvalOutcome::NoFuel
            } else {
                spec_evaluate(m, g, t, (fuel - 1) as nat)
            },
        },
        Formula::And(a, b) => match spec_evaluate(m, *a, t, fuel) {
            EvalOutcome::Value(va) => match spec_evaluate(m, *b, t, fuel) {
                EvalOutcome::Value(vb) => EvalOutcome::Value(spec_and_combine(va, vb)),
                e => e,
            },
            e => e,
        },
        Formula::Or(a, b) => match spec_evaluate(m, *a, t, fuel) {
            EvalOutcome::Value(Value::True) => EvalOutcome::Value(Value::True),
            EvalOutcome::Value(va) => match spec_evaluate(m, *b, t, fuel) {
                EvalOutcome::Value(vb) => EvalOutcome::Value(spec_or_combine(va, vb)),
                e => e,
            },
            e => e,
        },
        Formula::Implies(a, b) => match spec_evaluate(m, *a, t, fuel) {
            EvalOutcome::Value(Value::False(_)) => EvalOutcome::Value(Value::True),
            EvalOutcome::Value(va) => match spec_evaluate(m, *b, t, fuel) {
                EvalOutcome::Value(vb) => EvalOutcome::Value(spec_implies_combine(*a, va, vb)),
                e => e,
            },
            e => e,
        },
        Formula::Next(a) => EvalOutcome::Value(Value::Residual(Residual::Next(a))),
        Formula::Always(a, bound) => match spec_evaluate(m, *a, t, fuel) {
            EvalOutcome::Value(Value::False(v)) => EvalOutcome::Value(Value::False(
                Violation::Always {
                    subformula: a,
                    violation: Box::new(v),
                    start: t,
                    time: t,
                },
            )),
            EvalOutcome::Value(Value::True) => if bound matches Some(d) && d.milliseconds == 0 {
                EvalOutcome::Value(Value::True)
            } else {
                EvalOutcome::Value(Value::Residual(
                    Residual::Always { subformula: a, start: t, bound },
                ))
            },
            EvalOutcome::Value(Value::Residual(_)) => EvalOutcome::Value(Value::Residual(
                Residual::Always { subformula: a, start: t, bound },
            )),
            e => e,
        },
        Formula::Eventually(a, bound) => match spec_evaluate(m, *a, t, fuel) {
            EvalOutcome::Value(Value::True) => EvalOutcome::Value(Value::True),
            EvalOutcome::Value(_) => EvalOutcome::Value(Value::Residual(
                Residual::Eventually { subformula: a, start: t, bound },
            )),
            e => e,
        },
    }
}

/// One step of an existing residual at tick `t`.
///
/// Deadlines are strict: a bounded `Always` is satisfied, and a
/// bounded `Eventually` without a witness times out, only strictly
/// after `start + bound`.
pub open spec fn spec_step<T>(m: ThunkModel<T>, r: Residual<T>, t: Time, fuel: nat) -> EvalOutcome<T>
    decreases r,
{
    match r {
        Residual::Next(g) => spec_evaluate(m, *g, t, fuel),
        Residual::And(l, rr) => match spec_step_value(m, *l, t, fuel) {
            EvalOutcome::Value(vl) => match spec_step_value(m, *rr, t, fuel) {
                EvalOutcome::Value(vr) => EvalOutcome::Value(spec_and_combine(vl, vr)),
                e => e,
            },
            e => e,
        },
        Residual::Or(l, rr) => match spec_step_value(m, *l, t, fuel) {
            EvalOutcome::Value(vl) => match spec_step_value(m, *rr, t, fuel) {
                EvalOutcome::Value(vr) => EvalOutcome::Value(spec_or_combine(vl, vr)),
                e => e,
            },
            e => e,
        },
        Residual::Implies { antecedent, formula, consequent } => {
            match spec_step_value(m, *antecedent, t, fuel) {
                EvalOutcome::Value(va) => match spec_step_value(m, *consequent, t, fuel) {
                    EvalOutcome::Value(vc) => EvalOutcome::Value(
                        spec_implies_combine(*formula, va, vc),
                    ),
                    e => e,
                },
                e => e,
            }
        },
        Residual::Always { subformula, start, bound } => {
            if bound matches Some(d) && spec_past_deadline(t, start, d) {
                EvalOutcome::Value(Value::True)
            } else {
                match spec_evaluate(m, *subformula, t, fuel) {
                    EvalOutcome::Value(Value::False(v)) => EvalOutcome::Value(Value::False(
                        Violation::Always {
                            subformula,
                            violation: Box::new(v),
                            start,
                            time: t,
                        },
                    )),
                    EvalOutcome::Value(_) => EvalOutcome::Value(Value::Residual(
                        Residual::Always { subformula, start, bound },
                    )),
                    e => e,
                }
            }
        },
        Residual::Eventually { subformula, start, bound } => {
            match spec_evaluate(m, *subformula, t, fuel) {
                EvalOutcome::Value(Value::True) => EvalOutcome::Value(Value::True),
                EvalOutcome::Value(_) => if bound matches Some(d)
                    && spec_past_deadline(t, start, d) {
                    EvalOutcome::Value(Value::False(Violation::Eventually {
                        subformula,
                        reason: EventuallyViolation::TimedOut(t),
                    }))
                } else {
                    EvalOutcome::Value(Value::Residual(
                        Residual::Eventually { subformula, start, bound },
                    ))
                },
                e => e,
            }
        },
    }
}

/// A stored side of a structural residual: a decided verdict keeps its
/// value, an open one is stepped.
pub open spec fn spec_step_value<T>(m: ThunkModel<T>, v: Value<T>, t: Time, fuel: nat) -> EvalOutcome<T>
    decreases v,
{
    match v {
        Value::True => EvalOutcome::Value(Value::True),
        Value::False(x) => EvalOutcome::Value(Value::False(x)),
        Value::Residual(r) => spec_step(m, r, t, fuel),
    }
}

/// Combine the values of both sides of a conjunction.
pub fn and_combine<T>(l: Value<T>, r: Value<T>) -> (res: Value<T>)
    ensures
        res == spec_and_combine(l, r),
{
    match (l, r) {
        (Value::False(a), Value::False(b)) => Value::False(
            Violation::And { left: Box::new(a), right: Box::new(b) },
        ),
        (Value::False(a), _) => Value::False(a),
        (_, Value::False(b)) => Value::False(b),
        (Value::True, Value::True) => Value::True,
        (l2, r2) => Value::Residual(Residual::And(Box::new(l2), Box::new(r2))),
    }
}

/// Combine the values of both sides of a disjunction.
pub fn or_combine<T>(l: Value<T>, r: Value<T>) -> (res: Value<T>)
    ensures
        res == spec_or_combine(l, r),
{
    match (l, r) {
        (Value::True, _) => Value::True,
        (_, Value::True) => Value::True,
        (Value::False(a), Value::False(b)) => Value::False(
            Violation::Or { left: Box::new(a), right: Box::new(b) },
        ),
        (Value::False(_), r2) => r2,
        (l2, Value::False(_)) => l2,
        (l2, r2) => Value::Residual(Residual::Or(Box::new(l2), Box::new(r2))),
    }
}

/// Combine the antecedent formula and the values of both sides of an
/// implication.
pub fn implies_combine<T>(fa: Formula<T>, va: Value<T>, vc: Value<T>) -> (res: Value<T>)
    ensures
        res == spec_implies_combine(fa, va, vc),
{
    match va {
        Value::False(_) => Value::True,
        Value::True => match vc {
            Value::True => Value::True,
            Value::False(v) => Value::False(
                Violation::Implies { left: Box::new(fa), right: Box::new(v) },
            ),
            vc2 => Value::Residual(Residual::Implies {
                antecedent: Box::new(Value::True),
                formula: Box::new(fa),
                consequent: Box::new(vc2),
            }),
        },
        va2 => Value::Residual(Residual::Implies {
            antecedent: Box::new(va2),
            formula: Box::new(fa),
            consequent: Box::new(vc),
        }),
    }
}

/// Evaluate a fresh formula as of `time`, resolving atomic predicates
/// through `resolver` with at most `fuel` nested thunk expansions.
pub fn evaluate<T: Copy, R: ThunkResolver<T>>(
    resolver: &R,
    formula: &Formula<T>,
    time: Time,
    fuel: u64,
) -> (r: Result<Value<T>, EvalError>)
    ensures
        match r {
            Ok(v) => spec_evaluate(resolver.model(), *formula, time, fuel as nat)
                == EvalOutcome::Value(v),
            Err(EvalError::DepthExceeded) => spec_evaluate(
                resolver.model(), *formula, time, fuel as nat,
            ) is NoFuel,
            Err(EvalError::Thunk { .. }) => spec_evaluate(
                resolver.model(), *formula, time, fuel as nat,
            ) is ResolveFailed,
        },
    decreases fuel, *formula,
{
    match formula {
        Formula::True { .. } => Ok(Value::True),
        Formula::False { pretty } => Ok(Value::False(
            Violation::False { condition: pretty.clone() },
        )),
        Formula::Thunk { handle, negated } => match resolver.resolve(handle, *negated) {
            Err(message) => Err(EvalError::Thunk { message }),
            Ok(g) => if fuel == 0 {
                Err(EvalError::DepthExceeded)
            } else {
                evaluate(resolver, &g, time, fuel - 1)
            },
        },
        Formula::And(a, b) => match evaluate(resolver, &**a, time, fuel) {
            Err(e) => Err(e),
            Ok(va) => match evaluate(resolver, &**b, time, fuel) {
                Err(e) => Err(e),
                Ok(vb) => Ok(and_combine(va, vb)),
            },
        },
        Formula::Or(a, b) => match evaluate(resolver, &**a, time, fuel) {
            Err(e) => Err(e),
            Ok(Value::True) => Ok(Value::True),
            Ok(va) => match evaluate(resolver, &**b, time, fuel) {
                Err(e) => Err(e),
                Ok(vb) => Ok(or_combine(va, vb)),
            },
        },
        Formula::Implies(a, b) => match evaluate(resolver, &**a, time, fuel) {
            Err(e) => Err(e),
            Ok(Value::False(_)) => Ok(Value::True),
            Ok(va) => match evaluate(resolver, &**b, time, fuel) {
                Err(e) => Err(e),
                Ok(vb) => Ok(implies_combine(a.duplicate(), va, vb)),
            },
        },
        Formula::Next(a) => Ok(Value::Residual(Residual::Next(Box::new(a.duplicate())))),
        Formula::Always(a, bound) => match evaluate(resolver, &**a, time, fuel) {
            Err(e) => Err(e),
            Ok(Value::False(v)) => Ok(Value::False(Violation::Always {
                subformula: Box::new(a.duplicate()),
                violation: Box::new(v),
                start: time,
                time,
            })),
            Ok(Value::True) => {
                let zero_bound = match bound {
                    Some(d) => d.milliseconds == 0,
                    None => false,
                };
                if zero_bound {
                    Ok(Value::True)
                } else {
                    Ok(Value::Residual(Residual::Always {
                        subformula: Box::new(a.duplicate()),
                        start: time,
                        bound: *bound,
                    }))
                }
            },
            Ok(Value::Residual(_)) => Ok(Value::Residual(Residual::Always {
                subformula: Box::new(a.duplicate()),
                start: time,
                bound: *bound,
            })),
        },
        Formula::Eventually(a, bound) => match evaluate(resolver, &**a, time, fuel) {
            Err(e) => Err(e),
            Ok(Value::True) => Ok(Value::True),
            Ok(_) => Ok(Value::Residual(Residual::Eventually {
                subformula: Box::new(a.duplicate()),
                start: time,
                bound: *bound,
            })),
        },
    }
}

/// Advance an existing residual one tick to `time`.
pub fn step<T: Copy, R: ThunkResolver<T>>(
    resolver: &R,
    residual: &Residual<T>,
    time: Time,
    fuel: u64,
) -> (r: Result<Value<T>, EvalError>)
    ensures
        match r {
            Ok(v) => spec_step(resolver.model(), *residual, time, fuel as nat)
                == EvalOutcome::Value(v),
            Err(EvalError::DepthExceeded) => spec_step(
                resolver.model(), *residual, time, fuel as nat,
            ) is NoFuel,
            Err(EvalError::Thunk { .. }) => spec_step(
                resolver.model(), *residual, time, fuel as nat,
            ) is ResolveFailed,
        },
    decreases *residual,
{
    match residual {
        Residual::Next(g) => evaluate(resolver, &**g, time, fuel),
        Residual::And(l, rr) => match step_value(resolver, &**l, time, fuel) {
            Err(e) => Err(e),
            Ok(vl) => match step_value(resolver, &**rr, time, fuel) {
                Err(e) => Err(e),
                Ok(vr) => Ok(and_combine(vl, vr)),
            },
        },
        Residual::Or(l, rr) => match step_value(resolver, &**l, time, fuel) {
            Err(e) => Err(e),
            Ok(vl) => match step_value(resolver, &**rr, time, fuel) {
                Err(e) => Err(e),
                Ok(vr) => Ok(or_combine(vl, vr)),
            },
        },
        Residual::Implies { antecedent, formula, consequent } => {
            match step_value(resolver, &**antecedent, time, fuel) {
                Err(e) => Err(e),
                Ok(va) => match step_value(resolver, &**consequent, time, fuel) {
                    Err(e) => Err(e),
                    Ok(vc) => Ok(implies_combine(formula.duplicate(), va, vc)),
                },
            }
        },
        Residual::Always { subformula, start, bound } => {
            let out_of_time = match bound {
                Some(d) => past_deadline(time, *start, *d),
                None => false,
            };
            if out_of_time {
                Ok(Value::True)
            } else {
                match evaluate(resolver, &**subformula, time, fuel) {
                    Err(e) => Err(e),
                    Ok(Value::False(v)) => Ok(Value::False(Violation::Always {
                        subformula: Box::new(subformula.duplicate()),
                        violation: Box::new(v),
                        start: *start,
                        time,
                    })),
                    Ok(_) => Ok(Value::Residual(Residual::Always {
                        subformula: Box::new(subformula.duplicate()),
                        start: *start,
                        bound: *bound,
                    })),
                }
            }
        },
        Residual::Eventually { subformula, start, bound } => {
            match evaluate(resolver, &**subformula, time, fuel) {
                Err(e) => Err(e),
                Ok(Value::True) => Ok(Value::True),
                Ok(_) => {
                    let out_of_time = match bound {
                        Some(d) => past_deadline(time, *start, *d),
                        None => false,
                    };
                    if out_of_time {
                        Ok(Value::False(Violation::Eventually {
                            subformula: Box::new(subformula.duplicate()),
                            reason: EventuallyViolation::TimedOut(time),
                        }))
                    } else {
                        Ok(Value::Residual(Residual::Eventually {
                            subformula: Box::new(subformula.duplicate()),
                            start: *start,
                            bound: *bound,
                        }))
                    }
                },
            }
        },
    }
}

/// Advance one stored side of a structural residual: a decided verdict
/// keeps its value, an open one is stepped.
pub fn step_value<T: Copy, R: ThunkResolver<T>>(
    resolver: &R,
    value: &Value<T>,
    time: Time,
    fuel: u64,
) -> (r: Result<Value<T>, EvalError>)
    ensures
        match r {
            Ok(v) => spec_step_value(resolver.model(), *value, time, fuel as nat)
                == EvalOutcome::Value(v),
            Err(EvalError::DepthExceeded) => spec_step_value(
                resolver.model(), *value, time, fuel as nat,
            ) is NoFuel,
            Err(EvalError::Thunk { .. }) => spec_step_value(
                resolver.model(), *value, time, fuel as nat,
            ) is ResolveFailed,
        },
    decreases *value,
{
    match value {
        Value::True => Ok(Value::True),
        Value::False(x) => Ok(Value::False(x.duplicate())),
        Value::Residual(r) => step(resolver, r, time, fuel),
    }
}

} // verus!
