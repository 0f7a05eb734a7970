use vstd::prelude::*;

use crate::eval::{
    spec_evaluate, spec_step, spec_step_value, EvalOutcome, ThunkModel,
};
use crate::ltl::{EventuallyViolation, Formula, Residual, Value, Violation};
use crate::stop::{spec_stop_default, StopDefault};
use crate::syntax::{spec_nnf, Syntax};
use crate::time::{spec_past_deadline, Duration, Time};

verus! {

/// Two stopping defaults with the same classification: both
/// undecidable, both true, or both false (violations may differ).
pub open spec fn similar_stop_defaults<T>(
    l: Option<StopDefault<T>>,
    r: Option<StopDefault<T>>,
) -> bool {
    match (l, r) {
        (None, None) => true,
        (Some(StopDefault::True), Some(StopDefault::True)) => true,
        (Some(StopDefault::False(_)), Some(StopDefault::False(_))) => true,
        _ => false,
    }
}

/// Two values with the same classification: equal verdicts up to the
/// identity of violations, with open obligations compared by their
/// stopping defaults.
pub open spec fn similar_values<T>(l: Value<T>, r: Value<T>) -> bool {
    match (l, r) {
        (Value::True, Value::True) => true,
        (Value::False(_), Value::False(_)) => true,
        (Value::Residual(a), Value::Residual(b)) => similar_stop_defaults(
            spec_stop_default(a),
            spec_stop_default(b),
        ),
        _ => false,
    }
}

/// Two outcomes with the same classification.
pub open spec fn similar_outcomes<T>(l: EvalOutcome<T>, r: EvalOutcome<T>) -> bool {
    match (l, r) {
        (EvalOutcome::Value(a), EvalOutcome::Value(b)) => similar_values(a, b),
        (EvalOutcome::ResolveFailed, EvalOutcome::ResolveFailed) => true,
        (EvalOutcome::NoFuel, EvalOutcome::NoFuel) => true,
        _ => false,
    }
}

/// The outcome after stepping `v` through a trace, one model and one
/// timestamp per tick, stopping at the first decided verdict or error.
pub open spec fn spec_run<T>(
    models: Seq<ThunkModel<T>>,
    times: Seq<Time>,
    v: Value<T>,
    fuel: nat,
) -> EvalOutcome<T>
    decreases models.len(),
{
    if models.len() == 0 || times.len() == 0 {
        EvalOutcome::Value(v)
    } else {
        match v {
            Value::Residual(r) => match spec_step(models[0], r, times[0], fuel) {
                EvalOutcome::Value(v2) => spec_run(
                    models.subrange(1, models.len() as int),
                    times.subrange(1, times.len() as int),
                    v2,
                    fuel,
                ),
                e => e,
            },
            decided => EvalOutcome::Value(decided),
        }
    }
}

/// The outcome of monitoring `f` over a whole trace: evaluated fresh
/// at the first tick, then stepped through the rest.
pub open spec fn spec_monitor<T>(
    f: Formula<T>,
    models: Seq<ThunkModel<T>>,
    times: Seq<Time>,
    fuel: nat,
) -> EvalOutcome<T>
    recommends
        models.len() == times.len(),
        models.len() >= 1,
{
    match spec_evaluate(models[0], f, times[0], fuel) {
        EvalOutcome::Value(v) => spec_run(
            models.subrange(1, models.len() as int),
            times.subrange(1, times.len() as int),
            v,
            fuel,
        ),
        e => e,
    }
}

/// `Next` is self-dual: `X(¬φ)` and `¬X(φ)` normalize to the very
/// same formula, so they yield equal values — violations included —
/// at every step of every trace.
pub proof fn lemma_next_self_duality<T>(phi: Syntax<T>)
    ensures
        spec_nnf(Syntax::Next(Box::new(Syntax::Not(Box::new(phi)))), false)
            == spec_nnf(Syntax::Not(Box::new(Syntax::Next(Box::new(phi)))), false),
{
    assert(spec_nnf(Syntax::Next(Box::new(Syntax::Not(Box::new(phi)))), false)
        == Formula::Next(Box::new(spec_nnf(Syntax::Not(Box::new(phi)), false))));
    assert(spec_nnf(Syntax::Not(Box::new(Syntax::Next(Box::new(phi)))), false)
        == spec_nnf(Syntax::Next(Box::new(phi)), true));
    assert(spec_nnf(Syntax::Next(Box::new(phi)), true)
        == Formula::Next(Box::new(spec_nnf(phi, true))));
}

/// `Always` and `Eventually` are dual: `G(¬φ)` and `¬F(φ)` normalize
/// to the very same formula, with the bound preserved, so they yield
/// equal values at every step of every trace.
pub proof fn lemma_always_eventually_duality<T>(phi: Syntax<T>, bound: Option<Duration>)
    ensures
        spec_nnf(
            Syntax::Always(Box::new(Syntax::Not(Box::new(phi))), bound),
            false,
        ) == spec_nnf(
            Syntax::Not(Box::new(Syntax::Eventually(Box::new(phi), bound))),
            false,
        ),
{
    assert(spec_nnf(Syntax::Always(Box::new(Syntax::Not(Box::new(phi))), bound), false)
        == Formula::Always(Box::new(spec_nnf(Syntax::Not(Box::new(phi)), false)), bound));
    assert(spec_nnf(Syntax::Not(Box::new(Syntax::Eventually(Box::new(phi), bound))), false)
        == spec_nnf(Syntax::Eventually(Box::new(phi), bound), true));
    assert(spec_nnf(Syntax::Eventually(Box::new(phi), bound), true)
        == Formula::Always(Box::new(spec_nnf(phi, true)), bound));
}

/// Once strictly past its deadline, a bounded `Always` residual steps
/// to true, whatever the state supplies.
pub proof fn lemma_always_residual_expiry<T>(
    m: ThunkModel<T>,
    sub: Formula<T>,
    start: Time,
    d: Duration,
    t: Time,
    fuel: nat,
)
    requires
        spec_past_deadline(t, start, d),
    ensures
        spec_step(
            m,
            Residual::Always { subformula: Box::new(sub), start, bound: Some(d) },
            t,
            fuel,
        ) == EvalOutcome::Value(Value::<T>::True),
{
}

/// Once strictly past its deadline, a bounded `Eventually` residual
/// whose subformula still has no witness steps to a timeout violation
/// carrying the current tick.
pub proof fn lemma_eventually_residual_timeout<T>(
    m: ThunkModel<T>,
    sub: Formula<T>,
    start: Time,
    d: Duration,
    t: Time,
    fuel: nat,
)
    requires
        spec_past_deadline(t, start, d),
        spec_evaluate(m, sub, t, fuel) is Value,
        spec_evaluate(m, sub, t, fuel) != EvalOutcome::Value(Value::<T>::True),
    ensures
        spec_step(
            m,
            Residual::Eventually { subformula: Box::new(sub), start, bound: Some(d) },
            t,
            fuel,
        ) == EvalOutcome::Value(Value::False(Violation::Eventually {
            subformula: Box::new(sub),
            reason: EventuallyViolation::TimedOut(t),
        })),
{
}

/// A decided verdict is never stepped again: the run returns it
/// whatever is left of the trace.
proof fn lemma_run_decided<T>(models: Seq<ThunkModel<T>>, times: Seq<Time>, v: Value<T>, fuel: nat)
    requires
        !(v is Residual),
    ensures
        spec_run(models, times, v, fuel) == EvalOutcome::Value(v),
{
}

/// How an unbounded `Eventually` evaluates, as a function of how its
/// subformula evaluates.
proof fn lemma_eventually_eval<T>(m: ThunkModel<T>, g: Formula<T>, t: Time, fuel: nat)
    ensures
        ({
            let inner = spec_evaluate(m, g, t, fuel);
            let outer = spec_evaluate(m, Formula::Eventually(Box::new(g), None), t, fuel);
            match inner {
                EvalOutcome::Value(Value::True) => outer == EvalOutcome::Value(Value::<T>::True),
                EvalOutcome::Value(_) => outer == EvalOutcome::Value(Value::Residual(
                    Residual::Eventually { subformula: Box::new(g), start: t, bound: None },
                )),
                e => outer == e,
            }
        }),
{
}

/// How an unbounded `Always` evaluates, as a function of how its
/// subformula evaluates.
proof fn lemma_always_eval<T>(m: ThunkModel<T>, g: Formula<T>, t: Time, fuel: nat)
    ensures
        ({
            let inner = spec_evaluate(m, g, t, fuel);
            let outer = spec_evaluate(m, Formula::Always(Box::new(g), None), t, fuel);
            match inner {
                EvalOutcome::Value(Value::False(v)) => outer == EvalOutcome::Value(Value::False(
                    Violation::Always {
                        subformula: Box::new(g),
                        violation: Box::new(v),
                        start: t,
                        time: t,
                    },
                )),
                EvalOutcome::Value(_) => outer == EvalOutcome::Value(Value::Residual(
                    Residual::Always { subformula: Box::new(g), start: t, bound: None },
                )),
                e => outer == e,
            }
        }),
{
}

/// The open obligations of `F(φ)` and `F(F(φ))` stay in lock step
/// through any trace: they decide at the same tick, the same way.
proof fn lemma_eventually_idem_run<T>(
    models: Seq<ThunkModel<T>>,
    times: Seq<Time>,
    g: Formula<T>,
    s1: Time,
    s2: Time,
    fuel: nat,
)
    requires
        models.len() == times.len(),
    ensures
        similar_outcomes(
            spec_run(
                models,
                times,
                Value::Residual(Residual::Eventually {
                    subformula: Box::new(g),
                    start: s1,
                    bound: None,
                }),
                fuel,
            ),
            spec_run(
                models,
                times,
                Value::Residual(Residual::Eventually {
                    subformula: Box::new(Formula::Eventually(Box::new(g), None)),
                    start: s2,
                    bound: None,
                }),
                fuel,
            ),
        ),
    decreases models.len(),
{
    let fg = Formula::Eventually(Box::new(g), None);
    let r1 = Residual::Eventually { subformula: Box::new(g), start: s1, bound: None };
    let r2 = Residual::Eventually { subformula: Box::new(fg), start: s2, bound: None };
    if models.len() == 0 {
        assert(spec_stop_default(r1) matches Some(StopDefault::False(_)));
        assert(spec_stop_default(r2) matches Some(StopDefault::False(_)));
    } else {
        let m = models[0];
        let t = times[0];
        let rest_models = models.subrange(1, models.len() as int);
        let rest_times = times.subrange(1, times.len() as int);
        lemma_eventually_eval(m, g, t, fuel);
        match spec_evaluate(m, g, t, fuel) {
            EvalOutcome::Value(Value::True) => {
                assert(spec_step(m, r1, t, fuel) == EvalOutcome::Value(Value::<T>::True));
                assert(spec_step(m, r2, t, fuel) == EvalOutcome::Value(Value::<T>::True));
                lemma_run_decided(rest_models, rest_times, Value::<T>::True, fuel);
            },
            EvalOutcome::Value(_) => {
                assert(spec_step(m, r1, t, fuel) == EvalOutcome::Value(Value::Residual(r1)));
                assert(spec_step(m, r2, t, fuel) == EvalOutcome::Value(Value::Residual(r2)));
                lemma_eventually_idem_run(rest_models, rest_times, g, s1, s2, fuel);
                assert(spec_run(models, times, Value::Residual(r1), fuel)
                    == spec_run(rest_models, rest_times, Value::Residual(r1), fuel));
                assert(spec_run(models, times, Value::Residual(r2), fuel)
                    == spec_run(rest_models, rest_times, Value::Residual(r2), fuel));
            },
            e => {
                assert(spec_step(m, r1, t, fuel) == e);
                assert(spec_step(m, r2, t, fuel) == e);
            },
        }
    }
}

/// The open obligations of `G(φ)` and `G(G(φ))` stay in lock step
/// through any trace: they decide at the same tick, the same way.
proof fn lemma_always_idem_run<T>(
    models: Seq<ThunkModel<T>>,
    times: Seq<Time>,
    g: Formula<T>,
    s1: Time,
    s2: Time,
    fuel: nat,
)
    requires
        models.len() == times.len(),
    ensures
        similar_outcomes(
            spec_run(
                models,
                times,
                Value::Residual(Residual::Always {
                    subformula: Box::new(g),
                    start: s1,
                    bound: None,
                }),
                fuel,
            ),
            spec_run(
                models,
                times,
                Value::Residual(Residual::Always {
                    subformula: Box::new(Formula::Always(Box::new(g), None)),
                    start: s2,
                    bound: None,
                }),
                fuel,
            ),
        ),
    decreases models.len(),
{
    let gg = Formula::Always(Box::new(g), None);
    let r1 = Residual::Always { subformula: Box::new(g), start: s1, bound: None };
    let r2 = Residual::Always { subformula: Box::new(gg), start: s2, bound: None };
    if models.len() == 0 {
        assert(spec_stop_default(r1) == Some(StopDefault::<T>::True));
        assert(spec_stop_default(r2) == Some(StopDefault::<T>::True));
    } else {
        let m = models[0];
        let t = times[0];
        let rest_models = models.subrange(1, models.len() as int);
        let rest_times = times.subrange(1, times.len() as int);
        lemma_always_eval(m, g, t, fuel);
        match spec_evaluate(m, g, t, fuel) {
            EvalOutcome::Value(Value::False(v)) => {
                let inner_violation = Violation::Always {
                    subformula: Box::new(g),
                    violation: Box::new(v),
                    start: t,
                    time: t,
                };
                let v1 = Value::False(Violation::Always {
                    subformula: Box::new(g),
                    violation: Box::new(v),
                    start: s1,
                    time: t,
                });
                let v2 = Value::False(Violation::Always {
                    subformula: Box::new(gg),
                    violation: Box::new(inner_violation),
                    start: s2,
                    time: t,
                });
                assert(spec_step(m, r1, t, fuel) == EvalOutcome::Value(v1));
                assert(spec_evaluate(m, gg, t, fuel) == EvalOutcome::Value(Value::False(
                    inner_violation,
                )));
                assert(spec_step(m, r2, t, fuel) == EvalOutcome::Value(v2));
                lemma_run_decided(rest_models, rest_times, v1, fuel);
                lemma_run_decided(rest_models, rest_times, v2, fuel);
            },
            EvalOutcome::Value(_) => {
                assert(spec_step(m, r1, t, fuel) == EvalOutcome::Value(Value::Residual(r1)));
                assert(spec_step(m, r2, t, fuel) == EvalOutcome::Value(Value::Residual(r2)));
                lemma_always_idem_run(rest_models, rest_times, g, s1, s2, fuel);
                assert(spec_run(models, times, Value::Residual(r1), fuel)
                    == spec_run(rest_models, rest_times, Value::Residual(r1), fuel));
                assert(spec_run(models, times, Value::Residual(r2), fuel)
                    == spec_run(rest_models, rest_times, Value::Residual(r2), fuel));
            },
            e => {
                assert(spec_step(m, r1, t, fuel) == e);
                assert(spec_step(m, r2, t, fuel) == e);
            },
        }
    }
}

/// `Eventually` is idempotent up to violation structure: monitored
/// over any trace, `F(φ)` and `F(F(φ))` come to outcomes of the same
/// classification — the same verdict at the same point of the trace,
/// or obligations still open with the same stopping default.  Since
/// the trace is arbitrary, the two classify alike at every tick.
pub proof fn lemma_eventually_idempotent<T>(
    phi: Syntax<T>,
    models: Seq<ThunkModel<T>>,
    times: Seq<Time>,
    fuel: nat,
)
    requires
        models.len() == times.len(),
        models.len() >= 1,
    ensures
        ({
            let once = spec_nnf(Syntax::Eventually(Box::new(phi), None), false);
            let twice = spec_nnf(
                Syntax::Eventually(Box::new(Syntax::Eventually(Box::new(phi), None)), None),
                false,
            );
            similar_outcomes(
                spec_monitor(once, models, times, fuel),
                spec_monitor(twice, models, times, fuel),
            )
        }),
{
    let g = spec_nnf(phi, false);
    let fg = Formula::Eventually(Box::new(g), None);
    let ffg = Formula::Eventually(Box::new(fg), None);
    assert(spec_nnf(Syntax::Eventually(Box::new(phi), None), false) == fg);
    assert(spec_nnf(
        Syntax::Eventually(Box::new(Syntax::Eventually(Box::new(phi), None)), None),
        false,
    ) == ffg);
    let m = models[0];
    let t = times[0];
    let rest_models = models.subrange(1, models.len() as int);
    let rest_times = times.subrange(1, times.len() as int);
    lemma_eventually_eval(m, g, t, fuel);
    lemma_eventually_eval(m, fg, t, fuel);
    match spec_evaluate(m, g, t, fuel) {
        EvalOutcome::Value(Value::True) => {
            lemma_run_decided(rest_models, rest_times, Value::<T>::True, fuel);
            assert(spec_monitor(fg, models, times, fuel) == EvalOutcome::Value(Value::<T>::True));
            assert(spec_monitor(ffg, models, times, fuel) == EvalOutcome::Value(Value::<T>::True));
        },
        EvalOutcome::Value(_) => {
            let r1 = Residual::Eventually { subformula: Box::new(g), start: t, bound: None };
            let r2 = Residual::Eventually { subformula: Box::new(fg), start: t, bound: None };
            assert(spec_evaluate(m, fg, t, fuel) == EvalOutcome::Value(Value::Residual(r1)));
            assert(spec_evaluate(m, ffg, t, fuel) == EvalOutcome::Value(Value::Residual(r2)));
            lemma_eventually_idem_run(rest_models, rest_times, g, t, t, fuel);
        },
        e => {
            assert(spec_monitor(fg, models, times, fuel) == e);
            assert(spec_monitor(ffg, models, times, fuel) == e);
        },
    }
}

/// `Always` is idempotent up to violation structure: monitored over
/// any trace, `G(φ)` and `G(G(φ))` come to outcomes of the same
/// classification — the same verdict at the same point of the trace,
/// or obligations still open with the same stopping default.  Since
/// the trace is arbitrary, the two classify alike at every tick.
pub proof fn lemma_always_idempotent<T>(
    phi: Syntax<T>,
    models: Seq<ThunkModel<T>>,
    times: Seq<Time>,
    fuel: nat,
)
    requires
        models.len() == times.len(),
        models.len() >= 1,
    ensures
        ({
            let once = spec_nnf(Syntax::Always(Box::new(phi), None), false);
            let twice = spec_nnf(
                Syntax::Always(Box::new(Syntax::Always(Box::new(phi), None)), None),
                false,
            );
            similar_outcomes(
                spec_monitor(once, models, times, fuel),
                spec_monitor(twice, models, times, fuel),
            )
        }),
{
    let g = spec_nnf(phi, false);
    let gg = Formula::Always(Box::new(g), None);
    let ggg = Formula::Always(Box::new(gg), None);
    assert(spec_nnf(Syntax::Always(Box::new(phi), None), false) == gg);
    assert(spec_nnf(
        Syntax::Always(Box::new(Syntax::Always(Box::new(phi), None)), None),
        false,
    ) == ggg);
    let m = models[0];
    let t = times[0];
    let rest_models = models.subrange(1, models.len() as int);
    let rest_times = times.subrange(1, times.len() as int);
    lemma_always_eval(m, g, t, fuel);
    lemma_always_eval(m, gg, t, fuel);
    match spec_evaluate(m, g, t, fuel) {
        EvalOutcome::Value(Value::False(v)) => {
            let av = Violation::Always {
                subformula: Box::new(g),
                violation: Box::new(v),
                start: t,
                time: t,
            };
            let w1 = Value::False(av);
            assert(spec_evaluate(m, gg, t, fuel) == EvalOutcome::Value(w1));
            let w2 = Value::False(Violation::Always {
                subformula: Box::new(gg),
                violation: Box::new(av),
                start: t,
                time: t,
            });
            assert(spec_evaluate(m, ggg, t, fuel) == EvalOutcome::Value(w2));
            lemma_run_decided(rest_models, rest_times, w1, fuel);
            lemma_run_decided(rest_models, rest_times, w2, fuel);
            assert(spec_monitor(gg, models, times, fuel) == EvalOutcome::Value(w1));
            assert(spec_monitor(ggg, models, times, fuel) == EvalOutcome::Value(w2));
        },
        EvalOutcome::Value(_) => {
            let r1 = Residual::Always { subformula: Box::new(g), start: t, bound: None };
            let r2 = Residual::Always { subformula: Box::new(gg), start: t, bound: None };
            assert(spec_evaluate(m, gg, t, fuel) == EvalOutcome::Value(Value::Residual(r1)));
            assert(spec_evaluate(m, ggg, t, fuel) == EvalOutcome::Value(Value::Residual(r2)));
            lemma_always_idem_run(rest_models, rest_times, g, t, t, fuel);
        },
        e => {
            assert(spec_monitor(gg, models, times, fuel) == e);
            assert(spec_monitor(ggg, models, times, fuel) == e);
        },
    }
}

/// Every failed `Eventually` inside `v` carries a concrete timeout
/// tick: no reason in `v` says the test ended.
pub open spec fn violation_from_stepping<T>(v: Violation<T>) -> bool
    decreases v,
{
    match v {
        Violation::False { .. } => true,
        Violation::And { left, right } => violation_from_stepping(*left)
            && violation_from_stepping(*right),
        Violation::Or { left, right } => violation_from_stepping(*left)
            && violation_from_stepping(*right),
        Violation::Implies { right, .. } => violation_from_stepping(*right),
        Violation::Eventually { reason, .. } => reason matches EventuallyViolation::TimedOut(_),
        Violation::Always { violation, .. } => violation_from_stepping(*violation),
    }
}

/// Every violation stored inside `v` is one the evaluator earned by
/// stepping, never one written by a stopping default.
pub open spec fn value_clean<T>(v: Value<T>) -> bool
    decreases v,
{
    match v {
        Value::True => true,
        Value::False(x) => violation_from_stepping(x),
        Value::Residual(r) => residual_clean(r),
    }
}

/// Every violation stored inside `r` is one the evaluator earned by
/// stepping.
pub open spec fn residual_clean<T>(r: Residual<T>) -> bool
    decreases r,
{
    match r {
        Residual::Next(_) => true,
        Residual::And(l, rr) => value_clean(*l) && value_clean(*rr),
        Residual::Or(l, rr) => value_clean(*l) && value_clean(*rr),
        Residual::Implies { antecedent, consequent, .. } => value_clean(*antecedent)
            && value_clean(*consequent),
        Residual::Always { .. } => true,
        Residual::Eventually { .. } => true,
    }
}

/// Fresh evaluation only produces clean values: formulas carry no
/// violations, so every violation in the result was earned at a
/// concrete tick.
pub proof fn lemma_evaluate_clean<T>(m: ThunkModel<T>, f: Formula<T>, t: Time, fuel: nat)
    ensures
        spec_evaluate(m, f, t, fuel) matches EvalOutcome::Value(v) ==> value_clean(v),
    decreases fuel, f,
{
    match f {
        Formula::True { .. } => {},
        Formula::False { .. } => {},
        Formula::Thunk { handle, negated } => match m(handle, negated) {
            Some(g) => {
                if fuel > 0 {
                    lemma_evaluate_clean(m, g, t, (fuel - 1) as nat);
                }
            },
            None => {},
        },
        Formula::And(a, b) => {
            lemma_evaluate_clean(m, *a, t, fuel);
            lemma_evaluate_clean(m, *b, t, fuel);
        },
        Formula::Or(a, b) => {
            lemma_evaluate_clean(m, *a, t, fuel);
            lemma_evaluate_clean(m, *b, t, fuel);
        },
        Formula::Implies(a, b) => {
            lemma_evaluate_clean(m, *a, t, fuel);
            lemma_evaluate_clean(m, *b, t, fuel);
        },
        Formula::Next(_) => {},
        Formula::Always(a, _) => {
            lemma_evaluate_clean(m, *a, t, fuel);
        },
        Formula::Eventually(a, _) => {
            lemma_evaluate_clean(m, *a, t, fuel);
        },
    }
}

/// Stepping a clean residual only produces clean values.
pub proof fn lemma_step_clean<T>(m: ThunkModel<T>, r: Residual<T>, t: Time, fuel: nat)
    requires
        residual_clean(r),
    ensures
        spec_step(m, r, t, fuel) matches EvalOutcome::Value(v) ==> value_clean(v),
    decreases r,
{
    match r {
        Residual::Next(g) => {
            lemma_evaluate_clean(m, *g, t, fuel);
        },
        Residual::And(l, rr) => {
            lemma_step_value_clean(m, *l, t, fuel);
            lemma_step_value_clean(m, *rr, t, fuel);
        },
        Residual::Or(l, rr) => {
            lemma_step_value_clean(m, *l, t, fuel);
            lemma_step_value_clean(m, *rr, t, fuel);
        },
        Residual::Implies { antecedent, consequent, .. } => {
            lemma_step_value_clean(m, *antecedent, t, fuel);
            lemma_step_value_clean(m, *consequent, t, fuel);
        },
        Residual::Always { subformula, .. } => {
            lemma_evaluate_clean(m, *subformula, t, fuel);
        },
        Residual::Eventually { subformula, .. } => {
            lemma_evaluate_clean(m, *subformula, t, fuel);
        },
    }
}

/// Stepping one clean stored side only produces clean values.
pub proof fn lemma_step_value_clean<T>(m: ThunkModel<T>, v: Value<T>, t: Time, fuel: nat)
    requires
        value_clean(v),
    ensures
        spec_step_value(m, v, t, fuel) matches EvalOutcome::Value(w) ==> value_clean(w),
    decreases v,
{
    match v {
        Value::True => {},
        Value::False(_) => {},
        Value::Residual(r) => {
            lemma_step_clean(m, r, t, fuel);
        },
    }
}

/// A false verdict reached by stepping is always earned: for any
/// residual the evaluator built, if a step decides false then every
/// failed `Eventually` in the violation carries a concrete timeout
/// tick.  The reason `TestEnded` appears only in stopping defaults, so
/// truncation alone — in particular an open unbounded `Always`, whose
/// stopping default is true — never produces a false verdict.
pub proof fn lemma_step_false_is_earned<T>(m: ThunkModel<T>, r: Residual<T>, t: Time, fuel: nat)
    requires
        residual_clean(r),
    ensures
        spec_step(m, r, t, fuel) matches EvalOutcome::Value(Value::False(v))
            ==> violation_from_stepping(v),
{
    lemma_step_clean(m, r, t, fuel);
}

/// An unbounded `Always` obligation — whose stopping default is true —
/// decides false only on a tick where its subformula itself evaluates
/// false: the passage of time alone never falsifies it.
pub proof fn lemma_unbounded_always_false_has_witness<T>(
    m: ThunkModel<T>,
    sub: Formula<T>,
    start: Time,
    t: Time,
    fuel: nat,
)
    ensures
        spec_step(
            m,
            Residual::Always { subformula: Box::new(sub), start, bound: None },
            t,
            fuel,
        ) matches EvalOutcome::Value(Value::False(_))
            ==> spec_evaluate(m, sub, t, fuel) matches EvalOutcome::Value(Value::False(_)),
{
}

} // verus!
