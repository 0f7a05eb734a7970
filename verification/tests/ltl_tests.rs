use bombadil::eval::{evaluate, step, EvalError};
use bombadil::ltl::{EventuallyViolation, Formula, Residual, Value, Violation};
use bombadil::resolver::SnapshotResolver;
use bombadil::stop::{stop_default, StopDefault};
use bombadil::syntax::Syntax;
use bombadil::time::{Duration, Time};

const X: u64 = 1;
const Y: u64 = 2;

fn resolver(values: Vec<(u64, bool)>) -> SnapshotResolver {
    SnapshotResolver::new(values, "atom".to_string())
}

fn time_at(i: u64) -> Time {
    Time::from_millis(i)
}

/// A small formula with an inner negation, built fresh each time.
fn sample() -> Syntax<u64> {
    Syntax::And(
        Box::new(Syntax::Thunk(X)),
        Box::new(Syntax::Not(Box::new(Syntax::Thunk(Y)))),
    )
}

#[test]
fn test_nnf_pushes_negation_to_leaves() {
    // ¬(x ∧ ¬y) becomes ¬x ∨ y, with negation only on the atoms.
    let normalized = Syntax::Not(Box::new(sample())).nnf();
    assert_eq!(
        normalized,
        Formula::Or(
            Box::new(Formula::Thunk {
                handle: X,
                negated: true,
            }),
            Box::new(Formula::Thunk {
                handle: Y,
                negated: false,
            }),
        )
    );
}

#[test]
fn test_nnf_idempotent() {
    // Re-normalizing the embedding of a normal form changes nothing:
    // nnf(x ∧ ¬y) = x ∧ ¬y read back as syntax and normalized again.
    let normalized = sample().nnf();
    let embedded = Syntax::And(
        Box::new(Syntax::Thunk(X)),
        Box::new(Syntax::Not(Box::new(Syntax::Thunk(Y)))),
    );
    assert_eq!(embedded.nnf(), normalized);
}

#[test]
fn test_nnf_temporal_dualities() {
    // ¬G(φ) = F(¬φ) and ¬F(φ) = G(¬φ), bounds preserved.
    let bound = Some(Duration::from_millis(5));
    assert_eq!(
        Syntax::<u64>::Not(Box::new(Syntax::Always(Box::new(Syntax::Thunk(X)), bound))).nnf(),
        Formula::Eventually(
            Box::new(Formula::Thunk {
                handle: X,
                negated: true,
            }),
            bound,
        )
    );
    assert_eq!(
        Syntax::<u64>::Not(Box::new(Syntax::Eventually(
            Box::new(Syntax::Thunk(X)),
            bound,
        )))
        .nnf(),
        Formula::Always(
            Box::new(Formula::Thunk {
                handle: X,
                negated: true,
            }),
            bound,
        )
    );
}

#[test]
fn test_next_self_duality() {
    // X(¬φ) and ¬X(φ) normalize to the same formula.
    let left = Syntax::Next(Box::new(Syntax::Not(Box::new(sample())))).nnf();
    let right = Syntax::Not(Box::new(Syntax::Next(Box::new(sample())))).nnf();
    assert_eq!(left, right);
}

#[test]
fn test_always_eventually_duality() {
    // G(¬φ) and ¬F(φ) normalize to the same formula.
    let left = Syntax::Always(Box::new(Syntax::Not(Box::new(sample()))), None).nnf();
    let right = Syntax::Not(Box::new(Syntax::Eventually(Box::new(sample()), None))).nnf();
    assert_eq!(left, right);
}

/// The classification of a value, with residuals classified by their
/// stopping default.
fn classify(value: &Value<u64>) -> &'static str {
    match value {
        Value::True => "true",
        Value::False(_) => "false",
        Value::Residual(residual) => match stop_default(residual) {
            None => "residual-unknown",
            Some(StopDefault::True) => "residual-true",
            Some(StopDefault::False(_)) => "residual-false",
        },
    }
}

fn run_trace(formula: Formula<u64>, trace: &[bool]) -> Vec<&'static str> {
    let mut classes = Vec::new();
    let mut current = {
        let r = resolver(vec![(X, trace[0])]);
        evaluate(&r, &formula, time_at(0), 64).unwrap()
    };
    classes.push(classify(&current));
    for (i, &value) in trace.iter().enumerate().skip(1) {
        current = match current {
            Value::Residual(residual) => {
                let r = resolver(vec![(X, value)]);
                step(&r, &residual, time_at(i as u64), 64).unwrap()
            }
            decided => decided,
        };
        classes.push(classify(&current));
    }
    classes
}

#[test]
fn test_eventually_idempotent_on_trace() {
    // F(x) and F(F(x)) classify identically at every tick.
    let trace = [false, false, true, false];
    let once = Syntax::Eventually(Box::new(Syntax::Thunk(X)), None).nnf();
    let twice = Syntax::Eventually(
        Box::new(Syntax::Eventually(Box::new(Syntax::Thunk(X)), None)),
        None,
    )
    .nnf();
    let left = run_trace(once, &trace);
    let right = run_trace(twice, &trace);
    assert_eq!(left, right);
    assert_eq!(left, vec!["residual-false", "residual-false", "true", "true"]);
}

#[test]
fn test_always_idempotent_on_trace() {
    // G(x) and G(G(x)) classify identically at every tick.
    let trace = [true, true, false, true];
    let once = Syntax::Always(Box::new(Syntax::Thunk(X)), None).nnf();
    let twice = Syntax::Always(
        Box::new(Syntax::Always(Box::new(Syntax::Thunk(X)), None)),
        None,
    )
    .nnf();
    let left = run_trace(once, &trace);
    let right = run_trace(twice, &trace);
    assert_eq!(left, right);
    assert_eq!(left, vec!["residual-true", "residual-true", "false", "false"]);
}

#[test]
fn test_and_both_false_reports_both() {
    let formula = Syntax::And(Box::new(Syntax::Thunk(X)), Box::new(Syntax::Thunk(Y))).nnf();
    let r = resolver(vec![(X, false), (Y, false)]);
    let value = evaluate(&r, &formula, time_at(0), 64).unwrap();
    assert!(matches!(
        value,
        Value::False(Violation::And { left: _, right: _ })
    ));
}

#[test]
fn test_or_both_false_reports_both() {
    let formula = Syntax::Or(Box::new(Syntax::Thunk(X)), Box::new(Syntax::Thunk(Y))).nnf();
    let r = resolver(vec![(X, false), (Y, false)]);
    let value = evaluate(&r, &formula, time_at(0), 64).unwrap();
    assert!(matches!(
        value,
        Value::False(Violation::Or { left: _, right: _ })
    ));
}

#[test]
fn test_and_one_false_reports_that_side() {
    let formula = Syntax::And(Box::new(Syntax::Thunk(X)), Box::new(Syntax::Thunk(Y))).nnf();
    let r = resolver(vec![(X, false), (Y, true)]);
    let value = evaluate(&r, &formula, time_at(0), 64).unwrap();
    assert!(matches!(value, Value::False(Violation::False { .. })));
}

#[test]
fn test_always_zero_bound_satisfied_at_once() {
    // A bound of zero is satisfied by the first tick alone.
    let formula = Syntax::Always(
        Box::new(Syntax::Thunk(X)),
        Some(Duration::from_millis(0)),
    )
    .nnf();
    let r = resolver(vec![(X, true)]);
    let value = evaluate(&r, &formula, time_at(0), 64).unwrap();
    assert!(matches!(value, Value::True));
}

#[test]
fn test_eventually_timeout_carries_tick() {
    // Strictly past the deadline without a witness, the violation
    // names the tick at which the obligation was given up.
    let formula = Syntax::Eventually(
        Box::new(Syntax::Thunk(X)),
        Some(Duration::from_millis(3)),
    )
    .nnf();
    let r = resolver(vec![(X, false)]);
    let value = evaluate(&r, &formula, time_at(0), 64).unwrap();
    let residual = match value {
        Value::Residual(residual) => residual,
        other => panic!("should be residual but was: {:?}", other),
    };
    let after = step(&r, &residual, time_at(4), 64).unwrap();
    match after {
        Value::False(Violation::Eventually { reason, .. }) => {
            assert_eq!(reason, EventuallyViolation::TimedOut(time_at(4)));
        }
        other => panic!("should have timed out but was: {:?}", other),
    }
}

#[test]
fn test_unbounded_always_failure_is_earned() {
    // An unbounded G fails only with a genuine counterexample: the
    // violation carries the failing tick and the atom's condition,
    // never a test-end reason.
    let formula = Syntax::Always(Box::new(Syntax::Thunk(X)), None).nnf();
    let r = resolver(vec![(X, true)]);
    let value = evaluate(&r, &formula, time_at(0), 64).unwrap();
    let residual = match value {
        Value::Residual(residual) => residual,
        other => panic!("should be residual but was: {:?}", other),
    };
    assert!(matches!(stop_default(&residual), Some(StopDefault::True)));
    let failing = resolver(vec![(X, false)]);
    let after = step(&failing, &residual, time_at(5), 64).unwrap();
    match after {
        Value::False(Violation::Always {
            violation,
            start,
            time,
            ..
        }) => {
            assert_eq!(start, time_at(0));
            assert_eq!(time, time_at(5));
            assert!(matches!(*violation, Violation::False { .. }));
        }
        other => panic!("should be a violation but was: {:?}", other),
    }
}

#[test]
fn test_next_residual_keeps_subformula() {
    let formula = Syntax::Next(Box::new(Syntax::Thunk(X))).nnf();
    let r = resolver(vec![(X, true)]);
    let value = evaluate(&r, &formula, time_at(0), 64).unwrap();
    match value {
        Value::Residual(Residual::Next(sub)) => {
            assert_eq!(
                *sub,
                Formula::Thunk {
                    handle: X,
                    negated: false,
                }
            );
        }
        other => panic!("should be a next residual but was: {:?}", other),
    }
}

#[test]
fn test_missing_atom_is_thunk_error() {
    let formula = Syntax::Thunk(X).nnf();
    let r = resolver(vec![(Y, true)]);
    let result = evaluate(&r, &formula, time_at(0), 64);
    assert!(matches!(result, Err(EvalError::Thunk { .. })));
}

#[test]
fn test_expansion_budget_exhausted() {
    let formula = Syntax::Thunk(X).nnf();
    let r = resolver(vec![(X, true)]);
    let result = evaluate(&r, &formula, time_at(0), 0);
    assert_eq!(result, Err(EvalError::DepthExceeded));
}

#[test]
fn test_implies_residual_antecedent_tracks_both_sides() {
    // An undecided antecedent keeps both sides open; the vacuous exit
    // still works when the antecedent later fails.
    let formula = Syntax::Implies(
        Box::new(Syntax::Eventually(Box::new(Syntax::Thunk(X)), None)),
        Box::new(Syntax::Thunk(Y)),
    )
    .nnf();
    let r = resolver(vec![(X, false), (Y, false)]);
    let value = evaluate(&r, &formula, time_at(0), 64).unwrap();
    let residual = match value {
        Value::Residual(residual) => residual,
        other => panic!("should be residual but was: {:?}", other),
    };
    // The antecedent's stopping default is false, so the implication
    // defaults to true.
    assert!(matches!(stop_default(&residual), Some(StopDefault::True)));
}
