use bombadil::ltl::{Value, Violation};
use bombadil::property::{Property, PropertyState, DEFAULT_THUNK_FUEL};
use bombadil::resolver::SnapshotResolver;
use bombadil::stop::{stop_default, StopDefault};
use bombadil::syntax::Syntax;
use bombadil::time::{Duration, Time};
use bombadil::worker::{PropertyValue, SpecificationError, WorkerError};

const FOO: u64 = 1;
const BAR: u64 = 2;

fn resolver(values: Vec<(u64, bool)>) -> SnapshotResolver {
    SnapshotResolver::new(values, "predicate".to_string())
}

fn time_at(i: u64) -> Time {
    Time::from_millis(i)
}

#[test]
fn test_property_evaluation_not() {
    let formula = Syntax::Not(Box::new(Syntax::Thunk(FOO))).nnf();
    let mut property = Property::new("my_prop".to_string(), formula);
    let value = property
        .step_with(&resolver(vec![(FOO, false)]), time_at(0), DEFAULT_THUNK_FUEL)
        .unwrap();
    assert!(matches!(value, Value::True));
}

#[test]
fn test_property_evaluation_and() {
    let formula = Syntax::And(
        Box::new(Syntax::Thunk(FOO)),
        Box::new(Syntax::Thunk(BAR)),
    )
    .nnf();
    let mut property = Property::new("my_prop".to_string(), formula);
    let value = property
        .step_with(
            &resolver(vec![(FOO, true), (BAR, true)]),
            time_at(0),
            DEFAULT_THUNK_FUEL,
        )
        .unwrap();
    assert!(matches!(value, Value::True));
}

#[test]
fn test_property_evaluation_or() {
    let formula = Syntax::Or(
        Box::new(Syntax::Thunk(FOO)),
        Box::new(Syntax::Thunk(BAR)),
    )
    .nnf();
    let mut property = Property::new("my_prop".to_string(), formula);
    let value = property
        .step_with(
            &resolver(vec![(FOO, false), (BAR, true)]),
            time_at(0),
            DEFAULT_THUNK_FUEL,
        )
        .unwrap();
    assert!(matches!(value, Value::True));
}

#[test]
fn test_property_evaluation_implies() {
    // A false antecedent satisfies the implication vacuously.
    let formula = Syntax::Implies(
        Box::new(Syntax::Thunk(FOO)),
        Box::new(Syntax::Thunk(BAR)),
    )
    .nnf();
    let mut property = Property::new("my_prop".to_string(), formula);
    let value = property
        .step_with(
            &resolver(vec![(FOO, false), (BAR, false)]),
            time_at(0),
            DEFAULT_THUNK_FUEL,
        )
        .unwrap();
    assert!(matches!(value, Value::True));
}

#[test]
fn test_property_evaluation_next() {
    let formula = Syntax::Next(Box::new(Syntax::Thunk(FOO))).nnf();
    let mut property = Property::new("my_prop".to_string(), formula);
    for i in 0..=1u64 {
        let value = property
            .step_with(&resolver(vec![(FOO, i == 1)]), time_at(i), DEFAULT_THUNK_FUEL)
            .unwrap();
        if i == 1 {
            assert!(matches!(value, Value::True));
        } else {
            match value {
                Value::Residual(residual) => {
                    // An obligation about the next state carries no
                    // verdict if the test stops now.
                    assert!(stop_default(&residual).is_none());
                }
                _ => panic!("should be residual but was: {:?}", value),
            }
        }
    }
}

#[test]
fn test_property_evaluation_always() {
    let formula = Syntax::Always(Box::new(Syntax::Thunk(FOO)), None).nnf();
    let mut property = Property::new("my_prop".to_string(), formula);
    for i in 0..=100u64 {
        let value = property
            .step_with(&resolver(vec![(FOO, i < 100)]), time_at(0), DEFAULT_THUNK_FUEL)
            .unwrap();
        if i == 100 {
            assert!(matches!(
                value,
                Value::False(Violation::Always {
                    violation: _,
                    subformula: _,
                    ..
                })
            ));
        } else {
            match value {
                Value::Residual(residual) => match stop_default(&residual) {
                    Some(StopDefault::True) => {}
                    _ => panic!("should have a true stop default"),
                },
                _ => panic!("should be residual"),
            }
        }
    }
}

#[test]
fn test_property_evaluation_always_bounded() {
    let formula = Syntax::Always(
        Box::new(Syntax::Thunk(FOO)),
        Some(Duration::from_millis(3)),
    )
    .nnf();
    let mut property = Property::new("my_prop".to_string(), formula);
    for i in 0..10u64 {
        let value = property
            .step_with(&resolver(vec![(FOO, i < 4)]), time_at(i), DEFAULT_THUNK_FUEL)
            .unwrap();
        if i < 4 {
            match value {
                Value::Residual(residual) => match stop_default(&residual) {
                    Some(StopDefault::True) => {}
                    _ => panic!("should have a true stop default"),
                },
                other => panic!("should be residual but was: {:?}", other),
            }
        } else {
            assert!(matches!(value, Value::True));
        }
    }
}

#[test]
fn test_property_evaluation_eventually() {
    let formula = Syntax::Eventually(Box::new(Syntax::Thunk(FOO)), None).nnf();
    let mut property = Property::new("my_prop".to_string(), formula);
    for i in 0..10u64 {
        let value = property
            .step_with(&resolver(vec![(FOO, i == 9)]), time_at(i), DEFAULT_THUNK_FUEL)
            .unwrap();
        if i == 9 {
            assert!(matches!(value, Value::True));
        } else {
            match value {
                Value::Residual(residual) => match stop_default(&residual) {
                    Some(StopDefault::False(_)) => {}
                    _ => panic!("should have a false stop default"),
                },
                _ => panic!("should be residual"),
            }
        }
    }
}

#[test]
fn test_property_evaluation_eventually_bounded() {
    let formula = Syntax::Eventually(
        Box::new(Syntax::Thunk(FOO)),
        Some(Duration::from_millis(3)),
    )
    .nnf();
    let mut property = Property::new("my_prop".to_string(), formula);
    for i in 0..10u64 {
        let value = property
            .step_with(&resolver(vec![(FOO, i == 9)]), time_at(i), DEFAULT_THUNK_FUEL)
            .unwrap();
        if i < 4 {
            match value {
                Value::Residual(residual) => match stop_default(&residual) {
                    Some(StopDefault::False(_)) => {}
                    _ => panic!("should have a false stop default"),
                },
                other => panic!("should be residual but was: {:?}", other),
            }
        } else {
            assert!(matches!(value, Value::False(_)));
        }
    }
}

#[test]
fn test_latching_true() {
    // Once satisfied, the property reports true on every later tick,
    // whatever the state says.
    let formula = Syntax::Eventually(Box::new(Syntax::Thunk(FOO)), None).nnf();
    let mut property = Property::new("my_prop".to_string(), formula);
    let value = property
        .step_with(&resolver(vec![(FOO, true)]), time_at(0), DEFAULT_THUNK_FUEL)
        .unwrap();
    assert!(matches!(value, Value::True));
    for i in 1..5u64 {
        let value = property
            .step_with(&resolver(vec![(FOO, false)]), time_at(i), DEFAULT_THUNK_FUEL)
            .unwrap();
        assert!(matches!(value, Value::True));
    }
}

#[test]
fn test_latching_false_same_violation() {
    // Once violated, every later tick re-emits the very same
    // violation without re-entering the runtime: the missing atom
    // would otherwise be an error.
    let formula = Syntax::Always(Box::new(Syntax::Thunk(FOO)), None).nnf();
    let mut property = Property::new("my_prop".to_string(), formula);
    let first = property
        .step_with(&resolver(vec![(FOO, false)]), time_at(7), DEFAULT_THUNK_FUEL)
        .unwrap();
    let violation = match first {
        Value::False(v) => v,
        other => panic!("should be a violation but was: {:?}", other),
    };
    for i in 8..12u64 {
        let value = property
            .step_with(&resolver(vec![]), time_at(i), DEFAULT_THUNK_FUEL)
            .unwrap();
        match value {
            Value::False(v) => assert_eq!(v, violation),
            other => panic!("should stay violated but was: {:?}", other),
        }
    }
}

#[test]
fn test_error_leaves_state_unchanged() {
    let formula = Syntax::Thunk(FOO).nnf();
    let mut property = Property::new("my_prop".to_string(), formula);
    let result = property.step_with(&resolver(vec![]), time_at(0), DEFAULT_THUNK_FUEL);
    assert!(result.is_err());
    assert!(matches!(property.state, PropertyState::Initial(_)));
}

#[test]
fn test_property_value_projection() {
    assert_eq!(
        PropertyValue::from_value(Value::<String>::True),
        PropertyValue::True
    );
    let projected = PropertyValue::from_value(Value::False(Violation::<String>::False {
        condition: "x".to_string(),
    }));
    assert_eq!(
        projected,
        PropertyValue::False(Violation::False {
            condition: "x".to_string(),
        })
    );
}

#[test]
fn test_property_names() {
    let mut properties = vec![Property::new(
        "max_notifications_shown".to_string(),
        Syntax::Always(Box::new(Syntax::Thunk(FOO)), None).nnf(),
    )];
    let values = bombadil::property::step_all(
        &mut properties,
        &resolver(vec![(FOO, true)]),
        time_at(0),
        DEFAULT_THUNK_FUEL,
    )
    .unwrap();
    let names: Vec<&str> = values.iter().map(|(name, _)| name.as_str()).collect();
    assert_eq!(names, vec!["max_notifications_shown"]);
}

#[test]
fn test_step_all_reports_every_property() {
    let mut properties = vec![
        Property::new("p_true".to_string(), Syntax::Thunk(FOO).nnf()),
        Property::new(
            "p_false".to_string(),
            Syntax::Not(Box::new(Syntax::Thunk(FOO))).nnf(),
        ),
    ];
    let values = bombadil::property::step_all(
        &mut properties,
        &resolver(vec![(FOO, true)]),
        time_at(0),
        DEFAULT_THUNK_FUEL,
    )
    .unwrap();
    assert_eq!(values.len(), 2);
    assert_eq!(values[0].0, "p_true");
    assert!(matches!(values[0].1, Value::True));
    assert_eq!(values[1].0, "p_false");
    assert!(matches!(values[1].1, Value::False(_)));
}

#[test]
fn test_step_all_error_stops_at_failing_property() {
    // The tick aborts at the property whose atom is missing:
    // properties before it keep their advanced state, it and the rest
    // stay as they were.
    let mut properties = vec![
        Property::new("satisfied".to_string(), Syntax::Thunk(FOO).nnf()),
        Property::new("missing_atom".to_string(), Syntax::Thunk(BAR).nnf()),
        Property::new("later".to_string(), Syntax::Thunk(FOO).nnf()),
    ];
    let result = bombadil::property::step_all(
        &mut properties,
        &resolver(vec![(FOO, true)]),
        time_at(0),
        DEFAULT_THUNK_FUEL,
    );
    assert!(result.is_err());
    assert!(matches!(properties[0].state, PropertyState::DefinitelyTrue));
    assert!(matches!(properties[1].state, PropertyState::Initial(_)));
    assert!(matches!(properties[2].state, PropertyState::Initial(_)));
}

#[test]
fn test_worker_error_messages() {
    assert_eq!(WorkerError::WorkerGone.message(), "WorkerGone");
    let error = WorkerError::SpecificationError(SpecificationError::Other(
        "export is of unknown type".to_string(),
    ));
    assert_eq!(error.message(), "export is of unknown type");
}
