use bombadil::ltl::{EventuallyViolation, Formula, Violation};
use bombadil::property::{source_kind, SourceKind};
use bombadil::registry::{ExtractorRegistry, RegistryError};
use bombadil::render::{decimal_string, render_formula, render_violation, time_to_ms};
use bombadil::runner::{check_page_ok, ConsoleLevel, PageProblem};
use bombadil::time::{Duration, Time};
use bombadil::worker::{formula_with_pretty, violation_with_pretty};

fn atom(text: &str) -> Formula<String> {
    Formula::Thunk {
        handle: text.to_string(),
        negated: false,
    }
}

#[test]
fn test_decimal_rendering() {
    assert_eq!(decimal_string(0), "0");
    assert_eq!(decimal_string(7), "7");
    assert_eq!(decimal_string(10), "10");
    assert_eq!(decimal_string(1234567890), "1234567890");
    assert_eq!(decimal_string(u64::MAX), "18446744073709551615");
}

#[test]
fn test_time_to_ms() {
    assert_eq!(time_to_ms(&Time::from_millis(42)), 42);
}

#[test]
fn test_time_checked_add() {
    let sum = Time::from_millis(40).checked_add(Duration::from_millis(2));
    assert_eq!(sum, Some(Time::from_millis(42)));
    let overflow = Time::from_millis(u64::MAX).checked_add(Duration::from_millis(1));
    assert_eq!(overflow, None);
}

#[test]
fn test_render_formula_combinators() {
    let formula = Formula::Implies(
        Box::new(Formula::And(
            Box::new(atom("a")),
            Box::new(atom("b")),
        )),
        Box::new(Formula::Or(
            Box::new(atom("c")),
            Box::new(Formula::Thunk {
                handle: "d".to_string(),
                negated: true,
            }),
        )),
    );
    assert_eq!(render_formula(&formula), "a.and(b).implies(c.or(!(d)))");
}

#[test]
fn test_render_formula_temporal() {
    let bounded = Formula::Eventually(
        Box::new(atom("foo.current === 9")),
        Some(Duration::from_millis(3)),
    );
    assert_eq!(
        render_formula(&bounded),
        "eventually(foo.current === 9).within(3, \"milliseconds\")"
    );
    let unbounded = Formula::Always(Box::new(atom("ok")), None);
    assert_eq!(render_formula(&unbounded), "always(ok)");
    let next = Formula::Next(Box::new(atom("ok")));
    assert_eq!(render_formula(&next), "next(ok)");
}

#[test]
fn test_render_violation_false() {
    let violation = Violation::<String>::False {
        condition: "foo.current".to_string(),
    };
    assert_eq!(render_violation(&violation), "!(foo.current)");
}

#[test]
fn test_render_violation_always() {
    let violation = Violation::Always {
        subformula: Box::new(atom("foo.current < 100")),
        violation: Box::new(Violation::False {
            condition: "foo.current < 100".to_string(),
        }),
        start: Time::from_millis(0),
        time: Time::from_millis(5),
    };
    assert_eq!(
        render_violation(&violation),
        "as of 0ms, it should always be the case that\n\nfoo.current < 100\n\nbut at 5ms\n\n!(foo.current < 100)"
    );
}

#[test]
fn test_render_violation_eventually() {
    let timed_out = Violation::Eventually {
        subformula: Box::new(atom("done")),
        reason: EventuallyViolation::TimedOut(Time::from_millis(4)),
    };
    assert_eq!(render_violation(&timed_out), "timed out at 4ms: done");
    let test_ended = Violation::Eventually {
        subformula: Box::new(atom("done")),
        reason: EventuallyViolation::TestEnded,
    };
    assert_eq!(render_violation(&test_ended), "failed at test end: done");
}

#[test]
fn test_render_violation_connectives() {
    let left = Violation::<String>::False {
        condition: "a".to_string(),
    };
    let right = Violation::<String>::False {
        condition: "b".to_string(),
    };
    let both = Violation::And {
        left: Box::new(left),
        right: Box::new(right),
    };
    assert_eq!(render_violation(&both), "!(a)\n\nand\n\n!(b)");
    let either = Violation::Or {
        left: Box::new(Violation::<String>::False {
            condition: "a".to_string(),
        }),
        right: Box::new(Violation::<String>::False {
            condition: "b".to_string(),
        }),
    };
    assert_eq!(render_violation(&either), "!(a) or !(b)");
    let because = Violation::Implies {
        left: Box::new(atom("p")),
        right: Box::new(Violation::False {
            condition: "q".to_string(),
        }),
    };
    assert_eq!(render_violation(&because), "!(q) since p");
}

#[test]
fn test_extractor_registry_ids_are_stable() {
    let mut registry = ExtractorRegistry::new();
    let id = registry.register("(state) => state.foo".to_string()).unwrap();
    // FNV-1a of the UTF-8 source text, so the id is reproducible
    // across runs and processes.
    assert_eq!(id, 11022041295779520933);
    let again = registry.register("(state) => state.foo".to_string()).unwrap();
    assert_eq!(again, id);
    assert_eq!(registry.len(), 1);
}

#[test]
fn test_extractors() {
    let mut registry = ExtractorRegistry::new();
    registry.register("(state) => state.foo".to_string()).unwrap();
    registry
        .register("function foo(state) { return state.baz; }".to_string())
        .unwrap();
    registry.register("s => s.bar".to_string()).unwrap();

    let mut extractors: Vec<String> = registry
        .extract_functions()
        .iter()
        .map(|(_, value)| value.clone())
        .collect();
    extractors.sort();

    assert_eq!(
        extractors,
        vec![
            "(state) => state.foo",
            "function foo(state) { return state.baz; }",
            "s => s.bar",
        ]
    );
    assert!(!matches!(
        registry.register("s => s.bar".to_string()),
        Err(RegistryError::IdCollision { .. })
    ));
}

#[test]
fn test_violation_projection_uses_captured_source() {
    let table = vec![(1u64, "foo.current < 100".to_string())];
    let violation = Violation::Always {
        subformula: Box::new(Formula::Thunk {
            handle: 1u64,
            negated: false,
        }),
        violation: Box::new(Violation::False {
            condition: "foo.current < 100".to_string(),
        }),
        start: Time::from_millis(0),
        time: Time::from_millis(5),
    };
    let projected = violation_with_pretty(&violation, &table);
    assert_eq!(
        render_violation(&projected),
        "as of 0ms, it should always be the case that\n\nfoo.current < 100\n\nbut at 5ms\n\n!(foo.current < 100)"
    );
}

#[test]
fn test_formula_projection_falls_back_to_atom_number() {
    let table: Vec<(u64, String)> = vec![];
    let formula = Formula::Thunk {
        handle: 7u64,
        negated: false,
    };
    let projected = formula_with_pretty(&formula, &table);
    assert_eq!(render_formula(&projected), "extractor #7");
}

#[test]
fn test_source_kind_detection() {
    assert_eq!(source_kind("spec.ts"), Some(SourceKind::TypeScript));
    assert_eq!(source_kind("spec.tsx"), Some(SourceKind::TypeScript));
    assert_eq!(source_kind("spec.js"), Some(SourceKind::JavaScript));
    assert_eq!(source_kind("spec.mjs"), Some(SourceKind::JavaScript));
    assert_eq!(source_kind("spec.cjs"), Some(SourceKind::JavaScript));
    assert_eq!(source_kind("spec.wasm"), None);
    assert_eq!(source_kind("ts"), None);
}

#[test]
fn test_check_page_ok_bad_status() {
    let levels = vec![ConsoleLevel::Log];
    assert_eq!(
        check_page_ok(Some(404), &levels, false),
        Some(PageProblem::BadStatus(404))
    );
    assert_eq!(check_page_ok(Some(200), &levels, false), None);
    assert_eq!(check_page_ok(None, &levels, false), None);
}

#[test]
fn test_check_page_ok_console_error() {
    let levels = vec![ConsoleLevel::Log, ConsoleLevel::Error, ConsoleLevel::Error];
    assert_eq!(
        check_page_ok(Some(200), &levels, false),
        Some(PageProblem::ConsoleError(1))
    );
}

#[test]
fn test_check_page_ok_exception() {
    let levels = vec![ConsoleLevel::Warning];
    assert_eq!(
        check_page_ok(None, &levels, true),
        Some(PageProblem::UncaughtException)
    );
}
