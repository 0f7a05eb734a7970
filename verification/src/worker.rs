use vstd::prelude::*;
use vstd::string::StringExecFns;

use crate::ltl::{Formula, Value, Violation};
use crate::render::{decimal_string, spec_decimal};

verus! {

/// A fatal error while loading or running a specification.
#[derive(Debug, Clone, PartialEq, Eq)]
pub enum SpecificationError {
    /// The specification file could not be read.
    Io(String),
    /// The scripting runtime reported an error.
    Js(String),
    /// A source file that needs transpilation failed to transpile.
    Transpilation(String),
    /// Any other malformed specification.
    Other(String),
}

impl SpecificationError {
    /// The carried message.
    pub fn message(&self) -> (r: String)
        ensures
            match self {
                SpecificationError::Io(m) => r@ == m@,
                SpecificationError::Js(m) => r@ == m@,
                SpecificationError::Transpilation(m) => r@ == m@,
                SpecificationError::Other(m) => r@ == m@,
            },
    {
        match self {
            SpecificationError::Io(m) => m.clone(),
            SpecificationError::Js(m) => m.clone(),
            SpecificationError::Transpilation(m) => m.clone(),
            SpecificationError::Other(m) => m.clone(),
        }
    }
}

/// An error answered to a caller of the worker that owns the scripting
/// runtime.
#[derive(Debug, Clone, PartialEq, Eq)]
pub enum WorkerError {
    /// The worker thread has exited; every later command returns this.
    WorkerGone,
    SpecificationError(SpecificationError),
}

impl WorkerError {
    /// A short description for logs.
    pub fn message(&self) -> (r: String)
        ensures
            match self {
                WorkerError::WorkerGone => r@ == "WorkerGone"@,
                WorkerError::SpecificationError(e) => r@ == match e {
                    SpecificationError::Io(m) => m@,
                    SpecificationError::Js(m) => m@,
                    SpecificationError::Transpilation(m) => m@,
                    SpecificationError::Other(m) => m@,
                },
            },
    {
        match self {
            WorkerError::WorkerGone => "WorkerGone".to_owned(),
            WorkerError::SpecificationError(e) => e.message(),
        }
    }
}

/// A runtime-handle-free projection of a value, fit to cross the
/// worker's thread boundary and to outlive the runtime: thunk handles
/// are already replaced by their captured source text, and an open
/// obligation is reported without its internals.
#[derive(Debug, PartialEq, Eq)]
pub enum PropertyValue {
    True,
    False(Violation<String>),
    Residual,
}

/// The first source text stored under `id`, if any.
pub open spec fn spec_text_lookup(table: Seq<(u64, String)>, id: u64) -> Option<Seq<char>>
    decreases table.len(),
{
    if table.len() == 0 {
        None
    } else if table[0].0 == id {
        Some(table[0].1@)
    } else {
        spec_text_lookup(table.subrange(1, table.len() as int), id)
    }
}

/// The text shown for an atom: its captured source from the table, or
/// its number after a marker when the table has none.
pub open spec fn spec_atom_text(table: Seq<(u64, String)>, id: u64) -> Seq<char> {
    match spec_text_lookup(table, id) {
        Some(text) => text,
        None => "extractor #"@ + spec_decimal(id as int),
    }
}

/// `g` is `f` with every atom handle replaced by the table's captured
/// source text for it; literals, connectives and bounds are unchanged.
pub open spec fn spec_formula_projected(
    f: Formula<u64>,
    g: Formula<String>,
    table: Seq<(u64, String)>,
) -> bool
    decreases f,
{
    match f {
        Formula::True { pretty } => match g {
            Formula::True { pretty: p } => p@ == pretty@,
            _ => false,
        },
        Formula::False { pretty } => match g {
            Formula::False { pretty: p } => p@ == pretty@,
            _ => false,
        },
        Formula::Thunk { handle, negated } => match g {
            Formula::Thunk { handle: text, negated: n } => n == negated && text@
                == spec_atom_text(table, handle),
            _ => false,
        },
        Formula::And(a, b) => match g {
            Formula::And(c, d) => spec_formula_projected(*a, *c, table)
                && spec_formula_projected(*b, *d, table),
            _ => false,
        },
        Formula::Or(a, b) => match g {
            Formula::Or(c, d) => spec_formula_projected(*a, *c, table)
                && spec_formula_projected(*b, *d, table),
            _ => false,
        },
        Formula::Implies(a, b) => match g {
            Formula::Implies(c, d) => spec_formula_projected(*a, *c, table)
                && spec_formula_projected(*b, *d, table),
            _ => false,
        },
        Formula::Next(a) => match g {
            Formula::Next(c) => spec_formula_projected(*a, *c, table),
            _ => false,
        },
        Formula::Always(a, bound) => match g {
            Formula::Always(c, b2) => b2 == bound && spec_formula_projected(*a, *c, table),
            _ => false,
        },
        Formula::Eventually(a, bound) => match g {
            Formula::Eventually(c, b2) => b2 == bound && spec_formula_projected(*a, *c, table),
            _ => false,
        },
    }
}

/// `w` is `v` with every atom handle replaced by the table's captured
/// source text; conditions, reasons and times are unchanged.
pub open spec fn spec_violation_projected(
    v: Violation<u64>,
    w: Violation<String>,
    table: Seq<(u64, String)>,
) -> bool
    decreases v,
{
    match v {
        Violation::False { condition } => match w {
            Violation::False { condition: c } => c@ == condition@,
            _ => false,
        },
        Violation::And { left, right } => match w {
            Violation::And { left: l, right: r } => spec_violation_projected(*left, *l, table)
                && spec_violation_projected(*right, *r, table),
            _ => false,
        },
        Violation::Or { left, right } => match w {
            Violation::Or { left: l, right: r } => spec_violation_projected(*left, *l, table)
                && spec_violation_projected(*right, *r, table),
            _ => false,
        },
        Violation::Implies { left, right } => match w {
            Violation::Implies { left: l, right: r } => spec_formula_projected(*left, *l, table)
                && spec_violation_projected(*right, *r, table),
            _ => false,
        },
        Violation::Eventually { subformula, reason } => match w {
            Violation::Eventually { subformula: s, reason: r } => r == reason
                && spec_formula_projected(*subformula, *s, table),
            _ => false,
        },
        Violation::Always { subformula, violation, start, time } => match w {
            Violation::Always { subformula: s, violation: x, start: s2, time: t2 } => s2 == start
                && t2 == time && spec_formula_projected(*subformula, *s, table)
                && spec_violation_projected(*violation, *x, table),
            _ => false,
        },
    }
}

/// The text shown for an atom: its captured source from the table, or
/// its number after a marker when the table has none.
pub fn atom_text(table: &Vec<(u64, String)>, id: u64) -> (r: String)
    ensures
        r@ == spec_atom_text(table@, id),
{
    let ghost entries = table@;
    proof {
        assert(entries.subrange(0, entries.len() as int) =~= entries);
    }
    let mut i: usize = 0;
    #[verifier::loop_isolation(false)]
    while i < table.len()
        invariant
            0 <= i <= entries.len(),
            entries == table@,
            spec_text_lookup(entries, id) == spec_text_lookup(
                entries.subrange(i as int, entries.len() as int),
                id,
            ),
        decreases entries.len() - i,
    {
        proof {
            assert(entries.subrange(i as int, entries.len() as int)[0] == entries[i as int]);
            assert(entries.subrange(i as int, entries.len() as int).subrange(
                1,
                entries.len() - i as int,
            ) =~= entries.subrange(i as int + 1, entries.len() as int));
        }
        if table[i].0 == id {
            return table[i].1.clone();
        }
        i = i + 1;
    }
    proof {
        assert(entries.subrange(entries.len() as int, entries.len() as int) =~= Seq::<(
            u64,
            String,
        )>::empty());
    }
    let marked = "extractor #".to_owned();
    marked.concat(decimal_string(id).as_str())
}

/// Replace every atom handle in a formula by its captured source text
/// from the table, so the result can be rendered and can outlive the
/// runtime.
pub fn formula_with_pretty(formula: &Formula<u64>, table: &Vec<(u64, String)>) -> (r: Formula<
    String,
>)
    ensures
        spec_formula_projected(*formula, r, table@),
    decreases *formula,
{
    match formula {
        Formula::True { pretty } => Formula::True { pretty: pretty.clone() },
        Formula::False { pretty } => Formula::False { pretty: pretty.clone() },
        Formula::Thunk { handle, negated } => Formula::Thunk {
            handle: atom_text(table, *handle),
            negated: *negated,
        },
        Formula::And(a, b) => Formula::And(
            Box::new(formula_with_pretty(a, table)),
            Box::new(formula_with_pretty(b, table)),
        ),
        Formula::Or(a, b) => Formula::Or(
            Box::new(formula_with_pretty(a, table)),
            Box::new(formula_with_pretty(b, table)),
        ),
        Formula::Implies(a, b) => Formula::Implies(
            Box::new(formula_with_pretty(a, table)),
            Box::new(formula_with_pretty(b, table)),
        ),
        Formula::Next(a) => Formula::Next(Box::new(formula_with_pretty(a, table))),
        Formula::Always(a, bound) => Formula::Always(
            Box::new(formula_with_pretty(a, table)),
            *bound,
        ),
        Formula::Eventually(a, bound) => Formula::Eventually(
            Box::new(formula_with_pretty(a, table)),
            *bound,
        ),
    }
}

/// Replace every atom handle in a violation by its captured source
/// text from the table: the handle-free result can cross the worker's
/// thread boundary and outlive the runtime.
pub fn violation_with_pretty(violation: &Violation<u64>, table: &Vec<(u64, String)>) -> (r:
    Violation<String>)
    ensures
        spec_violation_projected(*violation, r, table@),
    decreases *violation,
{
    match violation {
        Violation::False { condition } => Violation::False { condition: condition.clone() },
        Violation::And { left, right } => Violation::And {
            left: Box::new(violation_with_pretty(left, table)),
            right: Box::new(violation_with_pretty(right, table)),
        },
        Violation::Or { left, right } => Violation::Or {
            left: Box::new(violation_with_pretty(left, table)),
            right: Box::new(violation_with_pretty(right, table)),
        },
        Violation::Implies { left, right } => Violation::Implies {
            left: Box::new(formula_with_pretty(left, table)),
            right: Box::new(violation_with_pretty(right, table)),
        },
        Violation::Eventually { subformula, reason } => Violation::Eventually {
            subformula: Box::new(formula_with_pretty(subformula, table)),
            reason: *reason,
        },
        Violation::Always { subformula, violation, start, time } => Violation::Always {
            subformula: Box::new(formula_with_pretty(subformula, table)),
            violation: Box::new(violation_with_pretty(violation, table)),
            start: *start,
            time: *time,
        },
    }
}

impl PropertyValue {
    /// Project a value whose handles are captured source text.
    pub fn from_value(value: Value<String>) -> (r: PropertyValue)
        ensures
            match value {
                Value::True => r == PropertyValue::True,
                Value::False(v) => r == PropertyValue::False(v),
                Value::Residual(_) => r == PropertyValue::Residual,
            },
    {
        match value {
            Value::True => PropertyValue::True,
            Value::False(v) => PropertyValue::False(v),
            Value::Residual(_) => PropertyValue::Residual,
        }
    }
}

} // verus!
