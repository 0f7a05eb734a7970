use vstd::prelude::*;
use vstd::string::StringSliceAdditionalSpecFns;

use crate::eval::{
    evaluate, spec_evaluate, spec_step, step, EvalError, EvalOutcome, ThunkModel, ThunkResolver,
};
use crate::ltl::{Formula, Residual, Value, Violation};
use crate::time::Time;

verus! {

/// How many nested thunk expansions one evaluation may spend before it
/// fails with a depth error.
pub const DEFAULT_THUNK_FUEL: u64 = 64;

/// A specification source blob, with a filename hint used for module
/// resolution and source-type detection.
#[derive(Debug, Clone, PartialEq, Eq)]
pub struct Specification {
    pub contents: Vec<u8>,
    pub path: String,
}

impl Specification {
    pub fn new(contents: Vec<u8>, path: String) -> (s: Specification)
        ensures
            s.contents == contents,
            s.path == path,
    {
        Specification { contents, path }
    }
}

/// How a specification source file is brought to the scripting
/// runtime, decided by its filename.
#[derive(Debug, Clone, Copy, PartialEq, Eq, Structural)]
pub enum SourceKind {
    /// Parsed as JavaScript directly.
    JavaScript,
    /// Transpiled before parsing; a transpilation failure is a
    /// specification error.
    TypeScript,
}

/// `s` ends with `suffix`.
pub open spec fn spec_ends_with(s: Seq<u8>, suffix: Seq<u8>) -> bool {
    s.len() >= suffix.len() && s.subrange(s.len() - suffix.len(), s.len() as int) == suffix
}

/// How a file is treated, from the extension of its path: TypeScript
/// sources are transpiled first, JavaScript sources are parsed as
/// they are, and anything else is rejected.
pub open spec fn spec_source_kind(path: Seq<u8>) -> Option<SourceKind> {
    if spec_ends_with(path, seq![46u8, 116u8, 115u8]) || spec_ends_with(
        path,
        seq![46u8, 116u8, 115u8, 120u8],
    ) {
        Some(SourceKind::TypeScript)
    } else if spec_ends_with(path, seq![46u8, 106u8, 115u8]) || spec_ends_with(
        path,
        seq![46u8, 109u8, 106u8, 115u8],
    ) || spec_ends_with(path, seq![46u8, 99u8, 106u8, 115u8]) {
        Some(SourceKind::JavaScript)
    } else {
        None
    }
}

/// `s` ends with `suffix`.
fn ends_with_bytes(s: &[u8], suffix: &[u8]) -> (r: bool)
    ensures
        r == spec_ends_with(s@, suffix@),
{
    if s.len() < suffix.len() {
        return false;
    }
    let offset = s.len() - suffix.len();
    let mut i: usize = 0;
    #[verifier::loop_isolation(false)]
    while i < suffix.len()
        invariant
            0 <= i <= suffix@.len(),
            offset + suffix@.len() == s@.len(),
            forall|j: int| 0 <= j < i ==> s@[offset + j] == suffix@[j],
        decreases suffix@.len() - i,
    {
        if s[offset + i] != suffix[i] {
            proof {
                assert(s@.subrange(offset as int, s@.len() as int)[i as int] != suffix@[i as int]);
            }
            return false;
        }
        i = i + 1;
    }
    proof {
        assert(s@.subrange(offset as int, s@.len() as int) =~= suffix@);
    }
    true
}

/// A three-byte suffix as a vector.
fn suffix3(a: u8, b: u8, c: u8) -> (r: Vec<u8>)
    ensures
        r@ =~= seq![a, b, c],
{
    let mut r: Vec<u8> = Vec::new();
    r.push(a);
    r.push(b);
    r.push(c);
    r
}

/// A four-byte suffix as a vector.
fn suffix4(a: u8, b: u8, c: u8, d: u8) -> (r: Vec<u8>)
    ensures
        r@ =~= seq![a, b, c, d],
{
    let mut r: Vec<u8> = Vec::new();
    r.push(a);
    r.push(b);
    r.push(c);
    r.push(d);
    r
}

/// Decide from the filename hint how the source is brought to the
/// runtime: `.ts` and `.tsx` files are transpiled, `.mjs`, `.cjs` and
/// `.js` files are parsed as JavaScript, and any other extension is a
/// specification error.
pub fn source_kind(path: &str) -> (r: Option<SourceKind>)
    ensures
        r == spec_source_kind(path.spec_bytes()),
{
    let bytes = path.as_bytes();
    let ts = suffix3(46, 116, 115);
    let tsx = suffix4(46, 116, 115, 120);
    let js = suffix3(46, 106, 115);
    let mjs = suffix4(46, 109, 106, 115);
    let cjs = suffix4(46, 99, 106, 115);
    if ends_with_bytes(bytes, ts.as_slice()) || ends_with_bytes(bytes, tsx.as_slice()) {
        Some(SourceKind::TypeScript)
    } else if ends_with_bytes(bytes, js.as_slice()) || ends_with_bytes(bytes, mjs.as_slice())
        || ends_with_bytes(bytes, cjs.as_slice()) {
        Some(SourceKind::JavaScript)
    } else {
        None
    }
}

/// The per-run state of one property: fresh, partially evaluated, or
/// latched on a definite verdict.
#[derive(Debug, PartialEq, Eq)]
pub enum PropertyState<T> {
    Initial(Formula<T>),
    Residual(Residual<T>),
    DefinitelyTrue,
    DefinitelyFalse(Violation<T>),
}

/// A named top-level formula exported by the specification, with its
/// per-run state.
#[derive(Debug, PartialEq, Eq)]
pub struct Property<T> {
    pub name: String,
    pub state: PropertyState<T>,
}

/// What a property in state `st` reports at one tick.
pub open spec fn spec_property_outcome<T>(
    m: ThunkModel<T>,
    st: PropertyState<T>,
    t: Time,
    fuel: nat,
) -> EvalOutcome<T> {
    match st {
        PropertyState::Initial(f) => spec_evaluate(m, f, t, fuel),
        PropertyState::Residual(r) => spec_step(m, r, t, fuel),
        PropertyState::DefinitelyTrue => EvalOutcome::Value(Value::True),
        PropertyState::DefinitelyFalse(v) => EvalOutcome::Value(Value::False(v)),
    }
}

/// The state after reporting `o`: definite verdicts latch, open
/// obligations are stored, and an error leaves the state unchanged.
pub open spec fn spec_advance_state<T>(
    st: PropertyState<T>,
    o: EvalOutcome<T>,
) -> PropertyState<T> {
    match o {
        EvalOutcome::Value(Value::True) => PropertyState::DefinitelyTrue,
        EvalOutcome::Value(Value::False(v)) => PropertyState::DefinitelyFalse(v),
        EvalOutcome::Value(Value::Residual(r)) => PropertyState::Residual(r),
        _ => st,
    }
}

impl<T: Copy> Property<T> {
    /// A fresh property over an already normalized formula.
    pub fn new(name: String, formula: Formula<T>) -> (p: Property<T>)
        ensures
            p.name == name,
            p.state == PropertyState::Initial(formula),
    {
        Property { name, state: PropertyState::Initial(formula) }
    }

    /// Advance this property one tick: evaluate a fresh formula, step
    /// an open residual, or re-emit a latched verdict; then record the
    /// reported value.  An error leaves the state unchanged.
    pub fn step_with<R: ThunkResolver<T>>(
        &mut self,
        resolver: &R,
        time: Time,
        fuel: u64,
    ) -> (r: Result<Value<T>, EvalError>)
        ensures
            final(self).name == old(self).name,
            match r {
                Ok(v) => {
                    &&& spec_property_outcome(
                        resolver.model(), old(self).state, time, fuel as nat,
                    ) == EvalOutcome::Value(v)
                    &&& final(self).state == spec_advance_state(
                        old(self).state, EvalOutcome::Value(v),
                    )
                },
                Err(e) => {
                    &&& final(self).state == old(self).state
                    &&& (e is DepthExceeded ==> spec_property_outcome(
                        resolver.model(), old(self).state, time, fuel as nat,
                    ) is NoFuel)
                    &&& (e is Thunk ==> spec_property_outcome(
                        resolver.model(), old(self).state, time, fuel as nat,
                    ) is ResolveFailed)
                },
            },
    {
        let result = match &self.state {
            PropertyState::Initial(f) => evaluate(resolver, f, time, fuel),
            PropertyState::Residual(r) => step(resolver, r, time, fuel),
            PropertyState::DefinitelyTrue => Ok(Value::True),
            PropertyState::DefinitelyFalse(v) => Ok(Value::False(v.duplicate())),
        };
        match result {
            Ok(v) => {
                match &v {
                    Value::True => {
                        self.state = PropertyState::DefinitelyTrue;
                    },
                    Value::False(violation) => {
                        self.state = PropertyState::DefinitelyFalse(violation.duplicate());
                    },
                    Value::Residual(residual) => {
                        self.state = PropertyState::Residual(residual.duplicate());
                    },
                };
                Ok(v)
            },
            Err(e) => Err(e),
        }
    }
}

/// Advancing a tick failed at index `k`: every property before `k`
/// latched the value its old state reports, the one at `k` has an
/// outcome that fails with the returned error's kind, and it and all
/// later properties kept their old state.
pub open spec fn spec_step_all_failed<T>(
    m: ThunkModel<T>,
    before: Seq<Property<T>>,
    after: Seq<Property<T>>,
    t: Time,
    fuel: nat,
    e: EvalError,
    k: int,
) -> bool {
    &&& 0 <= k < before.len()
    &&& forall|i: int| 0 <= i < k ==> (#[trigger] after[i]).state == spec_advance_state(
        before[i].state,
        spec_property_outcome(m, before[i].state, t, fuel),
    )
    &&& forall|i: int| k <= i < before.len() ==> (#[trigger] after[i]).state == before[i].state
    &&& (e is DepthExceeded ==> spec_property_outcome(m, before[k].state, t, fuel) is NoFuel)
    &&& (e is Thunk ==> spec_property_outcome(m, before[k].state, t, fuel) is ResolveFailed)
}

/// Advance every property one tick, in order, collecting each
/// reported value under the property's name.  The first error aborts
/// the tick: properties before it keep their advanced state, the rest
/// stay as they were.
pub fn step_all<T: Copy, R: ThunkResolver<T>>(
    properties: &mut Vec<Property<T>>,
    resolver: &R,
    time: Time,
    fuel: u64,
) -> (r: Result<Vec<(String, Value<T>)>, EvalError>)
    ensures
        final(properties)@.len() == old(properties)@.len(),
        forall|i: int| 0 <= i < old(properties)@.len() ==> (#[trigger] final(properties)@[i]).name
            == old(properties)@[i].name,
        match r {
            Ok(values) => {
                &&& values@.len() == old(properties)@.len()
                &&& forall|i: int| 0 <= i < values@.len() ==> (#[trigger] values@[i]).0
                    == old(properties)@[i].name
                &&& forall|i: int| 0 <= i < values@.len() ==> spec_property_outcome(
                    resolver.model(),
                    (#[trigger] old(properties)@[i]).state,
                    time,
                    fuel as nat,
                ) == EvalOutcome::Value(values@[i].1)
                &&& forall|i: int| 0 <= i < values@.len() ==> (#[trigger] final(properties)@[i]).state
                    == spec_advance_state(
                    old(properties)@[i].state,
                    EvalOutcome::Value(values@[i].1),
                )
            },
            Err(e) => exists|k: int|
                #[trigger] spec_step_all_failed(
                    resolver.model(),
                    old(properties)@,
                    final(properties)@,
                    time,
                    fuel as nat,
                    e,
                    k,
                ),
        },
{
    let ghost before = properties@;
    let mut remaining: Vec<Property<T>> = Vec::new();
    core::mem::swap(properties, &mut remaining);
    let mut values: Vec<(String, Value<T>)> = Vec::new();
    #[verifier::loop_isolation(false)]
    while remaining.len() > 0
        invariant
            properties@.len() + remaining@.len() == before.len(),
            properties@.len() == values@.len(),
            remaining@ == before.subrange(properties@.len() as int, before.len() as int),
            forall|i: int| 0 <= i < properties@.len() ==> (#[trigger] properties@[i]).name
                == before[i].name,
            forall|i: int| 0 <= i < values@.len() ==> (#[trigger] values@[i]).0 == before[i].name,
            forall|i: int| 0 <= i < values@.len() ==> spec_property_outcome(
                resolver.model(),
                (#[trigger] before[i]).state,
                time,
                fuel as nat,
            ) == EvalOutcome::Value(values@[i].1),
            forall|i: int| 0 <= i < values@.len() ==> (#[trigger] properties@[i]).state
                == spec_advance_state(before[i].state, EvalOutcome::Value(values@[i].1)),
        decreases remaining@.len(),
    {
        let ghost k = properties@.len() as int;
        let mut property = remaining.remove(0);
        proof {
            assert(before.subrange(k, before.len() as int)[0] == before[k]);
            assert(remaining@ =~= before.subrange(k + 1, before.len() as int));
        }
        let name = property.name.clone();
        match property.step_with(resolver, time, fuel) {
            Ok(value) => {
                values.push((name, value));
                properties.push(property);
            },
            Err(e) => {
                properties.push(property);
                properties.append(&mut remaining);
                proof {
                    assert(forall|i: int| k <= i < before.len()
                        ==> (#[trigger] properties@[i]).state == before[i].state);
                    assert(spec_step_all_failed(
                        resolver.model(),
                        before,
                        properties@,
                        time,
                        fuel as nat,
                        e,
                        k,
                    ));
                }
                return Err(e);
            },
        }
    }
    proof {
        assert(before.subrange(0, before.len() as int) =~= before);
    }
    Ok(values)
}

/// The sequence of outcomes a property reports over a trace, one model
/// and one timestamp per tick.
pub open spec fn spec_property_run<T>(
    models: Seq<ThunkModel<T>>,
    times: Seq<Time>,
    st: PropertyState<T>,
    fuel: nat,
) -> Seq<EvalOutcome<T>>
    decreases models.len(),
{
    if models.len() == 0 || times.len() == 0 {
        Seq::empty()
    } else {
        let o = spec_property_outcome(models[0], st, times[0], fuel);
        seq![o] + spec_property_run(
            models.subrange(1, models.len() as int),
            times.subrange(1, times.len() as int),
            spec_advance_state(st, o),
            fuel,
        )
    }
}

/// A definite verdict, as opposed to an error or an open obligation.
pub open spec fn decided_outcome<T>(o: EvalOutcome<T>) -> bool {
    match o {
        EvalOutcome::Value(Value::True) => true,
        EvalOutcome::Value(Value::False(_)) => true,
        _ => false,
    }
}

/// What a latched state re-emits forever.
pub open spec fn spec_terminal_value<T>(st: PropertyState<T>) -> EvalOutcome<T>
    recommends
        st is DefinitelyTrue || st is DefinitelyFalse,
{
    match st {
        PropertyState::DefinitelyFalse(v) => EvalOutcome::Value(Value::False(v)),
        _ => EvalOutcome::Value(Value::True),
    }
}

/// A latched property reports the same verdict at every tick of any
/// trace.
pub proof fn lemma_terminal_run<T>(
    models: Seq<ThunkModel<T>>,
    times: Seq<Time>,
    st: PropertyState<T>,
    fuel: nat,
)
    requires
        models.len() == times.len(),
        st is DefinitelyTrue || st is DefinitelyFalse,
    ensures
        spec_property_run(models, times, st, fuel).len() == models.len(),
        forall|i: int|
            0 <= i < models.len() ==> #[trigger] spec_property_run(models, times, st, fuel)[i]
                == spec_terminal_value(st),
    decreases models.len(),
{
    if models.len() > 0 {
        let o = spec_property_outcome(models[0], st, times[0], fuel);
        assert(o == spec_terminal_value(st));
        assert(spec_advance_state(st, o) == st);
        lemma_terminal_run(
            models.subrange(1, models.len() as int),
            times.subrange(1, times.len() as int),
            st,
            fuel,
        );
    }
}

/// The run has one outcome per tick.
pub proof fn lemma_property_run_len<T>(
    models: Seq<ThunkModel<T>>,
    times: Seq<Time>,
    st: PropertyState<T>,
    fuel: nat,
)
    requires
        models.len() == times.len(),
    ensures
        spec_property_run(models, times, st, fuel).len() == models.len(),
    decreases models.len(),
{
    if models.len() > 0 {
        let o = spec_property_outcome(models[0], st, times[0], fuel);
        lemma_property_run_len(
            models.subrange(1, models.len() as int),
            times.subrange(1, times.len() as int),
            spec_advance_state(st, o),
            fuel,
        );
    }
}

/// Latching: once a property reports a definite verdict at tick `n`,
/// it reports the very same verdict — the same violation — at every
/// later tick `k`, whatever the rest of the trace supplies.
pub proof fn lemma_latching<T>(
    models: Seq<ThunkModel<T>>,
    times: Seq<Time>,
    st: PropertyState<T>,
    fuel: nat,
    n: int,
    k: int,
)
    requires
        models.len() == times.len(),
        0 <= n < k < models.len(),
        decided_outcome(spec_property_run(models, times, st, fuel)[n]),
    ensures
        spec_property_run(models, times, st, fuel)[k]
            == spec_property_run(models, times, st, fuel)[n],
    decreases n,
{
    let run = spec_property_run(models, times, st, fuel);
    let o = spec_property_outcome(models[0], st, times[0], fuel);
    let st2 = spec_advance_state(st, o);
    let rest_models = models.subrange(1, models.len() as int);
    let rest_times = times.subrange(1, times.len() as int);
    let rest = spec_property_run(rest_models, rest_times, st2, fuel);
    lemma_property_run_len(models, times, st, fuel);
    lemma_property_run_len(rest_models, rest_times, st2, fuel);
    assert(run == seq![o] + rest);
    if n == 0 {
        assert(run[0] == o);
        assert(decided_outcome(o));
        assert(st2 is DefinitelyTrue || st2 is DefinitelyFalse);
        assert(spec_terminal_value(st2) == o);
        lemma_terminal_run(rest_models, rest_times, st2, fuel);
        assert(run[k] == rest[k - 1]);
        assert(rest[k - 1] == spec_terminal_value(st2));
    } else {
        assert(run[n] == rest[n - 1]);
        assert(run[k] == rest[k - 1]);
        lemma_latching(rest_models, rest_times, st2, fuel, n - 1, k - 1);
    }
}

} // verus!
