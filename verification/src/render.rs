use vstd::prelude::*;
use vstd::string::StringExecFns;

use crate::ltl::{EventuallyViolation, Formula, Violation};
use crate::time::Time;

verus! {

/// The timestamp as a count of milliseconds since the epoch.
pub fn time_to_ms(time: &Time) -> (r: u64)
    ensures
        r == time.milliseconds,
{
    time.milliseconds
}

/// The decimal digit for one value below ten.
pub open spec fn spec_digit(d: int) -> char {
    if d == 0 {
        '0'
    } else if d == 1 {
        '1'
    } else if d == 2 {
        '2'
    } else if d == 3 {
        '3'
    } else if d == 4 {
        '4'
    } else if d == 5 {
        '5'
    } else if d == 6 {
        '6'
    } else if d == 7 {
        '7'
    } else if d == 8 {
        '8'
    } else {
        '9'
    }
}

/// The decimal rendering of a nonnegative number, most significant
/// digit first, with no leading zero except for zero itself.
pub open spec fn spec_decimal(n: int) -> Seq<char>
    recommends
        n >= 0,
    decreases n,
{
    if n < 10 {
        seq![spec_digit(n)]
    } else {
        spec_decimal(n / 10).push(spec_digit(n % 10))
    }
}

/// The one-character string for a decimal digit.
fn digit_str(d: u64) -> (r: &'static str)
    requires
        d < 10,
    ensures
        r@ == seq![spec_digit(d as int)],
{
    proof {
        reveal_strlit("0");
        reveal_strlit("1");
        reveal_strlit("2");
        reveal_strlit("3");
        reveal_strlit("4");
        reveal_strlit("5");
        reveal_strlit("6");
        reveal_strlit("7");
        reveal_strlit("8");
        reveal_strlit("9");
    }
    match d {
        0 => "0",
        1 => "1",
        2 => "2",
        3 => "3",
        4 => "4",
        5 => "5",
        6 => "6",
        7 => "7",
        8 => "8",
        _ => "9",
    }
}

/// Render a number in decimal.
pub fn decimal_string(n: u64) -> (r: String)
    ensures
        r@ == spec_decimal(n as int),
    decreases n,
{
    if n < 10 {
        digit_str(n).to_owned()
    } else {
        let s = decimal_string(n / 10);
        s.concat(digit_str(n % 10))
    }
}

/// The rendering of a formula whose thunk handles are captured source
/// text, in the combinator style the specification language uses; a
/// negated atom is wrapped in a negation.
pub open spec fn spec_render_formula(f: Formula<String>) -> Seq<char>
    decreases f,
{
    match f {
        Formula::True { pretty } => pretty@,
        Formula::False { pretty } => pretty@,
        Formula::Thunk { handle, negated } => if negated {
            "!("@ + handle@ + ")"@
        } else {
            handle@
        },
        Formula::And(a, b) => spec_render_formula(*a) + ".and("@ + spec_render_formula(*b) + ")"@,
        Formula::Or(a, b) => spec_render_formula(*a) + ".or("@ + spec_render_formula(*b) + ")"@,
        Formula::Implies(a, b) => spec_render_formula(*a) + ".implies("@ + spec_render_formula(*b)
            + ")"@,
        Formula::Next(a) => "next("@ + spec_render_formula(*a) + ")"@,
        Formula::Always(a, bound) => {
            let base = "always("@ + spec_render_formula(*a) + ")"@;
            match bound {
                Some(d) => base + ".within("@ + spec_decimal(d.milliseconds as int)
                    + ", \"milliseconds\")"@,
                None => base,
            }
        },
        Formula::Eventually(a, bound) => {
            let base = "eventually("@ + spec_render_formula(*a) + ")"@;
            match bound {
                Some(d) => base + ".within("@ + spec_decimal(d.milliseconds as int)
                    + ", \"milliseconds\")"@,
                None => base,
            }
        },
    }
}

/// The rendering of a violation: stable text for logs and CI output,
/// built only from the source text captured at construction time.
pub open spec fn spec_render_violation(v: Violation<String>) -> Seq<char>
    decreases v,
{
    match v {
        Violation::False { condition } => "!("@ + condition@ + ")"@,
        Violation::And { left, right } => spec_render_violation(*left) + "\n\nand\n\n"@
            + spec_render_violation(*right),
        Violation::Or { left, right } => spec_render_violation(*left) + " or "@
            + spec_render_violation(*right),
        Violation::Implies { left, right } => spec_render_violation(*right) + " since "@
            + spec_render_formula(*left),
        Violation::Eventually { subformula, reason } => match reason {
            EventuallyViolation::TimedOut(t) => "timed out at "@ + spec_decimal(
                t.milliseconds as int,
            ) + "ms: "@ + spec_render_formula(*subformula),
            EventuallyViolation::TestEnded => "failed at test end: "@ + spec_render_formula(
                *subformula,
            ),
        },
        Violation::Always { subformula, violation, start, time } => "as of "@ + spec_decimal(
            start.milliseconds as int,
        ) + "ms, it should always be the case that\n\n"@ + spec_render_formula(*subformula)
            + "\n\nbut at "@ + spec_decimal(time.milliseconds as int) + "ms\n\n"@
            + spec_render_violation(*violation),
    }
}

/// Render a formula as the combinator expression that would build it.
pub fn render_formula(f: &Formula<String>) -> (r: String)
    ensures
        r@ == spec_render_formula(*f),
    decreases *f,
{
    match f {
        Formula::True { pretty } => pretty.clone(),
        Formula::False { pretty } => pretty.clone(),
        Formula::Thunk { handle, negated } => if *negated {
            let s = "!(".to_owned();
            let s = s.concat(handle.as_str());
            s.concat(")")
        } else {
            handle.clone()
        },
        Formula::And(a, b) => {
            let s = render_formula(a);
            let s = s.concat(".and(");
            let s = s.concat(render_formula(b).as_str());
            s.concat(")")
        },
        Formula::Or(a, b) => {
            let s = render_formula(a);
            let s = s.concat(".or(");
            let s = s.concat(render_formula(b).as_str());
            s.concat(")")
        },
        Formula::Implies(a, b) => {
            let s = render_formula(a);
            let s = s.concat(".implies(");
            let s = s.concat(render_formula(b).as_str());
            s.concat(")")
        },
        Formula::Next(a) => {
            let s = "next(".to_owned();
            let s = s.concat(render_formula(a).as_str());
            s.concat(")")
        },
        Formula::Always(a, bound) => {
            let s = "always(".to_owned();
            let s = s.concat(render_formula(a).as_str());
            let s = s.concat(")");
            match bound {
                Some(d) => {
                    let s = s.concat(".within(");
                    let s = s.concat(decimal_string(d.milliseconds).as_str());
                    s.concat(", \"milliseconds\")")
                },
                None => s,
            }
        },
        Formula::Eventually(a, bound) => {
            let s = "eventually(".to_owned();
            let s = s.concat(render_formula(a).as_str());
            let s = s.concat(")");
            match bound {
                Some(d) => {
                    let s = s.concat(".within(");
                    let s = s.concat(decimal_string(d.milliseconds).as_str());
                    s.concat(", \"milliseconds\")")
                },
                None => s,
            }
        },
    }
}

/// Render a violation for human consumption; thunks are never
/// re-invoked, only their captured source text is used.
pub fn render_violation(violation: &Violation<String>) -> (r: String)
    ensures
        r@ == spec_render_violation(*violation),
    decreases *violation,
{
    match violation {
        Violation::False { condition } => {
            let s = "!(".to_owned();
            let s = s.concat(condition.as_str());
            s.concat(")")
        },
        Violation::And { left, right } => {
            let s = render_violation(left);
            let s = s.concat("\n\nand\n\n");
            s.concat(render_violation(right).as_str())
        },
        Violation::Or { left, right } => {
            let s = render_violation(left);
            let s = s.concat(" or ");
            s.concat(render_violation(right).as_str())
        },
        Violation::Implies { left, right } => {
            let s = render_violation(right);
            let s = s.concat(" since ");
            s.concat(render_formula(left).as_str())
        },
        Violation::Eventually { subformula, reason } => match reason {
            EventuallyViolation::TimedOut(t) => {
                let s = "timed out at ".to_owned();
                let s = s.concat(decimal_string(t.milliseconds).as_str());
                let s = s.concat("ms: ");
                s.concat(render_formula(subformula).as_str())
            },
            EventuallyViolation::TestEnded => {
                let s = "failed at test end: ".to_owned();
                s.concat(render_formula(subformula).as_str())
            },
        },
        Violation::Always { subformula, violation, start, time } => {
            let s = "as of ".to_owned();
            let s = s.concat(decimal_string(start.milliseconds).as_str());
            let s = s.concat("ms, it should always be the case that\n\n");
            let s = s.concat(render_formula(subformula).as_str());
            let s = s.concat("\n\nbut at ");
            let s = s.concat(decimal_string(time.milliseconds).as_str());
            let s = s.concat("ms\n\n");
            s.concat(render_violation(violation).as_str())
        },
    }
}

} // verus!
