use vstd::prelude::*;

verus! {

/// Choices for one test run.
pub struct TestOptions {
    /// Use the deterministic generator-combinator action picker
    /// instead of the plain random one.
    pub hegel: bool,
}

/// The severity of one console entry captured from the page.
#[derive(Debug, Clone, Copy, PartialEq, Eq, Structural)]
pub enum ConsoleLevel {
    Log,
    Info,
    Warning,
    Error,
}

/// Why a captured page state fails the basic health check.
#[derive(Debug, Clone, PartialEq, Eq)]
pub enum PageProblem {
    /// The navigation response carried this failure status.
    BadStatus(u16),
    /// The console entry at this index is at error level.
    ConsoleError(usize),
    /// An uncaught exception was recorded on the page.
    UncaughtException,
}

/// The basic health check of a captured page state: a response status
/// of 400 or above is reported first, else the first console entry at
/// error level, else an uncaught exception; a state with none of
/// these is fine.
pub fn check_page_ok(
    status: Option<u16>,
    console_levels: &Vec<ConsoleLevel>,
    has_exception: bool,
) -> (r: Option<PageProblem>)
    ensures
        match r {
            Some(PageProblem::BadStatus(s)) => status == Some(s) && s >= 400,
            Some(PageProblem::ConsoleError(i)) => {
                &&& !(status matches Some(s) && s >= 400)
                &&& 0 <= i < console_levels@.len()
                &&& console_levels@[i as int] == ConsoleLevel::Error
                &&& forall|j: int| 0 <= j < i ==> console_levels@[j] != ConsoleLevel::Error
            },
            Some(PageProblem::UncaughtException) => {
                &&& !(status matches Some(s) && s >= 400)
                &&& forall|j: int| 0 <= j < console_levels@.len() ==> console_levels@[j]
                    != ConsoleLevel::Error
                &&& has_exception
            },
            None => {
                &&& !(status matches Some(s) && s >= 400)
                &&& forall|j: int| 0 <= j < console_levels@.len() ==> console_levels@[j]
                    != ConsoleLevel::Error
                &&& !has_exception
            },
        },
{
    match status {
        Some(s) => {
            if s >= 400 {
                return Some(PageProblem::BadStatus(s));
            }
        },
        None => {},
    }
    let mut i: usize = 0;
    #[verifier::loop_isolation(false)]
    while i < console_levels.len()
        invariant
            0 <= i <= console_levels@.len(),
            forall|j: int| 0 <= j < i ==> console_levels@[j] != ConsoleLevel::Error,
        decreases console_levels@.len() - i,
    {
        if console_levels[i] == ConsoleLevel::Error {
            return Some(PageProblem::ConsoleError(i));
        }
        i = i + 1;
    }
    if has_exception {
        Some(PageProblem::UncaughtException)
    } else {
        None
    }
}

} // verus!
