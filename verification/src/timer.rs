//! Named timers and the errors of building them from configuration.

use vstd::prelude::*;
use crate::codec::{ParseError, parse, spec_parse};

verus! {

/// Errors raised while the configuration is turned into timers. They are
/// fatal to startup: once a controller is built, no operation fails.
#[derive(Debug)]
pub enum ConfigError {
    /// A duration string did not parse; carries the timer's name, the
    /// offending text and the parse error.
    InvalidDuration { name: String, text: String, cause: ParseError },
    /// A duration string parsed to zero seconds, which no timer may have.
    ZeroDuration { name: String },
    /// The timer list is empty.
    Empty,
    /// The name list and the duration list have different lengths.
    LengthMismatch,
}

/// An immutable named duration. A timer always runs for a positive whole
/// number of seconds.
#[derive(Debug)]
pub struct Timer {
    pub name: String,
    pub duration_secs: u64,
}

impl Timer {
    /// Builds a timer from its name and a compact duration string. Succeeds
    /// exactly when the text parses to a positive number of seconds.
    pub fn new(name: String, text: &str) -> (r: Result<Timer, ConfigError>)
        ensures
            match r {
                Ok(t) => t.name@ == name@ && spec_parse(text@) == Ok::<u64, ParseError>(
                    t.duration_secs,
                ) && t.duration_secs > 0,
                Err(e) => match e {
                    ConfigError::ZeroDuration { name: n } => n@ == name@ && spec_parse(text@)
                        == Ok::<u64, ParseError>(0),
                    ConfigError::InvalidDuration { name: n, text: t, cause } => n@ == name@ && t@
                        == text@ && spec_parse(text@) == Err::<u64, ParseError>(cause),
                    _ => false,
                },
            },
    {
        match parse(text) {
            Err(cause) => Err(ConfigError::InvalidDuration { name, text: text.to_owned(), cause }),
            Ok(0) => Err(ConfigError::ZeroDuration { name }),
            Ok(secs) => Ok(Timer { name, duration_secs: secs }),
        }
    }
}

/// True when the pair at index `i` of the configuration lists yields a
/// valid timer: its duration text parses to a positive number of seconds.
pub open spec fn timer_ok(names: Seq<String>, durs: Seq<String>, i: int) -> bool {
    match spec_parse(durs[i]@) {
        Ok(d) => d > 0,
        Err(_) => false,
    }
}

/// True when every pair before index `i` yields a valid timer, so that `i`
/// is where building stops.
pub open spec fn first_failure_at(names: Seq<String>, durs: Seq<String>, i: int) -> bool {
    0 <= i < names.len() && (forall|j: int| 0 <= j < i ==> timer_ok(names, durs, j))
}

/// Builds one timer per name/duration pair, in order. Succeeds exactly when
/// the lists have equal lengths and every duration parses to a positive
/// number of seconds; otherwise reports the length mismatch or the first
/// failing pair.
pub fn build_timers(names: &Vec<String>, durations: &Vec<String>) -> (r: Result<
    Vec<Timer>,
    ConfigError,
>)
    ensures
        match r {
            Ok(ts) => names@.len() == durations@.len() && ts@.len() == names@.len() && (forall|
                i: int,
            |
                0 <= i < ts@.len() ==> (#[trigger] ts@[i]).name@ == names@[i]@ && spec_parse(
                    durations@[i]@,
                ) == Ok::<u64, ParseError>(ts@[i].duration_secs) && ts@[i].duration_secs > 0),
            Err(e) => match e {
                ConfigError::LengthMismatch => names@.len() != durations@.len(),
                ConfigError::InvalidDuration { name, text, cause } => names@.len()
                    == durations@.len() && (exists|i: int|
                    #[trigger] first_failure_at(names@, durations@, i) && names@[i]@ == name@
                        && durations@[i]@ == text@ && spec_parse(durations@[i]@) == Err::<
                        u64,
                        ParseError,
                    >(cause)),
                ConfigError::ZeroDuration { name } => names@.len() == durations@.len() && (exists|
                    i: int,
                |
                    #[trigger] first_failure_at(names@, durations@, i) && names@[i]@ == name@
                        && spec_parse(durations@[i]@) == Ok::<u64, ParseError>(0)),
                ConfigError::Empty => false,
            },
        },
{
    let n = names.len();
    if n != durations.len() {
        return Err(ConfigError::LengthMismatch);
    }
    let mut ts: Vec<Timer> = Vec::new();
    let mut i: usize = 0;
    while i < n
        invariant
            n == names@.len(),
            n == durations@.len(),
            i <= n,
            ts@.len() == i,
            forall|j: int| 0 <= j < i ==> timer_ok(names@, durations@, j),
            forall|j: int|
                0 <= j < i ==> (#[trigger] ts@[j]).name@ == names@[j]@ && spec_parse(
                    durations@[j]@,
                ) == Ok::<u64, ParseError>(ts@[j].duration_secs) && ts@[j].duration_secs > 0,
        decreases n - i,
    {
        let name = names[i].clone();
        match Timer::new(name, durations[i].as_str()) {
            Ok(t) => {
                ts.push(t);
            },
            Err(e) => {
                proof {
                    assert(first_failure_at(names@, durations@, i as int));
                }
                return Err(e);
            },
        }
        i += 1;
    }
    Ok(ts)
}

} // verus!
