//! The parsed configuration the core consumes. Flag syntax and argument
//! parsing belong to the surrounding application; the core only sees this
//! plain record.

use vstd::prelude::*;

verus! {

/// Configuration for one run: a name and a compact duration string per
/// timer, the render/poll interval, an optional cycle limit, and whether
/// notifications are wanted (read only by the notifier collaborator).
pub struct Cli {
    /// Render interval in milliseconds.
    pub tick: u64,
    /// Name for each timer.
    pub names: Vec<String>,
    /// Duration for each timer, e.g. `3h2m1s`.
    pub durations: Vec<String>,
    /// Number of cycles after which the loop stops; zero means no limit.
    pub cycles: u64,
    /// Disable notifications.
    pub no_notify: bool,
}

} // verus!
