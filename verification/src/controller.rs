//! The controller state machine.
//!
//! A controller owns one timer sequence and one run state, and is their
//! sole mutator. Two stimuli drive it: the periodic tick, and discrete user
//! actions. Natural completion and a manual skip share one advance path:
//! capture the outgoing timer, step the cursor, bump the cycle counter on a
//! wrap, restart the clock, emit a completion event, and stop when the
//! cycle limit is reached. Retreating mirrors this without the limit check:
//! limits only gate forward progress.

use vstd::prelude::*;
use crate::cli::Cli;
use crate::codec::{ParseError, spec_parse};
use crate::keymap::Action;
use crate::runstate::{
    RunState,
    dec_cycles,
    inc_cycles,
    spec_bump,
    spec_limit_reached,
    spec_pause,
    spec_reset,
    spec_resume,
    spec_tick,
};
use crate::sequence::{CyclicList, next_cursor, prev_cursor};
use crate::timer::{ConfigError, Timer, build_timers, first_failure_at};

verus! {

/// Emitted each time the active timer changes, whether by natural expiry or
/// a manual step; the notifier collaborator consumes it.
pub struct CompletionEvent {
    pub prev_name: String,
    pub prev_duration_secs: u64,
    pub next_name: String,
    pub next_duration_secs: u64,
}

/// One row of the sequence preview.
pub struct PreviewEntry {
    pub name: String,
    pub duration_secs: u64,
    pub is_current: bool,
}

/// What the presentation layer renders each iteration.
pub struct Snapshot {
    pub current_name: String,
    pub current_duration_secs: u64,
    pub elapsed_secs: u64,
    pub time_left_secs: u64,
    pub elapsed_percent: u64,
    pub paused: bool,
    pub cycles: u64,
    pub preview: Vec<PreviewEntry>,
}

/// Orchestrates the timer sequence and the run state.
pub struct Controller {
    seq: CyclicList<Timer>,
    run: RunState,
    stopped: bool,
}

/// The run state after the shared advance path: the cycle counter bumped up
/// when the cursor wrapped, then the clock restarted at `now`.
pub open spec fn run_after_advance(r: RunState, wrapped: bool, now: u64) -> RunState {
    spec_reset(
        if wrapped {
            spec_bump(r, 1)
        } else {
            r
        },
        now,
    )
}

/// The run state after a retreat: the cycle counter bumped down — clamped
/// at zero — when the cursor wrapped, then the clock restarted at `now`.
pub open spec fn run_after_retreat(r: RunState, wrapped: bool, now: u64) -> RunState {
    spec_reset(
        if wrapped {
            spec_bump(r, -1)
        } else {
            r
        },
        now,
    )
}

/// Relation between controller states across the shared advance path: the
/// timers are unchanged, the cursor steps forward with wrap, the run state
/// follows `run_after_advance`, and the machine stops exactly when it was
/// already stopped or the advance reached the cycle limit.
pub open spec fn advances_to(pre: Controller, post: Controller, now: u64) -> bool {
    let len = pre.timers().len() as int;
    let c2 = next_cursor(pre.cursor(), len);
    &&& post.timers() == pre.timers()
    &&& post.cursor() == c2
    &&& post.run_state() == run_after_advance(pre.run_state(), c2 == 0, now)
    &&& post.stopped() == (pre.stopped() || spec_limit_reached(post.run_state()))
}

/// Relation between controller states across a retreat: the timers are
/// unchanged, the cursor steps backward with wrap, the run state follows
/// `run_after_retreat`, and whether the machine is stopped does not change:
/// the cycle limit gates forward progress only.
pub open spec fn retreats_to(pre: Controller, post: Controller, now: u64) -> bool {
    let len = pre.timers().len() as int;
    let c2 = prev_cursor(pre.cursor(), len);
    &&& post.timers() == pre.timers()
    &&& post.cursor() == c2
    &&& post.run_state() == run_after_retreat(pre.run_state(), c2 == len - 1, now)
    &&& post.stopped() == pre.stopped()
}

/// The event that describes a change of active timer from `pre` to `post`:
/// the outgoing timer and the new one, each with its name and duration.
pub open spec fn event_between(pre: Controller, post: Controller, ev: CompletionEvent) -> bool {
    &&& ev.prev_name == pre.timers()[pre.cursor()].name
    &&& ev.prev_duration_secs == pre.timers()[pre.cursor()].duration_secs
    &&& ev.next_name == post.timers()[post.cursor()].name
    &&& ev.next_duration_secs == post.timers()[post.cursor()].duration_secs
}

/// Everything one tick may do. A stopped or paused controller does not
/// move. Otherwise the clock is read; when the active timer's duration is
/// reached the shared advance path runs and the completion event comes
/// back, and when it is not, only `elapsed` changes.
pub open spec fn ticks_to(
    pre: Controller,
    post: Controller,
    now: u64,
    ev: Option<CompletionEvent>,
) -> bool {
    if pre.stopped() || pre.run_state().paused {
        post == pre && ev is None
    } else if spec_tick(pre.run_state(), now).elapsed >= pre.timers()[pre.cursor()].duration_secs {
        ev matches Some(e) && advances_to(pre, post, now) && event_between(pre, post, e)
    } else {
        &&& ev is None
        &&& post.timers() == pre.timers()
        &&& post.cursor() == pre.cursor()
        &&& post.stopped() == pre.stopped()
        &&& post.run_state() == spec_tick(pre.run_state(), now)
    }
}

impl Controller {
    /// The timers, in sequence order.
    pub closed spec fn timers(&self) -> Seq<Timer> {
        self.seq@
    }

    /// The index of the active timer.
    pub closed spec fn cursor(&self) -> int {
        self.seq.spec_cursor()
    }

    /// The wall-clock accounting state.
    pub closed spec fn run_state(&self) -> RunState {
        self.run
    }

    /// Whether the machine has reached its terminal state.
    pub closed spec fn stopped(&self) -> bool {
        self.stopped
    }

    /// A controller is well formed when it holds at least one timer, the
    /// cursor is in range, and every timer has a positive duration.
    pub open spec fn wf(&self) -> bool {
        &&& self.timers().len() > 0
        &&& 0 <= self.cursor() < self.timers().len()
        &&& forall|i: int|
            0 <= i < self.timers().len() ==> (#[trigger] self.timers()[i]).duration_secs > 0
    }

    /// Builds a controller over a non-empty list of timers, cursor on the
    /// first, clock started at `now`, running, no completed cycles.
    pub fn new(timers: Vec<Timer>, cycle_limit: u64, now: u64) -> (r: Result<
        Controller,
        ConfigError,
    >)
        requires
            forall|i: int| 0 <= i < timers@.len() ==> (#[trigger] timers@[i]).duration_secs > 0,
        ensures
            match r {
                Ok(c) => timers@.len() > 0 && c.wf() && c.timers() == timers@ && c.cursor() == 0
                    && c.run_state() == (RunState {
                    start: now,
                    elapsed: 0,
                    paused: false,
                    cycles: 0,
                    cycle_limit,
                }) && !c.stopped(),
                Err(e) => timers@.len() == 0 && e matches ConfigError::Empty,
            },
    {
        match CyclicList::build(timers) {
            Err(e) => Err(e),
            Ok(seq) => Ok(Controller { seq, run: RunState::new(cycle_limit, now), stopped: false }),
        }
    }

    /// Builds a controller from the parsed configuration: one timer per
    /// name/duration pair. Succeeds exactly when the two lists have equal
    /// non-zero length and every duration parses to a positive number of
    /// seconds; otherwise reports the mismatch, the emptiness, or the first
    /// failing pair.
    pub fn from_cli(cli: &Cli, now: u64) -> (r: Result<Controller, ConfigError>)
        ensures
            match r {
                Ok(c) => {
                    &&& cli.names@.len() == cli.durations@.len()
                    &&& cli.names@.len() > 0
                    &&& c.wf()
                    &&& c.timers().len() == cli.names@.len()
                    &&& forall|i: int|
                        0 <= i < c.timers().len() ==> (#[trigger] c.timers()[i]).name@
                            == cli.names@[i]@ && spec_parse(cli.durations@[i]@) == Ok::<
                            u64,
                            ParseError,
                        >(c.timers()[i].duration_secs)
                    &&& c.cursor() == 0
                    &&& c.run_state() == (RunState {
                        start: now,
                        elapsed: 0,
                        paused: false,
                        cycles: 0,
                        cycle_limit: cli.cycles,
                    })
                    &&& !c.stopped()
                },
                Err(e) => match e {
                    ConfigError::LengthMismatch => cli.names@.len() != cli.durations@.len(),
                    ConfigError::Empty => cli.names@.len() == cli.durations@.len()
                        && cli.names@.len() == 0,
                    ConfigError::InvalidDuration { name, text, cause } => cli.names@.len()
                        == cli.durations@.len() && (exists|i: int|
                        #[trigger] first_failure_at(cli.names@, cli.durations@, i)
                            && cli.names@[i]@ == name@ && cli.durations@[i]@ == text@ && spec_parse(
                            cli.durations@[i]@,
                        ) == Err::<u64, ParseError>(cause)),
                    ConfigError::ZeroDuration { name } => cli.names@.len() == cli.durations@.len()
                        && (exists|i: int|
                        #[trigger] first_failure_at(cli.names@, cli.durations@, i)
                            && cli.names@[i]@ == name@ && spec_parse(cli.durations@[i]@) == Ok::<
                            u64,
                            ParseError,
                        >(0)),
                },
            },
    {
        match build_timers(&cli.names, &cli.durations) {
            Err(e) => Err(e),
            Ok(ts) => Self::new(ts, cli.cycles, now),
        }
    }

    /// The active timer.
    pub fn current_timer(&self) -> (t: &Timer)
        requires
            self.wf(),
        ensures
            *t == self.timers()[self.cursor()],
    {
        self.seq.current().unwrap()
    }

    /// Whether the machine has reached its terminal state.
    pub fn is_stopped(&self) -> (b: bool)
        ensures
            b == self.stopped(),
    {
        self.stopped
    }

    /// Whether time is frozen.
    pub fn is_paused(&self) -> (b: bool)
        ensures
            b == self.run_state().paused,
    {
        self.run.paused
    }

    /// The shared advance path, used by natural completion and by a manual
    /// skip: capture the outgoing timer, step the cursor forward, bump the
    /// cycle counter on a wrap, restart the clock at `now`, stop when the
    /// cycle limit is reached, and describe the change.
    pub fn next_timer(&mut self, now: u64) -> (ev: CompletionEvent)
        requires
            old(self).wf(),
        ensures
            final(self).wf(),
            advances_to(*old(self), *final(self), now),
            event_between(*old(self), *final(self), ev),
    {
        let prev_name = self.current_timer().name.clone();
        let prev_duration_secs = self.current_timer().duration_secs;
        let res = self.seq.advance();
        if res.wrapped {
            self.run.bump_cycle(1);
        }
        self.run.reset(now);
        if self.run.limit_reached() {
            self.stopped = true;
        }
        let next_name = self.current_timer().name.clone();
        let next_duration_secs = self.current_timer().duration_secs;
        CompletionEvent { prev_name, prev_duration_secs, next_name, next_duration_secs }
    }

    /// The retreat path: capture the outgoing timer, step the cursor
    /// backward, bump the cycle counter down — clamped at zero — on a wrap,
    /// restart the clock at `now`, and describe the change. No limit check:
    /// limits only gate forward progress.
    pub fn prev_timer(&mut self, now: u64) -> (ev: CompletionEvent)
        requires
            old(self).wf(),
        ensures
            final(self).wf(),
            retreats_to(*old(self), *final(self), now),
            event_between(*old(self), *final(self), ev),
    {
        let prev_name = self.current_timer().name.clone();
        let prev_duration_secs = self.current_timer().duration_secs;
        let res = self.seq.retreat();
        if res.wrapped {
            self.run.bump_cycle(-1);
        }
        self.run.reset(now);
        let next_name = self.current_timer().name.clone();
        let next_duration_secs = self.current_timer().duration_secs;
        CompletionEvent { prev_name, prev_duration_secs, next_name, next_duration_secs }
    }

    /// One periodic tick at instant `now`: reads the clock and, when the
    /// active timer's duration is reached, runs the shared advance path and
    /// returns the completion event. A stopped or paused controller does
    /// not move.
    pub fn tick(&mut self, now: u64) -> (ev: Option<CompletionEvent>)
        requires
            old(self).wf(),
            !old(self).run_state().paused ==> old(self).run_state().start <= now,
        ensures
            final(self).wf(),
            ticks_to(*old(self), *final(self), now, ev),
    {
        if self.stopped || self.run.paused {
            return None;
        }
        self.run.tick(now);
        let duration_secs = self.current_timer().duration_secs;
        if self.run.elapsed >= duration_secs {
            Some(self.next_timer(now))
        } else {
            None
        }
    }

    /// One discrete user action at instant `now`: quit stops the machine
    /// from any state, play/pause toggles frozen time, next and previous
    /// run the advance and retreat paths and return the event.
    pub fn handle_action(&mut self, action: Action, now: u64) -> (ev: Option<CompletionEvent>)
        requires
            old(self).wf(),
            old(self).run_state().paused ==> old(self).run_state().elapsed <= now,
        ensures
            final(self).wf(),
            match action {
                Action::Quit => final(self).timers() == old(self).timers() && final(self).cursor()
                    == old(self).cursor() && final(self).run_state() == old(self).run_state()
                    && final(self).stopped() && ev is None,
                Action::PlayPause => final(self).timers() == old(self).timers()
                    && final(self).cursor() == old(self).cursor()
                    && final(self).stopped() == old(self).stopped()
                    && final(self).run_state() == (if old(self).run_state().paused {
                    spec_resume(old(self).run_state(), now)
                } else {
                    spec_pause(old(self).run_state())
                }) && ev is None,
                Action::Next => ev matches Some(e) && advances_to(*old(self), *final(self), now)
                    && event_between(*old(self), *final(self), e),
                Action::Prev => ev matches Some(e) && retreats_to(*old(self), *final(self), now)
                    && event_between(*old(self), *final(self), e),
            },
    {
        match action {
            Action::Quit => {
                self.stopped = true;
                None
            },
            Action::PlayPause => {
                self.run.toggle_pause(now);
                None
            },
            Action::Next => Some(self.next_timer(now)),
            Action::Prev => Some(self.prev_timer(now)),
        }
    }

    /// The render snapshot: the active timer, elapsed and remaining whole
    /// seconds, the elapsed percentage (0 to 100, clamped), pause state,
    /// cycle count, and one preview row per timer in sequence order.
    pub fn snapshot(&self) -> (s: Snapshot)
        requires
            self.wf(),
        ensures
            s.current_name == self.timers()[self.cursor()].name,
            s.current_duration_secs == self.timers()[self.cursor()].duration_secs,
            s.elapsed_secs == self.run_state().elapsed,
            s.time_left_secs == if self.run_state().elapsed >= self.timers()[self.cursor()].duration_secs {
                0
            } else {
                self.timers()[self.cursor()].duration_secs - self.run_state().elapsed
            },
            s.elapsed_percent == if self.run_state().elapsed >= self.timers()[self.cursor()].duration_secs {
                100
            } else {
                self.run_state().elapsed * 100 / (self.timers()[self.cursor()].duration_secs as int)
            },
            s.paused == self.run_state().paused,
            s.cycles == self.run_state().cycles,
            s.preview@.len() == self.timers().len(),
            forall|i: int|
                0 <= i < self.timers().len() ==> (#[trigger] s.preview@[i]).name
                    == self.timers()[i].name && s.preview@[i].duration_secs
                    == self.timers()[i].duration_secs && (s.preview@[i].is_current <==> i
                    == self.cursor()),
    {
        let current_name = self.current_timer().name.clone();
        let current_duration_secs = self.current_timer().duration_secs;
        let elapsed_secs = self.run.elapsed;
        let time_left_secs = if elapsed_secs >= current_duration_secs {
            0
        } else {
            current_duration_secs - elapsed_secs
        };
        let elapsed_percent = if elapsed_secs >= current_duration_secs {
            100
        } else {
            proof {
                lemma_percent_bound(elapsed_secs as int, current_duration_secs as int);
            }
            ((elapsed_secs as u128) * 100 / (current_duration_secs as u128)) as u64
        };
        let cursor = self.seq.cursor_index();
        let n = self.seq.len();
        let mut preview: Vec<PreviewEntry> = Vec::new();
        let mut i: usize = 0;
        while i < n
            invariant
                self.wf(),
                n == self.timers().len(),
                cursor as int == self.cursor(),
                i <= n,
                preview@.len() == i,
                forall|j: int|
                    0 <= j < i ==> (#[trigger] preview@[j]).name == self.timers()[j].name
                        && preview@[j].duration_secs == self.timers()[j].duration_secs && (
                    preview@[j].is_current <==> j == self.cursor()),
            decreases n - i,
        {
            let t = self.seq.get(i);
            preview.push(
                PreviewEntry {
                    name: t.name.clone(),
                    duration_secs: t.duration_secs,
                    is_current: i == cursor,
                },
            );
            i += 1;
        }
        Snapshot {
            current_name,
            current_duration_secs,
            elapsed_secs,
            time_left_secs,
            elapsed_percent,
            paused: self.run.paused,
            cycles: self.run.cycles,
            preview,
        }
    }
}

/// An unfinished timer is strictly under the hundred-percent mark.
proof fn lemma_percent_bound(e: int, d: int)
    requires
        0 <= e < d,
    ensures
        0 <= e * 100 / d < 100,
{
    vstd::arithmetic::div_mod::lemma_fundamental_div_mod(e * 100, d);
    assert(e * 100 / d < 100) by (nonlinear_arith)
        requires
            0 <= e < d,
            e * 100 == d * (e * 100 / d) + (e * 100) % d,
            0 <= (e * 100) % d < d,
    ;
    assert(e * 100 / d >= 0) by (nonlinear_arith)
        requires
            0 <= e < d,
    ;
}

/// One forward step of the cursor–cycle pair: the cursor wraps cyclically,
/// and the cycle counter counts the wraps, exactly as the advance path
/// does.
pub open spec fn fwd_step(c: int, cy: u64, len: int) -> (int, u64) {
    let c2 = next_cursor(c, len);
    (c2, if c2 == 0 {
        inc_cycles(cy)
    } else {
        cy
    })
}

/// The cursor–cycle pair after `k` forward steps.
pub open spec fn fwd_steps(c: int, cy: u64, len: int, k: nat) -> (int, u64)
    decreases k,
{
    if k == 0 {
        (c, cy)
    } else {
        let p = fwd_steps(c, cy, len, (k - 1) as nat);
        fwd_step(p.0, p.1, len)
    }
}

/// One backward step of the cursor–cycle pair: the cursor wraps cyclically,
/// and crossing the front boundary steps the counter down, clamped at zero,
/// exactly as the retreat path does.
pub open spec fn back_step(c: int, cy: u64, len: int) -> (int, u64) {
    let c2 = prev_cursor(c, len);
    (c2, if c2 == len - 1 {
        dec_cycles(cy)
    } else {
        cy
    })
}

/// The cursor–cycle pair after `k` backward steps.
pub open spec fn back_steps(c: int, cy: u64, len: int, k: nat) -> (int, u64)
    decreases k,
{
    if k == 0 {
        (c, cy)
    } else {
        let p = back_steps(c, cy, len, (k - 1) as nat);
        back_step(p.0, p.1, len)
    }
}

proof fn lemma_fwd_steps_closed(c: int, cy: u64, len: int, k: nat)
    requires
        0 <= c < len,
        k <= len,
        cy < u64::MAX,
    ensures
        fwd_steps(c, cy, len, k) == if c + k < len {
            (c + k, cy)
        } else {
            (c + k - len, (cy + 1) as u64)
        },
    decreases k,
{
    if k > 0 {
        lemma_fwd_steps_closed(c, cy, len, (k - 1) as nat);
    }
}

proof fn lemma_back_steps_closed(c: int, cy: u64, len: int, k: nat)
    requires
        0 <= c < len,
        k <= len,
    ensures
        back_steps(c, cy, len, k) == if k <= c {
            (c - k, cy)
        } else {
            (c - k + len, dec_cycles(cy))
        },
    decreases k,
{
    if k > 0 {
        lemma_back_steps_closed(c, cy, len, (k - 1) as nat);
    }
}

/// The advance path moves the cursor–cycle pair exactly as one forward step
/// of the accounting model does.
pub proof fn lemma_advance_is_fwd_step(pre: Controller, post: Controller, now: u64)
    requires
        advances_to(pre, post, now),
    ensures
        (post.cursor(), post.run_state().cycles) == fwd_step(
            pre.cursor(),
            pre.run_state().cycles,
            pre.timers().len() as int,
        ),
{
}

/// The retreat path moves the cursor–cycle pair exactly as one backward
/// step of the accounting model does.
pub proof fn lemma_retreat_is_back_step(pre: Controller, post: Controller, now: u64)
    requires
        retreats_to(pre, post, now),
        pre.timers().len() > 0,
    ensures
        (post.cursor(), post.run_state().cycles) == back_step(
            pre.cursor(),
            pre.run_state().cycles,
            pre.timers().len() as int,
        ),
{
}

/// Cycle accounting, forward: from any valid cursor, one full forward lap
/// returns the cursor to where it started and moves the cycle counter up
/// by exactly one.
pub proof fn lemma_cycle_accounting_forward(c: int, cy: u64, len: int)
    requires
        0 <= c < len,
        cy < u64::MAX,
    ensures
        fwd_steps(c, cy, len, len as nat) == (c, (cy + 1) as u64),
{
    lemma_fwd_steps_closed(c, cy, len, len as nat);
}

/// Cycle accounting, backward: one full backward lap returns the cursor to
/// where it started and moves the cycle counter down by exactly one,
/// clamped at zero — in particular, retreating with the counter already at
/// zero never makes it negative.
pub proof fn lemma_cycle_accounting_backward(c: int, cy: u64, len: int)
    requires
        0 <= c < len,
    ensures
        back_steps(c, cy, len, len as nat) == (c, dec_cycles(cy)),
{
    lemma_back_steps_closed(c, cy, len, len as nat);
}

} // verus!
