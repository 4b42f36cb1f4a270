use pomotimer::cli::Cli;
use pomotimer::codec::ParseError;
use pomotimer::controller::Controller;
use pomotimer::keymap::{Action, Keymaps};
use pomotimer::runstate::RunState;
use pomotimer::timer::{ConfigError, Timer, build_timers};

fn work_break_cli(cycles: u64) -> Cli {
    Cli {
        tick: 1000,
        names: vec![String::from("Work"), String::from("Break")],
        durations: vec![String::from("25m"), String::from("5m")],
        cycles,
        no_notify: false,
    }
}

#[test]
fn timer_new_validates() {
    let t = Timer::new(String::from("Work"), "25m").unwrap();
    assert_eq!(t.name, "Work");
    assert_eq!(t.duration_secs, 1500);

    let r = Timer::new(String::from("Work"), "0s");
    assert!(matches!(r, Err(ConfigError::ZeroDuration { ref name }) if name == "Work"));

    let r = Timer::new(String::from("Work"), "xyz");
    assert!(matches!(
        r,
        Err(ConfigError::InvalidDuration { ref name, ref text, cause })
            if name == "Work" && text == "xyz" && cause == ParseError::NoUnitsFound
    ));
}

#[test]
fn build_timers_reports_first_failure() {
    let names = vec![String::from("A"), String::from("B")];
    let durations = vec![String::from("1m")];
    assert!(matches!(build_timers(&names, &durations), Err(ConfigError::LengthMismatch)));

    let durations = vec![String::from("1m"), String::from("5q")];
    assert!(matches!(
        build_timers(&names, &durations),
        Err(ConfigError::InvalidDuration { ref name, .. }) if name == "B"
    ));

    let durations = vec![String::from("1m"), String::from("5m")];
    let ts = build_timers(&names, &durations).unwrap();
    assert_eq!(ts.len(), 2);
    assert_eq!(ts[1].duration_secs, 300);
}

#[test]
fn controller_new_over_prebuilt_timers() {
    let timers = vec![
        Timer::new(String::from("A"), "1m").unwrap(),
        Timer::new(String::from("B"), "2m").unwrap(),
    ];
    let c = Controller::new(timers, 3, 0).unwrap();
    let s = c.snapshot();
    assert_eq!(s.current_name, "A");
    assert_eq!(s.current_duration_secs, 60);
    assert_eq!(s.cycles, 0);
    assert!(!c.is_stopped());

    assert!(matches!(Controller::new(Vec::new(), 0, 0), Err(ConfigError::Empty)));
}

#[test]
fn from_cli_rejects_empty() {
    let cli = Cli { tick: 1000, names: vec![], durations: vec![], cycles: 0, no_notify: true };
    assert!(matches!(Controller::from_cli(&cli, 0), Err(ConfigError::Empty)));
}

#[test]
fn run_state_pause_freezes_time() {
    let mut rs = RunState::new(0, 100);
    rs.tick(105);
    assert_eq!(rs.elapsed, 5);
    rs.pause();
    // However much wall-clock time passes while paused, elapsed stays put.
    rs.tick(200);
    assert_eq!(rs.elapsed, 5);
    rs.tick(100_000);
    assert_eq!(rs.elapsed, 5);
    // Resuming and waiting twelve more seconds yields five plus twelve.
    rs.resume(200);
    rs.tick(212);
    assert_eq!(rs.elapsed, 17);
}

#[test]
fn run_state_cycle_clamp() {
    let mut rs = RunState::new(0, 0);
    rs.bump_cycle(-1);
    assert_eq!(rs.cycles, 0);
    rs.bump_cycle(1);
    rs.bump_cycle(1);
    assert_eq!(rs.cycles, 2);
    rs.bump_cycle(-1);
    assert_eq!(rs.cycles, 1);
}

#[test]
fn run_state_limit() {
    let mut rs = RunState::new(2, 0);
    assert!(!rs.limit_reached());
    rs.bump_cycle(1);
    assert!(!rs.limit_reached());
    rs.bump_cycle(1);
    assert!(rs.limit_reached());
    // Zero means unbounded.
    let rs = RunState::new(0, 0);
    assert!(!rs.limit_reached());
}

#[test]
fn tick_before_completion_only_accumulates() {
    let cli = work_break_cli(0);
    let mut c = Controller::from_cli(&cli, 0).unwrap();
    assert!(c.tick(10).is_none());
    let s = c.snapshot();
    assert_eq!(s.elapsed_secs, 10);
    assert_eq!(s.time_left_secs, 1490);
    assert!(!c.is_stopped());
}

#[test]
fn tick_at_completion_advances_and_reports() {
    let cli = work_break_cli(0);
    let mut c = Controller::from_cli(&cli, 0).unwrap();
    let ev = c.tick(1500).unwrap();
    assert_eq!(ev.prev_name, "Work");
    assert_eq!(ev.prev_duration_secs, 1500);
    assert_eq!(ev.next_name, "Break");
    assert_eq!(ev.next_duration_secs, 300);
    let s = c.snapshot();
    assert_eq!(s.current_name, "Break");
    assert_eq!(s.elapsed_secs, 0);
    assert_eq!(s.cycles, 0);
}

#[test]
fn cycle_limit_stops_on_the_completing_lap() {
    // Two timers, limit two: the fourth completion ends the second lap and
    // stops the machine; no earlier completion does.
    let cli = work_break_cli(2);
    let mut c = Controller::from_cli(&cli, 0).unwrap();
    let mut now = 0u64;

    now += 1500;
    let ev = c.tick(now).unwrap();
    assert_eq!(ev.prev_name, "Work");
    assert!(!c.is_stopped());
    assert_eq!(c.snapshot().cycles, 0);

    now += 300;
    let ev = c.tick(now).unwrap();
    assert_eq!(ev.prev_name, "Break");
    assert!(!c.is_stopped());
    assert_eq!(c.snapshot().cycles, 1);

    now += 1500;
    c.tick(now).unwrap();
    assert!(!c.is_stopped());

    now += 300;
    let ev = c.tick(now).unwrap();
    assert_eq!(ev.prev_name, "Break");
    assert_eq!(c.snapshot().cycles, 2);
    assert!(c.is_stopped());

    // A stopped machine no longer moves.
    assert!(c.tick(now + 5000).is_none());
}

#[test]
fn end_to_end_work_break_one_cycle() {
    // Work 25m, Break 5m, limit one: Work completes into Break with no
    // cycle bump, then Break completes into Work, the lap ends, the counter
    // reaches the limit and the machine stops.
    let cli = work_break_cli(1);
    let mut c = Controller::from_cli(&cli, 0).unwrap();

    let ev = c.tick(1500).expect("first completion");
    assert_eq!(ev.prev_name, "Work");
    assert_eq!(ev.next_name, "Break");
    assert_eq!(c.snapshot().cycles, 0);
    assert!(!c.is_stopped());

    let ev = c.tick(1800).expect("second completion");
    assert_eq!(ev.prev_name, "Break");
    assert_eq!(ev.next_name, "Work");
    assert_eq!(c.snapshot().cycles, 1);
    assert!(c.is_stopped());
}

#[test]
fn manual_next_matches_natural_completion() {
    let cli = work_break_cli(0);
    let mut c = Controller::from_cli(&cli, 0).unwrap();
    let ev = c.handle_action(Action::Next, 7).unwrap();
    assert_eq!(ev.prev_name, "Work");
    assert_eq!(ev.next_name, "Break");
    let s = c.snapshot();
    assert_eq!(s.current_name, "Break");
    assert_eq!(s.elapsed_secs, 0);
    assert_eq!(s.cycles, 0);
}

#[test]
fn prev_decrements_cycles_clamped_at_zero() {
    let cli = work_break_cli(0);
    let mut c = Controller::from_cli(&cli, 0).unwrap();
    // Retreat from the very first position of lap zero: wraps to the last
    // timer, and the counter stays at zero.
    let ev = c.handle_action(Action::Prev, 3).unwrap();
    assert_eq!(ev.prev_name, "Work");
    assert_eq!(ev.next_name, "Break");
    assert_eq!(c.snapshot().cycles, 0);

    // A full forward lap bumps to one; retreating across the front boundary
    // takes it back to zero.
    c.handle_action(Action::Next, 4).unwrap();
    assert_eq!(c.snapshot().cycles, 1);
    c.handle_action(Action::Prev, 5).unwrap();
    assert_eq!(c.snapshot().cycles, 0);
}

#[test]
fn quit_stops_from_any_state() {
    let cli = work_break_cli(0);
    let mut c = Controller::from_cli(&cli, 0).unwrap();
    assert!(c.handle_action(Action::Quit, 1).is_none());
    assert!(c.is_stopped());
}

#[test]
fn play_pause_toggles_and_freezes() {
    let cli = work_break_cli(0);
    let mut c = Controller::from_cli(&cli, 0).unwrap();
    c.tick(10);
    assert!(c.handle_action(Action::PlayPause, 10).is_none());
    assert!(c.is_paused());
    // Ticks while paused change nothing, even past the timer's duration.
    assert!(c.tick(100_000).is_none());
    assert_eq!(c.snapshot().elapsed_secs, 10);
    c.handle_action(Action::PlayPause, 50);
    assert!(!c.is_paused());
    c.tick(55);
    assert_eq!(c.snapshot().elapsed_secs, 15);
}

#[test]
fn snapshot_preview_and_percent() {
    let cli = work_break_cli(0);
    let mut c = Controller::from_cli(&cli, 0).unwrap();
    c.tick(150);
    let s = c.snapshot();
    assert_eq!(s.current_duration_secs, 1500);
    assert_eq!(s.elapsed_percent, 10);
    assert!(!s.paused);
    assert_eq!(s.preview.len(), 2);
    assert_eq!(s.preview[0].name, "Work");
    assert!(s.preview[0].is_current);
    assert_eq!(s.preview[1].name, "Break");
    assert_eq!(s.preview[1].duration_secs, 300);
    assert!(!s.preview[1].is_current);
}

#[test]
fn single_timer_wraps_every_completion() {
    let cli = Cli {
        tick: 1000,
        names: vec![String::from("Solo")],
        durations: vec![String::from("10s")],
        cycles: 0,
        no_notify: true,
    };
    let mut c = Controller::from_cli(&cli, 0).unwrap();
    let ev = c.tick(10).unwrap();
    assert_eq!(ev.prev_name, "Solo");
    assert_eq!(ev.next_name, "Solo");
    assert_eq!(c.snapshot().cycles, 1);
    let _ = c.tick(25).unwrap();
    assert_eq!(c.snapshot().cycles, 2);
}

#[test]
fn default_keymap_resolves() {
    let km = Keymaps::default();
    assert_eq!(km.resolve('q'), Some(Action::Quit));
    assert_eq!(km.resolve('['), Some(Action::Prev));
    assert_eq!(km.resolve(']'), Some(Action::Next));
    assert_eq!(km.resolve('p'), Some(Action::PlayPause));
    assert_eq!(km.resolve(' '), Some(Action::PlayPause));
    assert_eq!(km.resolve('x'), None);
    let listed = km.bindings();
    assert_eq!(listed.len(), 5);
    assert_eq!(listed[0], ('q', Action::Quit));
    assert_eq!(listed[4], (' ', Action::PlayPause));
}

#[test]
fn custom_keymap_takes_first_binding() {
    let km = Keymaps::from_bindings(vec![('j', Action::Next), ('j', Action::Prev)]);
    assert_eq!(km.resolve('j'), Some(Action::Next));
    assert_eq!(km.resolve('q'), None);
}
