use bevy_modal_editor::scrub::{marker_label, sim_unfrozen, MarkerKind, ScrubMode, ScrubSim, ScrubStep, MAX_SEEK_TICKS};

fn b(x: f32) -> u32 {
    x.to_bits()
}

fn session(mode: ScrubMode, cast_live: bool) -> ScrubSim {
    ScrubSim { mode, cast_live, ..ScrubSim::default() }
}

#[test]
fn a_fresh_session_is_idle_and_uncharged() {
    let s = ScrubSim::default();
    assert_eq!(s.mode, ScrubMode::Idle);
    assert_eq!(s.charge, 85);
    assert!(s.target.is_none() && s.sought.is_none());
    assert!(!s.cast_live && !s.exclusive_running && !s.replay_requested);
    assert_eq!(s.clock, b(0.0));
}

#[test]
fn the_sim_is_frozen_only_while_a_drag_holds_it() {
    assert!(sim_unfrozen(None));
    assert!(sim_unfrozen(Some(&session(ScrubMode::Idle, false))));
    assert!(sim_unfrozen(Some(&session(ScrubMode::Replaying, true))));
    assert!(!sim_unfrozen(Some(&session(ScrubMode::Frozen, true))));
    assert!(!sim_unfrozen(Some(&session(ScrubMode::Seeking, true))));
    let seeking = ScrubSim { exclusive_running: true, ..session(ScrubMode::Seeking, true) };
    assert!(sim_unfrozen(Some(&seeking)));
}

#[test]
fn leaving_editing_ends_the_session() {
    let mut s = ScrubSim { target: Some(b(1.0)), ..session(ScrubMode::Frozen, true) };
    assert_eq!(s.step(false, true, b(10.0), b(0.0)), ScrubStep::EndSession);
    s.end_session();
    assert_eq!(s.mode, ScrubMode::Idle);
    assert!(!s.cast_live);
    assert_eq!(s.target, Some(b(1.0)));

    let mut idle = ScrubSim { cast_live: true, ..ScrubSim::default() };
    idle.end_session();
    assert!(idle.cast_live, "an idle session is left as it is");
}

#[test]
fn nothing_happens_without_an_open_skill_or_a_request() {
    let s = ScrubSim { target: Some(b(1.0)), replay_requested: true, ..ScrubSim::default() };
    assert_eq!(s.step(true, false, b(10.0), b(0.0)), ScrubStep::Stay);
    assert_eq!(ScrubSim::default().step(true, true, b(10.0), b(0.0)), ScrubStep::Stay);
}

#[test]
fn a_replay_request_wins_and_then_runs_on_its_own() {
    let mut s = ScrubSim { replay_requested: true, target: Some(b(2.0)), ..session(ScrubMode::Frozen, true) };
    assert_eq!(s.step(true, true, b(10.0), b(0.0)), ScrubStep::Replay);
    s.restarted(b(1.5));
    s.begin_replay(b(1.5));
    assert_eq!(s.mode, ScrubMode::Replaying);
    assert!(!s.replay_requested);
    assert_eq!(s.end, b(1.5));
    assert_eq!(s.target, None);
    assert_eq!(s.step(true, true, b(10.0), b(0.0)), ScrubStep::Stay);
}

#[test]
fn the_first_drag_restarts_and_seeks() {
    let s = ScrubSim { target: Some(b(0.75)), ..ScrubSim::default() };
    assert_eq!(s.step(true, true, b(10.0), b(-0.0001)), ScrubStep::Seek { target: b(0.75), restart: true });
}

#[test]
fn holding_still_does_not_seek_again() {
    let s = ScrubSim { target: Some(b(0.75)), sought: Some(b(0.75)), clock: b(0.76), ..session(ScrubMode::Frozen, true) };
    assert_eq!(s.step(true, true, b(10.0), b(0.7599)), ScrubStep::Stay);
}

#[test]
fn forward_drags_continue_and_backward_drags_restart() {
    let at = |clock: f32, target: f32| ScrubSim {
        target: Some(b(target)),
        sought: Some(b(clock)),
        clock: b(clock),
        ..session(ScrubMode::Frozen, true)
    };
    let forward = at(1.0, 1.5);
    assert_eq!(forward.step(true, true, b(10.0), b(1.0 - 1e-4)), ScrubStep::Seek { target: b(1.5), restart: false });
    let backward = at(1.0, 0.5);
    assert_eq!(backward.step(true, true, b(10.0), b(1.0 - 1e-4)), ScrubStep::Seek { target: b(0.5), restart: true });
}

#[test]
fn requests_are_clamped_to_the_seekable_range() {
    let past = ScrubSim { target: Some(b(42.0)), ..session(ScrubMode::Frozen, true) };
    assert_eq!(past.step(true, true, b(11.5), b(0.0)), ScrubStep::Seek { target: b(11.5), restart: false });
    let before = ScrubSim { target: Some(b(-3.0)), ..session(ScrubMode::Frozen, true) };
    assert_eq!(before.step(true, true, b(11.5), b(0.0)), ScrubStep::Seek { target: b(0.0), restart: false });
}

#[test]
fn a_seek_runs_until_the_clock_reaches_the_target_then_freezes() {
    let mut s = session(ScrubMode::Frozen, true);
    s.begin_seek(b(0.04));
    assert_eq!(s.mode, ScrubMode::Seeking);
    assert!(s.exclusive_running);
    assert_eq!(s.sought, Some(b(0.04)));
    let mut ticks: u32 = 0;
    while s.seek_continues(b(0.04), ticks) {
        let next = f32::from_bits(s.clock) + 1.0 / 60.0;
        s.tick_clock(b(next));
        ticks += 1;
    }
    assert_eq!(ticks, 3);
    s.finish_seek();
    assert_eq!(s.mode, ScrubMode::Frozen);
    assert!(!s.exclusive_running);
    assert!(!s.seek_continues(b(100.0), MAX_SEEK_TICKS));
}

#[test]
fn a_replay_freezes_the_tick_it_reaches_its_end() {
    let mut s = ScrubSim { end: b(1.0), clock: b(0.9), ..session(ScrubMode::Replaying, true) };
    s.tick_clock(b(0.95));
    assert_eq!(s.mode, ScrubMode::Replaying);
    s.tick_clock(b(1.0));
    assert_eq!(s.mode, ScrubMode::Frozen);
    assert_eq!(s.clock, b(1.0));

    let mut dead = ScrubSim { clock: b(0.5), ..session(ScrubMode::Replaying, false) };
    dead.tick_clock(b(0.6));
    assert_eq!(dead.clock, b(0.5));
}

#[test]
fn a_restart_resets_the_clock_and_the_strip_end() {
    let mut s = ScrubSim { clock: b(3.0), sought: Some(b(3.0)), dynamic_end: b(4.0), ..session(ScrubMode::Frozen, false) };
    s.restarted(b(1.25));
    assert_eq!(s.clock, b(0.0));
    assert!(s.cast_live);
    assert_eq!(s.sought, None);
    assert_eq!(s.dynamic_end, b(1.25));
}

#[test]
fn the_strip_end_grows_with_live_sub_casts_up_to_the_cap() {
    let mut s = ScrubSim { clock: b(2.0), dynamic_end: b(1.5), ..session(ScrubMode::Frozen, true) };
    s.extend_dynamic_end(false, true, b(11.5));
    assert_eq!(s.dynamic_end, b(1.5), "nothing alive: unchanged");
    s.extend_dynamic_end(true, true, b(11.5));
    assert_eq!(s.dynamic_end, b(2.0));
    s.clock = b(20.0);
    s.extend_dynamic_end(true, true, b(11.5));
    assert_eq!(s.dynamic_end, b(11.5), "capped");
    s.clock = b(5.0);
    s.extend_dynamic_end(true, true, b(11.5));
    assert_eq!(s.dynamic_end, b(11.5), "never shrinks");
}

#[test]
fn strip_markers_name_their_moment() {
    assert_eq!(marker_label(MarkerKind::WindowOpened), "window opened");
    assert_eq!(marker_label(MarkerKind::Hit), "hit");
    assert_eq!(marker_label(MarkerKind::Ended), "window ended");
    assert_eq!(marker_label(MarkerKind::Trigger), "trigger fired");
}
