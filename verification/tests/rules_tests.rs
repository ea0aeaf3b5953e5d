use flappy_rust::rules::{
    CollectibleKind, Cues, Hud, FrameInput, FrameStart, FrameStep, PassQuality, PowerKind, RunState,
    BOOST_MULTIPLIER, CLOSE_BONUS, MAX_COMBO_BONUS, MAX_FLOW, STAR_BASE_SCORE,
};

fn keys(toggle_mute: bool, toggle_pause: bool, restart: bool, flap: bool) -> FrameInput {
    FrameInput { toggle_mute, toggle_pause, restart, flap }
}

fn idle() -> FrameInput {
    keys(false, false, false, false)
}

fn running_state() -> RunState {
    let mut state = RunState::new();
    let start = state.begin_frame(keys(false, false, false, true));
    assert_eq!(start.step, FrameStep::Waiting { launched: true });
    state.end_frame();
    assert_eq!(state.begin_frame(idle()).step, FrameStep::Running);
    state
}

#[test]
fn constants_match_the_game() {
    assert_eq!(STAR_BASE_SCORE, 2);
    assert_eq!(MAX_COMBO_BONUS, 6);
    assert_eq!(MAX_FLOW, 9);
    assert_eq!(BOOST_MULTIPLIER, 2);
    assert_eq!(CLOSE_BONUS, 1);
}

#[test]
fn new_run_waits_for_a_flap() {
    let mut state = RunState::new();
    assert!(!state.started());
    assert!(!state.paused());
    assert!(!state.game_over());
    assert!(!state.muted());
    assert_eq!(state.score(), 0);
    assert_eq!(state.power(), None);
    let start = state.begin_frame(idle());
    assert_eq!(start, FrameStart { mute_changed: false, step: FrameStep::Waiting { launched: false } });
    assert!(!state.started());
    let start = state.begin_frame(keys(false, false, false, true));
    assert_eq!(start.step, FrameStep::Waiting { launched: true });
    assert!(state.started());
}

#[test]
fn pause_freezes_and_resumes() {
    let mut state = running_state();
    assert_eq!(state.begin_frame(keys(false, true, false, false)).step, FrameStep::Frozen);
    assert!(state.paused());
    assert_eq!(state.begin_frame(keys(false, false, false, true)).step, FrameStep::Frozen);
    assert_eq!(state.begin_frame(keys(false, true, false, false)).step, FrameStep::Running);
    assert!(!state.paused());
}

#[test]
fn pause_is_ignored_after_game_over() {
    let mut state = running_state();
    state.hit_ground();
    state.end_frame();
    assert_eq!(state.begin_frame(keys(false, true, false, false)).step, FrameStep::Over);
    assert!(!state.paused());
}

#[test]
fn mute_toggles_and_is_reported() {
    let mut state = running_state();
    let start = state.begin_frame(keys(true, false, false, false));
    assert!(start.mute_changed);
    assert!(state.muted());
    let start = state.begin_frame(keys(true, false, false, false));
    assert!(start.mute_changed);
    assert!(!state.muted());
}

#[test]
fn restart_only_after_game_over() {
    let mut state = running_state();
    state.pass_pipe(PassQuality::Plain, false);
    state.end_frame();
    assert_eq!(state.begin_frame(keys(false, false, true, false)).step, FrameStep::Running);
    assert_eq!(state.score(), 1);
    state.hit_ground();
    state.end_frame();
    assert!(state.game_over());
    assert_eq!(state.begin_frame(idle()).step, FrameStep::Over);
    let start = state.begin_frame(keys(true, false, true, false));
    assert_eq!(start.step, FrameStep::Restart);
    assert!(!state.game_over());
    assert!(!state.started());
    assert_eq!(state.score(), 0);
    assert_eq!(state.flow(), 0);
    assert!(state.muted());
}

#[test]
fn plain_pass_scores_one() {
    let mut state = running_state();
    assert_eq!(state.pass_pipe(PassQuality::Plain, false), 1);
    assert_eq!(state.flow(), 0);
    let cues = state.end_frame();
    assert_eq!(cues, Cues { flap: false, score: true, game_over: false });
    assert_eq!(state.score(), 1);
}

#[test]
fn perfect_passes_build_flow() {
    let mut state = running_state();
    let mut earned = Vec::new();
    for _ in 0..12 {
        earned.push(state.pass_pipe(PassQuality::Perfect, false));
    }
    // Flow 1..9 then stays at 9: bonus 1 + flow / 3.
    assert_eq!(earned, vec![2, 2, 3, 3, 3, 4, 4, 4, 5, 5, 5, 5]);
    assert_eq!(state.flow(), 9);
    state.end_frame();
    assert_eq!(state.score(), 45);
    state.pass_pipe(PassQuality::Plain, false);
    assert_eq!(state.flow(), 0);
}

#[test]
fn close_call_scores_extra() {
    let mut state = running_state();
    assert_eq!(state.pass_pipe(PassQuality::Close, false), 2);
    assert_eq!(state.pass_pipe(PassQuality::Close, true), 4);
    assert_eq!(state.flow(), 0);
    state.end_frame();
    assert_eq!(state.score(), 6);
}

#[test]
fn boost_doubles_pass_points() {
    let mut state = running_state();
    assert_eq!(state.pass_pipe(PassQuality::Plain, true), 2);
    assert_eq!(state.pass_pipe(PassQuality::Perfect, true), 4);
}

#[test]
fn stars_build_a_combo() {
    let mut state = running_state();
    state.collect(CollectibleKind::Star, false, false);
    assert_eq!(state.combo_count(), 1);
    state.end_frame();
    assert_eq!(state.score(), 3);
    let mut total = 3;
    for expected_combo in 2..=9u32 {
        state.collect(CollectibleKind::Star, true, false);
        assert_eq!(state.combo_count(), expected_combo);
        total += 2 + expected_combo.min(6);
    }
    state.end_frame();
    assert_eq!(state.score(), total);
    state.expire_combo();
    assert_eq!(state.combo_count(), 0);
    state.collect(CollectibleKind::Star, false, true);
    assert_eq!(state.combo_count(), 1);
    state.end_frame();
    assert_eq!(state.score(), total + 6);
}

#[test]
fn power_ups_replace_each_other_and_expire() {
    let mut state = running_state();
    state.collect(CollectibleKind::Feather, false, false);
    assert_eq!(state.power(), Some(PowerKind::Feather));
    state.collect(CollectibleKind::Shield, false, true);
    assert_eq!(state.power(), Some(PowerKind::Shield));
    state.expire_power();
    assert_eq!(state.power(), None);
    state.end_frame();
    assert_eq!(state.score(), 3);
}

#[test]
fn boost_orb_is_worth_two() {
    let mut state = running_state();
    state.collect(CollectibleKind::Boost, false, false);
    state.end_frame();
    assert_eq!(state.score(), 2);
    assert_eq!(state.power(), None);
}

#[test]
fn shield_absorbs_one_hit() {
    let mut state = running_state();
    state.collect(CollectibleKind::Shield, false, false);
    assert!(state.hit_pipe());
    assert!(!state.game_over());
    assert_eq!(state.power(), None);
    assert!(!state.hit_pipe());
    assert!(state.game_over());
    let cues = state.end_frame();
    assert!(cues.game_over);
}

#[test]
fn feather_does_not_protect() {
    let mut state = running_state();
    state.collect(CollectibleKind::Feather, false, false);
    assert!(!state.hit_pipe());
    assert!(state.game_over());
    assert_eq!(state.power(), Some(PowerKind::Feather));
}

#[test]
fn muted_frames_are_silent() {
    let mut state = running_state();
    state.begin_frame(keys(true, false, false, false));
    state.flap();
    state.pass_pipe(PassQuality::Plain, false);
    state.hit_ground();
    let cues = state.end_frame();
    assert_eq!(cues, Cues { flap: false, score: false, game_over: false });
    assert_eq!(state.score(), 1);
}

#[test]
fn cues_are_cleared_each_frame() {
    let mut state = running_state();
    state.flap();
    let cues = state.end_frame();
    assert_eq!(cues, Cues { flap: true, score: false, game_over: false });
    let cues = state.end_frame();
    assert_eq!(cues, Cues { flap: false, score: false, game_over: false });
}

#[test]
fn paused_frame_keeps_score_and_flow() {
    let mut state = running_state();
    state.pass_pipe(PassQuality::Perfect, false);
    state.end_frame();
    state.begin_frame(keys(false, true, false, false));
    assert_eq!(state.score(), 2);
    assert_eq!(state.flow(), 1);
    assert_eq!(state.begin_frame(keys(false, false, true, true)).step, FrameStep::Frozen);
    assert_eq!(state.score(), 2);
    assert_eq!(state.flow(), 1);
}

#[test]
fn launching_flap_is_heard_unless_muted() {
    let mut state = RunState::new();
    state.begin_frame(keys(false, false, false, true));
    assert_eq!(state.end_frame(), Cues { flap: true, score: false, game_over: false });
    assert_eq!(state.score(), 0);

    let mut muted = RunState::new();
    let start = muted.begin_frame(keys(true, false, false, true));
    assert_eq!(start.step, FrameStep::Waiting { launched: true });
    assert!(muted.muted());
    assert_eq!(muted.end_frame(), Cues { flap: false, score: false, game_over: false });
}

#[test]
fn waiting_without_flap_is_silent() {
    let mut state = RunState::new();
    state.begin_frame(idle());
    assert_eq!(state.end_frame(), Cues { flap: false, score: false, game_over: false });
}

#[test]
fn hud_follows_the_run() {
    let mut state = RunState::new();
    let hud = state.hud(false);
    assert_eq!(
        hud,
        Hud {
            combo: false,
            flow: false,
            offer_resume: false,
            offer_unmute: false,
            start_banner: true,
            paused_banner: false,
            game_over_banner: false,
            in_flight: false,
            trail_active: false,
            flow_ring: false,
        }
    );
    state.begin_frame(keys(true, false, false, true));
    state.begin_frame(idle());
    state.pass_pipe(PassQuality::Perfect, false);
    state.collect(CollectibleKind::Star, false, false);
    state.collect(CollectibleKind::Star, true, false);
    let hud = state.hud(true);
    assert!(hud.combo && hud.flow && hud.offer_unmute && hud.in_flight && hud.trail_active);
    assert!(hud.flow_ring && !hud.start_banner && !hud.game_over_banner);
    assert!(!state.hud(false).combo);
    state.begin_frame(keys(false, true, false, false));
    assert!(state.hud(true).offer_resume && state.hud(true).paused_banner);
    state.begin_frame(keys(false, true, false, false));
    state.hit_ground();
    let hud = state.hud(true);
    assert!(hud.game_over_banner && !hud.trail_active && !hud.flow_ring && hud.flow);
}

#[test]
fn finished_run_was_started_and_is_unpaused() {
    let mut state = running_state();
    state.hit_ground();
    state.end_frame();
    for input in [keys(false, true, false, false), keys(true, false, false, true), idle()] {
        state.begin_frame(input);
        assert!(state.game_over() && state.started() && !state.paused());
    }
}

#[test]
fn score_never_falls_within_a_run() {
    let mut state = running_state();
    let mut last = state.score();
    for round in 0..30u32 {
        state.begin_frame(idle());
        match round % 5 {
            0 => {
                state.pass_pipe(PassQuality::Perfect, round % 2 == 0);
            }
            1 => state.collect(CollectibleKind::Star, round % 3 != 0, false),
            2 => state.expire_combo(),
            3 => {
                state.pass_pipe(PassQuality::Close, true);
            }
            _ => state.collect(CollectibleKind::Boost, false, false),
        }
        state.end_frame();
        assert!(state.score() >= last);
        last = state.score();
    }
}
