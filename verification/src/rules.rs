//! The discrete rules of a run: the start / pause / game-over / mute modes,
//! scoring (pipe passes, Flow, close calls, star combos, boost), power-ups
//! (feather, one-hit shield), and which sound cues a frame asks for.
//!
//! Positions, velocities and timers are continuous quantities that the game
//! loop keeps itself; it reports what they decided (a pipe was passed
//! perfectly, the combo window is still open, a boost is running, the plane
//! touched a pipe) to a [`RunState`], which applies the rules.
use vstd::prelude::*;

verus! {

/// Points a star is worth before its combo bonus.
pub const STAR_BASE_SCORE: u32 = 2;

/// The largest combo bonus a star can add.
pub const MAX_COMBO_BONUS: u32 = 6;

/// The largest Flow level.
pub const MAX_FLOW: u32 = 9;

/// Factor applied to points earned while a boost is running.
pub const BOOST_MULTIPLIER: u32 = 2;

/// Extra points (before the boost factor) for a close call.
pub const CLOSE_BONUS: u32 = 1;

/// A power-up that lasts a while.
#[derive(Clone, Copy, Debug, PartialEq, Eq, Structural)]
pub enum PowerKind {
    /// Lower gravity.
    Feather,
    /// Absorbs one pipe hit.
    Shield,
}

/// What a collectible is.
#[derive(Clone, Copy, Debug, PartialEq, Eq, Structural)]
pub enum CollectibleKind {
    Star,
    Feather,
    Shield,
    Boost,
}

/// How close to the centre of the gap the plane passed a pipe.
#[derive(Clone, Copy, Debug, PartialEq, Eq, Structural)]
pub enum PassQuality {
    /// Within the perfect zone around the gap's centre.
    Perfect,
    /// Near the gap's edge.
    Close,
    /// Anywhere else.
    Plain,
}

/// The keys and buttons pressed this frame.
#[derive(Clone, Copy, Debug, PartialEq, Eq, Structural)]
pub struct FrameInput {
    pub toggle_mute: bool,
    pub toggle_pause: bool,
    pub restart: bool,
    pub flap: bool,
}

/// What the rest of the frame does.
#[derive(Clone, Copy, Debug, PartialEq, Eq, Structural)]
pub enum FrameStep {
    /// The run was restarted: the game loop resets the world and the frame ends.
    Restart,
    /// Paused: nothing moves.
    Frozen,
    /// Not started yet; `launched` when this frame's flap starts the run (the
    /// game loop then gives the plane its flap velocity and ends the frame,
    /// which asks for the flap sound unless muted).
    Waiting { launched: bool },
    /// The run is over; nothing moves until a restart.
    Over,
    /// The world advances.
    Running,
}

/// How a frame begins.
#[derive(Clone, Copy, Debug, PartialEq, Eq, Structural)]
pub struct FrameStart {
    /// The mute key was pressed: the audio volume must follow [`RunState::muted`].
    pub mute_changed: bool,
    pub step: FrameStep,
}

/// The sounds a frame asks to play.
#[derive(Clone, Copy, Debug, PartialEq, Eq, Structural)]
pub struct Cues {
    pub flap: bool,
    pub score: bool,
    pub game_over: bool,
}

/// What the heads-up display shows.
#[derive(Clone, Copy, Debug, PartialEq, Eq, Structural)]
pub struct Hud {
    /// The `Combo xN` counter.
    pub combo: bool,
    /// The `Flow xN` counter.
    pub flow: bool,
    /// The pause hint offers to resume (`P: Resume`) rather than to pause.
    pub offer_resume: bool,
    /// The mute hint offers to unmute (`M: Unmute`, highlighted) rather than to mute.
    pub offer_unmute: bool,
    /// The how-to-play banner of a run that has not started.
    pub start_banner: bool,
    /// The paused banner.
    pub paused_banner: bool,
    /// The game-over banner.
    pub game_over_banner: bool,
    /// The plane wobbles less, as in flight, once the run has started.
    pub in_flight: bool,
    /// The plane's trail is at full strength (a started run that is not over).
    pub trail_active: bool,
    /// The Flow ring around the plane (Flow above 0 in a run that is not over).
    pub flow_ring: bool,
}

/// The abstract state of a run.
pub struct RunView {
    pub started: bool,
    pub paused: bool,
    pub game_over: bool,
    pub muted: bool,
    pub score: u32,
    pub flow: u32,
    pub combo_count: u32,
    pub power: Option<PowerKind>,
    /// Points earned this frame, added to the score when the frame ends.
    pub pending: u32,
    /// Sounds requested this frame.
    pub cues: Cues,
}

/// `a + b`, capped at `u32::MAX`.
pub open spec fn sat_add(a: int, b: int) -> u32 {
    if a + b > u32::MAX {
        u32::MAX
    } else {
        (a + b) as u32
    }
}

/// `a * b`, capped at `u32::MAX`.
pub open spec fn sat_mul(a: int, b: int) -> u32 {
    if a * b > u32::MAX {
        u32::MAX
    } else {
        (a * b) as u32
    }
}

/// The factor applied to points while a boost is (or is not) running.
pub open spec fn multiplier(boosted: bool) -> u32 {
    if boosted {
        BOOST_MULTIPLIER
    } else {
        1
    }
}

/// No sounds.
pub open spec fn no_cues() -> Cues {
    Cues { flap: false, score: false, game_over: false }
}

/// The Flow level after passing a pipe with `quality`.
pub open spec fn flow_after(flow: u32, quality: PassQuality) -> u32 {
    if quality == PassQuality::Perfect {
        if flow + 1 < MAX_FLOW {
            (flow + 1) as u32
        } else {
            MAX_FLOW
        }
    } else {
        0
    }
}

/// The points for passing a pipe (close-call bonus excluded), given the Flow
/// level reached by the pass.
pub open spec fn pass_points(new_flow: u32, quality: PassQuality, boosted: bool) -> u32 {
    let flow_bonus: int = if quality == PassQuality::Perfect {
        1 + new_flow / 3
    } else {
        0
    };
    sat_mul(1 + flow_bonus, multiplier(boosted) as int)
}

/// The extra points a close call adds.
pub open spec fn close_points(quality: PassQuality, boosted: bool) -> u32 {
    if quality == PassQuality::Close {
        sat_mul(CLOSE_BONUS as int, multiplier(boosted) as int)
    } else {
        0
    }
}

/// The combo count after picking up a star.
pub open spec fn combo_after_star(combo_count: u32, combo_active: bool) -> u32 {
    if combo_active {
        sat_add(combo_count as int, 1)
    } else {
        1
    }
}

/// The points for a star, given the combo count it reached.
pub open spec fn star_points(new_combo: u32, boosted: bool) -> u32 {
    let bonus: int = if new_combo < MAX_COMBO_BONUS {
        new_combo as int
    } else {
        MAX_COMBO_BONUS as int
    };
    sat_mul(STAR_BASE_SCORE + bonus, multiplier(boosted) as int)
}

/// The points for a collectible other than a star. A boost orb counts as
/// boosted since it starts the boost it is worth.
pub open spec fn pickup_points(kind: CollectibleKind, boosted: bool) -> u32 {
    if kind == CollectibleKind::Boost {
        sat_mul(1, BOOST_MULTIPLIER as int)
    } else {
        sat_mul(1, multiplier(boosted) as int)
    }
}

impl RunView {
    /// Whether the modes agree: a finished run was started and is not paused.
    pub open spec fn consistent(self) -> bool {
        self.game_over ==> self.started && !self.paused
    }

    /// The state of a fresh run with the given mute setting.
    pub open spec fn fresh(muted: bool) -> RunView {
        RunView {
            started: false,
            paused: false,
            game_over: false,
            muted,
            score: 0,
            flow: 0,
            combo_count: 0,
            power: None,
            pending: 0,
            cues: no_cues(),
        }
    }

    /// The state after the start of a frame with `input`.
    pub open spec fn begun(self, input: FrameInput) -> RunView {
        let muted = if input.toggle_mute {
            !self.muted
        } else {
            self.muted
        };
        let paused = if input.toggle_pause && !self.game_over {
            !self.paused
        } else {
            self.paused
        };
        if input.restart && self.game_over {
            RunView::fresh(muted)
        } else {
            let launching = !paused && !self.started && input.flap;
            let started = if launching {
                true
            } else {
                self.started
            };
            let cues = if launching {
                Cues { flap: true, ..no_cues() }
            } else {
                no_cues()
            };
            RunView { muted, paused, started, pending: 0, cues, ..self }
        }
    }

    /// What the rest of a frame with `input` does.
    pub open spec fn step(self, input: FrameInput) -> FrameStep {
        let paused = if input.toggle_pause && !self.game_over {
            !self.paused
        } else {
            self.paused
        };
        if input.restart && self.game_over {
            FrameStep::Restart
        } else if paused {
            FrameStep::Frozen
        } else if !self.started {
            FrameStep::Waiting { launched: input.flap }
        } else if self.game_over {
            FrameStep::Over
        } else {
            FrameStep::Running
        }
    }

    /// The state after a flap while running.
    pub open spec fn flapped(self) -> RunView {
        RunView { cues: Cues { flap: true, ..self.cues }, ..self }
    }

    /// The state after the plane hits the ground.
    pub open spec fn grounded(self) -> RunView {
        RunView { game_over: true, cues: Cues { game_over: true, ..self.cues }, ..self }
    }

    /// Whether a pipe hit is absorbed by a shield.
    pub open spec fn shielded(self) -> bool {
        self.power == Some(PowerKind::Shield)
    }

    /// The state after the plane touches a pipe: a shield is used up, or the
    /// run is over.
    pub open spec fn hit(self) -> RunView {
        if self.shielded() {
            RunView { power: None, ..self }
        } else {
            self.grounded()
        }
    }

    /// The state after passing a pipe with `quality`.
    pub open spec fn passed(self, quality: PassQuality, boosted: bool) -> RunView {
        let flow = flow_after(self.flow, quality);
        let pending = sat_add(
            sat_add(self.pending as int, pass_points(flow, quality, boosted) as int) as int,
            close_points(quality, boosted) as int,
        );
        RunView { flow, pending, cues: Cues { score: true, ..self.cues }, ..self }
    }

    /// The state after picking up a collectible of `kind`.
    pub open spec fn collected(
        self,
        kind: CollectibleKind,
        combo_active: bool,
        boosted: bool,
    ) -> RunView {
        let cues = Cues { score: true, ..self.cues };
        match kind {
            CollectibleKind::Star => {
                let combo = combo_after_star(self.combo_count, combo_active);
                RunView {
                    combo_count: combo,
                    pending: sat_add(self.pending as int, star_points(combo, boosted) as int),
                    cues,
                    ..self
                }
            },
            CollectibleKind::Feather => RunView {
                power: Some(PowerKind::Feather),
                pending: sat_add(self.pending as int, pickup_points(kind, boosted) as int),
                cues,
                ..self
            },
            CollectibleKind::Shield => RunView {
                power: Some(PowerKind::Shield),
                pending: sat_add(self.pending as int, pickup_points(kind, boosted) as int),
                cues,
                ..self
            },
            CollectibleKind::Boost => RunView {
                pending: sat_add(self.pending as int, pickup_points(kind, boosted) as int),
                cues,
                ..self
            },
        }
    }

    /// The state at the end of a frame: the frame's points are added to the
    /// score and its cues are consumed.
    pub open spec fn ended(self) -> RunView {
        RunView {
            score: sat_add(self.score as int, self.pending as int),
            pending: 0,
            cues: no_cues(),
            ..self
        }
    }

    /// What the display shows; `combo_window_open` tells whether the star
    /// combo window is still open.
    pub open spec fn hud(self, combo_window_open: bool) -> Hud {
        Hud {
            combo: self.combo_count >= 2 && combo_window_open,
            flow: self.flow > 0,
            offer_resume: self.paused,
            offer_unmute: self.muted,
            start_banner: !self.started,
            paused_banner: self.paused,
            game_over_banner: self.game_over,
            in_flight: self.started,
            trail_active: self.started && !self.game_over,
            flow_ring: self.flow > 0 && !self.game_over,
        }
    }

    /// The sounds the end of a frame plays: none while muted.
    pub open spec fn audible(self) -> Cues {
        if self.muted {
            no_cues()
        } else {
            self.cues
        }
    }
}

/// `a * b`, capped at `u32::MAX`.
fn saturating_times(a: u32, b: u32) -> (r: u32)
    ensures
        r == sat_mul(a as int, b as int),
{
    match a.checked_mul(b) {
        Some(p) => p,
        None => u32::MAX,
    }
}

/// Law: outside a finished run, the pause key flips the pause state, a frame
/// that pauses freezes the world, and pressing it again resumes.
pub proof fn lemma_pause_toggles(v: RunView, input: FrameInput)
    requires
        !v.game_over,
        input.toggle_pause,
    ensures
        v.begun(input).paused == !v.paused,
        !v.begun(input).game_over,
        v.begun(input).paused ==> v.step(input) == FrameStep::Frozen,
        v.begun(input).begun(input).paused == v.paused,
{
}

/// Law: a paused frame in which neither pause nor mute is toggled changes
/// nothing but clearing the frame's (empty) points and cues.
pub proof fn lemma_paused_frame_freezes(v: RunView, input: FrameInput)
    requires
        v.paused,
        !input.toggle_pause,
        !input.toggle_mute,
        !(input.restart && v.game_over),
    ensures
        v.step(input) == FrameStep::Frozen,
        v.begun(input) == (RunView { pending: 0, cues: no_cues(), ..v }),
{
}

/// Law: restarting a finished run gives a fresh run that keeps the mute
/// setting (after this frame's mute toggle).
pub proof fn lemma_restart_after_game_over(v: RunView, input: FrameInput)
    requires
        v.game_over,
        input.restart,
    ensures
        v.step(input) == FrameStep::Restart,
        v.begun(input) == RunView::fresh(
            if input.toggle_mute {
                !v.muted
            } else {
                v.muted
            },
        ),
{
}

/// Law: a run that is not over cannot be restarted, and starting a frame
/// never changes its score, Flow, combo or power-up.
pub proof fn lemma_no_restart_while_playing(v: RunView, input: FrameInput)
    requires
        !v.game_over,
    ensures
        v.step(input) != FrameStep::Restart,
        v.begun(input).score == v.score,
        v.begun(input).flow == v.flow,
        v.begun(input).combo_count == v.combo_count,
        v.begun(input).power == v.power,
        v.begun(input).game_over == v.game_over,
{
}

/// One event of a running frame, as the game loop reports it to a
/// [`RunState`].
pub enum FrameEvent {
    /// [`RunState::flap`]
    Flap,
    /// [`RunState::hit_ground`]
    Ground,
    /// [`RunState::hit_pipe`]
    PipeHit,
    /// [`RunState::pass_pipe`] with the quality and whether a boost runs.
    PipePass(PassQuality, bool),
    /// [`RunState::collect`] with the kind, whether the combo window is open
    /// and whether a boost runs.
    Pickup(CollectibleKind, bool, bool),
    /// [`RunState::expire_combo`]
    ComboExpired,
    /// [`RunState::expire_power`]
    PowerExpired,
}

/// The state after `event`.
pub open spec fn after_event(v: RunView, event: FrameEvent) -> RunView {
    match event {
        FrameEvent::Flap => v.flapped(),
        FrameEvent::Ground => v.grounded(),
        FrameEvent::PipeHit => v.hit(),
        FrameEvent::PipePass(quality, boosted) => v.passed(quality, boosted),
        FrameEvent::Pickup(kind, combo_active, boosted) => v.collected(kind, combo_active, boosted),
        FrameEvent::ComboExpired => RunView { combo_count: 0, ..v },
        FrameEvent::PowerExpired => RunView { power: None, ..v },
    }
}

/// The state after `events`, in order.
pub open spec fn after_events(v: RunView, events: Seq<FrameEvent>) -> RunView
    decreases events.len(),
{
    if events.len() == 0 {
        v
    } else {
        after_event(after_events(v, events.drop_last()), events.last())
    }
}

proof fn lemma_events_keep_score(v: RunView, events: Seq<FrameEvent>)
    ensures
        after_events(v, events).score == v.score,
    decreases events.len(),
{
    if events.len() > 0 {
        lemma_events_keep_score(v, events.drop_last());
    }
}

/// Law: unless it restarts the run, a frame never lowers the score, whatever
/// events it reports and in whatever order: starting the frame and every event
/// leave the score as it was, and ending the frame adds the frame's points with
/// saturation (no wrap-around).
pub proof fn lemma_frame_never_lowers_score(
    v: RunView,
    input: FrameInput,
    events: Seq<FrameEvent>,
)
    requires
        !(v.game_over && input.restart),
    ensures
        after_events(v.begun(input), events).ended().score >= v.score,
        after_events(v.begun(input), events).ended().score == sat_add(
            v.score as int,
            after_events(v.begun(input), events).pending as int,
        ),
{
    lemma_events_keep_score(v.begun(input), events);
}

/// Law: the mute key flips the mute setting in every state, whether the run
/// is waiting, running, paused or over (and on the frame that restarts it);
/// without the key the setting stays.
pub proof fn lemma_mute_key_flips_mute(v: RunView, input: FrameInput)
    ensures
        v.begun(input).muted == (v.muted != input.toggle_mute),
{
}

/// Law: a feather or a shield becomes the current power-up whatever was held
/// before; a star or a boost orb leaves the power-up as it was.
pub proof fn lemma_pickup_sets_power(v: RunView, combo_active: bool, boosted: bool)
    ensures
        v.collected(CollectibleKind::Feather, combo_active, boosted).power == Some(
            PowerKind::Feather,
        ),
        v.collected(CollectibleKind::Shield, combo_active, boosted).power == Some(
            PowerKind::Shield,
        ),
        v.collected(CollectibleKind::Star, combo_active, boosted).power == v.power,
        v.collected(CollectibleKind::Boost, combo_active, boosted).power == v.power,
{
}

/// Law: an unmuted frame plays every sound it asked for: the flap, the score
/// chime and the game-over sound each independently of the others.
pub proof fn lemma_unmuted_frame_plays_every_cue(v: RunView)
    requires
        !v.muted,
    ensures
        v.audible() == v.cues,
        v.flapped().audible().flap,
        v.passed(PassQuality::Plain, false).audible().score,
        v.flapped().passed(PassQuality::Plain, false).audible() == (Cues {
            flap: true,
            score: true,
            game_over: v.cues.game_over,
        }),
{
}

/// Law: the combo counter needs a combo of two: a star picked up with the
/// combo window closed never shows it, a star picked up while the window is
/// open after an earlier star does, and it is hidden once the window closes.
pub proof fn lemma_combo_counter_from_two(v: RunView, boosted: bool, combo_window_open: bool)
    ensures
        !v.collected(CollectibleKind::Star, false, boosted).hud(combo_window_open).combo,
        v.combo_count >= 1 ==> v.collected(CollectibleKind::Star, true, boosted).hud(true).combo,
        !v.hud(false).combo,
        v.combo_count <= 1 ==> !v.hud(combo_window_open).combo,
{
}

/// Law: a fresh run is consistent (see [`RunView::consistent`]), starting a
/// frame keeps a run consistent, and a frame that runs has a started, unpaused
/// run.
pub proof fn lemma_frames_keep_modes_consistent(v: RunView, input: FrameInput, muted: bool)
    requires
        v.consistent(),
    ensures
        RunView::fresh(muted).consistent(),
        v.begun(input).consistent(),
        v.step(input) == FrameStep::Running ==> v.begun(input).started && !v.begun(input).paused,
{
}

/// Law: the events of a running frame keep a run consistent: ending the run
/// (by the ground or a pipe) happens only to a started, unpaused run, and no
/// other event touches the modes.
pub proof fn lemma_events_keep_modes_consistent(
    w: RunView,
    quality: PassQuality,
    kind: CollectibleKind,
    combo_active: bool,
    boosted: bool,
)
    requires
        w.consistent(),
        w.started,
        !w.paused,
    ensures
        w.flapped().consistent(),
        w.grounded().consistent(),
        w.hit().consistent(),
        w.passed(quality, boosted).consistent(),
        w.collected(kind, combo_active, boosted).consistent(),
        (RunView { combo_count: 0, ..w }).consistent(),
        (RunView { power: None, ..w }).consistent(),
        w.ended().consistent(),
{
}

/// Law: a waiting run starts on the first unpaused frame with a flap, and that
/// flap is heard at the end of the frame unless the game is muted.
pub proof fn lemma_flap_starts_run(v: RunView, input: FrameInput)
    requires
        !v.started,
        !v.paused,
        !v.game_over,
        !input.toggle_pause,
        input.flap,
    ensures
        v.step(input) == (FrameStep::Waiting { launched: true }),
        v.begun(input).started,
        v.begun(input).cues.flap,
        v.begun(input).audible().flap == !v.begun(input).muted,
{
}

/// Law: a shield absorbs exactly one pipe hit: the first hit is survived and
/// uses the shield up, the next one ends the run.
pub proof fn lemma_shield_absorbs_one_hit(v: RunView)
    requires
        v.power == Some(PowerKind::Shield),
    ensures
        v.shielded(),
        v.hit().game_over == v.game_over,
        v.hit().power == None::<PowerKind>,
        !v.hit().shielded(),
        v.hit().hit().game_over,
{
}

/// Law: without a shield, touching a pipe ends the run and asks for the
/// game-over sound.
pub proof fn lemma_unshielded_hit_ends_run(v: RunView)
    requires
        v.power != Some(PowerKind::Shield),
    ensures
        v.hit().game_over,
        v.hit().cues.game_over,
{
}

/// Law: a running boost doubles what a pipe pass is worth.
pub proof fn lemma_boost_doubles_pass(flow: u32, quality: PassQuality)
    requires
        flow <= MAX_FLOW,
    ensures
        pass_points(flow, quality, true) + close_points(quality, true) == 2 * (pass_points(
            flow,
            quality,
            false,
        ) + close_points(quality, false)),
{
}

/// Law: a running boost doubles what a star is worth.
pub proof fn lemma_boost_doubles_star(combo: u32)
    ensures
        star_points(combo, true) == 2 * star_points(combo, false),
{
}

/// Law: a star is worth its base score plus a combo bonus of at least 1 and at
/// most [`MAX_COMBO_BONUS`], times the boost factor.
pub proof fn lemma_star_points_bounded(combo_count: u32, combo_active: bool, boosted: bool)
    ensures
        (STAR_BASE_SCORE + 1) * multiplier(boosted) <= star_points(
            combo_after_star(combo_count, combo_active),
            boosted,
        ) <= (STAR_BASE_SCORE + MAX_COMBO_BONUS) * multiplier(boosted),
{
    let c = combo_after_star(combo_count, combo_active);
    assert(c >= 1);
    if boosted {
        assert(multiplier(boosted) == 2);
    } else {
        assert(multiplier(boosted) == 1);
    }
}

/// Law: a close call scores exactly the boost factor more than a plain pass,
/// and both break the Flow streak.
pub proof fn lemma_close_call_scores_extra(v: RunView, boosted: bool)
    ensures
        v.passed(PassQuality::Close, boosted).pending == sat_add(
            v.passed(PassQuality::Plain, boosted).pending as int,
            multiplier(boosted) as int,
        ),
        v.passed(PassQuality::Close, boosted).flow == 0,
        v.passed(PassQuality::Plain, boosted).flow == 0,
{
}

/// `count` perfect pipe passes in a row.
pub open spec fn perfect_streak(v: RunView, count: nat, boosted: bool) -> RunView
    decreases count,
{
    if count == 0 {
        v
    } else {
        perfect_streak(v, (count - 1) as nat, boosted).passed(PassQuality::Perfect, boosted)
    }
}

/// Law: each perfect pass raises Flow by one, up to [`MAX_FLOW`].
pub proof fn lemma_perfect_streak_builds_flow(v: RunView, count: nat, boosted: bool)
    requires
        v.flow <= MAX_FLOW,
    ensures
        perfect_streak(v, count, boosted).flow == if v.flow + count < MAX_FLOW {
            v.flow + count
        } else {
            MAX_FLOW as int
        },
    decreases count,
{
    if count > 0 {
        lemma_perfect_streak_builds_flow(v, (count - 1) as nat, boosted);
    }
}

/// Law: the end of a frame adds the frame's points to the score (capped at
/// `u32::MAX`), so the score never goes down while a run lasts.
pub proof fn lemma_end_frame_adds_points(v: RunView)
    ensures
        v.ended().score >= v.score,
        v.ended().score == if v.score + v.pending > u32::MAX {
            u32::MAX as int
        } else {
            v.score + v.pending
        },
        v.ended().pending == 0,
{
}

/// Law: while muted, a frame plays no sound.
pub proof fn lemma_muted_is_silent(v: RunView)
    requires
        v.muted,
    ensures
        v.audible() == no_cues(),
{
}

/// The discrete state of a run of the game.
pub struct RunState {
    started: bool,
    paused: bool,
    game_over: bool,
    muted: bool,
    score: u32,
    flow: u32,
    combo_count: u32,
    power: Option<PowerKind>,
    pending: u32,
    cue_flap: bool,
    cue_score: bool,
    cue_game_over: bool,
}

impl View for RunState {
    type V = RunView;

    closed spec fn view(&self) -> RunView {
        RunView {
            started: self.started,
            paused: self.paused,
            game_over: self.game_over,
            muted: self.muted,
            score: self.score,
            flow: self.flow,
            combo_count: self.combo_count,
            power: self.power,
            pending: self.pending,
            cues: Cues { flap: self.cue_flap, score: self.cue_score, game_over: self.cue_game_over },
        }
    }
}

impl RunState {
    #[verifier::type_invariant]
    spec fn well_formed(self) -> bool {
        &&& self.flow <= MAX_FLOW
        &&& self.game_over ==> self.started && !self.paused
    }

    /// A fresh, unmuted run that has not started.
    pub fn new() -> (s: RunState)
        ensures
            s@.consistent(),
            s@ == RunView::fresh(false),
    {
        RunState {
            started: false,
            paused: false,
            game_over: false,
            muted: false,
            score: 0,
            flow: 0,
            combo_count: 0,
            power: None,
            pending: 0,
            cue_flap: false,
            cue_score: false,
            cue_game_over: false,
        }
    }

    /// Starts a frame: toggles mute (`M`), toggles pause unless the run is over
    /// (`P`), restarts a finished run (`R`), and starts a waiting run on a flap.
    /// The frame's points and cues start empty.
    pub fn begin_frame(&mut self, input: FrameInput) -> (start: FrameStart)
        ensures
            final(self)@.consistent(),
            final(self)@ == old(self)@.begun(input),
            start == (FrameStart { mute_changed: input.toggle_mute, step: old(self)@.step(input) }),
            final(self)@.flow <= MAX_FLOW,
    {
        proof {
            use_type_invariant(&*self);
        }
        if input.toggle_mute {
            self.muted = !self.muted;
        }
        if input.toggle_pause && !self.game_over {
            self.paused = !self.paused;
        }
        self.pending = 0;
        self.cue_flap = false;
        self.cue_score = false;
        self.cue_game_over = false;
        let step = if input.restart && self.game_over {
            self.reset();
            FrameStep::Restart
        } else if self.paused {
            FrameStep::Frozen
        } else if !self.started {
            if input.flap {
                self.started = true;
                self.cue_flap = true;
            }
            FrameStep::Waiting { launched: input.flap }
        } else if self.game_over {
            FrameStep::Over
        } else {
            FrameStep::Running
        };
        FrameStart { mute_changed: input.toggle_mute, step }
    }

    /// Returns to a fresh run, keeping the mute setting.
    fn reset(&mut self)
        ensures
            final(self)@ == RunView::fresh(old(self)@.muted),
    {
        proof {
            use_type_invariant(&*self);
        }
        self.game_over = false;
        self.started = false;
        self.paused = false;
        self.score = 0;
        self.flow = 0;
        self.combo_count = 0;
        self.power = None;
        self.pending = 0;
        self.cue_flap = false;
        self.cue_score = false;
        self.cue_game_over = false;
    }

    /// The plane flapped while running: a flap sound is due.
    pub fn flap(&mut self)
        requires
            old(self)@.started,
            !old(self)@.paused,
            !old(self)@.game_over,
        ensures
            final(self)@.consistent(),
            final(self)@ == old(self)@.flapped(),
    {
        proof {
            use_type_invariant(&*self);
        }
        self.cue_flap = true;
    }

    /// The plane touched the ground: the run is over.
    pub fn hit_ground(&mut self)
        requires
            old(self)@.started,
            !old(self)@.paused,
            !old(self)@.game_over,
        ensures
            final(self)@.consistent(),
            final(self)@ == old(self)@.grounded(),
    {
        proof {
            use_type_invariant(&*self);
        }
        self.game_over = true;
        self.cue_game_over = true;
    }

    /// The plane touched a pipe. A shield absorbs the hit and is used up
    /// (the result is `true`); without one the run is over.
    pub fn hit_pipe(&mut self) -> (absorbed: bool)
        requires
            old(self)@.started,
            !old(self)@.paused,
            !old(self)@.game_over,
        ensures
            final(self)@.consistent(),
            absorbed == old(self)@.shielded(),
            final(self)@ == old(self)@.hit(),
    {
        proof {
            use_type_invariant(&*self);
        }
        match self.power {
            Some(PowerKind::Shield) => {
                self.power = None;
                true
            },
            _ => {
                self.hit_ground();
                false
            },
        }
    }

    /// The plane passed a pipe with `quality`, with or without a running
    /// boost. Returns the points earned.
    pub fn pass_pipe(&mut self, quality: PassQuality, boosted: bool) -> (points: u32)
        requires
            old(self)@.started,
            !old(self)@.paused,
            !old(self)@.game_over,
        ensures
            final(self)@.consistent(),
            final(self)@ == old(self)@.passed(quality, boosted),
            points == pass_points(final(self)@.flow, quality, boosted) + close_points(
                quality,
                boosted,
            ),
            final(self)@.flow <= MAX_FLOW,
    {
        proof {
            use_type_invariant(&*self);
        }
        let perfect = match quality {
            PassQuality::Perfect => true,
            _ => false,
        };
        let close_call = match quality {
            PassQuality::Close => true,
            _ => false,
        };
        if perfect {
            self.flow = if self.flow + 1 < MAX_FLOW {
                self.flow + 1
            } else {
                MAX_FLOW
            };
        } else {
            self.flow = 0;
        }
        let flow_bonus: u32 = if perfect {
            1 + self.flow / 3
        } else {
            0
        };
        let factor: u32 = if boosted {
            BOOST_MULTIPLIER
        } else {
            1
        };
        let points = saturating_times(1 + flow_bonus, factor);
        self.pending = self.pending.saturating_add(points);
        let mut extra: u32 = 0;
        if close_call {
            extra = saturating_times(CLOSE_BONUS, factor);
            self.pending = self.pending.saturating_add(extra);
        }
        self.cue_score = true;
        points + extra
    }

    /// The plane picked up a collectible of `kind`; `combo_active` tells
    /// whether the star combo window is still open and `boosted` whether a
    /// boost is running. A star extends or restarts the combo; a feather or a
    /// shield becomes the current power-up.
    pub fn collect(&mut self, kind: CollectibleKind, combo_active: bool, boosted: bool)
        requires
            old(self)@.started,
            !old(self)@.paused,
            !old(self)@.game_over,
        ensures
            final(self)@.consistent(),
            final(self)@ == old(self)@.collected(kind, combo_active, boosted),
            final(self)@.flow <= MAX_FLOW,
    {
        proof {
            use_type_invariant(&*self);
        }
        let factor: u32 = if boosted {
            BOOST_MULTIPLIER
        } else {
            1
        };
        match kind {
            CollectibleKind::Star => {
                if combo_active {
                    self.combo_count = self.combo_count.saturating_add(1);
                } else {
                    self.combo_count = 1;
                }
                let combo_bonus = if self.combo_count < MAX_COMBO_BONUS {
                    self.combo_count
                } else {
                    MAX_COMBO_BONUS
                };
                let bonus = STAR_BASE_SCORE + combo_bonus;
                self.pending = self.pending.saturating_add(saturating_times(bonus, factor));
            },
            CollectibleKind::Feather => {
                self.power = Some(PowerKind::Feather);
                self.pending = self.pending.saturating_add(saturating_times(1, factor));
            },
            CollectibleKind::Shield => {
                self.power = Some(PowerKind::Shield);
                self.pending = self.pending.saturating_add(saturating_times(1, factor));
            },
            CollectibleKind::Boost => {
                self.pending = self.pending.saturating_add(saturating_times(1, BOOST_MULTIPLIER));
            },
        }
        self.cue_score = true;
    }

    /// The star combo window closed.
    pub fn expire_combo(&mut self)
        ensures
            final(self)@.consistent(),
            final(self)@ == (RunView { combo_count: 0, ..old(self)@ }),
    {
        proof {
            use_type_invariant(&*self);
        }
        self.combo_count = 0;
    }

    /// The current power-up ran out.
    pub fn expire_power(&mut self)
        ensures
            final(self)@.consistent(),
            final(self)@ == (RunView { power: None, ..old(self)@ }),
    {
        proof {
            use_type_invariant(&*self);
        }
        self.power = None;
    }

    /// Ends a frame: adds the frame's points to the score and returns the
    /// sounds to play (none while muted).
    pub fn end_frame(&mut self) -> (cues: Cues)
        ensures
            final(self)@.consistent(),
            cues == old(self)@.audible(),
            final(self)@ == old(self)@.ended(),
    {
        proof {
            use_type_invariant(&*self);
        }
        if self.pending > 0 {
            self.score = self.score.saturating_add(self.pending);
        }
        self.pending = 0;
        let cues = if self.muted {
            Cues { flap: false, score: false, game_over: false }
        } else {
            Cues { flap: self.cue_flap, score: self.cue_score, game_over: self.cue_game_over }
        };
        self.cue_flap = false;
        self.cue_score = false;
        self.cue_game_over = false;
        cues
    }

    /// What the heads-up display shows; `combo_window_open` tells whether
    /// the star combo window is still open.
    pub fn hud(&self, combo_window_open: bool) -> (hud: Hud)
        ensures
            hud == self@.hud(combo_window_open),
    {
        Hud {
            combo: self.combo_count >= 2 && combo_window_open,
            flow: self.flow > 0,
            offer_resume: self.paused,
            offer_unmute: self.muted,
            start_banner: !self.started,
            paused_banner: self.paused,
            game_over_banner: self.game_over,
            in_flight: self.started,
            trail_active: self.started && !self.game_over,
            flow_ring: self.flow > 0 && !self.game_over,
        }
    }

    pub fn started(&self) -> (b: bool)
        ensures
            b == self@.started,
    {
        self.started
    }

    pub fn paused(&self) -> (b: bool)
        ensures
            b == self@.paused,
    {
        self.paused
    }

    pub fn game_over(&self) -> (b: bool)
        ensures
            b == self@.game_over,
    {
        self.game_over
    }

    pub fn muted(&self) -> (b: bool)
        ensures
            b == self@.muted,
    {
        self.muted
    }

    pub fn score(&self) -> (n: u32)
        ensures
            n == self@.score,
    {
        self.score
    }

    pub fn flow(&self) -> (n: u32)
        ensures
            n == self@.flow,
            n <= MAX_FLOW,
    {
        proof {
            use_type_invariant(self);
        }
        self.flow
    }

    pub fn combo_count(&self) -> (n: u32)
        ensures
            n == self@.combo_count,
    {
        self.combo_count
    }

    pub fn power(&self) -> (p: Option<PowerKind>)
        ensures
            p == self@.power,
    {
        self.power
    }
}

} // verus!
