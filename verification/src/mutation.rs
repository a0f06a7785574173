//! Random changes to a script: to one frame, or to one whole frame bulk.
//!
//! Each change comes in two layers. The lower one takes the outcome of every
//! random draw as an argument and says exactly what the script becomes. The
//! upper one makes the draws and applies the lower one to them.

use crate::agreement::{
    agree_before, lemma_agree_transitive, lemma_same_front_agree, lemma_same_unrolled_agree,
    lemma_split_unrolled,
};
use crate::random::{draw_below, draw_bool, draw_ratio};
use crate::script::{
    bulks_wf, first_frame_of, holds_frame, lemma_first_frame_next, lemma_first_frames_ordered,
    lemma_frame_has_one_line, lemma_total_frames_update, locate, split_single_lines,
    starts_with_bulk, total_frames, FrameBulk, FrameBulkView, Line, LineView, Script,
};
use crate::types::{
    ActionKeys, AutoActions, AutoMovement, DuckBeforeGround, LeaveGroundAction,
    LeaveGroundActionSpeed, LeaveGroundActionType, StrafeDir, StrafeSettings, StrafeType,
    UNLIMITED,
};
use rand::rngs::StdRng;
use vstd::pervasive::unreached;
use vstd::prelude::*;

verus! {

/// What a redraw of the leave-ground action came to.
#[derive(Clone, Copy, Debug, PartialEq, Eq, Structural)]
pub enum LeaveGroundDraw {
    Absent,
    DuckTap { any_speed: bool },
    Jump { any_speed: bool },
}

/// The draws that decide the automatic actions of a bulk.
#[derive(Clone, Copy, Debug, PartialEq, Eq, Structural)]
pub struct AutoActionDraws {
    /// Whether ducking before the ground is switched over.
    pub toggle_duck_before_ground: bool,
    /// The new leave-ground action, where it is redrawn.
    pub leave_ground: Option<LeaveGroundDraw>,
}

/// The draws that decide what becomes of a single frame.
#[derive(Clone, Copy, Debug, PartialEq, Eq, Structural)]
pub struct FrameDraws {
    /// Picks the strafing type: see [`strafe_type_for`].
    pub strafe_percent: u64,
    /// Strafe to the left rather than to the right.
    pub left: bool,
    /// Whether the use key is switched over.
    pub flip_use: bool,
    pub auto_actions: AutoActionDraws,
}

/// The draws that decide what becomes of a whole frame bulk.
#[derive(Clone, Copy, Debug, PartialEq, Eq, Structural)]
pub struct SegmentDraws {
    /// The line of the frame bulk to change.
    pub line: usize,
    /// Picks the strafing type: see [`strafe_type_for`].
    pub strafe_percent: u64,
    /// Re-aim a yaw widely rather than nudge it.
    pub large_yaw: bool,
    /// Added to the count of a left-right or right-left direction.
    pub count_delta: i64,
    /// Turn the direction around.
    pub invert: bool,
    /// Whether the use key is switched over.
    pub flip_use: bool,
    pub auto_actions: AutoActionDraws,
    /// How many frames the bulk takes from the next one (or, when negative,
    /// gives to it), as far as both can spare them.
    pub boundary_shift: i64,
}

/// A yaw angle that is due a random change: a nudge within one degree either
/// way, or, when `large`, a re-aim within half a turn either way.
#[derive(Clone, Copy, Debug, PartialEq, Eq, Structural)]
pub struct YawNudge {
    /// The line of the frame bulk that strafes towards the yaw.
    pub line: usize,
    pub large: bool,
}

/// What a change to a whole frame bulk did.
#[derive(Clone, Copy, Debug, PartialEq, Eq, Structural)]
pub struct SegmentMutation {
    /// The first frame whose simulation the change may affect.
    pub stale_frame: usize,
    /// The change to the bulk's yaw that is still to be made.
    pub yaw_nudge: Option<YawNudge>,
}

/// One draw in a hundred picks the greatest deceleration, nine the greatest
/// angle, the other ninety the greatest acceleration.
pub open spec fn strafe_type_for(percent: u64) -> StrafeType {
    if percent < 1 {
        StrafeType::MaxDeccel
    } else if percent < 10 {
        StrafeType::MaxAngle
    } else {
        StrafeType::MaxAccel
    }
}

/// The strafing type that a draw picks.
pub fn pick_strafe_type(percent: u64) -> (r: StrafeType)
    ensures
        r == strafe_type_for(percent),
{
    if percent < 1 {
        StrafeType::MaxDeccel
    } else if percent < 10 {
        StrafeType::MaxAngle
    } else {
        StrafeType::MaxAccel
    }
}

/// The bulk with its use key switched over where `flip` says so.
pub open spec fn with_use_flipped(bulk: FrameBulkView, flip: bool) -> FrameBulkView {
    if flip {
        FrameBulkView {
            action_keys: ActionKeys {
                use_: !bulk.action_keys.use_,
                ..bulk.action_keys
            },
            ..bulk
        }
    } else {
        bulk
    }
}

/// The speed at which a redrawn leave-ground action leaves the ground.
pub open spec fn leave_ground_speed(any_speed: bool) -> LeaveGroundActionSpeed {
    if any_speed {
        LeaveGroundActionSpeed::Any
    } else {
        LeaveGroundActionSpeed::Optimal
    }
}

/// The leave-ground action that a redraw stands for, in a bulk of the given
/// frame time: a duck tap takes no time exactly in bulks of a millisecond a
/// frame.
pub open spec fn leave_ground_for(draw: LeaveGroundDraw, frame_time: Seq<char>) -> Option<
    LeaveGroundAction,
> {
    match draw {
        LeaveGroundDraw::Absent => None,
        LeaveGroundDraw::DuckTap { any_speed } => Some(
            LeaveGroundAction {
                speed: leave_ground_speed(any_speed),
                times: UNLIMITED,
                type_: LeaveGroundActionType::DuckTap { zero_ms: frame_time == "0.001"@ },
            },
        ),
        LeaveGroundDraw::Jump { any_speed } => Some(
            LeaveGroundAction {
                speed: leave_ground_speed(any_speed),
                times: UNLIMITED,
                type_: LeaveGroundActionType::Jump,
            },
        ),
    }
}

/// The bulk with its automatic actions redrawn: ducking before the ground is
/// switched over where the draws say so, and the leave-ground action
/// replaced where it was redrawn.
pub open spec fn with_auto_actions_redrawn(
    bulk: FrameBulkView,
    draws: AutoActionDraws,
) -> FrameBulkView {
    let duck_before_ground = if draws.toggle_duck_before_ground {
        if bulk.auto_actions.duck_before_ground is Some {
            None
        } else {
            Some(DuckBeforeGround { times: UNLIMITED })
        }
    } else {
        bulk.auto_actions.duck_before_ground
    };
    let leave_ground_action = match draws.leave_ground {
        Some(draw) => leave_ground_for(draw, bulk.frame_time),
        None => bulk.auto_actions.leave_ground_action,
    };
    FrameBulkView {
        auto_actions: AutoActions {
            duck_before_ground,
            leave_ground_action,
            ..bulk.auto_actions
        },
        ..bulk
    }
}

/// Switches the use key over where `flip` says so.
pub fn flip_use_key(bulk: &mut FrameBulk, flip: bool)
    ensures
        final(bulk)@ == with_use_flipped(old(bulk)@, flip),
{
    if flip {
        bulk.action_keys.use_ = !bulk.action_keys.use_;
    }
}

/// Redraws the automatic actions of a bulk as the draws say.
pub fn redraw_auto_actions(bulk: &mut FrameBulk, draws: &AutoActionDraws)
    ensures
        final(bulk)@ == with_auto_actions_redrawn(old(bulk)@, *draws),
{
    if draws.toggle_duck_before_ground {
        bulk.auto_actions.duck_before_ground = if bulk.auto_actions.duck_before_ground.is_some() {
            None
        } else {
            Some(DuckBeforeGround { times: UNLIMITED })
        };
    }
    match draws.leave_ground {
        None => {},
        Some(LeaveGroundDraw::Absent) => {
            bulk.auto_actions.leave_ground_action = None;
        },
        Some(LeaveGroundDraw::DuckTap { any_speed }) => {
            let millisecond = "0.001".to_owned();
            let zero_ms = bulk.frame_time == millisecond;
            bulk.auto_actions.leave_ground_action = Some(
                LeaveGroundAction {
                    speed: if any_speed {
                        LeaveGroundActionSpeed::Any
                    } else {
                        LeaveGroundActionSpeed::Optimal
                    },
                    times: UNLIMITED,
                    type_: LeaveGroundActionType::DuckTap { zero_ms },
                },
            );
        },
        Some(LeaveGroundDraw::Jump { any_speed }) => {
            bulk.auto_actions.leave_ground_action = Some(
                LeaveGroundAction {
                    speed: if any_speed {
                        LeaveGroundActionSpeed::Any
                    } else {
                        LeaveGroundActionSpeed::Optimal
                    },
                    times: UNLIMITED,
                    type_: LeaveGroundActionType::Jump,
                },
            );
        },
    }
}

/// The bulk as a change to a single frame leaves it: it strafes by the type
/// that was drawn, to the side that was drawn (or to the best side, when it
/// decelerates), and its keys and actions are switched over as drawn.
pub open spec fn resampled(bulk: FrameBulkView, draws: FrameDraws) -> FrameBulkView {
    let type_ = strafe_type_for(draws.strafe_percent);
    let dir = if type_ == StrafeType::MaxDeccel {
        StrafeDir::Best
    } else if draws.left {
        StrafeDir::Left
    } else {
        StrafeDir::Right
    };
    let strafing = FrameBulkView {
        auto_actions: AutoActions {
            movement: Some(AutoMovement::Strafe(StrafeSettings { type_, dir })),
            ..bulk.auto_actions
        },
        ..bulk
    };
    with_auto_actions_redrawn(with_use_flipped(strafing, draws.flip_use), draws.auto_actions)
}

/// Changes a bulk as a change to a single frame does, by the draws given.
pub fn resample_frame_bulk(bulk: &mut FrameBulk, draws: &FrameDraws)
    ensures
        final(bulk)@ == resampled(old(bulk)@, *draws),
        final(bulk)@.frame_count == old(bulk)@.frame_count,
        old(bulk)@.wf() ==> final(bulk)@.wf(),
{
    let type_ = pick_strafe_type(draws.strafe_percent);
    let dir = if type_ == StrafeType::MaxDeccel {
        StrafeDir::Best
    } else if draws.left {
        StrafeDir::Left
    } else {
        StrafeDir::Right
    };
    bulk.auto_actions.movement = Some(AutoMovement::Strafe(StrafeSettings { type_, dir }));
    flip_use_key(bulk, draws.flip_use);
    redraw_auto_actions(bulk, &draws.auto_actions);
}

/// Draws whether the use key is switched over: one time in twenty.
fn draw_use_flip(rng: &mut StdRng) -> (r: bool) {
    draw_ratio(rng, 1, 20)
}

/// Draws what becomes of the automatic actions: ducking before the ground is
/// switched over one time in twenty; the leave-ground action is redrawn one
/// time in ten, evenly among absent, duck tap and jump, at either speed.
fn draw_auto_actions(rng: &mut StdRng) -> (r: AutoActionDraws) {
    let toggle_duck_before_ground = draw_ratio(rng, 1, 20);
    let leave_ground = if draw_ratio(rng, 1, 10) {
        let kind = draw_below(rng, 3);
        if kind == 0 {
            Some(LeaveGroundDraw::Absent)
        } else if kind == 1 {
            Some(LeaveGroundDraw::DuckTap { any_speed: draw_bool(rng) })
        } else {
            Some(LeaveGroundDraw::Jump { any_speed: draw_bool(rng) })
        }
    } else {
        None
    };
    AutoActionDraws { toggle_duck_before_ground, leave_ground }
}

/// Draws what becomes of a single frame.
fn draw_frame(rng: &mut StdRng) -> (r: FrameDraws)
    ensures
        r.strafe_percent < 100,
{
    let strafe_percent = draw_below(rng, 100);
    let left = if strafe_percent < 1 {
        false
    } else {
        draw_bool(rng)
    };
    let flip_use = draw_use_flip(rng);
    let auto_actions = draw_auto_actions(rng);
    FrameDraws { strafe_percent, left, flip_use, auto_actions }
}

/// Switches the use key of a bulk over, one time in twenty.
pub fn mutate_action_keys(rng: &mut StdRng, bulk: &mut FrameBulk)
    ensures
        exists|flip: bool| final(bulk)@ == with_use_flipped(old(bulk)@, flip),
{
    let flip = draw_use_flip(rng);
    flip_use_key(bulk, flip);
}

/// Redraws the automatic actions of a bulk at random.
pub fn mutate_auto_actions(rng: &mut StdRng, bulk: &mut FrameBulk)
    ensures
        exists|draws: AutoActionDraws|
            final(bulk)@ == with_auto_actions_redrawn(old(bulk)@, draws),
{
    let draws = draw_auto_actions(rng);
    redraw_auto_actions(bulk, &draws);
}

/// Changes a bulk at random as a change to a single frame does.
pub fn mutate_frame_bulk(rng: &mut StdRng, bulk: &mut FrameBulk)
    ensures
        exists|draws: FrameDraws|
            draws.strafe_percent < 100 && final(bulk)@ == resampled(old(bulk)@, draws),
        final(bulk)@.frame_count == old(bulk)@.frame_count,
        old(bulk)@.wf() ==> final(bulk)@.wf(),
{
    let draws = draw_frame(rng);
    resample_frame_bulk(bulk, &draws);
}

/// The lines once `frame` has a bulk of its own and that bulk is changed by
/// the draws. Unchanged when the script has no such frame.
pub open spec fn frame_mutated(lines: Seq<LineView>, frame: int, draws: FrameDraws) -> Seq<
    LineView,
> {
    let single = split_single_lines(lines, frame);
    match locate(single, frame) {
        Some((h, _)) => single.update(
            h,
            LineView::FrameBulk(resampled(single[h]->FrameBulk_0, draws)),
        ),
        None => lines,
    }
}

/// Gives `frame` a bulk of its own and changes that bulk by the draws.
/// Returns the line of the bulk, or `None`, with the script as it was, when
/// the script has no such frame. The first frame that the change may affect is
/// `frame`.
pub fn mutate_frame_with(script: &mut Script, frame: usize, draws: &FrameDraws) -> (r: Option<
    usize,
>)
    requires
        old(script)@.wf(),
    ensures
        final(script)@.properties == old(script)@.properties,
        final(script)@.lines == frame_mutated(old(script)@.lines, frame as int, *draws),
        r is None <==> frame >= total_frames(old(script)@.lines),
        r matches Some(h) ==> locate(final(script)@.lines, frame as int) == Some(
            (h as int, 0int),
        ),
        total_frames(final(script)@.lines) == total_frames(old(script)@.lines),
        final(script)@.wf(),
        starts_with_bulk(old(script)@.lines) ==> starts_with_bulk(final(script)@.lines),
        agree_before(final(script)@.lines, old(script)@.lines, frame as int),
{
    let ghost lines = script@.lines;
    proof {
        lemma_split_unrolled(lines, frame as int);
        lemma_same_unrolled_agree(split_single_lines(lines, frame as int), lines, frame as int);
    }
    match script.split_single_at_frame(frame) {
        None => None,
        Some(h) => {
            let ghost single = script@.lines;
            let mut bulk = match script.frame_bulk(h) {
                Some(bulk) => bulk.clone(),
                None => unreached(),
            };
            resample_frame_bulk(&mut bulk, draws);
            script.put_frame_bulk(h, bulk);
            proof {
                let changed = LineView::FrameBulk(resampled(single[h as int]->FrameBulk_0, *draws));
                lemma_total_frames_update(single, h as int, changed);
                lemma_frame_has_one_line(single, frame as int);
                assert(holds_frame(script@.lines, h as int, frame as int));
                lemma_frame_has_one_line(script@.lines, frame as int);
                assert(script@.lines.take(h as int) =~= single.take(h as int));
                lemma_same_front_agree(script@.lines, single, h as int);
                lemma_agree_transitive(script@.lines, single, lines, frame as int, frame as int);
            }
            Some(h)
        },
    }
}

/// Changes one frame of the script at random: the frame gets a bulk of its
/// own, which then strafes by a type and to a side drawn at random, with its
/// keys and actions switched over at random. The first frame that the change
/// may affect is `frame`.
pub fn mutate_frame(rng: &mut StdRng, script: &mut Script, frame: usize)
    requires
        old(script)@.wf(),
        frame < total_frames(old(script)@.lines),
    ensures
        final(script)@.properties == old(script)@.properties,
        exists|draws: FrameDraws|
            draws.strafe_percent < 100 && final(script)@.lines == frame_mutated(
                old(script)@.lines,
                frame as int,
                draws,
            ),
        total_frames(final(script)@.lines) == total_frames(old(script)@.lines),
        final(script)@.wf(),
        starts_with_bulk(old(script)@.lines) ==> starts_with_bulk(final(script)@.lines),
        agree_before(final(script)@.lines, old(script)@.lines, frame as int),
{
    let draws = draw_frame(rng);
    mutate_frame_with(script, frame, &draws);
}

/// `x`, or the nearest bound where it lies outside them.
pub open spec fn clamp(x: int, lowest: int, highest: int) -> int {
    if x < lowest {
        lowest
    } else if x > highest {
        highest
    } else {
        x
    }
}

/// A count after `delta` is added to it, kept positive and within 32 bits.
pub open spec fn nudged_count(count: u32, delta: i64) -> u32 {
    clamp(count + delta, 1, u32::MAX as int) as u32
}

/// Adds `delta` to a count, keeping it positive and within 32 bits.
pub fn nudge_count(count: u32, delta: i64) -> (r: u32)
    ensures
        r == nudged_count(count, delta),
        r >= 1,
{
    let sum: i128 = count as i128 + delta as i128;
    if sum < 1 {
        1
    } else if sum > u32::MAX as i128 {
        u32::MAX
    } else {
        sum as u32
    }
}

/// The direction of a bulk after a change to the whole bulk. A yaw stays:
/// its change is left to the caller (see [`YawNudge`]). A left-right or
/// right-left count moves by the delta drawn. Sides and alternations are
/// turned around where the draws say so. Any other direction stays.
pub open spec fn redirected(dir: StrafeDir, draws: SegmentDraws) -> StrafeDir {
    match dir {
        StrafeDir::LeftRight(count) => if draws.invert {
            StrafeDir::RightLeft(nudged_count(count, draws.count_delta))
        } else {
            StrafeDir::LeftRight(nudged_count(count, draws.count_delta))
        },
        StrafeDir::RightLeft(count) => if draws.invert {
            StrafeDir::LeftRight(nudged_count(count, draws.count_delta))
        } else {
            StrafeDir::RightLeft(nudged_count(count, draws.count_delta))
        },
        StrafeDir::Left => if draws.invert {
            StrafeDir::Right
        } else {
            StrafeDir::Left
        },
        StrafeDir::Right => if draws.invert {
            StrafeDir::Left
        } else {
            StrafeDir::Right
        },
        other => other,
    }
}

/// Changes a direction as a change to the whole bulk does.
pub fn redirect(dir: StrafeDir, draws: &SegmentDraws) -> (r: StrafeDir)
    ensures
        r == redirected(dir, *draws),
{
    match dir {
        StrafeDir::LeftRight(count) => {
            let count = nudge_count(count, draws.count_delta);
            if draws.invert {
                StrafeDir::RightLeft(count)
            } else {
                StrafeDir::LeftRight(count)
            }
        },
        StrafeDir::RightLeft(count) => {
            let count = nudge_count(count, draws.count_delta);
            if draws.invert {
                StrafeDir::LeftRight(count)
            } else {
                StrafeDir::RightLeft(count)
            }
        },
        StrafeDir::Left => if draws.invert {
            StrafeDir::Right
        } else {
            StrafeDir::Left
        },
        StrafeDir::Right => if draws.invert {
            StrafeDir::Left
        } else {
            StrafeDir::Right
        },
        other => other,
    }
}

/// The bulk as a change to the whole bulk leaves it, but for its number of
/// frames: where it strafes, the type is drawn anew and the direction changed
/// as [`redirected`] says; its keys and actions are switched over as drawn.
pub open spec fn segment_resampled(bulk: FrameBulkView, draws: SegmentDraws) -> FrameBulkView {
    let movement = match bulk.auto_actions.movement {
        Some(AutoMovement::Strafe(settings)) => Some(
            AutoMovement::Strafe(
                StrafeSettings {
                    type_: strafe_type_for(draws.strafe_percent),
                    dir: redirected(settings.dir, draws),
                },
            ),
        ),
        other => other,
    };
    let strafing = FrameBulkView {
        auto_actions: AutoActions { movement, ..bulk.auto_actions },
        ..bulk
    };
    with_auto_actions_redrawn(with_use_flipped(strafing, draws.flip_use), draws.auto_actions)
}

/// Whether the bulk strafes towards a yaw angle.
pub open spec fn strafes_to_yaw(bulk: FrameBulkView) -> bool {
    bulk.auto_actions.movement matches Some(AutoMovement::Strafe(settings))
        && settings.dir is Yaw
}

/// Line `l` is a frame bulk that strafes towards a yaw angle.
pub open spec fn strafes_to_yaw_at(lines: Seq<LineView>, l: int) -> bool {
    0 <= l < lines.len() && lines[l] is FrameBulk && strafes_to_yaw(lines[l]->FrameBulk_0)
}

/// Changes a bulk as a change to the whole bulk does, by the draws given, and
/// says whether its yaw is due a change.
pub fn resample_segment(bulk: &mut FrameBulk, draws: &SegmentDraws) -> (yaw: bool)
    ensures
        final(bulk)@ == segment_resampled(old(bulk)@, *draws),
        final(bulk)@.frame_count == old(bulk)@.frame_count,
        final(bulk)@.frame_time == old(bulk)@.frame_time,
        old(bulk)@.wf() ==> final(bulk)@.wf(),
        yaw == strafes_to_yaw(old(bulk)@),
        yaw == strafes_to_yaw(final(bulk)@),
{
    let mut yaw = false;
    match bulk.auto_actions.movement {
        Some(AutoMovement::Strafe(settings)) => {
            let type_ = pick_strafe_type(draws.strafe_percent);
            let dir = redirect(settings.dir, draws);
            yaw = match settings.dir {
                StrafeDir::Yaw(_) => true,
                _ => false,
            };
            bulk.auto_actions.movement = Some(AutoMovement::Strafe(StrafeSettings { type_, dir }));
        },
        _ => {},
    }
    flip_use_key(bulk, draws.flip_use);
    redraw_auto_actions(bulk, &draws.auto_actions);
    yaw
}

/// Line `m` is the first frame bulk after line `l`.
pub open spec fn is_next_bulk(lines: Seq<LineView>, l: int, m: int) -> bool {
    &&& l < m < lines.len()
    &&& lines[m] is FrameBulk
    &&& forall|k: int| l < k < m ==> !(#[trigger] lines[k] is FrameBulk)
}

/// The first frame bulk after line `l`, where there is one.
pub open spec fn next_bulk(lines: Seq<LineView>, l: int) -> Option<int> {
    if exists|m: int| is_next_bulk(lines, l, m) {
        Some(choose|m: int| is_next_bulk(lines, l, m))
    } else {
        None
    }
}

/// The first frame bulk after line `l`, where there is one.
pub fn next_frame_bulk(script: &Script, l: usize) -> (r: Option<usize>)
    ensures
        match r {
            Some(m) => next_bulk(script@.lines, l as int) == Some(m as int) && is_next_bulk(
                script@.lines,
                l as int,
                m as int,
            ),
            None => next_bulk(script@.lines, l as int) is None,
        },
{
    let ghost lines = script@.lines;
    if l >= script.lines.len() {
        return None;
    }
    let mut m: usize = l + 1;
    while m < script.lines.len()
        invariant
            l < m <= script.lines.len(),
            lines == script@.lines,
            lines.len() == script.lines.len(),
            forall|k: int| l < k < m ==> !(#[trigger] lines[k] is FrameBulk),
        decreases script.lines.len() - m,
    {
        match &script.lines[m] {
            Line::FrameBulk(_) => {
                assert(is_next_bulk(lines, l as int, m as int));
                return Some(m);
            },
            _ => {},
        }
        m += 1;
    }
    None
}

/// The fewest frames that a bulk may take from the next one, which has
/// `second` frames: a negative number, as the bulk then gives frames away.
pub open spec fn least_shift(second: u32) -> int {
    if second - u32::MAX > -10 {
        second - u32::MAX
    } else {
        -10
    }
}

/// The most frames that a bulk may take from the next one, which has `second`
/// frames.
pub open spec fn greatest_shift(second: u32) -> int {
    if second - 1 < 10 {
        second - 2
    } else {
        9
    }
}

/// The range of [`least_shift`] to [`greatest_shift`], which is never empty.
pub fn shift_range(second: u32) -> (r: (i64, i64))
    requires
        second >= 1,
    ensures
        r.0 == least_shift(second),
        r.1 == greatest_shift(second),
        -10 <= r.0 <= r.1 <= 9,
{
    let lowest: i64 = if second as i64 - u32::MAX as i64 > -10 {
        second as i64 - u32::MAX as i64
    } else {
        -10
    };
    let highest: i64 = if second as i64 - 1 < 10 {
        second as i64 - 2
    } else {
        9
    };
    (lowest, highest)
}

/// The counts of two neighbouring bulks after the first takes `shift` frames
/// from the second (or gives it as many, when `shift` is negative). At most
/// ten frames move, and fewer than ten to the first; the second keeps at
/// least two frames when it gives any, and both counts stay positive and
/// within 32 bits.
pub open spec fn shifted_counts(first: u32, second: u32, shift: i64) -> (u32, u32) {
    let moved = clamp(shift as int, least_shift(second), greatest_shift(second));
    let grown = clamp(first + moved, 1, u32::MAX as int);
    (grown as u32, (second + first - grown) as u32)
}

/// Moving frames between two bulks keeps both counts positive and their sum.
pub proof fn lemma_shifted_counts(first: u32, second: u32, shift: i64)
    requires
        first >= 1,
        second >= 1,
    ensures
        shifted_counts(first, second, shift).0 >= 1,
        shifted_counts(first, second, shift).1 >= 1,
        shifted_counts(first, second, shift).0 + shifted_counts(first, second, shift).1 == first
            + second,
{
}

/// Moves `shift` frames from the second of two neighbouring bulks to the
/// first, as far as both can spare them.
pub fn shift_counts(first: u32, second: u32, shift: i64) -> (r: (u32, u32))
    requires
        first >= 1,
        second >= 1,
    ensures
        r == shifted_counts(first, second, shift),
        r.0 >= 1,
        r.1 >= 1,
        r.0 + r.1 == first + second,
{
    let (lowest, highest) = shift_range(second);
    let moved: i64 = if shift < lowest {
        lowest
    } else if shift > highest {
        highest
    } else {
        shift
    };
    let sum: i64 = first as i64 + moved;
    let grown: i64 = if sum < 1 {
        1
    } else if sum > u32::MAX as i64 {
        u32::MAX as i64
    } else {
        sum
    };
    (grown as u32, (second as i64 + first as i64 - grown) as u32)
}

/// The lines after a change to the whole frame bulk in line `draws.line`:
/// the bulk is changed as [`segment_resampled`] says; then, where another
/// bulk follows it with the same frame time, frames move between the two as
/// [`shifted_counts`] says. Unchanged when that line is no frame bulk.
pub open spec fn segment_mutated(lines: Seq<LineView>, draws: SegmentDraws) -> Seq<LineView> {
    let l = draws.line as int;
    if l < lines.len() && lines[l] is FrameBulk {
        let changed = segment_resampled(lines[l]->FrameBulk_0, draws);
        match next_bulk(lines, l) {
            Some(m) => {
                let next = lines[m]->FrameBulk_0;
                if next.frame_time == changed.frame_time {
                    let counts = shifted_counts(
                        changed.frame_count,
                        next.frame_count,
                        draws.boundary_shift,
                    );
                    lines.update(l, LineView::FrameBulk(changed.with_count(counts.0))).update(
                        m,
                        LineView::FrameBulk(next.with_count(counts.1)),
                    )
                } else {
                    lines.update(l, LineView::FrameBulk(changed))
                }
            },
            None => lines.update(l, LineView::FrameBulk(changed)),
        }
    } else {
        lines
    }
}

/// What a change to the whole frame bulk in line `draws.line` reports: the
/// first frame of the bulk, and the change that its yaw is due. `None` when
/// that line is no frame bulk.
pub open spec fn segment_report(lines: Seq<LineView>, draws: SegmentDraws) -> Option<
    SegmentMutation,
> {
    let l = draws.line as int;
    if l < lines.len() && lines[l] is FrameBulk {
        Some(
            SegmentMutation {
                stale_frame: first_frame_of(lines, l) as usize,
                yaw_nudge: if strafes_to_yaw(lines[l]->FrameBulk_0) {
                    Some(YawNudge { line: draws.line, large: draws.large_yaw })
                } else {
                    None
                },
            },
        )
    } else {
        None
    }
}

/// A change to a whole bulk keeps its number of frames, its frame time and
/// its well-formedness, and a bulk that strafes towards a yaw goes on doing so.
pub proof fn lemma_segment_resampled(bulk: FrameBulkView, draws: SegmentDraws)
    ensures
        segment_resampled(bulk, draws).frame_count == bulk.frame_count,
        segment_resampled(bulk, draws).frame_time == bulk.frame_time,
        bulk.wf() ==> segment_resampled(bulk, draws).wf(),
        strafes_to_yaw(bulk) == strafes_to_yaw(segment_resampled(bulk, draws)),
{
}

/// A change to a whole frame bulk keeps the number of lines, every line
/// before the bulk, every frame of the script and its well-formedness; the
/// bulk has a first frame; and bulks that strafe towards a yaw go on doing so.
pub proof fn lemma_segment_mutated(lines: Seq<LineView>, draws: SegmentDraws)
    requires
        bulks_wf(lines),
        draws.line < lines.len(),
        lines[draws.line as int] is FrameBulk,
    ensures
        segment_mutated(lines, draws).len() == lines.len(),
        segment_mutated(lines, draws).take(draws.line as int) == lines.take(draws.line as int),
        total_frames(segment_mutated(lines, draws)) == total_frames(lines),
        bulks_wf(segment_mutated(lines, draws)),
        starts_with_bulk(lines) ==> starts_with_bulk(segment_mutated(lines, draws)),
        forall|k: int|
            strafes_to_yaw_at(lines, k) ==> strafes_to_yaw_at(segment_mutated(lines, draws), k),
        first_frame_of(lines, draws.line as int) < total_frames(lines),
        agree_before(
            segment_mutated(lines, draws),
            lines,
            first_frame_of(lines, draws.line as int) as int,
        ),
{
    let l = draws.line as int;
    let bulk = lines[l]->FrameBulk_0;
    let changed = segment_resampled(bulk, draws);
    let after = segment_mutated(lines, draws);
    lemma_segment_resampled(bulk, draws);
    lemma_first_frame_next(lines, l);
    lemma_first_frames_ordered(lines, l + 1, lines.len() as int);
    let shifts = next_bulk(lines, l) matches Some(m) && lines[m]->FrameBulk_0.frame_time
        == changed.frame_time;
    if shifts {
        let m = next_bulk(lines, l)->0;
        let next = lines[m]->FrameBulk_0;
        let counts = shifted_counts(changed.frame_count, next.frame_count, draws.boundary_shift);
        lemma_shifted_counts(changed.frame_count, next.frame_count, draws.boundary_shift);
        let first = LineView::FrameBulk(changed.with_count(counts.0));
        let second = LineView::FrameBulk(next.with_count(counts.1));
        let mid = lines.update(l, first);
        lemma_total_frames_update(lines, l, first);
        lemma_total_frames_update(mid, m, second);
    } else {
        lemma_total_frames_update(lines, l, LineView::FrameBulk(changed));
    }
    assert(after.take(l) =~= lines.take(l));
    lemma_same_front_agree(after, lines, l);
}

/// Changes the whole frame bulk in line `draws.line` by the draws given.
/// Returns `None`, with the script as it was, when that line is no frame
/// bulk. No line before the bulk changes, and the script keeps every frame.
pub fn mutate_single_frame_bulk_with(script: &mut Script, draws: &SegmentDraws) -> (r: Option<
    SegmentMutation,
>)
    requires
        old(script)@.wf(),
    ensures
        final(script)@.properties == old(script)@.properties,
        final(script)@.lines == segment_mutated(old(script)@.lines, *draws),
        r == segment_report(old(script)@.lines, *draws),
        final(script)@.lines.len() == old(script)@.lines.len(),
        final(script)@.lines.take(draws.line as int) == old(script)@.lines.take(
            draws.line as int,
        ),
        total_frames(final(script)@.lines) == total_frames(old(script)@.lines),
        final(script)@.wf(),
        starts_with_bulk(old(script)@.lines) ==> starts_with_bulk(final(script)@.lines),
        forall|k: int|
            strafes_to_yaw_at(old(script)@.lines, k) ==> strafes_to_yaw_at(final(script)@.lines, k),
        r matches Some(report) ==> {
            &&& report.stale_frame == first_frame_of(old(script)@.lines, draws.line as int)
            &&& report.stale_frame < total_frames(old(script)@.lines)
            &&& report.yaw_nudge matches Some(nudge) ==> strafes_to_yaw_at(
                final(script)@.lines,
                nudge.line as int,
            )
            &&& agree_before(final(script)@.lines, old(script)@.lines, report.stale_frame as int)
        },
{
    let ghost lines = script@.lines;
    let l = draws.line;
    let mut bulk = match script.frame_bulk(l) {
        Some(bulk) => bulk.clone(),
        None => {
            return None;
        },
    };
    let stale_frame = script.first_frame_of_line(l);
    let yaw = resample_segment(&mut bulk, draws);
    let yaw_nudge = if yaw {
        Some(YawNudge { line: l, large: draws.large_yaw })
    } else {
        None
    };
    let shifted = match next_frame_bulk(script, l) {
        Some(m) => {
            let next = match script.frame_bulk(m) {
                Some(next) => next,
                None => unreached(),
            };
            if next.frame_time == bulk.frame_time {
                let mut next = next.clone();
                let counts = shift_counts(bulk.frame_count, next.frame_count, draws.boundary_shift);
                bulk.frame_count = counts.0;
                next.frame_count = counts.1;
                Some((m, next))
            } else {
                None
            }
        },
        None => None,
    };
    script.put_frame_bulk(l, bulk);
    match shifted {
        Some((m, next)) => {
            script.put_frame_bulk(m, next);
        },
        None => {},
    }
    proof {
        lemma_segment_mutated(lines, *draws);
    }
    Some(SegmentMutation { stale_frame, yaw_nudge })
}

/// The lines of the script that are frame bulks, in order.
fn frame_bulk_lines(script: &Script) -> (r: Vec<usize>)
    ensures
        forall|j: int|
            0 <= j < r@.len() ==> (#[trigger] r@[j]) < script@.lines.len()
                && script@.lines[r@[j] as int] is FrameBulk,
        r@.len() == 0 ==> forall|l: int|
            0 <= l < script@.lines.len() ==> !(#[trigger] script@.lines[l] is FrameBulk),
{
    let ghost lines = script@.lines;
    let mut found: Vec<usize> = Vec::new();
    let mut i: usize = 0;
    while i < script.lines.len()
        invariant
            i <= script.lines.len(),
            lines == script@.lines,
            lines.len() == script.lines.len(),
            forall|j: int|
                0 <= j < found@.len() ==> (#[trigger] found@[j]) < lines.len()
                    && lines[found@[j] as int] is FrameBulk,
            found@.len() == 0 ==> forall|l: int|
                0 <= l < i ==> !(#[trigger] lines[l] is FrameBulk),
        decreases script.lines.len() - i,
    {
        match &script.lines[i] {
            Line::FrameBulk(_) => {
                found.push(i);
            },
            _ => {},
        }
        i += 1;
    }
    found
}

/// Draws what becomes of the frame bulk in line `line`, which must be one.
fn draw_segment(rng: &mut StdRng, script: &Script, line: usize) -> (r: SegmentDraws)
    requires
        script@.wf(),
        line < script@.lines.len(),
        script@.lines[line as int] is FrameBulk,
    ensures
        r.line == line,
        r.strafe_percent < 100,
        -10 <= r.count_delta < 10,
        -10 <= r.boundary_shift < 10,
{
    let bulk = match script.frame_bulk(line) {
        Some(bulk) => bulk,
        None => unreached(),
    };
    let mut draws = SegmentDraws {
        line,
        strafe_percent: 0,
        large_yaw: false,
        count_delta: 0,
        invert: false,
        flip_use: false,
        auto_actions: AutoActionDraws { toggle_duck_before_ground: false, leave_ground: None },
        boundary_shift: 0,
    };
    match bulk.auto_actions.movement {
        Some(AutoMovement::Strafe(settings)) => {
            draws.strafe_percent = draw_below(rng, 100);
            match settings.dir {
                StrafeDir::Yaw(_) => {
                    draws.large_yaw = draw_ratio(rng, 1, 20);
                },
                StrafeDir::LeftRight(_) | StrafeDir::RightLeft(_) => {
                    draws.count_delta = draw_below(rng, 20) as i64 - 10;
                    draws.invert = draw_ratio(rng, 1, 20);
                },
                StrafeDir::Left | StrafeDir::Right => {
                    draws.invert = draw_ratio(rng, 1, 20);
                },
                _ => {},
            }
        },
        _ => {},
    }
    draws.flip_use = draw_use_flip(rng);
    draws.auto_actions = draw_auto_actions(rng);
    match next_frame_bulk(script, line) {
        Some(m) => {
            let next = match script.frame_bulk(m) {
                Some(next) => next,
                None => unreached(),
            };
            if next.frame_time == bulk.frame_time {
                let (lowest, highest) = shift_range(next.frame_count);
                let width = (highest - lowest + 1) as u64;
                draws.boundary_shift = lowest + draw_below(rng, width) as i64;
            }
        },
        None => {},
    }
    draws
}

/// Changes one whole frame bulk of the script at random. The bulk is picked
/// evenly among the frame bulks. Where it strafes, its type is drawn anew,
/// and its direction changes by its kind: a side or an alternation is turned
/// around one time in twenty; the count of an alternation moves by up to ten;
/// a yaw is left for the caller to change, widely one time in twenty. Keys and
/// actions are switched over at random. Where another bulk follows with the
/// same frame time, up to ten frames move between the two.
///
/// Returns `None`, with the script as it was, when the script has no frame
/// bulk.
pub fn mutate_single_frame_bulk(script: &mut Script, rng: &mut StdRng) -> (r: Option<
    SegmentMutation,
>)
    requires
        old(script)@.wf(),
    ensures
        final(script)@.properties == old(script)@.properties,
        match r {
            Some(report) => exists|draws: SegmentDraws|
                {
                    &&& draws.strafe_percent < 100
                    &&& -10 <= draws.count_delta < 10
                    &&& -10 <= draws.boundary_shift < 10
                    &&& #[trigger] segment_report(old(script)@.lines, draws) == Some(report)
                    &&& final(script)@.lines == segment_mutated(old(script)@.lines, draws)
                },
            None => {
                &&& final(script)@.lines == old(script)@.lines
                &&& forall|l: int|
                    0 <= l < old(script)@.lines.len() ==> !(#[trigger] old(script)@.lines[l]
                        is FrameBulk)
            },
        },
        final(script)@.lines.len() == old(script)@.lines.len(),
        total_frames(final(script)@.lines) == total_frames(old(script)@.lines),
        final(script)@.wf(),
        starts_with_bulk(old(script)@.lines) ==> starts_with_bulk(final(script)@.lines),
        forall|k: int|
            strafes_to_yaw_at(old(script)@.lines, k) ==> strafes_to_yaw_at(final(script)@.lines, k),
        r matches Some(report) ==> {
            &&& report.stale_frame < total_frames(old(script)@.lines)
            &&& report.yaw_nudge matches Some(nudge) ==> strafes_to_yaw_at(
                final(script)@.lines,
                nudge.line as int,
            )
            &&& agree_before(final(script)@.lines, old(script)@.lines, report.stale_frame as int)
        },
{
    let bulks = frame_bulk_lines(script);
    if bulks.len() == 0 {
        return None;
    }
    let index = draw_below(rng, bulks.len() as u64) as usize;
    let line = bulks[index];
    let draws = draw_segment(rng, script, line);
    mutate_single_frame_bulk_with(script, &draws)
}

/// One random change to a script, with the outcome of its draws.
#[derive(Clone, Copy, Debug, PartialEq, Eq, Structural)]
pub enum Edit {
    /// The frame of this number is changed.
    Frame(usize, FrameDraws),
    /// The whole frame bulk in the line that the draws name is changed.
    Segment(SegmentDraws),
}

/// The lines after one change.
pub open spec fn changed(lines: Seq<LineView>, change: Edit) -> Seq<LineView> {
    match change {
        Edit::Frame(frame, draws) => frame_mutated(lines, frame as int, draws),
        Edit::Segment(draws) => segment_mutated(lines, draws),
    }
}

/// The first frame that a change may affect: the frame itself, or the first
/// frame of the bulk.
pub open spec fn stale_frame_of(lines: Seq<LineView>, change: Edit) -> int {
    match change {
        Edit::Frame(frame, draws) => frame as int,
        Edit::Segment(draws) => first_frame_of(lines, draws.line as int) as int,
    }
}

/// The change to a yaw that a change to the script leaves to be made.
pub open spec fn yaw_nudge_of(lines: Seq<LineView>, change: Edit) -> Option<YawNudge> {
    match change {
        Edit::Frame(frame, draws) => None,
        Edit::Segment(draws) => match segment_report(lines, draws) {
            Some(report) => report.yaw_nudge,
            None => None,
        },
    }
}

/// A change as the search makes it: to a single frame below the limit, or to
/// a whole frame bulk, as the mode says, with draws from their ranges.
pub open spec fn fitting_change(
    lines: Seq<LineView>,
    change: Edit,
    single_frames: bool,
    limit: int,
) -> bool {
    match change {
        Edit::Frame(frame, draws) => single_frames && frame < limit && draws.strafe_percent
            < 100,
        Edit::Segment(draws) => {
            &&& !single_frames
            &&& draws.line < lines.len()
            &&& lines[draws.line as int] is FrameBulk
            &&& draws.strafe_percent < 100
            &&& -10 <= draws.count_delta < 10
            &&& -10 <= draws.boundary_shift < 10
        },
    }
}

/// Makes one random change to a script that starts with a frame bulk: to a
/// single frame, picked evenly among the first `limit` frames, where
/// `single_frames` is set, else to a whole frame bulk. Returns the first
/// frame that the change may affect, and the change to a yaw that is left to
/// be made.
pub fn mutate_once(script: &mut Script, rng: &mut StdRng, single_frames: bool, limit: usize) -> (r:
    (usize, Option<YawNudge>))
    requires
        old(script)@.wf(),
        starts_with_bulk(old(script)@.lines),
        0 < limit <= total_frames(old(script)@.lines),
    ensures
        final(script)@.properties == old(script)@.properties,
        exists|change: Edit|
            {
                &&& fitting_change(old(script)@.lines, change, single_frames, limit as int)
                &&& final(script)@.lines == #[trigger] changed(old(script)@.lines, change)
                &&& r.0 == stale_frame_of(old(script)@.lines, change)
                &&& r.1 == yaw_nudge_of(old(script)@.lines, change)
            },
        r.0 < total_frames(old(script)@.lines),
        total_frames(final(script)@.lines) == total_frames(old(script)@.lines),
        final(script)@.wf(),
        starts_with_bulk(final(script)@.lines),
        agree_before(final(script)@.lines, old(script)@.lines, r.0 as int),
        !single_frames ==> forall|k: int|
            strafes_to_yaw_at(old(script)@.lines, k) ==> strafes_to_yaw_at(final(script)@.lines, k),
        r.1 matches Some(nudge) ==> strafes_to_yaw_at(final(script)@.lines, nudge.line as int),
        single_frames ==> r.1 is None,
{
    let ghost before = script@.lines;
    if single_frames {
        let frame = draw_below(rng, limit as u64) as usize;
        mutate_frame(rng, script, frame);
        proof {
            let draws = choose|draws: FrameDraws|
                draws.strafe_percent < 100 && script@.lines == frame_mutated(
                    before,
                    frame as int,
                    draws,
                );
            let change = Edit::Frame(frame, draws);
            assert(script@.lines == changed(before, change));
        }
        (frame, None)
    } else {
        let report = match mutate_single_frame_bulk(script, rng) {
            Some(report) => report,
            None => {
                unreached()
            },
        };
        proof {
            let draws = choose|draws: SegmentDraws|
                {
                    &&& draws.strafe_percent < 100
                    &&& -10 <= draws.count_delta < 10
                    &&& -10 <= draws.boundary_shift < 10
                    &&& #[trigger] segment_report(before, draws) == Some(report)
                    &&& script@.lines == segment_mutated(before, draws)
                };
            lemma_first_frames_ordered(before, draws.line as int, before.len() as int);
            let change = Edit::Segment(draws);
            assert(script@.lines == changed(before, change));
        }
        (report.stale_frame, report.yaw_nudge)
    }
}

/// The lines after the changes are made one after the other.
pub open spec fn all_changed(lines: Seq<LineView>, changes: Seq<Edit>) -> Seq<LineView>
    decreases changes.len(),
{
    if changes.len() == 0 {
        lines
    } else {
        changed(all_changed(lines, changes.drop_last()), changes.last())
    }
}

/// Every one of the changes is as the search makes it, in the script as it
/// is when the change is made.
pub open spec fn fitting_changes(
    lines: Seq<LineView>,
    changes: Seq<Edit>,
    single_frames: bool,
    limit: int,
) -> bool
    decreases changes.len(),
{
    if changes.len() == 0 {
        true
    } else {
        &&& fitting_changes(lines, changes.drop_last(), single_frames, limit)
        &&& fitting_change(
            all_changed(lines, changes.drop_last()),
            changes.last(),
            single_frames,
            limit,
        )
    }
}

/// The earliest of `start` and the first frames that the changes may affect,
/// each taken in the script as it is when the change is made.
pub open spec fn earliest_stale(lines: Seq<LineView>, changes: Seq<Edit>, start: int) -> int
    decreases changes.len(),
{
    if changes.len() == 0 {
        start
    } else {
        let before = earliest_stale(lines, changes.drop_last(), start);
        let stale = stale_frame_of(all_changed(lines, changes.drop_last()), changes.last());
        if stale < before {
            stale
        } else {
            before
        }
    }
}

/// The changes to yaws that the changes to the script leave to be made, in
/// order.
pub open spec fn yaw_nudges_of(lines: Seq<LineView>, changes: Seq<Edit>) -> Seq<YawNudge>
    decreases changes.len(),
{
    if changes.len() == 0 {
        Seq::empty()
    } else {
        let before = yaw_nudges_of(lines, changes.drop_last());
        match yaw_nudge_of(all_changed(lines, changes.drop_last()), changes.last()) {
            Some(nudge) => before.push(nudge),
            None => before,
        }
    }
}

} // verus!
