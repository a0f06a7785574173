//! Simplifying a finished script without changing what it does.
//!
//! The minimizer walks the frame bulks in order. On each it tries to drop the
//! use key, the leave-ground action and ducking before the ground, one after
//! the other. Whether a bulk still moves the player as before is for the
//! caller to find out, by simulating it: the minimizer says what to simulate
//! next, and takes the answer with the next step. At the end, neighbouring
//! bulks that differ only in their number of frames are joined.

use crate::agreement::{lemma_unrolled_concat, lemma_unrolled_one, unrolled, unrolled_line};
use crate::script::{
    bulks_wf, frames_in, lemma_total_frames_update, lines_view, total_frames, FrameBulk,
    FrameBulkView, Line, LineView, Script, ScriptView,
};
use crate::types::{ActionKeys, AutoActions, DuckBeforeGround, LeaveGroundAction};
use vstd::prelude::*;

verus! {

/// What the minimizer looks at next in a frame bulk.
#[derive(Clone, Copy, Debug, PartialEq, Eq, Structural)]
pub enum Stage {
    /// The bulk has not been simulated yet.
    Enter,
    UseKey,
    LeaveGround,
    DuckBeforeGround,
}

/// What the caller is to do next.
#[derive(Debug, PartialEq, Eq)]
pub enum Step<S> {
    /// Simulate the frame bulk in this line from the state `from`, and give
    /// the state it leads to with the next step.
    Baseline { line: usize, from: S },
    /// The frame bulk in this line has lost one setting. Simulate it as it
    /// now is from the state `from`, and give with the next step the state it
    /// leads to, and whether the player is there as in `baseline`.
    Trial { line: usize, from: S, baseline: S },
    /// Every frame bulk has been looked at.
    Done,
}

/// The caller's answer to a step: the state that the simulated bulk led to,
/// and, for a trial, whether the player is there as in the baseline.
#[derive(Debug, PartialEq, Eq)]
pub struct Outcome<S> {
    pub state: S,
    pub unchanged: bool,
}

impl<S: Copy> Clone for Step<S> {
    fn clone(&self) -> (r: Self)
        ensures
            r == *self,
    {
        *self
    }
}

impl<S: Copy> Copy for Step<S> {

}

impl<S: Copy> Clone for Outcome<S> {
    fn clone(&self) -> (r: Self)
        ensures
            r == *self,
    {
        *self
    }
}

impl<S: Copy> Copy for Outcome<S> {

}

/// What a trial dropped, to be put back where the trial fails.
#[derive(Clone, Copy, Debug, PartialEq, Eq, Structural)]
pub enum Removed {
    UseKey,
    LeaveGround(LeaveGroundAction),
    DuckBeforeGround(DuckBeforeGround),
}

/// What the caller was asked to simulate.
#[derive(Clone, Copy, Debug, PartialEq, Eq, Structural)]
pub enum Asked {
    /// The bulk as it was found.
    Baseline,
    /// The bulk without this setting.
    Trial(Removed),
}

/// A step that awaits its answer.
#[derive(Clone, Copy, Debug, PartialEq, Eq, Structural)]
pub struct Pending {
    pub line: usize,
    pub asked: Asked,
}

/// A script on its way through the minimizer.
#[derive(Debug)]
pub struct Minimizer<S> {
    pub script: Script,
    /// The line that is looked at next.
    pub line: usize,
    pub stage: Stage,
    pub pending: Option<Pending>,
    /// The state before the bulk at hand.
    pub before: S,
    /// The state after the bulk at hand, as far as it is settled; before the
    /// first bulk, the state that the script starts from.
    pub after: S,
}

/// The bulk without the setting that a trial drops.
pub open spec fn without(bulk: FrameBulkView, removed: Removed) -> FrameBulkView {
    match removed {
        Removed::UseKey => FrameBulkView {
            action_keys: ActionKeys { use_: false, ..bulk.action_keys },
            ..bulk
        },
        Removed::LeaveGround(_) => FrameBulkView {
            auto_actions: AutoActions { leave_ground_action: None, ..bulk.auto_actions },
            ..bulk
        },
        Removed::DuckBeforeGround(_) => FrameBulkView {
            auto_actions: AutoActions { duck_before_ground: None, ..bulk.auto_actions },
            ..bulk
        },
    }
}

/// The bulk with the setting back in place that a trial dropped.
pub open spec fn with_back(bulk: FrameBulkView, removed: Removed) -> FrameBulkView {
    match removed {
        Removed::UseKey => FrameBulkView {
            action_keys: ActionKeys { use_: true, ..bulk.action_keys },
            ..bulk
        },
        Removed::LeaveGround(action) => FrameBulkView {
            auto_actions: AutoActions { leave_ground_action: Some(action), ..bulk.auto_actions },
            ..bulk
        },
        Removed::DuckBeforeGround(duck) => FrameBulkView {
            auto_actions: AutoActions { duck_before_ground: Some(duck), ..bulk.auto_actions },
            ..bulk
        },
    }
}

/// The setting that the given stage would drop from the bulk, if the bulk has
/// it.
pub open spec fn removable(bulk: FrameBulkView, stage: Stage) -> Option<Removed> {
    match stage {
        Stage::Enter => None,
        Stage::UseKey => if bulk.action_keys.use_ {
            Some(Removed::UseKey)
        } else {
            None
        },
        Stage::LeaveGround => match bulk.auto_actions.leave_ground_action {
            Some(action) => Some(Removed::LeaveGround(action)),
            None => None,
        },
        Stage::DuckBeforeGround => match bulk.auto_actions.duck_before_ground {
            Some(duck) => Some(Removed::DuckBeforeGround(duck)),
            None => None,
        },
    }
}

/// The place of a stage in the order in which a bulk is looked at.
pub open spec fn stage_rank(stage: Stage) -> nat {
    match stage {
        Stage::Enter => 0,
        Stage::UseKey => 1,
        Stage::LeaveGround => 2,
        Stage::DuckBeforeGround => 3,
    }
}

/// Where the minimizer stands between two steps.
pub struct Cursor {
    pub line: int,
    pub stage: Stage,
}

/// Where the walk goes from `(line, stage)` when that place gives nothing to
/// do, or is done with: to the next stage of the bulk, or to the next line.
pub open spec fn after(line: int, stage: Stage) -> Cursor {
    match stage {
        Stage::Enter => Cursor { line, stage: Stage::UseKey },
        Stage::UseKey => Cursor { line, stage: Stage::LeaveGround },
        Stage::LeaveGround => Cursor { line, stage: Stage::DuckBeforeGround },
        Stage::DuckBeforeGround => Cursor { line: line + 1, stage: Stage::Enter },
    }
}

/// The first place at or after `(line, stage)` that gives the caller
/// something to do: a frame bulk that is entered, or a setting that a bulk
/// has and the stage would drop. Past the last line when there is none.
pub open spec fn next_stop(lines: Seq<LineView>, line: int, stage: Stage) -> Cursor
    decreases lines.len() - line, 4 - stage_rank(stage),
{
    if line < 0 || line >= lines.len() {
        Cursor { line: lines.len() as int, stage: Stage::Enter }
    } else if !(lines[line] is FrameBulk) {
        next_stop(lines, line + 1, Stage::Enter)
    } else if stage == Stage::Enter || removable(lines[line]->FrameBulk_0, stage) is Some {
        Cursor { line, stage }
    } else {
        next_stop(lines, after(line, stage).line, after(line, stage).stage)
    }
}

/// Whether the answer lets the pending trial pass.
pub open spec fn passes<S>(answer: Option<Outcome<S>>) -> bool {
    answer matches Some(outcome) && outcome.unchanged
}

/// The lines once the pending step has its answer: as they are, unless a
/// trial was pending and did not pass; then the dropped setting is back in
/// place.
pub open spec fn settled<S>(
    lines: Seq<LineView>,
    pending: Option<Pending>,
    answer: Option<Outcome<S>>,
) -> Seq<LineView> {
    match pending {
        Some(Pending { line, asked: Asked::Trial(removed) }) => if !passes(answer) && line
            < lines.len() && lines[line as int] is FrameBulk {
            lines.update(
                line as int,
                LineView::FrameBulk(with_back(lines[line as int]->FrameBulk_0, removed)),
            )
        } else {
            lines
        },
        _ => lines,
    }
}

/// The state after the bulk at hand once the pending step has its answer:
/// the state that the answer gives, where it answers a baseline or lets a
/// trial pass; else as before.
pub open spec fn settled_state<S>(
    after: S,
    pending: Option<Pending>,
    answer: Option<Outcome<S>>,
) -> S {
    match (pending, answer) {
        (Some(Pending { line, asked: Asked::Baseline }), Some(outcome)) => outcome.state,
        (Some(Pending { line, asked: Asked::Trial(removed) }), Some(outcome)) => if outcome.unchanged {
            outcome.state
        } else {
            after
        },
        _ => after,
    }
}

/// What a minimizer holds, with its script as sequences.
pub struct MinimizerView<S> {
    pub script: ScriptView,
    pub line: int,
    pub stage: Stage,
    pub pending: Option<Pending>,
    pub before: S,
    pub after: S,
}

impl<S> View for Minimizer<S> {
    type V = MinimizerView<S>;

    open spec fn view(&self) -> MinimizerView<S> {
        MinimizerView {
            script: self.script@,
            line: self.line as int,
            stage: self.stage,
            pending: self.pending,
            before: self.before,
            after: self.after,
        }
    }
}

/// What the walk asks of the caller: it goes from `(line, stage)` to its
/// next stop, with `before` the state before the bulk at hand and `state` the
/// state after it.
pub open spec fn walk_request<S>(
    lines: Seq<LineView>,
    line: int,
    stage: Stage,
    before: S,
    state: S,
) -> Step<S> {
    let stop = next_stop(lines, line, stage);
    if stop.line >= lines.len() {
        Step::Done
    } else if stop.stage == Stage::Enter {
        Step::Baseline { line: stop.line as usize, from: state }
    } else {
        Step::Trial { line: stop.line as usize, from: before, baseline: state }
    }
}

/// The minimizer after the walk from `(line, stage)` to its next stop. Where
/// it enters a frame bulk, the state after the bulk before becomes the state
/// before this one. Where it stops at a setting to drop, the bulk is without
/// it.
pub open spec fn walked<S>(
    script: ScriptView,
    line: int,
    stage: Stage,
    before: S,
    state: S,
) -> MinimizerView<S> {
    let lines = script.lines;
    let stop = next_stop(lines, line, stage);
    if stop.line >= lines.len() {
        MinimizerView {
            script,
            line: stop.line,
            stage: Stage::Enter,
            pending: None,
            before,
            after: state,
        }
    } else if stop.stage == Stage::Enter {
        MinimizerView {
            script,
            line: stop.line,
            stage: Stage::UseKey,
            pending: Some(Pending { line: stop.line as usize, asked: Asked::Baseline }),
            before: state,
            after: state,
        }
    } else {
        let bulk = lines[stop.line]->FrameBulk_0;
        let removed = removable(bulk, stop.stage)->0;
        MinimizerView {
            script: ScriptView {
                properties: script.properties,
                lines: lines.update(stop.line, LineView::FrameBulk(without(bulk, removed))),
            },
            line: after(stop.line, stop.stage).line,
            stage: after(stop.line, stop.stage).stage,
            pending: Some(Pending { line: stop.line as usize, asked: Asked::Trial(removed) }),
            before,
            after: state,
        }
    }
}

/// What one step of the minimizer asks of the caller.
pub open spec fn stepped_request<S>(m: MinimizerView<S>, answer: Option<Outcome<S>>) -> Step<S> {
    walk_request(
        settled(m.script.lines, m.pending, answer),
        m.line,
        m.stage,
        m.before,
        settled_state(m.after, m.pending, answer),
    )
}

/// The minimizer after one step: the pending step is settled by the answer;
/// then the walk goes on to its next stop.
pub open spec fn stepped<S>(m: MinimizerView<S>, answer: Option<Outcome<S>>) -> MinimizerView<S> {
    walked(
        ScriptView {
            properties: m.script.properties,
            lines: settled(m.script.lines, m.pending, answer),
        },
        m.line,
        m.stage,
        m.before,
        settled_state(m.after, m.pending, answer),
    )
}

/// Changing the settings of the bulk in line `l`, but not its number of
/// frames, keeps the frame count of the script and its well-formedness.
pub proof fn lemma_same_count_update(lines: Seq<LineView>, l: int, bulk: FrameBulkView)
    requires
        0 <= l < lines.len(),
        lines[l] is FrameBulk,
        bulk.frame_count == lines[l]->FrameBulk_0.frame_count,
        bulk.auto_actions.movement == lines[l]->FrameBulk_0.auto_actions.movement,
    ensures
        total_frames(lines.update(l, LineView::FrameBulk(bulk))) == total_frames(lines),
        bulks_wf(lines) ==> bulks_wf(lines.update(l, LineView::FrameBulk(bulk))),
{
    lemma_total_frames_update(lines, l, LineView::FrameBulk(bulk));
}

/// Puts back into the bulk what a trial dropped.
fn put_back(bulk: &mut FrameBulk, removed: Removed)
    ensures
        final(bulk)@ == with_back(old(bulk)@, removed),
        final(bulk)@.frame_count == old(bulk)@.frame_count,
        final(bulk)@.auto_actions.movement == old(bulk)@.auto_actions.movement,
{
    match removed {
        Removed::UseKey => {
            bulk.action_keys.use_ = true;
        },
        Removed::LeaveGround(action) => {
            bulk.auto_actions.leave_ground_action = Some(action);
        },
        Removed::DuckBeforeGround(duck) => {
            bulk.auto_actions.duck_before_ground = Some(duck);
        },
    }
}

/// Drops from the bulk the setting that the stage is about, where the bulk
/// has it, and says what was dropped.
fn take_away(bulk: &mut FrameBulk, stage: Stage) -> (r: Option<Removed>)
    ensures
        r == removable(old(bulk)@, stage),
        r matches Some(removed) ==> final(bulk)@ == without(old(bulk)@, removed),
        r is None ==> final(bulk)@ == old(bulk)@,
        final(bulk)@.frame_count == old(bulk)@.frame_count,
        final(bulk)@.auto_actions.movement == old(bulk)@.auto_actions.movement,
{
    match stage {
        Stage::Enter => None,
        Stage::UseKey => {
            if bulk.action_keys.use_ {
                bulk.action_keys.use_ = false;
                Some(Removed::UseKey)
            } else {
                None
            }
        },
        Stage::LeaveGround => {
            match bulk.auto_actions.leave_ground_action {
                Some(action) => {
                    bulk.auto_actions.leave_ground_action = None;
                    Some(Removed::LeaveGround(action))
                },
                None => None,
            }
        },
        Stage::DuckBeforeGround => {
            match bulk.auto_actions.duck_before_ground {
                Some(duck) => {
                    bulk.auto_actions.duck_before_ground = None;
                    Some(Removed::DuckBeforeGround(duck))
                },
                None => None,
            }
        },
    }
}

/// The place after `(line, stage)`, for a line of the script.
fn advance(line: usize, stage: Stage) -> (r: (usize, Stage))
    requires
        line < usize::MAX,
    ensures
        r.0 == after(line as int, stage).line,
        r.1 == after(line as int, stage).stage,
{
    match stage {
        Stage::Enter => (line, Stage::UseKey),
        Stage::UseKey => (line, Stage::LeaveGround),
        Stage::LeaveGround => (line, Stage::DuckBeforeGround),
        Stage::DuckBeforeGround => (line + 1, Stage::Enter),
    }
}

impl<S: Copy> Minimizer<S> {
    /// A minimizer at the start of the script, which is simulated on from the
    /// state `start`.
    pub fn new(script: Script, start: S) -> (r: Minimizer<S>)
        ensures
            r@ == (MinimizerView {
                script: script@,
                line: 0,
                stage: Stage::Enter,
                pending: None,
                before: start,
                after: start,
            }),
    {
        Minimizer { script, line: 0, stage: Stage::Enter, pending: None, before: start, after: start }
    }

    /// Settles the pending step by the answer.
    fn settle(&mut self, answer: Option<Outcome<S>>)
        ensures
            final(self)@ == (MinimizerView {
                script: ScriptView {
                    properties: old(self)@.script.properties,
                    lines: settled(old(self)@.script.lines, old(self)@.pending, answer),
                },
                pending: None,
                after: settled_state(old(self)@.after, old(self)@.pending, answer),
                ..old(self)@
            }),
            final(self)@.script.lines.len() == old(self)@.script.lines.len(),
            total_frames(final(self)@.script.lines) == total_frames(old(self)@.script.lines),
            old(self)@.script.wf() ==> final(self)@.script.wf(),
    {
        let pending = self.pending;
        self.pending = None;
        match (pending, answer) {
            (Some(Pending { line, asked: Asked::Baseline }), Some(outcome)) => {
                self.after = outcome.state;
            },
            (Some(Pending { line, asked: Asked::Trial(removed) }), answer) => {
                match answer {
                    Some(outcome) => {
                        if outcome.unchanged {
                            self.after = outcome.state;
                            return ;
                        }
                    },
                    None => {},
                }
                let mut bulk = match self.script.frame_bulk(line) {
                    Some(bulk) => bulk.clone(),
                    None => {
                        return ;
                    },
                };
                put_back(&mut bulk, removed);
                proof {
                    lemma_same_count_update(self.script@.lines, line as int, bulk@);
                }
                self.script.put_frame_bulk(line, bulk);
            },
            _ => {},
        }
    }

    /// Takes the answer to the pending step and says what to do next.
    ///
    /// The answer to a baseline gives the state after the bulk. The answer to
    /// a trial lets the trial pass or fail: where it passes, the setting
    /// stays away and the state after the bulk is the one that the answer
    /// gives; where it fails, or no answer is given, the setting is put back.
    /// With no step pending the answer means nothing.
    ///
    /// Then the walk goes on to the next frame bulk to enter, or to the next
    /// setting to drop, and drops it.
    pub fn step(&mut self, answer: Option<Outcome<S>>) -> (r: Step<S>)
        ensures
            final(self)@ == stepped(old(self)@, answer),
            r == stepped_request(old(self)@, answer),
            final(self)@.script.lines.len() == old(self)@.script.lines.len(),
            total_frames(final(self)@.script.lines) == total_frames(old(self)@.script.lines),
            old(self)@.script.wf() ==> final(self)@.script.wf(),
    {
        self.settle(answer);
        let ghost lines = self@.script.lines;
        let ghost start = Cursor { line: old(self)@.line, stage: old(self)@.stage };
        let len = self.script.lines.len();
        loop
            invariant
                self@.script.lines == lines,
                self@.script.properties == old(self)@.script.properties,
                self@.pending is None,
                self@.before == old(self)@.before,
                self@.after == settled_state(old(self)@.after, old(self)@.pending, answer),
                lines.len() == len,
                lines == settled(old(self)@.script.lines, old(self)@.pending, answer),
                start == (Cursor { line: old(self)@.line, stage: old(self)@.stage }),
                total_frames(lines) == total_frames(old(self)@.script.lines),
                old(self)@.script.wf() ==> bulks_wf(lines),
                next_stop(lines, self@.line, self@.stage) == next_stop(
                    lines,
                    start.line,
                    start.stage,
                ),
            decreases len - self.line, 4 - stage_rank(self.stage),
        {
            if self.line >= len {
                self.line = len;
                self.stage = Stage::Enter;
                return Step::Done;
            }
            let line = self.line;
            let stage = self.stage;
            let mut bulk = match self.script.frame_bulk(line) {
                Some(bulk) => bulk.clone(),
                None => {
                    self.line = line + 1;
                    self.stage = Stage::Enter;
                    continue ;
                },
            };
            let next = advance(line, stage);
            self.line = next.0;
            self.stage = next.1;
            if stage == Stage::Enter {
                self.before = self.after;
                self.pending = Some(Pending { line, asked: Asked::Baseline });
                return Step::Baseline { line, from: self.before };
            }
            let removed = take_away(&mut bulk, stage);
            match removed {
                Some(removed) => {
                    proof {
                        lemma_same_count_update(lines, line as int, bulk@);
                    }
                    self.script.put_frame_bulk(line, bulk);
                    self.pending = Some(Pending { line, asked: Asked::Trial(removed) });
                    return Step::Trial { line, from: self.before, baseline: self.after };
                },
                None => {},
            }
        }
    }
}

/// Whether `line` can be joined to the line before it, `last`: both are
/// frame bulks, they agree in everything but their number of frames, and the
/// two numbers together fit in 32 bits.
pub open spec fn absorbs(last: LineView, line: LineView) -> bool {
    &&& last is FrameBulk
    &&& line is FrameBulk
    &&& last->FrameBulk_0.with_count(0) == line->FrameBulk_0.with_count(0)
    &&& last->FrameBulk_0.frame_count + line->FrameBulk_0.frame_count <= u32::MAX
}

/// The lines with `line` added at the end: joined to the last line where
/// [`absorbs`] allows it, else as a line of its own.
pub open spec fn appended(lines: Seq<LineView>, line: LineView) -> Seq<LineView> {
    if lines.len() > 0 && absorbs(lines.last(), line) {
        let last = lines.last()->FrameBulk_0;
        lines.drop_last().push(
            LineView::FrameBulk(
                last.with_count((last.frame_count + line->FrameBulk_0.frame_count) as u32),
            ),
        )
    } else {
        lines.push(line)
    }
}

/// The lines with every run of neighbouring frame bulks that differ only in
/// their number of frames joined into one bulk, which lasts as long as the
/// run, as far as its number of frames fits in 32 bits.
pub open spec fn joined(lines: Seq<LineView>) -> Seq<LineView>
    decreases lines.len(),
{
    if lines.len() == 0 {
        lines
    } else {
        appended(joined(lines.drop_last()), lines.last())
    }
}

/// Adding a line keeps the frames of both sides.
pub proof fn lemma_appended_keeps_frames(lines: Seq<LineView>, line: LineView)
    ensures
        total_frames(appended(lines, line)) == total_frames(lines) + frames_in(line),
        bulks_wf(lines) && (line is FrameBulk ==> line->FrameBulk_0.wf()) ==> bulks_wf(
            appended(lines, line),
        ),
        appended(lines, line).len() > 0,
{
    let out = appended(lines, line);
    if lines.len() > 0 && absorbs(lines.last(), line) {
        assert(out.drop_last() =~= lines.drop_last());
    } else {
        assert(out.drop_last() =~= lines);
    }
    if bulks_wf(lines) && (line is FrameBulk ==> line->FrameBulk_0.wf()) {
        assert forall|i: int|
            0 <= i < out.len() && (#[trigger] out[i]) is FrameBulk implies
            out[i]->FrameBulk_0.wf() by {
            if i == out.len() - 1 && lines.len() > 0 && absorbs(lines.last(), line) {
                assert(lines[lines.len() - 1]->FrameBulk_0.wf());
            }
        }
    }
}

/// Joining keeps every frame of the script.
pub proof fn lemma_joined_keeps_frames(lines: Seq<LineView>)
    ensures
        total_frames(joined(lines)) == total_frames(lines),
        bulks_wf(lines) ==> bulks_wf(joined(lines)),
        joined(lines).len() <= lines.len(),
    decreases lines.len(),
{
    if lines.len() > 0 {
        lemma_joined_keeps_frames(lines.drop_last());
        lemma_appended_keeps_frames(joined(lines.drop_last()), lines.last());
    }
}

/// No frame bulk among the lines has a console command.
pub open spec fn no_commands(lines: Seq<LineView>) -> bool {
    forall|i: int|
        0 <= i < lines.len() && (#[trigger] lines[i]) is FrameBulk
            ==> lines[i]->FrameBulk_0.console_command is None
}

/// Where no frame bulk has a console command, joining changes how the script
/// is written, not what it asks of the simulation: frame by frame, the joined
/// script is the script.
pub proof fn lemma_joined_asks_the_same(lines: Seq<LineView>)
    requires
        no_commands(lines),
    ensures
        unrolled(joined(lines)) == unrolled(lines),
        no_commands(joined(lines)),
    decreases lines.len(),
{
    if lines.len() > 0 {
        let front = lines.drop_last();
        let line = lines.last();
        lemma_joined_asks_the_same(front);
        let out = joined(front);
        let all = appended(out, line);
        if out.len() > 0 && absorbs(out.last(), line) {
            let last = out.last()->FrameBulk_0;
            let sum = LineView::FrameBulk(
                last.with_count((last.frame_count + line->FrameBulk_0.frame_count) as u32),
            );
            let rest = out.drop_last();
            assert(all =~= rest + seq![sum]);
            lemma_unrolled_concat(rest, seq![out.last()]);
            lemma_unrolled_concat(rest, seq![sum]);
            lemma_unrolled_one(out.last());
            lemma_unrolled_one(sum);
            assert(unrolled(rest) + unrolled_line(out.last()) + unrolled_line(line) =~= unrolled(
                rest,
            ) + (unrolled_line(out.last()) + unrolled_line(line)));
        } else {
            assert(all.drop_last() =~= out);
        }
    }
}

/// Joins neighbouring frame bulks that differ only in their number of frames.
pub fn join_frame_bulks(lines: &Vec<Line>) -> (r: Vec<Line>)
    ensures
        lines_view(r@) == joined(lines_view(lines@)),
        total_frames(lines_view(r@)) == total_frames(lines_view(lines@)),
        bulks_wf(lines_view(lines@)) ==> bulks_wf(lines_view(r@)),
{
    let ghost all = lines_view(lines@);
    let mut out: Vec<Line> = Vec::new();
    let mut i: usize = 0;
    while i < lines.len()
        invariant
            i <= lines.len(),
            all == lines_view(lines@),
            lines_view(out@) == joined(all.take(i as int)),
        decreases lines.len() - i,
    {
        assert(all.take(i + 1).drop_last() =~= all.take(i as int));
        let count = out.len();
        let mut merged: Option<FrameBulk> = None;
        if count > 0 {
            match (&out[count - 1], &lines[i]) {
                (Line::FrameBulk(last), Line::FrameBulk(bulk)) => {
                    if last.same_settings(bulk) && last.frame_count <= u32::MAX - bulk.frame_count {
                        let mut sum = last.clone();
                        sum.frame_count = last.frame_count + bulk.frame_count;
                        merged = Some(sum);
                    }
                },
                _ => {},
            }
        }
        match merged {
            Some(sum) => {
                out.set(count - 1, Line::FrameBulk(sum));
            },
            None => {
                out.push(lines[i].clone());
            },
        }
        i += 1;
    }
    assert(all.take(lines.len() as int) =~= all);
    proof {
        lemma_joined_keeps_frames(all);
    }
    out
}

impl<S: Copy> Minimizer<S> {
    /// The script as the minimizer leaves it, with neighbouring frame bulks
    /// joined that differ only in their number of frames.
    pub fn finish(self) -> (r: Script)
        ensures
            r@.properties == self@.script.properties,
            r@.lines == joined(self@.script.lines),
            total_frames(r@.lines) == total_frames(self@.script.lines),
            self@.script.wf() ==> r@.wf(),
    {
        let lines = join_frame_bulks(&self.script.lines);
        Script { properties: self.script.properties, lines }
    }
}

} // verus!
