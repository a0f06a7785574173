//! The editor: the script under search, its simulated history, and the rules
//! by which attempts are proposed, accepted and exchanged with remote
//! simulators.
//!
//! The editor never simulates and never judges a trajectory. Its caller does
//! both and hands the outcome over; the editor decides what follows.

use crate::agreement::{agree_before, lemma_agree_transitive};
use crate::minimizer::{joined, Minimizer, MinimizerView, Stage};
use crate::mutation::{
    all_changed, changed, earliest_stale, fitting_change, fitting_changes, mutate_once,
    stale_frame_of, strafes_to_yaw_at, yaw_nudge_of, yaw_nudges_of, Edit, YawNudge,
};
use crate::script::{
    clone_lines, empty_bulk, lemma_frame_has_one_line, lemma_total_frames_concat,
    lemma_total_frames_update, line_of, lines_view, starts_with_bulk, total_frames, FrameBulk,
    Line, LineView, PropertiesView, Script, ScriptView,
};
use crate::types::Scalar;
use rand::rngs::StdRng;
use vstd::pervasive::unreached;
use vstd::prelude::*;

verus! {

/// One simulated frame: the parameters it was simulated with, and the state it
/// led to. Both belong to the simulation; the editor only keeps them in order.
#[derive(Debug)]
pub struct Frame<P, S> {
    pub parameters: P,
    pub state: S,
}

impl<P: Copy, S: Copy> Clone for Frame<P, S> {
    fn clone(&self) -> (r: Self)
        ensures
            r == *self,
    {
        *self
    }
}

impl<P: Copy, S: Copy> Copy for Frame<P, S> {

}

/// How an attempt compares with the best trajectory so far.
#[derive(Debug)]
pub enum AttemptResult {
    Better { value: String },
    /// Worse, by a difference that is at most zero.
    Worse { difference: Scalar },
    Invalid,
}

/// Why a script cannot be searched.
#[derive(Clone, Copy, Debug, PartialEq, Eq, Structural)]
pub enum StructuralError {
    /// A count that must be positive is zero, or the script has more frames
    /// than an index can name.
    Malformed,
    /// The script has no frame of the given number.
    OutOfRange,
}

/// Why simulated frames cannot be taken.
#[derive(Clone, Copy, Debug, PartialEq, Eq, Structural)]
pub enum SimulationError {
    /// There is not one frame for each frame of the script that was to be
    /// simulated.
    FramesDoNotFit,
}

/// The console command that makes a remote simulator start recording frames.
pub open spec fn start_marker() -> Seq<char> {
    "_bxt_tas_optim_simulation_start_recording_frames"@
}

/// The console command that tells a remote simulator that the script is over.
pub open spec fn done_marker() -> Seq<char> {
    "_bxt_tas_optim_simulation_done;toggleconsole"@
}

/// A script under search: the part that stays, the part that is searched,
/// and the frames that the best version so far leads to.
pub struct Editor<P, S> {
    /// The first part of the script, which is not searched.
    pub prefix: Script,
    /// The part of the script that is searched. It starts with a frame bulk.
    pub body: Script,
    /// The frames that `body` leads to, after the frame it starts from:
    /// either that first frame alone, or one more frame for each frame of
    /// `body`.
    pub frames: Vec<Frame<P, S>>,
    /// The frames of the latest attempt that was turned down.
    pub preview: Option<Vec<Frame<P, S>>>,
    /// Tag of the scripts sent out for simulation; results with another tag
    /// are dropped.
    pub generation: u16,
    pub temperature: Scalar,
    /// The factor by which the temperature falls.
    pub cooling_rate: Scalar,
    /// How many attempts are made at one temperature.
    pub max_iterations: usize,
    pub current_iterations: usize,
}

/// What an editor holds, with its scripts and frames as sequences.
pub struct EditorView<P, S> {
    pub prefix: ScriptView,
    pub body: ScriptView,
    pub frames: Seq<Frame<P, S>>,
    pub preview: Option<Seq<Frame<P, S>>>,
    pub generation: u16,
    pub temperature: Scalar,
    pub cooling_rate: Scalar,
    pub max_iterations: usize,
    pub current_iterations: usize,
}

/// The frames of an optional history.
pub open spec fn frames_view<P, S>(frames: Option<Vec<Frame<P, S>>>) -> Option<Seq<Frame<P, S>>> {
    match frames {
        Some(frames) => Some(frames@),
        None => None,
    }
}

impl<P, S> View for Editor<P, S> {
    type V = EditorView<P, S>;

    open spec fn view(&self) -> EditorView<P, S> {
        EditorView {
            prefix: self.prefix@,
            body: self.body@,
            frames: self.frames@,
            preview: frames_view(self.preview),
            generation: self.generation,
            temperature: self.temperature,
            cooling_rate: self.cooling_rate,
            max_iterations: self.max_iterations,
            current_iterations: self.current_iterations,
        }
    }
}

/// A script that can be searched: well-formed, and starting with a frame bulk.
pub open spec fn searchable(script: ScriptView) -> bool {
    script.wf() && starts_with_bulk(script.lines)
}

/// A history that fits a script: the starting frame, and a frame for each
/// frame of the script.
pub open spec fn fits<P, S>(frames: Seq<Frame<P, S>>, script: ScriptView) -> bool {
    frames.len() == total_frames(script.lines) + 1
}

impl<P, S> EditorView<P, S> {
    /// The body can be searched, and the history is the starting frame alone
    /// or fits the body.
    pub open spec fn wf(self) -> bool {
        &&& searchable(self.body)
        &&& (self.frames.len() == 1 || fits(self.frames, self.body))
    }
}

/// The part of a script before line `l`.
pub open spec fn part_before(script: ScriptView, l: int) -> ScriptView {
    ScriptView { properties: script.properties, lines: script.lines.take(l) }
}

/// The part of a script from line `l` on, a frame bulk, which loses its
/// console command.
pub open spec fn part_from(script: ScriptView, l: int) -> ScriptView {
    ScriptView {
        properties: script.properties,
        lines: script.lines.skip(l).update(
            0,
            LineView::FrameBulk(script.lines[l]->FrameBulk_0.without_command()),
        ),
    }
}

/// The part of a well-formed script from a frame bulk on can be searched.
pub proof fn lemma_part_from_searchable(script: ScriptView, l: int)
    requires
        script.wf(),
        0 <= l < script.lines.len(),
        script.lines[l] is FrameBulk,
    ensures
        searchable(part_from(script, l)),
{
    let lines = script.lines;
    let tail = lines.skip(l);
    let first = LineView::FrameBulk(lines[l]->FrameBulk_0.without_command());
    assert(lines =~= lines.take(l) + tail);
    lemma_total_frames_concat(lines.take(l), tail);
    lemma_total_frames_update(tail, 0, first);
}

impl<P: Copy, S: Copy> Editor<P, S> {
    /// An editor for the part of `script` from the line that holds frame
    /// number `first_frame` on. The lines before it become the prefix. The
    /// first line of the searched part loses its console command. The history
    /// is `initial_frame` alone.
    pub fn new(
        script: Script,
        first_frame: usize,
        initial_frame: Frame<P, S>,
        generation: u16,
        temperature: Scalar,
        cooling_rate: Scalar,
        max_iterations: usize,
        current_iterations: usize,
    ) -> (r: Result<Self, StructuralError>)
        ensures
            r matches Err(StructuralError::Malformed) <==> !script@.wf(),
            r matches Err(StructuralError::OutOfRange) <==> script@.wf() && first_frame
                >= total_frames(script@.lines),
            r matches Ok(editor) ==> {
                let l = line_of(script@.lines, first_frame as int);
                &&& editor@ == (EditorView {
                    prefix: part_before(script@, l),
                    body: part_from(script@, l),
                    frames: seq![initial_frame],
                    preview: None,
                    generation,
                    temperature,
                    cooling_rate,
                    max_iterations,
                    current_iterations,
                })
                &&& editor@.wf()
            },
    {
        if !script.is_wf() {
            return Err(StructuralError::Malformed);
        }
        let l = match script.line_and_repeat_at_frame(first_frame) {
            Some((l, _)) => l,
            None => {
                return Err(StructuralError::OutOfRange);
            },
        };
        proof {
            lemma_frame_has_one_line(script@.lines, first_frame as int);
            lemma_part_from_searchable(script@, l as int);
        }
        let ghost whole = script@;
        let mut script = script;
        let mut first = match script.frame_bulk(l) {
            Some(bulk) => bulk.clone(),
            None => unreached(),
        };
        first.console_command = None;
        let tail = script.lines.split_off(l);
        let prefix = Script { properties: script.properties.clone(), lines: script.lines };
        let mut body = Script { properties: script.properties, lines: tail };
        assert(prefix@.lines =~= whole.lines.take(l as int));
        assert(body@.lines =~= whole.lines.skip(l as int));
        body.put_frame_bulk(0, first);
        let mut frames: Vec<Frame<P, S>> = Vec::new();
        frames.push(initial_frame);
        Ok(
            Editor {
                prefix,
                body,
                frames,
                preview: None,
                generation,
                temperature,
                cooling_rate,
                max_iterations,
                current_iterations,
            },
        )
    }

    /// Whether the body can be searched and the history is the starting frame
    /// alone or fits the body.
    pub fn is_wf(&self) -> (r: bool)
        ensures
            r == self@.wf(),
    {
        if !self.body.is_wf() || self.body.frame_bulk(0).is_none() {
            return false;
        }
        let total = self.body.frame_total();
        self.frames.len() == 1 || (total < usize::MAX && self.frames.len() == total + 1)
    }

    /// The temperature of the search.
    pub fn get_temperature(&self) -> (r: Scalar)
        ensures
            r == self@.temperature,
    {
        self.temperature
    }

    /// Ends a round of attempts at one temperature where it is over: once
    /// more attempts were made than `max_iterations`, the temperature becomes
    /// `cooled` and the count of attempts starts again at zero. Says whether
    /// that was so. `cooled` is for the caller to compute: the temperature
    /// times the cooling rate.
    pub fn update_temperature(&mut self, cooled: Scalar) -> (r: bool)
        ensures
            r == (old(self)@.current_iterations > old(self)@.max_iterations),
            r ==> final(self)@ == (EditorView {
                temperature: cooled,
                current_iterations: 0,
                ..old(self)@
            }),
            !r ==> final(self)@ == old(self)@,
    {
        if self.current_iterations > self.max_iterations {
            self.temperature = cooled;
            self.current_iterations = 0;
            true
        } else {
            false
        }
    }

    /// Takes the frames that simulating the body from the end of the history
    /// gave. They are added to the history where it then fits the body; else
    /// nothing changes.
    pub fn simulate_all(&mut self, simulated: Vec<Frame<P, S>>) -> (r: Result<
        (),
        SimulationError,
    >)
        requires
            old(self)@.wf(),
        ensures
            r is Ok <==> fits(old(self)@.frames + simulated@, old(self)@.body),
            r is Ok ==> final(self)@ == (EditorView {
                frames: old(self)@.frames + simulated@,
                ..old(self)@
            }),
            r is Err ==> final(self)@ == old(self)@,
            final(self)@.wf(),
    {
        let total = self.body.frame_total();
        let have = self.frames.len();
        if simulated.len() == total - (have - 1) {
            let mut simulated = simulated;
            self.frames.append(&mut simulated);
            Ok(())
        } else {
            Err(SimulationError::FramesDoNotFit)
        }
    }
}

/// The whole script: the prefix, then the body.
pub open spec fn whole(prefix: ScriptView, body: ScriptView) -> ScriptView {
    ScriptView { properties: prefix.properties, lines: prefix.lines + body.lines }
}

/// The script that goes out for simulation: the prefix; then the candidate,
/// whose first line, a frame bulk, has the start marker for its console
/// command; then one more frame of a millisecond, whose console command is
/// the done marker.
pub open spec fn payload(prefix: ScriptView, candidate: ScriptView) -> ScriptView {
    ScriptView {
        properties: prefix.properties,
        lines: prefix.lines + candidate.lines.update(
            0,
            LineView::FrameBulk(candidate.lines[0]->FrameBulk_0.with_command(start_marker())),
        ) + seq![LineView::FrameBulk(empty_bulk("0.001"@).with_command(done_marker()))],
    }
}

/// The candidate that a script sent out for simulation holds, behind a
/// prefix of `prefix_len` lines: the lines after the prefix but for the last
/// one, the first of them, a frame bulk, without its console command. Its
/// properties are the ones given. `None` where the script is too short for
/// that, or that line is no frame bulk.
pub open spec fn unwrapped(
    sent: ScriptView,
    prefix_len: int,
    properties: PropertiesView,
) -> Option<ScriptView> {
    if prefix_len + 2 <= sent.lines.len() && sent.lines[prefix_len] is FrameBulk {
        Some(
            ScriptView {
                properties,
                lines: sent.lines.subrange(prefix_len, sent.lines.len() - 1).update(
                    0,
                    LineView::FrameBulk(sent.lines[prefix_len]->FrameBulk_0.without_command()),
                ),
            },
        )
    } else {
        None
    }
}

/// What comes back from a simulator is what went out: unwrapping a payload
/// gives the candidate, with no console command in its first line.
pub proof fn lemma_payload_round_trip(prefix: ScriptView, candidate: ScriptView)
    requires
        starts_with_bulk(candidate.lines),
    ensures
        unwrapped(
            payload(prefix, candidate),
            prefix.lines.len() as int,
            candidate.properties,
        ) == Some(
            ScriptView {
                properties: candidate.properties,
                lines: candidate.lines.update(
                    0,
                    LineView::FrameBulk(candidate.lines[0]->FrameBulk_0.without_command()),
                ),
            },
        ),
{
    let sent = payload(prefix, candidate);
    let n = prefix.lines.len() as int;
    let got = unwrapped(sent, n, candidate.properties)->0;
    assert(got.lines =~= candidate.lines.update(
        0,
        LineView::FrameBulk(candidate.lines[0]->FrameBulk_0.without_command()),
    ));
}

/// The count of attempts after one more, which stops at the greatest number.
pub open spec fn one_more(count: usize) -> usize {
    if count < usize::MAX {
        (count + 1) as usize
    } else {
        count
    }
}

/// Whether an attempt takes the place of the best so far: its script can be
/// searched, its frames fit its script, and it is better, or worse and
/// favoured by chance.
pub open spec fn accepts<P, S>(
    script: ScriptView,
    frames: Seq<Frame<P, S>>,
    result: AttemptResult,
    chance: bool,
) -> bool {
    &&& searchable(script)
    &&& fits(frames, script)
    &&& (result is Better || (result is Worse && chance))
}

/// The editor after an attempt is settled: an accepted one becomes the body
/// and the history, any other one the preview. Either way one more attempt
/// is counted.
pub open spec fn concluded<P, S>(
    editor: EditorView<P, S>,
    script: ScriptView,
    frames: Seq<Frame<P, S>>,
    result: AttemptResult,
    chance: bool,
) -> EditorView<P, S> {
    if accepts(script, frames, result, chance) {
        EditorView {
            body: script,
            frames,
            current_iterations: one_more(editor.current_iterations),
            ..editor
        }
    } else {
        EditorView {
            preview: Some(frames),
            current_iterations: one_more(editor.current_iterations),
            ..editor
        }
    }
}

/// The editor after the frames of a first remote simulation arrive: where it
/// still waits for them, the tag is its generation and there is a frame for
/// each frame of the body, they follow the starting frame in the history.
/// Else nothing changes.
pub open spec fn received_initial<P, S>(
    editor: EditorView<P, S>,
    generation: u16,
    frames: Seq<Frame<P, S>>,
) -> EditorView<P, S> {
    if editor.frames.len() == 1 && generation == editor.generation && frames.len()
        == total_frames(editor.body.lines) {
        EditorView { frames: seq![editor.frames[0]] + frames, ..editor }
    } else {
        editor
    }
}

/// Among how many frames single frames are picked to change: all the frames
/// of a history of `have` frames after the starting frame, or the first
/// `frames` of them where that number is positive and smaller.
pub open spec fn frame_limit(have: int, frames: int) -> int {
    if 0 < frames < have - 1 {
        frames
    } else {
        have - 1
    }
}

/// One attempt at a better script, before it is simulated.
pub struct Attempt<P, S> {
    /// The body with the random changes made.
    pub script: Script,
    /// The first frame whose simulation the changes may affect.
    pub stale_frame: usize,
    /// The yaws that are due a random change before the script is simulated.
    pub yaw_nudges: Vec<YawNudge>,
    /// The history up to the stale frame, from which to simulate on.
    pub history: Vec<Frame<P, S>>,
}

impl<P: Copy, S: Copy> Editor<P, S> {
    /// The finished script: the prefix, then the body.
    pub fn save(&self) -> (r: Script)
        ensures
            r@ == whole(self@.prefix, self@.body),
    {
        let mut lines = clone_lines(&self.prefix.lines);
        let mut body = clone_lines(&self.body.lines);
        let ghost first = lines@;
        let ghost second = body@;
        lines.append(&mut body);
        assert(lines_view(lines@) =~= lines_view(first) + lines_view(second));
        Script { properties: self.prefix.properties.clone(), lines }
    }

    /// The script to send out for the simulation of `candidate`, or `None`
    /// where the candidate does not start with a frame bulk.
    pub fn prepare_hltas_for_sending(&self, candidate: &Script) -> (r: Option<Script>)
        ensures
            r is Some <==> starts_with_bulk(candidate@.lines),
            r matches Some(sent) ==> sent@ == payload(self@.prefix, candidate@),
    {
        let mut first = match candidate.frame_bulk(0) {
            Some(bulk) => bulk.clone(),
            None => {
                return None;
            },
        };
        first.console_command = Some("_bxt_tas_optim_simulation_start_recording_frames".to_owned());
        let mut last = FrameBulk::with_frame_time("0.001".to_owned());
        last.console_command = Some("_bxt_tas_optim_simulation_done;toggleconsole".to_owned());
        let mut lines = clone_lines(&self.prefix.lines);
        let mut body = clone_lines(&candidate.lines);
        body.set(0, Line::FrameBulk(first));
        body.push(Line::FrameBulk(last));
        lines.append(&mut body);
        let sent = Script { properties: self.prefix.properties.clone(), lines };
        assert(sent@.lines =~= payload(self@.prefix, candidate@).lines);
        Some(sent)
    }

    /// The history that frames simulated remotely stand for: the starting
    /// frame, then those frames.
    pub fn splice(&self, received: Vec<Frame<P, S>>) -> (r: Vec<Frame<P, S>>)
        requires
            self@.wf(),
        ensures
            r@ == seq![self@.frames[0]] + received@,
    {
        let mut received = received;
        received.insert(0, self.frames[0]);
        received
    }

    /// Makes the next tag the generation, so that whatever is still out for
    /// simulation is dropped when it comes back. Says whether there was a
    /// next tag.
    pub fn advance_generation(&mut self) -> (r: bool)
        ensures
            r == (old(self)@.generation < u16::MAX),
            r ==> final(self)@ == (EditorView {
                generation: (old(self)@.generation + 1) as u16,
                ..old(self)@
            }),
            !r ==> final(self)@ == old(self)@,
    {
        if self.generation < u16::MAX {
            self.generation = self.generation + 1;
            true
        } else {
            false
        }
    }

    /// Settles an attempt that was simulated and judged. A better one is
    /// accepted; a worse one is accepted where `chance` says so; an invalid
    /// one never is, nor one whose script cannot be searched or whose frames
    /// do not fit its script. An accepted attempt becomes the body and the
    /// history; any other is kept as the preview. Says whether the attempt
    /// was accepted.
    pub fn conclude(
        &mut self,
        script: Script,
        frames: Vec<Frame<P, S>>,
        result: &AttemptResult,
        chance: bool,
    ) -> (r: bool)
        requires
            old(self)@.wf(),
        ensures
            r == accepts(script@, frames@, *result, chance),
            final(self)@ == concluded(old(self)@, script@, frames@, *result, chance),
            final(self)@.wf(),
    {
        if self.current_iterations < usize::MAX {
            self.current_iterations = self.current_iterations + 1;
        }
        let favoured = match result {
            AttemptResult::Better { .. } => true,
            AttemptResult::Worse { .. } => chance,
            AttemptResult::Invalid => false,
        };
        let sound = script.is_wf() && script.frame_bulk(0).is_some();
        let have = frames.len();
        let fitting = if sound {
            let total = script.frame_total();
            total < usize::MAX && have == total + 1
        } else {
            false
        };
        if favoured && fitting {
            self.body = script;
            self.frames = frames;
            true
        } else {
            self.preview = Some(frames);
            false
        }
    }
}

impl<P: Copy, S: Copy> Editor<P, S> {
    /// The history up to frame number `last`.
    fn history_to(&self, last: usize) -> (r: Vec<Frame<P, S>>)
        requires
            last < self@.frames.len(),
        ensures
            r@ == self@.frames.take(last + 1),
    {
        let mut history: Vec<Frame<P, S>> = Vec::new();
        let len = self.frames.len();
        let mut i: usize = 0;
        while i <= last
            invariant
                i <= last + 1,
                last < len,
                len == self.frames@.len(),
                history@ == self.frames@.take(i as int),
            decreases last + 1 - i,
        {
            history.push(self.frames[i]);
            assert(self.frames@.take(i + 1) =~= self.frames@.take(i as int).push(
                self.frames@[i as int],
            ));
            i += 1;
        }
        history
    }

    /// Proposes one attempt: a copy of the body with `random_frames_to_change`
    /// random changes made, each to a single frame where
    /// `change_single_frames` is set, else to a whole frame bulk. Single
    /// frames are picked evenly among the frames of the body, or among its
    /// first `frames` frames where that number is positive and smaller.
    ///
    /// The attempt names the earliest frame that a change may affect, and
    /// holds the history up to that frame: before it, the attempt asks of the
    /// simulation what the body asks. Returns `None` while the history is the
    /// starting frame alone: there is nothing to search then.
    pub fn optimize(
        &self,
        rng: &mut StdRng,
        frames: usize,
        random_frames_to_change: usize,
        change_single_frames: bool,
    ) -> (r: Option<Attempt<P, S>>)
        requires
            self@.wf(),
        ensures
            r is None <==> self@.frames.len() == 1,
            r matches Some(attempt) ==> {
                &&& attempt.script@.properties == self@.body.properties
                &&& exists|changes: Seq<Edit>|
                    {
                        &&& changes.len() == random_frames_to_change
                        &&& fitting_changes(
                            self@.body.lines,
                            changes,
                            change_single_frames,
                            frame_limit(self@.frames.len() as int, frames as int),
                        )
                        &&& attempt.script@.lines == #[trigger] all_changed(
                            self@.body.lines,
                            changes,
                        )
                        &&& attempt.stale_frame == earliest_stale(
                            self@.body.lines,
                            changes,
                            self@.frames.len() - 1,
                        )
                        &&& attempt.yaw_nudges@ == yaw_nudges_of(self@.body.lines, changes)
                    }
                &&& attempt.history@ == self@.frames.take(attempt.stale_frame + 1)
                &&& attempt.stale_frame < self@.frames.len()
                &&& searchable(attempt.script@)
                &&& total_frames(attempt.script@.lines) == total_frames(self@.body.lines)
                &&& agree_before(
                    attempt.script@.lines,
                    self@.body.lines,
                    attempt.stale_frame as int,
                )
                &&& forall|i: int|
                    0 <= i < attempt.yaw_nudges@.len() ==> strafes_to_yaw_at(
                        attempt.script@.lines,
                        (#[trigger] attempt.yaw_nudges@[i]).line as int,
                    )
            },
    {
        if self.frames.len() == 1 {
            return None;
        }
        let total = self.frames.len() - 1;
        let high = if frames > 0 && frames < total {
            frames
        } else {
            total
        };
        let mut script = self.body.clone();
        let mut stale_frame = total;
        let mut yaw_nudges: Vec<YawNudge> = Vec::new();
        let mut done: usize = 0;
        let ghost mut changes: Seq<Edit> = Seq::empty();
        while done < random_frames_to_change
            invariant
                self@.wf(),
                total == total_frames(self@.body.lines),
                total == self@.frames.len() - 1,
                0 < high <= total,
                high == frame_limit(self@.frames.len() as int, frames as int),
                searchable(script@),
                script@.properties == self@.body.properties,
                total_frames(script@.lines) == total,
                stale_frame <= total,
                agree_before(script@.lines, self@.body.lines, stale_frame as int),
                forall|i: int|
                    0 <= i < yaw_nudges@.len() ==> strafes_to_yaw_at(
                        script@.lines,
                        (#[trigger] yaw_nudges@[i]).line as int,
                    ),
                done <= random_frames_to_change,
                changes.len() == done,
                fitting_changes(self@.body.lines, changes, change_single_frames, high as int),
                change_single_frames ==> yaw_nudges@.len() == 0,
                script@.lines == all_changed(self@.body.lines, changes),
                stale_frame == earliest_stale(self@.body.lines, changes, total as int),
                yaw_nudges@ == yaw_nudges_of(self@.body.lines, changes),
            decreases random_frames_to_change - done,
        {
            let ghost before = script@.lines;
            let ghost stale = stale_frame as int;
            let ghost made = changes;
            let (frame, nudge) = mutate_once(&mut script, rng, change_single_frames, high);
            match nudge {
                Some(nudge) => {
                    yaw_nudges.push(nudge);
                },
                None => {},
            }
            proof {
                let change = choose|change: Edit|
                    {
                        &&& fitting_change(
                            before,
                            change,
                            change_single_frames,
                            high as int,
                        )
                        &&& script@.lines == #[trigger] changed(before, change)
                        &&& frame == stale_frame_of(before, change)
                        &&& nudge == yaw_nudge_of(before, change)
                    };
                changes = made.push(change);
                assert(changes.drop_last() =~= made);
                lemma_agree_transitive(
                    script@.lines,
                    before,
                    self@.body.lines,
                    if frame < stale {
                        frame as int
                    } else {
                        stale
                    },
                    stale,
                );
            }
            if frame < stale_frame {
                stale_frame = frame;
            }
            done += 1;
        }
        let history = self.history_to(stale_frame);
        Some(Attempt { script, stale_frame, yaw_nudges, history })
    }

    /// Takes the frames of a first remote simulation, tagged with the
    /// generation they were sent out under. They follow the starting frame in
    /// the history where the editor still waits for them, the tag is its
    /// generation and there is a frame for each frame of the body; else they
    /// are dropped.
    pub fn poll_remote_clients_when_not_optimizing(
        &mut self,
        generation: u16,
        frames: Vec<Frame<P, S>>,
    )
        requires
            old(self)@.wf(),
        ensures
            final(self)@ == received_initial(old(self)@, generation, frames@),
            final(self)@.wf(),
    {
        if self.frames.len() == 1 && generation == self.generation {
            let total = self.body.frame_total();
            if frames.len() == total {
                self.frames = self.splice(frames);
            }
        }
    }

    /// One step towards the first simulation of the body, which a remote
    /// simulator is to make: takes what came back, if anything did, and where
    /// the history is then still the starting frame alone and no simulator is
    /// at work on this generation, returns the script to send out, with its
    /// tag.
    ///
    /// With a history that fits the body there is nothing to do: nothing
    /// changes, and nothing is to be sent.
    pub fn maybe_simulate_all_in_remote_client(
        &mut self,
        received: Option<(u16, Vec<Frame<P, S>>)>,
        any_client_simulating: bool,
    ) -> (r: Option<(Script, u16)>)
        requires
            old(self)@.wf(),
        ensures
            final(self)@ == (match received {
                Some((generation, frames)) => received_initial(old(self)@, generation, frames@),
                None => old(self)@,
            }),
            final(self)@.wf(),
            r is Some <==> final(self)@.frames.len() == 1 && !any_client_simulating,
            r matches Some((sent, tag)) ==> sent@ == payload(old(self)@.prefix, old(self)@.body)
                && tag == old(self)@.generation,
    {
        match received {
            Some((generation, frames)) => {
                self.poll_remote_clients_when_not_optimizing(generation, frames);
            },
            None => {},
        }
        if self.frames.len() > 1 || any_client_simulating {
            return None;
        }
        match self.prepare_hltas_for_sending(&self.body) {
            Some(sent) => Some((sent, self.generation)),
            None => unreached(),
        }
    }

    /// Takes the result of a remote simulation: the script as it was sent
    /// out, the tag it was sent out under, the history it led to (see
    /// [`Editor::splice`]), and how that history was judged.
    ///
    /// The result is dropped, and nothing changes, where the tag is not the
    /// generation, where the editor still waits for its first simulation, and
    /// where the script does not hold a candidate behind the prefix. Else the
    /// candidate, with the properties of the body, is settled as
    /// [`Editor::conclude`] says. Says whether it was accepted.
    pub fn optimize_with_remote_clients(
        &mut self,
        script: Script,
        generation: u16,
        frames: Vec<Frame<P, S>>,
        result: &AttemptResult,
        chance: bool,
    ) -> (r: bool)
        requires
            old(self)@.wf(),
        ensures
            final(self)@.wf(),
            generation != old(self)@.generation || old(self)@.frames.len() == 1 || unwrapped(
                script@,
                old(self)@.prefix.lines.len() as int,
                old(self)@.body.properties,
            ) is None ==> !r && final(self)@ == old(self)@,
            generation == old(self)@.generation && old(self)@.frames.len() != 1 ==> (unwrapped(
                script@,
                old(self)@.prefix.lines.len() as int,
                old(self)@.body.properties,
            ) matches Some(candidate) ==> r == accepts(candidate, frames@, *result, chance)
                && final(self)@ == concluded(old(self)@, candidate, frames@, *result, chance)),
    {
        if generation != self.generation || self.frames.len() == 1 {
            return false;
        }
        let ghost sent = script@;
        let prefix_len = self.prefix.lines.len();
        let len = script.lines.len();
        if len < 2 || prefix_len > len - 2 {
            return false;
        }
        let mut first = match script.frame_bulk(prefix_len) {
            Some(bulk) => bulk.clone(),
            None => {
                return false;
            },
        };
        first.console_command = None;
        let mut script = script;
        let mut lines = script.lines.split_off(prefix_len);
        lines.truncate(len - prefix_len - 1);
        let mut candidate = Script { properties: self.body.properties.clone(), lines };
        assert(candidate@.lines =~= sent.lines.subrange(prefix_len as int, len - 1));
        candidate.put_frame_bulk(0, first);
        self.conclude(candidate, frames, result, chance)
    }

    /// A minimizer for a copy of the body, which is simulated on from the
    /// state of the starting frame.
    pub fn minimizer(&self) -> (r: Minimizer<S>)
        requires
            self@.wf(),
        ensures
            r@ == (MinimizerView {
                script: self@.body,
                line: 0,
                stage: Stage::Enter,
                pending: None,
                before: self@.frames[0].state,
                after: self@.frames[0].state,
            }),
    {
        Minimizer::new(self.body.clone(), self.frames[0].state)
    }

    /// Takes the body back from a minimizer that has done its steps: joins
    /// the frame bulks that have become alike, and makes the outcome the
    /// body where it can be searched and has as many frames as the body had.
    /// Says whether it did.
    pub fn minimize(&mut self, minimizer: Minimizer<S>) -> (r: bool)
        requires
            old(self)@.wf(),
        ensures
            r == (searchable(minimized(minimizer@.script)) && total_frames(
                minimizer@.script.lines,
            ) == total_frames(old(self)@.body.lines)),
            r ==> final(self)@ == (EditorView {
                body: minimized(minimizer@.script),
                ..old(self)@
            }),
            !r ==> final(self)@ == old(self)@,
            final(self)@.wf(),
    {
        let script = minimizer.finish();
        if script.is_wf() && script.frame_bulk(0).is_some() {
            if script.frame_total() == self.body.frame_total() {
                self.body = script;
                return true;
            }
        }
        false
    }
}

/// A script with its alike neighbouring frame bulks joined.
pub open spec fn minimized(script: ScriptView) -> ScriptView {
    ScriptView { properties: script.properties, lines: joined(script.lines) }
}

} // verus!
