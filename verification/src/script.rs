//! Movement scripts: lines, frame bulks, and the frame-exact splitting of bulks.

use crate::types::{
    ActionKeys, AutoActions, AutoMovement, Buttons, Change, MovementKeys, Scalar, Seeds, StrafeDir,
    VectorialStrafingConstraints,
};
use vstd::prelude::*;

verus! {

/// A run of frames that share every setting.
#[derive(Debug)]
pub struct FrameBulk {
    pub auto_actions: AutoActions,
    pub movement_keys: MovementKeys,
    pub action_keys: ActionKeys,
    /// Duration of each frame, as the script spells it.
    pub frame_time: String,
    pub pitch: Option<Scalar>,
    /// How many frames the bulk lasts: at least one in a well-formed bulk.
    pub frame_count: u32,
    /// Console command that fires when the bulk starts.
    pub console_command: Option<String>,
}

/// What a frame bulk holds, with its texts as character sequences.
pub struct FrameBulkView {
    pub auto_actions: AutoActions,
    pub movement_keys: MovementKeys,
    pub action_keys: ActionKeys,
    pub frame_time: Seq<char>,
    pub pitch: Option<Scalar>,
    pub frame_count: u32,
    pub console_command: Option<Seq<char>>,
}

/// The characters of an optional text.
pub open spec fn text_view(s: Option<String>) -> Option<Seq<char>> {
    match s {
        Some(s) => Some(s@),
        None => None,
    }
}

impl FrameBulkView {
    /// The counts that must be positive are.
    pub open spec fn wf(self) -> bool {
        &&& self.frame_count >= 1
        &&& match self.auto_actions.movement {
            Some(AutoMovement::Strafe(settings)) => match settings.dir {
                StrafeDir::LeftRight(count) => count >= 1,
                StrafeDir::RightLeft(count) => count >= 1,
                _ => true,
            },
            _ => true,
        }
    }

    /// The same settings for another number of frames.
    pub open spec fn with_count(self, count: u32) -> FrameBulkView {
        FrameBulkView { frame_count: count, ..self }
    }

    /// The same settings without the console command.
    pub open spec fn without_command(self) -> FrameBulkView {
        FrameBulkView { console_command: None, ..self }
    }

    /// The same settings with the given console command.
    pub open spec fn with_command(self, command: Seq<char>) -> FrameBulkView {
        FrameBulkView { console_command: Some(command), ..self }
    }
}

/// A bulk of one frame of the given duration, with nothing pressed and no
/// automatic action.
pub open spec fn empty_bulk(frame_time: Seq<char>) -> FrameBulkView {
    FrameBulkView {
        auto_actions: AutoActions {
            movement: None,
            leave_ground_action: None,
            jump_bug: None,
            duck_before_collision: None,
            duck_before_ground: None,
            duck_when_jump: None,
        },
        movement_keys: MovementKeys {
            forward: false,
            left: false,
            right: false,
            back: false,
            up: false,
            down: false,
        },
        action_keys: ActionKeys {
            jump: false,
            duck: false,
            use_: false,
            attack_1: false,
            attack_2: false,
            reload: false,
        },
        frame_time,
        pitch: None,
        frame_count: 1,
        console_command: None,
    }
}

impl View for FrameBulk {
    type V = FrameBulkView;

    open spec fn view(&self) -> FrameBulkView {
        FrameBulkView {
            auto_actions: self.auto_actions,
            movement_keys: self.movement_keys,
            action_keys: self.action_keys,
            frame_time: self.frame_time@,
            pitch: self.pitch,
            frame_count: self.frame_count,
            console_command: text_view(self.console_command),
        }
    }
}

/// A copy of an optional text.
pub fn clone_text(s: &Option<String>) -> (r: Option<String>)
    ensures
        r == *s,
{
    match s {
        Some(t) => Some(t.clone()),
        None => None,
    }
}

/// Whether two optional texts read the same.
pub fn same_text(a: &Option<String>, b: &Option<String>) -> (r: bool)
    ensures
        r == (text_view(*a) == text_view(*b)),
{
    match (a, b) {
        (Some(x), Some(y)) => *x == *y,
        (None, None) => true,
        _ => false,
    }
}

impl Clone for FrameBulk {
    fn clone(&self) -> (r: Self)
        ensures
            r == *self,
    {
        FrameBulk {
            auto_actions: self.auto_actions,
            movement_keys: self.movement_keys,
            action_keys: self.action_keys,
            frame_time: self.frame_time.clone(),
            pitch: self.pitch,
            frame_count: self.frame_count,
            console_command: clone_text(&self.console_command),
        }
    }
}

impl PartialEq for FrameBulk {
    fn eq(&self, other: &Self) -> (r: bool)
    {
        self.auto_actions == other.auto_actions && self.movement_keys == other.movement_keys
            && self.action_keys == other.action_keys && self.frame_time == other.frame_time
            && self.pitch == other.pitch && self.frame_count == other.frame_count && same_text(
            &self.console_command,
            &other.console_command,
        )
    }
}

impl vstd::std_specs::cmp::PartialEqSpecImpl for FrameBulk {
    open spec fn obeys_eq_spec() -> bool {
        true
    }

    open spec fn eq_spec(&self, other: &Self) -> bool {
        self@ == other@
    }
}


impl FrameBulk {
    /// A bulk of one frame of the given duration, with nothing pressed and no
    /// automatic action.
    pub fn with_frame_time(frame_time: String) -> (r: FrameBulk)
        ensures
            r@ == empty_bulk(frame_time@),
    {
        FrameBulk {
            auto_actions: AutoActions::none(),
            movement_keys: MovementKeys::none(),
            action_keys: ActionKeys::none(),
            frame_time,
            pitch: None,
            frame_count: 1,
            console_command: None,
        }
    }

    /// Whether the counts that must be positive are.
    pub fn is_wf(&self) -> (r: bool)
        ensures
            r == self@.wf(),
    {
        if self.frame_count < 1 {
            return false;
        }
        match self.auto_actions.movement {
            Some(AutoMovement::Strafe(settings)) => match settings.dir {
                StrafeDir::LeftRight(count) => count >= 1,
                StrafeDir::RightLeft(count) => count >= 1,
                _ => true,
            },
            _ => true,
        }
    }

    /// Whether two bulks agree in everything but the number of frames.
    pub fn same_settings(&self, other: &FrameBulk) -> (r: bool)
        ensures
            r == (self@.with_count(0) == other@.with_count(0)),
    {
        self.auto_actions == other.auto_actions && self.movement_keys == other.movement_keys
            && self.action_keys == other.action_keys && self.frame_time == other.frame_time
            && self.pitch == other.pitch && same_text(&self.console_command, &other.console_command)
    }
}

/// One line of a script: a frame bulk, or one of the kinds that the search
/// passes through untouched.
#[derive(Debug)]
pub enum Line {
    FrameBulk(FrameBulk),
    /// Save and reload under this name.
    Save(String),
    /// Shared seed for the next load.
    SharedSeed(u32),
    Buttons(Buttons),
    /// Least speed for leaving the ground at the optimal speed.
    LGAGSTMinSpeed(Scalar),
    /// Restart the game with this non-shared seed.
    Reset { non_shared_seed: i64 },
    Comment(String),
    VectorialStrafing(bool),
    VectorialStrafingConstraints(VectorialStrafingConstraints),
    Change(Change),
    /// Yaws that replace the computed ones on the following frames.
    TargetYawOverride(Vec<Scalar>),
}

/// What a line holds, with its texts and lists as sequences.
pub enum LineView {
    FrameBulk(FrameBulkView),
    Save(Seq<char>),
    SharedSeed(u32),
    Buttons(Buttons),
    LGAGSTMinSpeed(Scalar),
    Reset { non_shared_seed: i64 },
    Comment(Seq<char>),
    VectorialStrafing(bool),
    VectorialStrafingConstraints(VectorialStrafingConstraints),
    Change(Change),
    TargetYawOverride(Seq<Scalar>),
}

impl View for Line {
    type V = LineView;

    open spec fn view(&self) -> LineView {
        match *self {
            Line::FrameBulk(bulk) => LineView::FrameBulk(bulk@),
            Line::Save(name) => LineView::Save(name@),
            Line::SharedSeed(seed) => LineView::SharedSeed(seed),
            Line::Buttons(buttons) => LineView::Buttons(buttons),
            Line::LGAGSTMinSpeed(speed) => LineView::LGAGSTMinSpeed(speed),
            Line::Reset { non_shared_seed } => LineView::Reset { non_shared_seed },
            Line::Comment(text) => LineView::Comment(text@),
            Line::VectorialStrafing(on) => LineView::VectorialStrafing(on),
            Line::VectorialStrafingConstraints(c) => LineView::VectorialStrafingConstraints(c),
            Line::Change(change) => LineView::Change(change),
            Line::TargetYawOverride(yaws) => LineView::TargetYawOverride(yaws@),
        }
    }
}

/// A copy of a list of scalars.
pub fn clone_scalars(v: &Vec<Scalar>) -> (r: Vec<Scalar>)
    ensures
        r@ == v@,
{
    let mut r: Vec<Scalar> = Vec::new();
    let mut i: usize = 0;
    while i < v.len()
        invariant
            i <= v.len(),
            r@ == v@.take(i as int),
        decreases v.len() - i,
    {
        r.push(v[i]);
        i += 1;
    }
    r
}

/// Whether two lists of scalars hold the same values in the same order.
pub fn same_scalars(a: &Vec<Scalar>, b: &Vec<Scalar>) -> (r: bool)
    ensures
        r == (a@ == b@),
{
    if a.len() != b.len() {
        return false;
    }
    let mut i: usize = 0;
    while i < a.len()
        invariant
            i <= a.len(),
            a.len() == b.len(),
            a@.take(i as int) == b@.take(i as int),
        decreases a.len() - i,
    {
        if a[i] != b[i] {
            return false;
        }
        i += 1;
    }
    assert(a@.take(a.len() as int) =~= a@);
    assert(b@.take(b.len() as int) =~= b@);
    true
}

impl Clone for Line {
    fn clone(&self) -> (r: Self)
        ensures
            r@ == self@,
    {
        match self {
            Line::FrameBulk(bulk) => Line::FrameBulk(bulk.clone()),
            Line::Save(name) => Line::Save(name.clone()),
            Line::SharedSeed(seed) => Line::SharedSeed(*seed),
            Line::Buttons(buttons) => Line::Buttons(*buttons),
            Line::LGAGSTMinSpeed(speed) => Line::LGAGSTMinSpeed(*speed),
            Line::Reset { non_shared_seed } => Line::Reset { non_shared_seed: *non_shared_seed },
            Line::Comment(text) => Line::Comment(text.clone()),
            Line::VectorialStrafing(on) => Line::VectorialStrafing(*on),
            Line::VectorialStrafingConstraints(c) => Line::VectorialStrafingConstraints(*c),
            Line::Change(change) => Line::Change(*change),
            Line::TargetYawOverride(yaws) => Line::TargetYawOverride(clone_scalars(yaws)),
        }
    }
}

impl PartialEq for Line {
    fn eq(&self, other: &Self) -> (r: bool) {
        match (self, other) {
            (Line::FrameBulk(a), Line::FrameBulk(b)) => *a == *b,
            (Line::Save(a), Line::Save(b)) => *a == *b,
            (Line::SharedSeed(a), Line::SharedSeed(b)) => *a == *b,
            (Line::Buttons(a), Line::Buttons(b)) => *a == *b,
            (Line::LGAGSTMinSpeed(a), Line::LGAGSTMinSpeed(b)) => *a == *b,
            (Line::Reset { non_shared_seed: a }, Line::Reset { non_shared_seed: b }) => *a == *b,
            (Line::Comment(a), Line::Comment(b)) => *a == *b,
            (Line::VectorialStrafing(a), Line::VectorialStrafing(b)) => *a == *b,
            (
                Line::VectorialStrafingConstraints(a),
                Line::VectorialStrafingConstraints(b),
            ) => *a == *b,
            (Line::Change(a), Line::Change(b)) => *a == *b,
            (Line::TargetYawOverride(a), Line::TargetYawOverride(b)) => same_scalars(a, b),
            _ => false,
        }
    }
}

impl vstd::std_specs::cmp::PartialEqSpecImpl for Line {
    open spec fn obeys_eq_spec() -> bool {
        true
    }

    open spec fn eq_spec(&self, other: &Self) -> bool {
        self@ == other@
    }
}

/// The properties that stand before the lines of a script.
#[derive(Debug)]
pub struct Properties {
    /// Demo to record.
    pub demo: Option<String>,
    /// Save to write when the script has run.
    pub save: Option<String>,
    /// Frame time of zero-millisecond duck taps.
    pub frametime_0ms: Option<String>,
    pub seeds: Option<Seeds>,
    /// Version of the movement prediction the script was made for; zero when
    /// the script names none.
    pub hlstrafe_version: u32,
    /// Command that loads the map or save before the script runs.
    pub load_command: Option<String>,
}

/// What the properties hold, with their texts as character sequences.
pub struct PropertiesView {
    pub demo: Option<Seq<char>>,
    pub save: Option<Seq<char>>,
    pub frametime_0ms: Option<Seq<char>>,
    pub seeds: Option<Seeds>,
    pub hlstrafe_version: u32,
    pub load_command: Option<Seq<char>>,
}

impl View for Properties {
    type V = PropertiesView;

    open spec fn view(&self) -> PropertiesView {
        PropertiesView {
            demo: text_view(self.demo),
            save: text_view(self.save),
            frametime_0ms: text_view(self.frametime_0ms),
            seeds: self.seeds,
            hlstrafe_version: self.hlstrafe_version,
            load_command: text_view(self.load_command),
        }
    }
}

impl Clone for Properties {
    fn clone(&self) -> (r: Self)
        ensures
            r == *self,
    {
        Properties {
            demo: clone_text(&self.demo),
            save: clone_text(&self.save),
            frametime_0ms: clone_text(&self.frametime_0ms),
            seeds: self.seeds,
            hlstrafe_version: self.hlstrafe_version,
            load_command: clone_text(&self.load_command),
        }
    }
}

impl PartialEq for Properties {
    fn eq(&self, other: &Self) -> (r: bool) {
        same_text(&self.demo, &other.demo) && same_text(&self.save, &other.save) && same_text(
            &self.frametime_0ms,
            &other.frametime_0ms,
        ) && self.seeds == other.seeds && self.hlstrafe_version == other.hlstrafe_version
            && same_text(&self.load_command, &other.load_command)
    }
}

impl vstd::std_specs::cmp::PartialEqSpecImpl for Properties {
    open spec fn obeys_eq_spec() -> bool {
        true
    }

    open spec fn eq_spec(&self, other: &Self) -> bool {
        self@ == other@
    }
}

impl Properties {
    /// No property set.
    pub fn none() -> (r: Properties)
        ensures
            r@ == (PropertiesView {
                demo: None,
                save: None,
                frametime_0ms: None,
                seeds: None,
                hlstrafe_version: 0,
                load_command: None,
            }),
    {
        Properties {
            demo: None,
            save: None,
            frametime_0ms: None,
            seeds: None,
            hlstrafe_version: 0,
            load_command: None,
        }
    }
}

/// The views of a run of lines.
pub open spec fn lines_view(lines: Seq<Line>) -> Seq<LineView> {
    Seq::new(lines.len(), |i: int| lines[i]@)
}

/// How many frames a line stands for.
pub open spec fn frames_in(line: LineView) -> nat {
    match line {
        LineView::FrameBulk(bulk) => bulk.frame_count as nat,
        _ => 0,
    }
}

/// How many frames a run of lines stands for.
pub open spec fn total_frames(lines: Seq<LineView>) -> nat
    decreases lines.len(),
{
    if lines.len() == 0 {
        0
    } else {
        total_frames(lines.drop_last()) + frames_in(lines.last())
    }
}

/// The index of the first frame of line `l`: the frames of the lines before it.
pub open spec fn first_frame_of(lines: Seq<LineView>, l: int) -> nat {
    total_frames(lines.take(l))
}

/// Line `l` is a frame bulk, and `frame` is one of its frames.
pub open spec fn holds_frame(lines: Seq<LineView>, l: int, frame: int) -> bool {
    &&& 0 <= l < lines.len()
    &&& lines[l] is FrameBulk
    &&& first_frame_of(lines, l) <= frame < first_frame_of(lines, l) + frames_in(lines[l])
}

/// The line that holds `frame`, for a frame of the script.
pub open spec fn line_of(lines: Seq<LineView>, frame: int) -> int {
    choose|l: int| holds_frame(lines, l, frame)
}

/// Where `frame` is: its line, and how many frames of that line come before
/// it. `None` when the script has no such frame.
pub open spec fn locate(lines: Seq<LineView>, frame: int) -> Option<(int, int)> {
    if 0 <= frame < total_frames(lines) {
        let l = line_of(lines, frame);
        Some((l, frame - first_frame_of(lines, l)))
    } else {
        None
    }
}

/// Every frame bulk among the lines is well-formed.
pub open spec fn bulks_wf(lines: Seq<LineView>) -> bool {
    forall|i: int|
        0 <= i < lines.len() && (#[trigger] lines[i]) is FrameBulk ==> lines[i]->FrameBulk_0.wf()
}

/// Lines put one after the other have the frames of both.
pub proof fn lemma_total_frames_concat(a: Seq<LineView>, b: Seq<LineView>)
    ensures
        total_frames(a + b) == total_frames(a) + total_frames(b),
    decreases b.len(),
{
    if b.len() != 0 {
        lemma_total_frames_concat(a, b.drop_last());
        assert((a + b).drop_last() =~= a + b.drop_last());
    }
}

/// A single line has its own frames.
pub proof fn lemma_total_frames_one(line: LineView)
    ensures
        total_frames(seq![line]) == frames_in(line),
{
    assert(seq![line].drop_last() =~= Seq::<LineView>::empty());
    assert(total_frames(Seq::<LineView>::empty()) == 0);
}

/// Putting another line in place of line `l` changes the frame count by the
/// difference between the two.
pub proof fn lemma_total_frames_update(lines: Seq<LineView>, l: int, line: LineView)
    requires
        0 <= l < lines.len(),
    ensures
        total_frames(lines.update(l, line)) + frames_in(lines[l]) == total_frames(lines)
            + frames_in(line),
        forall|k: int|
            0 <= k <= l ==> #[trigger] first_frame_of(lines.update(l, line), k) == first_frame_of(
                lines,
                k,
            ),
{
    let before = lines.take(l);
    let after = lines.skip(l + 1);
    assert(lines =~= before + seq![lines[l]] + after);
    assert(lines.update(l, line) =~= before + seq![line] + after);
    lemma_total_frames_concat(before, seq![lines[l]]);
    lemma_total_frames_concat(before + seq![lines[l]], after);
    lemma_total_frames_concat(before, seq![line]);
    lemma_total_frames_concat(before + seq![line], after);
    lemma_total_frames_one(lines[l]);
    lemma_total_frames_one(line);
    assert forall|k: int| 0 <= k <= l implies #[trigger] first_frame_of(
        lines.update(l, line),
        k,
    ) == first_frame_of(lines, k) by {
        assert(lines.update(l, line).take(k) =~= lines.take(k));
    }
}

/// A line starts where the line before it ends.
pub proof fn lemma_first_frame_next(lines: Seq<LineView>, l: int)
    requires
        0 <= l < lines.len(),
    ensures
        first_frame_of(lines, l + 1) == first_frame_of(lines, l) + frames_in(lines[l]),
{
    assert(lines.take(l + 1).drop_last() =~= lines.take(l));
}

/// The first frames of the lines never decrease, and stay within the total.
pub proof fn lemma_first_frames_ordered(lines: Seq<LineView>, i: int, j: int)
    requires
        0 <= i <= j <= lines.len(),
    ensures
        first_frame_of(lines, i) <= first_frame_of(lines, j) <= total_frames(lines),
        i < j ==> first_frame_of(lines, i) + frames_in(lines[i]) <= first_frame_of(lines, j),
{
    let a = lines.take(i);
    let b = lines.subrange(i, j);
    let c = lines.skip(j);
    assert(lines.take(j) =~= a + b);
    assert(lines =~= lines.take(j) + c);
    lemma_total_frames_concat(a, b);
    lemma_total_frames_concat(lines.take(j), c);
    if i < j {
        let rest = lines.subrange(i + 1, j);
        assert(b =~= seq![lines[i]] + rest);
        lemma_total_frames_concat(seq![lines[i]], rest);
        lemma_total_frames_one(lines[i]);
    }
}

/// A frame of the script lies in exactly one line.
pub proof fn lemma_frame_has_one_line(lines: Seq<LineView>, frame: int)
    ensures
        0 <= frame < total_frames(lines) <==> exists|l: int| holds_frame(lines, l, frame),
        forall|l: int, m: int|
            holds_frame(lines, l, frame) && holds_frame(lines, m, frame) ==> l == m,
        0 <= frame < total_frames(lines) ==> holds_frame(lines, line_of(lines, frame), frame),
    decreases lines.len(),
{
    assert forall|l: int, m: int|
        holds_frame(lines, l, frame) && holds_frame(lines, m, frame) implies l == m by {
        if l < m {
            lemma_first_frames_ordered(lines, l, m);
        } else if m < l {
            lemma_first_frames_ordered(lines, m, l);
        }
    }
    assert forall|l: int| holds_frame(lines, l, frame) implies 0 <= frame < total_frames(lines) by {
        lemma_first_frames_ordered(lines, l, l + 1);
        lemma_first_frames_ordered(lines, l + 1, lines.len() as int);
    }
    if 0 <= frame < total_frames(lines) {
        let front = lines.drop_last();
        let n = lines.len() - 1;
        if frame < total_frames(front) {
            lemma_frame_has_one_line(front, frame);
            let l = choose|l: int| holds_frame(front, l, frame);
            assert(front.take(l) =~= lines.take(l));
            assert(holds_frame(lines, l, frame));
        } else {
            assert(holds_frame(lines, n, frame));
        }
    }
}

/// The lines with line `l`, a frame bulk, cut in two before its frame number
/// `r`: the first `r` frames stay in line `l`, the rest follow in a new line
/// `l + 1`, which has the same settings but no console command.
pub open spec fn cut_line(lines: Seq<LineView>, l: int, r: int) -> Seq<LineView> {
    let bulk = lines[l]->FrameBulk_0;
    lines.update(l, LineView::FrameBulk(bulk.with_count(r as u32))).insert(
        l + 1,
        LineView::FrameBulk(bulk.with_count((bulk.frame_count - r) as u32).without_command()),
    )
}

/// The lines once a frame bulk starts at `frame`: unchanged when `frame` is
/// the first frame of its bulk or no frame of the script, else with that bulk
/// cut in two before `frame`.
pub open spec fn split_lines(lines: Seq<LineView>, frame: int) -> Seq<LineView> {
    match locate(lines, frame) {
        Some((l, r)) => if r == 0 {
            lines
        } else {
            cut_line(lines, l, r)
        },
        None => lines,
    }
}

/// The line that starts at `frame` once the lines are split there.
pub open spec fn split_handle(lines: Seq<LineView>, frame: int) -> Option<int> {
    match locate(lines, frame) {
        Some((l, r)) => Some(if r == 0 {
            l
        } else {
            l + 1
        }),
        None => None,
    }
}

/// The lines once `frame` has a frame bulk of its own.
pub open spec fn split_single_lines(lines: Seq<LineView>, frame: int) -> Seq<LineView> {
    split_lines(split_lines(lines, frame + 1), frame)
}

/// Where the lines of a cut script start.
pub proof fn lemma_cut_line_first_frames(lines: Seq<LineView>, l: int, r: int)
    requires
        0 <= l < lines.len(),
        lines[l] is FrameBulk,
        0 < r < frames_in(lines[l]),
    ensures
        cut_line(lines, l, r).len() == lines.len() + 1,
        forall|k: int|
            0 <= k <= l ==> #[trigger] first_frame_of(cut_line(lines, l, r), k) == first_frame_of(
                lines,
                k,
            ),
        first_frame_of(cut_line(lines, l, r), l + 1) == first_frame_of(lines, l) + r,
        forall|k: int|
            l + 2 <= k <= lines.len() + 1 ==> #[trigger] first_frame_of(cut_line(lines, l, r), k)
                == first_frame_of(lines, k - 1),
        total_frames(cut_line(lines, l, r)) == total_frames(lines),
        bulks_wf(lines) ==> bulks_wf(cut_line(lines, l, r)),
{
    let cut = cut_line(lines, l, r);
    let bulk = lines[l]->FrameBulk_0;
    let left = LineView::FrameBulk(bulk.with_count(r as u32));
    let right = LineView::FrameBulk(
        bulk.with_count((bulk.frame_count - r) as u32).without_command(),
    );
    let before = lines.take(l);
    assert forall|k: int| 0 <= k <= l implies #[trigger] first_frame_of(cut, k) == first_frame_of(
        lines,
        k,
    ) by {
        assert(cut.take(k) =~= lines.take(k));
    }
    assert(cut.take(l + 1) =~= before + seq![left]);
    lemma_total_frames_concat(before, seq![left]);
    lemma_total_frames_one(left);
    assert forall|k: int| l + 2 <= k <= lines.len() + 1 implies #[trigger] first_frame_of(cut, k)
        == first_frame_of(lines, k - 1) by {
        let rest = lines.subrange(l + 1, k - 1);
        assert(cut.take(k) =~= before + seq![left] + seq![right] + rest);
        assert(lines.take(k - 1) =~= before + seq![lines[l]] + rest);
        lemma_total_frames_concat(before, seq![left]);
        lemma_total_frames_concat(before + seq![left], seq![right]);
        lemma_total_frames_concat(before + seq![left] + seq![right], rest);
        lemma_total_frames_concat(before, seq![lines[l]]);
        lemma_total_frames_concat(before + seq![lines[l]], rest);
        lemma_total_frames_one(right);
        lemma_total_frames_one(lines[l]);
    }
    assert(cut.take(cut.len() as int) =~= cut);
    assert(lines.take(lines.len() as int) =~= lines);
    assert(first_frame_of(cut, (lines.len() + 1) as int) == first_frame_of(
        lines,
        lines.len() as int,
    ));
}

/// Splitting keeps every frame, and makes `frame` the first frame of the line
/// it hands out.
pub proof fn lemma_split_starts_bulk(lines: Seq<LineView>, frame: int)
    requires
        0 <= frame < total_frames(lines),
    ensures
        total_frames(split_lines(lines, frame)) == total_frames(lines),
        split_handle(lines, frame) is Some,
        locate(split_lines(lines, frame), frame) == Some((split_handle(lines, frame)->0, 0int)),
        bulks_wf(lines) ==> bulks_wf(split_lines(lines, frame)),
{
    lemma_frame_has_one_line(lines, frame);
    let l = line_of(lines, frame);
    let r = frame - first_frame_of(lines, l);
    let after = split_lines(lines, frame);
    if r != 0 {
        lemma_cut_line_first_frames(lines, l, r);
        assert(holds_frame(after, l + 1, frame));
        lemma_frame_has_one_line(after, frame);
    }
}

/// The first line is a frame bulk.
pub open spec fn starts_with_bulk(lines: Seq<LineView>) -> bool {
    lines.len() > 0 && lines[0] is FrameBulk
}

/// Splitting leaves a frame bulk in the first line where one was there.
pub proof fn lemma_split_keeps_first_bulk(lines: Seq<LineView>, frame: int)
    ensures
        starts_with_bulk(lines) ==> starts_with_bulk(split_lines(lines, frame)),
        starts_with_bulk(lines) ==> starts_with_bulk(split_single_lines(lines, frame)),
{
    lemma_frame_has_one_line(lines, frame);
    lemma_frame_has_one_line(lines, frame + 1);
    lemma_frame_has_one_line(split_lines(lines, frame + 1), frame);
}

/// Splitting twice at the same frame is splitting once.
pub proof fn lemma_split_idempotent(lines: Seq<LineView>, frame: int)
    ensures
        split_lines(split_lines(lines, frame), frame) == split_lines(lines, frame),
        split_handle(split_lines(lines, frame), frame) == split_handle(lines, frame),
{
    if 0 <= frame < total_frames(lines) {
        lemma_split_starts_bulk(lines, frame);
    }
}

/// Giving a frame a bulk of its own keeps every frame, and the bulk that then
/// starts at `frame` lasts that one frame.
pub proof fn lemma_split_single_isolates(lines: Seq<LineView>, frame: int)
    requires
        0 <= frame < total_frames(lines),
    ensures
        total_frames(split_single_lines(lines, frame)) == total_frames(lines),
        split_handle(split_lines(lines, frame + 1), frame) is Some,
        ({
            let h = split_handle(split_lines(lines, frame + 1), frame)->0;
            let after = split_single_lines(lines, frame);
            &&& locate(after, frame) == Some((h, 0int))
            &&& 0 <= h < after.len()
            &&& after[h] is FrameBulk
            &&& after[h]->FrameBulk_0.frame_count == 1
        }),
        bulks_wf(lines) ==> bulks_wf(split_single_lines(lines, frame)),
{
    let mid = split_lines(lines, frame + 1);
    if frame + 1 < total_frames(lines) {
        lemma_split_starts_bulk(lines, frame + 1);
        lemma_frame_has_one_line(mid, frame + 1);
    }
    lemma_frame_has_one_line(mid, frame);
    let l = line_of(mid, frame);
    let r = frame - first_frame_of(mid, l);
    lemma_first_frames_ordered(mid, l, l + 1);
    lemma_first_frames_ordered(mid, l + 1, mid.len() as int);
    assert(first_frame_of(mid, l) + frames_in(mid[l]) == frame + 1) by {
        if frame + 1 < first_frame_of(mid, l) + frames_in(mid[l]) {
            assert(holds_frame(mid, l, frame + 1));
        }
    }
    lemma_split_starts_bulk(mid, frame);
    let after = split_single_lines(lines, frame);
    lemma_frame_has_one_line(after, frame);
    if r != 0 {
        lemma_cut_line_first_frames(mid, l, r);
    }
}

/// A movement script: its properties, then its lines in order.
#[derive(Debug)]
pub struct Script {
    pub properties: Properties,
    pub lines: Vec<Line>,
}

/// What a script holds, with its lines as a sequence.
pub struct ScriptView {
    pub properties: PropertiesView,
    pub lines: Seq<LineView>,
}

impl View for Script {
    type V = ScriptView;

    open spec fn view(&self) -> ScriptView {
        ScriptView { properties: self.properties@, lines: lines_view(self.lines@) }
    }
}

impl ScriptView {
    /// Every frame bulk is well-formed, and a machine index can name every
    /// frame.
    pub open spec fn wf(self) -> bool {
        &&& bulks_wf(self.lines)
        &&& total_frames(self.lines) <= usize::MAX
    }
}

/// A copy of a run of lines.
pub fn clone_lines(lines: &Vec<Line>) -> (r: Vec<Line>)
    ensures
        lines_view(r@) == lines_view(lines@),
{
    let mut r: Vec<Line> = Vec::new();
    let mut i: usize = 0;
    while i < lines.len()
        invariant
            i <= lines.len(),
            lines_view(r@) == lines_view(lines@).take(i as int),
        decreases lines.len() - i,
    {
        r.push(lines[i].clone());
        assert(lines_view(lines@).take(i + 1) =~= lines_view(lines@).take(i as int).push(
            lines@[i as int]@,
        ));
        i += 1;
    }
    r
}

impl Clone for Script {
    fn clone(&self) -> (r: Self)
        ensures
            r@ == self@,
    {
        Script { properties: self.properties.clone(), lines: clone_lines(&self.lines) }
    }
}

impl PartialEq for Script {
    fn eq(&self, other: &Self) -> (r: bool) {
        assert(lines_view(self.lines@).len() == self.lines.len());
        if self.properties != other.properties || self.lines.len() != other.lines.len() {
            return false;
        }
        let mut i: usize = 0;
        while i < self.lines.len()
            invariant
                i <= self.lines.len(),
                self.lines.len() == other.lines.len(),
                self.properties@ == other.properties@,
                lines_view(self.lines@).take(i as int) == lines_view(other.lines@).take(i as int),
            decreases self.lines.len() - i,
        {
            if self.lines[i] != other.lines[i] {
                assert(lines_view(self.lines@)[i as int] != lines_view(other.lines@)[i as int]);
                return false;
            }
            assert(lines_view(self.lines@).take(i + 1) =~= lines_view(self.lines@).take(
                i as int,
            ).push(self.lines@[i as int]@));
            assert(lines_view(other.lines@).take(i + 1) =~= lines_view(other.lines@).take(
                i as int,
            ).push(other.lines@[i as int]@));
            i += 1;
        }
        assert(lines_view(self.lines@).take(self.lines.len() as int) =~= lines_view(self.lines@));
        assert(lines_view(other.lines@).take(other.lines.len() as int) =~= lines_view(
            other.lines@,
        ));
        true
    }
}

impl vstd::std_specs::cmp::PartialEqSpecImpl for Script {
    open spec fn obeys_eq_spec() -> bool {
        true
    }

    open spec fn eq_spec(&self, other: &Self) -> bool {
        self@ == other@
    }
}

impl Script {
    /// The frame bulk in line `l`, where that line is one.
    pub fn frame_bulk(&self, l: usize) -> (r: Option<&FrameBulk>)
        ensures
            r is Some <==> l < self@.lines.len() && self@.lines[l as int] is FrameBulk,
            r matches Some(bulk) ==> self@.lines[l as int] == LineView::FrameBulk(bulk@),
    {
        if l >= self.lines.len() {
            return None;
        }
        match &self.lines[l] {
            Line::FrameBulk(bulk) => Some(bulk),
            _ => None,
        }
    }

    /// Puts a frame bulk in place of line `l`. Out of range, nothing changes.
    pub fn put_frame_bulk(&mut self, l: usize, bulk: FrameBulk)
        ensures
            final(self)@.properties == old(self)@.properties,
            l < old(self)@.lines.len() ==> final(self)@.lines == old(self)@.lines.update(
                l as int,
                LineView::FrameBulk(bulk@),
            ),
            l >= old(self)@.lines.len() ==> final(self)@.lines == old(self)@.lines,
    {
        if l < self.lines.len() {
            let ghost before = self@.lines;
            self.lines.set(l, Line::FrameBulk(bulk));
        }
    }

    /// Whether every frame bulk is well-formed and a machine index can name
    /// every frame.
    pub fn is_wf(&self) -> (r: bool)
        ensures
            r == self@.wf(),
    {
        let ghost lines = self@.lines;
        let mut frames: usize = 0;
        let mut i: usize = 0;
        while i < self.lines.len()
            invariant
                i <= self.lines.len(),
                lines == self@.lines,
                frames == first_frame_of(lines, i as int),
                bulks_wf(lines.take(i as int)),
            decreases self.lines.len() - i,
        {
            proof {
                lemma_first_frame_next(lines, i as int);
                lemma_first_frames_ordered(lines, i + 1, lines.len() as int);
            }
            match &self.lines[i] {
                Line::FrameBulk(bulk) => {
                    if !bulk.is_wf() {
                        return false;
                    }
                    if bulk.frame_count as usize > usize::MAX - frames {
                        return false;
                    }
                    frames += bulk.frame_count as usize;
                },
                _ => {},
            }
            i += 1;
        }
        assert(lines.take(lines.len() as int) =~= lines);
        true
    }

    /// The number of the first frame of line `l`; past the last line, the
    /// number of frames of the script.
    pub fn first_frame_of_line(&self, l: usize) -> (r: usize)
        requires
            self@.wf(),
        ensures
            l <= self@.lines.len() ==> r == first_frame_of(self@.lines, l as int),
            l >= self@.lines.len() ==> r == total_frames(self@.lines),
    {
        let ghost lines = self@.lines;
        assert(lines.take(lines.len() as int) =~= lines);
        let end = if l < self.lines.len() {
            l
        } else {
            self.lines.len()
        };
        let mut frames: usize = 0;
        let mut i: usize = 0;
        while i < end
            invariant
                i <= end <= self.lines.len(),
                lines == self@.lines,
                total_frames(lines) <= usize::MAX,
                frames == first_frame_of(lines, i as int),
            decreases end - i,
        {
            proof {
                lemma_first_frame_next(lines, i as int);
                lemma_first_frames_ordered(lines, i + 1, lines.len() as int);
            }
            match &self.lines[i] {
                Line::FrameBulk(bulk) => {
                    frames += bulk.frame_count as usize;
                },
                _ => {},
            }
            i += 1;
        }
        frames
    }

    /// How many frames the script has.
    pub fn frame_total(&self) -> (r: usize)
        requires
            self@.wf(),
        ensures
            r == total_frames(self@.lines),
    {
        self.first_frame_of_line(self.lines.len())
    }

    /// Where frame number `frame` is: the index of its line, and how many
    /// frames of that line come before it. `None` when the script has no such
    /// frame.
    pub fn line_and_repeat_at_frame(&self, frame: usize) -> (r: Option<(usize, u32)>)
        ensures
            r is None <==> frame >= total_frames(self@.lines),
            r matches Some((l, k)) ==> locate(self@.lines, frame as int) == Some(
                (l as int, k as int),
            ),
    {
        let ghost lines = self@.lines;
        let mut remaining: usize = frame;
        let mut i: usize = 0;
        while i < self.lines.len()
            invariant
                i <= self.lines.len(),
                lines == self@.lines,
                remaining + first_frame_of(lines, i as int) == frame,
            decreases self.lines.len() - i,
        {
            proof {
                lemma_first_frame_next(lines, i as int);
                lemma_first_frames_ordered(lines, i + 1, lines.len() as int);
            }
            match &self.lines[i] {
                Line::FrameBulk(bulk) => {
                    if remaining < bulk.frame_count as usize {
                        proof {
                            assert(holds_frame(lines, i as int, frame as int));
                            lemma_frame_has_one_line(lines, frame as int);
                        }
                        return Some((i, remaining as u32));
                    }
                    remaining -= bulk.frame_count as usize;
                },
                _ => {},
            }
            i += 1;
        }
        assert(lines.take(lines.len() as int) =~= lines);
        None
    }

    /// Makes a frame bulk start at `frame`, cutting the bulk that holds the
    /// frame in two where it has to, and returns the index of the line that
    /// starts there. The second part of a cut bulk has no console command.
    /// Leaves the script as it is and returns `None` when it has no such frame.
    pub fn split_at_frame(&mut self, frame: usize) -> (r: Option<usize>)
        ensures
            final(self)@.properties == old(self)@.properties,
            final(self)@.lines == split_lines(old(self)@.lines, frame as int),
            r is None <==> frame >= total_frames(old(self)@.lines),
            r matches Some(h) ==> {
                &&& split_handle(old(self)@.lines, frame as int) == Some(h as int)
                &&& locate(final(self)@.lines, frame as int) == Some((h as int, 0int))
            },
            total_frames(final(self)@.lines) == total_frames(old(self)@.lines),
            old(self)@.wf() ==> final(self)@.wf(),
            starts_with_bulk(old(self)@.lines) ==> starts_with_bulk(final(self)@.lines),
    {
        let ghost lines = self@.lines;
        proof {
            lemma_split_keeps_first_bulk(lines, frame as int);
            if frame < total_frames(lines) {
                lemma_split_starts_bulk(lines, frame as int);
                lemma_frame_has_one_line(lines, frame as int);
            }
        }
        match self.line_and_repeat_at_frame(frame) {
            None => None,
            Some((l, k)) => {
                if k == 0 {
                    Some(l)
                } else {
                    let (left, right) = match &self.lines[l] {
                        Line::FrameBulk(bulk) => {
                            let mut left = bulk.clone();
                            let mut right = bulk.clone();
                            left.frame_count = k;
                            right.frame_count = bulk.frame_count - k;
                            right.console_command = None;
                            (Line::FrameBulk(left), Line::FrameBulk(right))
                        },
                        other => (other.clone(), other.clone()),
                    };
                    let len = self.lines.len();
                    self.lines.set(l, left);
                    self.lines.insert(l + 1, right);
                    assert(self@.lines =~= cut_line(lines, l as int, k as int));
                    Some(l + 1)
                }
            },
        }
    }

    /// Gives `frame` a frame bulk of its own and returns the index of its
    /// line. Leaves the script as it is and returns `None` when it has no such
    /// frame.
    pub fn split_single_at_frame(&mut self, frame: usize) -> (r: Option<usize>)
        requires
            total_frames(old(self)@.lines) <= usize::MAX,
        ensures
            final(self)@.properties == old(self)@.properties,
            final(self)@.lines == split_single_lines(old(self)@.lines, frame as int),
            r is None <==> frame >= total_frames(old(self)@.lines),
            r matches Some(h) ==> {
                &&& locate(final(self)@.lines, frame as int) == Some((h as int, 0int))
                &&& h < final(self)@.lines.len()
                &&& final(self)@.lines[h as int] is FrameBulk
                &&& final(self)@.lines[h as int]->FrameBulk_0.frame_count == 1
            },
            total_frames(final(self)@.lines) == total_frames(old(self)@.lines),
            old(self)@.wf() ==> final(self)@.wf(),
            starts_with_bulk(old(self)@.lines) ==> starts_with_bulk(final(self)@.lines),
    {
        let ghost lines = self@.lines;
        proof {
            lemma_split_keeps_first_bulk(lines, frame as int);
            if frame < total_frames(lines) {
                lemma_split_single_isolates(lines, frame as int);
            }
        }
        if frame == usize::MAX {
            return None;
        }
        self.split_at_frame(frame + 1);
        self.split_at_frame(frame)
    }
}

} // verus!
