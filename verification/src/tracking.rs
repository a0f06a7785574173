//! Why a minimized script moves the player as the script did.
//!
//! The minimizer never simulates: it takes the caller's word for what each
//! bulk leads to. This module says what follows when the caller's answers are
//! true of some simulation, whatever that simulation is. Then every frame
//! bulk of the minimized script, simulated from where the minimized script
//! has brought the player, leaves the player where the bulk it came from
//! would.

use crate::minimizer::{
    after, next_stop, removable, settled, settled_state, stage_rank, stepped, walked, with_back,
    without, Asked, MinimizerView, Outcome, Pending, Removed, Stage,
};
use crate::script::{FrameBulkView, LineView, ScriptView};
use vstd::prelude::*;

verus! {

/// The state that the lines before line `l` lead to from `start`, one frame
/// bulk after the other, where `sim` says what a bulk leads to from a state.
pub open spec fn carried<S>(
    lines: Seq<LineView>,
    start: S,
    sim: spec_fn(S, FrameBulkView) -> S,
    l: int,
) -> S
    decreases l,
{
    if l <= 0 {
        start
    } else if l - 1 < lines.len() && lines[l - 1] is FrameBulk {
        sim(carried(lines, start, sim, l - 1), lines[l - 1]->FrameBulk_0)
    } else {
        carried(lines, start, sim, l - 1)
    }
}

/// `same` holds of every state and itself, and of the first and the last of
/// three states where it holds of the first two and of the last two.
pub open spec fn lasting<S>(same: spec_fn(S, S) -> bool) -> bool {
    &&& forall|a: S| #[trigger] same(a, a)
    &&& forall|a: S, b: S, c: S| #[trigger] same(a, b) && #[trigger] same(b, c) ==> same(a, c)
}

/// The lines are the lines of `script` but for the settings of frame bulks,
/// and an index can name each.
pub open spec fn same_shape(script: Seq<LineView>, lines: Seq<LineView>) -> bool {
    &&& lines.len() == script.len()
    &&& lines.len() <= usize::MAX
    &&& forall|i: int|
        0 <= i < lines.len() ==> ((#[trigger] lines[i]) is FrameBulk <==> script[i] is FrameBulk)
            && (!(lines[i] is FrameBulk) ==> lines[i] == script[i])
}

/// Every frame bulk before line `k`, simulated from where the lines before it
/// lead, leaves the player where the bulk of `script` in its place would.
pub open spec fn moves_alike<S>(
    script: Seq<LineView>,
    lines: Seq<LineView>,
    start: S,
    sim: spec_fn(S, FrameBulkView) -> S,
    same: spec_fn(S, S) -> bool,
    k: int,
) -> bool {
    forall|i: int|
        0 <= i < k && i < lines.len() && (#[trigger] lines[i]) is FrameBulk ==> same(
            sim(carried(lines, start, sim, i), script[i]->FrameBulk_0),
            sim(carried(lines, start, sim, i), lines[i]->FrameBulk_0),
        )
}

/// The lines from line `k` on are those of `script`.
pub open spec fn untouched_from(script: Seq<LineView>, lines: Seq<LineView>, k: int) -> bool {
    forall|i: int| k <= i < lines.len() ==> #[trigger] lines[i] == script[i]
}

/// The stage that drops the given setting.
pub open spec fn stage_of(removed: Removed) -> Stage {
    match removed {
        Removed::UseKey => Stage::UseKey,
        Removed::LeaveGround(_) => Stage::LeaveGround,
        Removed::DuckBeforeGround(_) => Stage::DuckBeforeGround,
    }
}

/// The answer is true of the simulation: it gives the state that the bulk
/// asked about leads to, and, for a trial, says truly whether the player is
/// there as in the baseline.
pub open spec fn truthful<S>(
    m: MinimizerView<S>,
    answer: Option<Outcome<S>>,
    sim: spec_fn(S, FrameBulkView) -> S,
    same: spec_fn(S, S) -> bool,
) -> bool {
    match m.pending {
        Some(Pending { line, asked }) => {
            &&& answer is Some
            &&& answer->0.state == sim(m.before, m.script.lines[line as int]->FrameBulk_0)
            &&& asked is Trial ==> answer->0.unchanged == same(m.after, answer->0.state)
        },
        None => true,
    }
}

/// The minimizer stands, between two steps, where true answers bring it on
/// its way through `script` from the state `start`.
///
/// Its lines are those of `script` but for settings dropped from the bulks up
/// to the one at hand, and the bulks before that one move the player as the
/// bulks of `script` in their places. Of the bulk at hand, as it was before
/// the pending trial, the minimizer knows the state before and after, and it
/// too moves the player as the bulk of `script`. With no step pending the
/// minimizer is at the start, or past the last line, where the last state is
/// the one that all its lines lead to.
pub open spec fn on_track<S>(
    m: MinimizerView<S>,
    script: Seq<LineView>,
    start: S,
    sim: spec_fn(S, FrameBulkView) -> S,
    same: spec_fn(S, S) -> bool,
) -> bool {
    let lines = m.script.lines;
    &&& same_shape(script, lines)
    &&& match m.pending {
        None => {
            ||| {
                &&& m.line == 0
                &&& m.stage == Stage::Enter
                &&& lines == script
                &&& m.after == start
            }
            ||| {
                &&& m.line == lines.len()
                &&& m.stage == Stage::Enter
                &&& moves_alike(script, lines, start, sim, same, lines.len() as int)
                &&& m.after == carried(lines, start, sim, lines.len() as int)
            }
        },
        Some(Pending { line, asked: Asked::Baseline }) => {
            &&& line < lines.len()
            &&& lines[line as int] is FrameBulk
            &&& m.line == line
            &&& m.stage == Stage::UseKey
            &&& moves_alike(script, lines, start, sim, same, line as int)
            &&& untouched_from(script, lines, line as int)
            &&& m.before == carried(lines, start, sim, line as int)
        },
        Some(Pending { line, asked: Asked::Trial(removed) }) => {
            let bulk = lines[line as int]->FrameBulk_0;
            let whole = with_back(bulk, removed);
            &&& line < lines.len()
            &&& lines[line as int] is FrameBulk
            &&& m.line == after(line as int, stage_of(removed)).line
            &&& m.stage == after(line as int, stage_of(removed)).stage
            &&& removable(whole, stage_of(removed)) == Some(removed)
            &&& bulk == without(whole, removed)
            &&& moves_alike(script, lines, start, sim, same, line as int)
            &&& untouched_from(script, lines, line + 1)
            &&& m.before == carried(lines, start, sim, line as int)
            &&& m.after == sim(m.before, whole)
            &&& same(sim(m.before, script[line as int]->FrameBulk_0), m.after)
        },
    }
}

/// The state that lines lead to depends on the lines before only.
proof fn lemma_carried_by_front<S>(
    a: Seq<LineView>,
    b: Seq<LineView>,
    start: S,
    sim: spec_fn(S, FrameBulkView) -> S,
    l: int,
)
    requires
        l <= a.len(),
        l <= b.len(),
        forall|i: int| 0 <= i < l ==> a[i] == b[i],
    ensures
        carried(a, start, sim, l) == carried(b, start, sim, l),
    decreases l,
{
    if l > 0 {
        lemma_carried_by_front(a, b, start, sim, l - 1);
    }
}

/// Lines that are no frame bulks lead nowhere.
proof fn lemma_carried_over_others<S>(
    lines: Seq<LineView>,
    start: S,
    sim: spec_fn(S, FrameBulkView) -> S,
    from: int,
    to: int,
)
    requires
        0 <= from <= to <= lines.len(),
        forall|i: int| from <= i < to ==> !(#[trigger] lines[i] is FrameBulk),
    ensures
        carried(lines, start, sim, to) == carried(lines, start, sim, from),
    decreases to - from,
{
    if from < to {
        lemma_carried_over_others(lines, start, sim, from, to - 1);
    }
}

/// Where the walk stops: past the last line; or at a frame bulk to enter,
/// with no frame bulk passed over but, from a later stage, the one it
/// started in; or in the bulk it started in, at a setting that the bulk has.
proof fn lemma_next_stop(lines: Seq<LineView>, line: int, stage: Stage)
    requires
        0 <= line <= lines.len(),
    ensures
        ({
            let stop = next_stop(lines, line, stage);
            let first = if stage != Stage::Enter && line < lines.len() && lines[line] is FrameBulk {
                line + 1
            } else {
                line
            };
            &&& line <= stop.line <= lines.len()
            &&& stop.line == lines.len() ==> stop.stage == Stage::Enter
            &&& stop.line < lines.len() ==> lines[stop.line] is FrameBulk
            &&& stop.stage == Stage::Enter ==> first <= stop.line && forall|i: int|
                first <= i < stop.line ==> !(#[trigger] lines[i] is FrameBulk)
            &&& stop.stage != Stage::Enter ==> {
                &&& stop.line == line
                &&& stage != Stage::Enter
                &&& stage_rank(stage) <= stage_rank(stop.stage)
                &&& removable(lines[line]->FrameBulk_0, stop.stage) is Some
            }
        }),
    decreases lines.len() - line, 4 - stage_rank(stage),
{
    if line < lines.len() {
        if !(lines[line] is FrameBulk) {
            lemma_next_stop(lines, line + 1, Stage::Enter);
        } else if stage != Stage::Enter && removable(lines[line]->FrameBulk_0, stage) is None {
            lemma_next_stop(lines, after(line, stage).line, after(line, stage).stage);
        }
    }
}

/// A minimizer that has not made a step is on its track.
pub proof fn lemma_starts_on_track<S>(
    script: ScriptView,
    start: S,
    sim: spec_fn(S, FrameBulkView) -> S,
    same: spec_fn(S, S) -> bool,
)
    requires
        script.lines.len() <= usize::MAX,
    ensures
        on_track(
            MinimizerView {
                script,
                line: 0,
                stage: Stage::Enter,
                pending: None,
                before: start,
                after: start,
            },
            script.lines,
            start,
            sim,
            same,
        ),
{
}

/// The bulk in line `k` is settled: the lines before it lead to `before`, it
/// leads on to `state`, and it and the bulks before it move the player as
/// the bulks of `script` in their places. The lines behind it are those of
/// `script`.
pub open spec fn settled_at<S>(
    script: Seq<LineView>,
    lines: Seq<LineView>,
    start: S,
    sim: spec_fn(S, FrameBulkView) -> S,
    same: spec_fn(S, S) -> bool,
    k: int,
    before: S,
    state: S,
) -> bool {
    &&& same_shape(script, lines)
    &&& 0 <= k < lines.len()
    &&& lines[k] is FrameBulk
    &&& before == carried(lines, start, sim, k)
    &&& state == sim(before, lines[k]->FrameBulk_0)
    &&& same(sim(before, script[k]->FrameBulk_0), state)
    &&& moves_alike(script, lines, start, sim, same, k)
    &&& untouched_from(script, lines, k + 1)
}

/// Putting a setting back, or dropping one, in line `k` leaves what the
/// lines before it lead to, and how their bulks move the player.
proof fn lemma_update_keeps_front<S>(
    script: Seq<LineView>,
    lines: Seq<LineView>,
    start: S,
    sim: spec_fn(S, FrameBulkView) -> S,
    same: spec_fn(S, S) -> bool,
    k: int,
    bulk: FrameBulkView,
)
    requires
        0 <= k < lines.len(),
        lines[k] is FrameBulk,
        same_shape(script, lines),
        moves_alike(script, lines, start, sim, same, k),
        untouched_from(script, lines, k + 1),
    ensures
        ({
            let changed = lines.update(k, LineView::FrameBulk(bulk));
            &&& same_shape(script, changed)
            &&& moves_alike(script, changed, start, sim, same, k)
            &&& untouched_from(script, changed, k + 1)
            &&& carried(changed, start, sim, k) == carried(lines, start, sim, k)
        }),
{
    let changed = lines.update(k, LineView::FrameBulk(bulk));
    lemma_carried_by_front(changed, lines, start, sim, k);
    assert forall|i: int|
        0 <= i < k && i < changed.len() && (#[trigger] changed[i]) is FrameBulk implies same(
        sim(carried(changed, start, sim, i), script[i]->FrameBulk_0),
        sim(carried(changed, start, sim, i), changed[i]->FrameBulk_0),
    ) by {
        lemma_carried_by_front(changed, lines, start, sim, i);
    }
}

/// Dropping a setting that a bulk has and putting it back gives the bulk.
proof fn lemma_back_is_whole(bulk: FrameBulkView, stage: Stage)
    requires
        removable(bulk, stage) is Some,
    ensures
        ({
            let removed = removable(bulk, stage)->0;
            &&& stage_of(removed) == stage
            &&& with_back(without(bulk, removed), removed) == bulk
        }),
{
}

/// A true answer settles the bulk at hand.
proof fn lemma_answer_settles<S>(
    m: MinimizerView<S>,
    answer: Option<Outcome<S>>,
    script: Seq<LineView>,
    start: S,
    sim: spec_fn(S, FrameBulkView) -> S,
    same: spec_fn(S, S) -> bool,
)
    requires
        lasting(same),
        on_track(m, script, start, sim, same),
        truthful(m, answer, sim, same),
        m.pending is Some,
    ensures
        settled_at(
            script,
            settled(m.script.lines, m.pending, answer),
            start,
            sim,
            same,
            m.pending->0.line as int,
            m.before,
            settled_state(m.after, m.pending, answer),
        ),
{
    let lines = m.script.lines;
    let k = m.pending->0.line as int;
    if let Asked::Trial(removed) = m.pending->0.asked {
        if !answer->0.unchanged {
            let whole = with_back(lines[k]->FrameBulk_0, removed);
            lemma_update_keeps_front(script, lines, start, sim, same, k, whole);
        }
    }
}

/// From a settled bulk the walk goes on to a place that is on the track.
proof fn lemma_walk_keeps_track<S>(
    lines: ScriptView,
    line: int,
    stage: Stage,
    before: S,
    state: S,
    k: int,
    script: Seq<LineView>,
    start: S,
    sim: spec_fn(S, FrameBulkView) -> S,
    same: spec_fn(S, S) -> bool,
)
    requires
        settled_at(script, lines.lines, start, sim, same, k, before, state),
        (line == k && stage != Stage::Enter) || (line == k + 1 && stage == Stage::Enter),
    ensures
        on_track(walked(lines, line, stage, before, state), script, start, sim, same),
        walked(lines, line, stage, before, state).pending is None ==> moves_alike(
            script,
            walked(lines, line, stage, before, state).script.lines,
            start,
            sim,
            same,
            script.len() as int,
        ),
{
    let stop = next_stop(lines.lines, line, stage);
    lemma_next_stop(lines.lines, line, stage);
    if stop.stage == Stage::Enter {
        lemma_walk_to_next_bulk(
            lines.lines,
            stop.line,
            before,
            state,
            k,
            script,
            start,
            sim,
            same,
        );
    } else {
        let bulk = lines.lines[k]->FrameBulk_0;
        lemma_back_is_whole(bulk, stop.stage);
        let removed = removable(bulk, stop.stage)->0;
        lemma_update_keeps_front(
            script,
            lines.lines,
            start,
            sim,
            same,
            k,
            without(bulk, removed),
        );
    }
}

/// With the bulk in line `k` settled and no frame bulk between it and line
/// `j`, the bulks before line `j` move the player as those of `script`, and
/// lead to the state after the bulk in line `k`.
proof fn lemma_walk_to_next_bulk<S>(
    lines: Seq<LineView>,
    j: int,
    before: S,
    state: S,
    k: int,
    script: Seq<LineView>,
    start: S,
    sim: spec_fn(S, FrameBulkView) -> S,
    same: spec_fn(S, S) -> bool,
)
    requires
        settled_at(script, lines, start, sim, same, k, before, state),
        k < j <= lines.len(),
        forall|i: int| k + 1 <= i < j ==> !(#[trigger] lines[i] is FrameBulk),
    ensures
        moves_alike(script, lines, start, sim, same, j),
        carried(lines, start, sim, j) == state,
        untouched_from(script, lines, j),
{
    lemma_carried_over_others(lines, start, sim, k + 1, j);
}

/// The round trip of the minimizer, step by step: a minimizer on its track
/// stays on it with every true answer.
///
/// So when the minimizer is done, every frame bulk of its script, simulated
/// from where the bulks before it lead, leaves the player where the bulk of
/// the script it started with would. The answers need be true of some
/// simulation `sim` and of some likeness `same` of states that lasts: which
/// these are does not matter.
pub proof fn lemma_step_keeps_track<S>(
    m: MinimizerView<S>,
    answer: Option<Outcome<S>>,
    script: Seq<LineView>,
    start: S,
    sim: spec_fn(S, FrameBulkView) -> S,
    same: spec_fn(S, S) -> bool,
)
    requires
        lasting(same),
        on_track(m, script, start, sim, same),
        truthful(m, answer, sim, same),
    ensures
        on_track(stepped(m, answer), script, start, sim, same),
        stepped(m, answer).pending is None ==> moves_alike(
            script,
            stepped(m, answer).script.lines,
            start,
            sim,
            same,
            script.len() as int,
        ),
{
    let lines = m.script.lines;
    if m.pending is Some {
        lemma_answer_settles(m, answer, script, start, sim, same);
        lemma_walk_keeps_track(
            ScriptView {
                properties: m.script.properties,
                lines: settled(m.script.lines, m.pending, answer),
            },
            m.line,
            m.stage,
            m.before,
            settled_state(m.after, m.pending, answer),
            m.pending->0.line as int,
            script,
            start,
            sim,
            same,
        );
    } else {
        let stop = next_stop(lines, m.line, m.stage);
        lemma_next_stop(lines, m.line, m.stage);
        if m.line == 0 && m.stage == Stage::Enter && lines == script && m.after == start {
            lemma_carried_over_others(lines, start, sim, 0, stop.line);
        }
    }
}

} // verus!
