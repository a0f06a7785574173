//! When two scripts ask the same of the simulation up to some frame.
//!
//! A script can say one thing in many ways: a bulk of ten frames is two bulks
//! of four and six. To compare scripts they are unrolled, every frame bulk
//! into bulks of a single frame. Two scripts agree before a frame when their
//! unrolled forms are the same up to that frame. A history simulated from one
//! of them is then, up to that frame, a history of the other.

use crate::script::{
    cut_line, first_frame_of, frames_in, holds_frame, lemma_first_frame_next,
    lemma_first_frames_ordered, lemma_frame_has_one_line, lemma_total_frames_concat,
    lemma_total_frames_one, line_of, locate, split_lines, split_single_lines, total_frames,
    FrameBulkView, LineView,
};
use vstd::prelude::*;

verus! {

/// One frame of a bulk as a bulk of its own: the first frame keeps the
/// console command, which fires once, when the bulk starts.
pub open spec fn single_frame(bulk: FrameBulkView, i: int) -> LineView {
    if i == 0 {
        LineView::FrameBulk(bulk.with_count(1))
    } else {
        LineView::FrameBulk(bulk.with_count(1).without_command())
    }
}

/// A line with its frames one by one: a frame bulk becomes as many bulks of
/// one frame as it has frames; any other line stays as it is.
pub open spec fn unrolled_line(line: LineView) -> Seq<LineView> {
    match line {
        LineView::FrameBulk(bulk) => Seq::new(
            bulk.frame_count as nat,
            |i: int| single_frame(bulk, i),
        ),
        other => seq![other],
    }
}

/// The lines with every frame in a bulk of its own.
pub open spec fn unrolled(lines: Seq<LineView>) -> Seq<LineView>
    decreases lines.len(),
{
    if lines.len() == 0 {
        lines
    } else {
        unrolled(lines.drop_last()) + unrolled_line(lines.last())
    }
}

/// What the script asks of the simulation before frame number `frame`: its
/// unrolled lines before the bulk of that frame. The whole unrolled script
/// where it has no such frame.
pub open spec fn before_frame(lines: Seq<LineView>, frame: int) -> Seq<LineView> {
    let all = unrolled(lines);
    if 0 <= frame < total_frames(all) {
        all.take(line_of(all, frame))
    } else {
        all
    }
}

/// The two scripts ask the same of the simulation before frame number
/// `frame`, and so before every earlier frame.
pub open spec fn agree_before(a: Seq<LineView>, b: Seq<LineView>, frame: int) -> bool {
    forall|f: int| 0 <= f <= frame ==> #[trigger] before_frame(a, f) == before_frame(b, f)
}

pub proof fn lemma_unrolled_concat(a: Seq<LineView>, b: Seq<LineView>)
    ensures
        unrolled(a + b) == unrolled(a) + unrolled(b),
    decreases b.len(),
{
    if b.len() != 0 {
        lemma_unrolled_concat(a, b.drop_last());
        assert((a + b).drop_last() =~= a + b.drop_last());
        assert(unrolled(a) + unrolled(b.drop_last()) + unrolled_line(b.last()) =~= unrolled(a) + (
        unrolled(b.drop_last()) + unrolled_line(b.last())));
    }
}

pub proof fn lemma_unrolled_one(line: LineView)
    ensures
        unrolled(seq![line]) == unrolled_line(line),
{
    assert(seq![line].drop_last() =~= Seq::<LineView>::empty());
    assert(unrolled(Seq::<LineView>::empty()) =~= Seq::<LineView>::empty());
}

/// A run of bulks of one frame each has as many frames as lines.
proof fn lemma_total_frames_singles(lines: Seq<LineView>)
    requires
        forall|i: int| 0 <= i < lines.len() ==> frames_in(#[trigger] lines[i]) == 1,
    ensures
        total_frames(lines) == lines.len(),
    decreases lines.len(),
{
    if lines.len() > 0 {
        lemma_total_frames_singles(lines.drop_last());
    }
}

/// Unrolling keeps every frame.
pub proof fn lemma_unrolled_frames(lines: Seq<LineView>)
    ensures
        total_frames(unrolled(lines)) == total_frames(lines),
    decreases lines.len(),
{
    if lines.len() > 0 {
        lemma_unrolled_frames(lines.drop_last());
        lemma_total_frames_concat(unrolled(lines.drop_last()), unrolled_line(lines.last()));
        match lines.last() {
            LineView::FrameBulk(bulk) => {
                lemma_total_frames_singles(unrolled_line(lines.last()));
            },
            _ => {
                lemma_total_frames_one(lines.last());
            },
        }
    }
}

/// Cutting a bulk in two leaves the unrolled script as it was.
pub proof fn lemma_cut_line_unrolled(lines: Seq<LineView>, l: int, r: int)
    requires
        0 <= l < lines.len(),
        lines[l] is FrameBulk,
        0 < r < frames_in(lines[l]),
    ensures
        unrolled(cut_line(lines, l, r)) == unrolled(lines),
{
    let bulk = lines[l]->FrameBulk_0;
    let left = LineView::FrameBulk(bulk.with_count(r as u32));
    let right = LineView::FrameBulk(
        bulk.with_count((bulk.frame_count - r) as u32).without_command(),
    );
    let before = lines.take(l);
    let after = lines.skip(l + 1);
    assert(lines =~= before + seq![lines[l]] + after);
    assert(cut_line(lines, l, r) =~= before + seq![left] + seq![right] + after);
    lemma_unrolled_concat(before, seq![lines[l]]);
    lemma_unrolled_concat(before + seq![lines[l]], after);
    lemma_unrolled_concat(before, seq![left]);
    lemma_unrolled_concat(before + seq![left], seq![right]);
    lemma_unrolled_concat(before + seq![left] + seq![right], after);
    lemma_unrolled_one(lines[l]);
    lemma_unrolled_one(left);
    lemma_unrolled_one(right);
    assert(unrolled(before) + unrolled_line(left) + unrolled_line(right) =~= unrolled(before) + (
    unrolled_line(left) + unrolled_line(right)));
}

/// Splitting leaves the unrolled script as it was: a split changes how the
/// script is written, not what it asks.
pub proof fn lemma_split_unrolled(lines: Seq<LineView>, frame: int)
    ensures
        unrolled(split_lines(lines, frame)) == unrolled(lines),
        unrolled(split_single_lines(lines, frame)) == unrolled(lines),
{
    lemma_frame_has_one_line(lines, frame);
    lemma_frame_has_one_line(lines, frame + 1);
    let mid = split_lines(lines, frame + 1);
    lemma_frame_has_one_line(mid, frame);
    match locate(lines, frame) {
        Some((l, r)) => {
            if r != 0 {
                lemma_cut_line_unrolled(lines, l, r);
            }
        },
        None => {},
    }
    match locate(lines, frame + 1) {
        Some((l, r)) => {
            if r != 0 {
                lemma_cut_line_unrolled(lines, l, r);
            }
        },
        None => {},
    }
    match locate(mid, frame) {
        Some((l, r)) => {
            if r != 0 {
                lemma_cut_line_unrolled(mid, l, r);
            }
        },
        None => {},
    }
}

/// Scripts that unroll to the same lines agree before every frame.
pub proof fn lemma_same_unrolled_agree(a: Seq<LineView>, b: Seq<LineView>, frame: int)
    requires
        unrolled(a) == unrolled(b),
    ensures
        agree_before(a, b, frame),
{
}

/// Agreement carries over: where `a` agrees with `b` and `b` with `c`, `a`
/// agrees with `c` before the earlier of the two frames.
pub proof fn lemma_agree_transitive(
    a: Seq<LineView>,
    b: Seq<LineView>,
    c: Seq<LineView>,
    first: int,
    second: int,
)
    requires
        agree_before(a, b, first),
        agree_before(b, c, second),
    ensures
        agree_before(a, c, if first < second {
            first
        } else {
            second
        }),
{
}

/// The frames of a line lie, unrolled, right behind the unrolled lines before
/// it.
proof fn lemma_unrolled_take(lines: Seq<LineView>, l: int)
    requires
        0 <= l <= lines.len(),
    ensures
        unrolled(lines) == unrolled(lines.take(l)) + unrolled(lines.skip(l)),
        total_frames(unrolled(lines.take(l))) == first_frame_of(lines, l),
{
    assert(lines =~= lines.take(l) + lines.skip(l));
    lemma_unrolled_concat(lines.take(l), lines.skip(l));
    lemma_unrolled_frames(lines.take(l));
}

/// Before a frame of its first part, a script asks what that part asks.
proof fn lemma_before_frame_in_front(front: Seq<LineView>, back: Seq<LineView>, frame: int)
    requires
        0 <= frame < total_frames(front),
    ensures
        0 <= frame < total_frames(front + back),
        line_of(front + back, frame) == line_of(front, frame),
        (front + back).take(line_of(front + back, frame)) == front.take(line_of(front, frame)),
{
    let all = front + back;
    lemma_total_frames_concat(front, back);
    lemma_frame_has_one_line(front, frame);
    lemma_frame_has_one_line(all, frame);
    let i = line_of(front, frame);
    assert(all.take(i) =~= front.take(i));
    assert(holds_frame(all, i, frame));
}

/// Two scripts with the same lines before line `l`, which in both is a frame
/// bulk that lasts, agree before the first frame of that line.
pub proof fn lemma_same_front_agree(a: Seq<LineView>, b: Seq<LineView>, l: int)
    requires
        0 <= l < a.len(),
        0 <= l < b.len(),
        a.take(l) == b.take(l),
        a[l] is FrameBulk,
        b[l] is FrameBulk,
        frames_in(a[l]) > 0,
        frames_in(b[l]) > 0,
    ensures
        agree_before(a, b, first_frame_of(a, l) as int),
{
    let start = first_frame_of(a, l) as int;
    lemma_unrolled_take(a, l);
    lemma_unrolled_take(b, l);
    assert forall|f: int| 0 <= f <= start implies #[trigger] before_frame(a, f) == before_frame(
        b,
        f,
    ) by {
        lemma_front_of_before_frame(a, l, f);
        lemma_front_of_before_frame(b, l, f);
    }
}

/// Before a frame that comes no later than the first frame of line `l`, a
/// frame bulk that lasts, the script asks what its lines before `l` ask
/// before that frame.
proof fn lemma_front_of_before_frame(lines: Seq<LineView>, l: int, f: int)
    requires
        0 <= l < lines.len(),
        lines[l] is FrameBulk,
        frames_in(lines[l]) > 0,
        0 <= f <= first_frame_of(lines, l),
    ensures
        before_frame(lines, f) == (if f < first_frame_of(lines, l) {
            unrolled(lines.take(l)).take(line_of(unrolled(lines.take(l)), f))
        } else {
            unrolled(lines.take(l))
        }),
{
    let all = unrolled(lines);
    let front = unrolled(lines.take(l));
    let back = unrolled(lines.skip(l));
    lemma_unrolled_take(lines, l);
    lemma_unrolled_frames(lines);
    lemma_first_frame_next(lines, l);
    lemma_first_frames_ordered(lines, l + 1, lines.len() as int);
    if f < first_frame_of(lines, l) {
        lemma_before_frame_in_front(front, back, f);
    } else {
        // The frame is the first of line `l`, whose first unrolled bulk
        // follows the front directly.
        let rest = lines.skip(l).skip(1);
        assert(lines.skip(l) =~= seq![lines[l]] + rest);
        lemma_unrolled_concat(seq![lines[l]], rest);
        lemma_unrolled_one(lines[l]);
        let n = front.len() as int;
        assert(all.take(n) =~= front);
        assert(holds_frame(all, n, f));
        lemma_frame_has_one_line(all, f);
    }
}

} // verus!
