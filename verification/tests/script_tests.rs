use tas_optimizer::script::{FrameBulk, Line, Properties, Script};
use tas_optimizer::types::{
    AutoActions, AutoMovement, Scalar, StrafeDir, StrafeSettings, StrafeType,
};

fn bulk(count: u32) -> FrameBulk {
    let mut b = FrameBulk::with_frame_time("0.001".to_owned());
    b.frame_count = count;
    b
}

fn bulk_with_command(count: u32, command: &str) -> FrameBulk {
    let mut b = bulk(count);
    b.console_command = Some(command.to_owned());
    b
}

fn script(lines: Vec<Line>) -> Script {
    Script { properties: Properties::none(), lines }
}

fn sample() -> Script {
    script(vec![
        Line::FrameBulk(bulk_with_command(3, "echo start")),
        Line::Comment("x".to_owned()),
        Line::FrameBulk(bulk(2)),
        Line::SharedSeed(7),
        Line::FrameBulk(bulk(4)),
    ])
}

fn total(s: &Script) -> u64 {
    s.lines
        .iter()
        .map(|line| match line {
            Line::FrameBulk(b) => u64::from(b.frame_count),
            _ => 0,
        })
        .sum()
}

#[test]
fn with_frame_time_is_one_empty_frame() {
    let b = FrameBulk::with_frame_time("0.004".to_owned());
    assert_eq!(b.frame_time, "0.004");
    assert_eq!(b.frame_count, 1);
    assert_eq!(b.auto_actions, AutoActions::none());
    assert_eq!(b.pitch, None);
    assert_eq!(b.console_command, None);
    assert!(!b.action_keys.use_);
    assert!(!b.movement_keys.forward);
}

#[test]
fn locate_walks_cumulative_counts() {
    let s = sample();
    assert_eq!(s.line_and_repeat_at_frame(0), Some((0, 0)));
    assert_eq!(s.line_and_repeat_at_frame(2), Some((0, 2)));
    assert_eq!(s.line_and_repeat_at_frame(3), Some((2, 0)));
    assert_eq!(s.line_and_repeat_at_frame(4), Some((2, 1)));
    assert_eq!(s.line_and_repeat_at_frame(5), Some((4, 0)));
    assert_eq!(s.line_and_repeat_at_frame(8), Some((4, 3)));
}

#[test]
fn locate_fails_out_of_range() {
    let s = sample();
    assert_eq!(s.line_and_repeat_at_frame(9), None);
    assert_eq!(s.line_and_repeat_at_frame(usize::MAX), None);
    let empty = script(vec![]);
    assert_eq!(empty.line_and_repeat_at_frame(0), None);
    let no_bulk = script(vec![Line::Comment("only".to_owned())]);
    assert_eq!(no_bulk.line_and_repeat_at_frame(0), None);
}

#[test]
fn first_frame_of_line_sums_the_bulks_before() {
    let s = sample();
    assert_eq!(s.first_frame_of_line(0), 0);
    assert_eq!(s.first_frame_of_line(1), 3);
    assert_eq!(s.first_frame_of_line(2), 3);
    assert_eq!(s.first_frame_of_line(4), 5);
    assert_eq!(s.first_frame_of_line(5), 9);
    assert_eq!(s.first_frame_of_line(100), 9);
    assert_eq!(s.frame_total(), 9);
}

#[test]
fn split_at_boundary_changes_nothing() {
    let mut s = sample();
    assert_eq!(s.split_at_frame(3), Some(2));
    assert_eq!(s, sample());
    assert_eq!(s.split_at_frame(0), Some(0));
    assert_eq!(s, sample());
}

#[test]
fn split_inside_a_bulk_cuts_it_in_two() {
    let mut s = sample();
    assert_eq!(s.split_at_frame(1), Some(1));
    let expected = script(vec![
        Line::FrameBulk(bulk_with_command(1, "echo start")),
        Line::FrameBulk(bulk(2)),
        Line::Comment("x".to_owned()),
        Line::FrameBulk(bulk(2)),
        Line::SharedSeed(7),
        Line::FrameBulk(bulk(4)),
    ]);
    assert_eq!(s, expected);
}

#[test]
fn split_keeps_the_command_on_the_left_part_only() {
    let mut s = script(vec![Line::FrameBulk(bulk_with_command(5, "say hi"))]);
    assert_eq!(s.split_at_frame(2), Some(1));
    match (&s.lines[0], &s.lines[1]) {
        (Line::FrameBulk(left), Line::FrameBulk(right)) => {
            assert_eq!(left.frame_count, 2);
            assert_eq!(left.console_command.as_deref(), Some("say hi"));
            assert_eq!(right.frame_count, 3);
            assert_eq!(right.console_command, None);
        }
        _ => panic!("both parts are frame bulks"),
    }
}

#[test]
fn split_out_of_range_fails_and_changes_nothing() {
    let mut s = sample();
    assert_eq!(s.split_at_frame(9), None);
    assert_eq!(s, sample());
    assert_eq!(s.split_at_frame(1000), None);
    assert_eq!(s, sample());
}

#[test]
fn split_then_locate_gives_repeat_zero() {
    for frame in 0..9 {
        let mut s = sample();
        let handle = s.split_at_frame(frame).unwrap();
        assert_eq!(s.line_and_repeat_at_frame(frame), Some((handle, 0)));
        assert_eq!(total(&s), 9);
    }
}

#[test]
fn split_is_idempotent() {
    for frame in 0..12 {
        let mut once = sample();
        let first = once.split_at_frame(frame);
        let mut twice = once.clone();
        let second = twice.split_at_frame(frame);
        assert_eq!(first, second);
        assert_eq!(once, twice);
    }
}

#[test]
fn split_single_isolates_one_frame() {
    for frame in 0..9 {
        let mut s = sample();
        let handle = s.split_single_at_frame(frame).unwrap();
        assert_eq!(s.line_and_repeat_at_frame(frame), Some((handle, 0)));
        match &s.lines[handle] {
            Line::FrameBulk(b) => assert_eq!(b.frame_count, 1),
            _ => panic!("the handle names a frame bulk"),
        }
        assert_eq!(total(&s), 9);
    }
}

#[test]
fn split_single_in_the_middle_makes_three_parts() {
    let mut s = script(vec![Line::FrameBulk(bulk_with_command(10, "go"))]);
    assert_eq!(s.split_single_at_frame(4), Some(1));
    let expected = script(vec![
        Line::FrameBulk(bulk_with_command(4, "go")),
        Line::FrameBulk(bulk(1)),
        Line::FrameBulk(bulk(5)),
    ]);
    assert_eq!(s, expected);
}

#[test]
fn split_single_out_of_range_fails() {
    let mut s = sample();
    assert_eq!(s.split_single_at_frame(9), None);
    assert_eq!(s, sample());
    assert_eq!(s.split_single_at_frame(usize::MAX), None);
    assert_eq!(s, sample());
}

#[test]
fn split_leaves_other_lines_alone() {
    let mut s = sample();
    s.split_single_at_frame(6).unwrap();
    let others: Vec<&Line> =
        s.lines.iter().filter(|line| !matches!(line, Line::FrameBulk(_))).collect();
    assert_eq!(others.len(), 2);
    assert_eq!(*others[0], Line::Comment("x".to_owned()));
    assert_eq!(*others[1], Line::SharedSeed(7));
}

#[test]
fn well_formedness_wants_positive_counts() {
    assert!(sample().is_wf());
    assert!(!script(vec![Line::FrameBulk(bulk(0))]).is_wf());
    let mut alternating = bulk(2);
    alternating.auto_actions.movement = Some(AutoMovement::Strafe(StrafeSettings {
        type_: StrafeType::MaxAccel,
        dir: StrafeDir::LeftRight(0),
    }));
    assert!(!alternating.is_wf());
    assert!(!script(vec![Line::FrameBulk(alternating)]).is_wf());
    let mut fine = bulk(2);
    fine.auto_actions.movement = Some(AutoMovement::Strafe(StrafeSettings {
        type_: StrafeType::MaxAccel,
        dir: StrafeDir::RightLeft(3),
    }));
    assert!(fine.is_wf());
}

#[test]
fn frame_bulk_lookup_tells_bulks_from_other_lines() {
    let s = sample();
    assert_eq!(s.frame_bulk(0).map(|b| b.frame_count), Some(3));
    assert!(s.frame_bulk(1).is_none());
    assert!(s.frame_bulk(5).is_none());
}

#[test]
fn put_frame_bulk_replaces_one_line() {
    let mut s = sample();
    s.put_frame_bulk(1, bulk(6));
    assert_eq!(s.lines[1], Line::FrameBulk(bulk(6)));
    assert_eq!(s.lines.len(), 5);
    let before = s.clone();
    s.put_frame_bulk(5, bulk(6));
    assert_eq!(s, before);
}

#[test]
fn same_settings_ignores_the_frame_count_only() {
    let a = bulk(5);
    let b = bulk(3);
    assert!(a.same_settings(&b));
    assert!(a != b);
    let c = bulk_with_command(5, "x");
    assert!(!a.same_settings(&c));
    let mut d = bulk(5);
    d.pitch = Some(Scalar { bits: 0 });
    assert!(!a.same_settings(&d));
}

#[test]
fn clones_compare_equal() {
    let s = script(vec![
        Line::FrameBulk(bulk_with_command(3, "a")),
        Line::TargetYawOverride(vec![Scalar { bits: 1 }, Scalar { bits: 2 }]),
        Line::Save("quick".to_owned()),
        Line::Reset { non_shared_seed: -4 },
    ]);
    let t = s.clone();
    assert_eq!(s, t);
    let mut u = s.clone();
    u.lines[1] = Line::TargetYawOverride(vec![Scalar { bits: 1 }]);
    assert!(s != u);
}
