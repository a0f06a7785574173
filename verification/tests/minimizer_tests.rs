use tas_optimizer::minimizer::{
    join_frame_bulks, Asked, Minimizer, Outcome, Pending, Removed, Stage, Step,
};
use tas_optimizer::script::{FrameBulk, Line, Properties, Script};
use tas_optimizer::types::{
    DuckBeforeGround, LeaveGroundAction, LeaveGroundActionSpeed, LeaveGroundActionType,
    UNLIMITED,
};

fn bulk(count: u32) -> FrameBulk {
    let mut b = FrameBulk::with_frame_time("0.001".to_owned());
    b.frame_count = count;
    b
}

fn jump() -> LeaveGroundAction {
    LeaveGroundAction {
        speed: LeaveGroundActionSpeed::Any,
        times: 2,
        type_: LeaveGroundActionType::Jump,
    }
}

fn busy(count: u32) -> FrameBulk {
    let mut b = bulk(count);
    b.action_keys.use_ = true;
    b.auto_actions.leave_ground_action = Some(jump());
    b.auto_actions.duck_before_ground = Some(DuckBeforeGround { times: UNLIMITED });
    b
}

fn script(lines: Vec<Line>) -> Script {
    Script { properties: Properties::none(), lines }
}

#[test]
fn merge_joins_bulks_that_differ_in_count_only() {
    let lines = vec![Line::FrameBulk(bulk(5)), Line::FrameBulk(bulk(3))];
    assert_eq!(join_frame_bulks(&lines), vec![Line::FrameBulk(bulk(8))]);
}

#[test]
fn merge_joins_whole_runs() {
    let lines = vec![
        Line::FrameBulk(bulk(1)),
        Line::FrameBulk(bulk(2)),
        Line::FrameBulk(bulk(3)),
        Line::FrameBulk(busy(4)),
        Line::FrameBulk(busy(5)),
        Line::FrameBulk(bulk(6)),
    ];
    assert_eq!(
        join_frame_bulks(&lines),
        vec![Line::FrameBulk(bulk(6)), Line::FrameBulk(busy(9)), Line::FrameBulk(bulk(6))]
    );
}

#[test]
fn merge_stops_at_other_lines() {
    let lines = vec![
        Line::FrameBulk(bulk(5)),
        Line::Comment("between".to_owned()),
        Line::FrameBulk(bulk(3)),
    ];
    assert_eq!(join_frame_bulks(&lines), lines);
    assert_eq!(join_frame_bulks(&Vec::new()), Vec::<Line>::new());
}

#[test]
fn merge_keeps_counts_within_32_bits() {
    let lines = vec![
        Line::FrameBulk(bulk(u32::MAX - 1)),
        Line::FrameBulk(bulk(1)),
        Line::FrameBulk(bulk(1)),
        Line::FrameBulk(bulk(2)),
    ];
    assert_eq!(
        join_frame_bulks(&lines),
        vec![Line::FrameBulk(bulk(u32::MAX)), Line::FrameBulk(bulk(3))]
    );
}

fn passed(state: u32) -> Option<Outcome<u32>> {
    Some(Outcome { state, unchanged: true })
}

fn failed(state: u32) -> Option<Outcome<u32>> {
    Some(Outcome { state, unchanged: false })
}

#[test]
fn minimizer_walks_every_setting_of_every_bulk() {
    let mut m = Minimizer::new(
        script(vec![
            Line::Comment("c".to_owned()),
            Line::FrameBulk(busy(2)),
            Line::FrameBulk(bulk(3)),
        ]),
        100,
    );
    assert_eq!(m.step(None), Step::Baseline { line: 1, from: 100 });
    assert_eq!(m.pending, Some(Pending { line: 1, asked: Asked::Baseline }));

    // The use key goes, and stays away.
    assert_eq!(m.step(passed(110)), Step::Trial { line: 1, from: 100, baseline: 110 });
    assert_eq!(m.pending, Some(Pending { line: 1, asked: Asked::Trial(Removed::UseKey) }));
    let mut expected = busy(2);
    expected.action_keys.use_ = false;
    assert_eq!(m.script.lines[1], Line::FrameBulk(expected.clone()));

    // The leave-ground action goes, and comes back.
    assert_eq!(m.step(passed(111)), Step::Trial { line: 1, from: 100, baseline: 111 });
    assert_eq!(
        m.pending,
        Some(Pending { line: 1, asked: Asked::Trial(Removed::LeaveGround(jump())) })
    );
    let mut without = expected.clone();
    without.auto_actions.leave_ground_action = None;
    assert_eq!(m.script.lines[1], Line::FrameBulk(without));

    assert_eq!(m.step(failed(90)), Step::Trial { line: 1, from: 100, baseline: 111 });
    assert_eq!(
        m.pending,
        Some(Pending {
            line: 1,
            asked: Asked::Trial(Removed::DuckBeforeGround(DuckBeforeGround {
                times: UNLIMITED
            })),
        })
    );
    expected.auto_actions.duck_before_ground = None;
    assert_eq!(m.script.lines[1], Line::FrameBulk(expected.clone()));

    // Ducking before the ground stays away; the next bulk starts from the
    // state that this one now leads to, and has nothing to drop.
    assert_eq!(m.step(passed(112)), Step::Baseline { line: 2, from: 112 });
    assert_eq!(m.script.lines[1], Line::FrameBulk(expected.clone()));
    assert_eq!(m.step(passed(120)), Step::Done);
    assert_eq!(m.after, 120);
    assert_eq!(m.step(passed(130)), Step::Done);
    assert_eq!(m.after, 120);
    assert_eq!(m.line, 3);
    assert_eq!(m.stage, Stage::Enter);
    assert_eq!(m.pending, None);

    let out = m.finish();
    assert_eq!(
        out,
        script(vec![
            Line::Comment("c".to_owned()),
            Line::FrameBulk(expected),
            Line::FrameBulk(bulk(3)),
        ])
    );
}

#[test]
fn failed_trials_leave_the_script_as_it_was() {
    let untouched = script(vec![Line::FrameBulk(busy(2)), Line::FrameBulk(busy(7))]);
    let mut m = Minimizer::new(untouched.clone(), 0);
    let mut steps = 0;
    let mut answer = None;
    loop {
        match m.step(answer) {
            Step::Done => break,
            Step::Baseline { from, .. } => {
                steps += 1;
                answer = passed(from + 1);
            }
            Step::Trial { from, baseline, .. } => {
                steps += 1;
                assert_eq!(baseline, from + 1);
                answer = failed(from + 50);
            }
        }
    }
    // A baseline and three trials for each bulk.
    assert_eq!(steps, 8);
    assert_eq!(m.after, 2);
    assert_eq!(m.script, untouched);
    assert_eq!(m.finish(), script(vec![Line::FrameBulk(busy(9))]));
}

#[test]
fn unanswered_trials_fail() {
    let untouched = script(vec![Line::FrameBulk(busy(2))]);
    let mut m = Minimizer::new(untouched.clone(), 0);
    assert_eq!(m.step(None), Step::Baseline { line: 0, from: 0 });
    assert_eq!(m.step(None), Step::Trial { line: 0, from: 0, baseline: 0 });
    assert_eq!(m.step(None), Step::Trial { line: 0, from: 0, baseline: 0 });
    assert_eq!(m.step(None), Step::Trial { line: 0, from: 0, baseline: 0 });
    assert_eq!(m.step(None), Step::Done);
    assert_eq!(m.script, untouched);
}

#[test]
fn passed_trials_strip_and_then_join() {
    let mut m =
        Minimizer::new(script(vec![Line::FrameBulk(busy(5)), Line::FrameBulk(bulk(3))]), 7);
    let mut answer = None;
    loop {
        match m.step(answer) {
            Step::Done => break,
            Step::Baseline { from, .. } => answer = passed(from + 1),
            Step::Trial { baseline, .. } => answer = passed(baseline),
        }
    }
    assert_eq!(m.after, 9);
    assert_eq!(m.finish(), script(vec![Line::FrameBulk(bulk(8))]));
}

#[test]
fn minimizer_of_an_empty_script_is_done() {
    let mut m = Minimizer::new(script(vec![]), 3);
    assert_eq!(m.step(None), Step::Done);
    assert_eq!(m.after, 3);
    assert_eq!(m.finish(), script(vec![]));
}

/// A simulation to try the minimizer on: a bulk moves the player by its
/// number of frames, twice as far with the use key, and a leave-ground action
/// leaves a mark that the player does not show.
fn simulate(state: (u32, bool), bulk: &FrameBulk) -> (u32, bool) {
    let step = if bulk.action_keys.use_ { 2 } else { 1 };
    (state.0 + step * bulk.frame_count, bulk.auto_actions.leave_ground_action.is_some())
}

#[test]
fn minimized_script_moves_the_player_as_the_script_did() {
    let source = script(vec![
        Line::FrameBulk(busy(2)),
        Line::Comment("c".to_owned()),
        Line::FrameBulk(bulk(3)),
        Line::FrameBulk(busy(4)),
    ]);
    let mut m = Minimizer::new(source.clone(), (0, false));
    let mut answer = None;
    loop {
        match m.step(answer) {
            Step::Done => break,
            Step::Baseline { line, from } => {
                let state = simulate(from, m.script.frame_bulk(line).unwrap());
                answer = Some(Outcome { state, unchanged: true });
            }
            Step::Trial { line, from, baseline } => {
                let state = simulate(from, m.script.frame_bulk(line).unwrap());
                answer = Some(Outcome { state, unchanged: state.0 == baseline.0 });
            }
        }
    }
    // The use key matters and stays; the actions do not and go.
    let mut kept_2 = bulk(2);
    kept_2.action_keys.use_ = true;
    let mut kept_4 = bulk(4);
    kept_4.action_keys.use_ = true;
    assert_eq!(
        m.script,
        script(vec![
            Line::FrameBulk(kept_2),
            Line::Comment("c".to_owned()),
            Line::FrameBulk(bulk(3)),
            Line::FrameBulk(kept_4),
        ])
    );
    // Bulk by bulk, the player ends up where the bulk of the source puts it.
    let mut state = (0, false);
    for (line, was) in m.script.lines.iter().zip(source.lines.iter()) {
        if let (Line::FrameBulk(now), Line::FrameBulk(was)) = (line, was) {
            assert_eq!(simulate(state, now).0, simulate(state, was).0);
            state = simulate(state, now);
        }
    }
    assert_eq!(state.0, 15);
    assert_eq!(m.after, state);
}

#[test]
fn joining_keeps_every_frame_as_it_was() {
    let lines = vec![
        Line::FrameBulk(bulk(2)),
        Line::FrameBulk(bulk(3)),
        Line::Comment("c".to_owned()),
        Line::FrameBulk(busy(1)),
        Line::FrameBulk(busy(4)),
        Line::FrameBulk(bulk(1)),
    ];
    let joined = join_frame_bulks(&lines);
    assert_eq!(joined.len(), 4);
    let unroll = |lines: &Vec<Line>| -> Vec<Line> {
        let mut out = Vec::new();
        for line in lines {
            match line {
                Line::FrameBulk(b) => {
                    for _ in 0..b.frame_count {
                        let mut one = b.clone();
                        one.frame_count = 1;
                        out.push(Line::FrameBulk(one));
                    }
                }
                other => out.push(other.clone()),
            }
        }
        out
    };
    assert_eq!(unroll(&joined), unroll(&lines));
}
