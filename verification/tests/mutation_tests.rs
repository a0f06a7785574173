use rand::rngs::StdRng;
use rand::SeedableRng;
use tas_optimizer::mutation::{
    flip_use_key, mutate_action_keys, mutate_auto_actions,
    mutate_frame, mutate_frame_bulk, mutate_frame_with, mutate_single_frame_bulk,
    mutate_single_frame_bulk_with, next_frame_bulk, nudge_count, pick_strafe_type,
    redirect, redraw_auto_actions, resample_frame_bulk, resample_segment, shift_counts,
    shift_range, AutoActionDraws, FrameDraws, LeaveGroundDraw, SegmentDraws, SegmentMutation,
    YawNudge,
};
use tas_optimizer::script::{FrameBulk, Line, Properties, Script};
use tas_optimizer::types::{
    AutoMovement, DuckBeforeGround, LeaveGroundAction, LeaveGroundActionSpeed,
    LeaveGroundActionType, Scalar, StrafeDir, StrafeSettings, StrafeType, UNLIMITED,
};

fn bulk(count: u32) -> FrameBulk {
    let mut b = FrameBulk::with_frame_time("0.001".to_owned());
    b.frame_count = count;
    b
}

fn slow_bulk(count: u32) -> FrameBulk {
    let mut b = FrameBulk::with_frame_time("0.01".to_owned());
    b.frame_count = count;
    b
}

fn strafing(count: u32, type_: StrafeType, dir: StrafeDir) -> FrameBulk {
    let mut b = bulk(count);
    b.auto_actions.movement = Some(AutoMovement::Strafe(StrafeSettings { type_, dir }));
    b
}

fn script(lines: Vec<Line>) -> Script {
    Script { properties: Properties::none(), lines }
}

fn quiet() -> AutoActionDraws {
    AutoActionDraws { toggle_duck_before_ground: false, leave_ground: None }
}

fn segment_draws(line: usize) -> SegmentDraws {
    SegmentDraws {
        line,
        strafe_percent: 50,
        large_yaw: false,
        count_delta: 0,
        invert: false,
        flip_use: false,
        auto_actions: quiet(),
        boundary_shift: 0,
    }
}

fn total(s: &Script) -> u64 {
    s.lines
        .iter()
        .map(|line| match line {
            Line::FrameBulk(b) => u64::from(b.frame_count),
            _ => 0,
        })
        .sum()
}

#[test]
fn strafe_type_follows_the_percent_drawn() {
    assert_eq!(pick_strafe_type(0), StrafeType::MaxDeccel);
    assert_eq!(pick_strafe_type(1), StrafeType::MaxAngle);
    assert_eq!(pick_strafe_type(9), StrafeType::MaxAngle);
    assert_eq!(pick_strafe_type(10), StrafeType::MaxAccel);
    assert_eq!(pick_strafe_type(99), StrafeType::MaxAccel);
}

#[test]
fn use_key_flips_only_when_drawn() {
    let mut b = bulk(1);
    flip_use_key(&mut b, false);
    assert_eq!(b, bulk(1));
    flip_use_key(&mut b, true);
    assert!(b.action_keys.use_);
    flip_use_key(&mut b, true);
    assert_eq!(b, bulk(1));
}

#[test]
fn duck_before_ground_toggles_presence() {
    let mut b = bulk(1);
    let toggle = AutoActionDraws { toggle_duck_before_ground: true, leave_ground: None };
    redraw_auto_actions(&mut b, &toggle);
    assert_eq!(b.auto_actions.duck_before_ground, Some(DuckBeforeGround { times: UNLIMITED }));
    redraw_auto_actions(&mut b, &toggle);
    assert_eq!(b.auto_actions.duck_before_ground, None);
    redraw_auto_actions(&mut b, &quiet());
    assert_eq!(b, bulk(1));
}

#[test]
fn leave_ground_action_is_reassigned_as_drawn() {
    let mut b = bulk(1);
    let jump = AutoActionDraws {
        toggle_duck_before_ground: false,
        leave_ground: Some(LeaveGroundDraw::Jump { any_speed: true }),
    };
    redraw_auto_actions(&mut b, &jump);
    assert_eq!(
        b.auto_actions.leave_ground_action,
        Some(LeaveGroundAction {
            speed: LeaveGroundActionSpeed::Any,
            times: UNLIMITED,
            type_: LeaveGroundActionType::Jump,
        })
    );
    let tap = AutoActionDraws {
        toggle_duck_before_ground: false,
        leave_ground: Some(LeaveGroundDraw::DuckTap { any_speed: false }),
    };
    redraw_auto_actions(&mut b, &tap);
    assert_eq!(
        b.auto_actions.leave_ground_action,
        Some(LeaveGroundAction {
            speed: LeaveGroundActionSpeed::Optimal,
            times: UNLIMITED,
            type_: LeaveGroundActionType::DuckTap { zero_ms: true },
        })
    );
    let absent = AutoActionDraws {
        toggle_duck_before_ground: false,
        leave_ground: Some(LeaveGroundDraw::Absent),
    };
    redraw_auto_actions(&mut b, &absent);
    assert_eq!(b.auto_actions.leave_ground_action, None);
}

#[test]
fn duck_tap_is_zero_ms_only_at_a_millisecond_a_frame() {
    let mut b = slow_bulk(1);
    let tap = AutoActionDraws {
        toggle_duck_before_ground: false,
        leave_ground: Some(LeaveGroundDraw::DuckTap { any_speed: true }),
    };
    redraw_auto_actions(&mut b, &tap);
    assert_eq!(
        b.auto_actions.leave_ground_action,
        Some(LeaveGroundAction {
            speed: LeaveGroundActionSpeed::Any,
            times: UNLIMITED,
            type_: LeaveGroundActionType::DuckTap { zero_ms: false },
        })
    );
}

#[test]
fn single_frame_resampling_sets_the_strafe_directive() {
    let mut b = bulk(1);
    let draws =
        FrameDraws { strafe_percent: 0, left: true, flip_use: false, auto_actions: quiet() };
    resample_frame_bulk(&mut b, &draws);
    assert_eq!(b, strafing(1, StrafeType::MaxDeccel, StrafeDir::Best));

    let draws =
        FrameDraws { strafe_percent: 5, left: true, flip_use: false, auto_actions: quiet() };
    resample_frame_bulk(&mut b, &draws);
    assert_eq!(b, strafing(1, StrafeType::MaxAngle, StrafeDir::Left));

    let draws =
        FrameDraws { strafe_percent: 42, left: false, flip_use: true, auto_actions: quiet() };
    resample_frame_bulk(&mut b, &draws);
    let mut expected = strafing(1, StrafeType::MaxAccel, StrafeDir::Right);
    expected.action_keys.use_ = true;
    assert_eq!(b, expected);
}

#[test]
fn mutate_frame_with_isolates_and_resamples() {
    let mut s = script(vec![Line::FrameBulk(bulk(10)), Line::Comment("c".to_owned())]);
    let draws =
        FrameDraws { strafe_percent: 50, left: true, flip_use: false, auto_actions: quiet() };
    assert_eq!(mutate_frame_with(&mut s, 4, &draws), Some(1));
    let expected = script(vec![
        Line::FrameBulk(bulk(4)),
        Line::FrameBulk(strafing(1, StrafeType::MaxAccel, StrafeDir::Left)),
        Line::FrameBulk(bulk(5)),
        Line::Comment("c".to_owned()),
    ]);
    assert_eq!(s, expected);
}

#[test]
fn mutate_frame_with_fails_out_of_range() {
    let mut s = script(vec![Line::FrameBulk(bulk(10))]);
    let draws =
        FrameDraws { strafe_percent: 50, left: true, flip_use: false, auto_actions: quiet() };
    assert_eq!(mutate_frame_with(&mut s, 10, &draws), None);
    assert_eq!(s, script(vec![Line::FrameBulk(bulk(10))]));
}

#[test]
fn counts_are_nudged_within_bounds() {
    assert_eq!(nudge_count(5, 3), 8);
    assert_eq!(nudge_count(5, -3), 2);
    assert_eq!(nudge_count(5, -5), 1);
    assert_eq!(nudge_count(5, -10), 1);
    assert_eq!(nudge_count(u32::MAX, 9), u32::MAX);
    assert_eq!(nudge_count(u32::MAX - 2, 9), u32::MAX);
    assert_eq!(nudge_count(1, i64::MIN), 1);
    assert_eq!(nudge_count(1, i64::MAX), u32::MAX);
}

#[test]
fn directions_change_by_their_kind() {
    let mut d = segment_draws(0);
    d.count_delta = 4;
    let yaw = StrafeDir::Yaw(Scalar { bits: 0x42f6_0000 });
    assert_eq!(redirect(yaw, &d), yaw);
    assert_eq!(redirect(StrafeDir::LeftRight(3), &d), StrafeDir::LeftRight(7));
    assert_eq!(redirect(StrafeDir::RightLeft(3), &d), StrafeDir::RightLeft(7));
    assert_eq!(redirect(StrafeDir::Left, &d), StrafeDir::Left);
    assert_eq!(redirect(StrafeDir::Right, &d), StrafeDir::Right);
    assert_eq!(redirect(StrafeDir::Best, &d), StrafeDir::Best);
    d.invert = true;
    assert_eq!(redirect(yaw, &d), yaw);
    assert_eq!(redirect(StrafeDir::LeftRight(3), &d), StrafeDir::RightLeft(7));
    assert_eq!(redirect(StrafeDir::RightLeft(3), &d), StrafeDir::LeftRight(7));
    assert_eq!(redirect(StrafeDir::Left, &d), StrafeDir::Right);
    assert_eq!(redirect(StrafeDir::Right, &d), StrafeDir::Left);
    assert_eq!(redirect(StrafeDir::Best, &d), StrafeDir::Best);
    let point = StrafeDir::Point { x: Scalar { bits: 1 }, y: Scalar { bits: 2 } };
    assert_eq!(redirect(point, &d), point);
}

#[test]
fn segment_resampling_reports_a_yaw() {
    let yaw = StrafeDir::Yaw(Scalar { bits: 7 });
    let mut b = strafing(3, StrafeType::ConstSpeed, yaw);
    let mut d = segment_draws(0);
    d.strafe_percent = 3;
    assert!(resample_segment(&mut b, &d));
    assert_eq!(b, strafing(3, StrafeType::MaxAngle, yaw));

    let mut plain = bulk(3);
    assert!(!resample_segment(&mut plain, &d));
    assert_eq!(plain, bulk(3));

    let mut set_yaw = bulk(3);
    set_yaw.auto_actions.movement = Some(AutoMovement::SetYaw(Scalar { bits: 9 }));
    let before = set_yaw.clone();
    assert!(!resample_segment(&mut set_yaw, &d));
    assert_eq!(set_yaw, before);
}

#[test]
fn shift_range_depends_on_the_next_bulk() {
    assert_eq!(shift_range(1), (-10, -1));
    assert_eq!(shift_range(2), (-10, 0));
    assert_eq!(shift_range(5), (-10, 3));
    assert_eq!(shift_range(11), (-10, 9));
    assert_eq!(shift_range(1000), (-10, 9));
    assert_eq!(shift_range(u32::MAX), (0, 9));
    assert_eq!(shift_range(u32::MAX - 4), (-4, 9));
}

#[test]
fn frames_move_between_neighbours_exactly() {
    assert_eq!(shift_counts(5, 8, 3), (8, 5));
    assert_eq!(shift_counts(5, 8, -3), (2, 11));
    assert_eq!(shift_counts(5, 8, 0), (5, 8));
    // The first bulk keeps one frame.
    assert_eq!(shift_counts(5, 8, -9), (1, 12));
    // The second bulk keeps two frames when it gives any.
    assert_eq!(shift_counts(5, 3, 9), (6, 2));
    assert_eq!(shift_counts(5, 1, 9), (4, 2));
    // No more than ten frames move.
    assert_eq!(shift_counts(50, 50, -100), (40, 60));
    assert_eq!(shift_counts(50, 50, 100), (59, 41));
    // Neither count leaves 32 bits.
    assert_eq!(shift_counts(3, u32::MAX, -5), (3, u32::MAX));
    assert_eq!(shift_counts(u32::MAX, 20, 5), (u32::MAX, 20));
}

#[test]
fn next_frame_bulk_skips_other_lines() {
    let s = script(vec![
        Line::FrameBulk(bulk(1)),
        Line::Comment("a".to_owned()),
        Line::VectorialStrafing(true),
        Line::FrameBulk(bulk(2)),
        Line::FrameBulk(bulk(3)),
        Line::Comment("b".to_owned()),
    ]);
    assert_eq!(next_frame_bulk(&s, 0), Some(3));
    assert_eq!(next_frame_bulk(&s, 1), Some(3));
    assert_eq!(next_frame_bulk(&s, 3), Some(4));
    assert_eq!(next_frame_bulk(&s, 4), None);
    assert_eq!(next_frame_bulk(&s, 5), None);
    assert_eq!(next_frame_bulk(&s, 99), None);
}

#[test]
fn whole_segment_mutation_with_one_segment_keeps_frame_count() {
    let mut s = script(vec![Line::FrameBulk(bulk(10))]);
    let mut d = segment_draws(0);
    d.boundary_shift = 7;
    d.flip_use = true;
    let report = mutate_single_frame_bulk_with(&mut s, &d);
    assert_eq!(report, Some(SegmentMutation { stale_frame: 0, yaw_nudge: None }));
    let mut expected = bulk(10);
    expected.action_keys.use_ = true;
    assert_eq!(s, script(vec![Line::FrameBulk(expected)]));

    let mut rng = StdRng::seed_from_u64(11);
    for _ in 0..500 {
        let report = mutate_single_frame_bulk(&mut s, &mut rng).unwrap();
        assert_eq!(report.stale_frame, 0);
        assert_eq!(s.lines.len(), 1);
        match &s.lines[0] {
            Line::FrameBulk(b) => {
                assert_eq!(b.frame_count, 10);
                assert_eq!(b.frame_time, "0.001");
            }
            _ => panic!("the line stays a frame bulk"),
        }
    }
}

#[test]
fn whole_segment_mutation_shifts_the_boundary() {
    let mut s = script(vec![
        Line::FrameBulk(bulk(2)),
        Line::FrameBulk(bulk(5)),
        Line::Comment("c".to_owned()),
        Line::FrameBulk(bulk(8)),
    ]);
    let mut d = segment_draws(1);
    d.boundary_shift = 3;
    let report = mutate_single_frame_bulk_with(&mut s, &d);
    assert_eq!(report, Some(SegmentMutation { stale_frame: 2, yaw_nudge: None }));
    let expected = script(vec![
        Line::FrameBulk(bulk(2)),
        Line::FrameBulk(bulk(8)),
        Line::Comment("c".to_owned()),
        Line::FrameBulk(bulk(5)),
    ]);
    assert_eq!(s, expected);
}

#[test]
fn boundary_stays_between_different_frame_times() {
    let mut s = script(vec![Line::FrameBulk(bulk(5)), Line::FrameBulk(slow_bulk(8))]);
    let mut d = segment_draws(0);
    d.boundary_shift = 3;
    mutate_single_frame_bulk_with(&mut s, &d).unwrap();
    assert_eq!(s, script(vec![Line::FrameBulk(bulk(5)), Line::FrameBulk(slow_bulk(8))]));
}

#[test]
fn whole_segment_mutation_of_a_yaw_asks_for_a_nudge() {
    let yaw = StrafeDir::Yaw(Scalar { bits: 0x42b4_0000 });
    let mut s = script(vec![
        Line::FrameBulk(bulk(4)),
        Line::FrameBulk(strafing(6, StrafeType::MaxAccel, yaw)),
    ]);
    let mut d = segment_draws(1);
    d.large_yaw = true;
    d.strafe_percent = 0;
    let report = mutate_single_frame_bulk_with(&mut s, &d);
    assert_eq!(
        report,
        Some(SegmentMutation {
            stale_frame: 4,
            yaw_nudge: Some(YawNudge { line: 1, large: true }),
        })
    );
    assert_eq!(
        s,
        script(vec![
            Line::FrameBulk(bulk(4)),
            Line::FrameBulk(strafing(6, StrafeType::MaxDeccel, yaw)),
        ])
    );
}

#[test]
fn whole_segment_mutation_needs_a_frame_bulk() {
    let mut s = script(vec![Line::Comment("c".to_owned()), Line::FrameBulk(bulk(4))]);
    assert_eq!(mutate_single_frame_bulk_with(&mut s, &segment_draws(0)), None);
    assert_eq!(mutate_single_frame_bulk_with(&mut s, &segment_draws(2)), None);
    assert_eq!(s, script(vec![Line::Comment("c".to_owned()), Line::FrameBulk(bulk(4))]));

    let mut none = script(vec![Line::Comment("c".to_owned())]);
    let mut rng = StdRng::seed_from_u64(3);
    assert_eq!(mutate_single_frame_bulk(&mut none, &mut rng), None);
    assert_eq!(none, script(vec![Line::Comment("c".to_owned())]));
}

#[test]
fn random_whole_segment_mutations_keep_every_frame() {
    let mut s = script(vec![
        Line::FrameBulk(strafing(3, StrafeType::MaxAccel, StrafeDir::LeftRight(4))),
        Line::Comment("c".to_owned()),
        Line::FrameBulk(strafing(20, StrafeType::MaxAccel, StrafeDir::Left)),
        Line::FrameBulk(strafing(1, StrafeType::MaxAccel, StrafeDir::Yaw(Scalar { bits: 5 }))),
        Line::FrameBulk(slow_bulk(7)),
    ]);
    let mut rng = StdRng::seed_from_u64(2024);
    let mut moved = false;
    for _ in 0..2000 {
        let before = s.clone();
        let report = mutate_single_frame_bulk(&mut s, &mut rng).unwrap();
        assert_eq!(total(&s), 31);
        assert_eq!(s.lines.len(), 5);
        assert!(s.is_wf());
        assert!(report.stale_frame < 31);
        let line = (0..5).find(|l| before.first_frame_of_line(*l) == report.stale_frame
            && matches!(before.lines[*l], Line::FrameBulk(_)));
        let line = line.unwrap();
        for l in 0..line {
            assert_eq!(s.lines[l], before.lines[l]);
        }
        match report.yaw_nudge {
            Some(nudge) => assert_eq!(nudge.line, 3),
            None => assert!(line != 3),
        }
        match &s.lines[4] {
            Line::FrameBulk(b) => assert_eq!(b.frame_count, 7),
            _ => panic!("the line stays a frame bulk"),
        }
        if s.lines[2] != before.lines[2] {
            moved = true;
        }
    }
    assert!(moved);
}

#[test]
fn random_single_frame_mutations_keep_every_frame() {
    let mut rng = StdRng::seed_from_u64(77);
    for frame in 0..12 {
        let mut s = script(vec![
            Line::FrameBulk(bulk(5)),
            Line::Save("s".to_owned()),
            Line::FrameBulk(bulk(7)),
        ]);
        mutate_frame(&mut rng, &mut s, frame);
        assert_eq!(total(&s), 12);
        assert!(s.is_wf());
        let (line, repeat) = s.line_and_repeat_at_frame(frame).unwrap();
        assert_eq!(repeat, 0);
        match &s.lines[line] {
            Line::FrameBulk(b) => {
                assert_eq!(b.frame_count, 1);
                match b.auto_actions.movement {
                    Some(AutoMovement::Strafe(settings)) => match settings.type_ {
                        StrafeType::MaxDeccel => assert_eq!(settings.dir, StrafeDir::Best),
                        StrafeType::MaxAngle | StrafeType::MaxAccel => assert!(matches!(
                            settings.dir,
                            StrafeDir::Left | StrafeDir::Right
                        )),
                        StrafeType::ConstSpeed => panic!("never drawn"),
                    },
                    _ => panic!("the frame strafes"),
                }
            }
            _ => panic!("the frame has a bulk of its own"),
        }
    }
}

#[test]
fn toggles_are_rare_but_happen() {
    let mut rng = StdRng::seed_from_u64(9);
    let mut ducks = 0;
    let mut redraws = 0;
    let mut uses = 0;
    for _ in 0..20000 {
        let mut b = bulk(1);
        b.auto_actions.leave_ground_action = Some(LeaveGroundAction {
            speed: LeaveGroundActionSpeed::OptimalWithFullMaxspeed,
            times: 3,
            type_: LeaveGroundActionType::Jump,
        });
        let before = b.clone();
        mutate_auto_actions(&mut rng, &mut b);
        if b.auto_actions.duck_before_ground.is_some() {
            ducks += 1;
        }
        if b.auto_actions.leave_ground_action != before.auto_actions.leave_ground_action {
            redraws += 1;
        }
        mutate_action_keys(&mut rng, &mut b);
        if b.action_keys.use_ {
            uses += 1;
        }
    }
    // One in twenty, one in ten and one in twenty, with a wide margin.
    assert!(ducks > 700 && ducks < 1300);
    assert!(redraws > 1600 && redraws < 2400);
    assert!(uses > 700 && uses < 1300);
}

#[test]
fn random_bulk_mutations_touch_only_their_settings() {
    let mut rng = StdRng::seed_from_u64(1);
    for _ in 0..200 {
        let mut b = bulk(4);
        mutate_action_keys(&mut rng, &mut b);
        let mut flipped = bulk(4);
        flipped.action_keys.use_ = true;
        assert!(b == bulk(4) || b == flipped);

        let mut b = bulk(4);
        mutate_auto_actions(&mut rng, &mut b);
        assert_eq!(b.frame_count, 4);
        assert_eq!(b.auto_actions.movement, None);
        assert_eq!(b.action_keys, bulk(4).action_keys);

        let mut b = bulk(4);
        mutate_frame_bulk(&mut rng, &mut b);
        assert_eq!(b.frame_count, 4);
        assert!(matches!(b.auto_actions.movement, Some(AutoMovement::Strafe(_))));
    }
}

#[test]
fn one_random_change_reports_where_it_starts() {
    let mut rng = StdRng::seed_from_u64(31);
    for round in 0..300 {
        let mut s = script(vec![
            Line::FrameBulk(bulk(5)),
            Line::Save("s".to_owned()),
            Line::FrameBulk(strafing(7, StrafeType::MaxAccel, StrafeDir::Yaw(Scalar { bits: 3 }))),
        ]);
        let before = s.clone();
        let single = round % 2 == 0;
        let (frame, nudge) =
            tas_optimizer::mutation::mutate_once(&mut s, &mut rng, single, 6);
        assert_eq!(total(&s), 12);
        assert!(s.is_wf());
        assert!(matches!(s.lines[0], Line::FrameBulk(_)));
        if single {
            assert!(frame < 6);
            assert_eq!(nudge, None);
            let (line, repeat) = s.line_and_repeat_at_frame(frame).unwrap();
            assert_eq!(repeat, 0);
            assert_eq!(s.frame_bulk(line).unwrap().frame_count, 1);
        } else {
            assert!(frame == 0 || frame == s.first_frame_of_line(2));
            assert_eq!(s.lines.len(), 3);
            assert_eq!(s.lines[1], before.lines[1]);
            if frame == 0 {
                assert_eq!(nudge, None);
            } else {
                assert_eq!(s.lines[0], before.lines[0]);
                assert!(matches!(nudge, Some(YawNudge { line: 2, .. })));
            }
        }
    }
}
