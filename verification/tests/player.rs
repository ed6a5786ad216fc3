use click_to_move::camera::CameraState;
use click_to_move::player::ClickInput;
use click_to_move::player::Facing;
use click_to_move::player::GroundHit;
use click_to_move::player::JumpPhase;
use click_to_move::player::JumpState;
use click_to_move::player::MotionState;
use click_to_move::player::MoveOutcome;
use click_to_move::player::Player;
use click_to_move::vector::FixedVec3;

fn spot(x: i64, y: i64, z: i64) -> FixedVec3 {
    FixedVec3::new(x, y, z).unwrap()
}

fn locked() -> CameraState {
    CameraState { locked: true, pitch: 0, yaw: 0 }
}

fn click_at(x: i64, z: i64) -> ClickInput {
    ClickInput {
        window_present: true,
        camera_present: true,
        left_mouse: true,
        hit: Some(GroundHit { distance: 19_000_000, point: spot(x, 0, z) }),
    }
}

fn walking_to(from: FixedVec3, x: i64, z: i64) -> Player {
    let mut player = Player::new(from);
    assert!(player.handle_player_input(&locked(), &click_at(x, z)));
    player
}

/// Height of the player's centre for a hop phase, as the host computes it.
fn rendered_height(phase: &JumpPhase) -> f64 {
    let fraction = phase.elapsed as f64 / phase.period as f64;
    (phase.start_y as f64 + (fraction * std::f64::consts::PI).sin() * phase.height as f64) / 1e6
}

#[test]
fn new_player_stands() {
    let player = Player::new(spot(0, 500_000, 0));
    assert_eq!(player.position, spot(0, 500_000, 0));
    assert_eq!(player.motion, MotionState::Idle);
    assert!(player.is_wf());
}

#[test]
fn click_sets_target_and_starts_hops() {
    let mut player = Player::new(spot(0, 500_000, 0));
    let accepted = player.handle_player_input(&locked(), &click_at(3_000_000, 4_000_000));
    assert!(accepted);
    assert_eq!(player.position, spot(0, 500_000, 0));
    assert_eq!(
        player.motion,
        MotionState::Walking {
            target: spot(3_000_000, 0, 4_000_000),
            jump: JumpState { elapsed: 0, start_y: 500_000 },
        }
    );
    assert!(player.is_wf());
}

#[test]
fn click_while_unlocked_changes_nothing() {
    let unlocked = CameraState { locked: false, pitch: 0, yaw: 0 };
    let mut standing = Player::new(spot(0, 500_000, 0));
    assert!(!standing.handle_player_input(&unlocked, &click_at(3_000_000, 4_000_000)));
    assert_eq!(standing, Player::new(spot(0, 500_000, 0)));

    let mut walking = walking_to(spot(0, 500_000, 0), 3_000_000, 4_000_000);
    walking.move_player(100_000);
    walking.animate_jump(100_000);
    let before = walking;
    assert!(!walking.handle_player_input(&unlocked, &click_at(-9_000_000, 1_000_000)));
    assert_eq!(walking, before);
}

#[test]
fn click_needs_window_camera_button_and_hit() {
    let start = Player::new(spot(0, 500_000, 0));
    let good = click_at(1_000_000, 1_000_000);
    let rejected = [
        ClickInput { window_present: false, ..good },
        ClickInput { camera_present: false, ..good },
        ClickInput { left_mouse: false, ..good },
        ClickInput { hit: None, ..good },
    ];
    for input in rejected {
        let mut player = start;
        assert!(!player.handle_player_input(&locked(), &input));
        assert_eq!(player, start);
    }
}

#[test]
fn hit_behind_the_camera_is_ignored() {
    let mut player = Player::new(spot(0, 500_000, 0));
    let behind = ClickInput {
        hit: Some(GroundHit { distance: -1, point: spot(1_000_000, 0, 1_000_000) }),
        ..click_at(0, 0)
    };
    assert!(!player.handle_player_input(&locked(), &behind));
    assert_eq!(player.motion, MotionState::Idle);
    let at_zero = ClickInput {
        hit: Some(GroundHit { distance: 0, point: spot(1_000_000, 0, 1_000_000) }),
        ..click_at(0, 0)
    };
    assert!(player.handle_player_input(&locked(), &at_zero));
    assert!(matches!(player.motion, MotionState::Walking { .. }));
}

#[test]
fn hit_outside_the_world_is_ignored() {
    let mut player = Player::new(spot(0, 500_000, 0));
    let far = ClickInput {
        hit: Some(GroundHit {
            distance: 5,
            point: FixedVec3 { x: 1_000_000_000_001, y: 0, z: 0 },
        }),
        ..click_at(0, 0)
    };
    assert!(!player.handle_player_input(&locked(), &far));
    assert_eq!(player.motion, MotionState::Idle);
}

#[test]
fn reclick_replaces_target_and_restarts_hop() {
    let mut player = walking_to(spot(0, 500_000, 0), 3_000_000, 4_000_000);
    player.move_player(100_000);
    let phase = player.animate_jump(100_000).unwrap();
    assert_eq!(phase.elapsed, 100_000);
    player.move_player(50_000);
    let phase = player.animate_jump(50_000).unwrap();
    assert_eq!(phase.elapsed, 150_000);
    let position = player.position;

    assert!(player.handle_player_input(&locked(), &click_at(-2_000_000, 7_000_000)));
    assert_eq!(player.position, position);
    assert_eq!(
        player.motion,
        MotionState::Walking {
            target: spot(-2_000_000, 0, 7_000_000),
            jump: JumpState { elapsed: 0, start_y: 500_000 },
        }
    );
    // a frame of no duration shows the hop at its start
    let phase = player.animate_jump(0).unwrap();
    assert_eq!(phase.elapsed, 0);
    assert_eq!(rendered_height(&phase), 0.5);
}

#[test]
fn idle_player_does_not_move() {
    let mut player = Player::new(spot(1, 2, 3));
    assert_eq!(player.move_player(1_000_000), MoveOutcome::NoTarget);
    assert_eq!(player.animate_jump(1_000_000), None);
    assert_eq!(player, Player::new(spot(1, 2, 3)));
}

#[test]
fn walking_step_has_exact_length_and_direction() {
    let mut player = walking_to(spot(0, 500_000, 0), 3_000_000, 4_000_000);
    // a tenth of a second at 5 units per second is half a unit
    let outcome = player.move_player(100_000);
    assert_eq!(
        outcome,
        MoveOutcome::Moving {
            facing: Some(Facing {
                direction: FixedVec3 { x: 600_000, y: 0, z: 800_000 },
                turn: 1_000_000,
            }),
        }
    );
    assert_eq!(player.position, spot(300_000, 500_000, 400_000));
    assert!(matches!(player.motion, MotionState::Walking { .. }));
}

#[test]
fn walking_step_rounds_toward_zero() {
    let mut player = walking_to(spot(0, 500_000, 0), -1_000_000, -2_000_000);
    // the distance is 2236067.97.., its integer part 2236067
    let outcome = player.move_player(1_000);
    assert_eq!(
        outcome,
        MoveOutcome::Moving {
            facing: Some(Facing {
                direction: FixedVec3 { x: -447_213, y: 0, z: -894_427 },
                turn: 10_000,
            }),
        }
    );
    // a step of 5000 along that direction: 2236.065 and 4472.135
    assert_eq!(player.position, spot(-2_236, 500_000, -4_472));
}

#[test]
fn walk_keeps_height_until_arrival() {
    let mut player = walking_to(spot(0, 2_000_000, 0), 3_000_000, 4_000_000);
    player.move_player(100_000);
    assert_eq!(player.position.y, 2_000_000);
    player.move_player(2_000_000);
    assert_eq!(player, Player::new(spot(3_000_000, 500_000, 4_000_000)));
}

#[test]
fn arrives_when_nearer_than_one_step() {
    let mut player = walking_to(spot(0, 500_000, 0), 3_000_000, 4_000_000);
    // one second covers 5 units: the distance is exactly one step, not less
    assert!(matches!(player.move_player(1_000_000), MoveOutcome::Moving { .. }));
    assert_eq!(player.position, spot(3_000_000, 500_000, 4_000_000));
    assert!(matches!(player.motion, MotionState::Walking { .. }));
    assert_eq!(player.move_player(0), MoveOutcome::Arrived);
    assert_eq!(player.motion, MotionState::Idle);

    let mut player = walking_to(spot(0, 500_000, 0), 3_000_000, 4_000_000);
    assert_eq!(player.move_player(1_000_001), MoveOutcome::Arrived);
    assert_eq!(player, Player::new(spot(3_000_000, 500_000, 4_000_000)));
}

#[test]
fn arrives_when_nearer_than_snap_distance() {
    let mut player = walking_to(spot(0, 700_000, 0), 0, 9_999);
    assert_eq!(player.move_player(0), MoveOutcome::Arrived);
    assert_eq!(player, Player::new(spot(0, 500_000, 9_999)));

    let mut player = walking_to(spot(0, 500_000, 0), 0, 10_000);
    assert_eq!(
        player.move_player(0),
        MoveOutcome::Moving {
            facing: Some(Facing { direction: FixedVec3 { x: 0, y: 0, z: 1_000_000 }, turn: 0 }),
        }
    );
    assert_eq!(player.position, spot(0, 500_000, 0));
    assert!(matches!(player.motion, MotionState::Walking { .. }));
}

#[test]
fn player_reaches_clicked_point_exactly() {
    let mut player = Player::new(spot(0, 500_000, 0));
    assert!(player.handle_player_input(&locked(), &click_at(3_000_000, 4_000_000)));
    let mut frames = 0;
    while player.motion != MotionState::Idle {
        let before = player.position;
        let outcome = player.move_player(16_667);
        player.animate_jump(16_667);
        assert!(before.x <= player.position.x && player.position.x <= 3_000_000);
        assert!(before.z <= player.position.z && player.position.z <= 4_000_000);
        if outcome == MoveOutcome::Arrived {
            assert_eq!(player.motion, MotionState::Idle);
        }
        frames += 1;
        assert!(frames < 1_000);
    }
    // 5 units at 5 units per second take one second: 60 frames
    assert_eq!(frames, 60);
    assert_eq!(player.position.x, 3_000_000);
    assert_eq!(player.position.z, 4_000_000);
    assert_eq!(player.position.y, 500_000);
    assert_eq!(player.motion, MotionState::Idle);
    assert_eq!(player.animate_jump(16_667), None);
    assert_eq!(player.move_player(16_667), MoveOutcome::NoTarget);
}

#[test]
fn player_reaches_target_across_the_world() {
    let mut player = walking_to(
        spot(1_000_000_000_000, 500_000, -1_000_000_000_000),
        -1_000_000_000_000,
        1_000_000_000_000,
    );
    let mut frames = 0;
    while player.motion != MotionState::Idle {
        player.move_player(u32::MAX);
        assert!(player.is_wf());
        frames += 1;
        assert!(frames < 1_000);
    }
    assert_eq!(player, Player::new(spot(-1_000_000_000_000, 500_000, 1_000_000_000_000)));
}

#[test]
fn hop_timer_advances_and_wraps() {
    let mut player = walking_to(spot(0, 500_000, 0), 300_000_000, 0);
    let phase = player.animate_jump(700_000).unwrap();
    assert_eq!(
        phase,
        JumpPhase { elapsed: 100_000, period: 600_000, start_y: 500_000, height: 1_500_000 }
    );
    assert_eq!(player.animate_jump(499_999).unwrap().elapsed, 599_999);
    assert_eq!(player.animate_jump(1).unwrap().elapsed, 0);
    assert_eq!(player.animate_jump(u32::MAX).unwrap().elapsed, 167_295);
    assert_eq!(player.animate_jump(0).unwrap().elapsed, 167_295);
    assert!(player.is_wf());
}

#[test]
fn hop_offset_is_periodic() {
    let mut player = walking_to(spot(0, 500_000, 0), 300_000_000, 0);
    // t = 0
    let phase = player.animate_jump(0).unwrap();
    assert_eq!(phase.elapsed, 0);
    assert_eq!(rendered_height(&phase), 0.5);
    // t = 0.15 s
    let phase = player.animate_jump(150_000).unwrap();
    assert_eq!(phase.elapsed, 150_000);
    assert!((rendered_height(&phase) - (0.5 + 1.5 * 0.5f64.sqrt())).abs() < 1e-12);
    // t = 0.3 s: the top of the hop
    let phase = player.animate_jump(150_000).unwrap();
    assert_eq!(phase.elapsed, 300_000);
    assert!((rendered_height(&phase) - 2.0).abs() < 1e-12);
    // t = 0.6 s: back on the ground, the next hop begins
    let phase = player.animate_jump(300_000).unwrap();
    assert_eq!(phase.elapsed, 0);
    assert_eq!(rendered_height(&phase), 0.5);
    // t = 0.9 s: the top of the second hop
    let phase = player.animate_jump(300_000).unwrap();
    assert_eq!(phase.elapsed, 300_000);
    assert!((rendered_height(&phase) - 2.0).abs() < 1e-12);
}

#[test]
fn hop_timer_depends_only_on_total_time() {
    let mut in_parts = walking_to(spot(0, 500_000, 0), 300_000_000, 0);
    for _ in 0..7 {
        in_parts.animate_jump(100_000);
    }
    let mut at_once = walking_to(spot(0, 500_000, 0), 300_000_000, 0);
    at_once.animate_jump(700_000);
    assert_eq!(in_parts, at_once);
    let mut a_period_later = at_once;
    a_period_later.animate_jump(600_000);
    assert_eq!(a_period_later, at_once);
}

#[test]
fn arrival_removes_target_and_hop_together() {
    let mut player = walking_to(spot(0, 500_000, 0), 100_000, 0);
    player.animate_jump(250_000);
    assert_eq!(player.move_player(250_000), MoveOutcome::Arrived);
    assert_eq!(player.motion, MotionState::Idle);
    assert_eq!(player.animate_jump(250_000), None);
}

#[test]
fn malformed_player_is_detected() {
    let outside = Player::new(FixedVec3 { x: 0, y: 1_000_000_000_001, z: 0 });
    assert!(!outside.is_wf());
    let overrun = Player {
        position: spot(0, 0, 0),
        motion: MotionState::Walking {
            target: spot(1, 0, 1),
            jump: JumpState { elapsed: 600_000, start_y: 500_000 },
        },
    };
    assert!(!overrun.is_wf());
    let far_target = Player {
        position: spot(0, 0, 0),
        motion: MotionState::Walking {
            target: FixedVec3 { x: 0, y: 0, z: -1_000_000_000_001 },
            jump: JumpState { elapsed: 0, start_y: 500_000 },
        },
    };
    assert!(!far_target.is_wf());
}
