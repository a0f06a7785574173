//! Plain-value building blocks of a movement script.
//!
//! Everything here is `Copy` and compared field by field. Real-valued settings
//! are carried as [`Scalar`]s: the library moves them around and compares them,
//! but never computes with them.

use vstd::prelude::*;

verus! {

/// A single-precision real number, held by its IEEE-754 bit pattern.
///
/// Two scalars are equal exactly when their bit patterns are.
#[derive(Clone, Copy, Debug, PartialEq, Eq, Structural)]
pub struct Scalar {
    pub bits: u32,
}

/// How often an automatic action fires: this value means "any number of times
/// while the frame bulk lasts"; any other value is an exact count.
pub const UNLIMITED: u32 = 0;

/// Shared and non-shared random seeds of the simulated game.
#[derive(Clone, Copy, Debug, PartialEq, Eq, Structural)]
pub struct Seeds {
    pub shared: u32,
    pub non_shared: i64,
}

/// A key that strafing may press.
#[derive(Clone, Copy, Debug, PartialEq, Eq, Structural)]
pub enum Button {
    Forward,
    ForwardLeft,
    Left,
    BackLeft,
    Back,
    BackRight,
    Right,
    ForwardRight,
}

/// A line that sets or resets the strafing keys.
#[derive(Clone, Copy, Debug, PartialEq, Eq, Structural)]
pub enum Buttons {
    Reset,
    Assign { air_left: Button, air_right: Button, ground_left: Button, ground_right: Button },
}

/// What automatic strafing optimises for.
#[derive(Clone, Copy, Debug, PartialEq, Eq, Structural)]
pub enum StrafeType {
    MaxAccel,
    MaxAngle,
    MaxDeccel,
    ConstSpeed,
}

/// Where automatic strafing turns to.
#[derive(Clone, Copy, Debug, PartialEq, Eq, Structural)]
pub enum StrafeDir {
    Left,
    Right,
    /// Let the strafing type decide.
    Best,
    /// Towards a yaw angle.
    Yaw(Scalar),
    /// Towards a point.
    Point { x: Scalar, y: Scalar },
    /// Along the line that leaves the player at a yaw angle.
    Line { yaw: Scalar },
    /// Alternate, starting to the left, switching every so many frames (at least one).
    LeftRight(u32),
    /// Alternate, starting to the right, switching every so many frames (at least one).
    RightLeft(u32),
}

#[derive(Clone, Copy, Debug, PartialEq, Eq, Structural)]
pub struct StrafeSettings {
    pub type_: StrafeType,
    pub dir: StrafeDir,
}

/// The automatic movement directive of a frame bulk.
#[derive(Clone, Copy, Debug, PartialEq, Eq, Structural)]
pub enum AutoMovement {
    SetYaw(Scalar),
    Strafe(StrafeSettings),
}

#[derive(Clone, Copy, Debug, PartialEq, Eq, Structural)]
pub enum LeaveGroundActionSpeed {
    Any,
    Optimal,
    OptimalWithFullMaxspeed,
}

#[derive(Clone, Copy, Debug, PartialEq, Eq, Structural)]
pub enum LeaveGroundActionType {
    Jump,
    DuckTap { zero_ms: bool },
}

/// Leave the ground automatically, by a jump or a duck tap.
#[derive(Clone, Copy, Debug, PartialEq, Eq, Structural)]
pub struct LeaveGroundAction {
    pub speed: LeaveGroundActionSpeed,
    /// A count, or [`UNLIMITED`].
    pub times: u32,
    pub type_: LeaveGroundActionType,
}

#[derive(Clone, Copy, Debug, PartialEq, Eq, Structural)]
pub struct JumpBug {
    /// A count, or [`UNLIMITED`].
    pub times: u32,
}

#[derive(Clone, Copy, Debug, PartialEq, Eq, Structural)]
pub struct DuckBeforeCollision {
    /// A count, or [`UNLIMITED`].
    pub times: u32,
    pub including_ceilings: bool,
}

#[derive(Clone, Copy, Debug, PartialEq, Eq, Structural)]
pub struct DuckBeforeGround {
    /// A count, or [`UNLIMITED`].
    pub times: u32,
}

#[derive(Clone, Copy, Debug, PartialEq, Eq, Structural)]
pub struct DuckWhenJump {
    /// A count, or [`UNLIMITED`].
    pub times: u32,
}

/// The automatic actions of a frame bulk.
#[derive(Clone, Copy, Debug, PartialEq, Eq, Structural)]
pub struct AutoActions {
    pub movement: Option<AutoMovement>,
    pub leave_ground_action: Option<LeaveGroundAction>,
    pub jump_bug: Option<JumpBug>,
    pub duck_before_collision: Option<DuckBeforeCollision>,
    pub duck_before_ground: Option<DuckBeforeGround>,
    pub duck_when_jump: Option<DuckWhenJump>,
}

#[derive(Clone, Copy, Debug, PartialEq, Eq, Structural)]
pub struct MovementKeys {
    pub forward: bool,
    pub left: bool,
    pub right: bool,
    pub back: bool,
    pub up: bool,
    pub down: bool,
}

#[derive(Clone, Copy, Debug, PartialEq, Eq, Structural)]
pub struct ActionKeys {
    pub jump: bool,
    pub duck: bool,
    pub use_: bool,
    pub attack_1: bool,
    pub attack_2: bool,
    pub reload: bool,
}

/// Limits on the player's yaw while strafing vectorially.
#[derive(Clone, Copy, Debug, PartialEq, Eq, Structural)]
pub enum VectorialStrafingConstraints {
    VelocityYaw { tolerance: Scalar },
    AvgVelocityYaw { tolerance: Scalar },
    VelocityYawLocking { tolerance: Scalar },
    Yaw { yaw: Scalar, tolerance: Scalar },
    YawRange { from: Scalar, to: Scalar },
}

#[derive(Clone, Copy, Debug, PartialEq, Eq, Structural)]
pub enum ChangeTarget {
    Yaw,
    Pitch,
    VectorialStrafingYaw,
}

/// A smooth change of one value over some time.
#[derive(Clone, Copy, Debug, PartialEq, Eq, Structural)]
pub struct Change {
    pub target: ChangeTarget,
    pub final_value: Scalar,
    pub over: Scalar,
}

impl AutoActions {
    /// No automatic action at all.
    pub fn none() -> (r: AutoActions)
        ensures
            r == (AutoActions {
                movement: None,
                leave_ground_action: None,
                jump_bug: None,
                duck_before_collision: None,
                duck_before_ground: None,
                duck_when_jump: None,
            }),
    {
        AutoActions {
            movement: None,
            leave_ground_action: None,
            jump_bug: None,
            duck_before_collision: None,
            duck_before_ground: None,
            duck_when_jump: None,
        }
    }
}

impl MovementKeys {
    /// No movement key held.
    pub fn none() -> (r: MovementKeys)
        ensures
            r == (MovementKeys {
                forward: false,
                left: false,
                right: false,
                back: false,
                up: false,
                down: false,
            }),
    {
        MovementKeys {
            forward: false,
            left: false,
            right: false,
            back: false,
            up: false,
            down: false,
        }
    }
}

impl ActionKeys {
    /// No action key held.
    pub fn none() -> (r: ActionKeys)
        ensures
            r == (ActionKeys {
                jump: false,
                duck: false,
                use_: false,
                attack_1: false,
                attack_2: false,
                reload: false,
            }),
    {
        ActionKeys {
            jump: false,
            duck: false,
            use_: false,
            attack_1: false,
            attack_2: false,
            reload: false,
        }
    }
}

} // verus!
