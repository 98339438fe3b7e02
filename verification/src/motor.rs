//! Motors: their configuration, what is known of their position, and the
//! movement they are making.
use crate::Error;
use std::time::Instant;
use vstd::prelude::*;

verus! {

/// A shutter motor: how it is configured and what state it is in.
#[derive(Clone, Debug, PartialEq, Eq)]
pub struct Motor {
    pub config: MotorConfig,
    pub state: MotorState,
}

/// The configuration of one motor.
#[derive(Clone, Debug, PartialEq, Eq)]
pub struct MotorConfig {
    pub name: String,
    /// Identifier of the motor, counted from 1.
    pub id: u8,
    /// Time the motor takes to move the shutter from one end to the other.
    pub runtime_ms: Option<u32>,
}

/// What is known of a motor's position and movement.
#[derive(Clone, Debug, PartialEq, Eq)]
pub struct MotorState {
    pub state: CurrentMove,
    /// The shutter is at least this far closed, in percent.
    pub known_min_percentage: u8,
    /// The shutter is at most this far closed, in percent.
    pub known_max_percentage: u8,
    /// When the movement last changed, where that is known.
    pub last_change: Option<Instant>,
}

/// The movement a motor is making.
#[derive(Clone, Copy, Debug, PartialEq, Eq, Structural)]
pub enum CurrentMove {
    Stop,
    Up,
    Down,
}

/// The drive command kinds of the wire protocol. The wire format leaves the
/// set of values open: `Other` holds a value that names none of the others.
#[derive(Clone, Copy, Debug, PartialEq, Eq, Structural)]
pub enum DriveCmdType {
    Stop,
    Up,
    Down,
    TargetPercentage,
    Other(u8),
}

/// The movement that a drive command kind names, or the error for a kind that
/// names none.
pub open spec fn move_of_cmd(t: DriveCmdType) -> Result<CurrentMove, Error> {
    match t {
        DriveCmdType::Stop => Ok(CurrentMove::Stop),
        DriveCmdType::Up => Ok(CurrentMove::Up),
        DriveCmdType::Down => Ok(CurrentMove::Down),
        _ => Err(Error::UnknownMotorState),
    }
}

/// The drive command kind that reports a movement.
pub open spec fn cmd_of_move(m: CurrentMove) -> DriveCmdType {
    match m {
        CurrentMove::Stop => DriveCmdType::Stop,
        CurrentMove::Up => DriveCmdType::Up,
        CurrentMove::Down => DriveCmdType::Down,
    }
}

/// The name under which a movement is shown.
pub open spec fn move_name(m: CurrentMove) -> Seq<char> {
    match m {
        CurrentMove::Stop => "Stop"@,
        CurrentMove::Up => "Up"@,
        CurrentMove::Down => "Down"@,
    }
}

impl CurrentMove {
    /// The movement that a drive command kind names.
    pub fn try_from(t: DriveCmdType) -> (r: Result<CurrentMove, Error>)
        ensures
            r == move_of_cmd(t),
    {
        match t {
            DriveCmdType::Stop => Ok(CurrentMove::Stop),
            DriveCmdType::Up => Ok(CurrentMove::Up),
            DriveCmdType::Down => Ok(CurrentMove::Down),
            _ => Err(Error::UnknownMotorState),
        }
    }

    /// The drive command kind that reports this movement.
    pub fn to_drive_cmd(&self) -> (t: DriveCmdType)
        ensures
            t == cmd_of_move(*self),
    {
        match self {
            CurrentMove::Stop => DriveCmdType::Stop,
            CurrentMove::Up => DriveCmdType::Up,
            CurrentMove::Down => DriveCmdType::Down,
        }
    }

    /// The name under which the movement is shown.
    pub fn name(&self) -> (s: &'static str)
        ensures
            s@ == move_name(*self),
    {
        match self {
            CurrentMove::Stop => "Stop",
            CurrentMove::Up => "Up",
            CurrentMove::Down => "Down",
        }
    }
}

/// Reporting a movement and reading the report back gives the movement.
pub proof fn lemma_move_cmd_roundtrip(m: CurrentMove)
    ensures
        move_of_cmd(cmd_of_move(m)) == Ok::<CurrentMove, Error>(m),
{
}

} // verus!

verus! {

/// A motor as it is reported to clients: without its run time and without
/// the moment of its last change, which mean nothing outside the daemon.
pub open spec fn stripped_motor(m: Motor) -> Motor {
    Motor {
        config: MotorConfig { name: m.config.name, id: m.config.id, runtime_ms: None },
        state: MotorState {
            state: m.state.state,
            known_min_percentage: m.state.known_min_percentage,
            known_max_percentage: m.state.known_max_percentage,
            last_change: None,
        },
    }
}

} // verus!

verus! {

/// The byte that stands for a drive command kind on the wire.
pub open spec fn drive_cmd_code(t: DriveCmdType) -> u8 {
    match t {
        DriveCmdType::Stop => 0,
        DriveCmdType::Up => 1,
        DriveCmdType::Down => 2,
        DriveCmdType::TargetPercentage => 3,
        DriveCmdType::Other(v) => v,
    }
}

/// The drive command kind that a byte on the wire stands for.
pub open spec fn drive_cmd_of_code(v: u8) -> DriveCmdType {
    if v == 0 {
        DriveCmdType::Stop
    } else if v == 1 {
        DriveCmdType::Up
    } else if v == 2 {
        DriveCmdType::Down
    } else if v == 3 {
        DriveCmdType::TargetPercentage
    } else {
        DriveCmdType::Other(v)
    }
}

impl DriveCmdType {
    /// The byte that stands for this kind on the wire.
    pub fn to_code(&self) -> (v: u8)
        ensures
            v == drive_cmd_code(*self),
    {
        match self {
            DriveCmdType::Stop => 0,
            DriveCmdType::Up => 1,
            DriveCmdType::Down => 2,
            DriveCmdType::TargetPercentage => 3,
            DriveCmdType::Other(v) => *v,
        }
    }

    /// The kind that a byte on the wire stands for.
    pub fn from_code(v: u8) -> (t: DriveCmdType)
        ensures
            t == drive_cmd_of_code(v),
    {
        if v == 0 {
            DriveCmdType::Stop
        } else if v == 1 {
            DriveCmdType::Up
        } else if v == 2 {
            DriveCmdType::Down
        } else if v == 3 {
            DriveCmdType::TargetPercentage
        } else {
            DriveCmdType::Other(v)
        }
    }
}

/// Every byte on the wire reads as a kind that is written as that byte, and
/// every kind that does not hold the byte of a named kind is read back as
/// itself.
pub proof fn lemma_drive_cmd_code_roundtrip(v: u8, t: DriveCmdType)
    ensures
        drive_cmd_code(drive_cmd_of_code(v)) == v,
        !(t matches DriveCmdType::Other(x) && x <= 3) ==> drive_cmd_of_code(drive_cmd_code(t)) == t,
{
}

} // verus!
