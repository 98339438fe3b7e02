//! The messages of the command protocol, and what the two sides make of them:
//! the daemon reads commands and answers with the system state or a status,
//! the client reads the system state from an answer.
use crate::motor::{
    cmd_of_move, lemma_move_cmd_roundtrip, move_of_cmd, stripped_motor, CurrentMove, DriveCmdType,
    Motor, MotorConfig, MotorState,
};
use crate::Error;
use vstd::prelude::*;

verus! {

/// One motor's part of a drive command.
#[derive(Clone, Copy, Debug, PartialEq, Eq, Structural)]
pub struct DriveCmd {
    pub motor: u8,
    pub cmd: DriveCmdType,
    pub target_percentage: u8,
}

/// A drive command: what each named motor is to do.
#[derive(Clone, Debug, PartialEq, Eq)]
pub struct CmdDrive {
    pub motors: Option<Vec<DriveCmd>>,
}

/// One motor's part of the system state, as it is sent to clients.
#[derive(Clone, Debug, PartialEq, Eq)]
pub struct ShutterState {
    pub id: u8,
    pub description: Option<String>,
    pub known_min_percentage: u8,
    pub known_max_percentage: u8,
    pub moving: DriveCmdType,
}

/// The answer to a request for the system state.
#[derive(Clone, Debug, PartialEq, Eq)]
pub struct RspSystemState {
    pub shutters: Option<Vec<ShutterState>>,
}

/// The answer to a command that reports only success or failure.
#[derive(Clone, Copy, Debug, PartialEq, Eq, Structural)]
pub struct RspStatus {
    pub error: Option<Error>,
}

/// A message of the command protocol. `NONE` is the absent message of the
/// wire format; `Other` holds a message kind that this library does not know.
#[derive(Clone, Debug, PartialEq, Eq)]
pub enum Message {
    NONE,
    CmdSystemState,
    RspSystemState(RspSystemState),
    CmdDrive(CmdDrive),
    RspStatus(RspStatus),
    Other(u8),
}

/// The commands that the daemon carries out.
#[derive(Clone, Copy, Debug, PartialEq, Eq, Structural)]
pub enum Command {
    GetState,
    Drive,
}

/// A command with the instructions it carries.
#[derive(Clone, Debug, PartialEq, Eq)]
pub struct CommandData {
    pub cmd: Command,
    pub instructions: Vec<DriveInstruction>,
}

/// What one motor is to do: make a movement, or go to a target position.
#[derive(Clone, Copy, Debug, PartialEq, Eq)]
pub struct DriveInstruction {
    pub motor: u8,
    pub movement: Option<CurrentMove>,
    pub target_percentage: Option<u8>,
}

/// A drive command part names a movement or a target position.
pub open spec fn valid_drive_cmd(c: DriveCmd) -> bool {
    c.cmd is TargetPercentage || move_of_cmd(c.cmd) is Ok
}

/// The instruction that a valid drive command part gives.
pub open spec fn instruction_of(c: DriveCmd) -> DriveInstruction {
    match move_of_cmd(c.cmd) {
        Ok(mv) => DriveInstruction { motor: c.motor, movement: Some(mv), target_percentage: None },
        Err(_) => DriveInstruction {
            motor: c.motor,
            movement: None,
            target_percentage: Some(c.target_percentage),
        },
    }
}

/// The command that a message carries, with its instructions, or why the
/// message carries none.
pub open spec fn command_of(msg: Message) -> Result<(Command, Seq<DriveInstruction>), Error> {
    match msg {
        Message::CmdDrive(d) => match d.motors {
            None => Err(Error::BadCommand),
            Some(ms) => if forall|i: int| 0 <= i < ms@.len() ==> valid_drive_cmd(#[trigger] ms@[i]) {
                Ok((Command::Drive, ms@.map_values(|c: DriveCmd| instruction_of(c))))
            } else {
                Err(Error::UnknownMotorState)
            },
        },
        Message::CmdSystemState => Ok((Command::GetState, Seq::empty())),
        _ => Err(Error::UnknownCommand),
    }
}

/// Reads the command that a received message carries.
pub fn parse_cmd(msg: &Message) -> (r: Result<CommandData, Error>)
    ensures
        match r {
            Ok(c) => command_of(*msg) == Ok::<(Command, Seq<DriveInstruction>), Error>((c.cmd, c.instructions@)),
            Err(e) => command_of(*msg) == Err::<(Command, Seq<DriveInstruction>), Error>(e),
        },
{
    match msg {
        Message::CmdDrive(d) => {
            let cmds = match &d.motors {
                Some(ms) => ms,
                None => {
                    return Err(Error::BadCommand);
                },
            };
            let mut instr: Vec<DriveInstruction> = Vec::new();
            let mut i: usize = 0;
            while i < cmds.len()
                invariant
                    *msg == Message::CmdDrive(*d),
                    d.motors == Some(*cmds),
                    i <= cmds@.len(),
                    instr@.len() == i,
                    forall|j: int| 0 <= j < i ==> valid_drive_cmd(#[trigger] cmds@[j]),
                    forall|j: int| 0 <= j < i ==> #[trigger] instr@[j] == instruction_of(cmds@[j]),
                decreases cmds@.len() - i,
            {
                let m = cmds[i];
                match m.cmd {
                    DriveCmdType::TargetPercentage => {
                        instr.push(
                            DriveInstruction {
                                motor: m.motor,
                                movement: None,
                                target_percentage: Some(m.target_percentage),
                            },
                        );
                    },
                    _ => {
                        let mv = match CurrentMove::try_from(m.cmd) {
                            Ok(mv) => mv,
                            Err(e) => {
                                return Err(e);
                            },
                        };
                        instr.push(
                            DriveInstruction { motor: m.motor, movement: Some(mv), target_percentage: None },
                        );
                    },
                }
                i = i + 1;
            }
            assert(instr@ =~= cmds@.map_values(|c: DriveCmd| instruction_of(c)));
            Ok(CommandData { cmd: Command::Drive, instructions: instr })
        },
        Message::CmdSystemState => {
            let r = CommandData { cmd: Command::GetState, instructions: Vec::new() };
            assert(r.instructions@ =~= Seq::<DriveInstruction>::empty());
            Ok(r)
        },
        _ => Err(Error::UnknownCommand),
    }
}

/// How a motor is reported in the system state.
pub open spec fn shutter_state_of(m: Motor) -> ShutterState {
    ShutterState {
        id: m.config.id,
        description: Some(m.config.name),
        known_min_percentage: m.state.known_min_percentage,
        known_max_percentage: m.state.known_max_percentage,
        moving: cmd_of_move(m.state.state),
    }
}

/// `msg` is the answer that reports `motors` as the system state.
pub open spec fn is_state_answer(msg: Message, motors: Seq<Motor>) -> bool {
    msg matches Message::RspSystemState(r) && r.shutters matches Some(v) && v@ == motors.map_values(
        |m: Motor| shutter_state_of(m),
    )
}

/// Builds the answer that reports `state` as the system state.
pub fn build_get_state_answer(state: &[Motor]) -> (msg: Message)
    ensures
        is_state_answer(msg, state@),
{
    let mut data: Vec<ShutterState> = Vec::new();
    let mut i: usize = 0;
    while i < state.len()
        invariant
            i <= state@.len(),
            data@ =~= state@.subrange(0, i as int).map_values(|m: Motor| shutter_state_of(m)),
        decreases state@.len() - i,
    {
        let m = &state[i];
        data.push(
            ShutterState {
                id: m.config.id,
                description: Some(m.config.name.clone()),
                known_min_percentage: m.state.known_min_percentage,
                known_max_percentage: m.state.known_max_percentage,
                moving: m.state.state.to_drive_cmd(),
            },
        );
        i = i + 1;
    }
    assert(state@.subrange(0, state@.len() as int) =~= state@);
    Message::RspSystemState(RspSystemState { shutters: Some(data) })
}

/// The status answer that reports how a command went.
pub open spec fn status_answer(status: Result<(), Error>) -> Message {
    Message::RspStatus(
        RspStatus {
            error: match status {
                Ok(_) => None,
                Err(e) => Some(e),
            },
        },
    )
}

/// Builds the answer that reports how a command went.
pub fn build_status_answer(status: &Result<(), Error>) -> (msg: Message)
    ensures
        msg == status_answer(*status),
{
    match status {
        Ok(_) => Message::RspStatus(RspStatus { error: None }),
        Err(e) => Message::RspStatus(RspStatus { error: Some(*e) }),
    }
}

/// The motor states that an answer reports, where it reports the system state.
pub open spec fn answer_shutters(msg: Message) -> Option<Seq<ShutterState>> {
    match msg {
        Message::RspSystemState(r) => match r.shutters {
            Some(v) => Some(v@),
            None => None,
        },
        _ => None,
    }
}

/// Why an answer cannot be read as the system state, if it cannot.
pub open spec fn answer_error(msg: Message) -> Option<Error> {
    match answer_shutters(msg) {
        None => Some(Error::BadAnswer),
        Some(v) => if forall|i: int| 0 <= i < v.len() ==> (#[trigger] v[i]).moving is Stop
            || v[i].moving is Up || v[i].moving is Down {
            None
        } else {
            Some(Error::UnknownMotorState)
        },
    }
}

/// `m` is the motor that a client makes of the reported motor state `s`.
pub open spec fn motor_from_shutter(m: Motor, s: ShutterState) -> bool {
    &&& m.config.id == s.id
    &&& match s.description {
        Some(d) => m.config.name == d,
        None => m.config.name@ == Seq::<char>::empty(),
    }
    &&& m.config.runtime_ms is None
    &&& move_of_cmd(s.moving) == Ok::<CurrentMove, Error>(m.state.state)
    &&& m.state.known_min_percentage == s.known_min_percentage
    &&& m.state.known_max_percentage == s.known_max_percentage
    &&& m.state.last_change is None
}

/// Reads the motors that an answer reports as the system state.
pub fn state_from_answer(msg: &Message) -> (r: Result<Vec<Motor>, Error>)
    ensures
        match r {
            Ok(v) => {
                &&& answer_error(*msg) is None
                &&& answer_shutters(*msg) matches Some(s)
                &&& v@.len() == s.len()
                &&& forall|i: int| 0 <= i < s.len() ==> motor_from_shutter(#[trigger] v@[i], s[i])
            },
            Err(e) => answer_error(*msg) == Some(e),
        },
{
    let shutters = match msg {
        Message::RspSystemState(rsp) => match &rsp.shutters {
            Some(v) => v,
            None => {
                return Err(Error::BadAnswer);
            },
        },
        _ => {
            return Err(Error::BadAnswer);
        },
    };
    let mut res: Vec<Motor> = Vec::new();
    let mut i: usize = 0;
    while i < shutters.len()
        invariant
            answer_shutters(*msg) == Some(shutters@),
            i <= shutters@.len(),
            res@.len() == i,
            forall|j: int| 0 <= j < i ==> motor_from_shutter(#[trigger] res@[j], shutters@[j]),
            forall|j: int|
                0 <= j < i ==> (#[trigger] shutters@[j]).moving is Stop || shutters@[j].moving is Up
                    || shutters@[j].moving is Down,
        decreases shutters@.len() - i,
    {
        let s = &shutters[i];
        let state = match CurrentMove::try_from(s.moving) {
            Ok(mv) => mv,
            Err(e) => {
                return Err(e);
            },
        };
        let name = match &s.description {
            Some(d) => d.clone(),
            None => String::new(),
        };
        res.push(
            Motor {
                config: MotorConfig { name, id: s.id, runtime_ms: None },
                state: MotorState {
                    state,
                    known_min_percentage: s.known_min_percentage,
                    known_max_percentage: s.known_max_percentage,
                    last_change: None,
                },
            },
        );
        i = i + 1;
    }
    Ok(res)
}

/// What the client reads from the daemon's state answer are the motors that
/// the daemon reported, stripped of what is not sent: reading never fails, and
/// a motor is read from a report exactly when it is the stripped motor.
pub proof fn lemma_state_answer_roundtrip(msg: Message, motors: Seq<Motor>)
    requires
        is_state_answer(msg, motors),
    ensures
        answer_error(msg) is None,
        ({
            &&& answer_shutters(msg) matches Some(s)
            &&& s.len() == motors.len()
            &&& forall|i: int, m: Motor|
                #![trigger motor_from_shutter(m, s[i])]
                0 <= i < motors.len() ==> (motor_from_shutter(m, s[i]) <==> m
                    == stripped_motor(motors[i]))
        }),
{
    let s = answer_shutters(msg)->Some_0;
    assert forall|i: int, m: Motor|
        #![trigger motor_from_shutter(m, s[i])]
        0 <= i < motors.len() implies (motor_from_shutter(m, s[i]) <==> m
        == stripped_motor(motors[i])) by {
        lemma_move_cmd_roundtrip(motors[i].state.state);
        if motor_from_shutter(m, s[i]) {
            assert(m.config == stripped_motor(motors[i]).config);
            assert(m.state == stripped_motor(motors[i]).state);
        }
    }
}

} // verus!

verus! {

/// `instr` is what the drive command part `c` says: the motor it names, the
/// movement that a `Stop`, `Up` or `Down` part names, the target position of a
/// `TargetPercentage` part.
pub open spec fn reads_as(instr: DriveInstruction, c: DriveCmd) -> bool {
    &&& instr.motor == c.motor
    &&& instr.movement == match c.cmd {
        DriveCmdType::Stop => Some(CurrentMove::Stop),
        DriveCmdType::Up => Some(CurrentMove::Up),
        DriveCmdType::Down => Some(CurrentMove::Down),
        _ => None,
    }
    &&& instr.target_percentage == if c.cmd is TargetPercentage {
        Some(c.target_percentage)
    } else {
        None
    }
}

/// A drive command is read part by part, in order: each part gives the
/// instruction for the motor it names — a `Stop`, `Up` or `Down` part the
/// movement of that name, a `TargetPercentage` part its target position — and
/// a part of any other kind makes the whole command `UnknownMotorState`.
pub proof fn lemma_drive_command_parts(msg: Message)
    ensures
        msg matches Message::CmdDrive(d) ==> match d.motors {
            None => command_of(msg) == Err::<(Command, Seq<DriveInstruction>), Error>(
                Error::BadCommand,
            ),
            Some(ms) => {
                &&& (exists|i: int|
                    0 <= i < ms@.len() && (#[trigger] ms@[i]).cmd is Other) ==> command_of(msg)
                    == Err::<(Command, Seq<DriveInstruction>), Error>(Error::UnknownMotorState)
                &&& (forall|i: int| 0 <= i < ms@.len() ==> !((#[trigger] ms@[i]).cmd is Other))
                    ==> (command_of(msg) matches Ok((c, s)) && c == Command::Drive && s.len()
                    == ms@.len() && forall|i: int|
                    0 <= i < s.len() ==> reads_as(#[trigger] s[i], ms@[i]))
            },
        },
{
    if let Message::CmdDrive(d) = msg {
        if let Some(ms) = d.motors {
            if exists|i: int| 0 <= i < ms@.len() && (#[trigger] ms@[i]).cmd is Other {
                let i = choose|i: int| 0 <= i < ms@.len() && (#[trigger] ms@[i]).cmd is Other;
                assert(!valid_drive_cmd(ms@[i]));
            } else {
                assert forall|i: int| 0 <= i < ms@.len() implies valid_drive_cmd(#[trigger] ms@[i]) by {
                    assert(!(ms@[i].cmd is Other));
                }
            }
        }
    }
}

/// A state request is read as `GetState` with no instructions; a message that
/// is neither a state request nor a drive command carries no command.
pub proof fn lemma_other_messages(msg: Message)
    ensures
        msg is CmdSystemState ==> command_of(msg) == Ok::<(Command, Seq<DriveInstruction>), Error>(
            (Command::GetState, Seq::empty()),
        ),
        !(msg is CmdSystemState) && !(msg is CmdDrive) ==> command_of(msg) == Err::<
            (Command, Seq<DriveInstruction>),
            Error,
        >(Error::UnknownCommand),
{
}

} // verus!
