use shutterproto::motor::{CurrentMove, DriveCmdType, Motor, MotorConfig, MotorState};
use shutterproto::rpc::{
    build_get_state_answer, build_status_answer, parse_cmd, state_from_answer, CmdDrive, Command,
    DriveCmd, DriveInstruction, Message, RspStatus, RspSystemState, ShutterState,
};
use shutterproto::Error;

fn motor(name: &str, id: u8, mv: CurrentMove, min: u8, max: u8) -> Motor {
    Motor {
        config: MotorConfig { name: name.to_string(), id, runtime_ms: None },
        state: MotorState { state: mv, known_min_percentage: min, known_max_percentage: max, last_change: None },
    }
}

#[test]
fn current_move_from_drive_cmd() {
    assert_eq!(CurrentMove::try_from(DriveCmdType::Stop), Ok(CurrentMove::Stop));
    assert_eq!(CurrentMove::try_from(DriveCmdType::Up), Ok(CurrentMove::Up));
    assert_eq!(CurrentMove::try_from(DriveCmdType::Down), Ok(CurrentMove::Down));
    assert_eq!(CurrentMove::try_from(DriveCmdType::TargetPercentage), Err(Error::UnknownMotorState));
    assert_eq!(CurrentMove::try_from(DriveCmdType::Other(17)), Err(Error::UnknownMotorState));
}

#[test]
fn current_move_names() {
    assert_eq!(CurrentMove::Stop.name(), "Stop");
    assert_eq!(CurrentMove::Up.name(), "Up");
    assert_eq!(CurrentMove::Down.name(), "Down");
    assert_eq!(CurrentMove::Down.to_drive_cmd(), DriveCmdType::Down);
}

#[test]
fn parse_state_request() {
    let c = parse_cmd(&Message::CmdSystemState).unwrap();
    assert_eq!(c.cmd, Command::GetState);
    assert!(c.instructions.is_empty());
}

#[test]
fn parse_drive_command() {
    let msg = Message::CmdDrive(CmdDrive {
        motors: Some(vec![
            DriveCmd { motor: 1, cmd: DriveCmdType::Up, target_percentage: 40 },
            DriveCmd { motor: 2, cmd: DriveCmdType::TargetPercentage, target_percentage: 40 },
            DriveCmd { motor: 3, cmd: DriveCmdType::Stop, target_percentage: 0 },
        ]),
    });
    let c = parse_cmd(&msg).unwrap();
    assert_eq!(c.cmd, Command::Drive);
    assert_eq!(
        c.instructions,
        vec![
            DriveInstruction { motor: 1, movement: Some(CurrentMove::Up), target_percentage: None },
            DriveInstruction { motor: 2, movement: None, target_percentage: Some(40) },
            DriveInstruction { motor: 3, movement: Some(CurrentMove::Stop), target_percentage: None },
        ]
    );
}

#[test]
fn parse_drive_command_without_motors() {
    let msg = Message::CmdDrive(CmdDrive { motors: None });
    assert_eq!(parse_cmd(&msg).map(|c| c.cmd), Err(Error::BadCommand));
}

#[test]
fn parse_drive_command_with_unknown_kind() {
    let msg = Message::CmdDrive(CmdDrive {
        motors: Some(vec![
            DriveCmd { motor: 1, cmd: DriveCmdType::Down, target_percentage: 0 },
            DriveCmd { motor: 2, cmd: DriveCmdType::Other(9), target_percentage: 0 },
        ]),
    });
    assert_eq!(parse_cmd(&msg).map(|c| c.cmd), Err(Error::UnknownMotorState));
}

#[test]
fn parse_message_without_command() {
    assert_eq!(parse_cmd(&Message::NONE).map(|c| c.cmd), Err(Error::UnknownCommand));
    assert_eq!(parse_cmd(&Message::Other(200)).map(|c| c.cmd), Err(Error::UnknownCommand));
    let answer = build_status_answer(&Ok(()));
    assert_eq!(parse_cmd(&answer).map(|c| c.cmd), Err(Error::UnknownCommand));
}

#[test]
fn state_answer_lists_every_motor() {
    let ms = vec![motor("kitchen", 1, CurrentMove::Up, 10, 30), motor("bath", 3, CurrentMove::Stop, 0, 100)];
    let answer = build_get_state_answer(&ms);
    assert_eq!(
        answer,
        Message::RspSystemState(RspSystemState {
            shutters: Some(vec![
                ShutterState {
                    id: 1,
                    description: Some("kitchen".to_string()),
                    known_min_percentage: 10,
                    known_max_percentage: 30,
                    moving: DriveCmdType::Up,
                },
                ShutterState {
                    id: 3,
                    description: Some("bath".to_string()),
                    known_min_percentage: 0,
                    known_max_percentage: 100,
                    moving: DriveCmdType::Stop,
                },
            ]),
        })
    );
}

#[test]
fn state_answer_roundtrip() {
    let ms = vec![motor("a", 1, CurrentMove::Down, 5, 6), motor("b", 2, CurrentMove::Up, 0, 0)];
    assert_eq!(state_from_answer(&build_get_state_answer(&ms)), Ok(ms));
}

#[test]
fn state_answer_of_no_motors() {
    assert_eq!(state_from_answer(&build_get_state_answer(&[])), Ok(vec![]));
}

#[test]
fn state_answer_without_description() {
    let answer = Message::RspSystemState(RspSystemState {
        shutters: Some(vec![ShutterState {
            id: 4,
            description: None,
            known_min_percentage: 1,
            known_max_percentage: 2,
            moving: DriveCmdType::Stop,
        }]),
    });
    assert_eq!(state_from_answer(&answer), Ok(vec![motor("", 4, CurrentMove::Stop, 1, 2)]));
}

#[test]
fn state_answer_errors() {
    assert_eq!(state_from_answer(&Message::CmdSystemState), Err(Error::BadAnswer));
    assert_eq!(
        state_from_answer(&Message::RspSystemState(RspSystemState { shutters: None })),
        Err(Error::BadAnswer)
    );
    let answer = Message::RspSystemState(RspSystemState {
        shutters: Some(vec![ShutterState {
            id: 4,
            description: None,
            known_min_percentage: 1,
            known_max_percentage: 2,
            moving: DriveCmdType::TargetPercentage,
        }]),
    });
    assert_eq!(state_from_answer(&answer), Err(Error::UnknownMotorState));
}

#[test]
fn status_answers() {
    assert_eq!(build_status_answer(&Ok(())), Message::RspStatus(RspStatus { error: None }));
    assert_eq!(
        build_status_answer(&Err(Error::InvalidMotorId)),
        Message::RspStatus(RspStatus { error: Some(Error::InvalidMotorId) })
    );
}

#[test]
fn drive_cmd_codes() {
    assert_eq!(DriveCmdType::Up.to_code(), 1);
    assert_eq!(DriveCmdType::TargetPercentage.to_code(), 3);
    assert_eq!(DriveCmdType::Other(42).to_code(), 42);
    for v in 0..=255u8 {
        assert_eq!(DriveCmdType::from_code(v).to_code(), v);
    }
    assert_eq!(DriveCmdType::from_code(2), DriveCmdType::Down);
    assert_eq!(DriveCmdType::from_code(9), DriveCmdType::Other(9));
}

#[test]
fn error_codes() {
    assert_eq!(Error::HeaderSize.code(), 0);
    assert_eq!(Error::InvalidMotorId.code(), 10);
    for c in 0..=255u8 {
        match Error::from_code(c) {
            Some(e) => assert_eq!(e.code(), c),
            None => assert!(c > 10),
        }
    }
}
