use shutterproto::motor::{CurrentMove, DriveCmdType, MotorConfig, MotorState};
use shutterproto::rpc::{CmdDrive, DriveCmd, DriveInstruction, Message, RspStatus, state_from_answer};
use shutterproto::shutterctl::{handle_cmd, reply, System};
use shutterproto::Error;

fn cfg(name: &str, id: u8, runtime: Option<u32>) -> MotorConfig {
    MotorConfig { name: name.to_string(), id, runtime_ms: runtime }
}

fn sample_system() -> System {
    System::from_motor_configs(&[cfg("left", 1, Some(20000)), cfg("right", 3, None)])
}

fn mv(motor: u8, m: CurrentMove) -> DriveInstruction {
    DriveInstruction { motor, movement: Some(m), target_percentage: None }
}

#[test]
fn set_up_motors_are_reported_in_id_order() {
    let sys = sample_system();
    let st = sys.get_state();
    assert_eq!(st.len(), 2);
    assert_eq!(st[0].config, cfg("left", 1, None));
    assert_eq!(st[1].config, cfg("right", 3, None));
    for m in &st {
        assert_eq!(m.state.state, CurrentMove::Stop);
        assert_eq!(m.state.known_min_percentage, 0);
        assert_eq!(m.state.known_max_percentage, 100);
        assert!(m.state.last_change.is_none());
    }
}

#[test]
fn later_configuration_of_an_id_wins() {
    let sys = System::from_motor_configs(&[cfg("a", 2, None), cfg("b", 2, Some(5)), cfg("c", 1, None)]);
    let st = sys.get_state();
    let names: Vec<String> = st.iter().map(|m| m.config.name.clone()).collect();
    assert_eq!(names, vec!["c".to_string(), "b".to_string()]);
}

#[test]
fn drive_addresses_motors_by_index() {
    let mut sys = sample_system();
    // Index 0 holds the motor with identifier 1, index 2 the one with identifier 3.
    assert_eq!(sys.drive(&vec![mv(0, CurrentMove::Up), mv(2, CurrentMove::Down)]), Ok(()));
    let st = sys.get_state();
    assert_eq!(st[0].state.state, CurrentMove::Up);
    assert_eq!(st[1].state.state, CurrentMove::Down);
}

#[test]
fn drive_to_unconfigured_motor_changes_nothing() {
    let mut sys = sample_system();
    let before = sys.get_state();
    assert_eq!(sys.drive(&vec![mv(0, CurrentMove::Up), mv(1, CurrentMove::Up)]), Err(Error::InvalidMotorId));
    assert_eq!(sys.drive(&vec![mv(3, CurrentMove::Up)]), Err(Error::InvalidMotorId));
    assert_eq!(sys.get_state(), before);
}

#[test]
fn drive_stops_at_first_bad_instruction() {
    let mut sys = sample_system();
    let bad = DriveInstruction { motor: 2, movement: None, target_percentage: None };
    let r = sys.drive(&vec![mv(0, CurrentMove::Down), bad, mv(2, CurrentMove::Up)]);
    assert_eq!(r, Err(Error::BadCommand));
    let st = sys.get_state();
    assert_eq!(st[0].state.state, CurrentMove::Down);
    assert_eq!(st[1].state.state, CurrentMove::Stop);
}

#[test]
fn target_percentage_is_accepted_without_moving() {
    let mut sys = sample_system();
    let t = DriveInstruction { motor: 0, movement: None, target_percentage: Some(50) };
    assert_eq!(sys.drive(&vec![t]), Ok(()));
    assert_eq!(sys.get_state()[0].state.state, CurrentMove::Stop);
}

#[test]
fn stopping_records_the_moment() {
    let mut st = MotorState {
        state: CurrentMove::Up,
        known_min_percentage: 1,
        known_max_percentage: 2,
        last_change: None,
    };
    assert_eq!(System::handle_drive_cmd(&mut st, 1000, &mv(0, CurrentMove::Stop)), Ok(()));
    assert_eq!(st.state, CurrentMove::Stop);
    assert!(st.last_change.is_some());
    assert_eq!((st.known_min_percentage, st.known_max_percentage), (1, 2));
    let mut st2 = MotorState { state: CurrentMove::Stop, known_min_percentage: 0, known_max_percentage: 9, last_change: None };
    assert_eq!(System::handle_drive_cmd(&mut st2, 1000, &mv(0, CurrentMove::Down)), Ok(()));
    assert_eq!(st2.state, CurrentMove::Down);
    assert!(st2.last_change.is_none());
    let bad = DriveInstruction { motor: 0, movement: None, target_percentage: None };
    assert_eq!(System::handle_drive_cmd(&mut st2, 1000, &bad), Err(Error::BadCommand));
    assert_eq!(st2.state, CurrentMove::Down);
}

fn state(m: CurrentMove, min: u8, max: u8) -> MotorState {
    MotorState { state: m, known_min_percentage: min, known_max_percentage: max, last_change: None }
}

#[test]
fn position_moves_up() {
    // 500 ms of a 1000 ms run: 50 percent.
    assert_eq!(System::position_after(&state(CurrentMove::Up, 10, 20), 1000, 500), (60, 60));
    assert_eq!(System::position_after(&state(CurrentMove::Up, 10, 90), 1000, 500), (60, 90));
    assert_eq!(System::position_after(&state(CurrentMove::Up, 80, 90), 1000, 500), (100, 100));
}

#[test]
fn position_moves_down() {
    assert_eq!(System::position_after(&state(CurrentMove::Down, 10, 40), 1000, 250), (10, 15));
    assert_eq!(System::position_after(&state(CurrentMove::Down, 30, 40), 1000, 250), (15, 15));
    assert_eq!(System::position_after(&state(CurrentMove::Down, 30, 40), 1000, 800), (0, 0));
}

#[test]
fn position_standing_still() {
    assert_eq!(System::position_after(&state(CurrentMove::Stop, 30, 40), 1000, 99999), (30, 40));
}

#[test]
fn position_change_caps() {
    // 300 percent does not fit the change's byte: it counts as 100.
    assert_eq!(System::position_after(&state(CurrentMove::Down, 0, 100), 100, 300), (0, 0));
    // 200 percent fits: the range is clamped.
    assert_eq!(System::position_after(&state(CurrentMove::Up, 0, 10), 100, 200), (100, 100));
    // A run time of zero counts as one millisecond.
    assert_eq!(System::position_after(&state(CurrentMove::Up, 0, 10), 0, 1), (100, 100));
    // Elapsed times beyond u32::MAX milliseconds are capped.
    assert_eq!(System::position_after(&state(CurrentMove::Up, 0, 0), u32::MAX, u128::MAX), (1, 1));
}

#[test]
fn recalc_without_known_moment_moves_little() {
    let (min, max) = System::recalc_position(&state(CurrentMove::Up, 10, 20), 100000000);
    assert_eq!((min, max), (10, 20));
}

#[test]
fn handle_state_request() {
    let mut sys = sample_system();
    let answer = handle_cmd(&Message::CmdSystemState, &mut sys).unwrap();
    let ms = state_from_answer(&answer).unwrap();
    assert_eq!(ms, sys.get_state());
}

#[test]
fn handle_drive_request() {
    let mut sys = sample_system();
    let msg = Message::CmdDrive(CmdDrive {
        motors: Some(vec![DriveCmd { motor: 2, cmd: DriveCmdType::Up, target_percentage: 0 }]),
    });
    assert_eq!(handle_cmd(&msg, &mut sys), Ok(Message::RspStatus(RspStatus { error: None })));
    assert_eq!(sys.get_state()[1].state.state, CurrentMove::Up);
    let msg = Message::CmdDrive(CmdDrive {
        motors: Some(vec![DriveCmd { motor: 1, cmd: DriveCmdType::Up, target_percentage: 0 }]),
    });
    assert_eq!(
        handle_cmd(&msg, &mut sys),
        Ok(Message::RspStatus(RspStatus { error: Some(Error::InvalidMotorId) }))
    );
}

#[test]
fn handle_message_without_command() {
    let mut sys = sample_system();
    assert_eq!(handle_cmd(&Message::NONE, &mut sys), Err(Error::UnknownCommand));
    assert_eq!(
        reply(&Message::NONE, &mut sys),
        Message::RspStatus(RspStatus { error: Some(Error::UnknownCommand) })
    );
    assert_eq!(
        reply(&Message::CmdDrive(CmdDrive { motors: None }), &mut sys),
        Message::RspStatus(RspStatus { error: Some(Error::BadCommand) })
    );
}

#[test]
fn movements_keep_position_ranges_valid() {
    let moves = [CurrentMove::Stop, CurrentMove::Up, CurrentMove::Down];
    for m in moves {
        for min in [0u8, 10, 50, 100] {
            for max in [min, 60.max(min), 100] {
                for ms in [0u128, 1, 77, 500, 1000, 5000, 1 << 40] {
                    let (a, b) = System::position_after(&state(m, min, max), 1000, ms);
                    assert!(a <= b && b <= 100);
                    match m {
                        CurrentMove::Up => assert!(a >= min && b >= max),
                        CurrentMove::Down => assert!(a <= min && b <= max),
                        CurrentMove::Stop => assert_eq!((a, b), (min, max)),
                    }
                }
            }
        }
    }
}
