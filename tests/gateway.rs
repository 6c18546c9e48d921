use eps::codec::EpsCommand;
use eps::dispatch::{handle_frame, handle_message, read_error_reply, MessageHandleError};
use eps::rail::{RailBank, RailEvent};

#[test]
fn rail_not_found_as_bytes() {
    assert_eq!(b"err;404", MessageHandleError::PowerRailNotFound.as_bytes());
}

#[test]
fn read_error_code() {
    assert_eq!(b"err;401", read_error_reply());
}

#[test]
fn enable_unbound_rail_is_not_found() {
    let mut bank = RailBank::new(8);
    assert_eq!(
        handle_message(&mut bank, &EpsCommand::EnablePowerRail(8)),
        Err(MessageHandleError::PowerRailNotFound)
    );
    assert_eq!(
        handle_message(&mut bank, &EpsCommand::DisablePowerRail(200)),
        Err(MessageHandleError::PowerRailNotFound)
    );
    assert_eq!(
        handle_message(&mut bank, &EpsCommand::GetPowerRailState(8)),
        Err(MessageHandleError::PowerRailNotFound)
    );
}

#[test]
fn enable_bound_rail_asserts_it_once_woken() {
    let mut bank = RailBank::new(8);
    bank.apply(5, RailEvent::Edge(false));
    assert_eq!(handle_message(&mut bank, &EpsCommand::EnablePowerRail(5)), Ok(None));
    assert!(!bank.is_asserted(5));
    assert_eq!(bank.wake(5), Some(true));
    assert!(bank.is_asserted(5));
}

#[test]
fn state_request_reads_the_rail() {
    let mut bank = RailBank::new(2);
    assert_eq!(handle_message(&mut bank, &EpsCommand::GetPowerRailState(1)), Ok(Some("On")));
    bank.apply(1, RailEvent::Edge(false));
    assert_eq!(handle_message(&mut bank, &EpsCommand::GetPowerRailState(1)), Ok(Some("Off")));
}

#[test]
fn other_commands_need_no_rail() {
    let mut bank = RailBank::new(0);
    assert_eq!(handle_message(&mut bank, &EpsCommand::StateOfHealthReq), Ok(None));
    assert_eq!(handle_message(&mut bank, &EpsCommand::GetBatteryVoltage(3)), Ok(None));
}

#[test]
fn frame_enables_bound_rail_zero() {
    let mut bank = RailBank::new(8);
    bank.apply(0, RailEvent::Edge(false));
    let x = handle_frame(&mut bank, b"pwe;0");
    assert_eq!(x.reply, b"ok");
    assert_eq!(x.wake, Some(0));
    assert_eq!(x.publish, None);
    assert_eq!(bank.wake(0), Some(true));
    assert!(bank.is_asserted(0));
}

#[test]
fn frame_for_missing_rail_is_not_found() {
    let mut bank = RailBank::new(8);
    let x = handle_frame(&mut bank, b"gprs;9");
    assert_eq!(x.reply, b"err;404");
    assert_eq!(x.wake, None);
    assert_eq!(x.publish, None);
}

#[test]
fn frame_disables_rail_and_reports_state() {
    let mut bank = RailBank::new(2);
    let x = handle_frame(&mut bank, b"pwd;1");
    assert_eq!(x.reply, b"ok");
    assert_eq!(x.wake, Some(1));
    assert_eq!(bank.wake(1), Some(false));
    assert_eq!(handle_frame(&mut bank, b"gprs;1").reply, b"Off");
    assert_eq!(handle_frame(&mut bank, b"gprs;0").reply, b"On");
}

#[test]
fn bad_frames_get_their_error_code() {
    let mut bank = RailBank::new(2);
    assert_eq!(handle_frame(&mut bank, b"").reply, b"err;500");
    assert_eq!(handle_frame(&mut bank, b"zzz").reply, b"err;501");
    assert_eq!(handle_frame(&mut bank, b"pwe").reply, b"err;502");
    assert_eq!(handle_frame(&mut bank, b"pwe;abc").reply, b"err;503");
    assert_eq!(handle_frame(&mut bank, &[b'p', b'w', b'e', b';', 0xC0]).reply, b"err;504");
    assert!(bank.is_asserted(0) && bank.is_asserted(1));
}

#[test]
fn broadcast_commands_are_published() {
    let mut bank = RailBank::new(2);
    let x = handle_frame(&mut bank, b"soh");
    assert_eq!(x.publish, Some(EpsCommand::StateOfHealthReq));
    assert_eq!(x.reply, b"ok");
    let y = handle_frame(&mut bank, b"gbv;1");
    assert_eq!(y.publish, Some(EpsCommand::GetBatteryVoltage(1)));
    assert_eq!(y.wake, None);
}
