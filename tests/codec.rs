use eps::codec::CommandParseError::{
    self, EmptyMessage, IncompleteArgs, ParseIntError, UnknownCommand, Utf8Error,
};
use eps::codec::EpsCommand::{
    self, DisablePowerRail, EnablePowerRail, GetBatteryVoltage, GetPowerRailState,
    StateOfHealthReq,
};

#[test]
fn enable_power_rail() {
    assert_eq!(EnablePowerRail(0), EpsCommand::from_bytes(b"pwe;0").unwrap());
    assert_eq!(EnablePowerRail(1), EpsCommand::from_bytes(b"pwe;1").unwrap());
    assert_eq!(EnablePowerRail(2), EpsCommand::from_bytes(b"pwe;2").unwrap());
    assert_eq!(EnablePowerRail(3), EpsCommand::from_bytes(b"pwe;3").unwrap());
    assert_eq!(EnablePowerRail(4), EpsCommand::from_bytes(b"pwe;4").unwrap());
    assert_eq!(EnablePowerRail(5), EpsCommand::from_bytes(b"pwe;5").unwrap());
    assert_eq!(EnablePowerRail(6), EpsCommand::from_bytes(b"pwe;6").unwrap());
    assert_eq!(EnablePowerRail(7), EpsCommand::from_bytes(b"pwe;7").unwrap());
}

#[test]
fn disable_power_rail() {
    assert_eq!(DisablePowerRail(0), EpsCommand::from_bytes(b"pwd;0").unwrap());
    assert_eq!(DisablePowerRail(1), EpsCommand::from_bytes(b"pwd;1").unwrap());
    assert_eq!(DisablePowerRail(2), EpsCommand::from_bytes(b"pwd;2").unwrap());
    assert_eq!(DisablePowerRail(3), EpsCommand::from_bytes(b"pwd;3").unwrap());
    assert_eq!(DisablePowerRail(4), EpsCommand::from_bytes(b"pwd;4").unwrap());
    assert_eq!(DisablePowerRail(5), EpsCommand::from_bytes(b"pwd;5").unwrap());
    assert_eq!(DisablePowerRail(6), EpsCommand::from_bytes(b"pwd;6").unwrap());
    assert_eq!(DisablePowerRail(7), EpsCommand::from_bytes(b"pwd;7").unwrap());
}

#[test]
fn state_of_health() {
    assert_eq!(StateOfHealthReq, EpsCommand::from_bytes(b"soh").unwrap());
}

#[test]
fn get_battery_voltage() {
    assert_eq!(GetBatteryVoltage(0), EpsCommand::from_bytes(b"gbv;0").unwrap());
    assert_eq!(GetBatteryVoltage(1), EpsCommand::from_bytes(b"gbv;1").unwrap());
}

#[test]
fn get_power_rail_state() {
    assert_eq!(GetPowerRailState(0), EpsCommand::from_bytes(b"gprs;0").unwrap());
    assert_eq!(GetPowerRailState(1), EpsCommand::from_bytes(b"gprs;1").unwrap());
    assert_eq!(GetPowerRailState(2), EpsCommand::from_bytes(b"gprs;2").unwrap());
    assert_eq!(GetPowerRailState(3), EpsCommand::from_bytes(b"gprs;3").unwrap());
    assert_eq!(GetPowerRailState(4), EpsCommand::from_bytes(b"gprs;4").unwrap());
    assert_eq!(GetPowerRailState(5), EpsCommand::from_bytes(b"gprs;5").unwrap());
    assert_eq!(GetPowerRailState(6), EpsCommand::from_bytes(b"gprs;6").unwrap());
    assert_eq!(GetPowerRailState(7), EpsCommand::from_bytes(b"gprs;7").unwrap());
}

#[test]
fn empty_message_as_bytes() {
    assert_eq!(b"err;500", EmptyMessage.as_bytes());
}

#[test]
fn unknown_command_as_bytes() {
    assert_eq!(b"err;501", UnknownCommand.as_bytes());
}

#[test]
fn incomplete_args_as_bytes() {
    assert_eq!(b"err;502", IncompleteArgs.as_bytes());
}

#[test]
fn parse_int_error_as_bytes() {
    let error = "test".parse::<u32>().err().unwrap();
    assert_eq!(b"err;503", ParseIntError(error).as_bytes());
}

#[test]
fn utf_8_error_as_bytes() {
    #[allow(invalid_from_utf8)]
    let error = core::str::from_utf8(&[0xC0]).err().unwrap();
    assert_eq!(b"err;504", Utf8Error(error).as_bytes());
}

fn decode_code(frame: &[u8]) -> &'static [u8] {
    match EpsCommand::from_bytes(frame) {
        Ok(c) => panic!("expected an error, decoded {:?}", c),
        Err(e) => e.as_bytes(),
    }
}

#[test]
fn empty_frame_is_empty_message() {
    assert!(matches!(EpsCommand::from_bytes(b""), Err(EmptyMessage)));
}

#[test]
fn unknown_opcode_is_unknown_command() {
    assert!(matches!(EpsCommand::from_bytes(b"zzz"), Err(UnknownCommand)));
    assert!(matches!(EpsCommand::from_bytes(b"pw;1"), Err(UnknownCommand)));
    assert!(matches!(EpsCommand::from_bytes(b"pwex;1"), Err(UnknownCommand)));
    assert!(matches!(EpsCommand::from_bytes(b";1"), Err(UnknownCommand)));
}

#[test]
fn missing_argument_is_incomplete() {
    assert!(matches!(EpsCommand::from_bytes(b"pwe"), Err(IncompleteArgs)));
    assert!(matches!(EpsCommand::from_bytes(b"gprs"), Err(IncompleteArgs)));
}

#[test]
fn bad_number_is_invalid_integer() {
    assert!(matches!(EpsCommand::from_bytes(b"pwe;abc"), Err(ParseIntError(_))));
    assert!(matches!(EpsCommand::from_bytes(b"pwe;"), Err(ParseIntError(_))));
    assert!(matches!(EpsCommand::from_bytes(b"pwe;256"), Err(ParseIntError(_))));
    assert!(matches!(EpsCommand::from_bytes(b"pwe;-1"), Err(ParseIntError(_))));
    assert!(matches!(EpsCommand::from_bytes(b"pwe;+"), Err(ParseIntError(_))));
    assert_eq!(decode_code(b"pwe;abc"), b"err;503");
}

#[test]
fn bad_text_is_invalid_encoding() {
    assert!(matches!(EpsCommand::from_bytes(&[b'p', b'w', b'd', b';', 0xC0]), Err(Utf8Error(_))));
    assert_eq!(decode_code(&[b'g', b'b', b'v', b';', 0xFF, b'1']), b"err;504");
}

#[test]
fn numbers_are_read_in_decimal() {
    assert_eq!(EpsCommand::from_bytes(b"pwe;12").unwrap(), EnablePowerRail(12));
    assert_eq!(EpsCommand::from_bytes(b"gbv;255").unwrap(), GetBatteryVoltage(255));
    assert_eq!(EpsCommand::from_bytes(b"pwd;007").unwrap(), DisablePowerRail(7));
    assert_eq!(EpsCommand::from_bytes(b"gprs;+9").unwrap(), GetPowerRailState(9));
}

#[test]
fn fields_after_the_argument_are_ignored() {
    assert_eq!(EpsCommand::from_bytes(b"pwe;3;x").unwrap(), EnablePowerRail(3));
    assert_eq!(EpsCommand::from_bytes(b"soh;junk").unwrap(), StateOfHealthReq);
}

#[test]
fn every_command_round_trips() {
    let commands = [
        EnablePowerRail(0),
        EnablePowerRail(200),
        DisablePowerRail(42),
        StateOfHealthReq,
        GetBatteryVoltage(1),
        GetPowerRailState(255),
    ];
    for c in commands {
        let frame = match c {
            EnablePowerRail(n) => format!("pwe;{}", n),
            DisablePowerRail(n) => format!("pwd;{}", n),
            StateOfHealthReq => "soh".to_string(),
            GetBatteryVoltage(n) => format!("gbv;{}", n),
            GetPowerRailState(n) => format!("gprs;{}", n),
        };
        assert_eq!(EpsCommand::from_bytes(frame.as_bytes()).unwrap(), c);
    }
}

#[test]
fn error_codes_are_distinct() {
    let utf8 = core::str::from_utf8(&[0xC0]).err().unwrap();
    let int = "x".parse::<u8>().err().unwrap();
    let errors: Vec<CommandParseError> =
        vec![EmptyMessage, UnknownCommand, IncompleteArgs, ParseIntError(int), Utf8Error(utf8)];
    let mut codes: Vec<&[u8]> = errors.iter().map(|e| e.as_bytes()).collect();
    codes.push(eps::dispatch::MessageHandleError::PowerRailNotFound.as_bytes());
    codes.push(eps::dispatch::read_error_reply());
    for i in 0..codes.len() {
        for j in 0..codes.len() {
            if i != j {
                assert_ne!(codes[i], codes[j]);
            }
        }
    }
}
