//! The dispatcher, which routes a decoded command to a rail supervisor or to
//! the broadcast bus, and the gateway's answer to each inbound frame.
use vstd::prelude::*;
use vstd::utf8::is_ascii_chars;

use crate::codec::{ascii_bytes, decode, error_frame, EpsCommand};
use crate::rail::{posted, woken, CurrentMonitorMessage, RailBank, RailView};

verus! {

/// Why a command could not be dispatched.
#[derive(Clone, Copy, Debug, PartialEq, Eq, Structural)]
pub enum MessageHandleError {
    /// The command names a rail that has no supervisor.
    PowerRailNotFound,
}

/// The wire number of a command that names an unknown rail.
pub open spec fn rail_not_found_code() -> nat { 404 }

/// The wire number of a failed read on the byte stream.
pub open spec fn read_error_code() -> nat { 401 }

impl MessageHandleError {
    /// The wire code of this error.
    pub fn as_bytes(&self) -> (r: &'static [u8])
        ensures
            r@ == error_frame(rail_not_found_code()),
    {
        proof {
            reveal_with_fuel(crate::codec::decimal_text, 4);
            reveal_strlit("err;404");
        }
        let r = ascii_bytes("err;404");
        assert(r@ =~= error_frame(rail_not_found_code()));
        r
    }
}

/// Whether rail `id` has a supervisor in `bank`.
pub open spec fn bound(bank: Seq<RailView>, id: u8) -> bool {
    id < bank.len()
}

/// The rails after `c` was dispatched: an enable or disable of a bound rail
/// posts `Activate` or `Deactivate` to it; nothing else changes them.
pub open spec fn after_dispatch(bank: Seq<RailView>, c: EpsCommand) -> Seq<RailView> {
    match c {
        EpsCommand::EnablePowerRail(n) => if bound(bank, n) {
            bank.update(n as int, posted(bank[n as int], CurrentMonitorMessage::Activate))
        } else {
            bank
        },
        EpsCommand::DisablePowerRail(n) => if bound(bank, n) {
            bank.update(n as int, posted(bank[n as int], CurrentMonitorMessage::Deactivate))
        } else {
            bank
        },
        _ => bank,
    }
}

/// The answer to `c`: `Err(())` for a rail with no supervisor, the state of the
/// named rail for a state request, and no text for everything else.
pub open spec fn dispatch_result(bank: Seq<RailView>, c: EpsCommand) -> Result<Option<bool>, ()> {
    match c {
        EpsCommand::EnablePowerRail(n) => if bound(bank, n) { Ok(None) } else { Err(()) },
        EpsCommand::DisablePowerRail(n) => if bound(bank, n) { Ok(None) } else { Err(()) },
        EpsCommand::GetPowerRailState(n) => if bound(bank, n) {
            Ok(Some(bank[n as int].asserted))
        } else {
            Err(())
        },
        _ => Ok(None),
    }
}

/// Whether `c` is left to other subsystems, through the broadcast bus.
pub open spec fn is_broadcast(c: EpsCommand) -> bool {
    c is StateOfHealthReq || c is GetBatteryVoltage
}

/// The text that reports a rail's state.
pub open spec fn state_text(asserted: bool) -> Seq<char> {
    if asserted {
        seq!['O', 'n']
    } else {
        seq!['O', 'f', 'f']
    }
}

/// Dispatches one command: posts to the named rail's signal, reads the named
/// rail's state, or leaves the command to the broadcast bus.
pub fn handle_message(bank: &mut RailBank, command: &EpsCommand) -> (r: Result<
    Option<&'static str>,
    MessageHandleError,
>)
    ensures
        final(bank)@ == after_dispatch(old(bank)@, *command),
        r is Err <==> dispatch_result(old(bank)@, *command) is Err,
        r is Ok ==> match dispatch_result(old(bank)@, *command) {
            Ok(None) => r->Ok_0 is None,
            Ok(Some(asserted)) => r->Ok_0 is Some && r->Ok_0->Some_0@ == state_text(asserted),
            Err(_) => false,
        },
{
    match *command {
        EpsCommand::EnablePowerRail(n) => {
            if bank.contains(n) {
                bank.post(n as usize, CurrentMonitorMessage::Activate);
                Ok(None)
            } else {
                Err(MessageHandleError::PowerRailNotFound)
            }
        },
        EpsCommand::DisablePowerRail(n) => {
            if bank.contains(n) {
                bank.post(n as usize, CurrentMonitorMessage::Deactivate);
                Ok(None)
            } else {
                Err(MessageHandleError::PowerRailNotFound)
            }
        },
        EpsCommand::GetPowerRailState(n) => {
            if bank.contains(n) {
                if bank.is_asserted(n as usize) {
                    proof { reveal_strlit("On"); }
                    Ok(Some("On"))
                } else {
                    proof { reveal_strlit("Off"); }
                    Ok(Some("Off"))
                }
            } else {
                Err(MessageHandleError::PowerRailNotFound)
            }
        },
        _ => Ok(None),
    }
}

/// The generic acknowledgement, `ok`.
pub open spec fn ack_frame() -> Seq<u8> {
    seq![111u8, 107u8]
}

/// The bytes of an ASCII text.
pub open spec fn ascii_of(t: Seq<char>) -> Seq<u8> {
    t.map_values(|c: char| c as u8)
}

/// What the gateway writes back for `frame`, given the rails before it.
pub open spec fn reply_for(bank: Seq<RailView>, frame: Seq<u8>) -> Seq<u8> {
    match decode(frame) {
        Err(code) => error_frame(code),
        Ok(c) => match dispatch_result(bank, c) {
            Err(_) => error_frame(rail_not_found_code()),
            Ok(None) => ack_frame(),
            Ok(Some(asserted)) => ascii_of(state_text(asserted)),
        },
    }
}

/// The rails after the gateway handled `frame`.
pub open spec fn rails_after(bank: Seq<RailView>, frame: Seq<u8>) -> Seq<RailView> {
    match decode(frame) {
        Err(_) => bank,
        Ok(c) => after_dispatch(bank, c),
    }
}

/// The gateway's work for one inbound frame.
pub struct Exchange {
    /// The bytes to write back on the stream.
    pub reply: &'static [u8],
    /// A command to publish on the broadcast bus before the reply is written.
    pub publish: Option<EpsCommand>,
    /// A rail whose supervisor has a new control message.
    pub wake: Option<u8>,
}

/// Handles one inbound frame: decodes it, dispatches the command, and says
/// what to write back, what to publish and which supervisor to wake.
pub fn handle_frame(bank: &mut RailBank, frame: &[u8]) -> (x: Exchange)
    ensures
        x.reply@ == reply_for(old(bank)@, frame@),
        final(bank)@ == rails_after(old(bank)@, frame@),
        x.publish == match decode(frame@) {
            Ok(c) => if is_broadcast(c) { Some(c) } else { None },
            Err(_) => None,
        },
        x.wake == match decode(frame@) {
            Ok(EpsCommand::EnablePowerRail(n)) => if bound(old(bank)@, n) { Some(n) } else { None },
            Ok(EpsCommand::DisablePowerRail(n)) => if bound(old(bank)@, n) { Some(n) } else { None },
            _ => None,
        },
{
    let command = match EpsCommand::from_bytes(frame) {
        Ok(c) => c,
        Err(e) => {
            return Exchange { reply: e.as_bytes(), publish: None, wake: None };
        },
    };
    let wake = match command {
        EpsCommand::EnablePowerRail(n) => if bank.contains(n) { Some(n) } else { None },
        EpsCommand::DisablePowerRail(n) => if bank.contains(n) { Some(n) } else { None },
        _ => None,
    };
    let publish = match command {
        EpsCommand::StateOfHealthReq => Some(command),
        EpsCommand::GetBatteryVoltage(_) => Some(command),
        _ => None,
    };
    let reply = match handle_message(bank, &command) {
        Err(e) => e.as_bytes(),
        Ok(None) => {
            proof { reveal_strlit("ok"); }
            let r = ascii_bytes("ok");
            assert(r@ =~= ack_frame());
            r
        },
        Ok(Some(text)) => {
            assert(is_ascii_chars(text@));
            let r = ascii_bytes(text);
            assert(r@ =~= ascii_of(text@));
            r
        },
    };
    Exchange { reply, publish, wake }
}

/// What the gateway writes back when reading the stream failed.
pub fn read_error_reply() -> (r: &'static [u8])
    ensures
        r@ == error_frame(read_error_code()),
{
    proof {
        reveal_with_fuel(crate::codec::decimal_text, 4);
        reveal_strlit("err;401");
    }
    let r = ascii_bytes("err;401");
    assert(r@ =~= error_frame(read_error_code()));
    r
}

/// The dispatcher's and the transport's wire codes differ from each other
/// and from every decode error's.
pub proof fn lemma_gateway_codes_distinct(e: crate::codec::CommandParseError)
    ensures
        error_frame(e.code()) != error_frame(rail_not_found_code()),
        error_frame(e.code()) != error_frame(read_error_code()),
        error_frame(rail_not_found_code()) != error_frame(read_error_code()),
{
    crate::codec::lemma_error_frame_digits(e.code());
    crate::codec::lemma_error_frame_digits(rail_not_found_code());
    crate::codec::lemma_error_frame_digits(read_error_code());
    assert(error_frame(e.code())[4] != error_frame(rail_not_found_code())[4]);
    assert(error_frame(e.code())[4] != error_frame(read_error_code())[4]);
    assert(error_frame(rail_not_found_code())[6] != error_frame(read_error_code())[6]);
}

/// Enabling a rail with no supervisor fails; enabling a bound rail succeeds
/// with no text, and once its supervisor wakes the rail is asserted.
pub proof fn lemma_enable_asserts(bank: Seq<RailView>, id: u8)
    ensures
        !bound(bank, id) ==> dispatch_result(bank, EpsCommand::EnablePowerRail(id)) is Err,
        bound(bank, id) ==> dispatch_result(bank, EpsCommand::EnablePowerRail(id)) == Ok::<
            Option<bool>,
            (),
        >(None),
        bound(bank, id) ==> woken(after_dispatch(bank, EpsCommand::EnablePowerRail(id))[id as int]).asserted,
{
}

} // verus!
