//! The command protocol: ASCII frames whose fields are separated by `;`,
//! decoded into typed commands or typed errors with fixed wire codes.
use vstd::prelude::*;
use vstd::string::StringSliceAdditionalSpecFns;
use vstd::utf8::{
    is_ascii_chars, is_ascii_chars_encode_utf8, pop_first_scalar, valid_first_scalar, valid_utf8,
};

verus! {

/// The byte that separates the fields of a frame.
pub const SEPARATOR: u8 = 59;

/// A command received from the avionics bus.
#[derive(Clone, Copy, Debug, PartialEq, Eq, Structural)]
pub enum EpsCommand {
    EnablePowerRail(u8),
    DisablePowerRail(u8),
    StateOfHealthReq,
    GetBatteryVoltage(u8),
    GetPowerRailState(u8),
}

/// Why a frame could not be decoded.
#[derive(Debug)]
pub enum CommandParseError {
    UnknownCommand,
    EmptyMessage,
    IncompleteArgs,
    ParseIntError(core::num::ParseIntError),
    Utf8Error(core::str::Utf8Error),
}

#[verifier::external_type_specification]
#[verifier::external_body]
pub struct ExParseIntError(core::num::ParseIntError);

#[verifier::external_type_specification]
#[verifier::external_body]
pub struct ExUtf8Error(core::str::Utf8Error);

// ---------------------------------------------------------------------------
// The frame grammar, as spec functions over bytes.

/// Number of bytes before the first separator (the whole length if there is none).
pub open spec fn field_len(b: Seq<u8>) -> nat
    decreases b.len(),
{
    if b.len() == 0 || b[0] == SEPARATOR {
        0
    } else {
        1 + field_len(b.drop_first())
    }
}

/// The first field of a frame.
pub open spec fn first_field(b: Seq<u8>) -> Seq<u8> {
    b.take(field_len(b) as int)
}

/// The field after the first separator, if the frame has a separator.
pub open spec fn second_field(b: Seq<u8>) -> Option<Seq<u8>> {
    if field_len(b) < b.len() {
        Some(first_field(b.skip(field_len(b) + 1int)))
    } else {
        None
    }
}

pub open spec fn is_digit(c: u8) -> bool {
    48 <= c <= 57
}

/// The value of a string of decimal digits.
pub open spec fn digits_value(d: Seq<u8>) -> nat
    decreases d.len(),
{
    if d.len() == 0 {
        0
    } else {
        digits_value(d.drop_last()) * 10 + (d.last() - 48) as nat
    }
}

/// The text of an unsigned number without its optional leading `+`.
pub open spec fn unsigned_digits(s: Seq<u8>) -> Seq<u8> {
    if s.len() > 0 && s[0] == 43 {
        s.drop_first()
    } else {
        s
    }
}

/// What reading a `u8` from the text `s` (as bytes) gives: an optional `+`,
/// then one or more decimal digits whose value is at most 255.
pub open spec fn decimal_u8(s: Seq<u8>) -> Option<u8> {
    let d = unsigned_digits(s);
    if d.len() > 0 && (forall|i: int| 0 <= i < d.len() ==> is_digit(#[trigger] d[i]))
        && digits_value(d) <= 255 {
        Some(digits_value(d) as u8)
    } else {
        None
    }
}

/// The wire number of each decode error.
pub open spec fn empty_code() -> nat { 500 }
pub open spec fn unknown_code() -> nat { 501 }
pub open spec fn incomplete_code() -> nat { 502 }
pub open spec fn integer_code() -> nat { 503 }
pub open spec fn encoding_code() -> nat { 504 }

/// The rail number of a frame whose opcode takes one, or the number of its error.
pub open spec fn rail_argument(b: Seq<u8>) -> Result<u8, nat> {
    match second_field(b) {
        None => Err(incomplete_code()),
        Some(a) => if !valid_utf8(a) {
            Err(encoding_code())
        } else {
            match decimal_u8(a) {
                None => Err(integer_code()),
                Some(n) => Ok(n),
            }
        },
    }
}

/// The opcodes `pwe`, `pwd`, `soh`, `gbv` and `gprs`, as bytes.
pub open spec fn op_pwe() -> Seq<u8> { seq![112u8, 119u8, 101u8] }
pub open spec fn op_pwd() -> Seq<u8> { seq![112u8, 119u8, 100u8] }
pub open spec fn op_soh() -> Seq<u8> { seq![115u8, 111u8, 104u8] }
pub open spec fn op_gbv() -> Seq<u8> { seq![103u8, 98u8, 118u8] }
pub open spec fn op_gprs() -> Seq<u8> { seq![103u8, 112u8, 114u8, 115u8] }

/// The command that an opcode taking a rail number builds from `n`.
pub open spec fn rail_command(op: Seq<u8>, n: u8) -> Option<EpsCommand> {
    if op == op_pwe() {
        Some(EpsCommand::EnablePowerRail(n))
    } else if op == op_pwd() {
        Some(EpsCommand::DisablePowerRail(n))
    } else if op == op_gbv() {
        Some(EpsCommand::GetBatteryVoltage(n))
    } else if op == op_gprs() {
        Some(EpsCommand::GetPowerRailState(n))
    } else {
        None
    }
}

/// What a frame decodes to: a command, or the wire number of its error.
pub open spec fn decode(b: Seq<u8>) -> Result<EpsCommand, nat> {
    let op = first_field(b);
    if b.len() == 0 {
        Err(empty_code())
    } else if op == op_soh() {
        Ok(EpsCommand::StateOfHealthReq)
    } else if rail_command(op, 0) is None {
        Err(unknown_code())
    } else {
        match rail_argument(b) {
            Ok(n) => Ok(rail_command(op, n)->Some_0),
            Err(e) => Err(e),
        }
    }
}

impl CommandParseError {
    /// The wire number of this error.
    pub open spec fn code(&self) -> nat {
        match self {
            CommandParseError::EmptyMessage => empty_code(),
            CommandParseError::UnknownCommand => unknown_code(),
            CommandParseError::IncompleteArgs => incomplete_code(),
            CommandParseError::ParseIntError(_) => integer_code(),
            CommandParseError::Utf8Error(_) => encoding_code(),
        }
    }
}

/// A decode result, with each error replaced by its wire number.
pub open spec fn outcome(r: Result<EpsCommand, CommandParseError>) -> Result<EpsCommand, nat> {
    match r {
        Ok(c) => Ok(c),
        Err(e) => Err(e.code()),
    }
}

/// The decimal text of `n`, without leading zeros.
pub open spec fn decimal_text(n: nat) -> Seq<u8>
    decreases n,
{
    if n < 10 {
        seq![(48 + n) as u8]
    } else {
        decimal_text(n / 10).push((48 + n % 10) as u8)
    }
}

/// The frame that reports the error numbered `code`: `err;` and the number.
pub open spec fn error_frame(code: nat) -> Seq<u8> {
    seq![101u8, 114u8, 114u8, 59u8] + decimal_text(code)
}

// ---------------------------------------------------------------------------
// Calls into std.

/// Relies on `core::str::from_utf8`: it succeeds exactly on valid UTF-8, and
/// the text it returns is made of the given bytes.
#[verifier::external_body]
fn utf8_text(bytes: &[u8]) -> (r: Result<&str, core::str::Utf8Error>)
    ensures
        r is Ok <==> valid_utf8(bytes@),
        r is Ok ==> r->Ok_0.spec_bytes() == bytes@,
{
    core::str::from_utf8(bytes)
}

/// Relies on `str::parse::<u8>` (`u8::from_str`): it accepts an optional `+`
/// followed by one or more ASCII digits whose value fits in a `u8`.
#[verifier::external_body]
fn parse_u8(s: &str) -> (r: Result<u8, core::num::ParseIntError>)
    ensures
        r is Ok <==> decimal_u8(s.spec_bytes()) is Some,
        r is Ok ==> r->Ok_0 == decimal_u8(s.spec_bytes())->Some_0,
{
    s.parse::<u8>()
}

// ---------------------------------------------------------------------------
// Decoding.

proof fn lemma_field_len(b: Seq<u8>, i: int)
    requires
        0 <= i <= b.len(),
        forall|j: int| 0 <= j < i ==> b[j] != SEPARATOR,
        i == b.len() || b[i] == SEPARATOR,
    ensures
        field_len(b) == i,
    decreases i,
{
    if i > 0 {
        lemma_field_len(b.drop_first(), i - 1);
    }
}

/// The length of the first field of `b`.
fn field_end(b: &[u8]) -> (n: usize)
    ensures
        n == field_len(b@),
        n <= b@.len(),
{
    let mut i: usize = 0;
    while i < b.len() && b[i] != SEPARATOR
        invariant
            i <= b@.len(),
            forall|j: int| 0 <= j < i ==> b@[j] != SEPARATOR,
        decreases b@.len() - i,
    {
        i = i + 1;
    }
    proof {
        lemma_field_len(b@, i as int);
    }
    i
}

/// Whether `f` is exactly the three bytes `x`, `y`, `z`.
fn is_word3(f: &[u8], x: u8, y: u8, z: u8) -> (r: bool)
    ensures
        r == (f@ == seq![x, y, z]),
{
    let r = f.len() == 3 && f[0] == x && f[1] == y && f[2] == z;
    if r {
        assert(f@ =~= seq![x, y, z]);
    }
    r
}

/// Whether `f` is exactly the four bytes `w`, `x`, `y`, `z`.
fn is_word4(f: &[u8], w: u8, x: u8, y: u8, z: u8) -> (r: bool)
    ensures
        r == (f@ == seq![w, x, y, z]),
{
    let r = f.len() == 4 && f[0] == w && f[1] == x && f[2] == y && f[3] == z;
    if r {
        assert(f@ =~= seq![w, x, y, z]);
    }
    r
}

/// Reads the rail number that follows the opcode of `bytes`.
fn read_rail_argument(bytes: &[u8]) -> (r: Result<u8, CommandParseError>)
    ensures
        match r {
            Ok(n) => rail_argument(bytes@) == Ok::<u8, nat>(n),
            Err(e) => rail_argument(bytes@) == Err::<u8, nat>(e.code()),
        },
{
    let end = field_end(bytes);
    if end == bytes.len() {
        return Err(CommandParseError::IncompleteArgs);
    }
    let rest = &bytes[end + 1..bytes.len()];
    assert(rest@ =~= bytes@.skip(end + 1));
    let len = field_end(rest);
    let arg = &rest[0..len];
    assert(arg@ =~= first_field(rest@));
    match utf8_text(arg) {
        Err(e) => Err(CommandParseError::Utf8Error(e)),
        Ok(text) => match parse_u8(text) {
            Err(e) => Err(CommandParseError::ParseIntError(e)),
            Ok(n) => Ok(n),
        },
    }
}

impl EpsCommand {
    /// Decodes one frame.
    pub fn from_bytes(bytes: &[u8]) -> (r: Result<EpsCommand, CommandParseError>)
        ensures
            outcome(r) == decode(bytes@),
    {
        if bytes.len() == 0 {
            return Err(CommandParseError::EmptyMessage);
        }
        let end = field_end(bytes);
        let op = &bytes[0..end];
        assert(op@ =~= first_field(bytes@));
        // "soh"
        if is_word3(op, 115, 111, 104) {
            return Ok(EpsCommand::StateOfHealthReq);
        }
        // "pwe", "pwd", "gbv" and "gprs"
        let pwe = is_word3(op, 112, 119, 101);
        let pwd = is_word3(op, 112, 119, 100);
        let gbv = is_word3(op, 103, 98, 118);
        let gprs = is_word4(op, 103, 112, 114, 115);
        if !(pwe || pwd || gbv || gprs) {
            return Err(CommandParseError::UnknownCommand);
        }
        let n = match read_rail_argument(bytes) {
            Ok(n) => n,
            Err(e) => return Err(e),
        };
        if pwe {
            Ok(EpsCommand::EnablePowerRail(n))
        } else if pwd {
            Ok(EpsCommand::DisablePowerRail(n))
        } else if gbv {
            Ok(EpsCommand::GetBatteryVoltage(n))
        } else {
            Ok(EpsCommand::GetPowerRailState(n))
        }
    }
}


/// The bytes of an ASCII string literal.
pub(crate) fn ascii_bytes(s: &'static str) -> (r: &'static [u8])
    requires
        is_ascii_chars(s@),
    ensures
        r@.len() == s@.len(),
        forall|i: int| 0 <= i < s@.len() ==> r@[i] == s@[i] as u8,
{
    proof {
        is_ascii_chars_encode_utf8(s@);
    }
    s.as_bytes()
}

impl CommandParseError {
    /// The wire code of this error: `err;` followed by its number.
    pub fn as_bytes(&self) -> (r: &'static [u8])
        ensures
            r@ == error_frame(self.code()),
    {
        proof {
            reveal_with_fuel(decimal_text, 4);
        }
        let r = match self {
            CommandParseError::EmptyMessage => {
                proof { reveal_strlit("err;500"); }
                ascii_bytes("err;500")
            },
            CommandParseError::UnknownCommand => {
                proof { reveal_strlit("err;501"); }
                ascii_bytes("err;501")
            },
            CommandParseError::IncompleteArgs => {
                proof { reveal_strlit("err;502"); }
                ascii_bytes("err;502")
            },
            CommandParseError::ParseIntError(_) => {
                proof { reveal_strlit("err;503"); }
                ascii_bytes("err;503")
            },
            CommandParseError::Utf8Error(_) => {
                proof { reveal_strlit("err;504"); }
                ascii_bytes("err;504")
            },
        };
        assert(r@ =~= error_frame(self.code()));
        r
    }
}

// ---------------------------------------------------------------------------
// Laws of the codec.

/// The well-formed frame of a command: its opcode, then for a command with a
/// rail number a separator and the number in decimal.
pub open spec fn frame_of(c: EpsCommand) -> Seq<u8> {
    match c {
        EpsCommand::EnablePowerRail(n) => op_pwe() + seq![SEPARATOR] + decimal_text(n as nat),
        EpsCommand::DisablePowerRail(n) => op_pwd() + seq![SEPARATOR] + decimal_text(n as nat),
        EpsCommand::StateOfHealthReq => op_soh(),
        EpsCommand::GetBatteryVoltage(n) => op_gbv() + seq![SEPARATOR] + decimal_text(n as nat),
        EpsCommand::GetPowerRailState(n) => op_gprs() + seq![SEPARATOR] + decimal_text(n as nat),
    }
}

proof fn lemma_decimal_text(n: nat)
    ensures
        decimal_text(n).len() >= 1,
        forall|i: int| 0 <= i < decimal_text(n).len() ==> is_digit(#[trigger] decimal_text(n)[i]),
        digits_value(decimal_text(n)) == n,
    decreases n,
{
    let d = decimal_text(n);
    if n >= 10 {
        lemma_decimal_text(n / 10);
        assert(d.drop_last() =~= decimal_text(n / 10));
        assert(d.last() - 48 == n % 10);
        assert(n == (n / 10) * 10 + n % 10);
        assert(digits_value(d) == digits_value(d.drop_last()) * 10 + (d.last() - 48) as nat);
    } else {
        assert(d.drop_last() =~= Seq::<u8>::empty());
        assert(d.last() - 48 == n);
        assert(digits_value(d) == digits_value(d.drop_last()) * 10 + (d.last() - 48) as nat);
    }
}

proof fn lemma_ascii_valid_utf8(b: Seq<u8>)
    requires
        forall|i: int| 0 <= i < b.len() ==> #[trigger] b[i] < 128,
    ensures
        valid_utf8(b),
    decreases b.len(),
{
    if b.len() > 0 {
        let b0 = b[0];
        assert(b0 & 0x7f == b0) by (bit_vector)
            requires
                b0 < 128,
        ;
        assert(valid_first_scalar(b));
        assert(pop_first_scalar(b) =~= b.drop_first());
        lemma_ascii_valid_utf8(b.drop_first());
    }
}

/// A frame made of an opcode, a separator and a decimal number.
proof fn lemma_rail_frame(op: Seq<u8>, n: u8)
    requires
        op.len() > 0,
        forall|i: int| 0 <= i < op.len() ==> #[trigger] op[i] != SEPARATOR,
    ensures
        first_field(op + seq![SEPARATOR] + decimal_text(n as nat)) == op,
        rail_argument(op + seq![SEPARATOR] + decimal_text(n as nat)) == Ok::<u8, nat>(n),
{
    let d = decimal_text(n as nat);
    let b = op + seq![SEPARATOR] + d;
    lemma_decimal_text(n as nat);
    lemma_field_len(b, op.len() as int);
    assert(first_field(b) =~= op);
    assert(b.skip(op.len() + 1int) =~= d);
    lemma_field_len(d, d.len() as int);
    assert(first_field(d) =~= d);
    lemma_ascii_valid_utf8(d);
    assert(unsigned_digits(d) == d);
}

/// Decoding the well-formed frame of any command gives that command back.
pub proof fn lemma_decode_frame(c: EpsCommand)
    ensures
        decode(frame_of(c)) == Ok::<EpsCommand, nat>(c),
{
    assert(op_soh()[0] != op_pwe()[0] && op_soh()[0] != op_gbv()[0]);
    match c {
        EpsCommand::EnablePowerRail(n) => lemma_rail_frame(op_pwe(), n),
        EpsCommand::DisablePowerRail(n) => lemma_rail_frame(op_pwd(), n),
        EpsCommand::GetBatteryVoltage(n) => lemma_rail_frame(op_gbv(), n),
        EpsCommand::GetPowerRailState(n) => {
            assert(op_gprs().len() != op_soh().len());
            lemma_rail_frame(op_gprs(), n);
        },
        EpsCommand::StateOfHealthReq => {
            lemma_field_len(op_soh(), 3);
            assert(first_field(op_soh()) =~= op_soh());
        },
    }
}

/// Whether two decode errors are of the same kind, whatever they carry.
pub open spec fn same_kind(a: CommandParseError, b: CommandParseError) -> bool {
    ||| a is EmptyMessage && b is EmptyMessage
    ||| a is UnknownCommand && b is UnknownCommand
    ||| a is IncompleteArgs && b is IncompleteArgs
    ||| a is ParseIntError && b is ParseIntError
    ||| a is Utf8Error && b is Utf8Error
}

/// The error frame of a three-digit number, digit by digit.
pub proof fn lemma_error_frame_digits(n: nat)
    requires
        100 <= n <= 999,
    ensures
        error_frame(n).len() == 7,
        error_frame(n)[4] == 48 + n / 100,
        error_frame(n)[5] == 48 + (n / 10) % 10,
        error_frame(n)[6] == 48 + n % 10,
{
    reveal_with_fuel(decimal_text, 3);
    assert((n / 10) / 10 == n / 100);
}

/// Two errors of different kinds never share a wire code; two of the same
/// kind always do.
pub proof fn lemma_error_codes_distinct(a: CommandParseError, b: CommandParseError)
    ensures
        (error_frame(a.code()) == error_frame(b.code())) <==> same_kind(a, b),
        500 <= a.code() <= 504,
{
    lemma_error_frame_digits(a.code());
    lemma_error_frame_digits(b.code());
    if error_frame(a.code()) == error_frame(b.code()) {
        assert(error_frame(a.code())[6] == error_frame(b.code())[6]);
    }
}

} // verus!
