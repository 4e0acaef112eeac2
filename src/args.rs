//! Run configuration and password validation.
use vstd::prelude::*;
use crate::output::SignalOutputType;

verus! {

/// Number of decimal digits in a backup password.
pub const PASSWORD_LENGTH: usize = 30;

/// How much the run reports.
#[derive(Debug, Clone, Copy, PartialEq, Eq)]
pub enum LogLevel {
    Debug,
    Info,
    Warn,
    Error,
}

/// Everything a run is configured with.
pub struct Config {
    /// Path to the backup file.
    pub path_input: String,
    /// Directory the output is written to.
    pub path_output: String,
    /// The 30 password digits, as ASCII bytes.
    pub password: Vec<u8>,
    /// Whether each frame's MAC is checked.
    pub verify_mac: bool,
    pub log_level: LogLevel,
    /// Whether existing output files are overwritten.
    pub force_overwrite: bool,
    pub output_type: SignalOutputType,
    /// Whether the raw output builds its database in memory first.
    pub output_raw_db_in_memory: bool,
}

/// A password with a number of digits other than 30.
#[derive(Debug, PartialEq, Eq)]
pub struct PasswordError {
    pub digits: usize,
}

pub open spec fn is_ascii_digit(b: u8) -> bool {
    48 <= b <= 57
}

/// The ASCII digits of `s`, in order.
pub open spec fn digits_of(s: Seq<u8>) -> Seq<u8>
    decreases s.len(),
{
    if s.len() == 0 {
        Seq::empty()
    } else if is_ascii_digit(s.last()) {
        digits_of(s.drop_last()).push(s.last())
    } else {
        digits_of(s.drop_last())
    }
}

/// Keeps the decimal digits of a password as typed (UTF-8 bytes) and checks
/// that there are exactly 30 of them. No byte of a multi-byte UTF-8 character
/// is an ASCII digit, so the digits of the text are the digit bytes.
pub fn password_from_text(text: &[u8]) -> (r: Result<Vec<u8>, PasswordError>)
    ensures
        r is Ok <==> digits_of(text@).len() == PASSWORD_LENGTH,
        r matches Ok(p) ==> p@ == digits_of(text@),
        r matches Err(e) ==> e.digits == digits_of(text@).len(),
{
    let mut digits: Vec<u8> = Vec::new();
    let mut i: usize = 0;
    while i < text.len()
        invariant
            i <= text@.len(),
            digits@ == digits_of(text@.subrange(0, i as int)),
            digits@.len() <= i,
        decreases text@.len() - i,
    {
        let b = text[i];
        assert(text@.subrange(0, i + 1).drop_last() =~= text@.subrange(0, i as int));
        if 48 <= b && b <= 57 {
            digits.push(b);
        }
        i = i + 1;
    }
    assert(text@.subrange(0, text@.len() as int) =~= text@);
    if digits.len() == PASSWORD_LENGTH {
        Ok(digits)
    } else {
        Err(PasswordError { digits: digits.len() })
    }
}

} // verus!
