use vstd::prelude::*;
use vstd::string::StringExecFns;

use crate::flags::FlagName;
use crate::flags::FlagNameV;

verus! {

/// Everything that can go wrong between the raw token stream and the
/// resolved arguments: usage errors carry the offending flag, resolution
/// errors name the missing value.
#[derive(Debug)]
pub enum Error {
    /// A short flag that no descriptor declares.
    UnrecognizedShort(char),
    /// A long flag that no descriptor declares.
    UnrecognizedLong(String),
    /// A flag that requires a value, with none available in the stream.
    MissingValue(FlagName),
    /// A value attached to a flag that is a pure switch.
    UnexpectedValue(FlagName),
    /// No pattern could be resolved from the accumulator.
    MissingPattern,
    /// No file could be resolved from the accumulator.
    MissingFile,
}

/// The mathematical value of an [`Error`].
pub enum ErrorV {
    UnrecognizedShort(char),
    UnrecognizedLong(Seq<char>),
    MissingValue(FlagNameV),
    UnexpectedValue(FlagNameV),
    MissingPattern,
    MissingFile,
}

impl View for Error {
    type V = ErrorV;

    open spec fn view(&self) -> ErrorV {
        match self {
            Error::UnrecognizedShort(c) => ErrorV::UnrecognizedShort(*c),
            Error::UnrecognizedLong(s) => ErrorV::UnrecognizedLong(s@),
            Error::MissingValue(n) => ErrorV::MissingValue(n@),
            Error::UnexpectedValue(n) => ErrorV::UnexpectedValue(n@),
            Error::MissingPattern => ErrorV::MissingPattern,
            Error::MissingFile => ErrorV::MissingFile,
        }
    }
}

/// A flag name as it is written on the command line: `-c` for a short
/// name, `--name` for a long one.
pub open spec fn spec_flag_token(n: FlagNameV) -> Seq<char> {
    match n {
        FlagNameV::Char(c) => "-"@.push(c),
        FlagNameV::Long(s) => "--"@ + s,
    }
}

/// The user-facing message of each error, with the offending token or
/// flag identity included.
pub open spec fn spec_message(e: ErrorV) -> Seq<char> {
    match e {
        ErrorV::UnrecognizedShort(c) => "Unrecognized flag -"@.push(c),
        ErrorV::UnrecognizedLong(s) => "Unrecognized flag --"@ + s,
        ErrorV::MissingValue(n) => "missing value for flag "@ + spec_flag_token(n),
        ErrorV::UnexpectedValue(n) => "unexpected value for flag "@ + spec_flag_token(n),
        ErrorV::MissingPattern => "pattern to search not found"@,
        ErrorV::MissingFile => "file to be searched for pattern not provided"@,
    }
}

/// The written form of a flag name, matching [`spec_flag_token`].
fn flag_token(n: &FlagName) -> (r: String)
    ensures
        r@ == spec_flag_token(n@),
{
    match n {
        FlagName::Char(c) => {
            let mut s = String::from_str("-");
            s.push(*c);
            s
        },
        FlagName::Long(name) => {
            let mut s = String::from_str("--");
            s.append(name.as_str());
            s
        },
    }
}

impl Error {
    /// Renders the error for the user, matching [`spec_message`].
    pub fn message(&self) -> (r: String)
        ensures
            r@ == spec_message(self@),
    {
        match self {
            Error::UnrecognizedShort(c) => {
                let mut s = String::from_str("Unrecognized flag -");
                s.push(*c);
                s
            },
            Error::UnrecognizedLong(name) => {
                let mut s = String::from_str("Unrecognized flag --");
                s.append(name.as_str());
                s
            },
            Error::MissingValue(n) => {
                let mut s = String::from_str("missing value for flag ");
                let tok = flag_token(n);
                s.append(tok.as_str());
                s
            },
            Error::UnexpectedValue(n) => {
                let mut s = String::from_str("unexpected value for flag ");
                let tok = flag_token(n);
                s.append(tok.as_str());
                s
            },
            Error::MissingPattern => String::from_str("pattern to search not found"),
            Error::MissingFile => String::from_str("file to be searched for pattern not provided"),
        }
    }
}

} // verus!
