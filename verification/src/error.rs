//! The errors that the host itself raises.

use vstd::prelude::*;

verus! {

/// Why a text is not a process id.
#[derive(Clone, Copy, Debug, PartialEq, Eq, Structural)]
pub enum PidParseError {
    /// There is no character to parse.
    Empty,
    /// A character that is no decimal digit stands where a digit is expected.
    InvalidDigit,
    /// The number is above the largest `i32`.
    TooLarge,
    /// The number is below the smallest `i32`.
    TooSmall,
}

/// The broad class of an error, as an I/O error would carry it.
#[derive(Clone, Copy, Debug, PartialEq, Eq, Structural)]
pub enum ErrorKind {
    InvalidInput,
    InvalidData,
    TimedOut,
}

/// An error that the host raises by its own decision.
#[derive(Clone, Copy, Debug, PartialEq, Eq, Structural)]
pub enum HostError {
    /// A message does not fit a frame.
    MessageTooLong,
    /// A second "begin" message arrived.
    BeginTwice,
    /// The editor did not write its process id in time.
    PidTimeout,
    /// The editor wrote something that is not a process id.
    PidInvalid(PidParseError),
}

/// The words for each way in which a text is not a process id.
pub open spec fn pid_parse_text(e: PidParseError) -> Seq<char> {
    match e {
        PidParseError::Empty => "cannot parse integer from empty string"@,
        PidParseError::InvalidDigit => "invalid digit found in string"@,
        PidParseError::TooLarge => "number too large to fit in target type"@,
        PidParseError::TooSmall => "number too small to fit in target type"@,
    }
}

/// The words for each error of the host.
pub open spec fn error_text(e: HostError) -> Seq<char> {
    match e {
        HostError::MessageTooLong => "Tried sending message of more than 2^32 bytes"@,
        HostError::BeginTwice => "Received \"begin\" message twice"@,
        HostError::PidTimeout => "Timeout waiting for iTerm2 to write PID file"@,
        HostError::PidInvalid(p) => "Failed to parse PID: "@ + pid_parse_text(p),
    }
}

impl PidParseError {
    /// The error in words.
    pub fn message(&self) -> (text: String)
        ensures
            text@ == pid_parse_text(*self),
    {
        match self {
            PidParseError::Empty => "cannot parse integer from empty string".to_owned(),
            PidParseError::InvalidDigit => "invalid digit found in string".to_owned(),
            PidParseError::TooLarge => "number too large to fit in target type".to_owned(),
            PidParseError::TooSmall => "number too small to fit in target type".to_owned(),
        }
    }
}

impl HostError {
    /// The class of the error.
    pub fn kind(&self) -> (kind: ErrorKind)
        ensures
            kind == (match *self {
                HostError::MessageTooLong => ErrorKind::InvalidInput,
                HostError::BeginTwice => ErrorKind::InvalidData,
                HostError::PidTimeout => ErrorKind::TimedOut,
                HostError::PidInvalid(_) => ErrorKind::InvalidData,
            }),
    {
        match self {
            HostError::MessageTooLong => ErrorKind::InvalidInput,
            HostError::BeginTwice => ErrorKind::InvalidData,
            HostError::PidTimeout => ErrorKind::TimedOut,
            HostError::PidInvalid(_) => ErrorKind::InvalidData,
        }
    }

    /// The error in words.
    pub fn message(&self) -> (text: String)
        ensures
            text@ == error_text(*self),
    {
        match self {
            HostError::MessageTooLong => "Tried sending message of more than 2^32 bytes".to_owned(),
            HostError::BeginTwice => "Received \"begin\" message twice".to_owned(),
            HostError::PidTimeout => "Timeout waiting for iTerm2 to write PID file".to_owned(),
            HostError::PidInvalid(p) => {
                let mut text = "Failed to parse PID: ".to_owned();
                text.append(p.message().as_str());
                text
            },
        }
    }
}

/// Law: each error is told in these words.
pub proof fn law_errors_in_words(error: HostError, text: String)
    requires
        call_ensures(HostError::message, (&error,), text),
    ensures
        match error {
            HostError::MessageTooLong => text@ == "Tried sending message of more than 2^32 bytes"@,
            HostError::BeginTwice => text@ == "Received \"begin\" message twice"@,
            HostError::PidTimeout => text@ == "Timeout waiting for iTerm2 to write PID file"@,
            HostError::PidInvalid(PidParseError::Empty) => text@ == "Failed to parse PID: "@
                + "cannot parse integer from empty string"@,
            HostError::PidInvalid(PidParseError::InvalidDigit) => text@ == "Failed to parse PID: "@
                + "invalid digit found in string"@,
            HostError::PidInvalid(PidParseError::TooLarge) => text@ == "Failed to parse PID: "@
                + "number too large to fit in target type"@,
            HostError::PidInvalid(PidParseError::TooSmall) => text@ == "Failed to parse PID: "@
                + "number too small to fit in target type"@,
        },
{
}

/// Law: a text that is no process id is refused in these words.
pub proof fn law_parse_errors_in_words(error: PidParseError, text: String)
    requires
        call_ensures(PidParseError::message, (&error,), text),
    ensures
        match error {
            PidParseError::Empty => text@ == "cannot parse integer from empty string"@,
            PidParseError::InvalidDigit => text@ == "invalid digit found in string"@,
            PidParseError::TooLarge => text@ == "number too large to fit in target type"@,
            PidParseError::TooSmall => text@ == "number too small to fit in target type"@,
        },
{
}

/// Law: only a message that is too long is blamed on what was to be sent, and only the
/// wait for a process id times out; the rest is blamed on what was received.
pub proof fn law_errors_by_class(error: HostError, kind: ErrorKind)
    requires
        call_ensures(HostError::kind, (&error,), kind),
    ensures
        kind == ErrorKind::InvalidInput <==> error is MessageTooLong,
        kind == ErrorKind::TimedOut <==> error is PidTimeout,
        kind == ErrorKind::InvalidData <==> error is BeginTwice || error is PidInvalid,
{
}

} // verus!
