//! Which log level a message of the graphics API's validation layer is
//! reported at, by its severity flag.
use vstd::prelude::*;

verus! {

/// Severity flag of a verbose diagnostic message.
pub const SEVERITY_VERBOSE: u32 = 0x1;
/// Severity flag of an informational message.
pub const SEVERITY_INFO: u32 = 0x10;
/// Severity flag of a warning.
pub const SEVERITY_WARNING: u32 = 0x100;
/// Severity flag of an error.
pub const SEVERITY_ERROR: u32 = 0x1000;

/// The log level a validation message is written at.
#[derive(Clone, Copy, Debug, PartialEq, Eq, Structural)]
pub enum MessageLevel {
    Debug,
    Info,
    Warn,
    Error,
}

/// The level for a severity value: each of the four single flags has its
/// own level; any other value (no flag, or several) is not reported.
pub open spec fn level_of_severity(severity: u32) -> Option<MessageLevel> {
    if severity == SEVERITY_INFO {
        Some(MessageLevel::Info)
    } else if severity == SEVERITY_VERBOSE {
        Some(MessageLevel::Debug)
    } else if severity == SEVERITY_WARNING {
        Some(MessageLevel::Warn)
    } else if severity == SEVERITY_ERROR {
        Some(MessageLevel::Error)
    } else {
        None
    }
}

/// The level a message of the given severity is logged at, or `None` where
/// the message is dropped.
pub fn message_level(severity: u32) -> (level: Option<MessageLevel>)
    ensures
        level == level_of_severity(severity),
{
    if severity == SEVERITY_INFO {
        Some(MessageLevel::Info)
    } else if severity == SEVERITY_VERBOSE {
        Some(MessageLevel::Debug)
    } else if severity == SEVERITY_WARNING {
        Some(MessageLevel::Warn)
    } else if severity == SEVERITY_ERROR {
        Some(MessageLevel::Error)
    } else {
        None
    }
}

} // verus!
