//! Device-facing descriptions: the endpoint record, the USB identity of
//! the controller, and the verbosity levels of the surrounding tooling.

use vstd::prelude::*;

verus! {

/// The USB vendor id of the controller.
pub const VENDOR_ID: u16 = 0x1e71;

/// The USB product id of the controller.
pub const PRODUCT_ID: u16 = 0x3008;

/// A USB endpoint description.
pub struct Endpoint {
    pub config: u8,
    pub interface: u8,
    pub settings: u8,
    pub address: u8,
}

/// How loudly the surrounding tooling reports.
#[derive(Clone, Copy, Debug, PartialEq, Eq, PartialOrd, Ord, Structural)]
pub enum DebugLevel {
    Silent,
    Error,
    Warning,
    Info,
    Debug,
}

/// The level a command-line digit denotes: `0` to `4` from silent to
/// debug; anything else is full debug.
pub open spec fn spec_debug_level(s: Seq<char>) -> DebugLevel {
    if s == "0"@ {
        DebugLevel::Silent
    } else if s == "1"@ {
        DebugLevel::Error
    } else if s == "2"@ {
        DebugLevel::Warning
    } else if s == "3"@ {
        DebugLevel::Info
    } else {
        DebugLevel::Debug
    }
}

impl DebugLevel {
    pub fn parse(s: &str) -> (r: DebugLevel)
        ensures
            r == spec_debug_level(s@),
    {
        if crate::strutil::str_is(s, "0") {
            DebugLevel::Silent
        } else if crate::strutil::str_is(s, "1") {
            DebugLevel::Error
        } else if crate::strutil::str_is(s, "2") {
            DebugLevel::Warning
        } else if crate::strutil::str_is(s, "3") {
            DebugLevel::Info
        } else {
            DebugLevel::Debug
        }
    }
}

} // verus!
