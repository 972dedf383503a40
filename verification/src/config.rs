//! Server settings decided from the environment's text. The bind host is always loopback, so the
//! only number to decide is the port: the one `STUDIO_PORT` names, else the default.

use vstd::prelude::*;

use crate::text::{chars_of, parse_u64, u64_from_text};

verus! {

/// The port the studio serves on when none is configured.
pub const DEFAULT_PORT: u16 = 8787;

/// The port that text names, as `u16::from_str` reads it: the unsigned-integer syntax (an
/// optional `+`, then ASCII digits) with a value that fits in 16 bits.
pub open spec fn port_named(text: Seq<char>) -> Option<u16> {
    match u64_from_text(text) {
        Some(n) => if n <= u16::MAX {
            Some(n as u16)
        } else {
            None
        },
        None => None,
    }
}

/// The port to serve on: the configured one when its text names a port, the default otherwise.
pub fn port_from(text: Option<&str>) -> (p: u16)
    ensures
        p == match text {
            Some(t) => match port_named(t@) {
                Some(n) => n,
                None => DEFAULT_PORT,
            },
            None => DEFAULT_PORT,
        },
{
    match text {
        Some(t) => match parse_u64(&chars_of(t)) {
            Some(n) => if n <= 65535 {
                n as u16
            } else {
                DEFAULT_PORT
            },
            None => DEFAULT_PORT,
        },
        None => DEFAULT_PORT,
    }
}

} // verus!
