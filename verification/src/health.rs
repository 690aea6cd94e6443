//! The probe of the container's own healthcheck endpoint.

use vstd::prelude::*;
#[allow(unused_imports)]
use vstd::utf8::{decode_utf8, valid_utf8};

use crate::json::lossy;
#[allow(unused_imports)]
use crate::json::lossy_text;
use crate::text::{chars_of, read_unsigned};
#[allow(unused_imports)]
use crate::text::unsigned_number;

verus! {

/// The port that is probed where none is configured.
pub const DEFAULT_HEALTH_PORT: u16 = 49200;

/// The port that a setting stands for: the default where it is missing, no
/// number, or too large for a port.
pub open spec fn port_of(setting: Option<Seq<char>>) -> int {
    match setting {
        Some(s) => match unsigned_number(s) {
            Some(n) => if n <= u16::MAX {
                n
            } else {
                DEFAULT_HEALTH_PORT as int
            },
            None => DEFAULT_HEALTH_PORT as int,
        },
        None => DEFAULT_HEALTH_PORT as int,
    }
}

/// The port to probe, given the setting where there is one.
pub fn healthcheck_port(setting: Option<&str>) -> (port: u16)
    ensures
        port == port_of(
            match setting {
                Some(s) => Some(s@),
                None => None,
            },
        ),
{
    match setting {
        Some(s) => {
            let chars: Vec<char> = chars_of(s);
            match read_unsigned(chars.as_slice()) {
                Some(n) => if n <= u16::MAX as u64 {
                    n as u16
                } else {
                    DEFAULT_HEALTH_PORT
                },
                None => DEFAULT_HEALTH_PORT,
            }
        },
        None => DEFAULT_HEALTH_PORT,
    }
}

/// Whether a response says that the app is healthy: it begins with a status
/// line of 200.
pub open spec fn is_healthy(text: Seq<char>) -> bool {
    "HTTP/1.1 200"@.is_prefix_of(text)
}

/// Whether a response, decoded, says that the app is healthy.
pub fn starts_healthy(text: &str) -> (healthy: bool)
    ensures
        healthy == is_healthy(text@),
{
    let chars: Vec<char> = chars_of(text);
    let wanted: Vec<char> = chars_of("HTTP/1.1 200");
    if chars.len() < wanted.len() {
        return false;
    }
    let mut i: usize = 0;
    while i < wanted.len()
        invariant
            i <= wanted.len() <= chars.len(),
            chars@ == text@,
            wanted@ == "HTTP/1.1 200"@,
            forall|j: int| 0 <= j < i ==> chars@[j] == wanted@[j],
        decreases wanted.len() - i,
    {
        if chars[i] != wanted[i] {
            assert(text@.subrange(0, wanted@.len() as int)[i as int] != wanted@[i as int]);
            return false;
        }
        i = i + 1;
    }
    assert(wanted@ =~= text@.subrange(0, wanted@.len() as int));
    true
}

/// Whether a raw response says that the app is healthy.
pub fn healthcheck_ok(response: &[u8]) -> (healthy: bool)
    ensures
        healthy == is_healthy(lossy_text(response@)),
        valid_utf8(response@) ==> lossy_text(response@) == decode_utf8(response@),
{
    let text: String = lossy(response);
    starts_healthy(text.as_str())
}

} // verus!
