//! The one-or-two byte length encoding used for explicit frame lengths
//! (RFC 6716, section 3.2.1).
use vstd::prelude::*;

verus! {

/// The value and the number of bytes taken by the length field at the start
/// of `b`, or `None` when `b` is too short to hold it.
pub open spec fn frame_length_spec(b: Seq<u8>) -> Option<(nat, nat)> {
    if b.len() == 0 {
        None
    } else if b[0] < 252 {
        Some((b[0] as nat, 1))
    } else if b.len() < 2 {
        None
    } else {
        Some(((b[0] + 4 * b[1]) as nat, 2))
    }
}

/// Decodes the length field at the start of `bytes`: a first byte below 252
/// is the value itself; a first byte `v` of 252 or more is followed by a
/// byte `w` and the value is `v + 4 * w`. Returns the value and the number of
/// bytes the field took.
pub fn parse_frame_length(bytes: &[u8]) -> (r: Option<(usize, usize)>)
    ensures
        match frame_length_spec(bytes@) {
            None => r is None,
            Some((v, n)) => r == Some((v as usize, n as usize)),
        },
        r matches Some((v, n)) ==> v <= 1275 && 1 <= n <= 2,
{
    if bytes.len() < 1 {
        return None;
    }
    let first: usize = bytes[0] as usize;
    if first < 252 {
        Some((first, 1))
    } else if bytes.len() < 2 {
        None
    } else {
        Some((first + 4 * (bytes[1] as usize), 2))
    }
}

} // verus!
