//! Screening of attribute values that carry a URL scheme.

use vstd::prelude::*;

verus! {

/// ASCII `a`.
pub const LOWER_A: u8 = 97;

/// ASCII `z`.
pub const LOWER_Z: u8 = 122;

/// ASCII `A`.
pub const UPPER_A: u8 = 65;

/// ASCII `Z`.
pub const UPPER_Z: u8 = 90;

/// ASCII `0`.
pub const DIGIT_0: u8 = 48;

/// ASCII `9`.
pub const DIGIT_9: u8 = 57;

/// ASCII `+`.
pub const PLUS: u8 = 43;

/// ASCII `-`.
pub const MINUS: u8 = 45;

/// ASCII `.`.
pub const DOT: u8 = 46;

/// ASCII `:`.
pub const COLON: u8 = 58;

/// ASCII `/`.
pub const SLASH: u8 = 47;

/// An ASCII letter, the only byte that may open a scheme.
pub open spec fn is_scheme_start(b: u8) -> bool {
    (LOWER_A <= b && b <= LOWER_Z) || (UPPER_A <= b && b <= UPPER_Z)
}

/// A byte that may follow the first letter of a scheme: a letter, a digit,
/// `+`, `-` or `.`.
pub open spec fn is_scheme_byte(b: u8) -> bool {
    is_scheme_start(b) || (DIGIT_0 <= b && b <= DIGIT_9) || b == PLUS || b == MINUS || b == DOT
}

/// The value begins with `//`, and so names a host relative to the protocol.
pub open spec fn is_protocol_relative(url: Seq<u8>) -> bool {
    url.len() >= 2 && url[0] == SLASH && url[1] == SLASH
}

/// The value begins with a scheme: a letter, then scheme bytes, then a colon
/// at position `colon`.
pub open spec fn has_scheme_ending_at(url: Seq<u8>, colon: int) -> bool {
    &&& 1 <= colon < url.len()
    &&& is_scheme_start(url[0])
    &&& url[colon] == COLON
    &&& forall|j: int| 1 <= j < colon ==> is_scheme_byte(#[trigger] url[j])
}

/// The value is a link that leaves the site: it is protocol-relative or it
/// begins with a well-formed scheme.
pub open spec fn bad_schema(url: Seq<u8>) -> bool {
    is_protocol_relative(url) || exists|colon: int| has_scheme_ending_at(url, colon)
}

fn scheme_start(b: u8) -> (r: bool)
    ensures
        r == is_scheme_start(b),
{
    (LOWER_A <= b && b <= LOWER_Z) || (UPPER_A <= b && b <= UPPER_Z)
}

fn scheme_byte(b: u8) -> (r: bool)
    ensures
        r == is_scheme_byte(b),
{
    scheme_start(b) || (DIGIT_0 <= b && b <= DIGIT_9) || b == PLUS || b == MINUS || b == DOT
}

/// Decides whether an attribute value must be skipped because it is
/// protocol-relative or carries a scheme.
pub fn is_bad_schema(url: &[u8]) -> (bad: bool)
    ensures
        bad == bad_schema(url@),
{
    let n: usize = url.len();
    if n == 0 {
        return false;
    }
    if n >= 2 && url[0] == SLASH && url[1] == SLASH {
        return true;
    }
    if !scheme_start(url[0]) {
        return false;
    }
    let mut i: usize = 1;
    while i < n
        invariant
            1 <= i <= n,
            n == url@.len(),
            is_scheme_start(url@[0]),
            !is_protocol_relative(url@),
            forall|j: int| 1 <= j < i ==> is_scheme_byte(#[trigger] url@[j]),
        decreases n - i,
    {
        let c: u8 = url[i];
        if c == COLON {
            assert(has_scheme_ending_at(url@, i as int));
            return true;
        }
        if !scheme_byte(c) {
            assert forall|colon: int| !has_scheme_ending_at(url@, colon) by {
                if has_scheme_ending_at(url@, colon) {
                    if colon < i {
                        assert(is_scheme_byte(url@[colon]));
                    } else if colon > i {
                        assert(is_scheme_byte(url@[i as int]));
                    }
                }
            }
            return false;
        }
        i += 1;
    }
    assert forall|colon: int| !has_scheme_ending_at(url@, colon) by {
        if has_scheme_ending_at(url@, colon) {
            assert(is_scheme_byte(url@[colon]));
        }
    }
    false
}

} // verus!
