//! Validation of resource identifiers and the encoding of URL path segments.
use vstd::prelude::*;
use vstd::string::StringSliceAdditionalSpecFns;
use crate::error::CodaError;
use crate::text::{chars_of, contains, extend_str, string_of, str_contains};

verus! {

pub open spec fn is_control(c: char) -> bool {
    (c as u32) < 0x20 || (c as u32) == 0x7f
}

pub open spec fn has_control(s: Seq<char>) -> bool {
    exists|i: int| 0 <= i < s.len() && is_control(#[trigger] s[i])
}

/// The message with which a resource id is refused, or `None` when it is accepted.
/// Control characters are the characters below U+0020 and U+007F, the only
/// characters whose UTF-8 encoding holds such a byte.
pub open spec fn resource_id_problem(value: Seq<char>, name: Seq<char>) -> Option<Seq<char>> {
    if value.len() == 0 {
        Some(name + " must not be empty"@)
    } else if has_control(value) {
        Some(name + " contains invalid control characters"@)
    } else if contains(value, "?"@) || contains(value, "#"@) {
        Some(name + " must not contain '?' or '#': "@ + value)
    } else if contains(value, "%"@) {
        Some(name + " must not contain '%' (possible URL encoding bypass): "@ + value)
    } else if contains(value, ".."@) {
        Some(name + " must not contain path traversal (..): "@ + value)
    } else {
        None
    }
}

fn has_control_exec(s: &str) -> (r: bool)
    ensures
        r == has_control(s@),
{
    let c = chars_of(s);
    let mut i: usize = 0;
    while i < c.len()
        invariant
            i <= c.len(),
            c@ == s@,
            forall|j: int| 0 <= j < i ==> !is_control(#[trigger] c@[j]),
        decreases c.len() - i,
    {
        let n = c[i] as u32;
        if n < 0x20 || n == 0x7f {
            return true;
        }
        i = i + 1;
    }
    false
}

fn problem_text(name: &str, what: &str, value: Option<&str>) -> (r: String)
    ensures
        r@ == name@ + what@ + (match value { Some(v) => v@, None => Seq::<char>::empty() }),
{
    let mut v: Vec<char> = Vec::new();
    extend_str(&mut v, name);
    extend_str(&mut v, what);
    match value {
        Some(x) => extend_str(&mut v, x),
        None => {},
    }
    string_of(v.as_slice())
}

/// Validates a Coda resource identifier (docId, tableId, rowId, etc.).
/// Rejects control characters, URL-special characters, path traversal,
/// and percent-encoded bypasses.
pub fn validate_resource_id<'a>(value: &'a str, name: &str) -> (r: Result<&'a str, CodaError>)
    ensures
        resource_id_problem(value@, name@) is None ==> r == Ok::<&'a str, CodaError>(value),
        resource_id_problem(value@, name@) matches Some(m) ==> r matches Err(CodaError::Validation(e)) && e@ == m,
{
    if value.is_empty() {
        return Err(CodaError::Validation(problem_text(name, " must not be empty", None)));
    }
    if has_control_exec(value) {
        return Err(CodaError::Validation(problem_text(name, " contains invalid control characters", None)));
    }
    if str_contains(value, "?") || str_contains(value, "#") {
        return Err(CodaError::Validation(problem_text(name, " must not contain '?' or '#': ", Some(value))));
    }
    if str_contains(value, "%") {
        return Err(CodaError::Validation(
            problem_text(name, " must not contain '%' (possible URL encoding bypass): ", Some(value)),
        ));
    }
    if str_contains(value, "..") {
        return Err(CodaError::Validation(
            problem_text(name, " must not contain path traversal (..): ", Some(value)),
        ));
    }
    Ok(value)
}

pub open spec fn upper_hex(n: u8) -> char {
    seq!['0', '1', '2', '3', '4', '5', '6', '7', '8', '9', 'A', 'B', 'C', 'D', 'E', 'F'][n as int]
}

pub open spec fn is_alnum_byte(b: u8) -> bool {
    (0x30 <= b && b <= 0x39) || (0x41 <= b && b <= 0x5a) || (0x61 <= b && b <= 0x7a)
}

/// How one byte is written: ASCII letters and digits as themselves, every other
/// byte as `%` and two upper-case hex digits.
pub open spec fn percent_byte(b: u8) -> Seq<char> {
    if is_alnum_byte(b) {
        seq![b as char]
    } else {
        seq!['%', upper_hex(b / 16), upper_hex(b % 16)]
    }
}

pub open spec fn percent_encoding(bs: Seq<u8>) -> Seq<char>
    decreases bs.len(),
{
    if bs.len() == 0 {
        Seq::empty()
    } else {
        percent_encoding(bs.drop_last()) + percent_byte(bs.last())
    }
}

/// Percent-encode a value for use in a URL path segment:
/// `utf8_percent_encode(s, NON_ALPHANUMERIC)` from `percent_encoding`, which
/// writes every byte of the text's UTF-8 encoding as itself when it is an ASCII
/// letter or digit and as `%XX` with upper-case hex digits otherwise.
#[verifier::external_body]
pub fn encode_path_segment(s: &str) -> (r: String)
    ensures
        r@ == percent_encoding(crate::text::utf8_bytes(s@)),
{
    percent_encoding::utf8_percent_encode(s, percent_encoding::NON_ALPHANUMERIC).to_string()
}

/// An encoded path segment holds only ASCII letters, digits and `%`: no
/// separator, query or fragment character, and no white space.
pub proof fn law_encoded_segment_safe(bs: Seq<u8>)
    ensures
        forall|i: int| 0 <= i < percent_encoding(bs).len() ==>
            (#[trigger] percent_encoding(bs)[i] == '%' || crate::text::is_ascii_alnum(percent_encoding(bs)[i])),
    decreases bs.len(),
{
    if bs.len() > 0 {
        law_encoded_segment_safe(bs.drop_last());
        let b = bs.last();
        let pre = percent_encoding(bs.drop_last());
        let enc = percent_encoding(bs);
        assert(enc == pre + percent_byte(b));
        let hex = seq!['0', '1', '2', '3', '4', '5', '6', '7', '8', '9', 'A', 'B', 'C', 'D', 'E', 'F'];
        assert forall|k: int| 0 <= k < 16 implies crate::text::is_ascii_alnum(#[trigger] hex[k]) by {}
        assert forall|i: int| 0 <= i < enc.len() implies
            (#[trigger] enc[i] == '%' || crate::text::is_ascii_alnum(enc[i])) by {
            if i >= pre.len() {
                if !is_alnum_byte(b) {
                    assert(b / 16 < 16);
                    assert(b % 16 < 16);
                    assert(upper_hex(b / 16) == hex[(b / 16) as int]);
                    assert(upper_hex(b % 16) == hex[(b % 16) as int]);
                }
            }
        }
    }
}

} // verus!
