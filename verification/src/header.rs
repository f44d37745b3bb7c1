//! HTTP header values as text and HTTP status classes, with the meaning
//! that the `http` crate gives them (`HeaderValue::to_str`,
//! `StatusCode::is_success`).

use vstd::prelude::*;

verus! {

/// Whether `b` is visible ASCII or a tab, the bytes that
/// `HeaderValue::to_str` accepts.
pub open spec fn spec_is_visible_ascii(b: u8) -> bool {
    b == 9 || (32 <= b && b < 127)
}

/// The text of a header value: its bytes read as ASCII characters, when
/// every byte is visible ASCII or a tab; `None` otherwise.
pub open spec fn spec_header_text(bytes: Seq<u8>) -> Option<Seq<char>> {
    if forall|i: int| 0 <= i < bytes.len() ==> spec_is_visible_ascii(#[trigger] bytes[i]) {
        Some(bytes.map_values(|b: u8| b as char))
    } else {
        None
    }
}

/// Decodes ASCII bytes with `std::str::from_utf8`.  Claimed: ASCII bytes
/// are valid UTF-8 and decode to one character each.
#[verifier::external_body]
fn ascii_to_string(bytes: &[u8]) -> (res: String)
    requires
        forall|i: int| 0 <= i < bytes@.len() ==> #[trigger] bytes@[i] < 128,
    ensures
        res@ == bytes@.map_values(|b: u8| b as char),
{
    match std::str::from_utf8(bytes) {
        Ok(s) => s.to_string(),
        Err(_) => String::new(),
    }
}

/// The text of a header value, refused when a byte is not visible ASCII.
pub fn header_value_to_str(bytes: &[u8]) -> (res: Option<String>)
    ensures
        match res {
            Some(t) => spec_header_text(bytes@) == Some(t@),
            None => spec_header_text(bytes@) is None,
        },
{
    let n = bytes.len();
    let mut i: usize = 0;
    while i < n
        invariant
            i <= n,
            n == bytes@.len(),
            forall|j: int| 0 <= j < i ==> spec_is_visible_ascii(#[trigger] bytes@[j]),
        decreases n - i,
    {
        let b = bytes[i];
        if !(b == 9 || (32 <= b && b < 127)) {
            assert(!spec_is_visible_ascii(bytes@[i as int]));
            return None;
        }
        i = i + 1;
    }
    Some(ascii_to_string(bytes))
}

/// Whether an HTTP status is in the success class `200..=299`.
pub open spec fn spec_is_success(status: u16) -> bool {
    200 <= status && status < 300
}

/// Whether an HTTP status is in the success class.
pub fn is_success(status: u16) -> (res: bool)
    ensures
        res == spec_is_success(status),
{
    200 <= status && status < 300
}

} // verus!
