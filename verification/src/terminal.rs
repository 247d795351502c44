//! Terminal output on its way to the UI.
use crate::model::SessionId;
use vstd::prelude::*;

verus! {

// ---- Base64 ----------------------------------------------------------------

/// The symbol for a value below 64.
pub open spec fn base64_symbol(v: int) -> char {
    "ABCDEFGHIJKLMNOPQRSTUVWXYZabcdefghijklmnopqrstuvwxyz0123456789+/"@[v]
}

/// The byte at index `i`, zero past the end.
pub open spec fn byte_at(data: Seq<u8>, i: int) -> int {
    if i < data.len() {
        data[i] as int
    } else {
        0
    }
}

/// The 24 bits of the `j`-th group of three bytes.
pub open spec fn base64_group(data: Seq<u8>, j: int) -> int {
    byte_at(data, 3 * j) * 0x1_0000 + byte_at(data, 3 * j + 1) * 0x100 + byte_at(data, 3 * j + 2)
}

/// The `k`-th symbol: six bits of a group, or padding where those bits lie
/// wholly past the end.
pub open spec fn base64_char(data: Seq<u8>, k: int) -> char {
    let j = k / 4;
    let group = base64_group(data, j);
    if k % 4 == 0 {
        base64_symbol(group / 0x4_0000)
    } else if k % 4 == 1 {
        base64_symbol((group / 0x1000) % 64)
    } else if k % 4 == 2 && 3 * j + 1 < data.len() {
        base64_symbol((group / 64) % 64)
    } else if k % 4 == 3 && 3 * j + 2 < data.len() {
        base64_symbol(group % 64)
    } else {
        '='
    }
}

/// How long the Base64 text of `n` bytes is.
pub open spec fn base64_len(n: nat) -> nat {
    4 * ((n + 2) / 3)
}

/// The Base64 text of `data`: the standard alphabet, with padding.
pub open spec fn base64_text(data: Seq<u8>) -> Seq<char> {
    Seq::new(base64_len(data.len()), |k: int| base64_char(data, k))
}

/// `Engine::encode` of the engine `base64::engine::general_purpose::STANDARD`:
/// four symbols of the standard alphabet for each three bytes, padded with `=`.
/// A text too long for memory to be addressed is left out.
#[verifier::external_body]
fn encode_base64(data: &[u8]) -> (r: String)
    requires
        base64_len(data@.len()) <= isize::MAX,
    ensures
        r@ == base64_text(data@),
{
    base64::Engine::encode(&base64::engine::general_purpose::STANDARD, data)
}

// ---- payloads --------------------------------------------------------------

/// Terminal output as the UI receives it.
#[derive(Debug)]
pub struct TermData {
    pub session_id: SessionId,
    /// The bytes, in Base64.
    pub data: String,
    /// Whether this repaints what was shown before.
    pub replay: bool,
}

/// Terminal output as the UI receives it.
pub fn term_data(sid: &str, data: &[u8], replay: bool) -> (r: TermData)
    requires
        base64_len(data@.len()) <= isize::MAX,
    ensures
        r.session_id@ == sid@,
        r.data@ == base64_text(data@),
        r.replay == replay,
{
    TermData { session_id: sid.to_owned(), data: encode_base64(data), replay }
}

} // verus!
