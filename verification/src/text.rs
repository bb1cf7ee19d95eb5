//! Byte- and character-level text handling: scanning guest memory for a
//! null-terminated string and decoding it, and turning borrowed string
//! slices into indexable character vectors.

use vstd::prelude::*;
use vstd::utf8::{decode_utf8, valid_utf8};

verus! {

/// The first index at or after `i` holding a zero byte, or `s.len()` if
/// there is none.
pub open spec fn nul_pos(s: Seq<u8>, i: int) -> int
    recommends
        0 <= i <= s.len(),
    decreases s.len() - i when 0 <= i <= s.len()
{
    if i < s.len() && s[i] != 0 {
        nul_pos(s, i + 1)
    } else {
        i
    }
}

/// The bytes a guest handed over at offset `ptr`: everything from `ptr` up
/// to (excluding) the first zero byte, provided `ptr` is in bounds and a
/// zero byte follows.
pub open spec fn c_string_at(mem: Seq<u8>, ptr: int) -> Option<Seq<u8>> {
    if 0 <= ptr <= mem.len() && nul_pos(mem, ptr) < mem.len() {
        Some(mem.subrange(ptr, nul_pos(mem, ptr)))
    } else {
        None
    }
}

/// Copy the null-terminated byte string starting at offset `start`, or
/// report that the offset is out of bounds or no terminator exists.
pub fn scan_c_string(data: &[u8], start: i32) -> (r: Option<Vec<u8>>)
    ensures
        match r {
            Some(v) => c_string_at(data@, start as int) == Some(v@),
            None => c_string_at(data@, start as int) is None,
        },
{
    if start < 0 {
        return None;
    }
    let begin: usize = start as usize;
    if begin > data.len() {
        return None;
    }
    let mut out: Vec<u8> = Vec::new();
    let mut i: usize = begin;
    while i < data.len() && data[i] != 0
        invariant
            begin <= i <= data@.len(),
            nul_pos(data@, begin as int) == nul_pos(data@, i as int),
            out@ == data@.subrange(begin as int, i as int),
        decreases data@.len() - i,
    {
        out.push(data[i]);
        i = i + 1;
        proof {
            assert(out@ =~= data@.subrange(begin as int, i as int));
        }
    }
    if i < data.len() {
        Some(out)
    } else {
        None
    }
}

/// Relies on `String::from_utf8`: decodes the bytes exactly when they are
/// valid UTF-8.
#[verifier::external_body]
pub(crate) fn utf8_to_string(bytes: Vec<u8>) -> (r: Option<String>)
    ensures
        match r {
            Some(s) => valid_utf8(bytes@) && s@ == decode_utf8(bytes@),
            None => !valid_utf8(bytes@),
        },
{
    String::from_utf8(bytes).ok()
}

/// The placeholder stored when a guest's `render` call hands over an
/// out-of-bounds offset, a string with no terminator, or invalid UTF-8.
pub open spec fn invalid_output_text() -> Seq<char> {
    "[invalid render output]"@
}

/// What the `render` import captures for a guest memory `mem` and byte
/// offset `ptr`: the decoded null-terminated string at `ptr`, or the
/// diagnostic placeholder when the offset is out of bounds, no terminator
/// exists, or the bytes are not valid UTF-8.
pub open spec fn capture_text(mem: Seq<u8>, ptr: int) -> Seq<char> {
    match c_string_at(mem, ptr) {
        Some(bytes) => if valid_utf8(bytes) {
            decode_utf8(bytes)
        } else {
            invalid_output_text()
        },
        None => invalid_output_text(),
    }
}

/// The host side of the guest's `render` call: scan the guest memory from
/// the given offset for a null-terminated UTF-8 string, falling back to the
/// diagnostic placeholder.  This failure is local to the call: the guest's
/// execution goes on either way.
pub fn capture_output(data: &[u8], ptr: i32) -> (r: String)
    ensures
        r@ == capture_text(data@, ptr as int),
{
    match scan_c_string(data, ptr) {
        Some(bytes) => match utf8_to_string(bytes) {
            Some(s) => s,
            None => invalid_output_string(),
        },
        None => invalid_output_string(),
    }
}

/// The diagnostic placeholder as an owned string.
fn invalid_output_string() -> (r: String)
    ensures
        r@ == invalid_output_text(),
{
    "[invalid render output]".to_owned()
}

/// The characters of `s`, one per index.
pub fn chars_vec(s: &str) -> (r: Vec<char>)
    ensures
        r@ == s@,
{
    let n = s.unicode_len();
    let mut out: Vec<char> = Vec::new();
    let mut i: usize = 0;
    while i < n
        invariant
            n == s@.len(),
            i <= n,
            out@ == s@.subrange(0, i as int),
        decreases n - i,
    {
        out.push(s.get_char(i));
        i = i + 1;
        proof {
            assert(out@ =~= s@.subrange(0, i as int));
        }
    }
    proof {
        assert(s@.subrange(0, s@.len() as int) =~= s@);
    }
    out
}

} // verus!
