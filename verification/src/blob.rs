//! File contents: telling text from binary data, and reading text out of bytes.

use vstd::prelude::*;

verus! {

/// How many bytes are looked at to tell binary data.
pub const SAMPLE_BYTES: usize = 8192;

/// A zero byte stands near the beginning.
pub open spec fn looks_binary(data: Seq<u8>) -> bool {
    exists|i: int| 0 <= i < data.len() && i < SAMPLE_BYTES && #[trigger] data[i] == 0
}

/// A cheap test for binary data: a zero byte near the beginning.
pub fn is_probably_binary(data: &[u8]) -> (r: bool)
    ensures
        r == looks_binary(data@),
{
    let n: usize = data.len();
    let mut i: usize = 0;
    while i < n && i < SAMPLE_BYTES
        invariant
            n == data@.len(),
            i <= n,
            forall|j: int| 0 <= j < i ==> #[trigger] data@[j] != 0,
        decreases n - i,
    {
        if data[i] == 0 {
            return true;
        }
        i += 1;
    }
    false
}

/// The text that the bytes encode, if they are valid UTF-8.
pub open spec fn text_of(data: Seq<u8>) -> Option<Seq<char>> {
    if vstd::utf8::valid_utf8(data) {
        Some(vstd::utf8::decode_utf8(data))
    } else {
        None
    }
}

/// `std::str::from_utf8`: the bytes as text if they are valid UTF-8, and
/// nothing otherwise.
#[verifier::external_body]
pub(crate) fn as_text(data: &[u8]) -> (r: Option<&str>)
    ensures
        match r {
            Some(s) => text_of(data@) == Some(s@),
            None => text_of(data@) is None,
        },
{
    std::str::from_utf8(data).ok()
}

/// The text of a file that is neither empty, nor larger than `limit`, nor
/// binary, nor in another encoding than UTF-8.
pub open spec fn readable(data: Seq<u8>, limit: int) -> Option<Seq<char>> {
    if data.len() == 0 || data.len() > limit || looks_binary(data) {
        None
    } else {
        text_of(data)
    }
}

pub fn readable_text(data: &[u8], limit: u64) -> (r: Option<&str>)
    ensures
        match r {
            Some(s) => readable(data@, limit as int) == Some(s@),
            None => readable(data@, limit as int) is None,
        },
{
    if data.len() == 0 || data.len() as u64 > limit || is_probably_binary(data) {
        return None;
    }
    as_text(data)
}

/// Data is binary where a zero byte stands among its first eight thousand and
/// some bytes, and only there.
pub proof fn zero_bytes_make_binary(data: Seq<u8>, i: int)
    requires
        0 <= i < data.len(),
        data[i] == 0,
    ensures
        i < 8192 ==> looks_binary(data),
        (forall|k: int| 0 <= k < data.len() && k < 8192 ==> #[trigger] data[k] != 0)
            ==> !looks_binary(data),
{
}

/// What is read is the text of data that is neither empty, nor larger than the
/// limit, nor binary, nor in another encoding.
pub proof fn only_text_is_readable(data: Seq<u8>, limit: int)
    ensures
        readable(data, limit) is Some <==> 0 < data.len() <= limit && !looks_binary(data)
            && vstd::utf8::valid_utf8(data),
        readable(data, limit) is Some ==> readable(data, limit) == Some(
            vstd::utf8::decode_utf8(data),
        ),
        text_of(data) is Some <==> vstd::utf8::valid_utf8(data),
{
}

/// The limits that hold here.
pub proof fn the_limits_are_these()
    ensures
        SAMPLE_BYTES == 8192,
{
}

} // verus!
