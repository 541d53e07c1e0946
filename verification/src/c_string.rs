//! NUL-terminated byte strings.
//!
//! A reader on the C side learns the length of a string by scanning for the first NUL byte.
//! A buffer is therefore only a faithful copy of a text when the text holds no NUL itself and
//! the buffer ends right after its terminator.

use vstd::prelude::*;

verus! {

/// The byte that ends a C string.
pub const NUL: u8 = 0;

/// Whether `text` holds a NUL byte somewhere.
pub open spec fn has_nul(text: Seq<u8>) -> bool {
    exists|i: int| 0 <= i < text.len() && #[trigger] text[i] == NUL
}

/// The buffer that carries `text` across the boundary: the text and one terminator.
pub open spec fn c_string_of(text: Seq<u8>) -> Seq<u8> {
    text.push(NUL)
}

/// A buffer whose only NUL is its last byte.
pub open spec fn is_c_string(buf: Seq<u8>) -> bool {
    &&& buf.len() >= 1
    &&& buf.last() == NUL
    &&& !has_nul(buf.drop_last())
}

/// What a C reader takes the string in `buf` to be: the bytes before the first NUL.
/// A buffer without a NUL has no reading; the whole buffer stands in for it.
pub open spec fn c_text(buf: Seq<u8>) -> Seq<u8> {
    match buf.index_of_first(NUL) {
        Some(n) => buf.take(n),
        None => buf,
    }
}

/// The number of bytes that a release by `strlen` hands back to the allocator:
/// the bytes before the first NUL and the NUL itself.
pub open spec fn c_alloc_len(buf: Seq<u8>) -> int {
    match buf.index_of_first(NUL) {
        Some(n) => n + 1,
        None => buf.len() as int,
    }
}

/// The terminator of a C string is its first NUL.
pub proof fn lemma_first_nul_is_terminator(buf: Seq<u8>)
    requires
        is_c_string(buf),
    ensures
        buf.index_of_first(NUL) == Some(buf.len() - 1),
{
    buf.index_of_first_ensures(NUL);
    let last = buf.len() - 1;
    assert(buf[last] == NUL);
    match buf.index_of_first(NUL) {
        Some(n) => {
            if n < last {
                assert(buf.drop_last()[n] == NUL);
            }
        },
        None => {},
    }
}

/// A text without NUL, once terminated, is a C string that reads back as the text
/// and is released with the length it was allocated with.
pub proof fn lemma_c_string_round_trip(text: Seq<u8>)
    requires
        !has_nul(text),
    ensures
        is_c_string(c_string_of(text)),
        c_text(c_string_of(text)) == text,
        c_alloc_len(c_string_of(text)) == c_string_of(text).len(),
{
    let buf = c_string_of(text);
    assert(buf.drop_last() =~= text);
    lemma_first_nul_is_terminator(buf);
    assert(buf.take(buf.len() - 1) =~= text);
}

/// A C string is the terminated form of the text that is read from it.
pub proof fn lemma_c_string_is_terminated_text(buf: Seq<u8>)
    requires
        is_c_string(buf),
    ensures
        !has_nul(c_text(buf)),
        buf == c_string_of(c_text(buf)),
        c_alloc_len(buf) == buf.len(),
{
    lemma_first_nul_is_terminator(buf);
    assert(buf.take(buf.len() - 1) =~= buf.drop_last());
    assert(buf.drop_last().push(NUL) =~= buf);
}

/// A text with a NUL inside cannot cross the boundary whole: a C reader stops early.
pub proof fn lemma_embedded_nul_truncates(text: Seq<u8>)
    requires
        has_nul(text),
    ensures
        c_text(c_string_of(text)).len() < text.len(),
{
    let buf = c_string_of(text);
    buf.index_of_first_ensures(NUL);
    let i = choose|i: int| 0 <= i < text.len() && #[trigger] text[i] == NUL;
    assert(buf[i] == NUL);
    match buf.index_of_first(NUL) {
        Some(n) => {
            if n > i {
                assert(buf[i] != NUL);
            }
        },
        None => {},
    }
}

/// Tells whether `bytes` holds a NUL byte.
pub fn contains_nul(bytes: &[u8]) -> (found: bool)
    ensures
        found == has_nul(bytes@),
{
    let mut i: usize = 0;
    while i < bytes.len()
        invariant
            i <= bytes.len(),
            forall|j: int| 0 <= j < i ==> bytes@[j] != NUL,
        decreases bytes.len() - i,
    {
        if bytes[i] == NUL {
            return true;
        }
        i += 1;
    }
    false
}

/// An independent copy of `bytes`.
pub fn copy_bytes(bytes: &[u8]) -> (copy: Vec<u8>)
    ensures
        copy@ == bytes@,
{
    let mut copy: Vec<u8> = Vec::with_capacity(bytes.len());
    let mut i: usize = 0;
    while i < bytes.len()
        invariant
            i <= bytes.len(),
            copy@ == bytes@.take(i as int),
        decreases bytes.len() - i,
    {
        copy.push(bytes[i]);
        assert(bytes@.take(i as int).push(bytes@[i as int]) =~= bytes@.take(i + 1));
        i += 1;
    }
    assert(bytes@.take(bytes@.len() as int) =~= bytes@);
    copy
}

/// Copies `text` into a NUL-terminated buffer of its own.
///
/// A text that holds a NUL byte has no such buffer: nothing is allocated for it.
pub fn to_c_string(text: &[u8]) -> (out: Option<Vec<u8>>)
    ensures
        out is None <==> has_nul(text@),
        out matches Some(buf) ==> buf@ == c_string_of(text@) && is_c_string(buf@),
{
    if contains_nul(text) {
        return None;
    }
    let mut buf = copy_bytes(text);
    buf.push(NUL);
    proof {
        lemma_c_string_round_trip(text@);
    }
    Some(buf)
}

} // verus!
