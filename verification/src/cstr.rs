//! Nul-terminated names inside byte buffers.
use vstd::prelude::*;
use vstd::string::StringSliceAdditionalSpecFns;
use vstd::utf8::{encode_scalar, encode_utf8, has_width_1_encoding, valid_utf8};

verus! {

/// The index of the first zero byte of `bytes` at or after `from`, or the
/// length of `bytes` if there is none.
pub open spec fn nul_index(bytes: Seq<u8>, from: int) -> int
    decreases bytes.len() - from,
{
    if from >= bytes.len() {
        bytes.len() as int
    } else if bytes[from] == 0 {
        from
    } else {
        nul_index(bytes, from + 1)
    }
}

/// Whether a zero byte closes the name that starts at `from`.
pub open spec fn terminated(bytes: Seq<u8>, from: int) -> bool {
    nul_index(bytes, from) < bytes.len()
}

/// The bytes of the name that starts at `from`, without its terminator.
pub open spec fn c_str_at(bytes: Seq<u8>, from: int) -> Seq<u8> {
    bytes.subrange(from, nul_index(bytes, from))
}

/// [`nul_index`] finds a zero byte with no zero byte before it.
pub proof fn lemma_nul_index(bytes: Seq<u8>, from: int)
    requires
        0 <= from <= bytes.len(),
    ensures
        from <= nul_index(bytes, from) <= bytes.len(),
        forall|i: int| from <= i < nul_index(bytes, from) ==> bytes[i] != 0,
        nul_index(bytes, from) < bytes.len() ==> bytes[nul_index(bytes, from)] == 0,
    decreases bytes.len() - from,
{
    if from < bytes.len() && bytes[from] != 0 {
        lemma_nul_index(bytes, from + 1);
    }
}

/// An index with no zero byte between `from` and it, which holds a zero byte
/// or is the end of `bytes`, is the one that [`nul_index`] finds.
pub proof fn lemma_nul_index_is(bytes: Seq<u8>, from: int, end: int)
    requires
        0 <= from <= end <= bytes.len(),
        forall|i: int| from <= i < end ==> bytes[i] != 0,
        end < bytes.len() ==> bytes[end] == 0,
    ensures
        nul_index(bytes, from) == end,
    decreases end - from,
{
    if from < end {
        lemma_nul_index_is(bytes, from + 1, end);
    }
}

/// The UTF-8 encoding of a character holds a zero byte only if the
/// character is NUL.
pub proof fn lemma_nul_scalar(c: char)
    ensures
        encode_scalar(c as u32).contains(0u8) <==> c == '\0',
{
    let s = c as u32;
    let bytes = encode_scalar(s);
    vstd::utf8::char_is_scalar(c);
    vstd::utf8::char_u32_cast(c, s);
    assert(forall|x: u8| 0xC0u8 | x != 0) by (bit_vector);
    assert(forall|x: u8| 0xE0u8 | x != 0) by (bit_vector);
    assert(forall|x: u8| 0xF0u8 | x != 0) by (bit_vector);
    assert(forall|x: u8| 0x80u8 | x != 0) by (bit_vector);
    if has_width_1_encoding(s) {
        assert(((s & 0x7F) as u8 == 0) == (s == 0)) by (bit_vector)
            requires
                s <= 0x7F,
        ;
        assert(bytes[0] == (s & 0x7F) as u8);
        if s == 0 {
            assert(bytes.contains(bytes[0]));
        }
    }
    assert(bytes.contains(0u8) ==> c == '\0') by {
        if bytes.contains(0u8) {
            let i = choose|i: int| 0 <= i < bytes.len() && bytes[i] == 0u8;
            assert(bytes[i] == 0u8);
        }
    }
}

/// A text holds the character NUL exactly if its UTF-8 encoding holds a zero
/// byte.
pub proof fn lemma_nul_char_is_nul_byte(text: Seq<char>)
    ensures
        encode_utf8(text).contains(0u8) <==> text.contains('\0'),
    decreases text.len(),
{
    if text.len() > 0 {
        let first = encode_scalar(text[0] as u32);
        let others = encode_utf8(text.drop_first());
        lemma_nul_scalar(text[0]);
        lemma_nul_char_is_nul_byte(text.drop_first());
        if text.contains('\0') {
            let i = choose|i: int| 0 <= i < text.len() && text[i] == '\0';
            if i == 0 {
                let j = choose|j: int| 0 <= j < first.len() && first[j] == 0u8;
                assert((first + others)[j] == 0u8);
            } else {
                assert(text.drop_first()[i - 1] == '\0');
                let j = choose|j: int| 0 <= j < others.len() && others[j] == 0u8;
                assert((first + others)[first.len() + j] == 0u8);
            }
        }
        if encode_utf8(text).contains(0u8) {
            let j = choose|j: int| 0 <= j < (first + others).len() && (first + others)[j] == 0u8;
            if j < first.len() {
                assert(first[j] == 0u8);
                assert(text[0] == '\0');
            } else {
                assert(others[j - first.len()] == 0u8);
                let i = choose|i: int|
                    0 <= i < text.drop_first().len() && text.drop_first()[i] == '\0';
                assert(text[i + 1] == '\0');
            }
        }
    }
}

/// Finds the terminator of the name that starts at `from`.
pub fn find_nul(bytes: &[u8], from: usize) -> (found: Option<usize>)
    ensures
        match found {
            Some(end) => terminated(bytes@, from as int) && end == nul_index(bytes@, from as int),
            None => !terminated(bytes@, from as int),
        },
{
    if from > bytes.len() {
        return None;
    }
    let mut at: usize = from;
    while at < bytes.len()
        invariant
            from <= at <= bytes.len(),
            nul_index(bytes@, from as int) == nul_index(bytes@, at as int),
        decreases bytes.len() - at,
    {
        if bytes[at] == 0 {
            return Some(at);
        }
        at = at + 1;
    }
    None
}

/// Whether `bytes` holds a zero byte.
pub fn contains_nul(bytes: &[u8]) -> (found: bool)
    ensures
        found == bytes@.contains(0u8),
{
    proof {
        lemma_nul_index(bytes@, 0);
    }
    find_nul(bytes, 0).is_some()
}

/// Whether two byte strings are the same.
pub fn bytes_eq(a: &[u8], b: &[u8]) -> (same: bool)
    ensures
        same == (a@ == b@),
{
    if a.len() != b.len() {
        return false;
    }
    let mut at: usize = 0;
    while at < a.len()
        invariant
            a.len() == b.len(),
            at <= a.len(),
            forall|i: int| 0 <= i < at ==> a@[i] == b@[i],
        decreases a.len() - at,
    {
        if a[at] != b[at] {
            return false;
        }
        at = at + 1;
    }
    assert(a@ =~= b@);
    true
}

/// Calls `core::str::from_utf8`. Trusted: the call succeeds exactly on the
/// byte strings that are valid UTF-8, and the text it hands back is made of
/// the very bytes it was given.
#[verifier::external_body]
pub(crate) fn str_from_utf8<'a>(bytes: &'a [u8]) -> (text: Option<&'a str>)
    ensures
        text is Some <==> valid_utf8(bytes@),
        text matches Some(s) ==> s.spec_bytes() == bytes@,
{
    match core::str::from_utf8(bytes) {
        Ok(s) => Some(s),
        Err(_) => None,
    }
}

} // verus!
