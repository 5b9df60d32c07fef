//! Byte-level layout of operands: little-endian 64-bit patterns and
//! NUL-terminated UTF-8 text.

use vstd::prelude::*;
use vstd::slice::{slice_subrange, slice_to_vec};
use vstd::utf8::*;

verus! {

/// The eight bits of `bits` that start at bit `shift`.
pub open spec fn octet(bits: u64, shift: u64) -> u8 {
    ((bits >> shift) & 0xff) as u8
}

/// The eight bytes of a 64-bit pattern, least significant byte first.
pub open spec fn le_bytes(bits: u64) -> Seq<u8> {
    seq![
        octet(bits, 0),
        octet(bits, 8),
        octet(bits, 16),
        octet(bits, 24),
        octet(bits, 32),
        octet(bits, 40),
        octet(bits, 48),
        octet(bits, 56),
    ]
}

/// The 64-bit pattern whose little-endian bytes are the first eight of `bytes`.
pub open spec fn le_value(bytes: Seq<u8>) -> u64
    recommends
        bytes.len() >= 8,
{
    (bytes[0] as u64) | ((bytes[1] as u64) << 8) | ((bytes[2] as u64) << 16) | ((bytes[3] as u64)
        << 24) | ((bytes[4] as u64) << 32) | ((bytes[5] as u64) << 40) | ((bytes[6] as u64) << 48)
        | ((bytes[7] as u64) << 56)
}

/// Reading back the little-endian bytes of a pattern gives the pattern, bit for bit.
pub proof fn lemma_le_round_trip(bits: u64)
    ensures
        le_bytes(bits).len() == 8,
        le_value(le_bytes(bits)) == bits,
{
    let b0 = (bits & 0xff);
    let b1 = ((bits >> 8) & 0xff);
    let b2 = ((bits >> 16) & 0xff);
    let b3 = ((bits >> 24) & 0xff);
    let b4 = ((bits >> 32) & 0xff);
    let b5 = ((bits >> 40) & 0xff);
    let b6 = ((bits >> 48) & 0xff);
    let b7 = ((bits >> 56) & 0xff);
    assert(bits >> 0 == bits) by (bit_vector);
    assert(b0 < 256 && b1 < 256 && b2 < 256 && b3 < 256 && b4 < 256 && b5 < 256 && b6 < 256 && b7
        < 256) by (bit_vector)
        requires
            b0 == (bits & 0xff),
            b1 == ((bits >> 8) & 0xff),
            b2 == ((bits >> 16) & 0xff),
            b3 == ((bits >> 24) & 0xff),
            b4 == ((bits >> 32) & 0xff),
            b5 == ((bits >> 40) & 0xff),
            b6 == ((bits >> 48) & 0xff),
            b7 == ((bits >> 56) & 0xff),
    ;
    assert(bits == b0 | (b1 << 8) | (b2 << 16) | (b3 << 24) | (b4 << 32) | (b5 << 40) | (b6 << 48)
        | (b7 << 56)) by (bit_vector)
        requires
            b0 == (bits & 0xff),
            b1 == ((bits >> 8) & 0xff),
            b2 == ((bits >> 16) & 0xff),
            b3 == ((bits >> 24) & 0xff),
            b4 == ((bits >> 32) & 0xff),
            b5 == ((bits >> 40) & 0xff),
            b6 == ((bits >> 48) & 0xff),
            b7 == ((bits >> 56) & 0xff),
    ;
    let s = le_bytes(bits);
    assert(s[0] as u64 == b0);
    assert(s[1] as u64 == b1);
    assert(s[2] as u64 == b2);
    assert(s[3] as u64 == b3);
    assert(s[4] as u64 == b4);
    assert(s[5] as u64 == b5);
    assert(s[6] as u64 == b6);
    assert(s[7] as u64 == b7);
}

fn octet_of(bits: u64, shift: u64) -> (r: u8)
    requires
        shift < 64,
    ensures
        r == octet(bits, shift),
{
    let low: u64 = (bits >> shift) & 0xff;
    assert(low < 256) by (bit_vector)
        requires
            low == (bits >> shift) & 0xff,
    ;
    low as u8
}

/// Appends the little-endian bytes of `bits` to `buf`.
pub fn push_le_bytes(buf: &mut Vec<u8>, bits: u64)
    ensures
        final(buf)@ == old(buf)@ + le_bytes(bits),
{
    buf.push(octet_of(bits, 0));
    buf.push(octet_of(bits, 8));
    buf.push(octet_of(bits, 16));
    buf.push(octet_of(bits, 24));
    buf.push(octet_of(bits, 32));
    buf.push(octet_of(bits, 40));
    buf.push(octet_of(bits, 48));
    buf.push(octet_of(bits, 56));
}

/// The UTF-8 bytes of `text` followed by the terminator byte 0x00.
pub open spec fn terminated(text: Seq<char>) -> Seq<u8> {
    encode_utf8(text).push(0u8)
}

/// No character of `text` is U+0000, so its terminated form holds exactly
/// one zero byte: the terminator.
pub open spec fn nul_free(text: Seq<char>) -> bool {
    forall|i: int| 0 <= i < text.len() ==> text[i] != '\0'
}

/// Splits a terminated text off the front of `bytes`: the characters before
/// the first zero byte, and the number of bytes taken, terminator counted.
/// `None` where `bytes` holds no zero byte, or the bytes before it are not
/// UTF-8.
pub open spec fn read_terminated(bytes: Seq<u8>) -> Option<(Seq<char>, int)> {
    match bytes.index_of_first(0u8) {
        Some(k) => if valid_utf8(bytes.take(k)) {
            Some((decode_utf8(bytes.take(k)), k + 1))
        } else {
            None
        },
        None => None,
    }
}

proof fn lemma_scalar_bytes_nonzero(scalar: u32)
    requires
        is_scalar(scalar),
        scalar != 0,
    ensures
        forall|i: int| 0 <= i < encode_scalar(scalar).len() ==> encode_scalar(scalar)[i] != 0,
{
    assert(forall|x: u8| #![auto] (0x80u8 | x) != 0) by (bit_vector);
    assert(forall|x: u8| #![auto] (0xC0u8 | x) != 0) by (bit_vector);
    assert(forall|x: u8| #![auto] (0xE0u8 | x) != 0) by (bit_vector);
    assert(forall|x: u8| #![auto] (0xF0u8 | x) != 0) by (bit_vector);
    if has_width_1_encoding(scalar) {
        assert(scalar & 0x7F == scalar) by (bit_vector)
            requires
                scalar <= 0x7F,
        ;
    }
}

/// The UTF-8 bytes of a text without U+0000 hold no zero byte.
pub proof fn lemma_nul_free_bytes(text: Seq<char>)
    requires
        nul_free(text),
    ensures
        forall|i: int| 0 <= i < encode_utf8(text).len() ==> encode_utf8(text)[i] != 0,
    decreases text.len(),
{
    if text.len() > 0 {
        let head = text[0] as u32;
        char_is_scalar(text[0]);
        if head == 0 {
            char_u32_cast(text[0], head);
            assert(text[0] == '\0');
        }
        lemma_scalar_bytes_nonzero(head);
        assert(nul_free(text.drop_first())) by {
            assert forall|i: int| 0 <= i < text.drop_first().len() implies text.drop_first()[i]
                != '\0' by {
                assert(text.drop_first()[i] == text[i + 1]);
            }
        }
        lemma_nul_free_bytes(text.drop_first());
        let first = encode_scalar(head);
        let others = encode_utf8(text.drop_first());
        assert(encode_utf8(text) == first + others);
        assert forall|i: int| 0 <= i < encode_utf8(text).len() implies encode_utf8(text)[i]
            != 0 by {
            if i < first.len() {
                assert((first + others)[i] == first[i]);
            } else {
                assert((first + others)[i] == others[i - first.len()]);
            }
        }
    }
}

/// The UTF-8 bytes of a text that holds U+0000 hold a zero byte.
pub proof fn lemma_nul_shows_in_bytes(text: Seq<char>, at: int)
    requires
        0 <= at < text.len(),
        text[at] == '\0',
    ensures
        encode_utf8(text).contains(0u8),
    decreases text.len(),
{
    let first = encode_scalar(text[0] as u32);
    let others = encode_utf8(text.drop_first());
    assert(encode_utf8(text) == first + others);
    char_is_scalar(text[0]);
    if at == 0 {
        assert(0u32 & 0x7F == 0) by (bit_vector);
        assert((first + others)[0] == 0u8);
    } else {
        assert(text.drop_first()[at - 1] == text[at]);
        lemma_nul_shows_in_bytes(text.drop_first(), at - 1);
        let k = choose|k: int| 0 <= k < others.len() && others[k] == 0u8;
        assert((first + others)[first.len() + k] == others[k]);
    }
}

/// Whether `s` holds no U+0000.
pub fn is_nul_free(s: &str) -> (free: bool)
    ensures
        free == nul_free(s@),
{
    let bytes = s.as_bytes();
    let mut i: usize = 0;
    while i < bytes.len()
        invariant
            i <= bytes.len(),
            bytes@ == encode_utf8(s@),
            forall|j: int| 0 <= j < i ==> bytes@[j] != 0,
        decreases bytes.len() - i,
    {
        if bytes[i] == 0 {
            proof {
                if nul_free(s@) {
                    lemma_nul_free_bytes(s@);
                }
            }
            return false;
        }
        i += 1;
    }
    proof {
        if !nul_free(s@) {
            let at = choose|at: int| 0 <= at < s@.len() && s@[at] == '\0';
            lemma_nul_shows_in_bytes(s@, at);
        }
    }
    true
}

/// A reader that splits at the first zero byte gets back every terminated
/// text that holds no U+0000, whatever follows it.
pub proof fn lemma_terminated_round_trip(text: Seq<char>, rest: Seq<u8>)
    requires
        nul_free(text),
    ensures
        read_terminated(terminated(text) + rest) == Some(
            (text, terminated(text).len() as int),
        ),
{
    let body = encode_utf8(text);
    let bytes = terminated(text) + rest;
    let k = body.len() as int;
    lemma_nul_free_bytes(text);
    assert(bytes[k] == 0u8);
    assert(forall|j: int| 0 <= j < k ==> bytes[j] == body[j]);
    bytes.index_of_first_ensures(0u8);
    assert(bytes.contains(0u8));
    assert(bytes.index_of_first(0u8) == Some(k));
    assert(bytes.take(k) =~= body);
    encode_utf8_valid_utf8(text);
    encode_utf8_decode_utf8(text);
}

/// The text that `bytes` spell in UTF-8, if they spell one.
///
/// This is `String::from_utf8` of the standard library, with the error
/// dropped. Its contract is taken on trust: the call succeeds exactly on
/// well-formed UTF-8, and the bytes of the string it gives are the bytes
/// that went in.
#[verifier::external_body]
fn text_of(bytes: Vec<u8>) -> (text: Option<String>)
    ensures
        text is Some <==> valid_utf8(bytes@),
        text matches Some(s) ==> encode_utf8(s@) == bytes@,
{
    String::from_utf8(bytes).ok()
}

/// The 64-bit pattern whose little-endian bytes stand at `bytes[from..]`.
pub fn read_le_value(bytes: &[u8], from: usize) -> (bits: u64)
    requires
        from + 8 <= bytes.len(),
    ensures
        bits == le_value(bytes@.skip(from as int)),
{
    (bytes[from] as u64) | ((bytes[from + 1] as u64) << 8) | ((bytes[from + 2] as u64) << 16) | ((
    bytes[from + 3] as u64) << 24) | ((bytes[from + 4] as u64) << 32) | ((bytes[from + 5] as u64)
        << 40) | ((bytes[from + 6] as u64) << 48) | ((bytes[from + 7] as u64) << 56)
}

/// Reads the terminated text that starts at `bytes[from..]`: the text, and
/// the number of bytes it takes with its terminator.
pub fn read_text(bytes: &[u8], from: usize) -> (found: Option<(String, usize)>)
    requires
        from <= bytes.len(),
    ensures
        match read_terminated(bytes@.skip(from as int)) {
            Some((text, taken)) => found matches Some((s, n)) && s@ == text && n == taken,
            None => found is None,
        },
        found matches Some((_, n)) ==> 1 <= n <= bytes.len() - from,
{
    let ghost tail = bytes@.skip(from as int);
    let mut end: usize = from;
    while end < bytes.len() && bytes[end] != 0
        invariant
            from <= end <= bytes.len(),
            tail == bytes@.skip(from as int),
            forall|j: int| 0 <= j < end - from ==> tail[j] != 0,
        decreases bytes.len() - end,
    {
        end += 1;
    }
    proof {
        tail.index_of_first_ensures(0u8);
    }
    if end == bytes.len() {
        assert(!tail.contains(0u8));
        return None;
    }
    proof {
        assert(tail[end - from] == 0u8);
        assert(tail.contains(0u8));
        assert(tail.index_of_first(0u8) == Some(end - from));
        assert(bytes@.subrange(from as int, end as int) =~= tail.take(end - from));
    }
    let raw = slice_to_vec(slice_subrange(bytes, from, end));
    match text_of(raw) {
        Some(text) => {
            proof {
                encode_utf8_decode_utf8(text@);
            }
            Some((text, end - from + 1))
        },
        None => None,
    }
}

} // verus!
