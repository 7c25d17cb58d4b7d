//! Decoding of raw native byte payloads into strings.
//!
//! String fields and diagnostic messages arrive from the native side as raw
//! byte sequences. They are decoded as UTF-8; each maximal ill-formed subpart
//! (the longest prefix of some scalar's well-formed encoding that cannot be
//! completed, at least one byte) is replaced by one replacement character
//! U+FFFD, so that decoding is total and never truncates the rest of the
//! field.

use vstd::prelude::*;
use vstd::utf8::*;

verus! {

broadcast use vstd::seq::group_seq_axioms;

/// The UTF-8 encoding of the replacement character U+FFFD.
pub open spec fn replacement_bytes() -> Seq<u8> {
    seq![0xEFu8, 0xBFu8, 0xBDu8]
}

/// The bytes up to, and not including, the first zero byte: the portion of a
/// native C string buffer that its terminator delimits.
pub open spec fn nul_prefix(bytes: Seq<u8>) -> Seq<u8>
    decreases bytes.len(),
{
    if bytes.len() == 0 {
        Seq::empty()
    } else if bytes[0] == 0 {
        Seq::empty()
    } else {
        seq![bytes[0]] + nul_prefix(bytes.skip(1))
    }
}

/// Whether a second byte may follow the given leading byte in a well-formed
/// multi-byte encoding: the constrained ranges that already exclude overlong
/// encodings, surrogates, and values past the last scalar.
pub open spec fn admissible_second_byte(b0: u8, b1: u8) -> bool {
    if 0xC2 <= b0 <= 0xDF {
        is_continuation_byte(b1)
    } else if b0 == 0xE0 {
        0xA0 <= b1 <= 0xBF
    } else if 0xE1 <= b0 <= 0xEC || 0xEE <= b0 <= 0xEF {
        is_continuation_byte(b1)
    } else if b0 == 0xED {
        0x80 <= b1 <= 0x9F
    } else if b0 == 0xF0 {
        0x90 <= b1 <= 0xBF
    } else if 0xF1 <= b0 <= 0xF3 {
        is_continuation_byte(b1)
    } else if b0 == 0xF4 {
        0x80 <= b1 <= 0x8F
    } else {
        false
    }
}

/// How many bytes the maximal ill-formed subpart at the start of the
/// sequence holds: the longest prefix of some scalar's well-formed encoding,
/// and at least one byte.
pub open spec fn invalid_seq_len(bytes: Seq<u8>) -> int
    recommends
        bytes.len() > 0,
{
    if bytes.len() >= 2 && admissible_second_byte(bytes[0], bytes[1]) {
        if 0xF0 <= bytes[0] && bytes.len() >= 3 && is_continuation_byte(bytes[2]) {
            3
        } else {
            2
        }
    } else {
        1
    }
}

/// The input bytes with each maximal ill-formed subpart replaced by the
/// encoding of U+FFFD, the substitution a replacing UTF-8 decoder performs.
/// Valid input is kept unchanged; the result is always valid UTF-8.
pub open spec fn sanitize_utf8(bytes: Seq<u8>) -> Seq<u8>
    decreases bytes.len(),
{
    if bytes.len() == 0 {
        Seq::empty()
    } else if valid_first_scalar(bytes) {
        take_first_scalar(bytes) + sanitize_utf8(pop_first_scalar(bytes))
    } else {
        replacement_bytes() + sanitize_utf8(bytes.skip(invalid_seq_len(bytes)))
    }
}

/// The characters a raw byte payload decodes to: UTF-8, with each maximal
/// ill-formed subpart replaced rather than rejected.
pub open spec fn lossy_chars(bytes: Seq<u8>) -> Seq<char> {
    decode_utf8(sanitize_utf8(bytes))
}

/// Whether a valid UTF-8 scalar encoding starts at position `i`: its width
/// in bytes if one does, and otherwise the width of the maximal ill-formed
/// subpart to skip.
fn scalar_len_at(bytes: &Vec<u8>, i: usize) -> (r: Result<usize, usize>)
    requires
        i < bytes@.len(),
    ensures
        (r matches Ok(l) ==> {
            &&& valid_first_scalar(bytes@.skip(i as int))
            &&& l == length_of_first_scalar(bytes@.skip(i as int))
            &&& 1 <= l <= 4
            &&& i + l <= bytes@.len()
        }),
        (r matches Err(s) ==> {
            &&& !valid_first_scalar(bytes@.skip(i as int))
            &&& s == invalid_seq_len(bytes@.skip(i as int))
            &&& 1 <= s <= 3
            &&& i + s <= bytes@.len()
        }),
{
    let ghost tail = bytes@.skip(i as int);
    let n: usize = bytes.len();
    let b0 = bytes[i];
    proof {
        assert(tail.len() == n - i);
        assert(tail[0] == b0);
    }
    if b0 < 0x80 {
        proof {
            assert(b0 < 0x80 ==> ((b0 & 0x7F) as u32) < 0xD800 && !(0x80 <= ((b0 & 0x7F) as u32)))
                by (bit_vector);
        }
        Ok(1)
    } else if b0 < 0xC2 {
        proof {
            if tail.len() >= 2 && 0xC0 <= b0 && is_continuation_byte(tail[1]) {
                let b1 = tail[1];
                assert(0xC0 <= b0 < 0xC2 && 0x80 <= b1 <= 0xBF ==> ((((b0 & 0x1F) as u32) << 6)
                    | ((b1 & 0x3F) as u32)) < 0x80) by (bit_vector);
            }
        }
        Err(1)
    } else if b0 < 0xE0 {
        if n - i >= 2 {
            let b1 = bytes[i + 1];
            proof {
                assert(tail[1] == b1);
            }
            if 0x80 <= b1 && b1 <= 0xBF {
                proof {
                    assert(0xC2 <= b0 < 0xE0 && 0x80 <= b1 <= 0xBF ==> 0x80 <= ((((b0
                        & 0x1F) as u32) << 6) | ((b1 & 0x3F) as u32)) <= 0x7FF) by (bit_vector);
                }
                return Ok(2);
            }
        }
        Err(1)
    } else if b0 < 0xF0 {
        let adm = if n - i >= 2 {
            let b1 = bytes[i + 1];
            proof {
                assert(tail[1] == b1);
            }
            if b0 == 0xE0 {
                0xA0 <= b1 && b1 <= 0xBF
            } else if b0 == 0xED {
                0x80 <= b1 && b1 <= 0x9F
            } else {
                0x80 <= b1 && b1 <= 0xBF
            }
        } else {
            false
        };
        if adm {
            let b1 = bytes[i + 1];
            if n - i >= 3 && 0x80 <= bytes[i + 2] && bytes[i + 2] <= 0xBF {
                let b2 = bytes[i + 2];
                proof {
                    assert(tail[1] == b1);
                    assert(tail[2] == b2);
                    assert(0xE0 <= b0 < 0xF0 && 0x80 <= b1 <= 0xBF && 0x80 <= b2 <= 0xBF && !(b0
                        == 0xE0 && b1 < 0xA0) && !(b0 == 0xED && b1 > 0x9F) ==> {
                        let cp = (((b0 & 0x0F) as u32) << 12) | (((b1 & 0x3F) as u32) << 6) | ((b2
                            & 0x3F) as u32);
                        0x800 <= cp && !(0xD800 <= cp <= 0xDFFF)
                    }) by (bit_vector);
                }
                Ok(3)
            } else {
                // an admissible second byte, but no third: skip the two-byte subpart
                Err(2)
            }
        } else {
            proof {
                if tail.len() >= 2 && is_continuation_byte(tail[1]) && tail.len() >= 3
                    && is_continuation_byte(tail[2]) {
                    let b1 = tail[1];
                    let b2 = tail[2];
                    assert(b0 == 0xE0 && 0x80 <= b1 < 0xA0 && 0x80 <= b2 <= 0xBF ==> ((((b0
                        & 0x0F) as u32) << 12) | (((b1 & 0x3F) as u32) << 6) | ((b2
                        & 0x3F) as u32)) < 0x800) by (bit_vector);
                    assert(b0 == 0xED && 0x9F < b1 <= 0xBF && 0x80 <= b2 <= 0xBF ==> 0xD800 <= ((((
                    b0 & 0x0F) as u32) << 12) | (((b1 & 0x3F) as u32) << 6) | ((b2
                        & 0x3F) as u32)) <= 0xDFFF) by (bit_vector);
                }
            }
            Err(1)
        }
    } else if b0 < 0xF5 {
        let adm = if n - i >= 2 {
            let b1 = bytes[i + 1];
            proof {
                assert(tail[1] == b1);
            }
            if b0 == 0xF0 {
                0x90 <= b1 && b1 <= 0xBF
            } else if b0 == 0xF4 {
                0x80 <= b1 && b1 <= 0x8F
            } else {
                0x80 <= b1 && b1 <= 0xBF
            }
        } else {
            false
        };
        if adm {
            let b1 = bytes[i + 1];
            if n - i >= 3 && 0x80 <= bytes[i + 2] && bytes[i + 2] <= 0xBF {
                let b2 = bytes[i + 2];
                proof {
                    assert(tail[2] == b2);
                }
                if n - i >= 4 && 0x80 <= bytes[i + 3] && bytes[i + 3] <= 0xBF {
                    let b3 = bytes[i + 3];
                    proof {
                        assert(tail[1] == b1);
                        assert(tail[3] == b3);
                        assert(0xF0 <= b0 < 0xF5 && 0x80 <= b1 <= 0xBF && 0x80 <= b2 <= 0xBF
                            && 0x80 <= b3 <= 0xBF && !(b0 == 0xF0 && b1 < 0x90) && !(b0 == 0xF4
                            && b1 > 0x8F) ==> {
                            let cp = (((b0 & 0x07) as u32) << 18) | (((b1 & 0x3F) as u32) << 12) | (
                            ((b2 & 0x3F) as u32) << 6) | ((b3 & 0x3F) as u32);
                            0x10000 <= cp <= 0x10FFFF
                        }) by (bit_vector);
                    }
                    Ok(4)
                } else {
                    // three bytes of a four-byte encoding: skip them as one subpart
                    Err(3)
                }
            } else {
                Err(2)
            }
        } else {
            proof {
                if tail.len() >= 4 && is_continuation_byte(tail[1]) && is_continuation_byte(
                    tail[2],
                ) && is_continuation_byte(tail[3]) {
                    let b1 = tail[1];
                    let b2 = tail[2];
                    let b3 = tail[3];
                    assert(b0 == 0xF0 && 0x80 <= b1 < 0x90 && 0x80 <= b2 <= 0xBF && 0x80 <= b3
                        <= 0xBF ==> ((((b0 & 0x07) as u32) << 18) | (((b1 & 0x3F) as u32) << 12)
                        | (((b2 & 0x3F) as u32) << 6) | ((b3 & 0x3F) as u32)) < 0x10000)
                        by (bit_vector);
                    assert(b0 == 0xF4 && 0x8F < b1 <= 0xBF && 0x80 <= b2 <= 0xBF && 0x80 <= b3
                        <= 0xBF ==> ((((b0 & 0x07) as u32) << 18) | (((b1 & 0x3F) as u32) << 12)
                        | (((b2 & 0x3F) as u32) << 6) | ((b3 & 0x3F) as u32)) > 0x10FFFF)
                        by (bit_vector);
                }
            }
            Err(1)
        }
    } else {
        proof {
            if tail.len() >= 4 && 0xF5 <= b0 <= 0xF7 && is_continuation_byte(tail[1])
                && is_continuation_byte(tail[2]) && is_continuation_byte(tail[3]) {
                let b1 = tail[1];
                let b2 = tail[2];
                let b3 = tail[3];
                assert(0xF5 <= b0 <= 0xF7 && 0x80 <= b1 <= 0xBF && 0x80 <= b2 <= 0xBF && 0x80 <= b3
                    <= 0xBF ==> ((((b0 & 0x07) as u32) << 18) | (((b1 & 0x3F) as u32) << 12) | (((
                b2 & 0x3F) as u32) << 6) | ((b3 & 0x3F) as u32)) > 0x10FFFF) by (bit_vector);
            }
        }
        Err(1)
    }
}

/// Relies on String::from_utf8: bytes that are valid UTF-8 convert to the
/// string of exactly the characters they encode.
#[verifier::external_body]
pub(crate) fn string_from_utf8(bytes: Vec<u8>) -> (r: String)
    requires
        valid_utf8(bytes@),
    ensures
        r@ == decode_utf8(bytes@),
{
    match String::from_utf8(bytes) {
        Ok(s) => s,
        Err(_) => String::new(),
    }
}

/// A copy of the bytes between the two positions.
fn copy_range(bytes: &Vec<u8>, start: usize, end: usize) -> (r: Vec<u8>)
    requires
        start <= end <= bytes@.len(),
    ensures
        r@ == bytes@.subrange(start as int, end as int),
{
    let mut r: Vec<u8> = Vec::new();
    let mut i: usize = start;
    while i < end
        invariant
            start <= i <= end <= bytes@.len(),
            r@ == bytes@.subrange(start as int, i as int),
        decreases end - i,
    {
        r.push(bytes[i]);
        i = i + 1;
        proof {
            assert(r@ =~= bytes@.subrange(start as int, i as int));
        }
    }
    proof {
        assert(r@ =~= bytes@.subrange(start as int, end as int));
    }
    r
}

/// The position of the first zero byte, or the length if there is none.
fn nul_index(bytes: &Vec<u8>) -> (r: usize)
    ensures
        r <= bytes@.len(),
        forall|k: int| 0 <= k < r ==> bytes@[k] != 0,
        r < bytes@.len() ==> bytes@[r as int] == 0,
{
    let mut i: usize = 0;
    while i < bytes.len()
        invariant
            i <= bytes@.len(),
            forall|k: int| 0 <= k < i ==> bytes@[k] != 0,
        decreases bytes@.len() - i,
    {
        if bytes[i] == 0 {
            return i;
        }
        i = i + 1;
    }
    i
}

/// Whether the bytes are a valid UTF-8 encoding.
pub fn check_valid_utf8(bytes: &Vec<u8>) -> (b: bool)
    ensures
        b == valid_utf8(bytes@),
{
    let mut i: usize = 0;
    proof {
        assert(bytes@.skip(0) =~= bytes@);
    }
    while i < bytes.len()
        invariant
            i <= bytes@.len(),
            valid_utf8(bytes@) == valid_utf8(bytes@.skip(i as int)),
        decreases bytes@.len() - i,
    {
        let ghost tail = bytes@.skip(i as int);
        match scalar_len_at(bytes, i) {
            Ok(l) => {
                proof {
                    assert(pop_first_scalar(tail) =~= bytes@.skip(i as int + l as int));
                }
                i = i + l;
            },
            Err(_) => {
                return false;
            },
        }
    }
    proof {
        assert(bytes@.skip(i as int) =~= Seq::<u8>::empty());
    }
    true
}

/// Decode raw bytes as UTF-8, replacing every byte at which no valid scalar
/// encoding starts with the replacement character.
pub fn lossy_string(bytes: &Vec<u8>) -> (r: String)
    ensures
        r@ == lossy_chars(bytes@),
{
    let mut out: Vec<u8> = Vec::new();
    let mut i: usize = 0;
    proof {
        assert(bytes@.skip(0) =~= bytes@);
        assert(out@ + sanitize_utf8(bytes@) =~= sanitize_utf8(bytes@));
    }
    while i < bytes.len()
        invariant
            i <= bytes@.len(),
            sanitize_utf8(bytes@) == out@ + sanitize_utf8(bytes@.skip(i as int)),
        decreases bytes@.len() - i,
    {
        let ghost tail = bytes@.skip(i as int);
        let ghost prev = out@;
        match scalar_len_at(bytes, i) {
            Ok(l) => {
                let mut k: usize = 0;
                proof {
                    assert(out@ =~= prev + bytes@.subrange(i as int, i as int));
                }
                while k < l
                    invariant
                        k <= l,
                        i + l <= bytes@.len(),
                        bytes@.len() <= usize::MAX,
                        out@ == prev + bytes@.subrange(i as int, i as int + k as int),
                    decreases l - k,
                {
                    out.push(bytes[i + k]);
                    k = k + 1;
                    proof {
                        assert(out@ =~= prev + bytes@.subrange(i as int, i as int + k as int));
                    }
                }
                proof {
                    assert(take_first_scalar(tail) =~= bytes@.subrange(
                        i as int,
                        i as int + l as int,
                    ));
                    assert(pop_first_scalar(tail) =~= bytes@.skip(i as int + l as int));
                    assert(out@ + sanitize_utf8(bytes@.skip(i as int + l as int)) =~= prev
                        + sanitize_utf8(tail));
                }
                i = i + l;
            },
            Err(s) => {
                out.push(0xEF);
                out.push(0xBF);
                out.push(0xBD);
                proof {
                    assert(tail.skip(s as int) =~= bytes@.skip(i as int + s as int));
                    assert(out@ + sanitize_utf8(bytes@.skip(i as int + s as int)) =~= prev
                        + sanitize_utf8(tail));
                }
                i = i + s;
            },
        }
    }
    proof {
        assert(bytes@.skip(i as int) =~= Seq::<u8>::empty());
        assert(out@ =~= sanitize_utf8(bytes@));
        lemma_sanitize_valid(bytes@);
    }
    string_from_utf8(out)
}

/// Decode the terminator-delimited portion of a native C string buffer,
/// replacing invalid UTF-8 rather than failing.
pub fn terminated_lossy_string(bytes: &Vec<u8>) -> (r: String)
    ensures
        r@ == lossy_chars(nul_prefix(bytes@)),
{
    let end: usize = nul_index(bytes);
    let prefix = copy_range(bytes, 0, end);
    proof {
        lemma_nul_prefix_is_take(bytes@, end as int);
        assert(bytes@.subrange(0, end as int) =~= bytes@.take(end as int));
    }
    lossy_string(&prefix)
}

/// A sequence holding exactly one scalar's encoding is valid UTF-8 and
/// decodes to that one scalar.
proof fn lemma_single_scalar(bytes: Seq<u8>)
    requires
        valid_first_scalar(bytes),
    ensures
        valid_utf8(take_first_scalar(bytes)),
        decode_utf8(take_first_scalar(bytes)) == seq![decode_first_scalar(bytes) as char],
{
    let t = take_first_scalar(bytes);
    let l = length_of_first_scalar(bytes);
    assert(forall|k: int| 0 <= k < l ==> t[k] == bytes[k]);
    assert(valid_first_scalar(t));
    assert(length_of_first_scalar(t) == l);
    assert(decode_first_scalar(t) == decode_first_scalar(bytes));
    assert(pop_first_scalar(t) =~= Seq::<u8>::empty());
    assert(valid_utf8(Seq::<u8>::empty()));
    assert(decode_utf8(Seq::<u8>::empty()) =~= Seq::<char>::empty());
    assert(valid_utf8(t));
    assert(decode_utf8(t) =~= seq![decode_first_scalar(bytes) as char]);
}

/// The replacement character's encoding is a single valid scalar that
/// decodes to U+FFFD.
proof fn lemma_replacement_valid()
    ensures
        valid_utf8(replacement_bytes()),
        decode_utf8(replacement_bytes()) == seq!['\u{FFFD}'],
{
    let s = replacement_bytes();
    assert(s[0] == 0xEFu8 && s[1] == 0xBFu8 && s[2] == 0xBDu8);
    assert(((((0xEFu8 & 0x0F) as u32) << 12) | (((0xBFu8 & 0x3F) as u32) << 6) | ((0xBDu8
        & 0x3F) as u32)) == 0xFFFD) by (bit_vector);
    assert(valid_first_scalar(s));
    assert(length_of_first_scalar(s) == 3);
    assert(decode_first_scalar(s) == 0xFFFD);
    assert(pop_first_scalar(s) =~= Seq::<u8>::empty());
    assert(valid_utf8(Seq::<u8>::empty()));
    assert(decode_utf8(Seq::<u8>::empty()) =~= Seq::<char>::empty());
    assert(valid_utf8(s));
    assert(('\u{FFFD}' as u32) == 0xFFFD);
    char_u32_cast('\u{FFFD}', 0xFFFD);
    assert(decode_utf8(s) =~= seq!['\u{FFFD}']);
}

/// Valid UTF-8 byte sequences decode compositionally: the decoding of a
/// concatenation is the concatenation of the decodings.
pub proof fn lemma_decode_concat(b1: Seq<u8>, b2: Seq<u8>)
    requires
        valid_utf8(b1),
        valid_utf8(b2),
    ensures
        valid_utf8(b1 + b2),
        decode_utf8(b1 + b2) == decode_utf8(b1) + decode_utf8(b2),
    decreases b1.len(),
{
    valid_utf8_concat(b1, b2);
    if b1.len() == 0 {
        assert(b1 + b2 =~= b2);
        assert(decode_utf8(b1 + b2) =~= decode_utf8(b1) + decode_utf8(b2));
    } else {
        let rest = pop_first_scalar(b1);
        let l = length_of_first_scalar(b1);
        assert(forall|k: int| 0 <= k < l ==> (b1 + b2)[k] == b1[k]);
        assert(valid_first_scalar(b1 + b2));
        assert(length_of_first_scalar(b1 + b2) == l);
        assert(decode_first_scalar(b1 + b2) == decode_first_scalar(b1));
        assert(pop_first_scalar(b1 + b2) =~= rest + b2);
        lemma_decode_concat(rest, b2);
        assert(decode_utf8(b1 + b2) =~= decode_utf8(b1) + decode_utf8(b2));
    }
}

/// Sanitizing always produces valid UTF-8.
pub proof fn lemma_sanitize_valid(bytes: Seq<u8>)
    ensures
        valid_utf8(sanitize_utf8(bytes)),
    decreases bytes.len(),
{
    if bytes.len() == 0 {
    } else if valid_first_scalar(bytes) {
        lemma_sanitize_valid(pop_first_scalar(bytes));
        lemma_single_scalar(bytes);
        valid_utf8_concat(take_first_scalar(bytes), sanitize_utf8(pop_first_scalar(bytes)));
    } else {
        lemma_sanitize_valid(bytes.skip(invalid_seq_len(bytes)));
        lemma_replacement_valid();
        valid_utf8_concat(replacement_bytes(), sanitize_utf8(bytes.skip(invalid_seq_len(bytes))));
    }
}

/// Sanitizing valid UTF-8 changes nothing, so such input decodes exactly.
pub proof fn lemma_sanitize_preserves_valid(bytes: Seq<u8>)
    requires
        valid_utf8(bytes),
    ensures
        sanitize_utf8(bytes) == bytes,
        lossy_chars(bytes) == decode_utf8(bytes),
    decreases bytes.len(),
{
    if bytes.len() == 0 {
        assert(sanitize_utf8(bytes) =~= bytes);
    } else {
        lemma_sanitize_preserves_valid(pop_first_scalar(bytes));
        assert(sanitize_utf8(bytes) =~= take_first_scalar(bytes) + pop_first_scalar(bytes));
        assert(take_first_scalar(bytes) + pop_first_scalar(bytes) =~= bytes);
    }
}

/// Input that is not valid UTF-8 never decodes silently: the result holds at
/// least one replacement character.
pub proof fn lemma_invalid_input_keeps_replacement(bytes: Seq<u8>)
    requires
        !valid_utf8(bytes),
    ensures
        lossy_chars(bytes).contains('\u{FFFD}'),
    decreases bytes.len(),
{
    if valid_first_scalar(bytes) {
        let head = take_first_scalar(bytes);
        let rest = pop_first_scalar(bytes);
        lemma_invalid_input_keeps_replacement(rest);
        lemma_single_scalar(bytes);
        lemma_sanitize_valid(rest);
        lemma_decode_concat(head, sanitize_utf8(rest));
        let i = choose|i: int|
            0 <= i < lossy_chars(rest).len() && lossy_chars(rest)[i] == '\u{FFFD}';
        assert(lossy_chars(bytes)[decode_utf8(head).len() + i] == '\u{FFFD}');
    } else {
        let rest = bytes.skip(invalid_seq_len(bytes));
        lemma_replacement_valid();
        lemma_sanitize_valid(rest);
        lemma_decode_concat(replacement_bytes(), sanitize_utf8(rest));
        assert(lossy_chars(bytes)[0] == '\u{FFFD}');
    }
}

/// The terminator-delimited prefix is the longest zero-free prefix.
proof fn lemma_nul_prefix_is_take(bytes: Seq<u8>, r: int)
    requires
        0 <= r <= bytes.len(),
        forall|k: int| 0 <= k < r ==> bytes[k] != 0,
        r < bytes.len() ==> bytes[r] == 0,
    ensures
        nul_prefix(bytes) == bytes.take(r),
    decreases r,
{
    if r == 0 {
        assert(nul_prefix(bytes) =~= bytes.take(0));
    } else {
        lemma_nul_prefix_is_take(bytes.skip(1), r - 1);
        assert(seq![bytes[0]] + bytes.skip(1).take(r - 1) =~= bytes.take(r));
    }
}

} // verus!
