//! Reversible hexadecimal text codec for wire fields.
//!
//! Every unsigned integer (32/64/128-bit) is carried on the wire as the text
//! `0x` followed by its minimal lowercase hexadecimal digits (`0x0` for zero),
//! and every byte string as `0x` followed by two digits per byte (`0x` alone
//! for the empty string). Encoding is canonical: one text per value, no
//! alternate case, no excess leading zeros. Decoding accepts upper- and
//! lowercase digits and excess leading zeros on integers, and rejects
//! everything else — a missing prefix, a non-digit, an odd digit count for a
//! byte string, a value out of range for its width — with
//! [`CodecError::MalformedEncoding`].

use vstd::prelude::*;

verus! {

/// Error returned when a wire text cannot be decoded.
#[derive(Clone, Copy, Debug, PartialEq, Eq)]
pub enum CodecError {
    /// The text is not a well-formed encoding, or the encoded value does not
    /// fit the requested width.
    MalformedEncoding,
}

/// ASCII `0`.
pub const ASCII_ZERO: u8 = 48;

/// ASCII `x`.
pub const ASCII_LOWER_X: u8 = 120;

/// The byte is an ASCII hexadecimal digit (either case).
pub open spec fn is_hex_digit(c: u8) -> bool {
    (48 <= c && c <= 57) || (97 <= c && c <= 102) || (65 <= c && c <= 70)
}

/// Numeric value of an ASCII hexadecimal digit.
pub open spec fn hex_val(c: u8) -> nat {
    if 48 <= c && c <= 57 {
        (c - 48) as nat
    } else if 97 <= c && c <= 102 {
        (c - 87) as nat
    } else if 65 <= c && c <= 70 {
        (c - 55) as nat
    } else {
        0
    }
}

/// The canonical (lowercase) digit for a value below 16.
pub open spec fn hex_digit_lower(v: nat) -> u8 {
    if v < 10 {
        (48 + v) as u8
    } else {
        (87 + v) as u8
    }
}

/// Every byte of the sequence is a hexadecimal digit.
pub open spec fn hex_seq_valid(s: Seq<u8>) -> bool {
    forall|i: int| 0 <= i < s.len() ==> is_hex_digit(#[trigger] s[i])
}

/// Value of a big-endian sequence of hexadecimal digits.
pub open spec fn hex_seq_value(s: Seq<u8>) -> nat
    decreases s.len(),
{
    if s.len() == 0 {
        0
    } else {
        hex_seq_value(s.drop_last()) * 16 + hex_val(s.last())
    }
}

/// Minimal lowercase digits of a value: no leading zero except for the value
/// zero itself, which is the single digit `0`.
pub open spec fn hex_digits_of(v: nat) -> Seq<u8>
    decreases v,
{
    if v < 16 {
        seq![hex_digit_lower(v)]
    } else {
        hex_digits_of(v / 16).push(hex_digit_lower(v % 16))
    }
}

/// Canonical wire text of an unsigned integer: `0x` + minimal digits.
pub open spec fn spec_encode_uint(v: nat) -> Seq<u8> {
    seq![ASCII_ZERO, ASCII_LOWER_X] + hex_digits_of(v)
}

/// Meaning of a wire text as an unsigned integer: `0x`, then at least one
/// digit. Excess leading zeros are accepted; width checks come later.
pub open spec fn spec_decode_uint(s: Seq<u8>) -> Option<nat> {
    if s.len() >= 3 && s[0] == ASCII_ZERO && s[1] == ASCII_LOWER_X && hex_seq_valid(s.skip(2)) {
        Some(hex_seq_value(s.skip(2)))
    } else {
        None
    }
}

/// Two canonical digits of one byte.
pub open spec fn byte_hex(b: u8) -> Seq<u8> {
    seq![hex_digit_lower((b / 16) as nat), hex_digit_lower((b % 16) as nat)]
}

/// Digits of a byte string, two per byte, in order.
pub open spec fn bytes_hex(s: Seq<u8>) -> Seq<u8>
    decreases s.len(),
{
    if s.len() == 0 {
        Seq::empty()
    } else {
        bytes_hex(s.drop_last()) + byte_hex(s.last())
    }
}

/// Canonical wire text of a byte string: `0x` + two digits per byte.
pub open spec fn spec_encode_bytes(s: Seq<u8>) -> Seq<u8> {
    seq![ASCII_ZERO, ASCII_LOWER_X] + bytes_hex(s)
}

/// Bytes read from an even-length digit sequence, one byte per digit pair.
pub open spec fn hex_pairs_bytes(d: Seq<u8>) -> Seq<u8>
    decreases d.len(),
{
    if d.len() < 2 {
        Seq::empty()
    } else {
        hex_pairs_bytes(d.take(d.len() - 2)).push(
            (hex_val(d[d.len() - 2]) * 16 + hex_val(d[d.len() - 1])) as u8,
        )
    }
}

/// Meaning of a wire text as a byte string: `0x`, then an even number of
/// digits (possibly none).
pub open spec fn spec_decode_bytes(s: Seq<u8>) -> Option<Seq<u8>> {
    if s.len() >= 2 && s[0] == ASCII_ZERO && s[1] == ASCII_LOWER_X && (s.len() - 2) % 2 == 0
        && hex_seq_valid(s.skip(2)) {
        Some(hex_pairs_bytes(s.skip(2)))
    } else {
        None
    }
}

fn hex_digit_char(v: u8) -> (r: u8)
    requires
        v < 16,
    ensures
        r == hex_digit_lower(v as nat),
{
    if v < 10 {
        48 + v
    } else {
        87 + v
    }
}

fn hex_nibble(c: u8) -> (r: Option<u8>)
    ensures
        r is Some <==> is_hex_digit(c),
        r matches Some(n) ==> n < 16 && n as nat == hex_val(c),
{
    if 48 <= c && c <= 57 {
        Some(c - 48)
    } else if 97 <= c && c <= 102 {
        Some(c - 87)
    } else if 65 <= c && c <= 70 {
        Some(c - 55)
    } else {
        None
    }
}

fn push_hex_digits(v: u128, out: &mut Vec<u8>)
    ensures
        final(out)@ == old(out)@ + hex_digits_of(v as nat),
    decreases v,
{
    if v < 16 {
        out.push(hex_digit_char(v as u8));
        assert(out@ =~= old(out)@ + hex_digits_of(v as nat));
    } else {
        push_hex_digits(v / 16, out);
        out.push(hex_digit_char((v % 16) as u8));
        assert(out@ =~= old(out)@ + hex_digits_of(v as nat));
    }
}

/// Encode a 128-bit unsigned integer as canonical wire text.
pub fn encode_u128(v: u128) -> (r: Vec<u8>)
    ensures
        r@ == spec_encode_uint(v as nat),
{
    let mut out: Vec<u8> = Vec::new();
    out.push(ASCII_ZERO);
    out.push(ASCII_LOWER_X);
    push_hex_digits(v, &mut out);
    proof {
        assert(out@ =~= spec_encode_uint(v as nat));
    }
    out
}

/// Encode a 64-bit unsigned integer as canonical wire text.
pub fn encode_u64(v: u64) -> (r: Vec<u8>)
    ensures
        r@ == spec_encode_uint(v as nat),
{
    encode_u128(v as u128)
}

/// Encode a 32-bit unsigned integer as canonical wire text.
pub fn encode_u32(v: u32) -> (r: Vec<u8>)
    ensures
        r@ == spec_encode_uint(v as nat),
{
    encode_u128(v as u128)
}

/// Encode a byte string as canonical wire text.
pub fn encode_bytes(b: &[u8]) -> (r: Vec<u8>)
    ensures
        r@ == spec_encode_bytes(b@),
{
    let mut out: Vec<u8> = Vec::new();
    out.push(ASCII_ZERO);
    out.push(ASCII_LOWER_X);
    let mut i: usize = 0;
    while i < b.len()
        invariant
            i <= b@.len(),
            out@ == seq![ASCII_ZERO, ASCII_LOWER_X] + bytes_hex(b@.take(i as int)),
        decreases b@.len() - i,
    {
        let x = b[i];
        out.push(hex_digit_char(x / 16));
        out.push(hex_digit_char(x % 16));
        proof {
            assert(b@.take(i + 1).drop_last() =~= b@.take(i as int));
            assert(b@.take(i + 1).last() == b@[i as int]);
            assert(out@ =~= seq![ASCII_ZERO, ASCII_LOWER_X] + bytes_hex(b@.take(i + 1)));
        }
        i += 1;
    }
    proof {
        assert(b@.take(b@.len() as int) =~= b@);
    }
    out
}

proof fn lemma_hex_seq_value_prefix(s: Seq<u8>, i: int)
    requires
        0 <= i <= s.len(),
    ensures
        hex_seq_value(s.take(i)) <= hex_seq_value(s),
    decreases s.len() - i,
{
    if i < s.len() {
        lemma_hex_seq_value_prefix(s, i + 1);
        assert(s.take(i + 1).drop_last() =~= s.take(i));
        assert(s.take(i + 1).last() == s[i]);
        assert(hex_seq_value(s.take(i + 1)) == hex_seq_value(s.take(i)) * 16 + hex_val(s[i]));
        assert(hex_seq_value(s.take(i)) <= hex_seq_value(s.take(i)) * 16);
    } else {
        assert(s.take(i) =~= s);
    }
}

/// Decode a 128-bit unsigned integer from wire text.
pub fn decode_u128(s: &[u8]) -> (r: Result<u128, CodecError>)
    ensures
        r matches Ok(v) ==> spec_decode_uint(s@) == Some(v as nat),
        r is Err ==> (spec_decode_uint(s@) is None || spec_decode_uint(s@)->Some_0 > u128::MAX
            as nat),
{
    if s.len() < 3 {
        return Err(CodecError::MalformedEncoding);
    }
    if s[0] != ASCII_ZERO || s[1] != ASCII_LOWER_X {
        return Err(CodecError::MalformedEncoding);
    }
    let ghost d: Seq<u8> = s@.skip(2);
    let mut acc: u128 = 0;
    let mut i: usize = 2;
    while i < s.len()
        invariant
            2 <= i <= s@.len(),
            3 <= s@.len(),
            s@[0] == ASCII_ZERO,
            s@[1] == ASCII_LOWER_X,
            d == s@.skip(2),
            hex_seq_valid(d.take(i - 2)),
            acc as nat == hex_seq_value(d.take(i - 2)),
        decreases s@.len() - i,
    {
        let c = s[i];
        proof {
            assert(d[i - 2] == s@[i as int]);
        }
        let n = match hex_nibble(c) {
            Some(n) => n,
            None => {
                proof {
                    assert(!is_hex_digit(d[i - 2]));
                }
                return Err(CodecError::MalformedEncoding);
            },
        };
        // With fewer than 2^124 already accumulated, one more digit always
        // fits in 128 bits; with 2^124 or more, it never does.
        if acc >= 0x1000_0000_0000_0000_0000_0000_0000_0000u128 {
            proof {
                assert(d.take(i - 2 + 1).drop_last() =~= d.take(i - 2));
                assert(d.take(i - 2 + 1).last() == d[i - 2]);
                assert(hex_seq_value(d.take(i - 2 + 1)) == (acc as nat) * 16 + hex_val(d[i - 2]));
                assert((acc as nat) * 16 >= 0x1000_0000_0000_0000_0000_0000_0000_0000nat * 16);
                lemma_hex_seq_value_prefix(d, i - 2 + 1);
            }
            return Err(CodecError::MalformedEncoding);
        }
        acc = acc * 16 + n as u128;
        proof {
            assert(d.take(i - 2 + 1).drop_last() =~= d.take(i - 2));
            assert(d.take(i - 2 + 1).last() == d[i - 2]);
        }
        i += 1;
    }
    proof {
        assert(d.take(i - 2) =~= d);
    }
    Ok(acc)
}

/// Decode a 64-bit unsigned integer from wire text.
pub fn decode_u64(s: &[u8]) -> (r: Result<u64, CodecError>)
    ensures
        r matches Ok(v) ==> spec_decode_uint(s@) == Some(v as nat),
        r is Err ==> (spec_decode_uint(s@) is None || spec_decode_uint(s@)->Some_0 > u64::MAX
            as nat),
{
    match decode_u128(s) {
        Ok(v) => {
            if v <= u64::MAX as u128 {
                Ok(v as u64)
            } else {
                Err(CodecError::MalformedEncoding)
            }
        },
        Err(e) => Err(e),
    }
}

/// Decode a 32-bit unsigned integer from wire text.
pub fn decode_u32(s: &[u8]) -> (r: Result<u32, CodecError>)
    ensures
        r matches Ok(v) ==> spec_decode_uint(s@) == Some(v as nat),
        r is Err ==> (spec_decode_uint(s@) is None || spec_decode_uint(s@)->Some_0 > u32::MAX
            as nat),
{
    match decode_u128(s) {
        Ok(v) => {
            if v <= u32::MAX as u128 {
                Ok(v as u32)
            } else {
                Err(CodecError::MalformedEncoding)
            }
        },
        Err(e) => Err(e),
    }
}

/// Decode a byte string from wire text.
pub fn decode_bytes(s: &[u8]) -> (r: Result<Vec<u8>, CodecError>)
    ensures
        r matches Ok(b) ==> spec_decode_bytes(s@) == Some(b@),
        r is Err ==> spec_decode_bytes(s@) is None,
{
    if s.len() < 2 {
        return Err(CodecError::MalformedEncoding);
    }
    if s[0] != ASCII_ZERO || s[1] != ASCII_LOWER_X {
        return Err(CodecError::MalformedEncoding);
    }
    if (s.len() - 2) % 2 != 0 {
        return Err(CodecError::MalformedEncoding);
    }
    let ghost d: Seq<u8> = s@.skip(2);
    let mut out: Vec<u8> = Vec::new();
    let mut i: usize = 2;
    while i < s.len()
        invariant
            2 <= i <= s@.len(),
            (i - 2) % 2 == 0,
            (s@.len() - 2) % 2 == 0,
            s@.len() >= 2,
            s@[0] == ASCII_ZERO,
            s@[1] == ASCII_LOWER_X,
            d == s@.skip(2),
            hex_seq_valid(d.take(i - 2)),
            out@ == hex_pairs_bytes(d.take(i - 2)),
        decreases s@.len() - i,
    {
        proof {
            assert((s@.len() - i) % 2 == 0);
            assert(d[i - 2] == s@[i as int]);
            assert(d[i - 1] == s@[i + 1]);
        }
        let c1 = s[i];
        let c2 = s[i + 1];
        let n1 = match hex_nibble(c1) {
            Some(n) => n,
            None => {
                proof {
                    assert(!is_hex_digit(d[i - 2]));
                }
                return Err(CodecError::MalformedEncoding);
            },
        };
        let n2 = match hex_nibble(c2) {
            Some(n) => n,
            None => {
                proof {
                    assert(!is_hex_digit(d[i - 1]));
                }
                return Err(CodecError::MalformedEncoding);
            },
        };
        out.push(n1 * 16 + n2);
        proof {
            let j = i - 2;
            let t = d.take(j + 2);
            assert(t.take(j as int) =~= d.take(j as int));
            assert(t[j as int] == d[j as int]);
            assert(t[j + 1] == d[j + 1]);
            assert(out@ =~= hex_pairs_bytes(d.take(j + 2)));
        }
        i += 2;
    }
    proof {
        assert(d.take(i - 2) =~= d);
    }
    Ok(out)
}

proof fn lemma_hex_digit_round(v: nat)
    requires
        v < 16,
    ensures
        is_hex_digit(hex_digit_lower(v)),
        hex_val(hex_digit_lower(v)) == v,
{
}

proof fn lemma_hex_digits_of_wf(v: nat)
    ensures
        hex_digits_of(v).len() >= 1,
        hex_seq_valid(hex_digits_of(v)),
    decreases v,
{
    if v < 16 {
        lemma_hex_digit_round(v);
    } else {
        lemma_hex_digits_of_wf(v / 16);
        lemma_hex_digit_round(v % 16);
        assert forall|i: int| 0 <= i < hex_digits_of(v).len() implies is_hex_digit(
            #[trigger] hex_digits_of(v)[i],
        ) by {
            if i < hex_digits_of(v / 16).len() {
                assert(hex_digits_of(v)[i] == hex_digits_of(v / 16)[i]);
            }
        }
    }
}

proof fn lemma_hex_digits_of_value(v: nat)
    ensures
        hex_seq_value(hex_digits_of(v)) == v,
    decreases v,
{
    if v < 16 {
        let s = hex_digits_of(v);
        assert(s.drop_last() =~= Seq::<u8>::empty());
        assert(s.last() == hex_digit_lower(v));
        lemma_hex_digit_round(v);
        assert(hex_seq_value(s) == hex_seq_value(Seq::<u8>::empty()) * 16 + hex_val(
            hex_digit_lower(v),
        ));
    } else {
        lemma_hex_digits_of_value(v / 16);
        let s = hex_digits_of(v);
        assert(s.drop_last() =~= hex_digits_of(v / 16));
        assert(s.last() == hex_digit_lower(v % 16));
        lemma_hex_digit_round(v % 16);
        assert(hex_seq_value(s) == hex_seq_value(hex_digits_of(v / 16)) * 16 + hex_val(
            hex_digit_lower(v % 16),
        ));
        vstd::arithmetic::div_mod::lemma_fundamental_div_mod(v as int, 16);
        assert(hex_seq_value(s) == (v / 16) * 16 + v % 16);
    }
}

/// Round trip for integers: decoding the canonical encoding of any value
/// yields exactly that value back.
pub proof fn lemma_uint_round_trip(v: nat)
    ensures
        spec_decode_uint(spec_encode_uint(v)) == Some(v),
{
    lemma_hex_digits_of_wf(v);
    lemma_hex_digits_of_value(v);
    let s = spec_encode_uint(v);
    assert(s.skip(2) =~= hex_digits_of(v));
}

proof fn lemma_byte_hex_round(b: u8)
    ensures
        byte_hex(b).len() == 2,
        is_hex_digit(byte_hex(b)[0]),
        is_hex_digit(byte_hex(b)[1]),
        hex_val(byte_hex(b)[0]) * 16 + hex_val(byte_hex(b)[1]) == b,
{
    lemma_hex_digit_round((b / 16) as nat);
    lemma_hex_digit_round((b % 16) as nat);
}

proof fn lemma_bytes_hex_wf(s: Seq<u8>)
    ensures
        bytes_hex(s).len() == 2 * s.len(),
        hex_seq_valid(bytes_hex(s)),
    decreases s.len(),
{
    if s.len() > 0 {
        lemma_bytes_hex_wf(s.drop_last());
        lemma_byte_hex_round(s.last());
        assert forall|i: int| 0 <= i < bytes_hex(s).len() implies is_hex_digit(
            #[trigger] bytes_hex(s)[i],
        ) by {
            if i < bytes_hex(s.drop_last()).len() {
                assert(bytes_hex(s)[i] == bytes_hex(s.drop_last())[i]);
            } else {
                assert(bytes_hex(s)[i] == byte_hex(s.last())[i - bytes_hex(s.drop_last()).len()]);
            }
        }
    }
}

proof fn lemma_bytes_hex_pairs(s: Seq<u8>)
    ensures
        hex_pairs_bytes(bytes_hex(s)) == s,
    decreases s.len(),
{
    if s.len() == 0 {
        assert(hex_pairs_bytes(bytes_hex(s)) =~= s);
    } else {
        lemma_bytes_hex_pairs(s.drop_last());
        lemma_bytes_hex_wf(s.drop_last());
        lemma_byte_hex_round(s.last());
        let d = bytes_hex(s);
        assert(d.len() == bytes_hex(s.drop_last()).len() + 2);
        assert(d.take(d.len() - 2) =~= bytes_hex(s.drop_last()));
        assert(d[d.len() - 2] == byte_hex(s.last())[0]);
        assert(d[d.len() - 1] == byte_hex(s.last())[1]);
        assert(hex_pairs_bytes(d) =~= s);
    }
}

/// Round trip for byte strings: decoding the canonical encoding of any byte
/// string yields exactly that byte string back.
pub proof fn lemma_bytes_round_trip(s: Seq<u8>)
    ensures
        spec_decode_bytes(spec_encode_bytes(s)) == Some(s),
{
    lemma_bytes_hex_wf(s);
    lemma_bytes_hex_pairs(s);
    let w = spec_encode_bytes(s);
    assert(w.skip(2) =~= bytes_hex(s));
}

} // verus!
