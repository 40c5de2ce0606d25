//! Byte-to-text conversion and small numeric parsers shared by the
//! process and memory-map readers.

use vstd::prelude::*;

verus! {

/// The characters that lossy UTF-8 decoding produces for a byte
/// sequence.  The result is a function of the bytes alone.
pub uninterp spec fn lossy_of(b: Seq<u8>) -> Seq<char>;

/// Relies on std's `String::from_utf8_lossy`: the result depends on the
/// bytes alone; valid UTF-8 (hence every all-ASCII input) converts
/// byte for byte, and an empty input gives an empty string.
#[verifier::external_body]
pub fn bytes_to_string(b: &[u8]) -> (r: String)
    ensures
        r@ == lossy_of(b@),
        (forall|i: int| 0 <= i < b@.len() ==> b@[i] < 128) ==> r@ == b@.map_values(
            |x: u8| x as char,
        ),
        b@.len() == 0 ==> r@.len() == 0,
{
    String::from_utf8_lossy(b).into_owned()
}

/// String-slice equality, stated over the character views.
pub fn str_eq(a: &str, b: &str) -> (r: bool)
    ensures
        r == (a@ == b@),
{
    let x: String = a.to_owned();
    let y: String = b.to_owned();
    x == y
}

/// Is `d` the ASCII code of a decimal digit?
pub open spec fn is_dec_digit(d: u8) -> bool {
    48 <= d <= 57
}

/// Are all bytes of `s` decimal digits?
pub open spec fn all_dec_digits(s: Seq<u8>) -> bool {
    forall|i: int| 0 <= i < s.len() ==> is_dec_digit(#[trigger] s[i])
}

/// The value of a decimal digit string (most significant digit first).
pub open spec fn dec_val(s: Seq<u8>) -> int
    decreases s.len(),
{
    if s.len() == 0 {
        0
    } else {
        dec_val(s.drop_last()) * 10 + (s.last() - 48)
    }
}

/// Is `d` the ASCII code of a lower-case hexadecimal digit, as the
/// memory-map description uses?
pub open spec fn is_hex_digit(d: u8) -> bool {
    48 <= d <= 57 || 97 <= d <= 102
}

/// The numeric value of one hexadecimal digit.
pub open spec fn hex_digit_val(d: u8) -> int {
    if 48 <= d <= 57 {
        d - 48
    } else {
        d - 87
    }
}

/// Are all bytes of `s` hexadecimal digits?
pub open spec fn all_hex_digits(s: Seq<u8>) -> bool {
    forall|i: int| 0 <= i < s.len() ==> is_hex_digit(#[trigger] s[i])
}

/// The value of a hexadecimal digit string (most significant first).
pub open spec fn hex_val(s: Seq<u8>) -> int
    decreases s.len(),
{
    if s.len() == 0 {
        0
    } else {
        hex_val(s.drop_last()) * 16 + hex_digit_val(s.last())
    }
}

/// Ten to the power `n`.
pub open spec fn pow10(n: nat) -> int
    decreases n,
{
    if n == 0 {
        1
    } else {
        10 * pow10((n - 1) as nat)
    }
}

/// Sixteen to the power `n`.
pub open spec fn pow16(n: nat) -> int
    decreases n,
{
    if n == 0 {
        1
    } else {
        16 * pow16((n - 1) as nat)
    }
}

proof fn lemma_pow10_pos(n: nat)
    ensures
        pow10(n) >= 1,
    decreases n,
{
    if n > 0 {
        lemma_pow10_pos((n - 1) as nat);
    }
}

proof fn lemma_pow10_mono(a: nat, b: nat)
    requires
        a <= b,
    ensures
        pow10(a) <= pow10(b),
    decreases b,
{
    if a < b {
        lemma_pow10_mono(a, (b - 1) as nat);
        lemma_pow10_pos((b - 1) as nat);
    }
}

proof fn lemma_pow16_pos(n: nat)
    ensures
        pow16(n) >= 1,
    decreases n,
{
    if n > 0 {
        lemma_pow16_pos((n - 1) as nat);
    }
}

proof fn lemma_pow16_mono(a: nat, b: nat)
    requires
        a <= b,
    ensures
        pow16(a) <= pow16(b),
    decreases b,
{
    if a < b {
        lemma_pow16_mono(a, (b - 1) as nat);
        lemma_pow16_pos((b - 1) as nat);
    }
}

/// Parse a decimal number of at most nine digits from `s`; `None` on an
/// empty string, a non-digit, or a longer string.  Nine digits keep the
/// value below 2^30, so it fits every identifier width used here.
pub fn parse_dec(s: &[u8]) -> (r: Option<u32>)
    ensures
        r is Some <==> (0 < s@.len() <= 9 && all_dec_digits(s@)),
        r matches Some(v) ==> v == dec_val(s@) && v < 1000000000,
{
    if s.len() == 0 || s.len() > 9 {
        return None;
    }
    let mut v: u32 = 0;
    let mut i: usize = 0;
    while i < s.len()
        invariant
            0 <= i <= s.len(),
            0 < s@.len() <= 9,
            all_dec_digits(s@.subrange(0, i as int)),
            v == dec_val(s@.subrange(0, i as int)),
            v < pow10(i as nat),
            pow10(i as nat) <= 1000000000,
        decreases s.len() - i,
    {
        let d = s[i];
        if d < 48 || d > 57 {
            return None;
        }
        proof {
            assert(s@.subrange(0, i + 1).drop_last() == s@.subrange(0, i as int));
            assert(s@.subrange(0, i + 1).last() == s@[i as int]);
            assert(all_dec_digits(s@.subrange(0, i + 1)));
            assert(pow10((i + 1) as nat) == 10 * pow10(i as nat));
            lemma_pow10_mono((i + 1) as nat, 9);
            assert(pow10(9) == 1000000000) by {
                reveal_with_fuel(pow10, 10);
            }
        }
        v = v * 10 + (d - 48) as u32;
        i = i + 1;
    }
    proof {
        assert(s@.subrange(0, s@.len() as int) == s@);
    }
    Some(v)
}

/// Parse a lower-case hexadecimal number of at most fifteen digits from
/// `s`, as the address fields of a memory-map line use; `None` on an
/// empty string, a non-digit, or a longer string.
pub fn parse_hex(s: &[u8]) -> (r: Option<u64>)
    ensures
        r is Some <==> (0 < s@.len() <= 15 && all_hex_digits(s@)),
        r matches Some(v) ==> v == hex_val(s@),
{
    if s.len() == 0 || s.len() > 15 {
        return None;
    }
    let mut v: u64 = 0;
    let mut i: usize = 0;
    while i < s.len()
        invariant
            0 <= i <= s.len(),
            0 < s@.len() <= 15,
            all_hex_digits(s@.subrange(0, i as int)),
            v == hex_val(s@.subrange(0, i as int)),
            v < pow16(i as nat),
            pow16(i as nat) <= 0x1000000000000000,
        decreases s.len() - i,
    {
        let d = s[i];
        let dv: u64 = if d >= 48 && d <= 57 {
            (d - 48) as u64
        } else if d >= 97 && d <= 102 {
            (d - 87) as u64
        } else {
            return None;
        };
        proof {
            assert(s@.subrange(0, i + 1).drop_last() == s@.subrange(0, i as int));
            assert(s@.subrange(0, i + 1).last() == s@[i as int]);
            assert(all_hex_digits(s@.subrange(0, i + 1)));
            assert(pow16((i + 1) as nat) == 16 * pow16(i as nat));
            lemma_pow16_mono((i + 1) as nat, 15);
            assert(pow16(15) == 0x1000000000000000) by {
                reveal_with_fuel(pow16, 16);
            }
        }
        v = v * 16 + dv;
        i = i + 1;
    }
    proof {
        assert(s@.subrange(0, s@.len() as int) == s@);
    }
    Some(v)
}

} // verus!
