//! Byte-level text helpers for the wire protocol: decimal and hexadecimal
//! rendering of integers, and the character classes admitted in keys and
//! numeric scalar texts.
//!
//! Every frame the session writes is JSON carried as raw bytes, so all
//! protocol text in this crate is `Vec<u8>` / `Seq<u8>`.

use vstd::prelude::*;

verus! {

use vstd::string::StringSliceAdditionalSpecFns;

/// ASCII decimal digit.
pub open spec fn is_digit(b: u8) -> bool {
    0x30 <= b <= 0x39
}

/// Bytes that may occur in the text of a JSON number: digits, signs,
/// the decimal point and the exponent markers.
pub open spec fn is_number_byte(b: u8) -> bool {
    is_digit(b) || b == 0x2B || b == 0x2D || b == 0x2E || b == 0x45 || b == 0x65
}

/// A numeric scalar as it stands in a frame: non-empty, made only of
/// number bytes. Scalar parameter values (powers, gains, calibration,
/// feedback samples) are carried in this form, never as machine floats.
pub open spec fn is_number_text(s: Seq<u8>) -> bool {
    s.len() > 0 && forall|i: int| 0 <= i < s.len() ==> is_number_byte(#[trigger] s[i])
}

/// Bytes admitted in an identity key: printable ASCII without the quote
/// and backslash, so the key can stand between quotes unescaped and can
/// never smuggle a NUL or a structural character into a frame.
pub open spec fn is_key_byte(b: u8) -> bool {
    0x20 <= b <= 0x7E && b != 0x22 && b != 0x5C
}

/// An identity key as it stands in a frame: non-empty, made only of key bytes.
pub open spec fn is_key_text(s: Seq<u8>) -> bool {
    s.len() > 0 && forall|i: int| 0 <= i < s.len() ==> is_key_byte(#[trigger] s[i])
}

/// Checks the number-text character class.
pub fn check_number_text(s: &Vec<u8>) -> (r: bool)
    ensures
        r == is_number_text(s@),
{
    if s.len() == 0 {
        return false;
    }
    let mut i: usize = 0;
    while i < s.len()
        invariant
            0 <= i <= s.len(),
            forall|j: int| 0 <= j < i ==> is_number_byte(#[trigger] s@[j]),
        decreases s.len() - i,
    {
        let b = s[i];
        if !((0x30 <= b && b <= 0x39) || b == 0x2B || b == 0x2D || b == 0x2E || b == 0x45 || b
            == 0x65) {
            return false;
        }
        i = i + 1;
    }
    true
}

/// Checks the key character class.
pub fn check_key_text(s: &Vec<u8>) -> (r: bool)
    ensures
        r == is_key_text(s@),
{
    if s.len() == 0 {
        return false;
    }
    let mut i: usize = 0;
    while i < s.len()
        invariant
            0 <= i <= s.len(),
            forall|j: int| 0 <= j < i ==> is_key_byte(#[trigger] s@[j]),
        decreases s.len() - i,
    {
        let b = s[i];
        if !(0x20 <= b && b <= 0x7E && b != 0x22 && b != 0x5C) {
            return false;
        }
        i = i + 1;
    }
    true
}

/// Byte-wise equality of two byte strings.
pub fn bytes_eq(a: &Vec<u8>, b: &Vec<u8>) -> (r: bool)
    ensures
        r == (a@ == b@),
{
    if a.len() != b.len() {
        return false;
    }
    let mut i: usize = 0;
    while i < a.len()
        invariant
            a.len() == b.len(),
            0 <= i <= a.len(),
            forall|j: int| 0 <= j < i ==> a@[j] == b@[j],
        decreases a.len() - i,
    {
        if a[i] != b[i] {
            return false;
        }
        i = i + 1;
    }
    proof {
        assert(a@ =~= b@);
    }
    true
}

/// Copies a byte string.
pub fn clone_bytes(v: &Vec<u8>) -> (r: Vec<u8>)
    ensures
        r@ == v@,
{
    let mut r: Vec<u8> = Vec::new();
    let mut i: usize = 0;
    while i < v.len()
        invariant
            0 <= i <= v@.len(),
            r@ == v@.subrange(0, i as int),
        decreases v@.len() - i,
    {
        r.push(v[i]);
        proof {
            assert(r@ =~= v@.subrange(0, i + 1));
        }
        i = i + 1;
    }
    proof {
        assert(r@ =~= v@);
    }
    r
}

/// Appends a byte slice to a buffer.
pub fn append_bytes(out: &mut Vec<u8>, s: &[u8])
    ensures
        final(out)@ == old(out)@ + s@,
{
    let mut i: usize = 0;
    while i < s.len()
        invariant
            0 <= i <= s@.len(),
            out@ == old(out)@ + s@.subrange(0, i as int),
        decreases s@.len() - i,
    {
        out.push(s[i]);
        proof {
            assert(out@ =~= old(out)@ + s@.subrange(0, i + 1));
        }
        i = i + 1;
    }
    proof {
        assert(out@ =~= old(out)@ + s@);
    }
}

/// Appends the bytes of a string literal to a buffer.
pub fn append_lit(out: &mut Vec<u8>, s: &str)
    ensures
        final(out)@ == old(out)@ + s.spec_bytes(),
{
    append_bytes(out, s.as_bytes());
}

/// The bytes of a string literal as an owned buffer.
pub fn lit_bytes(s: &str) -> (r: Vec<u8>)
    ensures
        r@ == s.spec_bytes(),
{
    let mut r: Vec<u8> = Vec::new();
    append_lit(&mut r, s);
    proof {
        assert(r@ =~= s.spec_bytes());
    }
    r
}

/// Decimal rendering of a natural number, most significant digit first.
pub open spec fn spec_udec(n: nat) -> Seq<u8>
    decreases n,
{
    if n < 10 {
        seq![(0x30 + n) as u8]
    } else {
        spec_udec(n / 10).push((0x30 + n % 10) as u8)
    }
}

/// Decimal rendering of an integer: a leading minus sign when negative.
pub open spec fn spec_idec(v: int) -> Seq<u8> {
    if v < 0 {
        seq![0x2Du8] + spec_udec((0 - v) as nat)
    } else {
        spec_udec(v as nat)
    }
}

/// Decimal text is non-empty and made of digits.
pub proof fn lemma_udec_digits(n: nat)
    ensures
        spec_udec(n).len() >= 1,
        forall|i: int| 0 <= i < spec_udec(n).len() ==> is_digit(#[trigger] spec_udec(n)[i]),
    decreases n,
{
    if n >= 10 {
        lemma_udec_digits(n / 10);
    }
}

/// Renders an unsigned 64-bit value in decimal.
pub fn fmt_u64(n: u64) -> (r: Vec<u8>)
    ensures
        r@ == spec_udec(n as nat),
    decreases n,
{
    if n < 10 {
        let mut r: Vec<u8> = Vec::new();
        r.push(0x30 + (n as u8));
        proof {
            assert(r@ =~= spec_udec(n as nat));
        }
        r
    } else {
        let mut r = fmt_u64(n / 10);
        r.push(0x30 + ((n % 10) as u8));
        r
    }
}

/// Renders a machine-sized value in decimal.
pub fn fmt_usize(n: usize) -> (r: Vec<u8>)
    ensures
        r@ == spec_udec(n as nat),
{
    fmt_u64(n as u64)
}

/// Renders a signed 8-bit value in decimal.
pub fn fmt_i8(v: i8) -> (r: Vec<u8>)
    ensures
        r@ == spec_idec(v as int),
{
    let mut r: Vec<u8> = Vec::new();
    let m: u64 = if v < 0 {
        r.push(0x2D);
        (-(v as i32)) as u64
    } else {
        v as u64
    };
    let mut d = fmt_u64(m);
    r.append(&mut d);
    proof {
        assert(r@ =~= spec_idec(v as int));
    }
    r
}

/// Lowercase hexadecimal digit for a value below 16.
pub open spec fn hex_digit(d: u8) -> u8 {
    if d < 10 {
        (0x30 + d) as u8
    } else {
        (0x57 + d) as u8
    }
}

/// Lowercase hexadecimal rendering of a byte string, two digits per byte.
pub open spec fn spec_hex(s: Seq<u8>) -> Seq<u8> {
    Seq::new(
        2 * s.len(),
        |i: int|
            if i % 2 == 0 {
                hex_digit(s[i / 2] >> 4)
            } else {
                hex_digit(s[i / 2] & 0xF)
            },
    )
}

/// Renders a byte string in lowercase hexadecimal.
pub fn fmt_hex(s: &Vec<u8>) -> (r: Vec<u8>)
    ensures
        r@ == spec_hex(s@),
{
    let mut r: Vec<u8> = Vec::new();
    let mut i: usize = 0;
    while i < s.len()
        invariant
            0 <= i <= s.len(),
            r@.len() == 2 * i,
            forall|j: int| 0 <= j < r@.len() ==> r@[j] == spec_hex(s@)[j],
        decreases s.len() - i,
    {
        let b = s[i];
        let hi = b >> 4;
        let lo = b & 0xF;
        proof {
            assert(b >> 4 < 16 && b & 0xF < 16) by (bit_vector);
        }
        r.push(if hi < 10 {
            0x30 + hi
        } else {
            0x57 + hi
        });
        r.push(if lo < 10 {
            0x30 + lo
        } else {
            0x57 + lo
        });
        i = i + 1;
    }
    proof {
        assert(r@ =~= spec_hex(s@));
    }
    r
}

} // verus!
