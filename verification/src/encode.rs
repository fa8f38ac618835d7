//! Textual encoding of one packed pixel: a `data.32 0x%08x ` token of 8
//! zero-padded lowercase hexadecimal digits, most significant pair first.

use vstd::prelude::*;

verus! {

/// The ASCII byte of one lowercase hexadecimal digit.
pub open spec fn hex_digit_byte(n: u8) -> u8
    recommends
        n < 16,
{
    if n < 10 {
        (n + 48) as u8  // '0'..'9'
    } else {
        (n + 87) as u8  // 'a'..'f'
    }
}

/// The `k`-th 4-bit group of `w`, counting from the least significant.
pub open spec fn nibble_of(w: u32, k: u32) -> u8
    recommends
        k < 8,
{
    ((w >> (4 * k)) & 0xf) as u8
}

/// The 8 hexadecimal digit bytes of `w`, most significant digit first.
pub open spec fn hex8(w: u32) -> Seq<u8> {
    Seq::new(8, |i: int| hex_digit_byte(nibble_of(w, (7 - i) as u32)))
}

/// The bytes of the literal text `data.32 0x`.
pub open spec fn token_prefix() -> Seq<u8> {
    seq![100u8, 97u8, 116u8, 97u8, 46u8, 51u8, 50u8, 32u8, 48u8, 120u8]
}

/// The full token emitted for one packed pixel `w`: the `data.32 0x` prefix,
/// 8 hexadecimal digits, and one trailing space.
pub open spec fn token_bytes(w: u32) -> Seq<u8> {
    token_prefix() + hex8(w) + seq![32u8]
}

/// A token is 19 bytes long and contains no newline, so lines built from
/// tokens are broken only by the explicitly emitted line terminators.
pub proof fn lemma_token_bytes_shape(w: u32)
    ensures
        token_bytes(w).len() == 19,
        forall|k: int| 0 <= k < 19 ==> token_bytes(w)[k] != 10,
{
    assert forall|k: int| 0 <= k < 19 implies token_bytes(w)[k] != 10 by {
        if 10 <= k < 18 {
            let kk: u32 = (17 - k) as u32;
            let sh: u32 = (4 * kk) as u32;
            assert((w >> sh) & 0xf < 16) by (bit_vector);
            assert(nibble_of(w, kk) < 16);
            assert(token_bytes(w)[k] == hex_digit_byte(nibble_of(w, kk)));
        }
    }
}

/// The ASCII byte of the lowercase hexadecimal digit `d`.
fn hex_char(d: u8) -> (c: u8)
    requires
        d < 16,
    ensures
        c == hex_digit_byte(d),
{
    if d < 10 {
        d + 48
    } else {
        d + 87
    }
}

/// Appends the 8 zero-padded lowercase hexadecimal digits of `w`.
fn push_hex8(out: &mut Vec<u8>, w: u32)
    ensures
        final(out)@ == old(out)@ + hex8(w),
{
    let mut i: u32 = 0;
    while i < 8
        invariant
            i <= 8,
            out@ == old(out)@ + hex8(w).take(i as int),
        decreases 8 - i,
    {
        let shift: u32 = 28 - 4 * i;
        let nib: u8 = ((w >> shift) & 0xf) as u8;
        assert((w >> shift) & 0xf < 16) by (bit_vector);
        assert(nib == nibble_of(w, (7 - i) as u32)) by {
            assert(shift == 4 * ((7 - i) as u32));
        }
        let c: u8 = hex_char(nib);
        out.push(c);
        assert(out@ =~= old(out)@ + hex8(w).take(i + 1));
        i = i + 1;
    }
    assert(out@ =~= old(out)@ + hex8(w));
}

/// Appends the full `data.32 0x%08x ` token for the packed pixel `w`.
pub fn push_token(out: &mut Vec<u8>, w: u32)
    ensures
        final(out)@ == old(out)@ + token_bytes(w),
{
    out.push(100);  // 'd'
    out.push(97);  // 'a'
    out.push(116);  // 't'
    out.push(97);  // 'a'
    out.push(46);  // '.'
    out.push(51);  // '3'
    out.push(50);  // '2'
    out.push(32);  // ' '
    out.push(48);  // '0'
    out.push(120);  // 'x'
    push_hex8(out, w);
    out.push(32);  // ' '
    assert(out@ =~= old(out)@ + token_bytes(w));
}

} // verus!
