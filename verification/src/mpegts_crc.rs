//! The 32-bit Cyclic Redundancy Check used by PSI sections (the 'CRC-32/MPEG-2' variant:
//! polynomial `0x04c11db7`, initial value `0xffffffff`, no bit reflection and no final xor).
use vstd::prelude::*;

verus! {

/// One bit-step of the CRC computation: shift left, folding in the polynomial when the bit
/// shifted out was set.
pub open spec fn crc_step_bit(crc: u32) -> u32 {
    if crc & 0x8000_0000u32 != 0 {
        (crc << 1u32) ^ 0x04c1_1db7u32
    } else {
        crc << 1u32
    }
}

/// `n` bit-steps of the CRC computation.
pub open spec fn crc_step_bits(crc: u32, n: nat) -> u32
    decreases n,
{
    if n == 0 {
        crc
    } else {
        crc_step_bit(crc_step_bits(crc, (n - 1) as nat))
    }
}

/// The CRC state after folding in one more byte.
pub open spec fn crc_update_byte(crc: u32, b: u8) -> u32 {
    crc_step_bits(crc ^ ((b as u32) << 24u32), 8)
}

/// The CRC-32/MPEG-2 checksum of the given bytes.
pub open spec fn spec_crc32(s: Seq<u8>) -> u32
    decreases s.len(),
{
    if s.len() == 0 {
        0xffff_ffffu32
    } else {
        crc_update_byte(spec_crc32(s.drop_last()), s.last())
    }
}

/// Computes the CRC-32/MPEG-2 checksum of the given data.  A PSI section whose trailing 4
/// bytes hold its CRC gives the value `0` when the checksum of the whole section, CRC
/// included, is computed.
pub fn sum32(data: &[u8]) -> (r: u32)
    ensures
        r == spec_crc32(data@),
{
    let mut crc: u32 = 0xffff_ffff;
    let mut i: usize = 0;
    while i < data.len()
        invariant
            i <= data@.len(),
            crc == spec_crc32(data@.take(i as int)),
        decreases data@.len() - i,
    {
        let ghost start = crc ^ ((data@[i as int] as u32) << 24u32);
        crc = crc ^ ((data[i] as u32) << 24u32);
        let mut j: u32 = 0;
        while j < 8
            invariant
                j <= 8,
                crc == crc_step_bits(start, j as nat),
            decreases 8 - j,
        {
            if crc & 0x8000_0000u32 != 0 {
                crc = (crc << 1u32) ^ 0x04c1_1db7u32;
            } else {
                crc = crc << 1u32;
            }
            j = j + 1;
        }
        proof {
            assert(data@.take(i + 1).drop_last() =~= data@.take(i as int));
            assert(data@.take(i + 1).last() == data@[i as int]);
        }
        i = i + 1;
    }
    proof {
        assert(data@.take(data@.len() as int) =~= data@);
    }
    crc
}

/// The 4 bytes of the CRC value `c`, most significant first, as they are stored at the end of a
/// PSI section.
pub open spec fn crc_bytes(c: u32) -> Seq<u8> {
    seq![(c >> 24u32) as u8, ((c >> 16u32) & 0xff) as u8, ((c >> 8u32) & 0xff) as u8, (c & 0xff) as u8]
}

/// Folding in the most significant byte of the CRC state shifts it left by one byte.
proof fn lemma_update_with_top_byte(r: u32)
    ensures
        crc_update_byte(r, (r >> 24u32) as u8) == r << 8u32,
{
    let t: u8 = (r >> 24u32) as u8;
    let x = r ^ ((t as u32) << 24u32);
    assert(x == r & 0x00ff_ffffu32) by (bit_vector)
        requires
            t == (r >> 24u32) as u8,
            x == r ^ ((t as u32) << 24u32),
    ;
    let x1 = x << 1u32;
    let x2 = x1 << 1u32;
    let x3 = x2 << 1u32;
    let x4 = x3 << 1u32;
    let x5 = x4 << 1u32;
    let x6 = x5 << 1u32;
    let x7 = x6 << 1u32;
    let x8 = x7 << 1u32;
    assert(x & 0x8000_0000u32 == 0 && x1 & 0x8000_0000u32 == 0 && x2 & 0x8000_0000u32 == 0 && x3
        & 0x8000_0000u32 == 0 && x4 & 0x8000_0000u32 == 0 && x5 & 0x8000_0000u32 == 0 && x6
        & 0x8000_0000u32 == 0 && x7 & 0x8000_0000u32 == 0 && x8 == r << 8u32) by (bit_vector)
        requires
            x == r & 0x00ff_ffffu32,
            x1 == x << 1u32,
            x2 == x1 << 1u32,
            x3 == x2 << 1u32,
            x4 == x3 << 1u32,
            x5 == x4 << 1u32,
            x6 == x5 << 1u32,
            x7 == x6 << 1u32,
            x8 == x7 << 1u32,
    ;
    reveal_with_fuel(crc_step_bits, 9);
    assert(crc_step_bits(x, 8) == x8);
}

/// A PSI section whose trailing 4 bytes hold the CRC of the bytes before them has the checksum
/// `0`, which is what [`sum32`] gives when the section is checked.
pub proof fn lemma_crc_of_message_and_crc_is_zero(m: Seq<u8>)
    ensures
        spec_crc32(m + crc_bytes(spec_crc32(m))) == 0,
{
    let c = spec_crc32(m);
    let b = crc_bytes(c);
    let b0: u8 = (c >> 24u32) as u8;
    let b1: u8 = ((c >> 16u32) & 0xff) as u8;
    let b2: u8 = ((c >> 8u32) & 0xff) as u8;
    let b3: u8 = (c & 0xff) as u8;
    assert(b[0] == b0 && b[1] == b1 && b[2] == b2 && b[3] == b3);
    let m1 = m.push(b0);
    let m2 = m1.push(b1);
    let m3 = m2.push(b2);
    let m4 = m3.push(b3);
    assert(m + b =~= m4);
    assert(m1.drop_last() =~= m && m2.drop_last() =~= m1 && m3.drop_last() =~= m2 && m4.drop_last()
        =~= m3);
    let c1 = c << 8u32;
    let c2 = c1 << 8u32;
    let c3 = c2 << 8u32;
    assert(b1 == (c1 >> 24u32) as u8 && b2 == (c2 >> 24u32) as u8 && b3 == (c3 >> 24u32) as u8
        && c3 << 8u32 == 0) by (bit_vector)
        requires
            c1 == c << 8u32,
            c2 == c1 << 8u32,
            c3 == c2 << 8u32,
            b1 == ((c >> 16u32) & 0xff) as u8,
            b2 == ((c >> 8u32) & 0xff) as u8,
            b3 == (c & 0xff) as u8,
    ;
    lemma_update_with_top_byte(c);
    lemma_update_with_top_byte(c1);
    lemma_update_with_top_byte(c2);
    lemma_update_with_top_byte(c3);
    assert(spec_crc32(m1) == c1);
    assert(spec_crc32(m2) == c2);
    assert(spec_crc32(m3) == c3);
}

} // verus!
