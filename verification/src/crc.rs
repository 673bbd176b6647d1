//! CRC-16-CCITT frame integrity check: polynomial 0x1021, initial value
//! 0xFFFF, MSB-first, no final XOR.

use vstd::prelude::*;

verus! {

/// Result of running `k` rounds of the MSB-first shift loop on `crc`.
pub open spec fn crc16_shift(crc: u16, k: nat) -> u16
    decreases k,
{
    if k == 0 {
        crc
    } else {
        let next = if crc & 0x8000 != 0 {
            (crc << 1) ^ 0x1021
        } else {
            crc << 1
        };
        crc16_shift(next, (k - 1) as nat)
    }
}

/// Folding one input byte into the running CRC.
pub open spec fn crc16_byte(crc: u16, b: u8) -> u16 {
    crc16_shift(crc ^ ((b as u16) << 8), 8)
}

/// Folding a whole byte sequence into the running CRC.
pub open spec fn crc16_fold(crc: u16, s: Seq<u8>) -> u16
    decreases s.len(),
{
    if s.len() == 0 {
        crc
    } else {
        crc16_fold(crc16_byte(crc, s[0]), s.skip(1))
    }
}

/// CRC-16-CCITT of a byte sequence.
pub open spec fn crc16_spec(s: Seq<u8>) -> u16 {
    crc16_fold(0xFFFF, s)
}

/// Each round of the shift loop is injective on the running CRC: distinct
/// states stay distinct, however many rounds run.
proof fn lemma_crc16_shift_injective(c1: u16, c2: u16, k: nat)
    requires
        c1 != c2,
    ensures
        crc16_shift(c1, k) != crc16_shift(c2, k),
    decreases k,
{
    if k > 0 {
        assert((if c1 & 0x8000 != 0 {
            (c1 << 1) ^ 0x1021
        } else {
            c1 << 1
        }) != (if c2 & 0x8000 != 0 {
            (c2 << 1) ^ 0x1021
        } else {
            c2 << 1
        })) by (bit_vector)
            requires
                c1 != c2,
        ;
        lemma_crc16_shift_injective(
            if c1 & 0x8000 != 0 {
                (c1 << 1) ^ 0x1021
            } else {
                c1 << 1
            },
            if c2 & 0x8000 != 0 {
                (c2 << 1) ^ 0x1021
            } else {
                c2 << 1
            },
            (k - 1) as nat,
        );
    }
}

/// Folding the same byte into distinct running CRCs keeps them distinct.
proof fn lemma_crc16_byte_injective_state(c1: u16, c2: u16, b: u8)
    requires
        c1 != c2,
    ensures
        crc16_byte(c1, b) != crc16_byte(c2, b),
{
    assert(c1 ^ ((b as u16) << 8) != c2 ^ ((b as u16) << 8)) by (bit_vector)
        requires
            c1 != c2,
    ;
    lemma_crc16_shift_injective(c1 ^ ((b as u16) << 8), c2 ^ ((b as u16) << 8), 8);
}

/// Folding distinct bytes into the same running CRC makes them distinct.
proof fn lemma_crc16_byte_injective_byte(c: u16, b1: u8, b2: u8)
    requires
        b1 != b2,
    ensures
        crc16_byte(c, b1) != crc16_byte(c, b2),
{
    assert(c ^ ((b1 as u16) << 8) != c ^ ((b2 as u16) << 8)) by (bit_vector)
        requires
            b1 != b2,
    ;
    lemma_crc16_shift_injective(c ^ ((b1 as u16) << 8), c ^ ((b2 as u16) << 8), 8);
}

/// Folding the same byte sequence from distinct running CRCs keeps them
/// distinct.
proof fn lemma_crc16_fold_injective(c1: u16, c2: u16, s: Seq<u8>)
    requires
        c1 != c2,
    ensures
        crc16_fold(c1, s) != crc16_fold(c2, s),
    decreases s.len(),
{
    if s.len() > 0 {
        lemma_crc16_byte_injective_state(c1, c2, s[0]);
        lemma_crc16_fold_injective(crc16_byte(c1, s[0]), crc16_byte(c2, s[0]), s.skip(1));
    }
}

/// Folding two equal-length sequences that differ in exactly the byte at
/// position `k` from the same running CRC yields distinct CRCs.
proof fn lemma_crc16_fold_one_diff(c: u16, s1: Seq<u8>, s2: Seq<u8>, k: int)
    requires
        s1.len() == s2.len(),
        0 <= k < s1.len(),
        s1[k] != s2[k],
        forall|j: int| 0 <= j < s1.len() && j != k ==> s1[j] == s2[j],
    ensures
        crc16_fold(c, s1) != crc16_fold(c, s2),
    decreases k,
{
    if k == 0 {
        lemma_crc16_byte_injective_byte(c, s1[0], s2[0]);
        assert(s1.skip(1) =~= s2.skip(1));
        lemma_crc16_fold_injective(crc16_byte(c, s1[0]), crc16_byte(c, s2[0]), s1.skip(1));
    } else {
        lemma_crc16_fold_one_diff(crc16_byte(c, s1[0]), s1.skip(1), s2.skip(1), k - 1);
    }
}

/// Law: the CRC tells apart any two equal-length byte sequences that
/// differ in exactly one byte — so, in particular, any sequence and the
/// same sequence with a single bit flipped.
pub proof fn lemma_crc16_single_byte_sensitivity(s1: Seq<u8>, s2: Seq<u8>, k: int)
    requires
        s1.len() == s2.len(),
        0 <= k < s1.len(),
        s1[k] != s2[k],
        forall|j: int| 0 <= j < s1.len() && j != k ==> s1[j] == s2[j],
    ensures
        crc16_spec(s1) != crc16_spec(s2),
{
    lemma_crc16_fold_one_diff(0xFFFF, s1, s2, k);
}

/// Compute the CRC-16-CCITT checksum of `data`.
pub fn crc16(data: &[u8]) -> (r: u16)
    ensures
        r == crc16_spec(data@),
{
    let mut crc: u16 = 0xFFFF;
    let mut i: usize = 0;
    assert(data@.skip(0) =~= data@);
    while i < data.len()
        invariant
            i <= data@.len(),
            crc16_fold(crc, data@.skip(i as int)) == crc16_spec(data@),
        decreases data@.len() - i,
    {
        let b: u8 = data[i];
        crc = crc ^ ((b as u16) << 8);
        let ghost entry = crc;
        let mut j: usize = 0;
        while j < 8
            invariant
                j <= 8,
                crc16_shift(crc, (8 - j) as nat) == crc16_shift(entry, 8),
            decreases 8 - j,
        {
            if crc & 0x8000 != 0 {
                crc = (crc << 1) ^ 0x1021;
            } else {
                crc = crc << 1;
            }
            j = j + 1;
        }
        assert(data@.skip(i as int).skip(1) =~= data@.skip(i as int + 1));
        i = i + 1;
    }
    crc
}

} // verus!
