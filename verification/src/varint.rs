//! Little-endian base-128 varint encoding of unsigned scalars, the compact
//! integer representation used inside message payloads.

use vstd::prelude::*;

verus! {

/// Encoding of an unsigned value: seven value bits per byte, least
/// significant group first, high bit set on every byte but the last.
pub open spec fn varint_enc(v: nat) -> Seq<u8>
    decreases v,
{
    if v < 128 {
        seq![v as u8]
    } else {
        seq![(v % 128 + 128) as u8] + varint_enc(v / 128)
    }
}

/// Decoding of a varint prefix of `s`: the value and the number of bytes
/// consumed, or `None` when `s` ends before a byte with a clear high bit.
pub open spec fn varint_dec(s: Seq<u8>) -> Option<(nat, nat)>
    decreases s.len(),
{
    if s.len() == 0 {
        None
    } else if s[0] < 128 {
        Some((s[0] as nat, 1nat))
    } else {
        match varint_dec(s.skip(1)) {
            None => None,
            Some(p) => Some(((s[0] - 128) as nat + 128 * p.0, p.1 + 1)),
        }
    }
}

/// Law: decoding undoes encoding, whatever follows the encoded bytes.
pub proof fn lemma_varint_round_trip(v: nat, rest: Seq<u8>)
    ensures
        varint_dec(varint_enc(v) + rest) == Some((v, varint_enc(v).len())),
    decreases v,
{
    let s = varint_enc(v) + rest;
    if v < 128 {
        assert(s[0] == v as u8);
    } else {
        lemma_varint_round_trip(v / 128, rest);
        assert(s.skip(1) =~= varint_enc(v / 128) + rest);
        assert(s[0] == (v % 128 + 128) as u8);
        assert(v % 128 + 128 * (v / 128) == v) by {
            vstd::arithmetic::div_mod::lemma_fundamental_div_mod(v as int, 128);
        }
    }
}

/// A value below `128^k` encodes in at most `k` bytes.
pub proof fn lemma_varint_enc_len(v: nat, k: nat)
    requires
        k >= 1,
        v < vstd::arithmetic::power::pow(128, k),
    ensures
        varint_enc(v).len() <= k,
    decreases v,
{
    if v >= 128 {
        assert(v / 128 < vstd::arithmetic::power::pow(128, (k - 1) as nat)) by {
            vstd::arithmetic::power::lemma_pow_adds(128, 1, (k - 1) as nat);
            vstd::arithmetic::power::lemma_pow1(128);
            vstd::arithmetic::div_mod::lemma_fundamental_div_mod(v as int, 128);
        }
        assert(k >= 2) by {
            if k == 1 {
                vstd::arithmetic::power::lemma_pow1(128);
            }
        }
        lemma_varint_enc_len(v / 128, (k - 1) as nat);
    }
}

/// Append the varint encoding of `v` to `out`.
pub fn varint_encode(v: u64, out: &mut Vec<u8>)
    ensures
        final(out)@ == old(out)@ + varint_enc(v as nat),
{
    let mut x: u64 = v;
    while x >= 128
        invariant
            old(out)@ + varint_enc(v as nat) == out@ + varint_enc(x as nat),
        decreases x,
    {
        let ghost pre = out@;
        let b: u8 = ((x % 128) + 128) as u8;
        out.push(b);
        assert(pre + varint_enc(x as nat) =~= out@ + varint_enc((x / 128) as nat));
        assert(x / 128 < x) by (nonlinear_arith)
            requires
                x >= 128,
        ;
        x = x / 128;
    }
    out.push(x as u8);
    assert(out@ =~= old(out)@ + varint_enc(v as nat));
}

/// Decode a varint starting at `data[start]`. Returns the value and the
/// number of bytes consumed; `None` when no terminating byte lies within
/// `data`, or the value does not fit in 64 bits.
pub fn varint_decode(data: &[u8], start: usize) -> (r: Option<(u64, usize)>)
    requires
        start <= data@.len(),
    ensures
        match r {
            Some(p) => {
                &&& varint_dec(data@.skip(start as int)) == Some((p.0 as nat, p.1 as nat))
                &&& 1 <= p.1
                &&& start + p.1 <= data@.len()
            },
            None => match varint_dec(data@.skip(start as int)) {
                None => true,
                Some(q) => q.0 > u64::MAX,
            },
        },
        r is None <==> (varint_dec(data@.skip(start as int)) is None
            || (varint_dec(data@.skip(start as int)) matches Some(q) && q.0 > u64::MAX)),
    decreases data@.len() - start,
{
    if start >= data.len() {
        return None;
    }
    let b: u8 = data[start];
    if b < 128 {
        Some((b as u64, 1))
    } else {
        assert(data@.skip(start as int).skip(1) =~= data@.skip(start as int + 1));
        match varint_decode(data, start + 1) {
            None => {
                proof {
                    match varint_dec(data@.skip(start as int + 1)) {
                        Some(q) => {
                            assert((b - 128) as nat + 128 * q.0 > u64::MAX) by (nonlinear_arith)
                                requires
                                    q.0 > u64::MAX,
                            ;
                        },
                        None => {},
                    }
                }
                None
            },
            Some((v, n)) => {
                if v > (u64::MAX - 127) / 128 {
                    proof {
                        assert((b - 128) as nat + 128 * (v as nat) > u64::MAX) by (nonlinear_arith)
                            requires
                                v > (u64::MAX - 127) / 128,
                        ;
                    }
                    None
                } else {
                    let value: u64 = (b as u64 - 128) + 128 * v;
                    Some((value, n + 1))
                }
            },
        }
    }
}

} // verus!
