use vstd::prelude::*;
use vstd::arithmetic::div_mod::{lemma_fundamental_div_mod, lemma_fundamental_div_mod_converse};

verus! {

/// The value a four-byte big-endian field holds.
pub open spec fn be32_val(s: Seq<u8>) -> u32
    recommends
        s.len() == 4,
{
    (s[0] * 0x100_0000 + s[1] * 0x1_0000 + s[2] * 0x100 + s[3]) as u32
}

/// The four-byte big-endian encoding of a 32-bit value.
pub open spec fn be32_bytes(v: u32) -> Seq<u8> {
    seq![
        (v / 0x100_0000) as u8,
        ((v / 0x1_0000) % 0x100) as u8,
        ((v / 0x100) % 0x100) as u8,
        (v % 0x100) as u8,
    ]
}

/// Decoding a big-endian field recovers the value it was encoded from.
pub proof fn lemma_be32_roundtrip(v: u32)
    ensures
        be32_val(be32_bytes(v)) == v,
{
    let q0 = v as int / 0x100;
    let q1 = q0 / 0x100;
    lemma_fundamental_div_mod(v as int, 0x100);
    lemma_fundamental_div_mod(q0, 0x100);
    lemma_fundamental_div_mod(q1, 0x100);
    assert(v as int / 0x1_0000 == q1 && v as int / 0x100_0000 == q1 / 0x100) by {
        vstd::arithmetic::div_mod::lemma_div_denominator(v as int, 0x100, 0x100);
        vstd::arithmetic::div_mod::lemma_div_denominator(v as int, 0x1_0000, 0x100);
        vstd::arithmetic::div_mod::lemma_div_denominator(q0, 0x100, 0x100);
    }
}

/// Encoding the value read from a four-byte field reproduces those bytes.
pub proof fn lemma_be32_inverse(s: Seq<u8>)
    requires
        s.len() == 4,
    ensures
        be32_bytes(be32_val(s)) =~= s,
{
    let v = be32_val(s) as int;
    lemma_fundamental_div_mod_converse(v, 0x100_0000, s[0] as int,
        s[1] * 0x1_0000 + s[2] * 0x100 + s[3]);
    lemma_fundamental_div_mod_converse(v, 0x1_0000, s[0] * 0x100 + s[1],
        s[2] * 0x100 + s[3]);
    lemma_fundamental_div_mod_converse(v, 0x100, (s[0] * 0x1_0000 + s[1] * 0x100 + s[2]) as int,
        s[3] as int);
    lemma_fundamental_div_mod_converse(s[0] * 0x100 + s[1], 0x100, s[0] as int, s[1] as int);
    lemma_fundamental_div_mod_converse(s[0] * 0x1_0000 + s[1] * 0x100 + s[2], 0x100,
        (s[0] * 0x100 + s[1]) as int, s[2] as int);
}

/// Reads a 32-bit value from four bytes, most significant first.
pub fn u32_from_be(b0: u8, b1: u8, b2: u8, b3: u8) -> (r: u32)
    ensures
        r == be32_val(seq![b0, b1, b2, b3]),
{
    (b0 as u32) * 0x100_0000 + (b1 as u32) * 0x1_0000 + (b2 as u32) * 0x100 + (b3 as u32)
}

/// Writes a 32-bit value as four bytes, most significant first.
pub fn u32_to_be(v: u32) -> (r: Vec<u8>)
    ensures
        r@ == be32_bytes(v),
{
    let mut out: Vec<u8> = Vec::new();
    out.push((v / 0x100_0000) as u8);
    out.push(((v / 0x1_0000) % 0x100) as u8);
    out.push(((v / 0x100) % 0x100) as u8);
    out.push((v % 0x100) as u8);
    proof {
        assert(out@ =~= be32_bytes(v));
    }
    out
}

} // verus!
