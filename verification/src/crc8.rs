//! The 8-bit checksum that protects every frame: a table-free CRC-8 with
//! polynomial `0xD5`, accumulated over the bytes from the type byte through
//! the end of the payload.

use vstd::prelude::*;

verus! {

/// One polynomial division round: shift left, folding the top bit back in
/// through the generator polynomial `0xD5`.
pub open spec fn crc8_shift(c: u8) -> u8 {
    if c & 0x80 != 0 {
        (c << 1) ^ 0xD5
    } else {
        c << 1
    }
}

/// `n` polynomial rounds applied to `c`.
pub open spec fn crc8_rounds(c: u8, n: nat) -> u8
    decreases n,
{
    if n == 0 {
        c
    } else {
        crc8_shift(crc8_rounds(c, (n - 1) as nat))
    }
}

/// Feeding one byte into a running accumulator: xor it in, then run the
/// eight polynomial rounds.
pub open spec fn crc8_step(c: u8, b: u8) -> u8 {
    crc8_rounds(c ^ b, 8)
}

/// Accumulating a whole byte sequence, left to right, starting from `c`.
pub open spec fn crc8_update(c: u8, s: Seq<u8>) -> u8
    decreases s.len(),
{
    if s.len() == 0 {
        c
    } else {
        crc8_step(crc8_update(c, s.drop_last()), s.last())
    }
}

/// The checksum of a byte sequence, from a fresh accumulator.
pub open spec fn crc8(s: Seq<u8>) -> u8 {
    crc8_update(0, s)
}

/// A running CRC-8 accumulator. Reset it once per frame, feed it byte
/// ranges as they become known, and read the checksum off at the end.
pub struct Crc8 {
    state: u8,
}

impl View for Crc8 {
    type V = u8;

    closed spec fn view(&self) -> u8 {
        self.state
    }
}

/// One byte folded into an accumulator value.
fn crc8_feed(c: u8, b: u8) -> (r: u8)
    ensures
        r == crc8_step(c, b),
{
    let mut x: u8 = c ^ b;
    let mut k: usize = 0;
    while k < 8
        invariant
            k <= 8,
            x == crc8_rounds((c ^ b), k as nat),
        decreases 8 - k,
    {
        if x & 0x80 != 0 {
            x = (x << 1) ^ 0xD5;
        } else {
            x = x << 1;
        }
        k = k + 1;
    }
    x
}

impl Crc8 {
    /// A fresh accumulator.
    pub fn new() -> (r: Self)
        ensures
            r@ == 0,
    {
        Crc8 { state: 0 }
    }

    /// Forget everything accumulated so far.
    pub fn reset(&mut self)
        ensures
            final(self)@ == 0,
    {
        self.state = 0;
    }

    /// Fold a byte range into the running accumulator.
    pub fn compute(&mut self, data: &[u8])
        ensures
            final(self)@ == crc8_update(old(self)@, data@),
    {
        let ghost c0: u8 = self.state;
        let mut i: usize = 0;
        while i < data.len()
            invariant
                i <= data@.len(),
                self@ == crc8_update(c0, data@.take(i as int)),
            decreases data@.len() - i,
        {
            let b: u8 = data[i];
            self.state = crc8_feed(self.state, b);
            proof {
                assert(data@.take(i + 1).drop_last() =~= data@.take(i as int));
                assert(data@.take(i + 1).last() == data@[i as int]);
            }
            i = i + 1;
        }
        proof {
            assert(data@.take(data@.len() as int) =~= data@);
        }
    }

    /// The checksum accumulated so far.
    pub fn get_checksum(&self) -> (r: u8)
        ensures
            r == self@,
    {
        self.state
    }
}

/// No two distinct accumulator values collide under one polynomial round.
proof fn lemma_shift_injective(a: u8, b: u8)
    by (bit_vector)
    ensures
        crc8_shift(a) == crc8_shift(b) ==> a == b,
{
}

/// No two distinct accumulator values collide under `n` polynomial rounds.
proof fn lemma_rounds_injective(a: u8, b: u8, n: nat)
    ensures
        crc8_rounds(a, n) == crc8_rounds(b, n) ==> a == b,
    decreases n,
{
    if n > 0 {
        lemma_rounds_injective(a, b, (n - 1) as nat);
        lemma_shift_injective(crc8_rounds(a, (n - 1) as nat), crc8_rounds(b, (n - 1) as nat));
    }
}

/// Feeding the same byte into two distinct accumulator values keeps them
/// distinct.
proof fn lemma_step_injective(a: u8, b: u8, x: u8)
    ensures
        crc8_step(a, x) == crc8_step(b, x) ==> a == b,
{
    assert((a ^ x) == (b ^ x) ==> a == b) by (bit_vector);
    lemma_rounds_injective((a ^ x) as u8, (b ^ x) as u8, 8);
}

/// Feeding two distinct bytes into the same accumulator value leaves
/// distinct accumulator values.
proof fn lemma_step_distinct(c: u8, x: u8, y: u8)
    ensures
        x != y ==> crc8_step(c, x) != crc8_step(c, y),
{
    assert(x != y ==> (c ^ x) != (c ^ y)) by (bit_vector);
    lemma_rounds_injective((c ^ x) as u8, (c ^ y) as u8, 8);
}

/// Accumulating the same byte sequence onto two distinct accumulator values
/// keeps them distinct.
proof fn lemma_update_injective(a: u8, b: u8, s: Seq<u8>)
    ensures
        crc8_update(a, s) == crc8_update(b, s) ==> a == b,
    decreases s.len(),
{
    if s.len() > 0 {
        lemma_update_injective(a, b, s.drop_last());
        lemma_step_injective(crc8_update(a, s.drop_last()), crc8_update(b, s.drop_last()), s.last());
    }
}

/// Accumulating a concatenation is accumulating the parts in turn.
pub proof fn lemma_crc8_update_append(c: u8, s1: Seq<u8>, s2: Seq<u8>)
    ensures
        crc8_update(c, s1 + s2) == crc8_update(crc8_update(c, s1), s2),
    decreases s2.len(),
{
    if s2.len() == 0 {
        assert(s1 + s2 =~= s1);
    } else {
        assert((s1 + s2).drop_last() =~= s1 + s2.drop_last());
        assert((s1 + s2).last() == s2.last());
        lemma_crc8_update_append(c, s1, s2.drop_last());
    }
}

/// Flipping any single byte of a sequence changes its checksum: the
/// polynomial detects every single-byte error.
pub proof fn lemma_crc8_single_byte_change(s1: Seq<u8>, s2: Seq<u8>, i: int)
    requires
        s1.len() == s2.len(),
        0 <= i < s1.len(),
        s1[i] != s2[i],
        forall|j: int| 0 <= j < s1.len() && j != i ==> s1[j] == s2[j],
    ensures
        crc8(s1) != crc8(s2),
{
    let pre1 = s1.take(i);
    let pre2 = s2.take(i);
    assert(pre1 =~= pre2);
    let c = crc8_update(0, pre1);
    let c1 = crc8_step(c, s1[i]);
    let c2 = crc8_step(c, s2[i]);
    lemma_step_distinct(c, s1[i], s2[i]);
    let post1 = s1.skip(i + 1);
    let post2 = s2.skip(i + 1);
    assert(post1 =~= post2);
    lemma_update_injective(c1, c2, post1);
    assert(s1 =~= (pre1 + seq![s1[i]]) + post1);
    assert(s2 =~= (pre2 + seq![s2[i]]) + post2);
    lemma_crc8_update_append(0, pre1 + seq![s1[i]], post1);
    lemma_crc8_update_append(0, pre2 + seq![s2[i]], post2);
    lemma_crc8_update_append(0, pre1, seq![s1[i]]);
    lemma_crc8_update_append(0, pre2, seq![s2[i]]);
    assert(seq![s1[i]].drop_last() =~= Seq::<u8>::empty());
    assert(seq![s2[i]].drop_last() =~= Seq::<u8>::empty());
    assert(seq![s1[i]].last() == s1[i]);
    assert(seq![s2[i]].last() == s2[i]);
    assert(crc8_update(c, Seq::<u8>::empty()) == c);
    assert(crc8_update(c, seq![s1[i]]) == c1);
    assert(crc8_update(c, seq![s2[i]]) == c2);
}

} // verus!
