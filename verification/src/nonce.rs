//! Iterating a local nonce: its first eight bytes are a little-endian counter that wraps
//! around; the other bytes never change.

use vstd::bytes::spec_u64_from_le_bytes;
use vstd::bytes::spec_u64_to_le_bytes;
use vstd::prelude::*;

use crate::types::LocalNonce;

verus! {

/// The counter held in the first eight bytes of a nonce.
pub open spec fn nonce_counter(bytes: Seq<u8>) -> u64 {
    spec_u64_from_le_bytes(bytes.subrange(0, 8))
}

/// The nonce with its counter replaced by `counter`.
pub open spec fn with_counter(bytes: Seq<u8>, counter: u64) -> Seq<u8> {
    spec_u64_to_le_bytes(counter) + bytes.subrange(8, bytes.len() as int)
}

/// The counter after it; it wraps around to zero.
pub open spec fn counter_after(counter: u64) -> u64 {
    if counter == u64::MAX {
        0
    } else {
        (counter + 1) as u64
    }
}

/// The counter before it; it wraps around to the largest value.
pub open spec fn counter_before(counter: u64) -> u64 {
    if counter == 0 {
        u64::MAX
    } else {
        (counter - 1) as u64
    }
}

/// The nonce that follows `bytes`.
pub open spec fn next_nonce(bytes: Seq<u8>) -> Seq<u8> {
    with_counter(bytes, counter_after(nonce_counter(bytes)))
}

/// The nonce that precedes `bytes`.
pub open spec fn prev_nonce(bytes: Seq<u8>) -> Seq<u8> {
    with_counter(bytes, counter_before(nonce_counter(bytes)))
}

proof fn lemma_counter_of_with_counter(bytes: Seq<u8>, counter: u64)
    requires
        bytes.len() == 32,
    ensures
        with_counter(bytes, counter).len() == 32,
        nonce_counter(with_counter(bytes, counter)) == counter,
        with_counter(bytes, counter).subrange(8, 32) == bytes.subrange(8, 32),
{
    vstd::bytes::lemma_auto_spec_u64_to_from_le_bytes();
    let w = with_counter(bytes, counter);
    assert(w.subrange(0, 8) =~= spec_u64_to_le_bytes(counter));
    assert(w.subrange(8, 32) =~= bytes.subrange(8, 32));
}

proof fn lemma_with_own_counter(bytes: Seq<u8>)
    requires
        bytes.len() == 32,
    ensures
        with_counter(bytes, nonce_counter(bytes)) == bytes,
{
    vstd::bytes::lemma_auto_spec_u64_to_from_le_bytes();
    let w = with_counter(bytes, nonce_counter(bytes));
    assert(spec_u64_to_le_bytes(spec_u64_from_le_bytes(bytes.subrange(0, 8))) == bytes.subrange(
        0,
        8,
    ));
    assert(w =~= bytes);
}

proof fn lemma_with_counter_twice(bytes: Seq<u8>, c1: u64, c2: u64)
    requires
        bytes.len() == 32,
    ensures
        with_counter(with_counter(bytes, c1), c2) == with_counter(bytes, c2),
{
    lemma_counter_of_with_counter(bytes, c1);
    assert(with_counter(with_counter(bytes, c1), c2) =~= with_counter(bytes, c2));
}

/// Going back from the next nonce gives the nonce itself, and so does going forward from the
/// previous one.
pub proof fn lemma_next_prev_inverse(bytes: Seq<u8>)
    requires
        bytes.len() == 32,
    ensures
        prev_nonce(next_nonce(bytes)) == bytes,
        next_nonce(prev_nonce(bytes)) == bytes,
{
    let c = nonce_counter(bytes);
    lemma_counter_of_with_counter(bytes, counter_after(c));
    lemma_counter_of_with_counter(bytes, counter_before(c));
    lemma_with_counter_twice(bytes, counter_after(c), c);
    lemma_with_counter_twice(bytes, counter_before(c), c);
    lemma_with_own_counter(bytes);
}

/// Moving to the next or to the previous nonce always changes the nonce.
pub proof fn lemma_next_prev_change(bytes: Seq<u8>)
    requires
        bytes.len() == 32,
    ensures
        next_nonce(bytes) != bytes,
        prev_nonce(bytes) != bytes,
        nonce_counter(next_nonce(bytes)) == counter_after(nonce_counter(bytes)),
        nonce_counter(prev_nonce(bytes)) == counter_before(nonce_counter(bytes)),
{
    let c = nonce_counter(bytes);
    lemma_counter_of_with_counter(bytes, counter_after(c));
    lemma_counter_of_with_counter(bytes, counter_before(c));
}

/// Reads the counter of a nonce.
fn read_counter(nonce: &LocalNonce) -> (r: u64)
    ensures
        r == nonce_counter(nonce.0@),
{
    let head: [u8; 8] = [
        nonce.0[0],
        nonce.0[1],
        nonce.0[2],
        nonce.0[3],
        nonce.0[4],
        nonce.0[5],
        nonce.0[6],
        nonce.0[7],
    ];
    proof {
        assert(head@ =~= nonce.0@.subrange(0, 8));
    }
    vstd::bytes::u64_from_le_bytes(vstd::array::array_as_slice(&head))
}

/// Writes the counter of a nonce, leaving its other bytes alone.
fn write_counter(nonce: &mut LocalNonce, counter: u64)
    ensures
        final(nonce).0@ == with_counter(old(nonce).0@, counter),
{
    let bytes = vstd::bytes::u64_to_le_bytes(counter);
    let mut out: [u8; 32] = nonce.0;
    let mut i: usize = 0;
    while i < 8
        invariant
            0 <= i <= 8,
            bytes@ == spec_u64_to_le_bytes(counter),
            bytes@.len() == 8,
            forall|j: int| 0 <= j < i ==> out@[j] == bytes@[j],
            forall|j: int| 8 <= j < 32 ==> out@[j] == old(nonce).0@[j],
        decreases 8 - i,
    {
        out[i] = bytes[i];
        i = i + 1;
    }
    nonce.0 = out;
    proof {
        assert(nonce.0@ =~= with_counter(old(nonce).0@, counter));
    }
}

impl LocalNonce {
    /// Moves to the next nonce.
    pub fn next(&mut self)
        ensures
            final(self).0@ == next_nonce(old(self).0@),
    {
        let counter = read_counter(self);
        let counter = counter.wrapping_add(1);
        write_counter(self, counter);
    }

    /// Goes back to the previous nonce.
    pub fn prev(&mut self)
        ensures
            final(self).0@ == prev_nonce(old(self).0@),
    {
        let counter = read_counter(self);
        let counter = counter.wrapping_sub(1);
        write_counter(self, counter);
    }

    /// The counter in the first eight bytes.
    pub fn counter(&self) -> (r: u64)
        ensures
            r == nonce_counter(self.0@),
    {
        read_counter(self)
    }

    /// A nonce drawn at random.
    pub fn random() -> (r: LocalNonce) {
        LocalNonce(random_bytes())
    }

    pub fn as_bytes(&self) -> (r: &[u8; 32])
        ensures
            *r == self.0,
    {
        &self.0
    }
}

/// Thirty-two random bytes from the thread-local generator of `rand` (`rand::random`); nothing
/// is stated of them.
#[verifier::external_body]
fn random_bytes() -> [u8; 32] {
    rand::random::<[u8; 32]>()
}

} // verus!
