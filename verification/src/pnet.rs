//! The outermost obfuscation layer: a position-dependent XOR stream
//! keyed by a pre-shared key.
//!
//! The transform is an involution, so the same operation both encodes
//! and decodes; [`lemma_pnet_round_trip`] states that fact.

use vstd::prelude::*;

verus! {

/// Largest accepted pre-shared key, in bytes.
pub const MAX_PNET_KEY: usize = 65536;

/// A pre-shared key acceptable to this layer.
pub open spec fn pnet_key_ok(key: Seq<u8>) -> bool {
    0 < key.len() <= MAX_PNET_KEY
}

/// `data` combined bytewise with the key stream that starts `offset`
/// bytes into the repeated key.
pub open spec fn pnet_xform(key: Seq<u8>, offset: nat, data: Seq<u8>) -> Seq<u8> {
    Seq::new(data.len(), |i: int| data[i] ^ key[(offset + i) % (key.len() as int)])
}

/// Masking a byte twice with the same key byte gives it back.
proof fn lemma_xor_cancel(b: u8, k: u8)
    ensures
        (b ^ k) ^ k == b,
{
    assert((b ^ k) ^ k == b) by (bit_vector);
}

/// Applying the transform twice at the same offset gives the input
/// back: decoding inverts encoding for every byte sequence.
pub proof fn lemma_pnet_round_trip(key: Seq<u8>, offset: nat, data: Seq<u8>)
    requires
        pnet_key_ok(key),
    ensures
        pnet_xform(key, offset, pnet_xform(key, offset, data)) =~= data,
{
    assert forall|i: int| 0 <= i < data.len() implies pnet_xform(
        key,
        offset,
        pnet_xform(key, offset, data),
    )[i] == data[i] by {
        lemma_xor_cancel(data[i], key[(offset + i) % (key.len() as int)]);
    }
}

/// Combine `data` in place with the key stream starting at `offset`.
pub fn pnet_apply(key: &Vec<u8>, offset: usize, data: &mut Vec<u8>)
    requires
        pnet_key_ok(key@),
        offset < key@.len(),
    ensures
        final(data)@ == pnet_xform(key@, offset as nat, old(data)@),
{
    let klen = key.len();
    let dlen = data.len();
    let mut i: usize = 0;
    while i < dlen
        invariant
            i <= dlen,
            klen == key@.len(),
            0 < klen <= MAX_PNET_KEY,
            offset < klen,
            dlen == data@.len(),
            data@.len() == old(data)@.len(),
            forall|j: int|
                0 <= j < i ==> data@[j] == pnet_xform(key@, offset as nat, old(data)@)[j],
            forall|j: int| i <= j < dlen ==> data@[j] == old(data)@[j],
        decreases dlen - i,
    {
        let k = key[(offset + (i % klen)) % klen];
        let b = data[i];
        data[i] = b ^ k;
        proof {
            vstd::arithmetic::div_mod::lemma_add_mod_noop_right(offset as int, i as int, klen as int);
        }
        i = i + 1;
    }
    proof {
        assert(data@ =~= pnet_xform(key@, offset as nat, old(data)@));
    }
}

/// The key-stream offset after `len` more bytes have passed.
pub fn advance_offset(offset: usize, len: usize, klen: usize) -> (r: usize)
    requires
        0 < klen <= MAX_PNET_KEY,
        offset < klen,
    ensures
        r == (offset + len) % (klen as int),
        r < klen,
{
    let r = (offset + (len % klen)) % klen;
    proof {
        vstd::arithmetic::div_mod::lemma_add_mod_noop_right(offset as int, len as int, klen as int);
        vstd::arithmetic::div_mod::lemma_mod_bound(offset + len, klen as int);
    }
    r
}

} // verus!
