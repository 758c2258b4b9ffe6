//! The per-direction session cipher of the transport layer: a keyed,
//! nonce-bound stream transform with an appended authentication tag.
//!
//! A frame is `ciphertext ++ tag`, where the ciphertext is the
//! plaintext combined with a key stream derived from the session key
//! and the nonce, and the 8-byte big-endian tag binds the ciphertext,
//! the key and the nonce together.  Decryption recomputes the tag and
//! refuses the frame when it differs, so a frame can only be opened
//! with the nonce it was sealed under.

use vstd::prelude::*;
use crate::error::DecodeError;
use crate::wire::{be_val, be_bytes, pow256, write_be, lemma_pow256_values, lemma_be_val_bound};

verus! {

/// Width of the authentication tag, in bytes.
pub const TAG_LEN: usize = 8;

/// Seed the tag fold is started from.
pub const TAG_SEED: u64 = 0x6a09e667f3bcc908;

/// A session key acceptable to the cipher.
pub open spec fn cipher_key_ok(key: Seq<u8>) -> bool {
    0 < key.len() <= 65536
}

/// Byte `i` of the nonce's little-endian repetition.
pub open spec fn nonce_byte(nonce: u64, i: int) -> u8 {
    ((nonce >> ((i % 8) * 8) as u64) & 0xff) as u8
}

/// Byte `i` of the key stream for `key` and `nonce`.
pub open spec fn ks_byte(key: Seq<u8>, nonce: u64, i: int) -> u8 {
    key[i % (key.len() as int)] ^ nonce_byte(nonce, i)
}

/// `data` combined bytewise with the key stream: its own inverse.
pub open spec fn stream_xor(key: Seq<u8>, nonce: u64, data: Seq<u8>) -> Seq<u8> {
    Seq::new(data.len(), |i: int| data[i] ^ ks_byte(key, nonce, i))
}

/// One step of the tag fold: rotate and mix one byte in.
pub open spec fn tag_step(acc: u64, b: u8) -> u64 {
    (((acc << 1) | (acc >> 63)) ^ (b as u64)) ^ 0xb7e151628aed2a6b
}

/// The tag fold over `s`, started from `acc`.
pub open spec fn tag_fold(acc: u64, s: Seq<u8>) -> u64
    decreases s.len(),
{
    if s.len() == 0 {
        acc
    } else {
        tag_fold(tag_step(acc, s.first()), s.drop_first())
    }
}

/// The authentication tag of ciphertext `c` under `key` and `nonce`.
pub open spec fn frame_tag(key: Seq<u8>, nonce: u64, c: Seq<u8>) -> u64 {
    tag_fold(tag_fold(TAG_SEED, key), c) ^ nonce
}

/// The sealed frame carrying `pt` under `key` and `nonce`.
pub open spec fn encrypt_spec(key: Seq<u8>, nonce: u64, pt: Seq<u8>) -> Seq<u8> {
    stream_xor(key, nonce, pt) + be_bytes(frame_tag(key, nonce, stream_xor(key, nonce, pt)) as nat, 8)
}

/// What opening `frame` under `key` and `nonce` yields: the plaintext
/// when the tag binds, nothing otherwise.
pub open spec fn decrypt_spec(key: Seq<u8>, nonce: u64, frame: Seq<u8>) -> Option<Seq<u8>> {
    if frame.len() < 8 {
        None
    } else {
        let c = frame.subrange(0, frame.len() - 8);
        let t = frame.subrange(frame.len() - 8, frame.len() as int);
        if be_val(t) == frame_tag(key, nonce, c) {
            Some(stream_xor(key, nonce, c))
        } else {
            None
        }
    }
}

/// Folding one more byte is one more step.
proof fn lemma_tag_fold_snoc(acc: u64, s: Seq<u8>, b: u8)
    ensures
        tag_fold(acc, s.push(b)) == tag_step(tag_fold(acc, s), b),
    decreases s.len(),
{
    if s.len() == 0 {
        assert(s.push(b).first() == b);
        assert(s.push(b).drop_first() =~= Seq::<u8>::empty());
        assert(tag_fold(acc, s.push(b)) == tag_fold(tag_step(acc, b), Seq::<u8>::empty()));
    } else {
        assert(s.push(b).first() == s.first());
        assert(s.push(b).drop_first() =~= s.drop_first().push(b));
        lemma_tag_fold_snoc(tag_step(acc, s.first()), s.drop_first(), b);
        assert(tag_fold(acc, s.push(b)) == tag_fold(tag_step(acc, s.first()), s.drop_first().push(b)));
    }
}

/// Run the tag fold over `v`, starting from `acc`.
fn fold_bytes(acc: u64, v: &Vec<u8>) -> (r: u64)
    ensures
        r == tag_fold(acc, v@),
{
    let mut r = acc;
    let mut i: usize = 0;
    let len = v.len();
    while i < len
        invariant
            i <= len,
            len == v@.len(),
            r == tag_fold(acc, v@.subrange(0, i as int)),
        decreases len - i,
    {
        proof {
            assert(v@.subrange(0, i + 1) =~= v@.subrange(0, i as int).push(v@[i as int]));
            lemma_tag_fold_snoc(acc, v@.subrange(0, i as int), v@[i as int]);
        }
        r = ((r << 1u64) | (r >> 63u64)) ^ (v[i] as u64) ^ 0xb7e151628aed2a6b;
        i = i + 1;
    }
    proof {
        assert(v@.subrange(0, len as int) =~= v@);
    }
    r
}

/// Combine `data` in place with the key stream for `key` and `nonce`.
fn apply_stream(key: &Vec<u8>, nonce: u64, data: &mut Vec<u8>)
    requires
        cipher_key_ok(key@),
    ensures
        final(data)@ == stream_xor(key@, nonce, old(data)@),
{
    let klen = key.len();
    let dlen = data.len();
    let mut i: usize = 0;
    while i < dlen
        invariant
            i <= dlen,
            klen == key@.len(),
            cipher_key_ok(key@),
            dlen == data@.len(),
            data@.len() == old(data)@.len(),
            forall|j: int|
                0 <= j < i ==> data@[j] == stream_xor(key@, nonce, old(data)@)[j],
            forall|j: int| i <= j < dlen ==> data@[j] == old(data)@[j],
        decreases dlen - i,
    {
        let shift = ((i % 8) * 8) as u64;
        let nb = ((nonce >> shift) & 0xff) as u8;
        let k = key[i % klen];
        let b = data[i];
        data[i] = b ^ k ^ nb;
        proof {
            assert(b ^ k ^ nb == b ^ (k ^ nb)) by (bit_vector);
        }
        i = i + 1;
    }
    proof {
        assert(data@ =~= stream_xor(key@, nonce, old(data)@));
    }
}

/// Seal `pt` into a frame under `key` and `nonce`.
pub fn encrypt(key: &Vec<u8>, nonce: u64, pt: Vec<u8>) -> (r: Vec<u8>)
    requires
        cipher_key_ok(key@),
    ensures
        r@ == encrypt_spec(key@, nonce, pt@),
{
    let mut c = pt;
    apply_stream(key, nonce, &mut c);
    let seed = fold_bytes(TAG_SEED, key);
    let tag = fold_bytes(seed, &c) ^ nonce;
    proof {
        lemma_pow256_values();
    }
    let mut t = write_be(tag, 8);
    c.append(&mut t);
    proof {
        assert(c@ =~= encrypt_spec(key@, nonce, pt@));
    }
    c
}

/// Open `frame` under `key` and `nonce`; refuse it when the tag does
/// not bind.
pub fn decrypt(key: &Vec<u8>, nonce: u64, frame: Vec<u8>) -> (r: Result<Vec<u8>, DecodeError>)
    requires
        cipher_key_ok(key@),
    ensures
        r is Ok <==> decrypt_spec(key@, nonce, frame@) is Some,
        r is Ok ==> r.unwrap()@ == decrypt_spec(key@, nonce, frame@).unwrap(),
        r is Err ==> r == Result::<Vec<u8>, DecodeError>::Err(DecodeError::Decrypt),
{
    if frame.len() < 8 {
        return Err(DecodeError::Decrypt);
    }
    let mut c = frame;
    let tail = c.len() - 8;
    let t = crate::wire::take_front(&mut c, tail);
    // after take_front, `t` holds the ciphertext and `c` the tag bytes
    let mut body = t;
    let tag_got = crate::wire::read_be(&c, 0, 8);
    let seed = fold_bytes(TAG_SEED, key);
    let tag_want = fold_bytes(seed, &body) ^ nonce;
    proof {
        assert(c@.subrange(0, 8) =~= c@);
    }
    if tag_got != tag_want {
        return Err(DecodeError::Decrypt);
    }
    apply_stream(key, nonce, &mut body);
    Ok(body)
}

/// Sealing and then opening under the same key and nonce gives the
/// plaintext back, for every plaintext and every nonce.
pub proof fn lemma_transport_round_trip(key: Seq<u8>, nonce: u64, pt: Seq<u8>)
    requires
        cipher_key_ok(key),
    ensures
        decrypt_spec(key, nonce, encrypt_spec(key, nonce, pt)) == Some(stream_xor(key, nonce, stream_xor(key, nonce, pt))),
        decrypt_spec(key, nonce, encrypt_spec(key, nonce, pt)) == Some(pt),
{
    let c = stream_xor(key, nonce, pt);
    let tag = frame_tag(key, nonce, c);
    let frame = encrypt_spec(key, nonce, pt);
    lemma_pow256_values();
    crate::wire::lemma_be_bytes_val(tag as nat, 8);
    assert(frame.subrange(0, frame.len() - 8) =~= c);
    assert(frame.subrange(frame.len() - 8, frame.len() as int) =~= be_bytes(tag as nat, 8));
    assert(be_val(be_bytes(tag as nat, 8)) == tag);
    assert forall|i: int| 0 <= i < pt.len() implies stream_xor(key, nonce, c)[i] == pt[i] by {
        let k = ks_byte(key, nonce, i);
        let b = pt[i];
        assert((b ^ k) ^ k == b) by (bit_vector);
    }
    assert(stream_xor(key, nonce, c) =~= pt);
}

/// Opening a frame under any nonce other than the one it was sealed
/// with fails: the tag no longer binds.
pub proof fn lemma_wrong_nonce_fails(key: Seq<u8>, sealed: u64, tried: u64, pt: Seq<u8>)
    requires
        cipher_key_ok(key),
        sealed != tried,
    ensures
        decrypt_spec(key, tried, encrypt_spec(key, sealed, pt)) is None,
{
    let c = stream_xor(key, sealed, pt);
    let tag = frame_tag(key, sealed, c);
    let frame = encrypt_spec(key, sealed, pt);
    lemma_pow256_values();
    crate::wire::lemma_be_bytes_val(tag as nat, 8);
    assert(frame.subrange(0, frame.len() - 8) =~= c);
    assert(frame.subrange(frame.len() - 8, frame.len() as int) =~= be_bytes(tag as nat, 8));
    let core = tag_fold(tag_fold(TAG_SEED, key), c);
    assert(core ^ sealed != core ^ tried) by (bit_vector)
        requires
            sealed != tried,
    ;
}

} // verus!
