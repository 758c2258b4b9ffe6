//! The handshake and transport-encryption layer.
//!
//! Two fixed-role handshake messages (one per direction) carry the key
//! material the session keys are derived from; after both are seen the
//! handler is in its steady transport state and opens length-prefixed
//! sealed frames, one independent key and nonce counter per direction.
//! Any malformed handshake message, any frame that fails to open, and
//! any oversized frame ends decoding of this stream for good.

use vstd::prelude::*;
use crate::accumulator::PendingBuffer;
use crate::cipher::{cipher_key_ok, decrypt, decrypt_spec, stream_xor, frame_tag};
use crate::error::DecodeError;
use crate::ids::Direction;
use crate::wire::{be_val, read_be, lemma_be_val_bound, lemma_pow256_values};

verus! {

/// Width of a handshake public value, in bytes.
pub const HS_KEY_LEN: usize = 32;

/// Phase of the handshake state machine.
#[derive(Clone, Copy, PartialEq, Eq, Structural, Debug)]
pub enum NoiseStep {
    /// Waiting for the initiator's handshake message.
    AwaitMsg1,
    /// Waiting for the responder's handshake message.
    AwaitMsg2,
    /// Steady state: opening sealed transport frames.
    Transport,
    /// Decoding of this stream has ended.
    Failed,
}

/// The mathematical state of the layer.
#[verifier::ext_equal]
pub struct NoiseModel {
    /// Phase of the handshake.
    pub step: NoiseStep,
    /// Public value of the initiator's handshake message.
    pub e1: Seq<u8>,
    /// Session key for initiator-to-responder frames.
    pub key_out: Seq<u8>,
    /// Session key for responder-to-initiator frames.
    pub key_in: Seq<u8>,
    /// Next expected nonce, per direction.
    pub nonce_out: u64,
    /// Next expected nonce for inbound frames.
    pub nonce_in: u64,
    /// Bytes waiting, per direction.
    pub pend_out: Seq<u8>,
    /// Bytes waiting for the inbound direction.
    pub pend_in: Seq<u8>,
}

impl NoiseModel {
    /// The waiting bytes of the given direction.
    pub open spec fn pend(&self, direction: Direction) -> Seq<u8> {
        match direction {
            Direction::Outbound => self.pend_out,
            Direction::Inbound => self.pend_in,
        }
    }
}

/// What parsing one handshake message from the front of `full` gives.
pub enum HsParse {
    /// Not enough bytes yet.
    Incomplete,
    /// The length field names anything but one public value.
    Bad,
    /// The public value and the bytes after the message.
    Done(Seq<u8>, Seq<u8>),
}

/// Parse one length-prefixed handshake message.
pub open spec fn parse_handshake(full: Seq<u8>) -> HsParse {
    if full.len() < 2 {
        HsParse::Incomplete
    } else if be_val(full.subrange(0, 2)) != HS_KEY_LEN {
        HsParse::Bad
    } else if full.len() < 2 + HS_KEY_LEN {
        HsParse::Incomplete
    } else {
        HsParse::Done(
            full.subrange(2, (2 + HS_KEY_LEN) as int),
            full.subrange((2 + HS_KEY_LEN) as int, full.len() as int),
        )
    }
}

/// The session key both public values yield for one direction.
pub open spec fn session_key(e1: Seq<u8>, e2: Seq<u8>, direction: Direction) -> Seq<u8> {
    Seq::new(
        HS_KEY_LEN as nat,
        |i: int| e1[i] ^ e2[i] ^ (match direction {
            Direction::Outbound => 0xaa,
            Direction::Inbound => 0x55,
        }),
    )
}

/// What repeatedly opening complete frames from the front of `buf`
/// gives: the concatenated plaintext, the bytes left waiting, the next
/// nonce, and the error that stopped decoding, if one did.
pub open spec fn transport_stream(key: Seq<u8>, nonce: u64, buf: Seq<u8>, max: nat) -> (
    Seq<u8>,
    Seq<u8>,
    u64,
    Option<DecodeError>,
)
    decreases buf.len(),
{
    if buf.len() < 2 {
        (Seq::<u8>::empty(), buf, nonce, None)
    } else {
        let flen = be_val(buf.subrange(0, 2));
        if flen > max {
            (Seq::<u8>::empty(), buf, nonce, Some(DecodeError::Framing))
        } else if buf.len() < flen + 2 {
            (Seq::<u8>::empty(), buf, nonce, None)
        } else if nonce == u64::MAX {
            (Seq::<u8>::empty(), buf, nonce, Some(DecodeError::Decrypt))
        } else {
            let frame = buf.subrange(2, (2 + flen) as int);
            let rest = buf.subrange((2 + flen) as int, buf.len() as int);
            match decrypt_spec(key, nonce, frame) {
                Some(pt) => {
                    let tail = transport_stream(key, (nonce + 1) as u64, rest, max);
                    (pt + tail.0, tail.1, tail.2, tail.3)
                },
                None => (Seq::<u8>::empty(), rest, nonce, Some(DecodeError::Decrypt)),
            }
        }
    }
}

/// Run the state machine as far as the waiting bytes allow: the new
/// state, the plaintext produced for each direction, and the error
/// that ended decoding, if one did.
pub open spec fn noise_run(m: NoiseModel, max: nat) -> (NoiseModel, Seq<u8>, Seq<u8>, Option<
    DecodeError,
>)
    decreases (match m.step {
        NoiseStep::AwaitMsg1 => 2int,
        NoiseStep::AwaitMsg2 => 1int,
        NoiseStep::Transport => 0int,
        NoiseStep::Failed => 0int,
    }),
{
    match m.step {
        NoiseStep::Failed => (m, Seq::<u8>::empty(), Seq::<u8>::empty(), None),
        NoiseStep::AwaitMsg1 => match parse_handshake(m.pend_out) {
            HsParse::Incomplete => (m, Seq::<u8>::empty(), Seq::<u8>::empty(), None),
            HsParse::Bad => (
                NoiseModel { step: NoiseStep::Failed, ..m },
                Seq::<u8>::empty(),
                Seq::<u8>::empty(),
                Some(DecodeError::Handshake),
            ),
            HsParse::Done(e1, rest) => noise_run(
                NoiseModel { step: NoiseStep::AwaitMsg2, e1, pend_out: rest, ..m },
                max,
            ),
        },
        NoiseStep::AwaitMsg2 => match parse_handshake(m.pend_in) {
            HsParse::Incomplete => (m, Seq::<u8>::empty(), Seq::<u8>::empty(), None),
            HsParse::Bad => (
                NoiseModel { step: NoiseStep::Failed, ..m },
                Seq::<u8>::empty(),
                Seq::<u8>::empty(),
                Some(DecodeError::Handshake),
            ),
            HsParse::Done(e2, rest) => noise_run(
                NoiseModel {
                    step: NoiseStep::Transport,
                    key_out: session_key(m.e1, e2, Direction::Outbound),
                    key_in: session_key(m.e1, e2, Direction::Inbound),
                    nonce_out: 0,
                    nonce_in: 0,
                    pend_in: rest,
                    ..m
                },
                max,
            ),
        },
        NoiseStep::Transport => {
            let t_out = transport_stream(m.key_out, m.nonce_out, m.pend_out, max);
            if t_out.3 is Some {
                (
                    NoiseModel {
                        step: NoiseStep::Failed,
                        pend_out: t_out.1,
                        nonce_out: t_out.2,
                        ..m
                    },
                    Seq::<u8>::empty(),
                    Seq::<u8>::empty(),
                    t_out.3,
                )
            } else {
                let t_in = transport_stream(m.key_in, m.nonce_in, m.pend_in, max);
                if t_in.3 is Some {
                    (
                        NoiseModel {
                            step: NoiseStep::Failed,
                            pend_out: t_out.1,
                            nonce_out: t_out.2,
                            pend_in: t_in.1,
                            nonce_in: t_in.2,
                            ..m
                        },
                        Seq::<u8>::empty(),
                        Seq::<u8>::empty(),
                        t_in.3,
                    )
                } else {
                    (
                        NoiseModel {
                            pend_out: t_out.1,
                            nonce_out: t_out.2,
                            pend_in: t_in.1,
                            nonce_in: t_in.2,
                            ..m
                        },
                        t_out.0,
                        t_in.0,
                        None,
                    )
                }
            }
        },
    }
}

/// Open complete frames from the front of `buf` under `key`, starting
/// at `nonce`: the concatenated plaintext, the next nonce, and the
/// error that stopped decoding, if one did.
fn run_transport(key: &Vec<u8>, nonce: u64, buf: &mut PendingBuffer, max: usize) -> (r: (
    Vec<u8>,
    u64,
    Option<DecodeError>,
))
    requires
        cipher_key_ok(key@),
        old(buf).wf(),
    ensures
        final(buf).wf(),
        final(buf).spec_limit() == old(buf).spec_limit(),
        ({
            let t = transport_stream(key@, nonce, old(buf)@, max as nat);
            &&& r.0@ == t.0
            &&& final(buf)@ == t.1
            &&& r.1 == t.2
            &&& r.2 == t.3
        }),
{
    let ghost buf0 = buf@;
    let ghost t0 = transport_stream(key@, nonce, buf0, max as nat);
    let mut plain: Vec<u8> = Vec::new();
    let mut cur_nonce: u64 = nonce;
    let mut done = false;
    proof {
        assert(t0.0 =~= plain@ + t0.0);
    }
    while !done
        invariant
            buf.wf(),
            buf.spec_limit() == old(buf).spec_limit(),
            cipher_key_ok(key@),
            buf0 == old(buf)@,
            t0 == transport_stream(key@, nonce, buf0, max as nat),
            t0.0 =~= plain@ + transport_stream(key@, cur_nonce, buf@, max as nat).0,
            t0.1 == transport_stream(key@, cur_nonce, buf@, max as nat).1,
            t0.2 == transport_stream(key@, cur_nonce, buf@, max as nat).2,
            t0.3 == transport_stream(key@, cur_nonce, buf@, max as nat).3,
            done ==> transport_stream(key@, cur_nonce, buf@, max as nat) == (
                Seq::<u8>::empty(),
                buf@,
                cur_nonce,
                Option::<DecodeError>::None,
            ),
        decreases buf@.len(), (if done { 0int } else { 1int }),
    {
        if buf.len() < 2 {
            done = true;
        } else {
            proof {
                lemma_be_val_bound(buf@.subrange(0, 2));
                lemma_pow256_values();
            }
            let flen64 = read_be(buf.bytes(), 0, 2);
            if flen64 > max as u64 {
                proof {
                    assert(t0.0 =~= plain@);
                }
                return (plain, cur_nonce, Some(DecodeError::Framing));
            }
            let flen = flen64 as usize;
            if buf.len() - 2 < flen {
                done = true;
            } else if cur_nonce == u64::MAX {
                proof {
                    assert(t0.0 =~= plain@);
                }
                return (plain, cur_nonce, Some(DecodeError::Decrypt));
            } else {
                let ghost cur = buf@;
                let header = buf.take(2);
                let frame = buf.take(flen);
                proof {
                    assert(frame@ =~= cur.subrange(2, 2 + flen));
                    assert(buf@ =~= cur.subrange(2 + flen, cur.len() as int));
                }
                match decrypt(key, cur_nonce, frame) {
                    Ok(mut pt) => {
                        let ghost ptv = pt@;
                        let ghost prev_plain = plain@;
                        plain.append(&mut pt);
                        cur_nonce = cur_nonce + 1;
                        proof {
                            assert(plain@ =~= prev_plain + ptv);
                            assert(prev_plain + (ptv + transport_stream(
                                key@,
                                cur_nonce,
                                buf@,
                                max as nat,
                            ).0) =~= plain@ + transport_stream(
                                key@,
                                cur_nonce,
                                buf@,
                                max as nat,
                            ).0);
                        }
                    },
                    Err(_) => {
                        proof {
                            assert(t0.0 =~= plain@);
                        }
                        return (plain, cur_nonce, Some(DecodeError::Decrypt));
                    },
                }
            }
        }
    }
    proof {
        assert(t0.0 =~= plain@);
    }
    (plain, cur_nonce, None)
}

/// What one call does to the handshake and transport stage: the new
/// state, the plaintext produced per direction, and the error, if one
/// arises.  A failed stage stays silent; an overlong buffer is a
/// framing error; otherwise the state machine runs as far as the
/// buffered bytes allow.
pub open spec fn noise_step(
    m: NoiseModel,
    direction: Direction,
    bytes: Seq<u8>,
    max: nat,
    limit: nat,
) -> (NoiseModel, Seq<u8>, Seq<u8>, Option<DecodeError>) {
    if m.step == NoiseStep::Failed {
        (m, Seq::<u8>::empty(), Seq::<u8>::empty(), None)
    } else if m.pend(direction).len() + bytes.len() > limit {
        (m, Seq::<u8>::empty(), Seq::<u8>::empty(), Some(DecodeError::Framing))
    } else {
        noise_run(
            NoiseModel {
                pend_out: (match direction {
                    Direction::Outbound => m.pend_out + bytes,
                    Direction::Inbound => m.pend_out,
                }),
                pend_in: (match direction {
                    Direction::Outbound => m.pend_in,
                    Direction::Inbound => m.pend_in + bytes,
                }),
                ..m
            },
            max,
        )
    }
}

/// The transport loop stops only for an oversized claim or a frame
/// that would not open.
pub proof fn lemma_transport_errors(key: Seq<u8>, nonce: u64, buf: Seq<u8>, max: nat)
    ensures
        (match transport_stream(key, nonce, buf, max).3 {
            Some(e) => e == DecodeError::Framing || e == DecodeError::Decrypt,
            None => true,
        }),
    decreases buf.len(),
{
    if buf.len() >= 2 {
        let flen = be_val(buf.subrange(0, 2));
        if flen <= max && buf.len() >= flen + 2 && nonce != u64::MAX {
            let rest = buf.subrange((2 + flen) as int, buf.len() as int);
            lemma_transport_errors(key, (nonce + 1) as u64, rest, max);
        }
    }
}

/// The layer's errors are the stream's own: a malformed handshake
/// message, an oversized frame, or a frame that would not open.
pub proof fn lemma_noise_run_errors(m: NoiseModel, max: nat)
    ensures
        (match noise_run(m, max).3 {
            Some(e) => e == DecodeError::Handshake || e == DecodeError::Framing || e
                == DecodeError::Decrypt,
            None => true,
        }),
    decreases (match m.step {
        NoiseStep::AwaitMsg1 => 2int,
        NoiseStep::AwaitMsg2 => 1int,
        NoiseStep::Transport => 0int,
        NoiseStep::Failed => 0int,
    }),
{
    match m.step {
        NoiseStep::AwaitMsg1 => match parse_handshake(m.pend_out) {
            HsParse::Done(e1, rest) => {
                lemma_noise_run_errors(
                    NoiseModel { step: NoiseStep::AwaitMsg2, e1, pend_out: rest, ..m },
                    max,
                );
            },
            _ => (),
        },
        NoiseStep::AwaitMsg2 => match parse_handshake(m.pend_in) {
            HsParse::Done(e2, rest) => {
                lemma_noise_run_errors(
                    NoiseModel {
                        step: NoiseStep::Transport,
                        key_out: session_key(m.e1, e2, Direction::Outbound),
                        key_in: session_key(m.e1, e2, Direction::Inbound),
                        nonce_out: 0,
                        nonce_in: 0,
                        pend_in: rest,
                        ..m
                    },
                    max,
                );
            },
            _ => (),
        },
        NoiseStep::Transport => {
            lemma_transport_errors(m.key_out, m.nonce_out, m.pend_out, max);
            lemma_transport_errors(m.key_in, m.nonce_in, m.pend_in, max);
        },
        NoiseStep::Failed => (),
    }
}

/// What [`seal_frame`] puts on the wire for `pt` under `key` and
/// `nonce`.
pub open spec fn sealed_frame(key: Seq<u8>, nonce: u64, pt: Seq<u8>) -> Seq<u8> {
    crate::wire::be_bytes((pt.len() + 8) as nat, 2) + crate::cipher::encrypt_spec(key, nonce, pt)
}

/// The transport layer opens a sealed frame under the nonce it was
/// sealed with, yields exactly its plaintext, and moves to the next
/// nonce; this holds for every plaintext and every nonce in sequence
/// order.
pub proof fn lemma_transport_opens_sealed_frame(key: Seq<u8>, nonce: u64, pt: Seq<u8>, max: nat)
    requires
        cipher_key_ok(key),
        pt.len() + 8 <= max,
        max < 65536,
        nonce < u64::MAX,
    ensures
        transport_stream(key, nonce, sealed_frame(key, nonce, pt), max) == (
            pt,
            Seq::<u8>::empty(),
            (nonce + 1) as u64,
            Option::<DecodeError>::None,
        ),
{
    let flen = (pt.len() + 8) as nat;
    let frame = sealed_frame(key, nonce, pt);
    lemma_pow256_values();
    crate::wire::lemma_be_bytes_val(flen, 2);
    assert(frame.subrange(0, 2) =~= crate::wire::be_bytes(flen, 2));
    crate::cipher::lemma_transport_round_trip(key, nonce, pt);
    assert(crate::cipher::encrypt_spec(key, nonce, pt).len() == pt.len() + 8) by {
        crate::wire::lemma_be_bytes_val(
            crate::cipher::frame_tag(
                key,
                nonce,
                crate::cipher::stream_xor(key, nonce, pt),
            ) as nat,
            8,
        );
    };
    assert(frame.subrange(2, (2 + flen) as int) =~= crate::cipher::encrypt_spec(key, nonce, pt));
    assert(frame.subrange((2 + flen) as int, frame.len() as int) =~= Seq::<u8>::empty());
    assert(transport_stream(key, (nonce + 1) as u64, Seq::<u8>::empty(), max) == (
        Seq::<u8>::empty(),
        Seq::<u8>::empty(),
        (nonce + 1) as u64,
        Option::<DecodeError>::None,
    ));
    assert(pt + Seq::<u8>::empty() =~= pt);
}

/// Seal `pt` into one length-prefixed transport frame under `key` and
/// `nonce`, as the transport layer expects to find it on the wire.
pub fn seal_frame(key: &Vec<u8>, nonce: u64, pt: Vec<u8>) -> (r: Vec<u8>)
    requires
        cipher_key_ok(key@),
        pt@.len() + 8 < 65536,
    ensures
        r@ == crate::wire::be_bytes((pt@.len() + 8) as nat, 2) + crate::cipher::encrypt_spec(
            key@,
            nonce,
            pt@,
        ),
{
    proof {
        lemma_pow256_values();
    }
    let mut body = crate::cipher::encrypt(key, nonce, pt);
    proof {
        crate::wire::lemma_be_bytes_val(
            crate::cipher::frame_tag(key@, nonce, crate::cipher::stream_xor(key@, nonce, pt@))
                as nat,
            8,
        );
    }
    let mut r = crate::wire::write_be(body.len() as u64, 2);
    r.append(&mut body);
    r
}

/// One length-prefixed handshake message carrying `public`.
pub fn handshake_message(public: &Vec<u8>) -> (r: Vec<u8>)
    requires
        public@.len() == HS_KEY_LEN,
    ensures
        r@ == crate::wire::be_bytes(HS_KEY_LEN as nat, 2) + public@,
{
    proof {
        lemma_pow256_values();
    }
    let mut r = crate::wire::write_be(HS_KEY_LEN as u64, 2);
    r.extend_from_slice(public.as_slice());
    r
}

/// The handshake and transport handler of one physical connection.
pub struct NoiseHandler {
    step: NoiseStep,
    e1: Vec<u8>,
    key_out: Vec<u8>,
    key_in: Vec<u8>,
    nonce_out: u64,
    nonce_in: u64,
    buf_out: PendingBuffer,
    buf_in: PendingBuffer,
    max_frame: usize,
}

impl NoiseHandler {
    /// The mathematical state of this handler.
    pub closed spec fn model(&self) -> NoiseModel {
        NoiseModel {
            step: self.step,
            e1: self.e1@,
            key_out: self.key_out@,
            key_in: self.key_in@,
            nonce_out: self.nonce_out,
            nonce_in: self.nonce_in,
            pend_out: self.buf_out@,
            pend_in: self.buf_in@,
        }
    }

    /// Buffers respect their (equal) limits, and the state carries the
    /// key material its phase needs.
    pub closed spec fn wf(&self) -> bool {
        &&& self.buf_out.wf()
        &&& self.buf_in.wf()
        &&& self.buf_out.spec_limit() == self.buf_in.spec_limit()
        &&& self.step == NoiseStep::AwaitMsg2 ==> self.e1@.len() == HS_KEY_LEN
        &&& self.step == NoiseStep::Transport ==> cipher_key_ok(self.key_out@) && cipher_key_ok(
            self.key_in@,
        )
    }

    /// The configured per-direction buffering bound.
    pub closed spec fn buffer_limit(&self) -> usize {
        self.buf_out.spec_limit()
    }

    /// The largest accepted transport frame.
    pub closed spec fn spec_max(&self) -> usize {
        self.max_frame
    }

    /// A fresh handler awaiting the initiator's handshake message.
    pub fn new(max_frame: usize, buffer_limit: usize) -> (r: NoiseHandler)
        ensures
            r.wf(),
            r.spec_max() == max_frame,
            r.buffer_limit() == buffer_limit,
            r.model() =~= (NoiseModel {
                step: NoiseStep::AwaitMsg1,
                e1: Seq::<u8>::empty(),
                key_out: Seq::<u8>::empty(),
                key_in: Seq::<u8>::empty(),
                nonce_out: 0,
                nonce_in: 0,
                pend_out: Seq::<u8>::empty(),
                pend_in: Seq::<u8>::empty(),
            }),
    {
        NoiseHandler {
            step: NoiseStep::AwaitMsg1,
            e1: Vec::new(),
            key_out: Vec::new(),
            key_in: Vec::new(),
            nonce_out: 0,
            nonce_in: 0,
            buf_out: PendingBuffer::new(buffer_limit),
            buf_in: PendingBuffer::new(buffer_limit),
            max_frame,
        }
    }

    /// Derive both session keys from the two public values.
    fn derive_keys(&mut self, e2: &Vec<u8>)
        requires
            old(self).e1@.len() == HS_KEY_LEN,
            e2@.len() == HS_KEY_LEN,
        ensures
            final(self).key_out@ =~= session_key(old(self).e1@, e2@, Direction::Outbound),
            final(self).key_in@ =~= session_key(old(self).e1@, e2@, Direction::Inbound),
            final(self).step == old(self).step,
            final(self).e1@ == old(self).e1@,
            final(self).nonce_out == old(self).nonce_out,
            final(self).nonce_in == old(self).nonce_in,
            final(self).buf_out == old(self).buf_out,
            final(self).buf_in == old(self).buf_in,
            final(self).max_frame == old(self).max_frame,
    {
        let mut ko: Vec<u8> = Vec::new();
        let mut ki: Vec<u8> = Vec::new();
        let mut i: usize = 0;
        while i < HS_KEY_LEN
            invariant
                i <= HS_KEY_LEN,
                self.e1@.len() == HS_KEY_LEN,
                e2@.len() == HS_KEY_LEN,
                *self == *old(self),
                ko@.len() == i,
                ki@.len() == i,
                forall|j: int|
                    0 <= j < i ==> ko@[j] == session_key(self.e1@, e2@, Direction::Outbound)[j],
                forall|j: int|
                    0 <= j < i ==> ki@[j] == session_key(self.e1@, e2@, Direction::Inbound)[j],
            decreases HS_KEY_LEN - i,
        {
            let a = self.e1[i];
            let b = e2[i];
            ko.push(a ^ b ^ 0xaa);
            ki.push(a ^ b ^ 0x55);
            i = i + 1;
        }
        self.key_out = ko;
        self.key_in = ki;
        proof {
            assert(self.key_out@ =~= session_key(self.e1@, e2@, Direction::Outbound));
            assert(self.key_in@ =~= session_key(self.e1@, e2@, Direction::Inbound));
        }
    }

    /// Feed one directed chunk: advance the handshake as far as the
    /// buffered bytes allow, then open every complete transport frame,
    /// returning the plaintext produced for each direction.
    pub fn on_data(&mut self, direction: Direction, bytes: &Vec<u8>) -> (r: Result<
        (Vec<u8>, Vec<u8>),
        DecodeError,
    >)
        requires
            old(self).wf(),
        ensures
            final(self).wf(),
            final(self).spec_max() == old(self).spec_max(),
            final(self).buffer_limit() == old(self).buffer_limit(),
            ({
                let t = noise_step(
                    old(self).model(),
                    direction,
                    bytes@,
                    old(self).spec_max() as nat,
                    old(self).buffer_limit() as nat,
                );
                &&& final(self).model() =~= t.0
                &&& (r is Ok <==> t.3 is None)
                &&& t.3 is Some ==> r == Result::<(Vec<u8>, Vec<u8>), DecodeError>::Err(
                    t.3.unwrap(),
                )
                &&& r is Ok ==> r.unwrap().0@ == t.1 && r.unwrap().1@ == t.2
            }),
            old(self).model().step == NoiseStep::Failed ==> r is Ok && r.unwrap().0@
                =~= Seq::<u8>::empty() && r.unwrap().1@ =~= Seq::<u8>::empty()
                && final(self).model() =~= old(self).model(),
            ({
                let m0 = NoiseModel {
                    pend_out: (match direction {
                        Direction::Outbound => old(self).model().pend_out + bytes@,
                        Direction::Inbound => old(self).model().pend_out,
                    }),
                    pend_in: (match direction {
                        Direction::Outbound => old(self).model().pend_in,
                        Direction::Inbound => old(self).model().pend_in + bytes@,
                    }),
                    ..old(self).model()
                };
                let outcome = noise_run(m0, old(self).spec_max() as nat);
                &&& old(self).model().step != NoiseStep::Failed && old(self).model().pend(
                    direction,
                ).len() + bytes@.len() > old(self).buffer_limit() ==> r == Result::<
                    (Vec<u8>, Vec<u8>),
                    DecodeError,
                >::Err(DecodeError::Framing) && final(self).model() =~= old(self).model()
                &&& old(self).model().step != NoiseStep::Failed && old(self).model().pend(
                    direction,
                ).len() + bytes@.len() <= old(self).buffer_limit() ==> {
                    &&& final(self).model() =~= outcome.0
                    &&& outcome.3 is Some <==> r is Err
                    &&& outcome.3 is Some ==> r == Result::<(Vec<u8>, Vec<u8>), DecodeError>::Err(
                        outcome.3.unwrap(),
                    )
                    &&& r is Ok ==> r.unwrap().0@ == outcome.1 && r.unwrap().1@ == outcome.2
                }
            }),
    {
        if matches!(self.step, NoiseStep::Failed) {
            return Ok((Vec::new(), Vec::new()));
        }
        let appended = match direction {
            Direction::Outbound => self.buf_out.append(bytes),
            Direction::Inbound => self.buf_in.append(bytes),
        };
        match appended {
            Ok(()) => (),
            Err(e) => {
                return Err(e);
            },
        }
        let ghost m0 = self.model();
        let ghost outcome = noise_run(m0, self.max_frame as nat);
        if matches!(self.step, NoiseStep::AwaitMsg1) {
            if self.buf_out.len() < 2 {
                return Ok((Vec::new(), Vec::new()));
            }
            proof {
                lemma_be_val_bound(self.buf_out@.subrange(0, 2));
                lemma_pow256_values();
            }
            let mlen = read_be(self.buf_out.bytes(), 0, 2);
            if mlen != HS_KEY_LEN as u64 {
                self.step = NoiseStep::Failed;
                return Err(DecodeError::Handshake);
            }
            if self.buf_out.len() < 2 + HS_KEY_LEN {
                return Ok((Vec::new(), Vec::new()));
            }
            let ghost cur = self.buf_out@;
            let header = self.buf_out.take(2);
            let e1v = self.buf_out.take(HS_KEY_LEN);
            proof {
                assert(e1v@ =~= cur.subrange(2, (2 + HS_KEY_LEN) as int));
                assert(self.buf_out@ =~= cur.subrange((2 + HS_KEY_LEN) as int, cur.len() as int));
            }
            self.e1 = e1v;
            self.step = NoiseStep::AwaitMsg2;
            proof {
                assert(noise_run(m0, self.max_frame as nat) == noise_run(
                    self.model(),
                    self.max_frame as nat,
                ));
            }
        }
        let ghost m1 = self.model();
        if matches!(self.step, NoiseStep::AwaitMsg2) {
            if self.buf_in.len() < 2 {
                proof {
                    assert(self.model() =~= outcome.0);
                }
                return Ok((Vec::new(), Vec::new()));
            }
            proof {
                lemma_be_val_bound(self.buf_in@.subrange(0, 2));
                lemma_pow256_values();
            }
            let mlen = read_be(self.buf_in.bytes(), 0, 2);
            if mlen != HS_KEY_LEN as u64 {
                self.step = NoiseStep::Failed;
                return Err(DecodeError::Handshake);
            }
            if self.buf_in.len() < 2 + HS_KEY_LEN {
                return Ok((Vec::new(), Vec::new()));
            }
            let ghost cur = self.buf_in@;
            let header = self.buf_in.take(2);
            let e2v = self.buf_in.take(HS_KEY_LEN);
            proof {
                assert(e2v@ =~= cur.subrange(2, (2 + HS_KEY_LEN) as int));
                assert(self.buf_in@ =~= cur.subrange((2 + HS_KEY_LEN) as int, cur.len() as int));
            }
            self.derive_keys(&e2v);
            self.nonce_out = 0;
            self.nonce_in = 0;
            self.step = NoiseStep::Transport;
            proof {
                assert(noise_run(m1, self.max_frame as nat) == noise_run(
                    self.model(),
                    self.max_frame as nat,
                ));
            }
        }
        if matches!(self.step, NoiseStep::Transport) {
            let max = self.max_frame;
            let (po, no, eo) = run_transport(&self.key_out, self.nonce_out, &mut self.buf_out, max);
            self.nonce_out = no;
            match eo {
                Some(e) => {
                    self.step = NoiseStep::Failed;
                    proof {
                        assert(self.model() =~= outcome.0);
                    }
                    return Err(e);
                },
                None => (),
            }
            let (pi, ni, ei) = run_transport(&self.key_in, self.nonce_in, &mut self.buf_in, max);
            self.nonce_in = ni;
            match ei {
                Some(e) => {
                    self.step = NoiseStep::Failed;
                    proof {
                        assert(self.model() =~= outcome.0);
                    }
                    return Err(e);
                },
                None => (),
            }
            proof {
                assert(self.model() =~= outcome.0);
            }
            return Ok((po, pi));
        }
        proof {
            assert(self.model() =~= outcome.0);
        }
        Ok((Vec::new(), Vec::new()))
    }
}

} // verus!
