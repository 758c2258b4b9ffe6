//! The terminal handler of a demultiplexed sub-stream: it gathers
//! length-prefixed message envelopes and parses each body into a
//! structured application message.

use vstd::prelude::*;
use crate::absorb::{Absorb, Limit};
use crate::accumulator::PendingBuffer;
use crate::error::{DecodeError, ParseFault};
use crate::ids::{Direction, StreamId};
use crate::wire::{be_val, read_be, lemma_be_val_bound, lemma_pow256_values};

verus! {

/// Depth budget handed to the structural parser of one body.
pub const MESSAGE_DEPTH: u32 = 16;

/// A decoded application message.
pub enum Message {
    /// A plain numeric message.
    Int(u64),
    /// An opaque byte-carrying message.
    Raw(Vec<u8>),
}

/// The mathematical model of a [`Message`].
pub enum MessageModel {
    /// Model of [`Message::Int`].
    Int(u64),
    /// Model of [`Message::Raw`].
    Raw(Seq<u8>),
}

impl View for Message {
    type V = MessageModel;

    open spec fn view(&self) -> MessageModel {
        match self {
            Message::Int(v) => MessageModel::Int(*v),
            Message::Raw(b) => MessageModel::Raw(b@),
        }
    }
}

impl Absorb for Message {
    open spec fn absorbed(input: Seq<u8>, limit: Limit) -> Result<(nat, MessageModel), ParseFault> {
        if limit.depth < 1 || limit.bytes < 1 {
            Err(ParseFault::LimitExceeded)
        } else if input.len() < 1 {
            Err(ParseFault::LengthExceedsInput)
        } else {
            let inner = Limit { depth: (limit.depth - 1) as u32, bytes: (limit.bytes - 1) as usize };
            if input[0] == 0 {
                match <u64 as Absorb>::absorbed(input.subrange(1, input.len() as int), inner) {
                    Ok((n, v)) => Ok(((n + 1) as nat, MessageModel::Int(v))),
                    Err(e) => Err(e),
                }
            } else if input[0] == 1 {
                match <Vec<u8> as Absorb>::absorbed(input.subrange(1, input.len() as int), inner) {
                    Ok((n, v)) => Ok(((n + 1) as nat, MessageModel::Raw(v))),
                    Err(e) => Err(e),
                }
            } else {
                Err(ParseFault::UnexpectedTag)
            }
        }
    }

    fn absorb(input: &Vec<u8>, start: usize, limit: Limit) -> (r: Result<
        (usize, Message),
        ParseFault,
    >) {
        if limit.depth < 1 || limit.bytes < 1 {
            Err(ParseFault::LimitExceeded)
        } else if input.len() - start < 1 {
            Err(ParseFault::LengthExceedsInput)
        } else {
            let inner = Limit { depth: limit.depth - 1, bytes: limit.bytes - 1 };
            let tag = input[start];
            proof {
                let whole = input@.subrange(start as int, input@.len() as int);
                assert(input@.subrange(start + 1, input@.len() as int) =~= whole.subrange(
                    1,
                    whole.len() as int,
                ));
            }
            if tag == 0 {
                match <u64 as Absorb>::absorb(input, start + 1, inner) {
                    Ok((n, v)) => Ok((n + 1, Message::Int(v))),
                    Err(e) => Err(e),
                }
            } else if tag == 1 {
                match <Vec<u8> as Absorb>::absorb(input, start + 1, inner) {
                    Ok((n, v)) => Ok((n + 1, Message::Raw(v))),
                    Err(e) => Err(e),
                }
            } else {
                Err(ParseFault::UnexpectedTag)
            }
        }
    }
}

/// One decoded record, as handed to the sink: which stream it came
/// from, which way it went, and the message.
pub struct Record {
    /// The logical stream the message was decoded from.
    pub stream: StreamId,
    /// Which way the message went.
    pub direction: Direction,
    /// The decoded message.
    pub message: Message,
}

/// The model of a [`Record`].
pub struct RecordModel {
    /// Model of the stream identity.
    pub stream: StreamId,
    /// Model of the direction.
    pub direction: Direction,
    /// Model of the message.
    pub message: MessageModel,
}

impl View for Record {
    type V = RecordModel;

    open spec fn view(&self) -> RecordModel {
        RecordModel {
            stream: self.stream,
            direction: self.direction,
            message: self.message@,
        }
    }
}

impl DeepView for Record {
    type V = RecordModel;

    open spec fn deep_view(&self) -> RecordModel {
        self@
    }
}

/// The records that a run of decoded messages produces for one
/// (stream, direction) pair, in decoding order.
pub open spec fn records_of(msgs: Seq<MessageModel>, stream: StreamId, direction: Direction) -> Seq<
    RecordModel,
> {
    msgs.map(|i: int, m: MessageModel| RecordModel { stream, direction, message: m })
}

/// The budget granted to the parser of one body of `elen` bytes.
pub open spec fn body_limit(elen: nat) -> Limit {
    Limit { depth: MESSAGE_DEPTH, bytes: elen as usize }
}

/// What one direction's byte stream decodes to: the messages of every
/// complete envelope, the bytes still waiting, and whether an envelope
/// claimed more than `max` bytes (which ends decoding of the stream).
/// A body that fails to parse is discarded and decoding resumes at the
/// next envelope boundary.
pub open spec fn decode_stream(buf: Seq<u8>, max: nat) -> (Seq<MessageModel>, Seq<u8>, bool)
    decreases buf.len(),
{
    if buf.len() < 4 {
        (Seq::<MessageModel>::empty(), buf, false)
    } else {
        let elen = be_val(buf.subrange(0, 4));
        if elen > max {
            (Seq::<MessageModel>::empty(), buf, true)
        } else if buf.len() < elen + 4 {
            (Seq::<MessageModel>::empty(), buf, false)
        } else {
            let body = buf.subrange(4, (4 + elen) as int);
            let rest = buf.subrange((4 + elen) as int, buf.len() as int);
            let tail = decode_stream(rest, max);
            match Message::absorbed(body, body_limit(elen)) {
                Ok(p) => (Seq::<MessageModel>::empty().push(p.1) + tail.0, tail.1, tail.2),
                Err(_) => tail,
            }
        }
    }
}

/// One message envelope as the decoder expects to find it on the
/// wire: a four-byte length, then the body.
pub fn encode_envelope(body: &Vec<u8>) -> (r: Vec<u8>)
    requires
        body@.len() < 0x100000000,
    ensures
        r@ == crate::wire::be_bytes(body@.len() as nat, 4) + body@,
{
    proof {
        lemma_pow256_values();
    }
    let mut r = crate::wire::write_be(body.len() as u64, 4);
    r.extend_from_slice(body.as_slice());
    r
}

/// How many complete envelopes of `buf` carry a body that fails to
/// parse: each is reported, discarded, and decoding resumes at the
/// next envelope boundary.
pub open spec fn decode_faults(buf: Seq<u8>, max: nat) -> nat
    decreases buf.len(),
{
    if buf.len() < 4 {
        0
    } else {
        let elen = be_val(buf.subrange(0, 4));
        if elen > max {
            0
        } else if buf.len() < elen + 4 {
            0
        } else {
            let body = buf.subrange(4, (4 + elen) as int);
            let rest = buf.subrange((4 + elen) as int, buf.len() as int);
            ((match Message::absorbed(body, body_limit(elen)) {
                Ok(_) => 0nat,
                Err(_) => 1nat,
            }) + decode_faults(rest, max)) as nat
        }
    }
}

/// `a` plus `n` more reported faults, the count held at its ceiling.
pub open spec fn sat_add(a: u64, n: nat) -> u64 {
    if a + n > u64::MAX {
        u64::MAX
    } else {
        (a + n) as u64
    }
}

/// What feeding one chunk does to one direction of a decoder: the
/// messages decoded, the bytes then waiting, and whether decoding of
/// the sub-stream has ended.  A failed decoder stays silent; a chunk
/// that would outgrow `limit` is refused and changes nothing; any
/// other chunk is decoded envelope by envelope.
pub open spec fn app_step(pend: Seq<u8>, failed: bool, bytes: Seq<u8>, max: nat, limit: nat) -> (
    Seq<MessageModel>,
    Seq<u8>,
    bool,
) {
    if failed {
        (Seq::<MessageModel>::empty(), pend, true)
    } else if pend.len() + bytes.len() > limit {
        (Seq::<MessageModel>::empty(), pend, false)
    } else {
        decode_stream(pend + bytes, max)
    }
}

/// The terminal handler of one demultiplexed sub-stream.
pub struct AppDecoder {
    stream: StreamId,
    max_envelope: usize,
    failed: bool,
    faults: u64,
    buf_out: PendingBuffer,
    buf_in: PendingBuffer,
}

impl AppDecoder {
    /// Both accumulation buffers respect their (equal) limits.
    pub closed spec fn wf(&self) -> bool {
        self.buf_out.wf() && self.buf_in.wf() && self.buf_out.spec_limit()
            == self.buf_in.spec_limit()
    }

    /// The bytes waiting for the given direction.
    pub closed spec fn pending(&self, direction: Direction) -> Seq<u8> {
        match direction {
            Direction::Outbound => self.buf_out@,
            Direction::Inbound => self.buf_in@,
        }
    }

    /// Whether this sub-stream's decoding has ended in failure.
    pub closed spec fn spec_failed(&self) -> bool {
        self.failed
    }

    /// How many message-local parse faults this sub-stream has
    /// reported.
    pub closed spec fn spec_faults(&self) -> u64 {
        self.faults
    }

    /// How many message-local parse faults this sub-stream has
    /// reported: each one envelope whose body failed to parse and was
    /// discarded.
    pub fn faults(&self) -> (r: u64)
        ensures
            r == self.spec_faults(),
    {
        self.faults
    }

    /// The stream identity records are tagged with.
    pub closed spec fn spec_stream(&self) -> StreamId {
        self.stream
    }

    /// The largest accepted envelope body.
    pub closed spec fn spec_max(&self) -> usize {
        self.max_envelope
    }

    /// A fresh decoder for `stream`, accepting envelope bodies of at
    /// most `max_envelope` bytes and buffering at most `buffer_limit`.
    pub fn new(stream: StreamId, max_envelope: usize, buffer_limit: usize) -> (r: AppDecoder)
        ensures
            r.wf(),
            !r.spec_failed(),
            r.spec_stream() == stream,
            r.spec_max() == max_envelope,
            r.buffer_limit() == buffer_limit,
            r.spec_faults() == 0,
            r.pending(Direction::Outbound) =~= Seq::<u8>::empty(),
            r.pending(Direction::Inbound) =~= Seq::<u8>::empty(),
    {
        AppDecoder {
            stream,
            max_envelope,
            failed: false,
            faults: 0,
            buf_out: PendingBuffer::new(buffer_limit),
            buf_in: PendingBuffer::new(buffer_limit),
        }
    }

    /// Feed one directed chunk: decode every complete envelope, hand
    /// the decoded records to `out`, and keep the incomplete rest.
    pub fn on_data(&mut self, direction: Direction, bytes: &Vec<u8>, out: &mut Vec<Record>) -> (r:
        Result<(), DecodeError>)
        requires
            old(self).wf(),
        ensures
            final(self).wf(),
            final(self).spec_stream() == old(self).spec_stream(),
            final(self).spec_max() == old(self).spec_max(),
            final(self).buffer_limit() == old(self).buffer_limit(),
            final(out)@.len() >= old(out)@.len(),
            forall|i: int| 0 <= i < old(out)@.len() ==> final(out)@[i] == old(out)@[i],
            forall|i: int|
                old(out)@.len() <= i < final(out)@.len() ==> (#[trigger] final(out)@[i]).stream
                    == old(self).spec_stream() && final(out)@[i].direction == direction,
            old(self).spec_failed() ==> r is Ok && *final(self) == *old(self) && *final(out)
                == *old(out),
            ({
                let full = old(self).pending(direction) + bytes@;
                let d = decode_stream(full, old(self).spec_max() as nat);
                &&& !old(self).spec_failed() && old(self).pending(direction).len() + bytes@.len()
                    > old(self).buffer_limit() ==> r == Result::<(), DecodeError>::Err(
                    DecodeError::Framing,
                ) && final(self).pending(direction) == old(self).pending(direction)
                    && final(self).pending(direction.flip()) == old(self).pending(direction.flip())
                    && !final(self).spec_failed() && final(self).spec_faults() == old(
                    self,
                ).spec_faults() && *final(out) == *old(out)
                &&& !old(self).spec_failed() && old(self).pending(direction).len() + bytes@.len()
                    <= old(self).buffer_limit() ==> {
                    &&& final(out).deep_view() == old(out).deep_view() + records_of(
                        d.0,
                        old(self).spec_stream(),
                        direction,
                    )
                    &&& final(self).pending(direction) == d.1
                    &&& final(self).pending(direction.flip()) == old(self).pending(
                        direction.flip(),
                    )
                    &&& final(self).spec_failed() == d.2
                    &&& final(self).spec_faults() == sat_add(
                        old(self).spec_faults(),
                        decode_faults(full, old(self).spec_max() as nat),
                    )
                    &&& d.2 <==> r == Result::<(), DecodeError>::Err(DecodeError::Parse(
                        ParseFault::LimitExceeded,
                    ))
                    &&& !d.2 <==> r is Ok
                }
            }),
    {
        if self.failed {
            return Ok(());
        }
        let buf = match direction {
            Direction::Outbound => &mut self.buf_out,
            Direction::Inbound => &mut self.buf_in,
        };
        match buf.append(bytes) {
            Ok(()) => (),
            Err(e) => {
                return Err(e);
            },
        }
        let ghost full = old(self).pending(direction) + bytes@;
        let ghost dfull = decode_stream(full, self.max_envelope as nat);
        let ghost mut emitted: Seq<MessageModel> = Seq::<MessageModel>::empty();
        proof {
            assert(self.pending(direction) == full);
            assert(dfull.0 =~= emitted + dfull.0);
            assert(records_of(emitted, self.stream, direction) =~= Seq::<RecordModel>::empty());
            assert(out.deep_view() =~= old(out).deep_view() + records_of(
                emitted,
                self.stream,
                direction,
            ));
        }
        let mut done = false;
        while !done
            invariant
                self.wf(),
                self.stream == old(self).stream,
                self.max_envelope == old(self).max_envelope,
                self.failed == false,
                !old(self).spec_failed(),
                old(self).pending(direction).len() + bytes@.len() <= old(self).buffer_limit(),
                self.buffer_limit() == old(self).buffer_limit(),
                self.pending(direction.flip()) == old(self).pending(direction.flip()),
                full == old(self).pending(direction) + bytes@,
                dfull == decode_stream(full, self.max_envelope as nat),
                dfull.0 =~= emitted + decode_stream(
                    self.pending(direction),
                    self.max_envelope as nat,
                ).0,
                dfull.1 == decode_stream(self.pending(direction), self.max_envelope as nat).1,
                dfull.2 == decode_stream(self.pending(direction), self.max_envelope as nat).2,
                out.deep_view() == old(out).deep_view() + records_of(
                    emitted,
                    self.stream,
                    direction,
                ),
                out@.len() >= old(out)@.len(),
                forall|i: int| 0 <= i < old(out)@.len() ==> out@[i] == old(out)@[i],
                forall|i: int|
                    old(out)@.len() <= i < out@.len() ==> (#[trigger] out@[i]).stream
                        == old(self).spec_stream() && out@[i].direction == direction,
                sat_add(old(self).spec_faults(), decode_faults(full, self.max_envelope as nat))
                    == sat_add(
                    self.faults,
                    decode_faults(self.pending(direction), self.max_envelope as nat),
                ),
                done ==> decode_stream(self.pending(direction), self.max_envelope as nat) == (
                    Seq::<MessageModel>::empty(),
                    self.pending(direction),
                    false,
                ),
                done ==> decode_faults(self.pending(direction), self.max_envelope as nat) == 0,
            decreases self.pending(direction).len(), (if done { 0int } else { 1int }),
        {
            let buf = match direction {
                Direction::Outbound => &mut self.buf_out,
                Direction::Inbound => &mut self.buf_in,
            };
            if buf.len() < 4 {
                done = true;
            } else {
                proof {
                    lemma_be_val_bound(buf@.subrange(0, 4));
                    lemma_pow256_values();
                }
                let elen64 = read_be(buf.bytes(), 0, 4);
                if elen64 > self.max_envelope as u64 {
                    proof {
                        assert(decode_stream(buf@, self.max_envelope as nat) == (
                            Seq::<MessageModel>::empty(),
                            buf@,
                            true,
                        ));
                        assert(dfull.0 =~= emitted);
                    }
                    self.failed = true;
                    return Err(DecodeError::Parse(ParseFault::LimitExceeded));
                }
                let elen = elen64 as usize;
                if buf.len() - 4 < elen {
                    done = true;
                } else {
                    let ghost cur = buf@;
                    let ghost max = self.max_envelope as nat;
                    let header = buf.take(4);
                    let body = buf.take(elen);
                    proof {
                        assert(body@ =~= cur.subrange(4, 4 + elen));
                        assert(buf@ =~= cur.subrange(4 + elen, cur.len() as int));
                        assert(body@.subrange(0, body@.len() as int) =~= body@);
                        assert(body_limit(be_val(cur.subrange(0, 4))) == (Limit {
                            depth: MESSAGE_DEPTH,
                            bytes: elen,
                        }));
                        assert(decode_stream(cur, max) == ({
                            let tail = decode_stream(buf@, max);
                            match Message::absorbed(body@, body_limit(be_val(cur.subrange(0, 4)))) {
                                Ok(p) => (
                                    Seq::<MessageModel>::empty().push(p.1) + tail.0,
                                    tail.1,
                                    tail.2,
                                ),
                                Err(_) => tail,
                            }
                        }));
                    }
                    match <Message as Absorb>::absorb(
                        &body,
                        0,
                        Limit { depth: MESSAGE_DEPTH, bytes: elen },
                    ) {
                        Ok((_, m)) => {
                            let ghost mv = m@;
                            let ghost prev_dv = out.deep_view();
                            out.push(
                                Record { stream: self.stream, direction, message: m },
                            );
                            proof {
                                let rm = RecordModel {
                                    stream: self.stream,
                                    direction,
                                    message: mv,
                                };
                                assert(out.deep_view() =~= prev_dv.push(rm));
                                let emitted2 = emitted.push(mv);
                                assert(records_of(emitted2, self.stream, direction) =~= records_of(
                                    emitted,
                                    self.stream,
                                    direction,
                                ).push(rm));
                                assert(emitted2 + decode_stream(buf@, max).0 =~= emitted + (
                                Seq::<MessageModel>::empty().push(mv) + decode_stream(
                                    buf@,
                                    max,
                                ).0));
                                emitted = emitted2;
                            }
                        },
                        Err(_) => {
                            if self.faults < u64::MAX {
                                self.faults = self.faults + 1;
                            }
                        },
                    }
                }
            }
        }
        proof {
            assert(dfull.0 =~= emitted);
        }
        Ok(())
    }

    /// Signal end-of-stream: the sub-stream is closed, so bytes still
    /// waiting can no longer complete an envelope.  Each direction's
    /// truncated leftover is reported as one more fault, and the
    /// buffers are released.
    pub fn on_close(&mut self)
        requires
            old(self).wf(),
        ensures
            final(self).wf(),
            final(self).spec_stream() == old(self).spec_stream(),
            final(self).spec_max() == old(self).spec_max(),
            final(self).buffer_limit() == old(self).buffer_limit(),
            final(self).spec_failed() == old(self).spec_failed(),
            final(self).pending(Direction::Outbound) =~= Seq::<u8>::empty(),
            final(self).pending(Direction::Inbound) =~= Seq::<u8>::empty(),
            final(self).spec_faults() == sat_add(
                old(self).spec_faults(),
                ((if old(self).pending(Direction::Outbound).len() > 0 {
                    1nat
                } else {
                    0nat
                }) + (if old(self).pending(Direction::Inbound).len() > 0 {
                    1nat
                } else {
                    0nat
                })) as nat,
            ),
    {
        let n_out = self.buf_out.len();
        if n_out > 0 {
            let dropped = self.buf_out.take(n_out);
            if self.faults < u64::MAX {
                self.faults = self.faults + 1;
            }
        }
        let n_in = self.buf_in.len();
        if n_in > 0 {
            let dropped = self.buf_in.take(n_in);
            if self.faults < u64::MAX {
                self.faults = self.faults + 1;
            }
        }
        proof {
            assert(self.buf_out@ =~= Seq::<u8>::empty());
            assert(self.buf_in@ =~= Seq::<u8>::empty());
        }
    }

    /// The configured buffering bound of each direction.
    pub closed spec fn buffer_limit(&self) -> usize {
        self.buf_out.spec_limit()
    }
}

} // verus!
