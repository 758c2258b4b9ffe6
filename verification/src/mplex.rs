//! The varint-framed demultiplexer: each frame is a varint header
//! carrying the sub-stream id and a flag, a varint body length, and
//! the body.  Frames become the same stream actions the other
//! demultiplexer produces.

use vstd::prelude::*;
use crate::accumulator::PendingBuffer;
use crate::error::DecodeError;
use crate::ids::Direction;
use crate::yamux::{StreamAction, StreamActionModel};

verus! {

/// What parsing one little-endian base-128 varint from the front of a
/// buffer gives.
pub enum VarintParse {
    /// Not enough bytes yet.
    Incomplete,
    /// More than nine continuation groups: malformed.
    TooLong,
    /// The value and how many bytes it took.
    Done(nat, nat),
}

/// `128 ^ n`: one more than the largest value `n` varint groups carry.
pub open spec fn pow128(n: nat) -> nat
    decreases n,
{
    if n == 0 {
        1
    } else {
        128 * pow128((n - 1) as nat)
    }
}

/// Parse one varint: seven value bits per byte, least significant
/// group first, the high bit marking continuation.
pub open spec fn parse_varint(buf: Seq<u8>) -> VarintParse
    decreases buf.len(),
{
    if buf.len() < 1 {
        VarintParse::Incomplete
    } else {
        let b = buf[0];
        if b < 128 {
            VarintParse::Done(b as nat, 1)
        } else {
            match parse_varint(buf.drop_first()) {
                VarintParse::Done(v, used) => {
                    if used >= 9 {
                        VarintParse::TooLong
                    } else {
                        VarintParse::Done(((b - 128) + v * 128) as nat, (used + 1) as nat)
                    }
                },
                VarintParse::Incomplete => VarintParse::Incomplete,
                VarintParse::TooLong => VarintParse::TooLong,
            }
        }
    }
}

/// A parsed varint took at least one byte, at most nine, and its
/// value fits the groups it took.
pub proof fn lemma_varint_bound(buf: Seq<u8>)
    ensures
        (match parse_varint(buf) {
            VarintParse::Done(v, used) => 1 <= used <= 9 && used <= buf.len() && v < pow128(used),
            _ => true,
        }),
    decreases buf.len(),
{
    assert(pow128(1) == 128) by {
        reveal_with_fuel(pow128, 2);
    };
    if buf.len() >= 1 && buf[0] >= 128 {
        lemma_varint_bound(buf.drop_first());
        let b = buf[0];
        match parse_varint(buf.drop_first()) {
            VarintParse::Done(v, used) => {
                if used < 9 {
                    assert((b - 128) + v * 128 < 128 * pow128(used)) by (nonlinear_arith)
                        requires
                            v < pow128(used),
                            b < 256,
                    ;
                    assert(pow128((used + 1) as nat) == 128 * pow128(used));
                }
            },
            _ => (),
        }
    }
}

/// More groups can carry no smaller a value.
pub proof fn lemma_pow128_mono(a: nat, b: nat)
    requires
        a <= b,
    ensures
        pow128(a) <= pow128(b),
    decreases b,
{
    if a < b && b > 0 {
        lemma_pow128_mono(a, (b - 1) as nat);
        assert(pow128(b) == 128 * pow128((b - 1) as nat));
        assert(pow128((b - 1) as nat) <= 128 * pow128((b - 1) as nat)) by (nonlinear_arith)
            requires
                pow128((b - 1) as nat) >= 0,
        ;
    }
}

/// The values of `pow128` the parser needs.
pub proof fn lemma_pow128_values()
    ensures
        pow128(8) == 0x100000000000000,
        pow128(9) == 0x8000000000000000,
    decreases 0int,
{
    reveal_with_fuel(pow128, 10);
}

/// The action one frame asks for: flag 0 opens the sub-stream, flags
/// one and two carry data, three and four half-close it, five and six
/// reset it.
pub open spec fn mplex_action(flag: nat, id: u64, body: Seq<u8>) -> Seq<StreamActionModel> {
    if flag == 0 {
        seq![
            StreamActionModel {
                id,
                opens: true,
                closes: false,
                resets: false,
                data: Seq::<u8>::empty(),
            },
        ]
    } else if flag == 1 || flag == 2 {
        seq![StreamActionModel { id, opens: false, closes: false, resets: false, data: body }]
    } else if flag == 3 || flag == 4 {
        seq![
            StreamActionModel {
                id,
                opens: false,
                closes: true,
                resets: false,
                data: Seq::<u8>::empty(),
            },
        ]
    } else {
        seq![
            StreamActionModel {
                id,
                opens: false,
                closes: false,
                resets: true,
                data: Seq::<u8>::empty(),
            },
        ]
    }
}

/// What one direction's byte stream asks of the sub-stream table: the
/// actions of every complete frame, the bytes still waiting, and
/// whether a frame was malformed or claimed a body larger than `max`.
pub open spec fn mplex_actions(buf: Seq<u8>, max: nat) -> (Seq<StreamActionModel>, Seq<u8>, bool)
    decreases buf.len(),
{
    match parse_varint(buf) {
        VarintParse::Incomplete => (Seq::<StreamActionModel>::empty(), buf, false),
        VarintParse::TooLong => (Seq::<StreamActionModel>::empty(), buf, true),
        VarintParse::Done(h, used1) => {
            let flag = h % 8;
            let id = (h / 8) as u64;
            if flag > 6 {
                (Seq::<StreamActionModel>::empty(), buf, true)
            } else {
                match parse_varint(buf.skip(used1 as int)) {
                    VarintParse::Incomplete => (Seq::<StreamActionModel>::empty(), buf, false),
                    VarintParse::TooLong => (Seq::<StreamActionModel>::empty(), buf, true),
                    VarintParse::Done(blen, used2) => {
                        if blen > max {
                            (Seq::<StreamActionModel>::empty(), buf, true)
                        } else if buf.len() < used1 + used2 + blen {
                            (Seq::<StreamActionModel>::empty(), buf, false)
                        } else {
                            let body = buf.subrange(
                                (used1 + used2) as int,
                                (used1 + used2 + blen) as int,
                            );
                            let rest = buf.subrange((used1 + used2 + blen) as int, buf.len() as int);
                            let tail = mplex_actions(rest, max);
                            (mplex_action(flag, id, body) + tail.0, tail.1, tail.2)
                        }
                    },
                }
            }
        },
    }
}

/// Outcome of reading one varint out of a buffer.
pub enum VarintRead {
    /// Not enough bytes yet.
    Incomplete,
    /// More than nine continuation groups: malformed.
    TooLong,
    /// The value and how many bytes it took.
    Done(u64, usize),
}

/// Read the varint starting at `pos`.
fn read_varint(buf: &PendingBuffer, pos: usize) -> (r: VarintRead)
    requires
        pos <= buf@.len(),
    ensures
        (match r {
            VarintRead::Incomplete => parse_varint(buf@.skip(pos as int)) is Incomplete,
            VarintRead::TooLong => parse_varint(buf@.skip(pos as int)) is TooLong,
            VarintRead::Done(v, used) => parse_varint(buf@.skip(pos as int))
                == VarintParse::Done(v as nat, used as nat),
        }),
    decreases buf@.len() - pos,
{
    proof {
        lemma_varint_bound(buf@.skip(pos as int));
        lemma_pow128_values();
    }
    if pos >= buf.len() {
        return VarintRead::Incomplete;
    }
    let b = buf.at(pos);
    if b < 128 {
        return VarintRead::Done(b as u64, 1);
    }
    proof {
        assert(buf@.skip(pos as int).drop_first() =~= buf@.skip(pos + 1));
        lemma_varint_bound(buf@.skip(pos + 1));
    }
    match read_varint(buf, pos + 1) {
        VarintRead::Done(v, used) => {
            if used >= 9 {
                VarintRead::TooLong
            } else {
                proof {
                    lemma_pow128_mono(used as nat, 8);
                    assert(v * 128 <= (pow128(8) - 1) * 128) by (nonlinear_arith)
                        requires
                            v < pow128(8),
                    ;
                }
                VarintRead::Done((b - 128) as u64 + v * 128, used + 1)
            }
        },
        VarintRead::Incomplete => VarintRead::Incomplete,
        VarintRead::TooLong => VarintRead::TooLong,
    }
}

/// The frame parser of one physical connection's mplex layer.
pub struct MplexHandler {
    failed: bool,
    buf_out: PendingBuffer,
    buf_in: PendingBuffer,
    max_frame: usize,
}

impl MplexHandler {
    /// Buffers respect their (equal) limits.
    pub closed spec fn wf(&self) -> bool {
        self.buf_out.wf() && self.buf_in.wf() && self.buf_out.spec_limit()
            == self.buf_in.spec_limit()
    }

    /// The bytes waiting for the given direction.
    pub closed spec fn pending(&self, direction: Direction) -> Seq<u8> {
        match direction {
            Direction::Outbound => self.buf_out@,
            Direction::Inbound => self.buf_in@,
        }
    }

    /// Whether decoding of this connection has ended in failure.
    pub closed spec fn spec_failed(&self) -> bool {
        self.failed
    }

    /// The largest accepted frame body.
    pub closed spec fn spec_max(&self) -> usize {
        self.max_frame
    }

    /// The configured per-direction buffering bound.
    pub closed spec fn buffer_limit(&self) -> usize {
        self.buf_out.spec_limit()
    }

    /// A fresh parser accepting bodies of at most `max_frame` bytes.
    pub fn new(max_frame: usize, buffer_limit: usize) -> (r: MplexHandler)
        ensures
            r.wf(),
            !r.spec_failed(),
            r.spec_max() == max_frame,
            r.buffer_limit() == buffer_limit,
            r.pending(Direction::Outbound) =~= Seq::<u8>::empty(),
            r.pending(Direction::Inbound) =~= Seq::<u8>::empty(),
    {
        MplexHandler {
            failed: false,
            buf_out: PendingBuffer::new(buffer_limit),
            buf_in: PendingBuffer::new(buffer_limit),
            max_frame,
        }
    }

    /// Feed one directed chunk: parse every complete frame into the
    /// stream actions it asks for, keeping the incomplete rest.
    #[verifier::rlimit(100)]
    pub fn on_data(&mut self, direction: Direction, bytes: Vec<u8>) -> (r: Result<
        Vec<StreamAction>,
        DecodeError,
    >)
        requires
            old(self).wf(),
        ensures
            final(self).wf(),
            final(self).spec_max() == old(self).spec_max(),
            final(self).buffer_limit() == old(self).buffer_limit(),
            old(self).spec_failed() ==> r is Ok
                && r.unwrap().deep_view() =~= Seq::<StreamActionModel>::empty()
                && final(self).pending(direction) == old(self).pending(direction)
                && final(self).pending(direction.flip()) == old(self).pending(direction.flip())
                && final(self).spec_failed(),
            ({
                let full = old(self).pending(direction) + bytes@;
                let d = mplex_actions(full, old(self).spec_max() as nat);
                &&& !old(self).spec_failed() && old(self).pending(direction).len() + bytes@.len()
                    > old(self).buffer_limit() ==> r == Result::<Vec<StreamAction>, DecodeError>::Err(
                    DecodeError::Framing,
                ) && final(self).pending(direction) == old(self).pending(direction)
                    && final(self).pending(direction.flip()) == old(self).pending(direction.flip())
                    && !final(self).spec_failed()
                &&& !old(self).spec_failed() && old(self).pending(direction).len() + bytes@.len()
                    <= old(self).buffer_limit() ==> {
                    &&& final(self).pending(direction.flip()) == old(self).pending(
                        direction.flip(),
                    )
                    &&& final(self).pending(direction) == d.1
                    &&& final(self).spec_failed() == d.2
                    &&& d.2 ==> r == Result::<Vec<StreamAction>, DecodeError>::Err(
                        DecodeError::Framing,
                    )
                    &&& !d.2 ==> r is Ok && r.unwrap().deep_view() =~= d.0
                }
            }),
    {
        if self.failed {
            return Ok(Vec::new());
        }
        let appended = match direction {
            Direction::Outbound => self.buf_out.append(&bytes),
            Direction::Inbound => self.buf_in.append(&bytes),
        };
        match appended {
            Ok(()) => (),
            Err(e) => {
                return Err(e);
            },
        }
        let ghost full = old(self).pending(direction) + bytes@;
        let ghost dfull = mplex_actions(full, self.max_frame as nat);
        let mut actions: Vec<StreamAction> = Vec::new();
        proof {
            assert(self.pending(direction) == full);
            assert(dfull.0 =~= actions.deep_view() + dfull.0);
        }
        let mut done = false;
        while !done
            invariant
                self.wf(),
                self.failed == false,
                self.max_frame == old(self).max_frame,
                self.buffer_limit() == old(self).buffer_limit(),
                !old(self).spec_failed(),
                old(self).pending(direction).len() + bytes@.len() <= old(self).buffer_limit(),
                self.pending(direction.flip()) == old(self).pending(direction.flip()),
                full == old(self).pending(direction) + bytes@,
                dfull == mplex_actions(full, self.max_frame as nat),
                dfull.0 =~= actions.deep_view() + mplex_actions(
                    self.pending(direction),
                    self.max_frame as nat,
                ).0,
                dfull.1 == mplex_actions(self.pending(direction), self.max_frame as nat).1,
                dfull.2 == mplex_actions(self.pending(direction), self.max_frame as nat).2,
                done ==> mplex_actions(self.pending(direction), self.max_frame as nat) == (
                    Seq::<StreamActionModel>::empty(),
                    self.pending(direction),
                    false,
                ),
            decreases self.pending(direction).len(), (if done { 0int } else { 1int }),
        {
            let buf = match direction {
                Direction::Outbound => &mut self.buf_out,
                Direction::Inbound => &mut self.buf_in,
            };
            proof {
                assert(buf@.skip(0) =~= buf@);
                lemma_varint_bound(buf@);
                lemma_pow128_values();
            }
            let header = read_varint(buf, 0);
            match header {
                VarintRead::Incomplete => {
                    done = true;
                },
                VarintRead::TooLong => {
                    self.failed = true;
                    proof {
                        assert(dfull.0 =~= actions.deep_view());
                    }
                    return Err(DecodeError::Framing);
                },
                VarintRead::Done(h, used1) => {
                    let flag = h % 8;
                    let id = h / 8;
                    if flag > 6 {
                        self.failed = true;
                        proof {
                            assert(dfull.0 =~= actions.deep_view());
                        }
                        return Err(DecodeError::Framing);
                    }
                    proof {
                        lemma_varint_bound(buf@.skip(used1 as int));
                    }
                    match read_varint(buf, used1) {
                        VarintRead::Incomplete => {
                            done = true;
                        },
                        VarintRead::TooLong => {
                            self.failed = true;
                            proof {
                                assert(dfull.0 =~= actions.deep_view());
                            }
                            return Err(DecodeError::Framing);
                        },
                        VarintRead::Done(blen, used2) => {
                            if blen > self.max_frame as u64 {
                                self.failed = true;
                                proof {
                                    assert(dfull.0 =~= actions.deep_view());
                                }
                                return Err(DecodeError::Framing);
                            }
                            let blen = blen as usize;
                            if buf.len() - used1 - used2 < blen {
                                done = true;
                            } else {
                                let ghost cur = buf@;
                                let hdr = buf.take(used1 + used2);
                                let body = buf.take(blen);
                                proof {
                                    assert(body@ =~= cur.subrange(
                                        (used1 + used2) as int,
                                        (used1 + used2 + blen) as int,
                                    ));
                                    assert(buf@ =~= cur.subrange(
                                        (used1 + used2 + blen) as int,
                                        cur.len() as int,
                                    ));
                                }
                                let ghost prev_dv = actions.deep_view();
                                let act = (if flag == 0 {
                                    StreamAction {
                                        id,
                                        opens: true,
                                        closes: false,
                                        resets: false,
                                        data: Vec::new(),
                                    }
                                } else if flag == 1 || flag == 2 {
                                    StreamAction {
                                        id,
                                        opens: false,
                                        closes: false,
                                        resets: false,
                                        data: body,
                                    }
                                } else if flag == 3 || flag == 4 {
                                    StreamAction {
                                        id,
                                        opens: false,
                                        closes: true,
                                        resets: false,
                                        data: Vec::new(),
                                    }
                                } else {
                                    StreamAction {
                                        id,
                                        opens: false,
                                        closes: false,
                                        resets: true,
                                        data: Vec::new(),
                                    }
                                });
                                let ghost av = act@;
                                actions.push(act);
                                proof {
                                    assert(actions.deep_view() =~= prev_dv.push(av));
                                    assert(prev_dv.push(av) + mplex_actions(
                                        buf@,
                                        self.max_frame as nat,
                                    ).0 =~= prev_dv + (seq![av] + mplex_actions(
                                        buf@,
                                        self.max_frame as nat,
                                    ).0));
                                }
                            }
                        },
                    }
                }
            }
        }
        proof {
            assert(dfull.0 =~= actions.deep_view());
        }
        Ok(actions)
    }
}

} // verus!
