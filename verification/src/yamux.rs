//! The window-based demultiplexer: fixed twelve-byte frame headers
//! (version, type, flags, sub-stream id, length), bodies only on data
//! frames.  Each parsed frame becomes a stream action: which
//! sub-stream it addresses, whether it opens or closes it, and the
//! body bytes it carries.

use vstd::prelude::*;
use crate::accumulator::PendingBuffer;
use crate::error::DecodeError;
use crate::ids::Direction;
use crate::wire::{be_val, read_be, lemma_be_val_bound, lemma_pow256_values};

verus! {

/// Flag bit opening a sub-stream.
pub const FLAG_SYN: u16 = 1;

/// Flag bit acknowledging a sub-stream.
pub const FLAG_ACK: u16 = 2;

/// Flag bit half-closing a sub-stream.
pub const FLAG_FIN: u16 = 4;

/// Flag bit resetting a sub-stream.
pub const FLAG_RST: u16 = 8;

/// What one multiplexer frame asks of the sub-stream table.
pub struct StreamAction {
    /// The sub-stream the frame addresses.
    pub id: u64,
    /// Whether the frame opens the sub-stream.
    pub opens: bool,
    /// Whether the frame half-closes the sub-stream.
    pub closes: bool,
    /// Whether the frame resets the sub-stream outright.
    pub resets: bool,
    /// The body bytes addressed to the sub-stream.
    pub data: Vec<u8>,
}

/// The model of a [`StreamAction`].
pub struct StreamActionModel {
    /// The sub-stream the frame addresses.
    pub id: u64,
    /// Whether the frame opens the sub-stream.
    pub opens: bool,
    /// Whether the frame half-closes the sub-stream.
    pub closes: bool,
    /// Whether the frame resets the sub-stream outright.
    pub resets: bool,
    /// The body bytes addressed to the sub-stream.
    pub data: Seq<u8>,
}

impl View for StreamAction {
    type V = StreamActionModel;

    open spec fn view(&self) -> StreamActionModel {
        StreamActionModel {
            id: self.id,
            opens: self.opens,
            closes: self.closes,
            resets: self.resets,
            data: self.data@,
        }
    }
}

impl DeepView for StreamAction {
    type V = StreamActionModel;

    open spec fn deep_view(&self) -> StreamActionModel {
        self@
    }
}

/// The action one parsed frame asks for, if any: data and
/// window-update frames address a sub-stream, pings and go-aways do
/// not.
pub open spec fn frame_action(
    ftype: u8,
    flags: u16,
    sid: u32,
    body: Seq<u8>,
) -> Seq<StreamActionModel> {
    if ftype == 0 || ftype == 1 {
        seq![
            StreamActionModel {
                id: sid as u64,
                opens: flags & FLAG_SYN != 0,
                closes: flags & FLAG_FIN != 0,
                resets: flags & FLAG_RST != 0,
                data: body,
            },
        ]
    } else {
        Seq::<StreamActionModel>::empty()
    }
}

/// What one direction's byte stream asks of the sub-stream table: the
/// actions of every complete frame, the bytes still waiting, and
/// whether a frame was malformed or claimed a body larger than `max`
/// (which ends decoding of the whole physical connection).
pub open spec fn yamux_actions(buf: Seq<u8>, max: nat) -> (Seq<StreamActionModel>, Seq<u8>, bool)
    decreases buf.len(),
{
    if buf.len() < 12 {
        (Seq::<StreamActionModel>::empty(), buf, false)
    } else if buf[0] != 0 {
        (Seq::<StreamActionModel>::empty(), buf, true)
    } else if buf[1] > 3 {
        (Seq::<StreamActionModel>::empty(), buf, true)
    } else {
        let ftype = buf[1];
        let flags = be_val(buf.subrange(2, 4));
        let sid = be_val(buf.subrange(4, 8));
        let flen = be_val(buf.subrange(8, 12));
        let blen: int = if ftype == 0 {
            flen as int
        } else {
            0
        };
        if ftype == 0 && flen > max {
            (Seq::<StreamActionModel>::empty(), buf, true)
        } else if buf.len() < 12 + blen {
            (Seq::<StreamActionModel>::empty(), buf, false)
        } else {
            let body = buf.subrange(12, 12 + blen);
            let rest = buf.subrange(12 + blen, buf.len() as int);
            let tail = yamux_actions(rest, max);
            (frame_action(ftype, flags as u16, sid as u32, body) + tail.0, tail.1, tail.2)
        }
    }
}

/// What [`encode_frame`] puts on the wire.
pub open spec fn frame_bytes(ftype: u8, flags: u16, sid: u32, length: u32, body: Seq<u8>) -> Seq<
    u8,
> {
    seq![0u8, ftype] + crate::wire::be_bytes(flags as nat, 2) + crate::wire::be_bytes(
        sid as nat,
        4,
    ) + crate::wire::be_bytes(length as nat, 4) + body
}

/// A data frame's body reaches exactly the sub-stream the frame
/// addresses, ahead of whatever the rest of the stream asks for: no
/// byte leaks into any other sub-stream and none is reordered.
pub proof fn lemma_data_frame_isolated(
    flags: u16,
    sid: u32,
    body: Seq<u8>,
    rest: Seq<u8>,
    max: nat,
)
    requires
        body.len() <= max,
        body.len() < 0x100000000,
    ensures
        ({
            let tail = yamux_actions(rest, max);
            yamux_actions(frame_bytes(0, flags, sid, body.len() as u32, body) + rest, max) == (
                frame_action(0, flags, sid, body) + tail.0,
                tail.1,
                tail.2,
            )
        }),
{
    let buf = frame_bytes(0, flags, sid, body.len() as u32, body) + rest;
    lemma_pow256_values();
    crate::wire::lemma_be_bytes_val(flags as nat, 2);
    crate::wire::lemma_be_bytes_val(sid as nat, 4);
    crate::wire::lemma_be_bytes_val(body.len() as nat, 4);
    assert(buf.len() == 12 + body.len() + rest.len());
    assert(buf[0] == 0);
    assert(buf[1] == 0);
    assert(buf.subrange(2, 4) =~= crate::wire::be_bytes(flags as nat, 2));
    assert(buf.subrange(4, 8) =~= crate::wire::be_bytes(sid as nat, 4));
    assert(buf.subrange(8, 12) =~= crate::wire::be_bytes(body.len() as nat, 4));
    assert(buf.subrange(12, (12 + body.len()) as int) =~= body);
    assert(buf.subrange((12 + body.len()) as int, buf.len() as int) =~= rest);
}

/// One frame as the framing layer expects to find it on the wire:
/// version, type, flags, sub-stream id and length, then the body.
pub fn encode_frame(ftype: u8, flags: u16, sid: u32, length: u32, body: &Vec<u8>) -> (r: Vec<u8>)
    ensures
        r@ == seq![0u8, ftype] + crate::wire::be_bytes(flags as nat, 2) + crate::wire::be_bytes(
            sid as nat,
            4,
        ) + crate::wire::be_bytes(length as nat, 4) + body@,
{
    proof {
        lemma_pow256_values();
    }
    let mut r: Vec<u8> = Vec::new();
    r.push(0);
    r.push(ftype);
    let mut f = crate::wire::write_be(flags as u64, 2);
    r.append(&mut f);
    let mut s = crate::wire::write_be(sid as u64, 4);
    r.append(&mut s);
    let mut l = crate::wire::write_be(length as u64, 4);
    r.append(&mut l);
    r.extend_from_slice(body.as_slice());
    proof {
        assert(r@ =~= seq![0u8, ftype] + crate::wire::be_bytes(flags as nat, 2)
            + crate::wire::be_bytes(sid as nat, 4) + crate::wire::be_bytes(length as nat, 4)
            + body@);
    }
    r
}

/// The frame parser of one physical connection's yamux layer.
pub struct YamuxHandler {
    failed: bool,
    buf_out: PendingBuffer,
    buf_in: PendingBuffer,
    max_frame: usize,
}

impl YamuxHandler {
    /// Buffers respect their (equal) limits.
    pub closed spec fn wf(&self) -> bool {
        self.buf_out.wf() && self.buf_in.wf() && self.buf_out.spec_limit()
            == self.buf_in.spec_limit()
    }

    /// The bytes waiting for the given direction.
    pub closed spec fn pending(&self, direction: Direction) -> Seq<u8> {
        match direction {
            Direction::Outbound => self.buf_out@,
            Direction::Inbound => self.buf_in@,
        }
    }

    /// Whether decoding of this connection has ended in failure.
    pub closed spec fn spec_failed(&self) -> bool {
        self.failed
    }

    /// The largest accepted data-frame body.
    pub closed spec fn spec_max(&self) -> usize {
        self.max_frame
    }

    /// The configured per-direction buffering bound.
    pub closed spec fn buffer_limit(&self) -> usize {
        self.buf_out.spec_limit()
    }

    /// A fresh parser accepting bodies of at most `max_frame` bytes.
    pub fn new(max_frame: usize, buffer_limit: usize) -> (r: YamuxHandler)
        ensures
            r.wf(),
            !r.spec_failed(),
            r.spec_max() == max_frame,
            r.buffer_limit() == buffer_limit,
            r.pending(Direction::Outbound) =~= Seq::<u8>::empty(),
            r.pending(Direction::Inbound) =~= Seq::<u8>::empty(),
    {
        YamuxHandler {
            failed: false,
            buf_out: PendingBuffer::new(buffer_limit),
            buf_in: PendingBuffer::new(buffer_limit),
            max_frame,
        }
    }

    /// Feed one directed chunk: parse every complete frame into the
    /// stream actions it asks for, keeping the incomplete rest.
    pub fn on_data(&mut self, direction: Direction, bytes: Vec<u8>) -> (r: Result<
        Vec<StreamAction>,
        DecodeError,
    >)
        requires
            old(self).wf(),
        ensures
            final(self).wf(),
            final(self).spec_max() == old(self).spec_max(),
            final(self).buffer_limit() == old(self).buffer_limit(),
            old(self).spec_failed() ==> r is Ok
                && r.unwrap().deep_view() =~= Seq::<StreamActionModel>::empty()
                && final(self).pending(direction) == old(self).pending(direction)
                && final(self).pending(direction.flip()) == old(self).pending(direction.flip())
                && final(self).spec_failed(),
            ({
                let full = old(self).pending(direction) + bytes@;
                let d = yamux_actions(full, old(self).spec_max() as nat);
                &&& !old(self).spec_failed() && old(self).pending(direction).len() + bytes@.len()
                    > old(self).buffer_limit() ==> r == Result::<Vec<StreamAction>, DecodeError>::Err(
                    DecodeError::Framing,
                ) && final(self).pending(direction) == old(self).pending(direction)
                    && final(self).pending(direction.flip()) == old(self).pending(direction.flip())
                    && !final(self).spec_failed()
                &&& !old(self).spec_failed() && old(self).pending(direction).len() + bytes@.len()
                    <= old(self).buffer_limit() ==> {
                    &&& final(self).pending(direction.flip()) == old(self).pending(
                        direction.flip(),
                    )
                    &&& final(self).pending(direction) == d.1
                    &&& final(self).spec_failed() == d.2
                    &&& d.2 ==> r == Result::<Vec<StreamAction>, DecodeError>::Err(
                        DecodeError::Framing,
                    )
                    &&& !d.2 ==> r is Ok && r.unwrap().deep_view() =~= d.0
                }
            }),
    {
        if self.failed {
            return Ok(Vec::new());
        }
        let appended = match direction {
            Direction::Outbound => self.buf_out.append(&bytes),
            Direction::Inbound => self.buf_in.append(&bytes),
        };
        match appended {
            Ok(()) => (),
            Err(e) => {
                return Err(e);
            },
        }
        let ghost full = old(self).pending(direction) + bytes@;
        let ghost dfull = yamux_actions(full, self.max_frame as nat);
        let mut actions: Vec<StreamAction> = Vec::new();
        proof {
            assert(self.pending(direction) == full);
            assert(dfull.0 =~= actions.deep_view() + dfull.0);
        }
        let mut done = false;
        while !done
            invariant
                self.wf(),
                self.failed == false,
                self.max_frame == old(self).max_frame,
                self.buffer_limit() == old(self).buffer_limit(),
                !old(self).spec_failed(),
                old(self).pending(direction).len() + bytes@.len() <= old(self).buffer_limit(),
                self.pending(direction.flip()) == old(self).pending(direction.flip()),
                full == old(self).pending(direction) + bytes@,
                dfull == yamux_actions(full, self.max_frame as nat),
                dfull.0 =~= actions.deep_view() + yamux_actions(
                    self.pending(direction),
                    self.max_frame as nat,
                ).0,
                dfull.1 == yamux_actions(self.pending(direction), self.max_frame as nat).1,
                dfull.2 == yamux_actions(self.pending(direction), self.max_frame as nat).2,
                done ==> yamux_actions(self.pending(direction), self.max_frame as nat) == (
                    Seq::<StreamActionModel>::empty(),
                    self.pending(direction),
                    false,
                ),
            decreases self.pending(direction).len(), (if done { 0int } else { 1int }),
        {
            let buf = match direction {
                Direction::Outbound => &mut self.buf_out,
                Direction::Inbound => &mut self.buf_in,
            };
            if buf.len() < 12 {
                done = true;
            } else if buf.at(0) != 0 || buf.at(1) > 3 {
                self.failed = true;
                proof {
                    assert(dfull.0 =~= actions.deep_view());
                }
                return Err(DecodeError::Framing);
            } else {
                proof {
                    lemma_be_val_bound(buf@.subrange(2, 4));
                    lemma_be_val_bound(buf@.subrange(4, 8));
                    lemma_be_val_bound(buf@.subrange(8, 12));
                    lemma_pow256_values();
                }
                let ftype = buf.at(1);
                let flags = read_be(buf.bytes(), 2, 2) as u16;
                let sid = read_be(buf.bytes(), 4, 4) as u32;
                let flen = read_be(buf.bytes(), 8, 4);
                if ftype == 0 && flen > self.max_frame as u64 {
                    self.failed = true;
                    proof {
                        assert(dfull.0 =~= actions.deep_view());
                    }
                    return Err(DecodeError::Framing);
                }
                let blen: usize = if ftype == 0 {
                    flen as usize
                } else {
                    0
                };
                if buf.len() - 12 < blen {
                    done = true;
                } else {
                    let ghost cur = buf@;
                    let header = buf.take(12);
                    let body = buf.take(blen);
                    proof {
                        assert(body@ =~= cur.subrange(12, 12 + blen));
                        assert(buf@ =~= cur.subrange(12 + blen, cur.len() as int));
                    }
                    if ftype == 0 || ftype == 1 {
                        let ghost prev_dv = actions.deep_view();
                        let act = StreamAction {
                            id: sid as u64,
                            opens: flags & FLAG_SYN != 0,
                            closes: flags & FLAG_FIN != 0,
                            resets: flags & FLAG_RST != 0,
                            data: body,
                        };
                        let ghost av = act@;
                        actions.push(act);
                        proof {
                            assert(actions.deep_view() =~= prev_dv.push(av));
                            assert(prev_dv.push(av) + yamux_actions(
                                buf@,
                                self.max_frame as nat,
                            ).0 =~= prev_dv + (seq![av] + yamux_actions(
                                buf@,
                                self.max_frame as nat,
                            ).0));
                        }
                    }
                }
            }
        }
        proof {
            assert(dfull.0 =~= actions.deep_view());
        }
        Ok(actions)
    }
}

} // verus!