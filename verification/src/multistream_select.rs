//! The sub-protocol negotiation layer: newline-terminated,
//! length-prefixed protocol-name proposals, answered in kind.  On a
//! mutually agreed name the next-stage handler is chosen; an
//! unrecognized or malformed line ends decoding of the stream.

use vstd::prelude::*;
use crate::accumulator::PendingBuffer;
use crate::error::DecodeError;
use crate::ids::Direction;

verus! {

/// The closed set of protocol names negotiation can choose.
#[derive(Clone, Copy, PartialEq, Eq, Structural, Debug)]
pub enum KnownProtocol {
    /// The handshake and transport-encryption protocol.
    Noise,
    /// The window-based multiplexer.
    Yamux,
    /// The varint-framed multiplexer.
    Mplex,
}

/// The name of the negotiation protocol itself, exchanged as a header
/// line and carrying no proposal.
pub open spec fn header_name() -> Seq<u8> {
    seq![47u8, 109u8, 117u8, 108u8, 116u8, 105u8, 115u8, 116u8, 114u8, 101u8, 97u8, 109u8, 47u8, 49u8, 46u8, 48u8, 46u8, 48u8]
}

/// The name proposing the handshake and transport-encryption protocol.
pub open spec fn noise_name() -> Seq<u8> {
    seq![47u8, 110u8, 111u8, 105u8, 115u8, 101u8]
}

/// The name proposing the window-based multiplexer.
pub open spec fn yamux_name() -> Seq<u8> {
    seq![47u8, 121u8, 97u8, 109u8, 117u8, 120u8, 47u8, 49u8, 46u8, 48u8, 46u8, 48u8]
}

/// The name proposing the varint-framed multiplexer.
pub open spec fn mplex_name() -> Seq<u8> {
    seq![47u8, 109u8, 112u8, 108u8, 101u8, 120u8, 47u8, 54u8, 46u8, 55u8, 46u8, 48u8]
}

/// Which protocol a proposal line names, if any.
pub open spec fn name_to_protocol(name: Seq<u8>) -> Option<KnownProtocol> {
    if name == noise_name() {
        Some(KnownProtocol::Noise)
    } else if name == yamux_name() {
        Some(KnownProtocol::Yamux)
    } else if name == mplex_name() {
        Some(KnownProtocol::Mplex)
    } else {
        None
    }
}

/// What parsing one length-prefixed, newline-terminated line from the
/// front of `buf` gives.
pub enum LineParse {
    /// Not enough bytes yet.
    Incomplete,
    /// A zero length or a missing terminator: the line is malformed.
    Bad,
    /// The name (terminator stripped) and the bytes after the line.
    Done(Seq<u8>, Seq<u8>),
}

/// Parse one proposal line: a one-byte length, then that many bytes,
/// the last of which must be the newline terminator.
pub open spec fn parse_line(buf: Seq<u8>) -> LineParse {
    if buf.len() < 1 {
        LineParse::Incomplete
    } else {
        let l = buf[0] as int;
        if l == 0 {
            LineParse::Bad
        } else if buf.len() < 1 + l {
            LineParse::Incomplete
        } else if buf[l] != 10 {
            LineParse::Bad
        } else {
            LineParse::Done(buf.subrange(1, l), buf.subrange(1 + l, buf.len() as int))
        }
    }
}

/// Run the proposing side over its waiting bytes: the proposal that
/// stands after every complete line, the bytes left, and whether a
/// line was malformed or named no known protocol.
pub open spec fn ms_propose(proposed: Option<KnownProtocol>, buf: Seq<u8>) -> (
    Option<KnownProtocol>,
    Seq<u8>,
    bool,
)
    decreases buf.len(),
{
    match parse_line(buf) {
        LineParse::Incomplete => (proposed, buf, false),
        LineParse::Bad => (proposed, buf, true),
        LineParse::Done(name, rest) => {
            if name == header_name() {
                ms_propose(proposed, rest)
            } else {
                match name_to_protocol(name) {
                    Some(p) => ms_propose(Some(p), rest),
                    None => (proposed, rest, true),
                }
            }
        },
    }
}

/// Run the answering side over its waiting bytes: the protocol chosen
/// once a line echoes the standing proposal, the bytes left after that
/// line, and whether a line was malformed or out of step.
pub open spec fn ms_answer(proposed: Option<KnownProtocol>, buf: Seq<u8>) -> (
    Option<KnownProtocol>,
    Seq<u8>,
    bool,
)
    decreases buf.len(),
{
    match parse_line(buf) {
        LineParse::Incomplete => (None, buf, false),
        LineParse::Bad => (None, buf, true),
        LineParse::Done(name, rest) => {
            if name == header_name() {
                ms_answer(proposed, rest)
            } else {
                match name_to_protocol(name) {
                    Some(p) => {
                        if proposed == Some(p) {
                            (Some(p), rest, false)
                        } else {
                            (None, rest, true)
                        }
                    },
                    None => (None, rest, true),
                }
            }
        },
    }
}

/// The name each protocol goes by on the wire.
pub open spec fn protocol_name(p: KnownProtocol) -> Seq<u8> {
    match p {
        KnownProtocol::Noise => noise_name(),
        KnownProtocol::Yamux => yamux_name(),
        KnownProtocol::Mplex => mplex_name(),
    }
}

/// Every known protocol's name names it back.
pub proof fn lemma_protocol_names_round_trip(p: KnownProtocol)
    ensures
        name_to_protocol(protocol_name(p)) == Some(p),
{
    match p {
        KnownProtocol::Noise => {
        },
        KnownProtocol::Yamux => {
            assert(yamux_name().len() != noise_name().len());
        },
        KnownProtocol::Mplex => {
            assert(mplex_name().len() != noise_name().len());
            assert(mplex_name()[1] != yamux_name()[1]);
        },
    }
}

/// The line that proposes or echoes `name`.
pub open spec fn line_of(name: Seq<u8>) -> Seq<u8> {
    seq![(name.len() + 1) as u8] + name + seq![10u8]
}

/// Feeding the line that echoes the standing proposal settles the
/// negotiation on that protocol; the bytes after the line belong to
/// the next stage.
pub proof fn lemma_agreement_settles(p: KnownProtocol, rest: Seq<u8>)
    ensures
        ms_answer(Some(p), line_of(protocol_name(p)) + rest) == (
            Some(p),
            rest,
            false,
        ),
{
    let name = protocol_name(p);
    let buf = line_of(name) + rest;
    let l = name.len() + 1;
    lemma_protocol_names_round_trip(p);
    assert(buf[0] == l as u8);
    assert(buf.subrange(1, l as int) =~= name);
    assert(buf[l as int] == 10);
    assert(name.len() != header_name().len());
    assert(buf.subrange((1 + l) as int, buf.len() as int) =~= rest);
}

/// Feeding a line that names no known protocol is a negotiation
/// failure, whatever proposal stands.
pub proof fn lemma_unknown_name_fails(
    proposed: Option<KnownProtocol>,
    name: Seq<u8>,
    rest: Seq<u8>,
)
    requires
        name_to_protocol(name) is None,
        name != header_name(),
        0 < name.len(),
        name.len() + 1 <= 255,
    ensures
        ms_answer(proposed, line_of(name) + rest) == (
            None::<KnownProtocol>,
            rest,
            true,
        ),
        ms_propose(proposed, line_of(name) + rest) == (proposed, rest, true),
{
    let buf = line_of(name) + rest;
    let l = name.len() + 1;
    assert(buf[0] == l as u8);
    assert(buf.subrange(1, l as int) =~= name);
    assert(buf[l as int] == 10);
    assert(buf.subrange((1 + l) as int, buf.len() as int) =~= rest);
}

/// The header line, as bytes.
pub fn header_bytes() -> (r: Vec<u8>)
    ensures
        r@ == header_name(),
{
    let r = vec![
        47u8, 109u8, 117u8, 108u8, 116u8, 105u8, 115u8, 116u8, 114u8, 101u8, 97u8, 109u8, 47u8,
        49u8, 46u8, 48u8, 46u8, 48u8,
    ];
    proof {
        assert(r@ =~= header_name());
    }
    r
}

/// The handshake-protocol proposal, as bytes.
pub fn noise_bytes() -> (r: Vec<u8>)
    ensures
        r@ == noise_name(),
{
    let r = vec![47u8, 110u8, 111u8, 105u8, 115u8, 101u8];
    proof {
        assert(r@ =~= noise_name());
    }
    r
}

/// The window-based multiplexer proposal, as bytes.
pub fn yamux_bytes() -> (r: Vec<u8>)
    ensures
        r@ == yamux_name(),
{
    let r = vec![47u8, 121u8, 97u8, 109u8, 117u8, 120u8, 47u8, 49u8, 46u8, 48u8, 46u8, 48u8];
    proof {
        assert(r@ =~= yamux_name());
    }
    r
}

/// The varint-framed multiplexer proposal, as bytes.
pub fn mplex_bytes() -> (r: Vec<u8>)
    ensures
        r@ == mplex_name(),
{
    let r = vec![47u8, 109u8, 112u8, 108u8, 101u8, 120u8, 47u8, 54u8, 46u8, 55u8, 46u8, 48u8];
    proof {
        assert(r@ =~= mplex_name());
    }
    r
}

/// Which protocol a proposal line names, decided on bytes.
pub fn match_protocol(name: &Vec<u8>) -> (r: Option<KnownProtocol>)
    ensures
        r == name_to_protocol(name@),
{
    if crate::wire::bytes_eq(name, &noise_bytes()) {
        Some(KnownProtocol::Noise)
    } else if crate::wire::bytes_eq(name, &yamux_bytes()) {
        Some(KnownProtocol::Yamux)
    } else if crate::wire::bytes_eq(name, &mplex_bytes()) {
        Some(KnownProtocol::Mplex)
    } else {
        None
    }
}

/// One proposal line as the negotiation layer expects to find it on
/// the wire: a one-byte length, the name, and the terminator.
pub fn encode_line(name: &Vec<u8>) -> (r: Vec<u8>)
    requires
        name@.len() + 1 <= 255,
    ensures
        r@ == seq![(name@.len() + 1) as u8] + name@ + seq![10u8],
{
    let mut r: Vec<u8> = Vec::new();
    r.push((name.len() + 1) as u8);
    r.extend_from_slice(name.as_slice());
    r.push(10);
    proof {
        assert(r@ =~= seq![(name@.len() + 1) as u8] + name@ + seq![10u8]);
    }
    r
}

/// The mathematical state of the negotiation layer.
#[verifier::ext_equal]
pub struct MsModel {
    /// The proposal that stands on the proposing side.
    pub proposed: Option<KnownProtocol>,
    /// The protocol both sides have agreed on, once they have.
    pub chosen: Option<KnownProtocol>,
    /// Whether negotiation has failed for good.
    pub failed: bool,
    /// Bytes waiting on the proposing (outbound) side.
    pub pend_out: Seq<u8>,
    /// Bytes waiting on the answering (inbound) side.
    pub pend_in: Seq<u8>,
}

impl MsModel {
    /// The waiting bytes of the given direction.
    pub open spec fn pend(&self, direction: Direction) -> Seq<u8> {
        match direction {
            Direction::Outbound => self.pend_out,
            Direction::Inbound => self.pend_in,
        }
    }
}

/// What one call hands onward: the protocol chosen by this call, if
/// any, and the bytes that now belong to the next stage, per
/// direction.
pub struct MsOutput {
    /// The protocol this call settled on, if it did.
    pub chosen: Option<KnownProtocol>,
    /// Outbound bytes belonging to the next stage.
    pub flush_out: Vec<u8>,
    /// Inbound bytes belonging to the next stage.
    pub flush_in: Vec<u8>,
}

/// What one call does to the negotiation stage: the new state, the
/// protocol this call settles on (if any), the bytes handed to the
/// next stage per direction, and the error, if one arises.  A failed
/// stage stays silent; after agreement bytes pass straight through;
/// an overlong buffer is a framing error; otherwise the proposing
/// side's lines are read, then the answering side's.
pub open spec fn ms_step(h: MsModel, direction: Direction, bytes: Seq<u8>, limit: nat) -> (
    MsModel,
    Option<KnownProtocol>,
    Seq<u8>,
    Seq<u8>,
    Option<DecodeError>,
) {
    if h.failed {
        (h, None, Seq::<u8>::empty(), Seq::<u8>::empty(), None)
    } else if h.chosen is Some {
        (
            h,
            None,
            (match direction {
                Direction::Outbound => bytes,
                Direction::Inbound => Seq::<u8>::empty(),
            }),
            (match direction {
                Direction::Outbound => Seq::<u8>::empty(),
                Direction::Inbound => bytes,
            }),
            None,
        )
    } else if h.pend(direction).len() + bytes.len() > limit {
        (h, None, Seq::<u8>::empty(), Seq::<u8>::empty(), Some(DecodeError::Framing))
    } else {
        let po = (match direction {
            Direction::Outbound => h.pend_out + bytes,
            Direction::Inbound => h.pend_out,
        });
        let pi = (match direction {
            Direction::Outbound => h.pend_in,
            Direction::Inbound => h.pend_in + bytes,
        });
        let a = ms_propose(h.proposed, po);
        let b = ms_answer(a.0, pi);
        if a.2 {
            (
                MsModel { proposed: a.0, chosen: None, failed: true, pend_out: a.1, pend_in: pi },
                None,
                Seq::<u8>::empty(),
                Seq::<u8>::empty(),
                Some(DecodeError::Negotiation),
            )
        } else if b.2 {
            (
                MsModel { proposed: a.0, chosen: None, failed: true, pend_out: a.1, pend_in: b.1 },
                None,
                Seq::<u8>::empty(),
                Seq::<u8>::empty(),
                Some(DecodeError::Negotiation),
            )
        } else if b.0 is Some {
            (
                MsModel {
                    proposed: a.0,
                    chosen: b.0,
                    failed: false,
                    pend_out: Seq::<u8>::empty(),
                    pend_in: Seq::<u8>::empty(),
                },
                b.0,
                a.1,
                b.1,
                None,
            )
        } else {
            (
                MsModel { proposed: a.0, chosen: None, failed: false, pend_out: a.1, pend_in: b.1 },
                None,
                Seq::<u8>::empty(),
                Seq::<u8>::empty(),
                None,
            )
        }
    }
}

/// The negotiation handler of one stream.
pub struct MultistreamHandler {
    proposed: Option<KnownProtocol>,
    chosen: Option<KnownProtocol>,
    failed: bool,
    buf_out: PendingBuffer,
    buf_in: PendingBuffer,
}

impl MultistreamHandler {
    /// The mathematical state of this handler.
    pub closed spec fn model(&self) -> MsModel {
        MsModel {
            proposed: self.proposed,
            chosen: self.chosen,
            failed: self.failed,
            pend_out: self.buf_out@,
            pend_in: self.buf_in@,
        }
    }

    /// Buffers respect their (equal) limits.
    pub closed spec fn wf(&self) -> bool {
        self.buf_out.wf() && self.buf_in.wf() && self.buf_out.spec_limit()
            == self.buf_in.spec_limit()
    }

    /// The configured per-direction buffering bound.
    pub closed spec fn buffer_limit(&self) -> usize {
        self.buf_out.spec_limit()
    }

    /// A fresh handler with no proposal standing.
    pub fn new(buffer_limit: usize) -> (r: MultistreamHandler)
        ensures
            r.wf(),
            r.buffer_limit() == buffer_limit,
            r.model() =~= (MsModel {
                proposed: None,
                chosen: None,
                failed: false,
                pend_out: Seq::<u8>::empty(),
                pend_in: Seq::<u8>::empty(),
            }),
    {
        MultistreamHandler {
            proposed: None,
            chosen: None,
            failed: false,
            buf_out: PendingBuffer::new(buffer_limit),
            buf_in: PendingBuffer::new(buffer_limit),
        }
    }

    /// Parse and consume the proposal lines waiting on one side.
    ///
    /// On the proposing side (`answer` false) the standing proposal is
    /// replaced by each recognized name; on the answering side
    /// (`answer` true) a recognized name matching the standing
    /// proposal settles the negotiation.
    fn run_lines(&mut self, answer: bool) -> (r: Result<Option<KnownProtocol>, DecodeError>)
        requires
            old(self).wf(),
        ensures
            final(self).wf(),
            final(self).buffer_limit() == old(self).buffer_limit(),
            final(self).model().chosen == old(self).model().chosen,
            !answer ==> final(self).model().pend_in == old(self).model().pend_in,
            answer ==> final(self).model().pend_out == old(self).model().pend_out
                && final(self).model().proposed == old(self).model().proposed,
            ({
                let a = (if answer {
                    ms_answer(old(self).model().proposed, old(self).model().pend_in)
                } else {
                    ms_propose(old(self).model().proposed, old(self).model().pend_out)
                });
                &&& !answer ==> final(self).model().proposed == a.0
                    && final(self).model().pend_out == a.1
                &&& answer ==> final(self).model().pend_in == a.1
                &&& final(self).model().failed == (old(self).model().failed || a.2)
                &&& a.2 <==> r == Result::<Option<KnownProtocol>, DecodeError>::Err(
                    DecodeError::Negotiation,
                )
                &&& !a.2 ==> r == Result::<Option<KnownProtocol>, DecodeError>::Ok(
                    if answer {
                        a.0
                    } else {
                        None
                    },
                )
            }),
    {
        let ghost p0 = self.proposed;
        let ghost b0 = (if answer {
            self.buf_in@
        } else {
            self.buf_out@
        });
        let ghost a0 = (if answer {
            ms_answer(p0, b0)
        } else {
            ms_propose(p0, b0)
        });
        let mut done = false;
        loop
            invariant
                self.wf(),
                self.buffer_limit() == old(self).buffer_limit(),
                self.chosen == old(self).chosen,
                self.failed == old(self).failed,
                !answer ==> self.buf_in@ == old(self).buf_in@,
                answer ==> self.buf_out@ == old(self).buf_out@ && self.proposed == old(
                    self,
                ).proposed,
                a0 == (if answer {
                    ms_answer(old(self).model().proposed, old(self).model().pend_in)
                } else {
                    ms_propose(old(self).model().proposed, old(self).model().pend_out)
                }),
                answer ==> a0 == ms_answer(self.proposed, self.buf_in@),
                !answer ==> a0 == ms_propose(self.proposed, self.buf_out@),
                done ==> (if answer {
                    self.buf_in@.len() < 1 || 1 + self.buf_in@[0] > self.buf_in@.len()
                } else {
                    self.buf_out@.len() < 1 || 1 + self.buf_out@[0] > self.buf_out@.len()
                }),
                done ==> a0 == (if answer {
                    (None::<KnownProtocol>, self.buf_in@, false)
                } else {
                    (self.proposed, self.buf_out@, false)
                }),
            ensures
                done,
            decreases (if answer {
                self.buf_in@.len()
            } else {
                self.buf_out@.len()
            }), (if done {
                0int
            } else {
                1int
            }),
        {
            if done {
                break ;
            }
            let buf = if answer {
                &mut self.buf_in
            } else {
                &mut self.buf_out
            };
            if buf.len() < 1 {
                done = true;
            } else {
                let l = buf.at(0) as usize;
                if l == 0 {
                    self.failed = true;
                    proof {
                        if answer {
                            assert(ms_answer(self.proposed, self.buf_in@) == (
                                None::<KnownProtocol>,
                                self.buf_in@,
                                true,
                            ));
                        } else {
                            assert(ms_propose(self.proposed, self.buf_out@) == (
                                self.proposed,
                                self.buf_out@,
                                true,
                            ));
                        }
                    }
                    return Err(DecodeError::Negotiation);
                }
                if buf.len() < 1 + l {
                    done = true;
                } else if buf.at(l) != 10 {
                    self.failed = true;
                    proof {
                        if answer {
                            assert(ms_answer(self.proposed, self.buf_in@) == (
                                None::<KnownProtocol>,
                                self.buf_in@,
                                true,
                            ));
                        } else {
                            assert(ms_propose(self.proposed, self.buf_out@) == (
                                self.proposed,
                                self.buf_out@,
                                true,
                            ));
                        }
                    }
                    return Err(DecodeError::Negotiation);
                } else {
                    let ghost cur = buf@;
                    let ghost pprev = self.proposed;
                    let prefix = buf.take(1);
                    let mut line = buf.take(l);
                    proof {
                        assert(line@ =~= cur.subrange(1, 1 + l));
                        assert(buf@ =~= cur.subrange(1 + l, cur.len() as int));
                    }
                    let nl = line.pop();
                    proof {
                        assert(line@ =~= cur.subrange(1, l as int));
                    }
                    if crate::wire::bytes_eq(&line, &header_bytes()) {
                        proof {
                            if answer {
                                assert(ms_answer(pprev, cur) == ms_answer(pprev, buf@));
                            } else {
                                assert(ms_propose(pprev, cur) == ms_propose(pprev, buf@));
                            }
                        }
                    } else {
                        match match_protocol(&line) {
                            Some(p) => {
                                if !answer {
                                    self.proposed = Some(p);
                                    proof {
                                        assert(ms_propose(pprev, cur) == ms_propose(
                                            Some(p),
                                            buf@,
                                        ));
                                    }
                                } else {
                                    if self.proposed == Some(p) {
                                        proof {
                                            assert(ms_answer(pprev, cur) == (
                                                Some(p),
                                                self.buf_in@,
                                                false,
                                            ));
                                        }
                                        return Ok(Some(p));
                                    } else {
                                        self.failed = true;
                                        proof {
                                            assert(ms_answer(pprev, cur) == (
                                                None::<KnownProtocol>,
                                                self.buf_in@,
                                                true,
                                            ));
                                        }
                                        return Err(DecodeError::Negotiation);
                                    }
                                }
                            },
                            None => {
                                self.failed = true;
                                proof {
                                    if answer {
                                        assert(ms_answer(pprev, cur) == (
                                            None::<KnownProtocol>,
                                            self.buf_in@,
                                            true,
                                        ));
                                    } else {
                                        assert(ms_propose(pprev, cur) == (
                                            pprev,
                                            self.buf_out@,
                                            true,
                                        ));
                                    }
                                }
                                return Err(DecodeError::Negotiation);
                            },
                        }
                    }
                }
            }
        }
        Ok(None)
    }

    /// Feed one directed chunk.  Before agreement the bytes are
    /// negotiation lines; once a proposal has been echoed the protocol
    /// is chosen and every remaining or later byte belongs to the next
    /// stage and is handed through untouched.
    pub fn on_data(&mut self, direction: Direction, bytes: Vec<u8>) -> (r: Result<
        MsOutput,
        DecodeError,
    >)
        requires
            old(self).wf(),
        ensures
            final(self).wf(),
            final(self).buffer_limit() == old(self).buffer_limit(),
            ({
                let t = ms_step(old(self).model(), direction, bytes@, old(self).buffer_limit() as nat);
                &&& final(self).model() =~= t.0
                &&& (r is Ok <==> t.4 is None)
                &&& t.4 is Some ==> r == Result::<MsOutput, DecodeError>::Err(t.4.unwrap())
                &&& r is Ok ==> r.unwrap().chosen == t.1 && r.unwrap().flush_out@ == t.2
                    && r.unwrap().flush_in@ == t.3
            }),
    {
        if self.failed {
            return Ok(MsOutput { chosen: None, flush_out: Vec::new(), flush_in: Vec::new() });
        }
        if self.chosen.is_some() {
            return Ok(
                match direction {
                    Direction::Outbound => MsOutput {
                        chosen: None,
                        flush_out: bytes,
                        flush_in: Vec::new(),
                    },
                    Direction::Inbound => MsOutput {
                        chosen: None,
                        flush_out: Vec::new(),
                        flush_in: bytes,
                    },
                },
            );
        }
        let appended = match direction {
            Direction::Outbound => self.buf_out.append(&bytes),
            Direction::Inbound => self.buf_in.append(&bytes),
        };
        match appended {
            Ok(()) => (),
            Err(e) => {
                return Err(e);
            },
        }
        match self.run_lines(false) {
            Ok(_) => (),
            Err(e) => {
                return Err(e);
            },
        }
        let settled = match self.run_lines(true) {
            Ok(c) => c,
            Err(e) => {
                return Err(e);
            },
        };
        match settled {
            Some(p) => {
                self.chosen = Some(p);
                let n_out = self.buf_out.len();
                let fo = self.buf_out.take(n_out);
                let n_in = self.buf_in.len();
                let fi = self.buf_in.take(n_in);
                proof {
                    assert(self.buf_out@ =~= Seq::<u8>::empty());
                    assert(self.buf_in@ =~= Seq::<u8>::empty());
                }
                Ok(MsOutput { chosen: Some(p), flush_out: fo, flush_in: fi })
            },
            None => Ok(MsOutput { chosen: None, flush_out: Vec::new(), flush_in: Vec::new() }),
        }
    }
}

} // verus!
