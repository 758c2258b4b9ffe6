//! Per-connection handler chains and the registry that owns them.
//!
//! A chain strips the obfuscation layer, feeds the handshake and
//! transport layer, follows both negotiations, hands demultiplexed
//! frames to the sub-stream table, and runs one application decoder
//! per sub-stream.  The registry keys chains by connection; a failure
//! inside one chain never touches another.

use vstd::prelude::*;
use vstd::string::StringSliceAdditionalSpecFns;
use crate::error::DecodeError;
use crate::ids::{Direction, DirectedId, StreamId, SubStream};
use crate::mina_protocol::{AppDecoder, Record};
use crate::mplex::MplexHandler;
use crate::multistream_select::{KnownProtocol, MultistreamHandler, match_protocol, name_to_protocol};
use crate::mux::MuxHandler;
use crate::noise::NoiseHandler;
use crate::pnet::{pnet_key_ok, pnet_apply, pnet_xform, advance_offset};
use crate::proc::S;
use crate::yamux::{StreamAction, YamuxHandler};

verus! {

/// Largest frame body a handler made by name accepts.
pub const DEFAULT_MAX_FRAME: usize = 1048576;

/// Accumulation bound of a handler made by name.
pub const DEFAULT_BUFFER_LIMIT: usize = 4194304;

/// The context handed into every handler call: configuration and the
/// boot-time reference, never process-wide state.
pub struct Cx {
    /// The pre-shared obfuscation key, when configured.
    pub pnet_key: Option<Vec<u8>>,
    /// Largest accepted frame body at every framing layer.
    pub max_frame: usize,
    /// Per-handler byte-accumulation bound.
    pub buffer_limit: usize,
    /// Largest accepted application message envelope.
    pub max_envelope: usize,
    /// The boot-time reference.
    pub boot: S,
}

/// Constructs a handler from a negotiated protocol name.
pub trait DynamicProtocol {
    /// The handler instance the name calls for, on the given stream.
    fn from_name(name: &str, stream_id: StreamId) -> Self where Self: Sized;
}

/// A protocol-decoding stage: every layer implements this.
pub trait HandleData {
    /// The well-formed state every call must start from.
    spec fn ready(&self) -> bool;

    /// Feed one directed chunk; decoded records go to `out`.
    fn on_data(
        &mut self,
        id: DirectedId,
        bytes: &mut Vec<u8>,
        cx: &Cx,
        out: &mut Vec<Record>,
    ) -> (r: Result<(), DecodeError>)
        requires
            old(self).ready(),
        ensures
            final(self).ready(),
    ;
}

/// Lifecycle of a sub-stream table entry.
#[derive(Clone, Copy, PartialEq, Eq, Structural, Debug)]
pub enum LifeCycle {
    /// Accepting data.
    Open,
    /// One side has finished; data may still flow.
    HalfClosed,
    /// Closed or reset.  Later frames for this id are a violation of
    /// that sub-stream alone: they are ignored, never fatal to the
    /// connection, and never reopen the sub-stream.
    Closed,
}

/// One sub-stream's table entry: its identity, lifecycle, and its own
/// terminal decoder.
pub struct SubEntry {
    /// The sub-stream id as the multiplexer framing carries it.
    pub id: u64,
    /// Where the sub-stream stands in its lifecycle.
    pub state: LifeCycle,
    /// The sub-stream's application decoder.
    pub decoder: AppDecoder,
}

/// The mathematical state of one table entry.
pub struct SubModel {
    /// The sub-stream id.
    pub id: u64,
    /// Where the sub-stream stands in its lifecycle.
    pub state: LifeCycle,
    /// Whether the sub-stream's decoder has failed.
    pub failed: bool,
    /// Bytes its decoder holds, per direction.
    pub pend_out: Seq<u8>,
    /// Bytes its decoder holds for the inbound direction.
    pub pend_in: Seq<u8>,
}

impl SubModel {
    /// The waiting bytes of the given direction.
    pub open spec fn pend(&self, direction: Direction) -> Seq<u8> {
        match direction {
            Direction::Outbound => self.pend_out,
            Direction::Inbound => self.pend_in,
        }
    }
}

/// Index of the first entry for `id`, or the length when none exists.
pub open spec fn find_index(subs: Seq<SubModel>, id: u64) -> int
    decreases subs.len(),
{
    if subs.len() == 0 {
        0
    } else if subs[0].id == id {
        0
    } else {
        1 + find_index(subs.drop_first(), id)
    }
}

/// `find_index` is the first match.
proof fn lemma_find_index_at(subs: Seq<SubModel>, id: u64, k: int)
    requires
        0 <= k <= subs.len(),
        forall|j: int| 0 <= j < k ==> (#[trigger] subs[j]).id != id,
        k == subs.len() || subs[k].id == id,
    ensures
        find_index(subs, id) == k,
    decreases k,
{
    if k > 0 {
        lemma_find_index_at(subs.drop_first(), id, k - 1);
    } else {
        if subs.len() > 0 && subs[0].id != id {
            assert(k == subs.len() || subs[k].id == id);
        }
    }
}

/// What one stream action does to the table: a fresh entry on an
/// unseen open, the body handed to the addressed sub-stream's own
/// decoder (unless that sub-stream is closed), a lifecycle step on a
/// half-close or reset — and nothing at all to any other entry.
pub open spec fn route_one(
    subs: Seq<SubModel>,
    direction: Direction,
    a: crate::yamux::StreamActionModel,
    connection: u64,
    max_env: nat,
    limit: nat,
) -> (Seq<SubModel>, Seq<crate::mina_protocol::RecordModel>) {
    let subs1 = (if a.opens && find_index(subs, a.id) == subs.len() {
        subs.push(
            SubModel {
                id: a.id,
                state: LifeCycle::Open,
                failed: false,
                pend_out: Seq::<u8>::empty(),
                pend_in: Seq::<u8>::empty(),
            },
        )
    } else {
        subs
    });
    let ix = find_index(subs1, a.id);
    let fed = (if a.data.len() > 0 && ix < subs1.len() && subs1[ix].state != LifeCycle::Closed {
        let e = subs1[ix];
        let s = crate::mina_protocol::app_step(e.pend(direction), e.failed, a.data, max_env, limit);
        let e2 = SubModel {
            failed: s.2,
            pend_out: (match direction {
                Direction::Outbound => s.1,
                Direction::Inbound => e.pend_out,
            }),
            pend_in: (match direction {
                Direction::Outbound => e.pend_in,
                Direction::Inbound => s.1,
            }),
            ..e
        };
        (
            subs1.remove(ix).push(e2),
            crate::mina_protocol::records_of(
                s.0,
                StreamId { connection, sub: SubStream::Sub(a.id) },
                direction,
            ),
        )
    } else {
        (subs1, Seq::<crate::mina_protocol::RecordModel>::empty())
    });
    let subs2 = fed.0;
    let subs3 = (if a.closes || a.resets {
        close_model(subs2, a.id, a.resets)
    } else {
        subs2
    });
    (subs3, fed.1)
}

/// A half-close steps the addressed sub-stream's lifecycle; a second
/// half-close or a reset closes it, telling its decoder the stream
/// ended (its waiting bytes can no longer complete an envelope and
/// are released).
pub open spec fn close_model(subs: Seq<SubModel>, id: u64, resets: bool) -> Seq<SubModel> {
    let ix = find_index(subs, id);
    if ix < subs.len() {
        let st = (if resets {
            LifeCycle::Closed
        } else if subs[ix].state == LifeCycle::Open {
            LifeCycle::HalfClosed
        } else {
            LifeCycle::Closed
        });
        let e3 = (if st == LifeCycle::Closed {
            SubModel {
                state: st,
                pend_out: Seq::<u8>::empty(),
                pend_in: Seq::<u8>::empty(),
                ..subs[ix]
            }
        } else {
            SubModel { state: st, ..subs[ix] }
        });
        subs.update(ix, e3)
    } else {
        subs
    }
}

/// What a run of stream actions does to the table, action by action,
/// with the records each addressed decoder produced, in order.
pub open spec fn route_fold(
    subs: Seq<SubModel>,
    direction: Direction,
    actions: Seq<crate::yamux::StreamActionModel>,
    connection: u64,
    max_env: nat,
    limit: nat,
) -> (Seq<SubModel>, Seq<crate::mina_protocol::RecordModel>)
    decreases actions.len(),
{
    if actions.len() == 0 {
        (subs, Seq::<crate::mina_protocol::RecordModel>::empty())
    } else {
        let h = route_one(subs, direction, actions.first(), connection, max_env, limit);
        let t = route_fold(h.0, direction, actions.drop_first(), connection, max_env, limit);
        (t.0, h.1 + t.1)
    }
}

/// The mathematical state of the multiplexer stage.
#[verifier::ext_equal]
pub struct MuxStageModel {
    /// Whether the window-based framing runs (the varint framing
    /// otherwise).
    pub yamux: bool,
    /// Whether the stage has failed for good.
    pub failed: bool,
    /// Bytes waiting, per direction.
    pub pend_out: Seq<u8>,
    /// Bytes waiting for the inbound direction.
    pub pend_in: Seq<u8>,
}

impl MuxStageModel {
    /// The waiting bytes of the given direction.
    pub open spec fn pend(&self, direction: Direction) -> Seq<u8> {
        match direction {
            Direction::Outbound => self.pend_out,
            Direction::Inbound => self.pend_in,
        }
    }
}

/// What the multiplexer stage and the sub-stream table do with one
/// direction's bytes: parse complete frames, then apply their actions
/// to the table.  No stage at all passes the bytes nowhere; a failed
/// stage stays silent; an overlong buffer or a malformed or oversized
/// frame is a framing error.
pub open spec fn feed_mux_spec(
    mux: Option<MuxStageModel>,
    subs: Seq<SubModel>,
    direction: Direction,
    data: Seq<u8>,
    connection: u64,
    max_frame: nat,
    buffer_limit: nat,
    max_env: nat,
) -> (Option<MuxStageModel>, Seq<SubModel>, Seq<crate::mina_protocol::RecordModel>, Option<
    DecodeError,
>) {
    match mux {
        None => (None, subs, Seq::<crate::mina_protocol::RecordModel>::empty(), None),
        Some(x) => {
            if x.failed {
                (Some(x), subs, Seq::<crate::mina_protocol::RecordModel>::empty(), None)
            } else if x.pend(direction).len() + data.len() > buffer_limit {
                (
                    Some(x),
                    subs,
                    Seq::<crate::mina_protocol::RecordModel>::empty(),
                    Some(DecodeError::Framing),
                )
            } else {
                let d = (if x.yamux {
                    crate::yamux::yamux_actions(x.pend(direction) + data, max_frame)
                } else {
                    crate::mplex::mplex_actions(x.pend(direction) + data, max_frame)
                });
                let x2 = MuxStageModel {
                    yamux: x.yamux,
                    failed: d.2,
                    pend_out: (match direction {
                        Direction::Outbound => d.1,
                        Direction::Inbound => x.pend_out,
                    }),
                    pend_in: (match direction {
                        Direction::Outbound => x.pend_in,
                        Direction::Inbound => d.1,
                    }),
                };
                if d.2 {
                    (
                        Some(x2),
                        subs,
                        Seq::<crate::mina_protocol::RecordModel>::empty(),
                        Some(DecodeError::Framing),
                    )
                } else {
                    let f = route_fold(subs, direction, d.0, connection, max_env, buffer_limit);
                    (Some(x2), f.0, f.1, None)
                }
            }
        },
    }
}

/// The mathematical state of a whole chain.
#[verifier::ext_equal]
pub struct ChainModel {
    /// The connection this chain decodes.
    pub connection: u64,
    /// Whether the chain has stopped decoding for good.
    pub failed: bool,
    /// The sequence number the next outbound chunk must carry.
    pub next_seq_out: u64,
    /// The sequence number the next inbound chunk must carry.
    pub next_seq_in: u64,
    /// The pre-shared obfuscation key.
    pub key: Seq<u8>,
    /// Key-stream offset of the outbound direction.
    pub off_out: usize,
    /// Key-stream offset of the inbound direction.
    pub off_in: usize,
    /// The first negotiation stage.
    pub ms1: crate::multistream_select::MsModel,
    /// The handshake and transport stage, once chosen.
    pub noise: Option<crate::noise::NoiseModel>,
    /// The second negotiation stage, once the transport runs.
    pub ms2: Option<crate::multistream_select::MsModel>,
    /// The multiplexer stage, once chosen.
    pub mux: Option<MuxStageModel>,
    /// The sub-stream table.
    pub subs: Seq<SubModel>,
    /// Largest accepted frame body.
    pub max_frame: usize,
    /// Per-handler byte-accumulation bound.
    pub buffer_limit: usize,
    /// Largest accepted message envelope.
    pub max_envelope: usize,
}

/// A freshly created negotiation stage.
pub open spec fn fresh_ms() -> crate::multistream_select::MsModel {
    crate::multistream_select::MsModel {
        proposed: None,
        chosen: None,
        failed: false,
        pend_out: Seq::<u8>::empty(),
        pend_in: Seq::<u8>::empty(),
    }
}

/// A freshly created handshake stage.
pub open spec fn fresh_noise() -> crate::noise::NoiseModel {
    crate::noise::NoiseModel {
        step: crate::noise::NoiseStep::AwaitMsg1,
        e1: Seq::<u8>::empty(),
        key_out: Seq::<u8>::empty(),
        key_in: Seq::<u8>::empty(),
        nonce_out: 0,
        nonce_in: 0,
        pend_out: Seq::<u8>::empty(),
        pend_in: Seq::<u8>::empty(),
    }
}

/// A freshly created multiplexer stage for the chosen protocol.
pub open spec fn fresh_mux(p: KnownProtocol) -> MuxStageModel {
    MuxStageModel {
        yamux: p == KnownProtocol::Yamux,
        failed: false,
        pend_out: Seq::<u8>::empty(),
        pend_in: Seq::<u8>::empty(),
    }
}

/// A fresh chain for `connection` under `key` and the given bounds.
pub open spec fn fresh_chain(
    connection: u64,
    key: Seq<u8>,
    max_frame: usize,
    buffer_limit: usize,
    max_envelope: usize,
) -> ChainModel {
    ChainModel {
        connection,
        failed: false,
        next_seq_out: 0,
        next_seq_in: 0,
        key,
        off_out: 0,
        off_in: 0,
        ms1: fresh_ms(),
        noise: None,
        ms2: None,
        mux: None,
        subs: Seq::<SubModel>::empty(),
        max_frame,
        buffer_limit,
        max_envelope,
    }
}

/// [`feed_mux_spec`], threaded through the whole chain state.
pub open spec fn feed_mux_model(m: ChainModel, direction: Direction, data: Seq<u8>) -> (
    ChainModel,
    Seq<crate::mina_protocol::RecordModel>,
    Option<DecodeError>,
) {
    let g = feed_mux_spec(
        m.mux,
        m.subs,
        direction,
        data,
        m.connection,
        m.max_frame as nat,
        m.buffer_limit as nat,
        m.max_envelope as nat,
    );
    (ChainModel { mux: g.0, subs: g.1, ..m }, g.2, g.3)
}

/// What bytes that left the transport layer do: the second
/// negotiation consumes them, a settled multiplexer is instantiated
/// fresh, and everything the negotiation hands onward goes to the
/// multiplexer, outbound before inbound.
pub open spec fn feed_after_noise_model(m: ChainModel, direction: Direction, data: Seq<u8>) -> (
    ChainModel,
    Seq<crate::mina_protocol::RecordModel>,
    Option<DecodeError>,
) {
    match m.ms2 {
        None => feed_mux_model(m, direction, data),
        Some(h) => {
            let t = crate::multistream_select::ms_step(h, direction, data, m.buffer_limit as nat);
            let m1 = ChainModel { ms2: Some(t.0), ..m };
            if t.4 is Some {
                (m1, Seq::<crate::mina_protocol::RecordModel>::empty(), t.4)
            } else {
                let m2 = (match t.1 {
                    Some(p) => (if p == KnownProtocol::Noise {
                        m1
                    } else {
                        ChainModel { mux: Some(fresh_mux(p)), ..m1 }
                    }),
                    None => m1,
                });
                let g1 = feed_mux_model(m2, Direction::Outbound, t.2);
                if g1.2 is Some {
                    (g1.0, g1.1, g1.2)
                } else {
                    let g2 = feed_mux_model(g1.0, Direction::Inbound, t.3);
                    (g2.0, g1.1 + g2.1, g2.2)
                }
            }
        },
    }
}

/// What bytes that left the first negotiation do: the transport layer
/// opens its frames and the plaintext of each direction moves on,
/// outbound before inbound.
pub open spec fn feed_after_ms1_model(m: ChainModel, direction: Direction, data: Seq<u8>) -> (
    ChainModel,
    Seq<crate::mina_protocol::RecordModel>,
    Option<DecodeError>,
) {
    match m.noise {
        None => feed_after_noise_model(m, direction, data),
        Some(nm) => {
            let t = crate::noise::noise_step(
                nm,
                direction,
                data,
                m.max_frame as nat,
                m.buffer_limit as nat,
            );
            let m1 = ChainModel { noise: Some(t.0), ..m };
            if t.3 is Some {
                (m1, Seq::<crate::mina_protocol::RecordModel>::empty(), t.3)
            } else {
                let g1 = feed_after_noise_model(m1, Direction::Outbound, t.1);
                if g1.2 is Some {
                    (g1.0, g1.1, g1.2)
                } else {
                    let g2 = feed_after_noise_model(g1.0, Direction::Inbound, t.2);
                    (g2.0, g1.1 + g2.1, g2.2)
                }
            }
        },
    }
}

/// The chain restarted as a new logical stream: every stage and
/// counter fresh, only identity, key and configuration kept.
pub open spec fn chain_restarted(m: ChainModel) -> ChainModel {
    fresh_chain(m.connection, m.key, m.max_frame, m.buffer_limit, m.max_envelope)
}

/// What one captured chunk does to a whole chain: the new chain
/// state, the records decoded from it, and the error, if one arises.
/// A restarted numbering opens a new logical stream; a failed chain
/// is otherwise silent; a gap or wrapped counter desynchronizes the
/// chain; otherwise the chunk is de-obfuscated and handed down the
/// stages, whose first error marks the chain failed.
pub open spec fn chain_step(m: ChainModel, direction: Direction, sequence: u64, bytes: Seq<u8>) -> (
    ChainModel,
    Seq<crate::mina_protocol::RecordModel>,
    Option<DecodeError>,
) {
    let expected0 = (match direction {
        Direction::Outbound => m.next_seq_out,
        Direction::Inbound => m.next_seq_in,
    });
    let m0 = (if sequence == 0 && (m.failed || expected0 != 0) {
        chain_restarted(m)
    } else {
        m
    });
    let expected = (match direction {
        Direction::Outbound => m0.next_seq_out,
        Direction::Inbound => m0.next_seq_in,
    });
    if m0.failed {
        (m, Seq::<crate::mina_protocol::RecordModel>::empty(), None)
    } else if sequence != 0 && sequence != expected {
        (
            ChainModel { failed: true, ..m0 },
            Seq::<crate::mina_protocol::RecordModel>::empty(),
            Some(DecodeError::Desynchronized),
        )
    } else if sequence == u64::MAX {
        (
            ChainModel { failed: true, ..m0 },
            Seq::<crate::mina_protocol::RecordModel>::empty(),
            Some(DecodeError::Desynchronized),
        )
    } else {
        chain_process(m0, direction, sequence, bytes)
    }
}

/// The processing part of [`chain_step`], once the chunk is accepted:
/// de-obfuscate, run the first negotiation, instantiate chosen
/// stages, and hand everything onward, outbound before inbound.
pub open spec fn chain_process(
    m0: ChainModel,
    direction: Direction,
    sequence: u64,
    bytes: Seq<u8>,
) -> (ChainModel, Seq<crate::mina_protocol::RecordModel>, Option<DecodeError>) {
    let off = (match direction {
        Direction::Outbound => m0.off_out,
        Direction::Inbound => m0.off_in,
    });
    let plain = pnet_xform(m0.key, off as nat, bytes);
    let newoff = ((off + bytes.len()) % (m0.key.len() as int)) as usize;
    let m1 = ChainModel {
        next_seq_out: (match direction {
            Direction::Outbound => (sequence + 1) as u64,
            Direction::Inbound => m0.next_seq_out,
        }),
        next_seq_in: (match direction {
            Direction::Outbound => m0.next_seq_in,
            Direction::Inbound => (sequence + 1) as u64,
        }),
        off_out: (match direction {
            Direction::Outbound => newoff,
            Direction::Inbound => m0.off_out,
        }),
        off_in: (match direction {
            Direction::Outbound => m0.off_in,
            Direction::Inbound => newoff,
        }),
        ..m0
    };
    let t = crate::multistream_select::ms_step(m1.ms1, direction, plain, m1.buffer_limit as nat);
    let m2 = ChainModel { ms1: t.0, ..m1 };
    if t.4 is Some {
        (ChainModel { failed: true, ..m2 }, Seq::<crate::mina_protocol::RecordModel>::empty(), t.4)
    } else {
        settle_feed_model(m2, t.1, t.2, t.3)
    }
}

/// Instantiate the stage the first negotiation settled on, then hand
/// the bytes it released down the chain, outbound before inbound.
pub open spec fn settle_feed_model(
    m2: ChainModel,
    chosen: Option<KnownProtocol>,
    fo: Seq<u8>,
    fi: Seq<u8>,
) -> (ChainModel, Seq<crate::mina_protocol::RecordModel>, Option<DecodeError>) {
    let m3 = (match chosen {
        Some(KnownProtocol::Noise) => ChainModel {
            noise: Some(fresh_noise()),
            ms2: Some(fresh_ms()),
            ..m2
        },
        Some(p) => ChainModel { mux: Some(fresh_mux(p)), ..m2 },
        None => m2,
    });
    let g1 = feed_after_ms1_model(m3, Direction::Outbound, fo);
    if g1.2 is Some {
        (ChainModel { failed: true, ..g1.0 }, g1.1, g1.2)
    } else {
        let g2 = feed_after_ms1_model(g1.0, Direction::Inbound, fi);
        if g2.2 is Some {
            (ChainModel { failed: true, ..g2.0 }, g1.1 + g2.1, g2.2)
        } else {
            (g2.0, g1.1 + g2.1, None)
        }
    }
}

/// The ordered chain of handler stages of one physical connection.
pub struct Chain {
    connection: u64,
    failed: bool,
    next_seq_out: u64,
    next_seq_in: u64,
    pnet_key: Vec<u8>,
    pnet_off_out: usize,
    pnet_off_in: usize,
    ms1: MultistreamHandler,
    noise: Option<NoiseHandler>,
    ms2: Option<MultistreamHandler>,
    mux: Option<MuxHandler>,
    subs: Vec<SubEntry>,
    max_frame: usize,
    buffer_limit: usize,
    max_envelope: usize,
}

impl Chain {
    /// The connection this chain decodes.
    pub closed spec fn spec_connection(&self) -> u64 {
        self.connection
    }

    /// Whether this chain has stopped decoding for good.
    pub closed spec fn spec_failed(&self) -> bool {
        self.failed
    }

    /// The sequence number the next chunk of a direction must carry.
    pub closed spec fn spec_next_seq(&self, direction: Direction) -> u64 {
        match direction {
            Direction::Outbound => self.next_seq_out,
            Direction::Inbound => self.next_seq_in,
        }
    }

    /// The pre-shared obfuscation key this chain was built with.
    pub closed spec fn spec_key(&self) -> Seq<u8> {
        self.pnet_key@
    }

    /// The key-stream offset of a direction.
    pub closed spec fn spec_pnet_off(&self, direction: Direction) -> usize {
        match direction {
            Direction::Outbound => self.pnet_off_out,
            Direction::Inbound => self.pnet_off_in,
        }
    }

    /// The largest accepted application message envelope.
    pub closed spec fn spec_max_envelope(&self) -> usize {
        self.max_envelope
    }

    /// The largest accepted frame body of the framing layers.
    pub closed spec fn spec_max_frame(&self) -> usize {
        self.max_frame
    }

    /// The mathematical state of the first negotiation stage.
    pub closed spec fn ms1_model(&self) -> crate::multistream_select::MsModel {
        self.ms1.model()
    }

    /// The mathematical state of the transport stage, once one runs.
    pub closed spec fn noise_model(&self) -> Option<crate::noise::NoiseModel> {
        match self.noise {
            None => None,
            Some(h) => Some(h.model()),
        }
    }

    /// The mathematical state of the second negotiation stage, once
    /// one runs.
    pub closed spec fn ms2_model(&self) -> Option<crate::multistream_select::MsModel> {
        match self.ms2 {
            None => None,
            Some(h) => Some(h.model()),
        }
    }

    /// The mathematical state of the whole chain.
    pub closed spec fn model(&self) -> ChainModel {
        ChainModel {
            connection: self.connection,
            failed: self.failed,
            next_seq_out: self.next_seq_out,
            next_seq_in: self.next_seq_in,
            key: self.pnet_key@,
            off_out: self.pnet_off_out,
            off_in: self.pnet_off_in,
            ms1: self.ms1.model(),
            noise: self.noise_model(),
            ms2: self.ms2_model(),
            mux: self.mux_model(),
            subs: self.subs_model(),
            max_frame: self.max_frame,
            buffer_limit: self.buffer_limit,
            max_envelope: self.max_envelope,
        }
    }

    /// The mathematical state of the multiplexer stage, once one runs.
    pub closed spec fn mux_model(&self) -> Option<MuxStageModel> {
        match self.mux {
            None => None,
            Some(m) => Some(
                MuxStageModel {
                    yamux: m is Yamux,
                    failed: m.spec_failed(),
                    pend_out: m.pending(Direction::Outbound),
                    pend_in: m.pending(Direction::Inbound),
                },
            ),
        }
    }

    /// The per-handler byte-accumulation bound.
    pub closed spec fn spec_buffer_limit(&self) -> usize {
        self.buffer_limit
    }

    /// The mathematical state of the sub-stream table.
    pub closed spec fn subs_model(&self) -> Seq<SubModel> {
        Seq::new(
            self.subs@.len(),
            |i: int|
                SubModel {
                    id: self.subs@[i].id,
                    state: self.subs@[i].state,
                    failed: self.subs@[i].decoder.spec_failed(),
                    pend_out: self.subs@[i].decoder.pending(Direction::Outbound),
                    pend_in: self.subs@[i].decoder.pending(Direction::Inbound),
                },
        )
    }

    /// Every stage is well formed, and every sub-stream decoder is
    /// tagged with this connection and its own sub-stream id and
    /// configured with this chain's bounds.
    pub closed spec fn wf(&self) -> bool {
        &&& pnet_key_ok(self.pnet_key@)
        &&& self.pnet_off_out < self.pnet_key@.len()
        &&& self.pnet_off_in < self.pnet_key@.len()
        &&& self.ms1.wf()
        &&& self.ms1.buffer_limit() == self.buffer_limit
        &&& (self.noise matches Some(h) ==> h.wf() && h.spec_max() == self.max_frame
            && h.buffer_limit() == self.buffer_limit)
        &&& (self.ms2 matches Some(h) ==> h.wf() && h.buffer_limit() == self.buffer_limit)
        &&& (self.mux matches Some(h) ==> h.wf() && h.spec_max() == self.max_frame
            && h.buffer_limit() == self.buffer_limit)
        &&& forall|i: int|
            0 <= i < self.subs@.len() ==> (#[trigger] self.subs@[i]).decoder.wf()
                && self.subs@[i].decoder.spec_stream() == (StreamId {
                connection: self.connection,
                sub: SubStream::Sub(self.subs@[i].id),
            }) && self.subs@[i].decoder.spec_max() == self.max_envelope
                && self.subs@[i].decoder.buffer_limit() == self.buffer_limit
    }

    /// A fresh chain for `connection`, configured from `cx`.
    pub fn new(connection: u64, key: Vec<u8>, cx: &Cx) -> (r: Chain)
        requires
            pnet_key_ok(key@),
        ensures
            r.wf(),
            !r.spec_failed(),
            r.spec_connection() == connection,
            r.model() =~= fresh_chain(
                connection,
                key@,
                cx.max_frame,
                cx.buffer_limit,
                cx.max_envelope,
            ),
    {
        Chain {
            connection,
            failed: false,
            next_seq_out: 0,
            next_seq_in: 0,
            pnet_key: key,
            pnet_off_out: 0,
            pnet_off_in: 0,
            ms1: MultistreamHandler::new(cx.buffer_limit),
            noise: None,
            ms2: None,
            mux: None,
            subs: Vec::new(),
            max_frame: cx.max_frame,
            buffer_limit: cx.buffer_limit,
            max_envelope: cx.max_envelope,
        }
    }

    /// The index of the first table entry for `sid`, if one exists.
    fn find_sub(&self, sid: u64) -> (r: Option<usize>)
        ensures
            r is Some ==> r.unwrap() < self.subs@.len() && self.subs@[r.unwrap() as int].id == sid
                && find_index(self.subs_model(), sid) == r.unwrap(),
            r is None ==> (forall|i: int|
                0 <= i < self.subs@.len() ==> (#[trigger] self.subs@[i]).id != sid) && find_index(
                self.subs_model(),
                sid,
            ) == self.subs@.len(),
    {
        let n = self.subs.len();
        let mut i: usize = 0;
        while i < n
            invariant
                i <= n,
                n == self.subs@.len(),
                forall|j: int| 0 <= j < i ==> (#[trigger] self.subs@[j]).id != sid,
            decreases n - i,
        {
            if self.subs[i].id == sid {
                proof {
                    lemma_find_index_at(self.subs_model(), sid, i as int);
                }
                return Some(i);
            }
            i = i + 1;
        }
        proof {
            lemma_find_index_at(self.subs_model(), sid, n as int);
        }
        None
    }

    /// Step the addressed sub-stream's lifecycle on a half-close or
    /// reset, exactly as [`close_model`] says.
    #[verifier::rlimit(100)]
    #[verifier::spinoff_prover]
    fn close_sub(&mut self, aid: u64, resets: bool)
        requires
            old(self).wf(),
        ensures
            final(self).wf(),
            final(self).spec_connection() == old(self).spec_connection(),
            final(self).spec_failed() == old(self).spec_failed(),
            final(self).spec_max_envelope() == old(self).spec_max_envelope(),
            final(self).spec_buffer_limit() == old(self).spec_buffer_limit(),
            final(self).spec_max_frame() == old(self).spec_max_frame(),
            final(self).spec_key() == old(self).spec_key(),
            final(self).spec_next_seq(Direction::Outbound) == old(self).spec_next_seq(
                Direction::Outbound,
            ),
            final(self).spec_next_seq(Direction::Inbound) == old(self).spec_next_seq(
                Direction::Inbound,
            ),
            final(self).spec_pnet_off(Direction::Outbound) == old(self).spec_pnet_off(
                Direction::Outbound,
            ),
            final(self).spec_pnet_off(Direction::Inbound) == old(self).spec_pnet_off(
                Direction::Inbound,
            ),
            final(self).ms1_model() == old(self).ms1_model(),
            final(self).noise_model() == old(self).noise_model(),
            final(self).ms2_model() == old(self).ms2_model(),
            final(self).mux_model() == old(self).mux_model(),
            final(self).subs_model() =~= close_model(old(self).subs_model(), aid, resets),
    {
        let ghost m2 = self.subs_model();
        match self.find_sub(aid) {
            Some(ix) => {
                let st = (if resets {
                    LifeCycle::Closed
                } else if self.subs[ix].state == LifeCycle::Open {
                    LifeCycle::HalfClosed
                } else {
                    LifeCycle::Closed
                });
                if matches!(st, LifeCycle::Closed) {
                    // end-of-stream for this sub-stream: its decoder
                    // is told, reporting any truncated leftover and
                    // releasing its buffers
                    self.subs[ix].decoder.on_close();
                }
                self.subs[ix].state = st;
                proof {
                    if st == LifeCycle::Closed {
                        assert(self.subs_model() =~= m2.update(
                            ix as int,
                            SubModel {
                                state: st,
                                pend_out: Seq::<u8>::empty(),
                                pend_in: Seq::<u8>::empty(),
                                ..m2[ix as int]
                            },
                        ));
                    } else {
                        assert(self.subs_model() =~= m2.update(
                            ix as int,
                            SubModel { state: st, ..m2[ix as int] },
                        ));
                    }
                }
            },
            None => (),
        }
    }

    /// Apply one stream action, exactly as [`route_one`] says.
    #[verifier::rlimit(100)]
    #[verifier::spinoff_prover]
    fn route_single(&mut self, direction: Direction, act: &StreamAction, out: &mut Vec<Record>)
        requires
            old(self).wf(),
        ensures
            final(self).wf(),
            final(self).spec_connection() == old(self).spec_connection(),
            final(self).spec_failed() == old(self).spec_failed(),
            final(self).spec_max_envelope() == old(self).spec_max_envelope(),
            final(self).spec_buffer_limit() == old(self).spec_buffer_limit(),
            final(self).spec_key() == old(self).spec_key(),
            final(self).spec_next_seq(Direction::Outbound) == old(self).spec_next_seq(
                Direction::Outbound,
            ),
            final(self).spec_next_seq(Direction::Inbound) == old(self).spec_next_seq(
                Direction::Inbound,
            ),
            final(self).spec_pnet_off(Direction::Outbound) == old(self).spec_pnet_off(
                Direction::Outbound,
            ),
            final(self).spec_pnet_off(Direction::Inbound) == old(self).spec_pnet_off(
                Direction::Inbound,
            ),
            final(self).spec_failed() == old(self).spec_failed(),
            final(self).spec_max_frame() == old(self).spec_max_frame(),
            final(self).ms1_model() == old(self).ms1_model(),
            final(self).noise_model() == old(self).noise_model(),
            final(self).ms2_model() == old(self).ms2_model(),
            final(self).mux_model() == old(self).mux_model(),
            ({
                let h = route_one(
                    old(self).subs_model(),
                    direction,
                    act@,
                    old(self).spec_connection(),
                    old(self).spec_max_envelope() as nat,
                    old(self).spec_buffer_limit() as nat,
                );
                &&& final(self).subs_model() =~= h.0
                &&& final(out).deep_view() =~= old(out).deep_view() + h.1
            }),
            final(out)@.len() >= old(out)@.len(),
            forall|i: int| 0 <= i < old(out)@.len() ==> final(out)@[i] == old(out)@[i],
            forall|i: int|
                old(out)@.len() <= i < final(out)@.len() ==> (#[trigger] final(out)@[i]).stream.connection
                    == old(self).spec_connection() && final(out)@[i].stream.sub is Sub
                    && final(out)@[i].direction == direction,
    {
        let ghost mc = self.subs_model();
        let ghost a = act@;
        let ghost conn = self.spec_connection();
        let ghost maxe = self.spec_max_envelope() as nat;
        let ghost lim = self.spec_buffer_limit() as nat;
        let aid = act.id;
        let found = self.find_sub(aid);
        if act.opens && found.is_none() {
            let entry = SubEntry {
                id: aid,
                state: LifeCycle::Open,
                decoder: AppDecoder::new(
                    StreamId { connection: self.connection, sub: SubStream::Sub(aid) },
                    self.max_envelope,
                    self.buffer_limit,
                ),
            };
            self.subs.push(entry);
            proof {
                assert(self.subs_model() =~= mc.push(
                    SubModel {
                        id: aid,
                        state: LifeCycle::Open,
                        failed: false,
                        pend_out: Seq::<u8>::empty(),
                        pend_in: Seq::<u8>::empty(),
                    },
                ));
            }
        }
        let ghost m1 = self.subs_model();
        let ghost pre_dv = out.deep_view();
        if act.data.len() > 0 {
            match self.find_sub(aid) {
                Some(ix) => {
                    if self.subs[ix].state != LifeCycle::Closed {
                        let ghost e = m1[ix as int];
                        let ghost s = crate::mina_protocol::app_step(
                            e.pend(direction),
                            e.failed,
                            a.data,
                            maxe,
                            lim,
                        );
                        let mut entry = self.subs.remove(ix);
                        let outcome = entry.decoder.on_data(direction, &act.data, out);
                        match outcome {
                            Ok(()) => (),
                            Err(_) => (),
                        }
                        self.subs.push(entry);
                        proof {
                            let e2 = SubModel {
                                failed: s.2,
                                pend_out: (match direction {
                                    Direction::Outbound => s.1,
                                    Direction::Inbound => e.pend_out,
                                }),
                                pend_in: (match direction {
                                    Direction::Outbound => e.pend_in,
                                    Direction::Inbound => s.1,
                                }),
                                ..e
                            };
                            assert(self.subs_model() =~= m1.remove(ix as int).push(e2));
                            assert(out.deep_view() =~= pre_dv + crate::mina_protocol::records_of(
                                s.0,
                                StreamId { connection: conn, sub: SubStream::Sub(aid) },
                                direction,
                            ));
                        }
                    }
                },
                None => (),
            }
        }
        if act.closes || act.resets {
            self.close_sub(aid, act.resets);
        }
        proof {
            assert(route_one(mc, direction, a, conn, maxe, lim).0 =~= self.subs_model());
        }
    }

    /// Apply the stream actions one direction's demultiplexer
    /// produced, exactly as [`route_fold`] says: open entries, hand
    /// body bytes to each addressed sub-stream's own decoder, step
    /// lifecycles on half-closes and resets.  A parse failure inside
    /// one sub-stream is confined to that sub-stream.
    fn route_actions(
        &mut self,
        direction: Direction,
        actions: Vec<StreamAction>,
        out: &mut Vec<Record>,
    )
        requires
            old(self).wf(),
        ensures
            final(self).wf(),
            final(self).spec_connection() == old(self).spec_connection(),
            final(self).spec_failed() == old(self).spec_failed(),
            final(self).spec_max_envelope() == old(self).spec_max_envelope(),
            final(self).spec_buffer_limit() == old(self).spec_buffer_limit(),
            final(self).spec_key() == old(self).spec_key(),
            final(self).spec_next_seq(Direction::Outbound) == old(self).spec_next_seq(
                Direction::Outbound,
            ),
            final(self).spec_next_seq(Direction::Inbound) == old(self).spec_next_seq(
                Direction::Inbound,
            ),
            final(self).spec_pnet_off(Direction::Outbound) == old(self).spec_pnet_off(
                Direction::Outbound,
            ),
            final(self).spec_pnet_off(Direction::Inbound) == old(self).spec_pnet_off(
                Direction::Inbound,
            ),
            final(self).spec_failed() == old(self).spec_failed(),
            final(self).spec_max_frame() == old(self).spec_max_frame(),
            final(self).ms1_model() == old(self).ms1_model(),
            final(self).noise_model() == old(self).noise_model(),
            final(self).ms2_model() == old(self).ms2_model(),
            final(self).mux_model() == old(self).mux_model(),
            ({
                let f = route_fold(
                    old(self).subs_model(),
                    direction,
                    actions.deep_view(),
                    old(self).spec_connection(),
                    old(self).spec_max_envelope() as nat,
                    old(self).spec_buffer_limit() as nat,
                );
                &&& final(self).subs_model() =~= f.0
                &&& final(out).deep_view() =~= old(out).deep_view() + f.1
            }),
            final(out)@.len() >= old(out)@.len(),
            forall|i: int| 0 <= i < old(out)@.len() ==> final(out)@[i] == old(out)@[i],
            forall|i: int|
                old(out)@.len() <= i < final(out)@.len() ==> (#[trigger] final(out)@[i]).stream.connection
                    == old(self).spec_connection() && final(out)@[i].stream.sub is Sub
                    && final(out)@[i].direction == direction,
    {
        let acts = actions;
        let n = acts.len();
        let ghost m0 = old(self).subs_model();
        let ghost conn = old(self).spec_connection();
        let ghost maxe = old(self).spec_max_envelope() as nat;
        let ghost lim = old(self).spec_buffer_limit() as nat;
        let ghost f0 = route_fold(m0, direction, acts.deep_view(), conn, maxe, lim);
        let ghost mut routed: Seq<crate::mina_protocol::RecordModel> = Seq::empty();
        proof {
            assert(acts.deep_view().skip(0) =~= acts.deep_view());
            assert(f0.1 =~= routed + route_fold(
                self.subs_model(),
                direction,
                acts.deep_view().skip(0),
                conn,
                maxe,
                lim,
            ).1);
            assert(out.deep_view() =~= old(out).deep_view() + routed);
        }
        let mut k: usize = 0;
        while k < n
            invariant
                k <= n,
                n == acts@.len(),
                self.wf(),
                self.spec_connection() == old(self).spec_connection(),
                self.spec_failed() == old(self).spec_failed(),
                self.spec_max_envelope() == old(self).spec_max_envelope(),
                self.spec_buffer_limit() == old(self).spec_buffer_limit(),
                self.spec_key() == old(self).spec_key(),
                self.spec_next_seq(Direction::Outbound) == old(self).spec_next_seq(
                    Direction::Outbound,
                ),
                self.spec_next_seq(Direction::Inbound) == old(self).spec_next_seq(
                    Direction::Inbound,
                ),
                self.spec_pnet_off(Direction::Outbound) == old(self).spec_pnet_off(
                    Direction::Outbound,
                ),
                self.spec_pnet_off(Direction::Inbound) == old(self).spec_pnet_off(
                    Direction::Inbound,
                ),
                self.mux_model() == old(self).mux_model(),
                self.spec_max_frame() == old(self).spec_max_frame(),
                self.ms1_model() == old(self).ms1_model(),
                self.noise_model() == old(self).noise_model(),
                self.ms2_model() == old(self).ms2_model(),
                conn == old(self).spec_connection(),
                maxe == old(self).spec_max_envelope() as nat,
                lim == old(self).spec_buffer_limit() as nat,
                f0 == route_fold(
                    old(self).subs_model(),
                    direction,
                    acts.deep_view(),
                    conn,
                    maxe,
                    lim,
                ),
                f0.0 =~= route_fold(
                    self.subs_model(),
                    direction,
                    acts.deep_view().skip(k as int),
                    conn,
                    maxe,
                    lim,
                ).0,
                f0.1 =~= routed + route_fold(
                    self.subs_model(),
                    direction,
                    acts.deep_view().skip(k as int),
                    conn,
                    maxe,
                    lim,
                ).1,
                out.deep_view() =~= old(out).deep_view() + routed,
                out@.len() >= old(out)@.len(),
                forall|i: int| 0 <= i < old(out)@.len() ==> out@[i] == old(out)@[i],
                forall|i: int|
                    old(out)@.len() <= i < out@.len() ==> (#[trigger] out@[i]).stream.connection
                        == old(self).spec_connection() && out@[i].stream.sub is Sub
                        && out@[i].direction == direction,
            decreases n - k,
        {
            let ghost mc = self.subs_model();
            let ghost a = acts.deep_view()[k as int];
            proof {
                assert(acts.deep_view().skip(k as int).first() == a);
                assert(acts.deep_view().skip(k as int).drop_first() =~= acts.deep_view().skip(
                    k + 1,
                ));
            }
            let ghost pre_dv = out.deep_view();
            self.route_single(direction, &acts[k], out);
            proof {
                let h = route_one(mc, direction, a, conn, maxe, lim);
                assert(out.deep_view() =~= pre_dv + h.1);
                routed = routed + h.1;
                assert(out.deep_view() =~= old(out).deep_view() + routed);
            }
            k = k + 1;
        }
        proof {
            assert(acts.deep_view().skip(n as int) =~= Seq::<
                crate::yamux::StreamActionModel,
            >::empty());
            assert(f0.1 =~= routed);
        }
    }

    /// Hand bytes that left the multiplexer's framing layer to the
    /// sub-stream table, exactly as [`feed_mux_spec`] says.
    #[verifier::rlimit(100)]
    fn feed_mux(&mut self, direction: Direction, data: Vec<u8>, out: &mut Vec<Record>) -> (r:
        Result<(), DecodeError>)
        requires
            old(self).wf(),
        ensures
            final(self).spec_failed() == old(self).spec_failed(),
            final(self).spec_max_frame() == old(self).spec_max_frame(),
            final(self).ms1_model() == old(self).ms1_model(),
            final(self).noise_model() == old(self).noise_model(),
            final(self).ms2_model() == old(self).ms2_model(),
            ({
                let g = feed_mux_model(old(self).model(), direction, data@);
                &&& final(self).model() =~= g.0
                &&& final(out).deep_view() =~= old(out).deep_view() + g.1
                &&& (r is Ok <==> g.2 is None)
                &&& g.2 is Some ==> r == Result::<(), DecodeError>::Err(g.2.unwrap())
            }),
            ({
                let g = feed_mux_spec(
                    old(self).mux_model(),
                    old(self).subs_model(),
                    direction,
                    data@,
                    old(self).spec_connection(),
                    old(self).spec_max_frame() as nat,
                    old(self).spec_buffer_limit() as nat,
                    old(self).spec_max_envelope() as nat,
                );
                &&& (final(self).mux_model() is Some <==> g.0 is Some)
                &&& final(self).mux_model() is Some ==> final(self).mux_model().unwrap() =~= g.0.unwrap()
                &&& final(self).subs_model() =~= g.1
                &&& final(out).deep_view() =~= old(out).deep_view() + g.2
                &&& g.3 is Some <==> r is Err
                &&& g.3 is Some ==> r == Result::<(), DecodeError>::Err(g.3.unwrap())
            }),
            final(self).wf(),
            final(self).spec_connection() == old(self).spec_connection(),
            final(self).spec_max_envelope() == old(self).spec_max_envelope(),
            final(self).spec_buffer_limit() == old(self).spec_buffer_limit(),
            !(r == Result::<(), DecodeError>::Err(DecodeError::Configuration)),
            !(r == Result::<(), DecodeError>::Err(DecodeError::Desynchronized)),
            final(self).spec_key() == old(self).spec_key(),
            final(self).spec_next_seq(Direction::Outbound) == old(self).spec_next_seq(
                Direction::Outbound,
            ),
            final(self).spec_next_seq(Direction::Inbound) == old(self).spec_next_seq(
                Direction::Inbound,
            ),
            final(self).spec_pnet_off(Direction::Outbound) == old(self).spec_pnet_off(
                Direction::Outbound,
            ),
            final(self).spec_pnet_off(Direction::Inbound) == old(self).spec_pnet_off(
                Direction::Inbound,
            ),
            final(out)@.len() >= old(out)@.len(),
            forall|i: int| 0 <= i < old(out)@.len() ==> final(out)@[i] == old(out)@[i],
            forall|i: int|
                old(out)@.len() <= i < final(out)@.len()
                    ==> (#[trigger] final(out)@[i]).stream.connection == old(
                    self,
                ).spec_connection(),
    {
        let ghost dv = data@;
        let mut slot: Option<MuxHandler> = None;
        core::mem::swap(&mut self.mux, &mut slot);
        let mut m = match slot {
            Some(m) => m,
            None => {
                return Ok(());
            },
        };
        let outcome = m.on_data(direction, data);
        self.mux = Some(m);
        let acts = match outcome {
            Ok(a) => a,
            Err(e) => {
                return Err(e);
            },
        };
        proof {
            assert(out.deep_view() =~= old(out).deep_view() + Seq::<
                crate::mina_protocol::RecordModel,
            >::empty());
            let x = old(self).mux_model().unwrap();
            let maxf = old(self).spec_max_frame() as nat;
            let d = (if x.yamux {
                crate::yamux::yamux_actions(x.pend(direction) + dv, maxf)
            } else {
                crate::mplex::mplex_actions(x.pend(direction) + dv, maxf)
            });
            if x.failed {
                assert(acts.deep_view() =~= Seq::<crate::yamux::StreamActionModel>::empty());
                assert(self.mux_model().unwrap() =~= x);
            } else {
                assert(x.pend(direction).len() + dv.len() <= old(self).spec_buffer_limit());
                assert(!d.2);
                assert(acts.deep_view() =~= d.0);
                assert(self.mux_model().unwrap() =~= (MuxStageModel {
                    yamux: x.yamux,
                    failed: d.2,
                    pend_out: (match direction {
                        Direction::Outbound => d.1,
                        Direction::Inbound => x.pend_out,
                    }),
                    pend_in: (match direction {
                        Direction::Outbound => x.pend_in,
                        Direction::Inbound => d.1,
                    }),
                }));
            }
        }
        self.route_actions(direction, acts, out);
        Ok(())
    }

    /// Hand bytes that left the transport layer (or negotiation, when
    /// no transport layer runs) to the second negotiation and the
    /// multiplexer behind it, exactly as [`feed_after_noise_model`]
    /// says.
    #[verifier::rlimit(100)]
    #[verifier::spinoff_prover]
    fn feed_after_noise(&mut self, direction: Direction, data: Vec<u8>, out: &mut Vec<Record>) -> (
    r: Result<(), DecodeError>)
        requires
            old(self).wf(),
        ensures
            final(self).wf(),
            final(self).spec_connection() == old(self).spec_connection(),
            final(self).spec_max_envelope() == old(self).spec_max_envelope(),
            final(self).spec_buffer_limit() == old(self).spec_buffer_limit(),
            !(r == Result::<(), DecodeError>::Err(DecodeError::Configuration)),
            !(r == Result::<(), DecodeError>::Err(DecodeError::Desynchronized)),
            final(self).spec_key() == old(self).spec_key(),
            final(self).spec_failed() == old(self).spec_failed(),
            final(self).spec_max_frame() == old(self).spec_max_frame(),
            final(self).ms1_model() == old(self).ms1_model(),
            final(self).noise_model() == old(self).noise_model(),
            final(self).spec_next_seq(Direction::Outbound) == old(self).spec_next_seq(
                Direction::Outbound,
            ),
            final(self).spec_next_seq(Direction::Inbound) == old(self).spec_next_seq(
                Direction::Inbound,
            ),
            final(self).spec_pnet_off(Direction::Outbound) == old(self).spec_pnet_off(
                Direction::Outbound,
            ),
            final(self).spec_pnet_off(Direction::Inbound) == old(self).spec_pnet_off(
                Direction::Inbound,
            ),
            ({
                let g = feed_after_noise_model(old(self).model(), direction, data@);
                &&& final(self).model() =~= g.0
                &&& final(out).deep_view() =~= old(out).deep_view() + g.1
                &&& (r is Ok <==> g.2 is None)
                &&& g.2 is Some ==> r == Result::<(), DecodeError>::Err(g.2.unwrap())
            }),
            final(out)@.len() >= old(out)@.len(),
            forall|i: int| 0 <= i < old(out)@.len() ==> final(out)@[i] == old(out)@[i],
            forall|i: int|
                old(out)@.len() <= i < final(out)@.len()
                    ==> (#[trigger] final(out)@[i]).stream.connection == old(
                    self,
                ).spec_connection(),
    {
        let ghost dv = data@;
        let mut slot: Option<MultistreamHandler> = None;
        core::mem::swap(&mut self.ms2, &mut slot);
        let mut h = match slot {
            Some(h) => h,
            None => {
                return self.feed_mux(direction, data, out);
            },
        };
        let ghost t = crate::multistream_select::ms_step(
            h.model(),
            direction,
            dv,
            self.buffer_limit as nat,
        );
        let outcome = h.on_data(direction, data);
        self.ms2 = Some(h);
        let mso = match outcome {
            Ok(o) => o,
            Err(e) => {
                proof {
                    assert(self.model() =~= (ChainModel { ms2: Some(t.0), ..old(self).model() }));
                }
                return Err(e);
            },
        };
        match mso.chosen {
            Some(p) => {
                if !matches!(p, KnownProtocol::Noise) {
                    self.mux = MuxHandler::for_protocol(p, self.max_frame, self.buffer_limit);
                    proof {
                        assert(self.mux_model() =~= Some(fresh_mux(p)));
                    }
                }
            },
            None => (),
        }
        let ghost m2 = self.model();
        proof {
            assert(m2 =~= (match t.1 {
                Some(p) => (if p == KnownProtocol::Noise {
                    ChainModel { ms2: Some(t.0), ..old(self).model() }
                } else {
                    ChainModel {
                        ms2: Some(t.0),
                        mux: Some(fresh_mux(p)),
                        ..old(self).model()
                    }
                }),
                None => ChainModel { ms2: Some(t.0), ..old(self).model() },
            }));
        }
        let ghost pre1 = out.deep_view();
        match self.feed_mux(Direction::Outbound, mso.flush_out, out) {
            Ok(()) => (),
            Err(e) => {
                return Err(e);
            },
        }
        let ghost g1 = feed_mux_model(m2, Direction::Outbound, t.2);
        let r2 = self.feed_mux(Direction::Inbound, mso.flush_in, out);
        proof {
            let g2 = feed_mux_model(g1.0, Direction::Inbound, t.3);
            assert(out.deep_view() =~= old(out).deep_view() + (g1.1 + g2.1));
        }
        r2
    }

    /// Hand bytes that left the first negotiation to the transport
    /// layer, or onward when none was chosen, exactly as
    /// [`feed_after_ms1_model`] says.
    #[verifier::rlimit(100)]
    #[verifier::spinoff_prover]
    fn feed_after_ms1(&mut self, direction: Direction, data: Vec<u8>, out: &mut Vec<Record>) -> (r:
        Result<(), DecodeError>)
        requires
            old(self).wf(),
        ensures
            final(self).wf(),
            final(self).spec_connection() == old(self).spec_connection(),
            final(self).spec_max_envelope() == old(self).spec_max_envelope(),
            final(self).spec_buffer_limit() == old(self).spec_buffer_limit(),
            !(r == Result::<(), DecodeError>::Err(DecodeError::Configuration)),
            !(r == Result::<(), DecodeError>::Err(DecodeError::Desynchronized)),
            final(self).spec_key() == old(self).spec_key(),
            final(self).spec_failed() == old(self).spec_failed(),
            final(self).spec_max_frame() == old(self).spec_max_frame(),
            final(self).ms1_model() == old(self).ms1_model(),
            final(self).spec_next_seq(Direction::Outbound) == old(self).spec_next_seq(
                Direction::Outbound,
            ),
            final(self).spec_next_seq(Direction::Inbound) == old(self).spec_next_seq(
                Direction::Inbound,
            ),
            final(self).spec_pnet_off(Direction::Outbound) == old(self).spec_pnet_off(
                Direction::Outbound,
            ),
            final(self).spec_pnet_off(Direction::Inbound) == old(self).spec_pnet_off(
                Direction::Inbound,
            ),
            ({
                let g = feed_after_ms1_model(old(self).model(), direction, data@);
                &&& final(self).model() =~= g.0
                &&& final(out).deep_view() =~= old(out).deep_view() + g.1
                &&& (r is Ok <==> g.2 is None)
                &&& g.2 is Some ==> r == Result::<(), DecodeError>::Err(g.2.unwrap())
            }),
            final(out)@.len() >= old(out)@.len(),
            forall|i: int| 0 <= i < old(out)@.len() ==> final(out)@[i] == old(out)@[i],
            forall|i: int|
                old(out)@.len() <= i < final(out)@.len()
                    ==> (#[trigger] final(out)@[i]).stream.connection == old(
                    self,
                ).spec_connection(),
    {
        let ghost dv = data@;
        let mut slot: Option<NoiseHandler> = None;
        core::mem::swap(&mut self.noise, &mut slot);
        let mut h = match slot {
            Some(h) => h,
            None => {
                return self.feed_after_noise(direction, data, out);
            },
        };
        let ghost hm = h.model();
        let ghost hmax = h.spec_max() as nat;
        let ghost t = crate::noise::noise_step(hm, direction, dv, hmax, self.buffer_limit as nat);
        let outcome = h.on_data(direction, &data);
        self.noise = Some(h);
        let plain = match outcome {
            Ok(p) => p,
            Err(e) => {
                proof {
                    crate::noise::lemma_noise_run_errors(
                        crate::noise::NoiseModel {
                            pend_out: (match direction {
                                Direction::Outbound => hm.pend_out + dv,
                                Direction::Inbound => hm.pend_out,
                            }),
                            pend_in: (match direction {
                                Direction::Outbound => hm.pend_in,
                                Direction::Inbound => hm.pend_in + dv,
                            }),
                            ..hm
                        },
                        hmax,
                    );
                    assert(self.model() =~= (ChainModel { noise: Some(t.0), ..old(self).model() }));
                }
                return Err(e);
            },
        };
        let (po, pi) = plain;
        let ghost m1 = self.model();
        proof {
            assert(m1 =~= (ChainModel { noise: Some(t.0), ..old(self).model() }));
        }
        match self.feed_after_noise(Direction::Outbound, po, out) {
            Ok(()) => (),
            Err(e) => {
                return Err(e);
            },
        }
        let ghost g1 = feed_after_noise_model(m1, Direction::Outbound, t.1);
        let r2 = self.feed_after_noise(Direction::Inbound, pi, out);
        proof {
            let g2 = feed_after_noise_model(g1.0, Direction::Inbound, t.2);
            assert(out.deep_view() =~= old(out).deep_view() + (g1.1 + g2.1));
        }
        r2
    }

    /// Start this chain over as a new logical stream: the capture
    /// layer restarted its sequence numbers, so nothing buffered or
    /// negotiated so far applies any more.
    fn reset(&mut self)
        requires
            old(self).wf(),
        ensures
            final(self).wf(),
            final(self).model() =~= chain_restarted(old(self).model()),
    {
        self.failed = false;
        self.next_seq_out = 0;
        self.next_seq_in = 0;
        self.pnet_off_out = 0;
        self.pnet_off_in = 0;
        self.ms1 = MultistreamHandler::new(self.buffer_limit);
        self.noise = None;
        self.ms2 = None;
        self.mux = None;
        self.subs = Vec::new();
        proof {
            assert(self.subs_model() =~= Seq::<SubModel>::empty());
            assert(self.model() =~= chain_restarted(old(self).model()));
        }
    }

    /// Feed one directed chunk through the whole chain: strip the
    /// obfuscation in place, then let each later stage consume what
    /// the stage before it produced.  Decoded records go to `out`,
    /// every one tagged with this connection.  Any error marks the
    /// chain failed; later chunks are then dropped silently, except
    /// that a restarted sequence opens a new logical stream.
    #[verifier::rlimit(100)]
    #[verifier::spinoff_prover]
    pub fn on_data(
        &mut self,
        id: DirectedId,
        bytes: &mut Vec<u8>,
        cx: &Cx,
        out: &mut Vec<Record>,
    ) -> (r: Result<(), DecodeError>)
        requires
            old(self).wf(),
        ensures
            final(self).wf(),
            final(self).spec_connection() == old(self).spec_connection(),
            final(self).spec_key() == old(self).spec_key(),
            old(self).spec_failed() && id.sequence != 0 ==> r is Ok && *final(self) == *old(self)
                && *final(out) == *old(out),
            final(out)@.len() >= old(out)@.len(),
            forall|i: int| 0 <= i < old(out)@.len() ==> final(out)@[i] == old(out)@[i],
            forall|i: int|
                old(out)@.len() <= i < final(out)@.len()
                    ==> (#[trigger] final(out)@[i]).stream.connection == old(
                    self,
                ).spec_connection(),
            r is Err ==> final(self).spec_failed(),
            !(r == Result::<(), DecodeError>::Err(DecodeError::Configuration)),
            ({
                let t = chain_step(old(self).model(), id.direction, id.sequence, old(bytes)@);
                &&& final(self).model() =~= t.0
                &&& final(out).deep_view() =~= old(out).deep_view() + t.1
                &&& (r is Ok <==> t.2 is None)
                &&& t.2 is Some ==> r == Result::<(), DecodeError>::Err(t.2.unwrap())
            }),
    {
        let direction = id.direction;
        let ghost bv = bytes@;
        if id.sequence == 0 {
            let expected0 = match direction {
                Direction::Outbound => self.next_seq_out,
                Direction::Inbound => self.next_seq_in,
            };
            if self.failed || expected0 != 0 {
                // the capture layer restarted its numbering: a new
                // logical stream, whatever became of the old one
                self.reset();
            }
        } else if self.failed {
            proof {
                assert(out.deep_view() =~= old(out).deep_view() + Seq::<
                    crate::mina_protocol::RecordModel,
                >::empty());
            }
            return Ok(());
        } else {
            let expected = match direction {
                Direction::Outbound => self.next_seq_out,
                Direction::Inbound => self.next_seq_in,
            };
            if id.sequence != expected {
                self.failed = true;
                proof {
                    assert(self.model() =~= (ChainModel { failed: true, ..old(self).model() }));
                }
                return Err(DecodeError::Desynchronized);
            }
        }
        let ghost m0 = self.model();
        proof {
            assert(m0 =~= (if id.sequence == 0 && (old(self).model().failed || (match direction {
                Direction::Outbound => old(self).model().next_seq_out,
                Direction::Inbound => old(self).model().next_seq_in,
            }) != 0) {
                chain_restarted(old(self).model())
            } else {
                old(self).model()
            }));
        }
        if id.sequence == u64::MAX {
            self.failed = true;
            proof {
                assert(self.model() =~= (ChainModel { failed: true, ..m0 }));
            }
            return Err(DecodeError::Desynchronized);
        }
        self.process_chunk(direction, id.sequence, bytes, out)
    }

    /// Process one accepted chunk, exactly as [`chain_process`] says.
    #[verifier::rlimit(100)]
    #[verifier::spinoff_prover]
    fn process_chunk(
        &mut self,
        direction: Direction,
        sequence: u64,
        bytes: &mut Vec<u8>,
        out: &mut Vec<Record>,
    ) -> (r: Result<(), DecodeError>)
        requires
            old(self).wf(),
            !old(self).spec_failed(),
            sequence < u64::MAX,
        ensures
            final(self).wf(),
            final(self).spec_connection() == old(self).spec_connection(),
            final(self).spec_key() == old(self).spec_key(),
            final(out)@.len() >= old(out)@.len(),
            forall|i: int| 0 <= i < old(out)@.len() ==> final(out)@[i] == old(out)@[i],
            forall|i: int|
                old(out)@.len() <= i < final(out)@.len()
                    ==> (#[trigger] final(out)@[i]).stream.connection == old(
                    self,
                ).spec_connection(),
            r is Err ==> final(self).spec_failed(),
            !(r == Result::<(), DecodeError>::Err(DecodeError::Configuration)),
            !(r == Result::<(), DecodeError>::Err(DecodeError::Desynchronized)),
            ({
                let t = chain_process(old(self).model(), direction, sequence, old(bytes)@);
                &&& final(self).model() =~= t.0
                &&& final(out).deep_view() =~= old(out).deep_view() + t.1
                &&& (r is Ok <==> t.2 is None)
                &&& t.2 is Some ==> r == Result::<(), DecodeError>::Err(t.2.unwrap())
            }),
    {
        let ghost bv = bytes@;
        match direction {
            Direction::Outbound => {
                self.next_seq_out = sequence + 1;
            },
            Direction::Inbound => {
                self.next_seq_in = sequence + 1;
            },
        }

        let off = match direction {
            Direction::Outbound => self.pnet_off_out,
            Direction::Inbound => self.pnet_off_in,
        };
        pnet_apply(&self.pnet_key, off, bytes);
        let newoff = advance_offset(off, bytes.len(), self.pnet_key.len());
        match direction {
            Direction::Outbound => {
                self.pnet_off_out = newoff;
            },
            Direction::Inbound => {
                self.pnet_off_in = newoff;
            },
        }
        let mut owned: Vec<u8> = Vec::new();
        core::mem::swap(bytes, &mut owned);
        let ghost m1 = self.model();
        let ghost t = crate::multistream_select::ms_step(
            m1.ms1,
            direction,
            owned@,
            self.buffer_limit as nat,
        );
        let mso = match self.ms1.on_data(direction, owned) {
            Ok(o) => o,
            Err(e) => {
                self.failed = true;
                proof {
                    assert(self.model() =~= (ChainModel {
                        failed: true,
                        ..(ChainModel { ms1: t.0, ..m1 })
                    }));
                }
                return Err(e);
            },
        };
        let outcome = self.settle_and_feed(mso.chosen, mso.flush_out, mso.flush_in, out);
        proof {
            assert(chain_process(old(self).model(), direction, sequence, bv) == settle_feed_model(
                ChainModel { ms1: t.0, ..m1 },
                t.1,
                t.2,
                t.3,
            ));
        }
        return outcome;
    }

    /// Instantiate the settled stage and hand the released bytes down
    /// the chain, exactly as [`settle_feed_model`] says.
    #[verifier::rlimit(100)]
    #[verifier::spinoff_prover]
    fn settle_and_feed(
        &mut self,
        chosen: Option<KnownProtocol>,
        fo: Vec<u8>,
        fi: Vec<u8>,
        out: &mut Vec<Record>,
    ) -> (r: Result<(), DecodeError>)
        requires
            old(self).wf(),
            !old(self).spec_failed(),
        ensures
            final(self).wf(),
            final(self).spec_connection() == old(self).spec_connection(),
            final(self).spec_key() == old(self).spec_key(),
            final(out)@.len() >= old(out)@.len(),
            forall|i: int| 0 <= i < old(out)@.len() ==> final(out)@[i] == old(out)@[i],
            forall|i: int|
                old(out)@.len() <= i < final(out)@.len()
                    ==> (#[trigger] final(out)@[i]).stream.connection == old(
                    self,
                ).spec_connection(),
            r is Err ==> final(self).spec_failed(),
            !(r == Result::<(), DecodeError>::Err(DecodeError::Configuration)),
            !(r == Result::<(), DecodeError>::Err(DecodeError::Desynchronized)),
            ({
                let t = settle_feed_model(old(self).model(), chosen, fo@, fi@);
                &&& final(self).model() =~= t.0
                &&& final(out).deep_view() =~= old(out).deep_view() + t.1
                &&& (r is Ok <==> t.2 is None)
                &&& t.2 is Some ==> r == Result::<(), DecodeError>::Err(t.2.unwrap())
            }),
    {
        match chosen {
            Some(KnownProtocol::Noise) => {
                self.noise = Some(NoiseHandler::new(self.max_frame, self.buffer_limit));
                self.ms2 = Some(MultistreamHandler::new(self.buffer_limit));
            },
            Some(p) => {
                self.mux = MuxHandler::for_protocol(p, self.max_frame, self.buffer_limit);
            },
            None => (),
        }
        let ghost m3 = self.model();
        proof {
            assert(m3 =~= (match chosen {
                Some(KnownProtocol::Noise) => ChainModel {
                    noise: Some(fresh_noise()),
                    ms2: Some(fresh_ms()),
                    ..old(self).model()
                },
                Some(p) => ChainModel { mux: Some(fresh_mux(p)), ..old(self).model() },
                None => old(self).model(),
            }));
        }
        match self.feed_after_ms1(Direction::Outbound, fo, out) {
            Ok(()) => (),
            Err(e) => {
                self.failed = true;
                return Err(e);
            },
        }
        let ghost g1 = feed_after_ms1_model(m3, Direction::Outbound, fo@);
        match self.feed_after_ms1(Direction::Inbound, fi, out) {
            Ok(()) => (),
            Err(e) => {
                self.failed = true;
                proof {
                    let g2 = feed_after_ms1_model(g1.0, Direction::Inbound, fi@);
                    assert(self.model() =~= (ChainModel { failed: true, ..g2.0 }));
                    assert(out.deep_view() =~= old(out).deep_view() + (g1.1 + g2.1));
                }
                return Err(e);
            },
        }
        proof {
            let g2 = feed_after_ms1_model(g1.0, Direction::Inbound, fi@);
            assert(out.deep_view() =~= old(out).deep_view() + (g1.1 + g2.1));
        }
        Ok(())
    }
}

/// One registry slot: a connection and its chain.
pub struct ConnEntry {
    /// The physical connection this slot serves.
    pub connection: u64,
    /// The connection's handler chain.
    pub chain: Chain,
}

/// The owner of every handler chain, keyed by connection.
pub struct Registry {
    entries: Vec<ConnEntry>,
}

impl Registry {
    /// Chains are well formed, keyed consistently, and keys are
    /// unique.
    pub closed spec fn wf(&self) -> bool {
        &&& forall|i: int|
            0 <= i < self.entries@.len() ==> (#[trigger] self.entries@[i]).chain.wf()
                && self.entries@[i].chain.spec_connection() == self.entries@[i].connection
        &&& forall|i: int, j: int|
            0 <= i < j < self.entries@.len() ==> (#[trigger] self.entries@[i]).connection != (
            #[trigger] self.entries@[j]).connection
    }

    /// The chains the registry holds.
    pub closed spec fn spec_entries(&self) -> Seq<ConnEntry> {
        self.entries@
    }

    /// An empty registry.
    pub fn new() -> (r: Registry)
        ensures
            r.wf(),
            r.spec_entries() =~= Seq::<ConnEntry>::empty(),
    {
        Registry { entries: Vec::new() }
    }

    /// The index of the slot for `connection`, if one exists.
    fn find(&self, connection: u64) -> (r: Option<usize>)
        ensures
            r is Some ==> r.unwrap() < self.entries@.len() && self.entries@[r.unwrap() as int].connection
                == connection,
            r is None ==> forall|i: int|
                0 <= i < self.entries@.len() ==> (#[trigger] self.entries@[i]).connection
                    != connection,
    {
        let n = self.entries.len();
        let mut i: usize = 0;
        while i < n
            invariant
                i <= n,
                n == self.entries@.len(),
                forall|j: int| 0 <= j < i ==> (#[trigger] self.entries@[j]).connection != connection,
            decreases n - i,
        {
            if self.entries[i].connection == connection {
                return Some(i);
            }
            i = i + 1;
        }
        None
    }

    /// Route one captured chunk to its connection's chain: exactly one
    /// chain sees the chunk, created on the first chunk seen for the
    /// connection (a missing or unusable pre-shared key is then a
    /// configuration error and nothing changes).  Chains of every
    /// other connection are left exactly as they were, and every
    /// record this call produces is tagged with the event's
    /// connection; a non-configuration error is that one chain's and
    /// marks it failed.
    #[verifier::rlimit(100)]
    #[verifier::spinoff_prover]
    pub fn on_event(
        &mut self,
        id: DirectedId,
        bytes: &mut Vec<u8>,
        cx: &Cx,
        out: &mut Vec<Record>,
    ) -> (r: Result<(), DecodeError>)
        requires
            old(self).wf(),
        ensures
            final(self).wf(),
            final(self).spec_entries().len() >= old(self).spec_entries().len(),
            forall|j: int|
                0 <= j < old(self).spec_entries().len() && (#[trigger] old(self).spec_entries()[j]).connection != id.stream.connection ==> final(self).spec_entries()[j] == old(self).spec_entries()[j],
            final(out)@.len() >= old(out)@.len(),
            forall|i: int| 0 <= i < old(out)@.len() ==> final(out)@[i] == old(out)@[i],
            forall|i: int|
                old(out)@.len() <= i < final(out)@.len()
                    ==> (#[trigger] final(out)@[i]).stream.connection == id.stream.connection,
            ({
                let conn = id.stream.connection;
                let present = exists|j: int|
                    0 <= j < old(self).spec_entries().len() && (#[trigger] old(
                        self,
                    ).spec_entries()[j]).connection == conn;
                let key_ok = cx.pnet_key is Some && pnet_key_ok(cx.pnet_key.unwrap()@);
                &&& (!present && !key_ok) <==> r == Result::<(), DecodeError>::Err(
                    DecodeError::Configuration,
                )
                &&& r == Result::<(), DecodeError>::Err(DecodeError::Configuration)
                    ==> *final(self) == *old(self) && *final(out) == *old(out)
                &&& !present && key_ok ==> final(self).spec_entries().len()
                    == old(self).spec_entries().len() + 1
                    && final(self).spec_entries().last().connection == conn && (forall|j: int|
                    0 <= j < old(self).spec_entries().len() ==> final(self).spec_entries()[j]
                        == old(self).spec_entries()[j])
                &&& present ==> final(self).spec_entries().len() == old(self).spec_entries().len()
                &&& !(r == Result::<(), DecodeError>::Err(DecodeError::Configuration))
                    ==> exists|j: int|
                    0 <= j < final(self).spec_entries().len()
                        && (#[trigger] final(self).spec_entries()[j]).connection == conn && (
                    r is Err ==> final(self).spec_entries()[j].chain.spec_failed())
                &&& present ==> exists|j: int|
                    {
                        &&& 0 <= j < old(self).spec_entries().len()
                        &&& (#[trigger] old(self).spec_entries()[j]).connection == conn
                        &&& ({
                            let t = chain_step(
                                old(self).spec_entries()[j].chain.model(),
                                id.direction,
                                id.sequence,
                                old(bytes)@,
                            );
                            &&& final(self).spec_entries()[j].chain.model() =~= t.0
                            &&& final(out).deep_view() =~= old(out).deep_view() + t.1
                            &&& (r is Ok <==> t.2 is None)
                            &&& t.2 is Some ==> r == Result::<(), DecodeError>::Err(t.2.unwrap())
                        })
                    }
                &&& !present && key_ok ==> ({
                    let t = chain_step(
                        fresh_chain(
                            conn,
                            cx.pnet_key.unwrap()@,
                            cx.max_frame,
                            cx.buffer_limit,
                            cx.max_envelope,
                        ),
                        id.direction,
                        id.sequence,
                        old(bytes)@,
                    );
                    &&& final(self).spec_entries().last().chain.model() =~= t.0
                    &&& final(out).deep_view() =~= old(out).deep_view() + t.1
                    &&& (r is Ok <==> t.2 is None)
                    &&& t.2 is Some ==> r == Result::<(), DecodeError>::Err(t.2.unwrap())
                })
            }),
    {
        let conn = id.stream.connection;
        match self.find(conn) {
            Some(ix) => self.entries[ix].chain.on_data(id, bytes, cx, out),
            None => {
                let key = match &cx.pnet_key {
                    Some(k) => vstd::slice::slice_to_vec(k.as_slice()),
                    None => {
                        return Err(DecodeError::Configuration);
                    },
                };
                if key.len() == 0 || key.len() > crate::pnet::MAX_PNET_KEY {
                    return Err(DecodeError::Configuration);
                }
                let mut chain = Chain::new(conn, key, cx);
                let outcome = chain.on_data(id, bytes, cx, out);
                self.entries.push(ConnEntry { connection: conn, chain });
                outcome
            },
        }
    }

    /// Tear the connection down: drop its whole chain tree, buffers
    /// and key material included, leaving every other chain as it
    /// was.
    pub fn teardown(&mut self, connection: u64)
        requires
            old(self).wf(),
        ensures
            final(self).wf(),
            (forall|i: int|
                0 <= i < old(self).spec_entries().len() ==> (#[trigger] old(self).spec_entries()[i]).connection != connection) ==> *final(self) == *old(self),
            forall|i: int|
                0 <= i < final(self).spec_entries().len() ==> (#[trigger] final(self).spec_entries()[i]).connection != connection,
            (exists|i: int|
                0 <= i < old(self).spec_entries().len() && (#[trigger] old(self).spec_entries()[i]).connection == connection) ==> exists|i: int|
                0 <= i < old(self).spec_entries().len() && (#[trigger] old(self).spec_entries()[i]).connection == connection && final(self).spec_entries() =~= old(self).spec_entries().remove(i),
            forall|i: int|
                0 <= i < old(self).spec_entries().len() && (#[trigger] old(self).spec_entries()[i]).connection != connection ==> final(self).spec_entries().contains(old(self).spec_entries()[i]),
    {
        match self.find(connection) {
            Some(ix) => {
                let removed = self.entries.remove(ix);
                proof {
                    assert forall|i: int|
                        0 <= i < old(self).spec_entries().len() && (#[trigger] old(self).spec_entries()[i]).connection != connection implies self.entries@.contains(
                        old(self).spec_entries()[i],
                    ) by {
                        if i < ix {
                            assert(self.entries@[i] == old(self).spec_entries()[i]);
                        } else if i > ix {
                            assert(self.entries@[i - 1] == old(self).spec_entries()[i]);
                        }
                    }
                }
            },
            None => (),
        }
    }
}

impl DynamicProtocol for MuxHandler {
    /// The demultiplexer the negotiated name calls for; any name not
    /// naming the varint framing selects the window-based framing.
    fn from_name(name: &str, stream_id: StreamId) -> (r: Self)
        ensures
            r.wf(),
            !r.spec_failed(),
            r is Mplex <==> name_to_protocol(name.spec_bytes()) == Some(KnownProtocol::Mplex),
            r.spec_max() == DEFAULT_MAX_FRAME,
            r.buffer_limit() == DEFAULT_BUFFER_LIMIT,
            r.pending(Direction::Outbound) =~= Seq::<u8>::empty(),
            r.pending(Direction::Inbound) =~= Seq::<u8>::empty(),
    {
        let bytes = vstd::slice::slice_to_vec(name.as_bytes());
        match match_protocol(&bytes) {
            Some(KnownProtocol::Mplex) => MuxHandler::Mplex(
                MplexHandler::new(DEFAULT_MAX_FRAME, DEFAULT_BUFFER_LIMIT),
            ),
            _ => MuxHandler::Yamux(YamuxHandler::new(DEFAULT_MAX_FRAME, DEFAULT_BUFFER_LIMIT)),
        }
    }
}

impl DynamicProtocol for NoiseHandler {
    /// A fresh handshake handler; the name carries no parameters.
    fn from_name(name: &str, stream_id: StreamId) -> (r: Self)
        ensures
            r.wf(),
            r.model().step == crate::noise::NoiseStep::AwaitMsg1,
            r.spec_max() == DEFAULT_MAX_FRAME,
            r.buffer_limit() == DEFAULT_BUFFER_LIMIT,
            r.model().pend_out =~= Seq::<u8>::empty(),
            r.model().pend_in =~= Seq::<u8>::empty(),
    {
        NoiseHandler::new(DEFAULT_MAX_FRAME, DEFAULT_BUFFER_LIMIT)
    }
}

impl HandleData for AppDecoder {
    open spec fn ready(&self) -> bool {
        self.wf()
    }

    fn on_data(
        &mut self,
        id: DirectedId,
        bytes: &mut Vec<u8>,
        cx: &Cx,
        out: &mut Vec<Record>,
    ) -> (r: Result<(), DecodeError>) {
        AppDecoder::on_data(self, id.direction, bytes, out)
    }
}

impl HandleData for Chain {
    open spec fn ready(&self) -> bool {
        self.wf()
    }

    fn on_data(
        &mut self,
        id: DirectedId,
        bytes: &mut Vec<u8>,
        cx: &Cx,
        out: &mut Vec<Record>,
    ) -> Result<(), DecodeError> {
        Chain::on_data(self, id, bytes, cx, out)
    }
}

} // verus!
