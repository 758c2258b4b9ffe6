//! Multiplexer dispatch: once negotiation names the multiplexer, all
//! further bytes are delegated to the matching concrete
//! demultiplexer, a closed choice between the two framings.

use vstd::prelude::*;
use crate::error::DecodeError;
use crate::ids::Direction;
use crate::mplex::{MplexHandler, mplex_actions};
use crate::multistream_select::KnownProtocol;
use crate::yamux::{StreamAction, StreamActionModel, YamuxHandler, yamux_actions};

verus! {

/// The concrete demultiplexer a connection runs.
pub enum MuxHandler {
    /// The window-based framing.
    Yamux(YamuxHandler),
    /// The varint framing.
    Mplex(MplexHandler),
}

impl MuxHandler {
    /// Well-formedness of the underlying parser.
    pub open spec fn wf(&self) -> bool {
        match self {
            MuxHandler::Yamux(h) => h.wf(),
            MuxHandler::Mplex(h) => h.wf(),
        }
    }

    /// Whether decoding of this connection has ended in failure.
    pub open spec fn spec_failed(&self) -> bool {
        match self {
            MuxHandler::Yamux(h) => h.spec_failed(),
            MuxHandler::Mplex(h) => h.spec_failed(),
        }
    }

    /// The bytes waiting for the given direction.
    pub open spec fn pending(&self, direction: Direction) -> Seq<u8> {
        match self {
            MuxHandler::Yamux(h) => h.pending(direction),
            MuxHandler::Mplex(h) => h.pending(direction),
        }
    }

    /// The largest accepted frame body.
    pub open spec fn spec_max(&self) -> usize {
        match self {
            MuxHandler::Yamux(h) => h.spec_max(),
            MuxHandler::Mplex(h) => h.spec_max(),
        }
    }

    /// The configured per-direction buffering bound.
    pub open spec fn buffer_limit(&self) -> usize {
        match self {
            MuxHandler::Yamux(h) => h.buffer_limit(),
            MuxHandler::Mplex(h) => h.buffer_limit(),
        }
    }

    /// What this handler's framing asks of the sub-stream table for a
    /// buffered byte run.
    pub open spec fn actions_spec(&self, buf: Seq<u8>, max: nat) -> (
        Seq<StreamActionModel>,
        Seq<u8>,
        bool,
    ) {
        match self {
            MuxHandler::Yamux(_) => yamux_actions(buf, max),
            MuxHandler::Mplex(_) => mplex_actions(buf, max),
        }
    }

    /// The demultiplexer for the negotiated protocol, when one was
    /// negotiated.
    pub fn for_protocol(p: KnownProtocol, max_frame: usize, buffer_limit: usize) -> (r: Option<
        MuxHandler,
    >)
        ensures
            p == KnownProtocol::Yamux ==> r is Some && r.unwrap() is Yamux,
            p == KnownProtocol::Mplex ==> r is Some && r.unwrap() is Mplex,
            p == KnownProtocol::Noise ==> r is None,
            r is Some ==> r.unwrap().wf() && !r.unwrap().spec_failed() && r.unwrap().spec_max()
                == max_frame && r.unwrap().buffer_limit() == buffer_limit && r.unwrap().pending(
                Direction::Outbound,
            ) =~= Seq::<u8>::empty() && r.unwrap().pending(Direction::Inbound) =~= Seq::<
                u8,
            >::empty(),
    {
        match p {
            KnownProtocol::Yamux => Some(MuxHandler::Yamux(YamuxHandler::new(max_frame, buffer_limit))),
            KnownProtocol::Mplex => Some(MuxHandler::Mplex(MplexHandler::new(max_frame, buffer_limit))),
            KnownProtocol::Noise => None,
        }
    }

    /// Feed one directed chunk to the negotiated framing.
    pub fn on_data(&mut self, direction: Direction, bytes: Vec<u8>) -> (r: Result<
        Vec<StreamAction>,
        DecodeError,
    >)
        requires
            old(self).wf(),
        ensures
            final(self).wf(),
            *final(self) is Yamux <==> *old(self) is Yamux,
            final(self).spec_max() == old(self).spec_max(),
            final(self).buffer_limit() == old(self).buffer_limit(),
            old(self).spec_failed() ==> r is Ok
                && r.unwrap().deep_view() =~= Seq::<StreamActionModel>::empty()
                && final(self).pending(direction) == old(self).pending(direction)
                && final(self).pending(direction.flip()) == old(self).pending(direction.flip())
                && final(self).spec_failed(),
            ({
                let full = old(self).pending(direction) + bytes@;
                let d = old(self).actions_spec(full, old(self).spec_max() as nat);
                &&& !old(self).spec_failed() && old(self).pending(direction).len() + bytes@.len()
                    > old(self).buffer_limit() ==> r == Result::<Vec<StreamAction>, DecodeError>::Err(
                    DecodeError::Framing,
                ) && final(self).pending(direction) == old(self).pending(direction)
                    && final(self).pending(direction.flip()) == old(self).pending(direction.flip())
                    && !final(self).spec_failed()
                &&& !old(self).spec_failed() && old(self).pending(direction).len() + bytes@.len()
                    <= old(self).buffer_limit() ==> {
                    &&& final(self).pending(direction.flip()) == old(self).pending(
                        direction.flip(),
                    )
                    &&& final(self).pending(direction) == d.1
                    &&& final(self).spec_failed() == d.2
                    &&& d.2 ==> r == Result::<Vec<StreamAction>, DecodeError>::Err(
                        DecodeError::Framing,
                    )
                    &&& !d.2 ==> r is Ok && r.unwrap().deep_view() =~= d.0
                }
            }),
    {
        match self {
            MuxHandler::Yamux(h) => h.on_data(direction, bytes),
            MuxHandler::Mplex(h) => h.on_data(direction, bytes),
        }
    }
}

} // verus!
