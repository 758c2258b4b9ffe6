use mina_recorder::error::DecodeError;
use mina_recorder::ids::{DirectedId, Direction, StreamId, SubStream};
use mina_recorder::mina_protocol::{encode_envelope, Message, Record};
use mina_recorder::multistream_select::{encode_line, header_bytes, noise_bytes, yamux_bytes};
use mina_recorder::noise::{handshake_message, seal_frame};
use mina_recorder::pnet::pnet_apply;
use mina_recorder::proc::S;
use mina_recorder::wire::write_be;
use mina_recorder::yamux::{encode_frame, FLAG_FIN, FLAG_SYN};
use mina_recorder::{Cx, Registry};

fn test_cx(key: &[u8]) -> Cx {
    Cx {
        pnet_key: Some(key.to_vec()),
        max_frame: 60000,
        buffer_limit: 1_000_000,
        max_envelope: 60000,
        boot: S { b_time: Some(1_700_000_000) },
    }
}

fn session_key(e1: &[u8], e2: &[u8], outbound: bool) -> Vec<u8> {
    let tag = if outbound { 0xaa } else { 0x55 };
    (0..32).map(|i| e1[i] ^ e2[i] ^ tag).collect()
}

fn int_envelope(v: u64) -> Vec<u8> {
    let mut body = vec![0u8];
    body.extend(write_be(v, 8));
    encode_envelope(&body)
}

/// One simulated sender pair: obfuscates each chunk with the
/// pre-shared key and numbers it exactly as the capture layer would.
struct ConnSim {
    connection: u64,
    off_out: usize,
    off_in: usize,
    seq_out: u64,
    seq_in: u64,
}

impl ConnSim {
    fn new(connection: u64) -> ConnSim {
        ConnSim { connection, off_out: 0, off_in: 0, seq_out: 0, seq_in: 0 }
    }

    fn restart(&mut self) {
        self.off_out = 0;
        self.off_in = 0;
        self.seq_out = 0;
        self.seq_in = 0;
    }

    fn send(
        &mut self,
        registry: &mut Registry,
        cx: &Cx,
        direction: Direction,
        plain: Vec<u8>,
        out: &mut Vec<Record>,
    ) -> Result<(), DecodeError> {
        let key = cx.pnet_key.clone().unwrap();
        let (off, seq) = match direction {
            Direction::Outbound => (&mut self.off_out, &mut self.seq_out),
            Direction::Inbound => (&mut self.off_in, &mut self.seq_in),
        };
        let mut bytes = plain;
        pnet_apply(&key, *off, &mut bytes);
        *off = (*off + bytes.len()) % key.len();
        let id = DirectedId {
            stream: StreamId { connection: self.connection, sub: SubStream::Main },
            direction,
            sequence: *seq,
        };
        *seq += 1;
        registry.on_event(id, &mut bytes, cx, out)
    }
}

fn ms_open(proposal: &[u8]) -> (Vec<u8>, Vec<u8>) {
    let mut a = encode_line(&header_bytes());
    a.extend(encode_line(&proposal.to_vec()));
    let mut b = encode_line(&header_bytes());
    b.extend(encode_line(&proposal.to_vec()));
    (a, b)
}

#[test]
fn end_to_end_one_record() {
    let pnet_key = [3u8, 1, 4, 1, 5, 9, 2, 6];
    let e1: Vec<u8> = (0u8..32).collect();
    let e2: Vec<u8> = (60u8..92).collect();
    let k_out = session_key(&e1, &e2, true);
    let k_in = session_key(&e1, &e2, false);
    let cx = test_cx(&pnet_key);
    let mut reg = Registry::new();
    let mut rp = ConnSim::new(1);
    let mut out: Vec<Record> = Vec::new();

    let (prop, echo) = ms_open(&noise_bytes());
    rp.send(&mut reg, &cx, Direction::Outbound, prop, &mut out).unwrap();
    rp.send(&mut reg, &cx, Direction::Inbound, echo, &mut out).unwrap();
    rp.send(&mut reg, &cx, Direction::Outbound, handshake_message(&e1), &mut out).unwrap();
    rp.send(&mut reg, &cx, Direction::Inbound, handshake_message(&e2), &mut out).unwrap();

    let (prop2, echo2) = ms_open(&yamux_bytes());
    rp.send(&mut reg, &cx, Direction::Outbound, seal_frame(&k_out, 0, prop2), &mut out).unwrap();
    rp.send(&mut reg, &cx, Direction::Inbound, seal_frame(&k_in, 0, echo2), &mut out).unwrap();

    let env = int_envelope(42);
    let frame = encode_frame(0, FLAG_SYN, 1, env.len() as u32, &env);
    rp.send(&mut reg, &cx, Direction::Outbound, seal_frame(&k_out, 1, frame), &mut out).unwrap();

    assert_eq!(out.len(), 1);
    assert_eq!(out[0].stream, StreamId { connection: 1, sub: SubStream::Sub(1) });
    assert_eq!(out[0].direction, Direction::Outbound);
    assert!(matches!(out[0].message, Message::Int(42)));
}

#[test]
fn demux_three_substreams() {
    let pnet_key = [11u8, 22, 33];
    let e1: Vec<u8> = (0u8..32).collect();
    let e2: Vec<u8> = (7u8..39).collect();
    let k_out = session_key(&e1, &e2, true);
    let k_in = session_key(&e1, &e2, false);
    let cx = test_cx(&pnet_key);
    let mut reg = Registry::new();
    let mut rp = ConnSim::new(5);
    let mut out: Vec<Record> = Vec::new();

    let (prop, echo) = ms_open(&noise_bytes());
    rp.send(&mut reg, &cx, Direction::Outbound, prop, &mut out).unwrap();
    rp.send(&mut reg, &cx, Direction::Inbound, echo, &mut out).unwrap();
    rp.send(&mut reg, &cx, Direction::Outbound, handshake_message(&e1), &mut out).unwrap();
    rp.send(&mut reg, &cx, Direction::Inbound, handshake_message(&e2), &mut out).unwrap();
    let (prop2, echo2) = ms_open(&yamux_bytes());
    rp.send(&mut reg, &cx, Direction::Outbound, seal_frame(&k_out, 0, prop2), &mut out).unwrap();
    rp.send(&mut reg, &cx, Direction::Inbound, seal_frame(&k_in, 0, echo2), &mut out).unwrap();

    // three interleaved open/data/close runs for ids 1, 3 and 5; the
    // envelope of sub-stream 1 is split over two data frames
    let env1 = int_envelope(41);
    let env3 = int_envelope(43);
    let env5 = int_envelope(45);
    let (e1a, e1b) = env1.split_at(5);
    let mut frames = Vec::new();
    frames.extend(encode_frame(0, FLAG_SYN, 1, e1a.len() as u32, &e1a.to_vec()));
    frames.extend(encode_frame(0, FLAG_SYN, 3, env3.len() as u32, &env3));
    frames.extend(encode_frame(0, 0, 1, e1b.len() as u32, &e1b.to_vec()));
    frames.extend(encode_frame(0, FLAG_SYN, 5, env5.len() as u32, &env5));
    frames.extend(encode_frame(0, FLAG_FIN, 3, 0, &Vec::new()));
    frames.extend(encode_frame(0, FLAG_FIN, 1, 0, &Vec::new()));
    frames.extend(encode_frame(0, FLAG_FIN, 5, 0, &Vec::new()));
    rp.send(&mut reg, &cx, Direction::Outbound, seal_frame(&k_out, 1, frames), &mut out).unwrap();

    assert_eq!(out.len(), 3);
    // completion order: 3 (whole envelope), then 1 (second half), then 5
    let subs: Vec<SubStream> = out.iter().map(|r| r.stream.sub).collect();
    assert_eq!(subs, vec![SubStream::Sub(3), SubStream::Sub(1), SubStream::Sub(5)]);
    assert!(out.iter().all(|r| r.stream.connection == 5));
    assert!(matches!(out[0].message, Message::Int(43)));
    assert!(matches!(out[1].message, Message::Int(41)));
    assert!(matches!(out[2].message, Message::Int(45)));
}

#[test]
fn oversized_frame_kills_only_its_connection() {
    let pnet_key = [9u8, 9, 1];
    let cx = test_cx(&pnet_key);
    let mut reg = Registry::new();
    let mut rp = ConnSim::new(7);
    let mut rp2 = ConnSim::new(2);
    let mut out: Vec<Record> = Vec::new();

    // both connections negotiate the multiplexer without encryption
    let (prop, echo) = ms_open(&yamux_bytes());
    rp.send(&mut reg, &cx, Direction::Outbound, prop, &mut out).unwrap();
    rp.send(&mut reg, &cx, Direction::Inbound, echo, &mut out).unwrap();
    let (prop, echo) = ms_open(&yamux_bytes());
    rp2.send(&mut reg, &cx, Direction::Outbound, prop, &mut out).unwrap();
    rp2.send(&mut reg, &cx, Direction::Inbound, echo, &mut out).unwrap();
    // a frame header claiming more than the configured maximum
    let huge = encode_frame(0, FLAG_SYN, 1, 1_000_000, &Vec::new());
    match rp2.send(&mut reg, &cx, Direction::Outbound, huge, &mut out) {
        Err(DecodeError::Framing) => (),
        other => panic!("expected a framing error, got ok={}", other.is_ok()),
    }
    // the failed connection stays silent
    let env = int_envelope(1);
    let late = encode_frame(0, FLAG_SYN, 1, env.len() as u32, &env);
    rp2.send(&mut reg, &cx, Direction::Outbound, late, &mut out).unwrap();
    assert!(out.is_empty());

    // the concurrently processed connection is unaffected
    let env = int_envelope(77);
    let ok_frame = encode_frame(0, FLAG_SYN, 2, env.len() as u32, &env);
    rp.send(&mut reg, &cx, Direction::Outbound, ok_frame, &mut out).unwrap();
    assert_eq!(out.len(), 1);
    assert_eq!(out[0].stream, StreamId { connection: 7, sub: SubStream::Sub(2) });
    assert!(matches!(out[0].message, Message::Int(77)));
}

#[test]
fn unencrypted_mplex_path() {
    let pnet_key = [5u8, 4, 3, 2, 1];
    let cx = test_cx(&pnet_key);
    let mut reg = Registry::new();
    let mut rp = ConnSim::new(4);
    let mut out: Vec<Record> = Vec::new();
    let (prop, echo) = ms_open(&mina_recorder::multistream_select::mplex_bytes());
    rp.send(&mut reg, &cx, Direction::Outbound, prop, &mut out).unwrap();
    rp.send(&mut reg, &cx, Direction::Inbound, echo, &mut out).unwrap();
    let env = int_envelope(12);
    // open id 6, then one message frame carrying the envelope
    let mut frames = vec![48u8, 0];
    frames.push(49);
    frames.push(env.len() as u8);
    frames.extend(env);
    rp.send(&mut reg, &cx, Direction::Outbound, frames, &mut out).unwrap();
    assert_eq!(out.len(), 1);
    assert_eq!(out[0].stream, StreamId { connection: 4, sub: SubStream::Sub(6) });
    assert!(matches!(out[0].message, Message::Int(12)));
}

#[test]
fn closed_substream_stays_closed() {
    let pnet_key = [2u8, 7, 1, 8];
    let cx = test_cx(&pnet_key);
    let mut reg = Registry::new();
    let mut rp = ConnSim::new(9);
    let mut out: Vec<Record> = Vec::new();
    let (prop, echo) = ms_open(&yamux_bytes());
    rp.send(&mut reg, &cx, Direction::Outbound, prop, &mut out).unwrap();
    rp.send(&mut reg, &cx, Direction::Inbound, echo, &mut out).unwrap();
    let env = int_envelope(5);
    let mut frames = encode_frame(0, FLAG_SYN, 1, env.len() as u32, &env);
    // a reset, then a late open and late data for the same id: a
    // violation of that sub-stream alone, ignored without reopening it
    frames.extend(encode_frame(0, 8, 1, 0, &Vec::new()));
    let late = int_envelope(6);
    frames.extend(encode_frame(0, FLAG_SYN, 1, late.len() as u32, &late));
    rp.send(&mut reg, &cx, Direction::Outbound, frames, &mut out).unwrap();
    assert_eq!(out.len(), 1);
    assert!(matches!(out[0].message, Message::Int(5)));
}

#[test]
fn restart_revives_a_failed_connection() {
    let pnet_key = [6u8, 6, 6];
    let cx = test_cx(&pnet_key);
    let mut reg = Registry::new();
    let mut rp = ConnSim::new(11);
    let mut out: Vec<Record> = Vec::new();
    let (prop, echo) = ms_open(&yamux_bytes());
    rp.send(&mut reg, &cx, Direction::Outbound, prop, &mut out).unwrap();
    rp.send(&mut reg, &cx, Direction::Inbound, echo, &mut out).unwrap();
    let huge = encode_frame(0, FLAG_SYN, 1, 1_000_000, &Vec::new());
    assert!(matches!(
        rp.send(&mut reg, &cx, Direction::Outbound, huge, &mut out),
        Err(DecodeError::Framing)
    ));
    // the capture layer starts a new logical stream: decoding resumes
    rp.restart();
    let (prop, echo) = ms_open(&yamux_bytes());
    rp.send(&mut reg, &cx, Direction::Outbound, prop, &mut out).unwrap();
    rp.send(&mut reg, &cx, Direction::Inbound, echo, &mut out).unwrap();
    let env = int_envelope(8);
    let frame = encode_frame(0, FLAG_SYN, 2, env.len() as u32, &env);
    rp.send(&mut reg, &cx, Direction::Outbound, frame, &mut out).unwrap();
    assert_eq!(out.len(), 1);
    assert!(matches!(out[0].message, Message::Int(8)));
}

#[test]
fn sequence_gap_is_fatal() {
    let pnet_key = [1u8, 2];
    let cx = test_cx(&pnet_key);
    let mut registry = Registry::new();
    let mut out: Vec<Record> = Vec::new();
    let id = |seq: u64| DirectedId {
        stream: StreamId { connection: 3, sub: SubStream::Main },
        direction: Direction::Outbound,
        sequence: seq,
    };
    let mut bytes = Vec::new();
    registry.on_event(id(0), &mut bytes, &cx, &mut out).unwrap();
    let mut bytes = Vec::new();
    match registry.on_event(id(2), &mut bytes, &cx, &mut out) {
        Err(DecodeError::Desynchronized) => (),
        other => panic!("expected desynchronization, got ok={}", other.is_ok()),
    }
}

#[test]
fn sequence_restart_reopens_the_stream() {
    let pnet_key = [8u8, 8, 8];
    let cx = test_cx(&pnet_key);
    let mut reg = Registry::new();
    let mut rp = ConnSim::new(6);
    let mut out: Vec<Record> = Vec::new();
    let (prop, echo) = ms_open(&yamux_bytes());
    rp.send(&mut reg, &cx, Direction::Outbound, prop, &mut out).unwrap();
    rp.send(&mut reg, &cx, Direction::Inbound, echo, &mut out).unwrap();
    // the capture layer restarts numbering: a new logical stream
    rp.restart();
    let (prop, _) = ms_open(&yamux_bytes());
    rp.send(&mut reg, &cx, Direction::Outbound, prop, &mut out).unwrap();
    // negotiation starts over, so the echo settles it again
    rp.send(&mut reg, &cx, Direction::Inbound, encode_line(&yamux_bytes()), &mut out).unwrap();
    assert!(out.is_empty());
}

#[test]
fn missing_key_is_a_configuration_error() {
    let mut cx = test_cx(&[1, 2, 3]);
    cx.pnet_key = None;
    let mut registry = Registry::new();
    let mut out: Vec<Record> = Vec::new();
    let id = DirectedId {
        stream: StreamId { connection: 1, sub: SubStream::Main },
        direction: Direction::Outbound,
        sequence: 0,
    };
    let mut bytes = vec![1u8];
    match registry.on_event(id, &mut bytes, &cx, &mut out) {
        Err(DecodeError::Configuration) => (),
        other => panic!("expected a configuration error, got ok={}", other.is_ok()),
    }
}

#[test]
fn teardown_releases_only_one_connection() {
    let pnet_key = [1u8, 1, 2, 3, 5];
    let cx = test_cx(&pnet_key);
    let mut reg = Registry::new();
    let mut rp = ConnSim::new(10);
    let mut out: Vec<Record> = Vec::new();
    let (prop, echo) = ms_open(&yamux_bytes());
    rp.send(&mut reg, &cx, Direction::Outbound, prop, &mut out).unwrap();
    rp.send(&mut reg, &cx, Direction::Inbound, echo, &mut out).unwrap();
    reg.teardown(10);
    // after teardown the next chunk opens a fresh chain
    rp.restart();
    let (prop, echo) = ms_open(&yamux_bytes());
    rp.send(&mut reg, &cx, Direction::Outbound, prop, &mut out).unwrap();
    rp.send(&mut reg, &cx, Direction::Inbound, echo, &mut out).unwrap();
    let env = int_envelope(3);
    let frame = encode_frame(0, FLAG_SYN, 1, env.len() as u32, &env);
    rp.send(&mut reg, &cx, Direction::Outbound, frame, &mut out).unwrap();
    assert_eq!(out.len(), 1);
    assert!(matches!(out[0].message, Message::Int(3)));
}
