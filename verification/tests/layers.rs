use mina_recorder::absorb::{Absorb, Limit};
use mina_recorder::cipher;
use mina_recorder::error::{DecodeError, ParseFault};
use mina_recorder::ids::{Direction, StreamId, SubStream};
use mina_recorder::mina_protocol::{encode_envelope, AppDecoder, Message, Record};
use mina_recorder::mplex::MplexHandler;
use mina_recorder::multistream_select::{
    encode_line, header_bytes, mplex_bytes, noise_bytes, yamux_bytes, KnownProtocol,
    MultistreamHandler,
};
use mina_recorder::noise::{handshake_message, seal_frame, NoiseHandler};
use mina_recorder::pnet::pnet_apply;
use mina_recorder::proc::{parse_btime_line, parse_decimal, prefix_matches};
use mina_recorder::wire::{read_be, write_be};
use mina_recorder::yamux::{encode_frame, YamuxHandler, FLAG_FIN, FLAG_SYN};

fn session_key(e1: &[u8], e2: &[u8], outbound: bool) -> Vec<u8> {
    let tag = if outbound { 0xaa } else { 0x55 };
    (0..32).map(|i| e1[i] ^ e2[i] ^ tag).collect()
}

#[test]
fn pnet_round_trip() {
    let key = vec![7u8, 13, 42, 200];
    let original = vec![0u8, 1, 2, 250, 90, 17, 3];
    let mut data = original.clone();
    pnet_apply(&key, 2, &mut data);
    assert_ne!(data, original);
    pnet_apply(&key, 2, &mut data);
    assert_eq!(data, original);
}

#[test]
fn pnet_offset_changes_stream() {
    let key = vec![1u8, 2, 3];
    let mut a = vec![0u8, 0, 0];
    let mut b = vec![0u8, 0, 0];
    pnet_apply(&key, 0, &mut a);
    pnet_apply(&key, 1, &mut b);
    assert_eq!(a, vec![1, 2, 3]);
    assert_eq!(b, vec![2, 3, 1]);
}

#[test]
fn cipher_round_trip() {
    let key: Vec<u8> = (0u8..32).collect();
    let pt = vec![10u8, 20, 30, 40, 50];
    let frame = cipher::encrypt(&key, 5, pt.clone());
    assert_eq!(frame.len(), pt.len() + 8);
    let opened = cipher::decrypt(&key, 5, frame).expect("same nonce must open");
    assert_eq!(opened, pt);
}

#[test]
fn cipher_wrong_nonce_fails() {
    let key: Vec<u8> = (0u8..32).collect();
    let pt = vec![1u8, 2, 3];
    let frame = cipher::encrypt(&key, 7, pt);
    match cipher::decrypt(&key, 8, frame) {
        Err(DecodeError::Decrypt) => (),
        other => panic!("expected a decrypt error, got {:?}", other.is_ok()),
    }
}

#[test]
fn cipher_empty_plaintext() {
    let key: Vec<u8> = (100u8..132).collect();
    let frame = cipher::encrypt(&key, 0, Vec::new());
    assert_eq!(frame.len(), 8);
    let opened = cipher::decrypt(&key, 0, frame).expect("empty plaintext round-trips");
    assert!(opened.is_empty());
}

#[test]
fn wire_round_trip() {
    let bytes = write_be(0xdead_beef, 4);
    assert_eq!(bytes, vec![0xde, 0xad, 0xbe, 0xef]);
    assert_eq!(read_be(&bytes, 0, 4), 0xdead_beef);
    let wide = write_be(u64::MAX, 8);
    assert_eq!(read_be(&wide, 0, 8), u64::MAX);
}

#[test]
fn absorb_u64() {
    let mut input = write_be(42, 8);
    input.push(99);
    let limit = Limit { depth: 4, bytes: 100 };
    let (n, v) = <u64 as Absorb>::absorb(&input, 0, limit).expect("fits");
    assert_eq!((n, v), (8, 42));
}

#[test]
fn absorb_u64_short_input() {
    let input = vec![1u8, 2, 3];
    let limit = Limit { depth: 4, bytes: 100 };
    assert_eq!(
        <u64 as Absorb>::absorb(&input, 0, limit),
        Err(ParseFault::LengthExceedsInput)
    );
}

#[test]
fn absorb_bytes_limit() {
    let mut input = write_be(50, 4);
    input.extend(std::iter::repeat(7u8).take(50));
    let tight = Limit { depth: 4, bytes: 20 };
    assert_eq!(
        <Vec<u8> as Absorb>::absorb(&input, 0, tight),
        Err(ParseFault::LimitExceeded)
    );
    let roomy = Limit { depth: 4, bytes: 100 };
    let (n, v) = <Vec<u8> as Absorb>::absorb(&input, 0, roomy).expect("fits");
    assert_eq!(n, 54);
    assert_eq!(v.len(), 50);
}

#[test]
fn absorb_message_unknown_tag() {
    let input = vec![9u8, 0, 0];
    let limit = Limit { depth: 4, bytes: 100 };
    assert!(matches!(
        <Message as Absorb>::absorb(&input, 0, limit),
        Err(ParseFault::UnexpectedTag)
    ));
}

#[test]
fn absorb_message_int() {
    let mut input = vec![0u8];
    input.extend(write_be(1234, 8));
    let limit = Limit { depth: 4, bytes: 100 };
    let (n, m) = <Message as Absorb>::absorb(&input, 0, limit).expect("parses");
    assert_eq!(n, 9);
    assert!(matches!(m, Message::Int(1234)));
}

#[test]
fn decoder_envelopes_and_resync() {
    let stream = StreamId { connection: 9, sub: SubStream::Sub(4) };
    let mut dec = AppDecoder::new(stream, 1000, 10000);
    let mut out: Vec<Record> = Vec::new();

    // a bad envelope (unknown tag), then a good one: the bad one is
    // discarded and decoding resumes at the next envelope boundary
    let bad_body = vec![7u8, 7, 7];
    let mut good_body = vec![0u8];
    good_body.extend(write_be(55, 8));
    let mut bytes = encode_envelope(&bad_body);
    bytes.extend(encode_envelope(&good_body));

    dec.on_data(Direction::Inbound, &bytes, &mut out).expect("parse faults are local");
    assert_eq!(out.len(), 1);
    assert_eq!(out[0].stream, stream);
    assert_eq!(out[0].direction, Direction::Inbound);
    assert!(matches!(out[0].message, Message::Int(55)));
    // the discarded envelope was reported for this sub-stream
    assert_eq!(dec.faults(), 1);
}

#[test]
fn decoder_oversized_envelope_fails_stream() {
    let stream = StreamId { connection: 1, sub: SubStream::Sub(1) };
    let mut dec = AppDecoder::new(stream, 10, 10000);
    let mut out: Vec<Record> = Vec::new();
    let claim = write_be(100, 4);
    match dec.on_data(Direction::Outbound, &claim, &mut out) {
        Err(DecodeError::Parse(ParseFault::LimitExceeded)) => (),
        other => panic!("expected a limit fault, got ok={}", other.is_ok()),
    }
    // the stream stays silent from then on
    let more = encode_envelope(&vec![0u8, 0, 0, 0, 0, 0, 0, 0, 1]);
    dec.on_data(Direction::Outbound, &more, &mut out).expect("failed stream drops bytes");
    assert!(out.is_empty());
}

#[test]
fn decoder_close_reports_truncation() {
    let stream = StreamId { connection: 2, sub: SubStream::Sub(7) };
    let mut dec = AppDecoder::new(stream, 1000, 10000);
    let mut out: Vec<Record> = Vec::new();
    // half an envelope, then end-of-stream: the truncated leftover is
    // reported and the buffer released
    let partial = vec![0u8, 0, 0, 9, 0];
    dec.on_data(Direction::Outbound, &partial, &mut out).expect("incomplete bytes wait");
    assert_eq!(dec.faults(), 0);
    dec.on_close();
    assert_eq!(dec.faults(), 1);
    assert!(out.is_empty());
}

#[test]
fn negotiation_noise_line() {
    let mut ms = MultistreamHandler::new(10000);
    let mut proposal = encode_line(&header_bytes());
    proposal.extend(encode_line(&noise_bytes()));
    let o = ms.on_data(Direction::Outbound, proposal).expect("proposal lines parse");
    assert!(o.chosen.is_none());
    let mut echo = encode_line(&header_bytes());
    echo.extend(encode_line(&noise_bytes()));
    let o = ms.on_data(Direction::Inbound, echo).expect("echo settles");
    assert_eq!(o.chosen, Some(KnownProtocol::Noise));
}

#[test]
fn negotiation_unrecognized_name() {
    let mut ms = MultistreamHandler::new(10000);
    let bogus = encode_line(&vec![b'/', b'b', b'o', b'g', b'u', b's']);
    match ms.on_data(Direction::Outbound, bogus) {
        Err(DecodeError::Negotiation) => (),
        other => panic!("expected a negotiation error, got ok={}", other.is_ok()),
    }
    // the stream stays undecodable but silent
    let later = encode_line(&noise_bytes());
    let o = ms.on_data(Direction::Outbound, later).expect("failed stream drops bytes");
    assert!(o.chosen.is_none());
    assert!(o.flush_out.is_empty() && o.flush_in.is_empty());
}

#[test]
fn negotiation_passthrough_after_choice() {
    let mut ms = MultistreamHandler::new(10000);
    let mut proposal = encode_line(&header_bytes());
    proposal.extend(encode_line(&yamux_bytes()));
    ms.on_data(Direction::Outbound, proposal).expect("proposal");
    let echo = encode_line(&yamux_bytes());
    let o = ms.on_data(Direction::Inbound, echo).expect("echo");
    assert_eq!(o.chosen, Some(KnownProtocol::Yamux));
    let o = ms.on_data(Direction::Outbound, vec![1, 2, 3]).expect("passthrough");
    assert_eq!(o.flush_out, vec![1, 2, 3]);
    assert!(o.chosen.is_none());
}

#[test]
fn noise_handshake_and_transport() {
    let e1: Vec<u8> = (0u8..32).collect();
    let e2: Vec<u8> = (100u8..132).collect();
    let mut h = NoiseHandler::new(65000, 100000);
    let (po, pi) = h.on_data(Direction::Outbound, &handshake_message(&e1)).expect("msg1");
    assert!(po.is_empty() && pi.is_empty());
    let k_in = session_key(&e1, &e2, false);
    let mut second = handshake_message(&e2);
    second.extend(seal_frame(&k_in, 0, vec![9u8, 8, 7]));
    let (po, pi) = h.on_data(Direction::Inbound, &second).expect("msg2 + first frame");
    assert!(po.is_empty());
    assert_eq!(pi, vec![9, 8, 7]);
    // a second frame under the next nonce
    let (_, pi) = h
        .on_data(Direction::Inbound, &seal_frame(&k_in, 1, vec![4u8, 4]))
        .expect("second frame");
    assert_eq!(pi, vec![4, 4]);
}

#[test]
fn noise_bad_handshake_length() {
    let mut h = NoiseHandler::new(65000, 100000);
    let bad = vec![0u8, 7, 1, 2, 3, 4, 5, 6, 7];
    match h.on_data(Direction::Outbound, &bad) {
        Err(DecodeError::Handshake) => (),
        other => panic!("expected a handshake error, got ok={}", other.is_ok()),
    }
}

#[test]
fn noise_replayed_frame_fails() {
    let e1: Vec<u8> = (0u8..32).collect();
    let e2: Vec<u8> = (200u8..232).collect();
    let mut h = NoiseHandler::new(65000, 100000);
    h.on_data(Direction::Outbound, &handshake_message(&e1)).expect("msg1");
    h.on_data(Direction::Inbound, &handshake_message(&e2)).expect("msg2");
    let k_in = session_key(&e1, &e2, false);
    let frame = seal_frame(&k_in, 0, vec![1u8]);
    h.on_data(Direction::Inbound, &frame.clone()).expect("first use");
    match h.on_data(Direction::Inbound, &frame) {
        Err(DecodeError::Decrypt) => (),
        other => panic!("expected a decrypt error, got ok={}", other.is_ok()),
    }
}

#[test]
fn yamux_routes_and_rejects_oversize() {
    let mut h = YamuxHandler::new(100, 10000);
    let body = vec![5u8, 6, 7];
    let mut bytes = encode_frame(0, FLAG_SYN, 4, body.len() as u32, &body);
    bytes.extend(encode_frame(0, FLAG_FIN, 4, 0, &Vec::new()));
    let acts = h.on_data(Direction::Outbound, bytes).expect("two frames");
    assert_eq!(acts.len(), 2);
    assert_eq!((acts[0].id, acts[0].opens, acts[0].closes), (4, true, false));
    assert_eq!(acts[0].data, vec![5, 6, 7]);
    assert_eq!((acts[1].id, acts[1].opens, acts[1].closes), (4, false, true));

    let huge = encode_frame(0, 0, 4, 5000, &Vec::new());
    match h.on_data(Direction::Outbound, huge) {
        Err(DecodeError::Framing) => (),
        other => panic!("expected a framing error, got ok={}", other.is_ok()),
    }
}

#[test]
fn yamux_window_update_carries_no_body() {
    let mut h = YamuxHandler::new(100, 10000);
    // window update with a large credit in the length field: no body
    let bytes = encode_frame(1, FLAG_SYN, 9, 1_000_000, &Vec::new());
    let acts = h.on_data(Direction::Inbound, bytes).expect("window update");
    assert_eq!(acts.len(), 1);
    assert_eq!((acts[0].id, acts[0].opens), (9, true));
    assert!(acts[0].data.is_empty());
}

#[test]
fn mplex_varint_framing() {
    let mut h = MplexHandler::new(1000, 10000);
    // open sub-stream 2: header (2 << 3) | 0, length 0
    // message on 2 (flag 1): header (2 << 3) | 1, length 3, body
    let bytes = vec![16u8, 0, 17, 3, 1, 2, 3, /* close: */ 19, 0];
    let acts = h.on_data(Direction::Outbound, bytes).expect("three frames");
    assert_eq!(acts.len(), 3);
    assert!(acts[0].opens && acts[0].data.is_empty());
    assert_eq!(acts[1].data, vec![1, 2, 3]);
    assert!(acts[2].closes);
    assert!(acts.iter().all(|a| a.id == 2));
}

#[test]
fn mplex_long_id_varint() {
    let mut h = MplexHandler::new(1000, 10000);
    // id 300, flag 1: header value (300 << 3) | 1 == 2401 == 0x961
    // varint little-endian groups: 0xe1 0x12
    let bytes = vec![0xe1u8, 0x12, 2, 9, 9];
    let acts = h.on_data(Direction::Inbound, bytes).expect("one frame");
    assert_eq!(acts.len(), 1);
    assert_eq!(acts[0].id, 300);
    assert_eq!(acts[0].data, vec![9, 9]);
}

#[test]
fn parse_decimal_values() {
    assert_eq!(parse_decimal(&b"0".to_vec()), Some(0));
    assert_eq!(parse_decimal(&b"1700000000".to_vec()), Some(1_700_000_000));
    assert_eq!(parse_decimal(&b"18446744073709551615".to_vec()), Some(u64::MAX));
    assert_eq!(parse_decimal(&b"18446744073709551616".to_vec()), None);
    assert_eq!(parse_decimal(&b"12a".to_vec()), None);
    assert_eq!(parse_decimal(&b"".to_vec()), None);
}

#[test]
fn parse_btime() {
    assert_eq!(parse_btime_line(&b"btime 1700000123".to_vec()), Some(1_700_000_123));
    // only the second space-separated token counts; trailing fields are fine
    assert_eq!(parse_btime_line(&b"btime 123 456".to_vec()), Some(123));
    assert_eq!(parse_btime_line(&b"cpu 1 2 3".to_vec()), None);
    assert_eq!(parse_btime_line(&b"btime ".to_vec()), None);
    assert_eq!(parse_btime_line(&b"btime".to_vec()), None);
    assert_eq!(parse_btime_line(&b"btime 12a".to_vec()), None);
    assert_eq!(parse_btime_line(&b"btimes 5".to_vec()), None);
    assert!(mina_recorder::proc::is_btime_line(&b"btime".to_vec()));
    assert!(!mina_recorder::proc::is_btime_line(&b"btimes 5".to_vec()));
}

#[test]
fn prefix_matching() {
    assert!(prefix_matches(&b"mina daemon".to_vec(), &b"mina".to_vec()));
    assert!(!prefix_matches(&b"min".to_vec(), &b"mina".to_vec()));
    assert!(prefix_matches(&b"anything".to_vec(), &b"".to_vec()));
}

#[test]
fn protocol_names_are_distinct() {
    assert_ne!(noise_bytes(), yamux_bytes());
    assert_ne!(yamux_bytes(), mplex_bytes());
    assert_ne!(header_bytes(), noise_bytes());
}
