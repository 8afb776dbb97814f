use bytes::Bytes;
use nocturned::address::DeviceAddress;
use nocturned::app::chunk::{
    chunks_with_id, create_chunks, parse_one_chunk_envelope, Chunk, ChunkEnvelopeParse,
};
use nocturned::app::inbound::{settle, Delivery, Inbound, PendingChunks, MAX_INBOUND_BUFFER};
use nocturned::app::msgpack::{
    create_audio_data_event, create_audio_lifecycle_event, MsgPackMessage, MsgPackProtocolHandler,
};
use nocturned::app::value::read_json;
use nocturned::app::AppMessage;
use nocturned::json::{Json, JsonNumber};
use nocturned::spp::{create_lines, encode_line, lines_with_id, SppLink};

const ID: &str = "0123ABCD-4567-89EF-0123-456789ABCDEF";

fn wire_doc(text: &str) -> Json {
    read_json(text.as_bytes()).unwrap()
}

fn wire_value(json: &Json) -> serde_json::Value {
    match json {
        Json::Null => serde_json::Value::Null,
        Json::Bool(b) => serde_json::Value::Bool(*b),
        Json::Number(JsonNumber::Unsigned(n)) => serde_json::Value::from(*n),
        Json::Number(JsonNumber::Negative(n)) => serde_json::Value::from(*n),
        Json::Number(JsonNumber::Single(bits)) => serde_json::Value::from(f32::from_bits(*bits)),
        Json::Number(JsonNumber::Double(bits)) => serde_json::Value::from(f64::from_bits(*bits)),
        Json::Text(s) => serde_json::Value::String(s.clone()),
        Json::List(items) => serde_json::Value::Array(items.iter().map(wire_value).collect()),
        Json::Table(fields) => serde_json::Value::Object(
            fields.iter().map(|f| (f.key.clone(), wire_value(&f.value))).collect(),
        ),
    }
}

fn event_value(topic: &str, data: &Json) -> serde_json::Value {
    let mut map = serde_json::Map::new();
    map.insert("type".to_string(), serde_json::Value::from("event"));
    map.insert("topic".to_string(), serde_json::Value::from(topic));
    map.insert("data".to_string(), wire_value(data));
    serde_json::Value::Object(map)
}

#[test]
fn audio_data_event_has_expected_wire_format() {
    let opus_data = [0xAA, 0xBB, 0xCC, 0xDD];
    let event = create_audio_data_event(42, &opus_data, 1_713_000);

    match event {
        MsgPackMessage::Event { topic, data } => {
            assert_eq!(topic, "audio.data");
            let data = wire_value(&data);
            assert_eq!(data["seq"], serde_json::Value::from(42_u64));
            assert_eq!(data["opus"], serde_json::Value::from("qrvM3Q=="));
            assert_eq!(data["ts"], serde_json::Value::from(1_713_000_u64));
        }
        other => panic!("expected event message, got {other:?}"),
    }
}

#[test]
fn audio_recording_started_event_has_expected_fields() {
    let event = create_audio_lifecycle_event(
        "audio.recording.started",
        wire_doc(r#"{"sample_rate": 16000, "channels": 1, "frame_ms": 20}"#),
    );

    match event {
        MsgPackMessage::Event { topic, data } => {
            assert_eq!(topic, "audio.recording.started");
            let data = wire_value(&data);
            assert_eq!(data["sample_rate"], serde_json::Value::from(16000));
            assert_eq!(data["channels"], serde_json::Value::from(1));
            assert_eq!(data["frame_ms"], serde_json::Value::from(20));
        }
        other => panic!("expected event message, got {other:?}"),
    }
}

#[test]
fn audio_recording_stopped_event_has_expected_fields() {
    let event = create_audio_lifecycle_event(
        "audio.recording.stopped",
        wire_doc(r#"{"reason": "user_requested", "total_frames": 128}"#),
    );

    match event {
        MsgPackMessage::Event { topic, data } => {
            assert_eq!(topic, "audio.recording.stopped");
            let data = wire_value(&data);
            assert_eq!(data["reason"], serde_json::Value::from("user_requested"));
            assert_eq!(data["total_frames"], serde_json::Value::from(128_u64));
        }
        other => panic!("expected event message, got {other:?}"),
    }
}

#[test]
fn audio_data_event_for_sixty_byte_frame_fits_one_chunk() {
    let opus_data = vec![0xAB; 60];
    let event = create_audio_data_event(7, &opus_data, 999);
    let value = match &event {
        MsgPackMessage::Event { topic, data } => event_value(topic, data),
        other => panic!("expected event message, got {other:?}"),
    };
    let serialized = rmp_serde::to_vec_named(&value).expect("audio event should serialize");

    assert!(serialized.len() < 2000);

    let chunks =
        MsgPackProtocolHandler::create_chunks(&serialized).expect("audio event should chunk");

    assert_eq!(chunks.len(), 1);
}

#[test]
fn envelope_has_the_documented_layout() {
    let chunks = chunks_with_id(b"hello", ID);
    assert_eq!(chunks.len(), 1);
    let bytes = &chunks[0][..];
    assert_eq!(bytes.len(), 47 + 5);
    assert_eq!(bytes[0], 36);
    assert_eq!(&bytes[1..37], ID.as_bytes());
    assert_eq!(&bytes[37..39], &[0, 0]);
    assert_eq!(&bytes[39..41], &[0, 1]);
    assert_eq!(&bytes[41..45], &crc32fast::hash(b"hello").to_be_bytes());
    assert_eq!(&bytes[41..45], &0x3610_a686_u32.to_be_bytes());
    assert_eq!(&bytes[45..47], &[0, 5]);
    assert_eq!(&bytes[47..], b"hello");
}

#[test]
fn long_message_is_cut_every_two_thousand_bytes() {
    let data = vec![7u8; 4001];
    let chunks = chunks_with_id(&data, ID);
    assert_eq!(chunks.len(), 3);
    assert_eq!(chunks[0].len(), 47 + 2000);
    assert_eq!(chunks[1].len(), 47 + 2000);
    assert_eq!(chunks[2].len(), 47 + 1);
    assert_eq!(&chunks[2][37..41], &[0, 2, 0, 3]);
    assert_eq!(chunks_with_id(b"", ID).len(), 0);
}

#[test]
fn chunks_get_an_id_of_their_own() {
    let first = create_chunks(b"x").unwrap();
    let second = create_chunks(b"x").unwrap();
    let id = String::from_utf8(first[0][1..37].to_vec()).unwrap();
    assert_eq!(id, id.to_uppercase());
    for (i, c) in id.chars().enumerate() {
        if [8, 13, 18, 23].contains(&i) {
            assert_eq!(c, '-');
        } else {
            assert!(c.is_ascii_digit() || ('A'..='F').contains(&c));
        }
    }
    assert_ne!(first[0][1..37], second[0][1..37]);
}

#[test]
fn parts_of_any_lengths_come_in_any_order() {
    let parts: [&[u8]; 4] = [b"a", b"longer part", b"xy", b"and the last"];
    for order in [[0, 1, 2, 3], [3, 2, 1, 0], [2, 0, 3, 1]] {
        let mut pending = PendingChunks::new();
        for (k, &i) in order.iter().enumerate() {
            let delivery = pending.add_chunk_to_pending(Chunk {
                message_id: ID.to_string(),
                index: i as u16,
                total: 4,
                checksum: crc32fast::hash(parts[i]),
                payload: Bytes::copy_from_slice(parts[i]),
            });
            match delivery {
                Delivery::Nothing => assert!(k < 3),
                Delivery::Complete(data) => {
                    assert_eq!(k, 3);
                    assert_eq!(&data[..], b"alonger partxyand the last");
                }
                Delivery::Retransmit => panic!("nothing was damaged"),
            }
        }
    }
}

#[test]
fn envelope_is_read_back_with_what_follows_left() {
    let chunks = chunks_with_id(b"payload", ID);
    let mut stream = chunks[0].to_vec();
    stream.extend_from_slice(b"\x24rest");
    match parse_one_chunk_envelope(&stream) {
        ChunkEnvelopeParse::Complete { chunk, consumed } => {
            assert_eq!(consumed, chunks[0].len());
            assert_eq!(chunk.message_id, ID);
            assert_eq!((chunk.index, chunk.total), (0, 1));
            assert_eq!(&chunk.payload[..], b"payload");
            assert_eq!(chunk.checksum, crc32fast::hash(b"payload"));
        }
        _ => panic!("expected a whole envelope"),
    }
    for n in 1..chunks[0].len() {
        assert!(matches!(parse_one_chunk_envelope(&chunks[0][..n]), ChunkEnvelopeParse::NeedMore));
    }
    assert!(matches!(parse_one_chunk_envelope(&[0x25; 60]), ChunkEnvelopeParse::Invalid));
}

#[test]
fn message_crosses_the_link_in_whatever_parts() {
    let data: Vec<u8> = (0..5000u32).map(|i| (i % 251) as u8).collect();
    let stream: Vec<u8> = chunks_with_id(&data, ID).iter().flat_map(|c| c.to_vec()).collect();
    for part in [1usize, 46, 47, 48, 999, 2047, 10_000] {
        let mut inbound = Inbound::new();
        let mut got: Vec<Bytes> = Vec::new();
        for piece in stream.chunks(part) {
            let arrived = inbound.process_inbound(3, piece);
            assert!(arrived.retransmissions.is_empty());
            assert!(arrived.undecided.is_none());
            got.extend(arrived.completed);
        }
        assert_eq!(got.len(), 1);
        assert_eq!(&got[0][..], &data[..]);
    }
}

#[test]
fn chunks_make_the_message_in_any_order_and_twice_over() {
    let data: Vec<u8> = (0..6000u32).map(|i| (i % 7) as u8).collect();
    let chunks = chunks_with_id(&data, ID);
    let mut inbound = Inbound::new();
    assert!(inbound.process_inbound(1, &chunks[2]).completed.is_empty());
    assert!(inbound.process_inbound(1, &chunks[0]).completed.is_empty());
    assert!(inbound.process_inbound(1, &chunks[0]).completed.is_empty());
    let arrived = inbound.process_inbound(1, &chunks[1]);
    assert_eq!(arrived.completed.len(), 1);
    assert_eq!(&arrived.completed[0][..], &data[..]);
}

#[test]
fn damaged_chunk_is_asked_for_again() {
    let data = vec![1u8; 2500];
    let chunks = chunks_with_id(&data, ID);
    let mut damaged = chunks[1].to_vec();
    let last = damaged.len() - 1;
    damaged[last] ^= 0xff;
    let mut inbound = Inbound::new();
    assert!(inbound.process_inbound(0, &chunks[0]).completed.is_empty());
    let arrived = inbound.process_inbound(0, &damaged);
    assert!(arrived.completed.is_empty());
    assert_eq!(arrived.retransmissions.len(), 1);
    assert_eq!(arrived.retransmissions[0].message_id, ID);
    assert_eq!(arrived.retransmissions[0].chunk_idx, 1);
    let arrived = inbound.process_inbound(0, &chunks[1]);
    assert_eq!(&arrived.completed[0][..], &data[..]);
}

#[test]
fn bytes_past_the_cap_are_dropped_with_what_was_kept() {
    let chunks = chunks_with_id(&[9u8; 100], ID);
    let mut inbound = Inbound::new();
    inbound.process_inbound(0, &chunks[0][..50]);
    inbound.process_inbound(0, &vec![0x24u8; MAX_INBOUND_BUFFER]);
    let arrived = inbound.process_inbound(0, &chunks[0]);
    assert_eq!(arrived.completed.len(), 1);
    assert_eq!(&arrived.completed[0][..], &[9u8; 100][..]);
}

#[test]
fn bytes_that_are_no_envelope_may_be_a_message_of_their_own() {
    let value = event_value("app.ready", &wire_doc("{}"));
    let data = rmp_serde::to_vec_named(&value).unwrap();
    let mut inbound = Inbound::new();
    let arrived = inbound.process_inbound(0, &data);
    assert!(arrived.completed.is_empty());
    assert_eq!(&arrived.undecided.as_ref().unwrap()[..], &data[..]);
    let settled = settle(arrived, true);
    assert_eq!(settled.len(), 1);
    assert_eq!(&settled[0][..], &data[..]);
    let again = inbound.process_inbound(0, &data);
    assert!(settle(again, false).is_empty());
}

fn phone() -> DeviceAddress {
    DeviceAddress(0xAA, 0xBB, 0xCC, 0x00, 0x1F, 0x09)
}

#[test]
fn line_is_base64_with_a_line_break() {
    assert_eq!(encode_line(&[0xAA, 0xBB, 0xCC, 0xDD]), "qrvM3Q==\n");
    assert_eq!(encode_line(b""), "\n");
    let lines = lines_with_id(&[1u8; 2001], ID);
    assert_eq!(lines.len(), 2);
    assert!(lines.iter().all(|l| l.ends_with('\n') && l.matches('\n').count() == 1));
}

#[test]
fn lines_are_read_however_they_are_cut() {
    let stream = format!("{}{}!!!!\n{}", encode_line(b"one"), encode_line(b"two"), encode_line(b"three"));
    for part in 1..stream.len() {
        let (mut link, _) = SppLink::new(phone(), false, 0);
        let mut got: Vec<Vec<u8>> = Vec::new();
        for piece in stream.as_bytes().chunks(part) {
            link.on_bytes(piece);
            while let Some(message) = link.next_message() {
                assert_eq!(message.protocol, "com.usenocturne.daemon");
                assert_eq!(message.session_id, 0);
                assert_eq!(message.id.len(), 36);
                got.push(message.data.to_vec());
            }
        }
        assert_eq!(got, vec![b"one".to_vec(), b"two".to_vec(), b"three".to_vec()]);
    }
}

#[test]
fn message_crosses_the_serial_line() {
    let data: Vec<u8> = (0..4500u32).map(|i| (i % 253) as u8).collect();
    let stream: String = create_lines(&data).concat();
    let (mut link, ready) = SppLink::new(phone(), true, 0);
    assert!(matches!(ready, MsgPackMessage::Event { topic, .. } if topic == "daemon.ready"));
    let mut got: Vec<Bytes> = Vec::new();
    for piece in stream.as_bytes().chunks(1000) {
        link.on_bytes(piece);
        while let Some(message) = link.next_message() {
            got.extend(link.handler.handle_message(&message).completed);
        }
    }
    assert_eq!(got.len(), 1);
    assert_eq!(&got[0][..], &data[..]);
}

#[test]
fn request_over_the_serial_line_is_a_call() {
    let (mut link, _) = SppLink::new(phone(), true, 0);
    let message = AppMessage {
        id: "r1".to_string(),
        protocol: "websocket.message".to_string(),
        session_id: 0,
        data: Bytes::from_static(br#"{"method":"spotify.image.fetch","params":{"url":"u"}}"#),
    };
    let call = wire_value(&link.on_request(&message));
    assert_eq!(call["type"], "call");
    assert_eq!(call["id"], "r1");
    assert_eq!(call["method"], "spotify.image.fetch");
    assert_eq!(call["params"]["url"], "u");
    let message = AppMessage { data: Bytes::from_static(b"no document"), ..message };
    let call = wire_value(&link.on_request(&message));
    assert_eq!(call["method"], "unknown");
    assert_eq!(call["params"], serde_json::Value::Object(serde_json::Map::new()));
}

#[test]
fn serial_line_repeats_that_the_daemon_is_there() {
    let (mut link, _) = SppLink::new(phone(), true, 1_000);
    assert!(link.on_tick(2_999_999_999).is_none());
    assert!(link.on_tick(3_000_001_000).is_some());
    assert!(link.on_tick(3_000_001_001).is_none());
    assert!(link.on_tick(6_000_001_000).is_some());
}
