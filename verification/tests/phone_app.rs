use bytes::Bytes;
use nocturned::app::hid_mapping::{method_to_hid_command, HidCommand};
use nocturned::app::inbound::Retransmission;
use nocturned::app::msgpack::{
    call_messages, call_method, call_with_id, cleaned_artist, handler_reply, hid_reply, response_of,
    CallHandler, Effect, MsgPackMessage, MsgPackProtocolHandler, Outcome, PendingCalls,
};
use nocturned::app::ota::{
    compute_md5, handle_ota_download_result, handle_package_state, read_answer, OtaDownload,
    OtaFiles, OtaPackageInfo,
};
use nocturned::app::value::{read_document, read_json};
use nocturned::app::{
    answer_to_session, AppCommunicationManager, AppMessage, AppProtocolHandlerEnum, Handled,
};
use nocturned::json::{Json, JsonNumber};
fn phone_doc(text: &str) -> Json {
    read_json(text.as_bytes()).unwrap()
}

fn phone_value(json: &Json) -> serde_json::Value {
    match json {
        Json::Null => serde_json::Value::Null,
        Json::Bool(b) => serde_json::Value::Bool(*b),
        Json::Number(JsonNumber::Unsigned(n)) => serde_json::Value::from(*n),
        Json::Number(JsonNumber::Negative(n)) => serde_json::Value::from(*n),
        Json::Number(JsonNumber::Single(bits)) => serde_json::Value::from(f32::from_bits(*bits)),
        Json::Number(JsonNumber::Double(bits)) => serde_json::Value::from(f64::from_bits(*bits)),
        Json::Text(s) => serde_json::Value::String(s.clone()),
        Json::List(items) => serde_json::Value::Array(items.iter().map(phone_value).collect()),
        Json::Table(fields) => serde_json::Value::Object(
            fields.iter().map(|f| (f.key.clone(), phone_value(&f.value))).collect(),
        ),
    }
}

fn phone_parsed(text: &str) -> serde_json::Value {
    serde_json::from_str(text).unwrap()
}

fn call(id: &str, method: &str, params: &str) -> MsgPackMessage {
    MsgPackMessage::Call {
        id: id.to_string(),
        method: method.to_string(),
        params: phone_doc(params),
    }
}

fn result(id: &str, doc: &str) -> MsgPackMessage {
    MsgPackMessage::Result { id: id.to_string(), result: phone_doc(doc) }
}

fn event(topic: &str, doc: &str) -> MsgPackMessage {
    MsgPackMessage::Event { topic: topic.to_string(), data: phone_doc(doc) }
}

fn reply_error(outcome: Outcome) -> String {
    match outcome {
        Outcome::Reply(MsgPackMessage::Error { error, .. }) => error,
        other => panic!("expected an error, got {other:?}"),
    }
}

#[test]
fn methods_are_keys_of_the_remote_control() {
    assert_eq!(method_to_hid_command("media.control.play"), Some(HidCommand::Play));
    assert_eq!(method_to_hid_command("media.control.volumeDown"), Some(HidCommand::VolumeDown));
    assert_eq!(method_to_hid_command("media.control.unheard"), None);
    assert_eq!(method_to_hid_command("play"), None);
}

#[test]
fn calls_are_answered_once() {
    let mut handler = MsgPackProtocolHandler::new(true);
    let mut calls = PendingCalls::new();
    let (outcome, effects) = handler.handle_msgpack_message(&mut calls, call("1", "ping", "{}"));
    assert!(effects.is_empty());
    match outcome {
        Outcome::Reply(MsgPackMessage::Result { id, result }) => {
            assert_eq!(id, "1");
            assert_eq!(phone_value(&result), phone_parsed(r#"{"pong":"hello from nocturne"}"#));
        }
        other => panic!("unexpected {other:?}"),
    }
    let (outcome, _) = handler.handle_msgpack_message(&mut calls, call("2", "device.info", "{}"));
    assert!(matches!(outcome, Outcome::ReportDevice { id } if id == "2"));
    let (outcome, _) = handler.handle_msgpack_message(&mut calls, call("3", "nope", "{}"));
    assert_eq!(reply_error(outcome), "Method not found: nope");
    handler.register_call_handler("nope".to_string(), CallHandler::Outside);
    let (outcome, _) = handler.handle_msgpack_message(&mut calls, call("3", "nope", "[1]"));
    assert!(matches!(outcome, Outcome::RunHandler { method, .. } if method == "nope"));
    let (outcome, effects) = handler.handle_msgpack_message(
        &mut calls,
        call("4", "device.volume.update", r#"{"volumePercent":-4}"#),
    );
    assert!(matches!(outcome, Outcome::Reply(MsgPackMessage::Result { .. })));
    match &effects[..] {
        [Effect::Broadcast { event, data }] => {
            assert_eq!(event, "phone.volume.update");
            assert_eq!(phone_value(data), phone_parsed(r#"{"volumePercent":-4}"#));
        }
        other => panic!("unexpected {other:?}"),
    }
}

#[test]
fn keys_are_sent_where_there_is_a_remote_control() {
    let mut handler = MsgPackProtocolHandler::new(false);
    let mut calls = PendingCalls::new();
    let (outcome, _) = handler.handle_msgpack_message(&mut calls, call("1", "media.control.next", "{}"));
    assert_eq!(reply_error(outcome), "hid_unavailable");
    let (outcome, _) = handler.handle_msgpack_message(&mut calls, call("1", "media.control.x", "{}"));
    assert_eq!(reply_error(outcome), "unknown_method: media.control.x");
    handler.set_hid_tx();
    let (outcome, _) = handler.handle_msgpack_message(&mut calls, call("1", "media.control.next", "{}"));
    assert!(matches!(outcome, Outcome::SendHid { command: HidCommand::Next, .. }));
    assert!(matches!(hid_reply("1".to_string(), None), MsgPackMessage::Result { .. }));
    assert!(matches!(
        hid_reply("1".to_string(), Some("x".to_string())),
        MsgPackMessage::Error { .. }
    ));
    assert!(matches!(
        handler_reply("1".to_string(), phone_doc("2")),
        MsgPackMessage::Result { id, .. } if id == "1"
    ));
}

#[test]
fn result_reaches_the_client_that_waits_once() {
    let mut handler = MsgPackProtocolHandler::with_image_cache(true);
    let mut calls = PendingCalls::new();
    handler.mark_as_websocket_message("7".to_string());
    handler.mark_as_image_request("7".to_string(), "url".to_string());
    handler.mark_method_for_message("7".to_string(), "device.time.get".to_string());
    let answer = r#"{"data":"pixels","datetime":"2026-01-01"}"#;
    let (outcome, effects) = handler.handle_msgpack_message(&mut calls, result("7", answer));
    assert!(matches!(outcome, Outcome::Done));
    match &effects[..] {
        [Effect::SetClock { datetime }, Effect::UntrackImageFetch { id }, Effect::CacheImage { url, image }, Effect::Respond { id: to, result }] =>
        {
            assert_eq!(datetime, "2026-01-01");
            assert_eq!((id.as_str(), to.as_str()), ("7", "7"));
            assert_eq!((url.as_str(), image.as_str()), ("url", "pixels"));
            assert_eq!(phone_value(result), phone_parsed(answer));
        }
        other => panic!("unexpected {other:?}"),
    }
    let (_, effects) = handler.handle_msgpack_message(&mut calls, result("7", answer));
    assert!(effects.is_empty());
}

#[test]
fn error_reaches_the_client_that_waits_once() {
    let mut handler = MsgPackProtocolHandler::new(true);
    let mut calls = PendingCalls::new();
    handler.mark_as_websocket_message("7".to_string());
    let error = || MsgPackMessage::Error { id: "7".to_string(), error: "bad".to_string() };
    let (_, effects) = handler.handle_msgpack_message(&mut calls, error());
    assert!(matches!(&effects[..], [Effect::RespondError { error, .. }] if error == "bad"));
    let (_, effects) = handler.handle_msgpack_message(&mut calls, error());
    assert!(effects.is_empty());
    handler.mark_as_websocket_message("8".to_string());
    let effects = handler.reject_undecodable(&phone_doc(r#"{"id":"8"}"#), "odd");
    assert!(matches!(
        &effects[..],
        [Effect::RespondError { error, .. }] if error == "MessagePack decode error: odd"
    ));
    assert!(handler.reject_undecodable(&phone_doc("{}"), "odd").is_empty());
}

#[test]
fn awaited_call_gets_its_result_once() {
    let mut handler = MsgPackProtocolHandler::new(true);
    let mut calls = PendingCalls::new();
    let message = call_with_id(&mut calls, "c", "m", phone_doc("{}"));
    assert!(matches!(message, MsgPackMessage::Call { id, method, .. } if id == "c" && method == "m"));
    let (_, effects) = handler.handle_msgpack_message(&mut calls, result("c", "1"));
    assert!(matches!(&effects[..], [Effect::CompleteCall { id, .. }] if id == "c"));
    let (_, effects) = handler.handle_msgpack_message(&mut calls, result("c", "1"));
    assert!(effects.is_empty());
    let (first, _) = call_method(&mut calls, "m", phone_doc("{}"));
    let (second, _) = call_method(&mut calls, "m", phone_doc("{}"));
    assert_ne!(first, second);
    assert!(calls.complete(&first));
    assert!(!calls.complete(&first));
    assert!(call_messages(None, "c", Vec::new()).is_err());
    let sent = call_messages(Some(4), "c", vec![Bytes::from_static(b"x")]).unwrap();
    assert_eq!((sent[0].session_id, sent[0].id.as_str()), (4, "c"));
}

#[test]
fn events_are_passed_on_to_the_clients() {
    let mut handler = MsgPackProtocolHandler::new(true);
    let mut calls = PendingCalls::new();
    assert!(!handler.app_ready_flag());
    let ready = event("app.ready", r#"{"datetime":"d"}"#);
    let (_, effects) = handler.handle_msgpack_message(&mut calls, ready);
    assert!(handler.app_ready_flag());
    assert!(matches!(
        &effects[..],
        [Effect::SetClock { datetime }, Effect::Broadcast { event, .. }]
            if datetime == "d" && event == "app.ready"
    ));
    let playing = event(
        "media.nowPlaying.update",
        r#"{"MediaItemAttributes":{"MediaItemArtist":"Someone • Lossless","x":1}}"#,
    );
    let (_, effects) = handler.handle_msgpack_message(&mut calls, playing);
    match &effects[..] {
        [Effect::Broadcast { data, .. }] => assert_eq!(
            phone_value(data),
            phone_parsed(r#"{"MediaItemAttributes":{"MediaItemArtist":"Someone","x":1}}"#)
        ),
        other => panic!("unexpected {other:?}"),
    }
    assert_eq!(cleaned_artist("Video Available • A • Video Available"), "A");
    let mut silent = MsgPackProtocolHandler::new(false);
    let (_, effects) = silent.handle_msgpack_message(&mut calls, event("x", "{}"));
    assert!(effects.is_empty());
}

#[test]
fn pushed_file_is_written_when_it_is_whole() {
    let mut handler = MsgPackProtocolHandler::new(true);
    let mut calls = PendingCalls::new();
    let chunk = |i: u64, data: &str| {
        event(
            "device.ota.chunk",
            &format!(r#"{{"chunk_index":{i},"total_chunks":2,"file_name":"f","data":"{data}"}}"#),
        )
    };
    let (_, effects) = handler.handle_msgpack_message(&mut calls, chunk(1, "Qg=="));
    assert!(matches!(&effects[..], [Effect::Broadcast { event, .. }] if event == "device.ota.progress"));
    let (_, effects) = handler.handle_msgpack_message(&mut calls, chunk(0, "QQ=="));
    let file = match &effects[..] {
        [Effect::WriteFile { name, file }, Effect::Broadcast { .. }] => {
            assert_eq!(name, "f");
            assert_eq!(file.path, "/tmp/f");
            assert_eq!(file.data, b"AB");
            file
        }
        other => panic!("unexpected {other:?}"),
    };
    let told = handler.file_written("f", file);
    assert!(matches!(&told[..], [Effect::Broadcast { .. }]));
    let (_, effects) = handler.handle_msgpack_message(
        &mut calls,
        event("device.ota.chunk", r#"{"chunk_index":0}"#),
    );
    assert!(matches!(
        &effects[..],
        [Effect::Fault { fault }, Effect::Broadcast { .. }] if fault.message() == "Missing total_chunks"
    ));
}

#[test]
fn file_messages_say_what_is_missing() {
    let mut files = OtaFiles::new();
    let mut fault = |doc: &str| files.handle_ota_chunk(&phone_doc(doc)).unwrap_err().message();
    assert_eq!(fault("{}"), "Missing chunk_index");
    assert_eq!(fault(r#"{"chunk_index":0}"#), "Missing total_chunks");
    assert_eq!(fault(r#"{"chunk_index":0,"total_chunks":1}"#), "Missing chunk data");
    assert!(fault(r#"{"chunk_index":0,"total_chunks":1,"data":"?"}"#)
        .starts_with("Failed to decode base64: "));
    let whole = handle_ota_download_result(&phone_doc(r#"{"data":"QUI="}"#)).unwrap();
    assert_eq!((whole.path.as_str(), &whole.data[..]), ("/tmp/nocturne-update.swu", &b"AB"[..]));
    assert_eq!(
        handle_ota_download_result(&phone_doc("{}")).unwrap_err().message(),
        "Missing file data"
    );
}

fn package(data: &[u8]) -> OtaPackageInfo {
    OtaPackageInfo {
        name: "n".to_string(),
        version: "v".to_string(),
        hash: compute_md5(data),
        size: data.len() as u64,
    }
}

#[test]
fn digest_is_in_small_hexadecimal() {
    assert_eq!(compute_md5(b""), "d41d8cd98f00b204e9800998ecf8427e");
    assert_eq!(compute_md5(b"abc"), "900150983cd24fb0d6963f7d28e17f72");
}

#[test]
fn package_is_downloaded_in_ranges() {
    let data: Vec<u8> = (0..4000u32).map(|i| (i % 256) as u8).collect();
    let mut download = OtaDownload::new(package(&data));
    assert_eq!(download.total_chunks(), 3);
    let mut asked = Vec::new();
    let mut percents = Vec::new();
    while let Some(params) = download.next_request() {
        let offset = params.get_u64("offset").unwrap() as usize;
        let size = params.get_u64("size").unwrap() as usize;
        asked.push((offset, size));
        let bytes: Vec<String> =
            data[offset..offset + size].iter().map(|b| b.to_string()).collect();
        let answer = phone_doc(&format!(r#"{{"data":[{}]}}"#, bytes.join(",")));
        let progress = download.accept(&answer).unwrap();
        percents.push(progress.get_u64("percent").unwrap());
    }
    assert_eq!(asked, vec![(0, 1800), (1800, 1800), (3600, 400)]);
    assert_eq!(percents, vec![0, 33, 66]);
    let file = download.verify().unwrap();
    assert_eq!(file.path, "/tmp/nocturne-update.swu");
    assert_eq!(file.data, data);
}

#[test]
fn download_says_what_is_wrong() {
    let mut download = OtaDownload::new(package(b"abc"));
    let mut fault = |doc: &str| download.accept(&phone_doc(doc)).unwrap_err().message();
    assert_eq!(fault("{}"), "Missing chunk data in response");
    assert_eq!(fault(r#"{"data":[1,"x"]}"#), "Invalid byte value in chunk data array");
    assert_eq!(fault(r#"{"data":5}"#), "Chunk data is neither array nor string");
    assert_eq!(fault(r#"{"data":[1]}"#), "Chunk size mismatch: expected 3, got 1");
    assert!(fault(r#"{"data":"?"}"#).starts_with("Failed to decode base64 chunk: "));
    assert_eq!(read_answer(&phone_doc(r#"{"data":"QUI="}"#)).unwrap(), b"AB");
    let mut download = OtaDownload::new(OtaPackageInfo { hash: "other".to_string(), ..package(b"abc") });
    download.accept(&phone_doc(r#"{"data":"YWJj"}"#)).unwrap();
    let (event, fault) = download.verify().unwrap_err();
    assert_eq!(event.get_str("actual"), Some("900150983cd24fb0d6963f7d28e17f72"));
    assert_eq!(fault.message(), "MD5 hash verification failed");
}

#[test]
fn announced_package_is_downloaded() {
    let state = |doc: &str| handle_package_state(&phone_doc(doc));
    assert_eq!(state("{}").unwrap_err().message(), "Missing state");
    assert!(state(r#"{"state":"downloading"}"#).unwrap().is_none());
    assert_eq!(state(r#"{"state":"download_success"}"#).unwrap_err().message(), "Missing version");
    let doc = r#"{"state":"download_success","version":"2","hash":"h","size":9}"#;
    let package = state(doc).unwrap().unwrap();
    assert_eq!((package.name.as_str(), package.size), ("nocturne-os", 9));
    let mut handler = MsgPackProtocolHandler::new(true);
    let mut calls = PendingCalls::new();
    let (_, effects) =
        handler.handle_msgpack_message(&mut calls, event("device.ota.package_state", doc));
    assert!(matches!(&effects[..], [Effect::StartDownload { package }] if package.version == "2"));
}

#[test]
fn damaged_chunks_are_asked_for_by_event() {
    let lost = vec![Retransmission { message_id: "m".to_string(), chunk_idx: 3 }];
    let handler = MsgPackProtocolHandler::new(true);
    match &handler.request_chunk_retransmission(&lost)[..] {
        [Effect::Broadcast { event, data }] => {
            assert_eq!(event, "chunk.retransmit_request");
            assert_eq!(phone_value(data), phone_parsed(r#"{"message_id":"m","chunk_idx":3}"#));
        }
        other => panic!("unexpected {other:?}"),
    }
    assert!(MsgPackProtocolHandler::new(false).request_chunk_retransmission(&lost).is_empty());
}

#[test]
fn answers_are_framed_and_routed() {
    let mut handler = MsgPackProtocolHandler::new(true);
    let answer = handler.frame_response("r", b"small").unwrap();
    assert_eq!((answer.id.as_str(), answer.protocol.as_str()), ("r", "com.usenocturne.daemon"));
    assert_eq!(&answer.data[47..], b"small");
    assert!(handler.frame_response("r", &[0u8; 2001]).is_none());
    assert!(response_of("r", Vec::new()).is_none());
    let message = |id: &str| handler.create_response(id.to_string(), Bytes::from_static(b"x"));
    let (first, rest) = handler.route_responses(9, vec![message("a"), message("b")]);
    assert_eq!(first.unwrap().id, "a");
    assert!(rest.is_empty());
    let responses = vec![message("a"), message("b")];
    handler.set_session_info(5);
    assert_eq!(handler.call_session(), Some(5));
    let (first, rest) = handler.route_responses(9, responses);
    assert_eq!(first.unwrap().id, "a");
    assert_eq!((rest[0].id.as_str(), rest[0].session_id), ("b", 9));
    let back = answer_to_session(answer, 3);
    assert_eq!(back.session_id, 3);
}

#[test]
fn sessions_lead_to_the_handler_of_their_protocol() {
    let mut manager = AppCommunicationManager::new();
    assert_eq!(manager.app_ready_flag(), None);
    assert!(manager.handle_incoming_data(1, Bytes::from_static(b"x")).is_none());
    let handler = MsgPackProtocolHandler::new(false);
    manager.register_handler(AppProtocolHandlerEnum::MsgPack(Box::new(handler)));
    assert_eq!(manager.app_ready_flag(), Some(false));
    manager.create_session(1, "com.usenocturne.daemon".to_string());
    manager.create_session(2, "other".to_string());
    assert!(manager.handle_incoming_data(2, Bytes::from_static(b"x")).is_none());
    let chunks = MsgPackProtocolHandler::create_chunks(b"whole").unwrap();
    let message = manager.handle_incoming_data(1, chunks[0].clone()).unwrap();
    assert_eq!((message.session_id, message.protocol.as_str()), (1, "com.usenocturne.daemon"));
    assert_eq!(message.id.len(), 36);
    let handler = manager.get_handler_mut("com.usenocturne.daemon").unwrap();
    assert_eq!(handler.protocol_name(), "com.usenocturne.daemon");
    match handler.handle_message(&message) {
        Ok(Handled::Arrived(arrived)) => assert_eq!(&arrived.completed[0][..], b"whole"),
        _ => panic!("nothing arrived"),
    }
    assert_eq!(handler.as_msgpack_mut().unwrap().call_session(), Some(1));
    assert!(manager.get_handler_mut("other").is_none());
    let message = manager
        .incoming_with_id(1, Bytes::from_static(b"x"), "given".to_string())
        .unwrap();
    assert_eq!(message.id, "given");
    let message = AppMessage { protocol: "p".to_string(), ..message };
    assert_eq!(message.protocol, "p");
}

#[test]
fn messagepack_of_any_shape_is_a_document() {
    let value = rmpv::Value::Map(vec![
        (rmpv::Value::from("n"), rmpv::Value::Nil),
        (rmpv::Value::from("b"), rmpv::Value::Boolean(true)),
        (rmpv::Value::from("u"), rmpv::Value::from(u64::MAX)),
        (rmpv::Value::from("i"), rmpv::Value::from(-5)),
        (rmpv::Value::from("f"), rmpv::Value::F32(0.5)),
        (rmpv::Value::from("d"), rmpv::Value::F64(0.25)),
        (rmpv::Value::from("x"), rmpv::Value::F64(f64::NAN)),
        (rmpv::Value::from("y"), rmpv::Value::F32(f32::INFINITY)),
        (rmpv::Value::from("bin"), rmpv::Value::Binary(vec![1, 2])),
        (rmpv::Value::from("list"), rmpv::Value::Array(vec![rmpv::Value::from("t")])),
        (rmpv::Value::from("ext"), rmpv::Value::Ext(1, vec![0])),
        (rmpv::Value::from(7), rmpv::Value::from("dropped")),
    ]);
    let mut data = Vec::new();
    rmpv::encode::write_value(&mut data, &value).unwrap();
    data.extend_from_slice(b"trailing");
    assert_eq!(
        phone_value(&read_document(&data).unwrap()),
        phone_parsed(
            r#"{"n":null,"b":true,"u":18446744073709551615,"i":-5,"f":0.5,"d":0.25,"x":null,"y":null,
            "bin":[1,2],"list":["t"],"ext":null}"#
        )
    );
    assert!(read_document(&[]).is_none());
    assert!(read_document(&[0xa5, b'x']).is_none());
}

#[test]
fn json_text_is_a_document() {
    let text = r#"{"a":[1,-2,0.5,null,true,"x"],"b":{}}"#;
    assert_eq!(phone_value(&phone_doc(text)), phone_parsed(text));
    let fault = serde_json::from_slice::<serde_json::Value>(b"[1,").unwrap_err().to_string();
    assert_eq!(read_json(b"[1,").unwrap_err().message(), fault);
}
