use bytes::Bytes;
use nocturned::ab::ABData;
use nocturned::app::value::read_json;
use nocturned::app::websocket_handler::{forwarded, is_passed_on, RequestAction, WebSocketProtocolHandler};
use nocturned::app::AppMessage;
use nocturned::audio::AudioCommand;
use nocturned::brightness::BrightnessConfig;
use nocturned::error::NocturnedError;
use nocturned::json::{Json, JsonNumber};
use nocturned::wakeword::WakeWordCommand;
use nocturned::websocket::{
    brightness_reply, change_slots, command_reply, device_list_reply, factory_reset,
    is_written_back, manager_message, slots_reply, unreadable_reply, update_status, version_reply,
    AbChange, AfterReset, CommandOutcome, KnownDevice, ResetStep, ServerAction, SystemCommand,
    WebSocketMessage, WebSocketServer,
};
fn client_doc(text: &str) -> Json {
    read_json(text.as_bytes()).unwrap()
}

fn client_value(json: &Json) -> serde_json::Value {
    match json {
        Json::Null => serde_json::Value::Null,
        Json::Bool(b) => serde_json::Value::Bool(*b),
        Json::Number(JsonNumber::Unsigned(n)) => serde_json::Value::from(*n),
        Json::Number(JsonNumber::Negative(n)) => serde_json::Value::from(*n),
        Json::Number(JsonNumber::Single(bits)) => serde_json::Value::from(f32::from_bits(*bits)),
        Json::Number(JsonNumber::Double(bits)) => serde_json::Value::from(f64::from_bits(*bits)),
        Json::Text(s) => serde_json::Value::String(s.clone()),
        Json::List(items) => serde_json::Value::Array(items.iter().map(client_value).collect()),
        Json::Table(fields) => serde_json::Value::Object(
            fields.iter().map(|f| (f.key.clone(), client_value(&f.value))).collect(),
        ),
    }
}

fn client_parsed(text: &str) -> serde_json::Value {
    serde_json::from_str(text).unwrap()
}

fn ask(server: &mut WebSocketServer, method: &str, params: &str) -> Vec<ServerAction> {
    server.handle_incoming_message(WebSocketMessage::Request {
        id: "7".to_string(),
        method: method.to_string(),
        params: client_doc(params),
    })
}

fn event_of(message: &WebSocketMessage) -> (String, serde_json::Value) {
    match message {
        WebSocketMessage::Event { topic, data, .. } => (topic.clone(), client_value(data)),
        other => panic!("expected an event, got {other:?}"),
    }
}

fn result_of(message: &WebSocketMessage) -> serde_json::Value {
    match message {
        WebSocketMessage::Response { id, result } => {
            assert_eq!(id, "7");
            client_value(result)
        }
        other => panic!("expected a response, got {other:?}"),
    }
}

fn fault_of(message: &WebSocketMessage) -> String {
    match message {
        WebSocketMessage::Error { id, error } => {
            assert_eq!(id, "7");
            error.clone()
        }
        other => panic!("expected an error, got {other:?}"),
    }
}

#[test]
fn new_client_is_told_what_the_app_said_last() {
    let mut server = WebSocketServer::new();
    assert!(server.greeting().is_empty());
    assert!(!server.has_ready_app_session());
    let data = client_doc(r#"{"subscribed":false,"other":1}"#);
    let event = server.broadcast_event("app.ready".to_string(), data);
    assert_eq!(event_of(&event).0, "app.ready");
    assert!(server.has_ready_app_session());
    server.broadcast_event(
        "subscription.updated".to_string(),
        client_doc(r#"{"subscribed":true,"hasLifetime":true,"unrelated":3}"#),
    );
    server.update_last_wakeword_state(true);
    let greeting = server.greeting();
    assert_eq!(greeting.len(), 2);
    assert_eq!(
        event_of(&greeting[0]),
        (
            "app.ready".to_string(),
            client_parsed(r#"{"subscribed":true,"other":1,"hasLifetime":true}"#)
        )
    );
    assert_eq!(
        event_of(&greeting[1]),
        ("voice.wakeword.state".to_string(), client_parsed(r#"{"muted":true}"#))
    );
    server.clear_app_ready();
    assert!(!server.has_ready_app_session());
    assert_eq!(server.greeting().len(), 1);
}

#[test]
fn player_of_the_phone_is_followed() {
    let mut server = WebSocketServer::new();
    assert!(!server.is_playback_active());
    let mut tell = |topic: &str, data: &str| {
        server.broadcast_event(topic.to_string(), client_doc(data));
        server.is_playback_active()
    };
    let playing = r#"{"PlaybackAttributes":{"PlaybackStatus":"playing"}}"#;
    assert!(!tell("media.other", playing));
    assert!(tell("media.nowPlaying.update", playing));
    assert!(tell("media.nowPlaying.update", r#"{"MediaItemAttributes":{}}"#));
    assert!(!tell("media.nowPlaying.update", r#"{"PlaybackAttributes":{"PlaybackStatus":"paused"}}"#));
}

#[test]
fn event_that_nothing_can_take_in_is_seen_before() {
    let mut server = WebSocketServer::new();
    server.broadcast_event("app.ready".to_string(), client_doc("5"));
    assert!(!server.accepts_event("subscription.updated", &client_doc(r#"{"subscribed":true}"#)));
    assert!(server.accepts_event("subscription.updated", &client_doc(r#"{"x":true}"#)));
    assert!(server.accepts_event("anything", &client_doc("1")));
}

#[test]
fn images_that_the_phone_was_asked_for_are_given_up() {
    let mut server = WebSocketServer::new();
    server.track_image_fetch("a".to_string());
    server.track_image_fetch("b".to_string());
    server.track_image_fetch("a".to_string());
    server.untrack_image_fetch("b");
    let messages = server.cancel_all_pending_image_fetches();
    assert_eq!(messages.len(), 1);
    match &messages[0] {
        WebSocketMessage::Response { id, result } => {
            assert_eq!(id, "a");
            assert_eq!(
                client_value(result),
                client_parsed(r#"{"cancelled":true,"reason":"artwork_event_received"}"#)
            );
        }
        other => panic!("unexpected {other:?}"),
    }
    assert!(server.cancel_all_pending_image_fetches().is_empty());
}

#[test]
fn image_is_looked_up_or_asked_for() {
    let mut server = WebSocketServer::new();
    let actions = ask(&mut server, "spotify.image.fetch", r#"{"url":"u"}"#);
    assert!(matches!(&actions[..], [ServerAction::LookUpImage { url, .. }] if url == "u"));
    assert!(server.cancel_all_pending_image_fetches().is_empty());
    let found = server.image_looked_up(
        "7".to_string(),
        "u",
        client_doc(r#"{"url":"u"}"#),
        Some("pixels".to_string()),
    );
    match &found[..] {
        [ServerAction::Send(message)] => {
            let result = result_of(message);
            assert_eq!(result["data"], "pixels");
        }
        other => panic!("unexpected {other:?}"),
    }
    let missed = server.image_looked_up("7".to_string(), "u", client_doc(r#"{"url":"u"}"#), None);
    assert!(matches!(&missed[..], [ServerAction::ToManager { .. }]));
    assert_eq!(server.cancel_all_pending_image_fetches().len(), 1);
    let actions = ask(&mut server, "spotify.image.fetch", "{}");
    assert!(matches!(&actions[..], [ServerAction::ToManager { .. }]));
    assert_eq!(server.cancel_all_pending_image_fetches().len(), 1);
}

#[test]
fn requests_are_answered_run_or_handed_on() {
    let mut server = WebSocketServer::new();
    let s = &mut server;
    assert!(matches!(
        &ask(s, "device.ab.get", "{}")[..],
        [ServerAction::ChangeSlots { change: AbChange::Get, .. }]
    ));
    assert!(matches!(
        &ask(s, "device.ab.failover", "{}")[..],
        [ServerAction::ChangeSlots { change: AbChange::Failover, .. }]
    ));
    assert!(matches!(
        &ask(s, "device.brightness.set", r#"{"brightness":258}"#)[..],
        [ServerAction::SetBrightness { value: 2, .. }]
    ));
    match &ask(s, "device.brightness.set", "{}")[..] {
        [ServerAction::Send(message)] => {
            assert_eq!(fault_of(message), "missing brightness parameter")
        }
        other => panic!("unexpected {other:?}"),
    }
    assert!(matches!(
        &ask(s, "device.brightness.auto", "{}")[..],
        [ServerAction::SetAutoBrightness { enabled: true, .. }]
    ));
    assert!(matches!(&ask(s, "device.version", "{}")[..], [ServerAction::ReportVersion { .. }]));
    assert!(matches!(&ask(s, "device.info", "{}")[..], [ServerAction::ReportDevice { .. }]));
    assert!(matches!(
        &ask(s, "device.power.reboot", "{}")[..],
        [ServerAction::RunCommand { command: SystemCommand::Reboot, .. }]
    ));
    assert!(matches!(&ask(s, "device.factoryreset", "{}")[..], [ServerAction::FactoryReset { .. }]));
    match &ask(s, "device.ota.apply", "{}")[..] {
        [ServerAction::ApplyUpdate { file_path }, ServerAction::Send(message)] => {
            assert_eq!(file_path, "/tmp/nocturne-update.swu");
            assert_eq!(
                result_of(message),
                client_parsed(r#"{"current":"in_progress","ota":"started"}"#)
            );
        }
        other => panic!("unexpected {other:?}"),
    }
    match &ask(s, "bluetooth.device.forget", r#"{"address":"x"}"#)[..] {
        [ServerAction::ToManager { id, protocol, request }] => {
            assert_eq!((id.as_str(), protocol.as_str()), ("7", "bluetooth.control"));
            assert_eq!(
                client_value(request),
                client_parsed(r#"{"method":"bluetooth.device.forget","params":{"address":"x"}}"#)
            );
        }
        other => panic!("unexpected {other:?}"),
    }
    match &ask(s, "spotify.player.play", r#"{"uri":"u"}"#)[..] {
        [ServerAction::ToManager { protocol, .. }] => assert_ne!(protocol, "bluetooth.control"),
        other => panic!("unexpected {other:?}"),
    }
    assert!(s
        .handle_incoming_message(WebSocketMessage::Response {
            id: "7".to_string(),
            result: client_doc("{}"),
        })
        .is_empty());
}

#[test]
fn device_is_seen_unless_told_otherwise() {
    let mut server = WebSocketServer::new();
    for (params, expected) in [
        ("{}", true),
        (r#"{"discoverable":false}"#, false),
        (r#"{"discoverable":"OFF"}"#, false),
        (r#"{"discoverable":"No"}"#, false),
        (r#"{"discoverable":"0"}"#, false),
        (r#"{"discoverable":"yes"}"#, true),
        (r#"{"discoverable":0}"#, true),
    ] {
        match &ask(&mut server, "bluetooth.discoverable", params)[..] {
            [ServerAction::SetDiscoverable { discoverable }, ServerAction::Send(message), ServerAction::Broadcast { topic, data }] =>
            {
                assert_eq!(*discoverable, expected);
                assert_eq!(result_of(message)["discoverable"], expected);
                assert_eq!(topic, "bluetooth.discoverable");
                assert_eq!(client_value(data)["discoverable"], expected);
            }
            other => panic!("unexpected {other:?}"),
        }
    }
}

#[test]
fn words_are_the_same_in_all_capitals_and_no_others() {
    for word in ["false", "0", "no", "off"] {
        for code in 0..=0x10FFFFu32 {
            if let Some(c) = char::from_u32(code) {
                if c.is_ascii() {
                    continue;
                }
                let lower: String = c.to_lowercase().collect();
                assert!(!word.contains(lower.as_str()), "{c} would be read as part of {word}");
            }
        }
    }
}

#[test]
fn slots_change_as_asked_and_are_shown() {
    let mut data = ABData::default();
    change_slots(&mut data, AbChange::Reset);
    assert_eq!(data.get_active_slot(), 0);
    change_slots(&mut data, AbChange::SetSlot(1));
    assert_eq!(data.get_active_slot(), 1);
    change_slots(&mut data, AbChange::BootResult(true));
    assert_eq!(data.slots[1].successful_boot, 1);
    change_slots(&mut data, AbChange::BootResult(false));
    assert_eq!(data.get_active_slot(), 0);
    change_slots(&mut data, AbChange::Failover);
    assert_eq!(data.get_active_slot(), 1);
    assert!(!is_written_back(AbChange::Get));
    assert!(is_written_back(AbChange::Failover));
    let shown = result_of(&slots_reply("7".to_string(), &Ok(data)));
    assert_eq!(shown["active_slot"], 1);
    assert_eq!(shown["active_slot_letter"], "B");
    assert_eq!(shown["slots"][1]["priority"], 15);
    assert!(shown["slots"][1].get("reserved").is_none());
    let fault = Err(NocturnedError::General("invalid AB data".to_string()));
    assert_eq!(fault_of(&slots_reply("7".to_string(), &fault)), "invalid AB data");
}

#[test]
fn brightness_is_shown_or_its_failure() {
    let config = BrightnessConfig { auto: false, brightness: 9 };
    assert_eq!(
        result_of(&brightness_reply("7".to_string(), &Ok(config))),
        client_parsed(r#"{"auto":false,"brightness":9}"#)
    );
    let fault = Err(NocturnedError::Io("no file".to_string()));
    assert_eq!(fault_of(&brightness_reply("7".to_string(), &fault)), "no file");
}

fn known(address: Option<&str>, name: Option<&str>, alias: Option<&str>, paired: Option<u64>) -> KnownDevice {
    KnownDevice {
        address: address.map(str::to_string),
        name: name.map(str::to_string),
        alias: alias.map(str::to_string),
        paired,
        blocked: None,
        connected: Some(1),
        trusted: Some(0),
    }
}

#[test]
fn paired_devices_are_listed() {
    let devices = vec![
        known(Some("A"), Some("Phone"), Some("Alias"), Some(1)),
        known(Some("B"), None, None, Some(0)),
        known(None, None, Some("Alias"), Some(1)),
        known(Some("C"), None, None, Some(2)),
    ];
    let shown = result_of(&device_list_reply("7".to_string(), &Ok(devices)));
    assert_eq!(shown["type"], "bluetooth_device_list");
    assert_eq!(
        shown["payload"],
        client_parsed(
            r#"[
            {"address":"A","blocked":false,"default":false,"connected":true,"device_info":{"name":"Phone"}},
            {"address":"unknown","blocked":false,"default":false,"connected":true,"device_info":{"name":"Alias"}},
            {"address":"C","blocked":false,"default":false,"connected":true,"device_info":{"name":"Unknown Device"}}
        ]"#
        )
    );
    let fault = Err("no bus".to_string());
    assert_eq!(fault_of(&device_list_reply("7".to_string(), &fault)), "no bus");
}

#[test]
fn firmware_is_shown_or_why_not() {
    let shown = |content: Result<&str, &str>| {
        let content = content.map(str::to_string).map_err(str::to_string);
        result_of(&version_reply("7".to_string(), &content))
    };
    assert_eq!(shown(Ok(r#"{"version":"1"}"#)), client_parsed(r#"{"version":"1"}"#));
    assert_eq!(shown(Err("gone"))["error"], "Failed to read version.json: gone");
    let fault = serde_json::from_str::<serde_json::Value>("{").unwrap_err();
    assert_eq!(shown(Ok("{"))["error"], format!("Failed to parse version.json: {fault}"));
}

fn ran(success: bool, stdout: &str, stderr: &str) -> CommandOutcome {
    CommandOutcome::Ran { success, stdout: stdout.to_string(), stderr: stderr.to_string() }
}

#[test]
fn update_is_reported() {
    let (topic, data) = event_of(&update_status(&ran(true, "fine", ""), 5));
    assert_eq!(topic, "device.ota.status");
    assert_eq!(data["current"], "finished");
    let good = data["ota"].clone();
    for outcome in [
        ran(false, "", ""),
        ran(true, "x Swupdate *failed* ! y", ""),
        ran(true, "Installation failed !", ""),
        ran(true, "", "ERROR: x"),
        CommandOutcome::NotRun { error: "e".to_string() },
    ] {
        assert_ne!(event_of(&update_status(&outcome, 5)).1["ota"], good);
    }
}

#[test]
fn commands_are_answered() {
    let good = result_of(&command_reply("7".to_string(), &ran(true, "", "")));
    let bad = result_of(&command_reply("7".to_string(), &ran(false, "", "why")));
    let none = result_of(&command_reply(
        "7".to_string(),
        &CommandOutcome::NotRun { error: "no program".to_string() },
    ));
    assert_eq!(good["success"], true);
    assert_eq!((bad["success"].clone(), bad["error"].clone()), (false.into(), "why".into()));
    assert_eq!(none["error"], "no program");
}

#[test]
fn factory_reset_goes_step_by_step_and_stops_at_a_failure() {
    assert!(matches!(
        factory_reset(ResetStep::SetFirstboot, &ran(true, "", "")),
        AfterReset::Step(ResetStep::Sync)
    ));
    assert!(matches!(
        factory_reset(ResetStep::Sync, &ran(true, "", "")),
        AfterReset::Step(ResetStep::Reboot)
    ));
    match factory_reset(ResetStep::Reboot, &ran(true, "", "")) {
        AfterReset::Answer(json) => assert_eq!(client_value(&json)["success"], true),
        other => panic!("unexpected {other:?}"),
    }
    match factory_reset(ResetStep::Sync, &ran(false, "", "disk")) {
        AfterReset::Answer(json) => {
            assert_eq!(client_value(&json)["error"], "Failed to sync filesystem: disk")
        }
        other => panic!("unexpected {other:?}"),
    }
    let none = CommandOutcome::NotRun { error: "x".to_string() };
    match factory_reset(ResetStep::SetFirstboot, &none) {
        AfterReset::Answer(json) => {
            assert_eq!(client_value(&json)["error"], "Failed to execute uenv: x")
        }
        other => panic!("unexpected {other:?}"),
    }
}

#[test]
fn answers_and_messages_are_framed() {
    let server = WebSocketServer::new();
    assert_eq!(
        result_of(&server.send_response("7".to_string(), client_doc("[1]"))),
        client_parsed("[1]")
    );
    assert_eq!(fault_of(&server.send_error("7".to_string(), "e".to_string())), "e");
    match unreadable_reply("bad") {
        WebSocketMessage::Error { id, error } => {
            assert_eq!((id.as_str(), error.as_str()), ("unknown", "bad"))
        }
        other => panic!("unexpected {other:?}"),
    }
    let message = manager_message("7".to_string(), "p".to_string(), Bytes::from_static(b"x"));
    assert_eq!((message.session_id, &message.data[..]), (1, &b"x"[..]));
}

#[test]
fn requests_of_clients_are_handled_for_the_phone() {
    let mut handler = WebSocketProtocolHandler::new_with_cache(true);
    let message = |data: &str| AppMessage {
        id: "7".to_string(),
        protocol: "websocket.message".to_string(),
        session_id: 1,
        data: Bytes::from(data.as_bytes().to_vec()),
    };
    assert_eq!(handler.protocol_name(), "websocket.message");
    let start = message(r#"{"method":"audio.record.start"}"#);
    assert!(matches!(
        &handler.handle_message(&start).unwrap()[..],
        [RequestAction::Respond { .. }]
    ));
    handler.set_audio_cmd_tx();
    handler.set_wakeword_pause_tx();
    assert!(matches!(
        &handler.handle_message(&start).unwrap()[..],
        [RequestAction::Record(AudioCommand::Start), RequestAction::Respond { .. }]
    ));
    assert!(matches!(
        &handler.handle_message(&message(r#"{"method":"wakeword.pause"}"#)).unwrap()[..],
        [
            RequestAction::WakeWord(WakeWordCommand::Pause { ack: false, persist: true }),
            RequestAction::Respond { .. }
        ]
    ));
    match &handler.handle_message(&message(r#"{"method":"nonsense"}"#)).unwrap()[..] {
        [RequestAction::Respond { result, .. }] => {
            assert_eq!(client_value(result)["error"], "Unknown method: nonsense")
        }
        other => panic!("unexpected {other:?}"),
    }
    assert!(matches!(handler.handle_message(&message("{")), Err(NocturnedError::Json(_))));
    assert!(handler.handle_message(&message("{}")).unwrap().is_empty());
    let found = handler.image_looked_up("7", "u", client_doc("{}"), Some("data".to_string()));
    match &found[..] {
        [RequestAction::Respond { result, .. }] => assert_eq!(
            client_value(result),
            client_parsed(r#"{"url":"u","data":"data","contentType":"image/jpeg"}"#)
        ),
        other => panic!("unexpected {other:?}"),
    }
    let missed = handler.image_looked_up("7", "u", client_doc("{}"), None);
    assert!(matches!(&missed[..], [RequestAction::Forward { .. }]));
    assert!(is_passed_on("spotify.auth.getStatus") && is_passed_on("spotify.album.tracks"));
    assert!(!is_passed_on("nonsense"));
    let sent = forwarded(&start, Bytes::from_static(b"bytes"));
    assert_eq!(sent.id, "7");
    assert_eq!(&sent.data[..], b"bytes");
}
