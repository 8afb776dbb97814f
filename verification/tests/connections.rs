use bytes::Bytes;
use nocturned::address::DeviceAddress;
use nocturned::app::hid_mapping::HidCommand;
use nocturned::app::msgpack::{MsgPackMessage, MsgPackProtocolHandler, PendingCalls};
use nocturned::app::value::read_json;
use nocturned::app::AppMessage;
use nocturned::audio::{AudioCommand, AudioEvent};
use nocturned::bluetooth::{
    connect_reply, create_sdp_record_xml, create_spp_record_xml, departure_reply, disconnect_fault,
    disconnect_target, name_to_show, removal_targets, BluetoothDaemon, ConnectionOutcome,
    DaemonAction, DeviceChange, ManagedObject,
};
use nocturned::bluetooth_agent::{handle_agent_call, AgentCall, AgentReply, DeviceAbout};
use nocturned::effect::ClientEffect;
use nocturned::error::NocturnedError;
use nocturned::iap2_wrapper::{
    build_device_identification, device_reply, media_item_attributes, no_session_reply,
    playback_attributes, ConnectionEvent, HidFunction, Iap2Connection, Iap2Link, MediaUpdate,
    NowPlayingState, NowPlayingUpdate, PhoneRoute, PlaybackUpdate, DAEMON_READY_INTERVAL,
    HEARTBEAT_INTERVAL,
};
use nocturned::json::{Json, JsonNumber};
use nocturned::wakeword::WakeWordCommand;
fn link_doc(text: &str) -> Json {
    read_json(text.as_bytes()).unwrap()
}

fn link_value(json: &Json) -> serde_json::Value {
    match json {
        Json::Null => serde_json::Value::Null,
        Json::Bool(b) => serde_json::Value::Bool(*b),
        Json::Number(JsonNumber::Unsigned(n)) => serde_json::Value::from(*n),
        Json::Number(JsonNumber::Negative(n)) => serde_json::Value::from(*n),
        Json::Number(JsonNumber::Single(bits)) => serde_json::Value::from(f32::from_bits(*bits)),
        Json::Number(JsonNumber::Double(bits)) => serde_json::Value::from(f64::from_bits(*bits)),
        Json::Text(s) => serde_json::Value::String(s.clone()),
        Json::List(items) => serde_json::Value::Array(items.iter().map(link_value).collect()),
        Json::Table(fields) => serde_json::Value::Object(
            fields.iter().map(|f| (f.key.clone(), link_value(&f.value))).collect(),
        ),
    }
}

fn link_parsed(text: &str) -> serde_json::Value {
    serde_json::from_str(text).unwrap()
}

const PHONE: DeviceAddress = DeviceAddress(0xAA, 0xBB, 0xCC, 0x00, 0x1F, 0x09);
const OTHER: DeviceAddress = DeviceAddress(1, 2, 3, 4, 5, 6);

fn told(effects: &[ClientEffect]) -> Vec<(String, serde_json::Value)> {
    effects
        .iter()
        .map(|e| match e {
            ClientEffect::Broadcast { topic, data } => (topic.clone(), link_value(data)),
            ClientEffect::Respond { id, result } => (format!("to {id}"), link_value(result)),
            ClientEffect::RespondError { id, error } => {
                (format!("fault to {id}"), serde_json::Value::from(error.as_str()))
            }
            ClientEffect::CancelImageFetches => ("cancel".to_string(), serde_json::Value::Null),
            ClientEffect::ClearAppReady => ("clear".to_string(), serde_json::Value::Null),
        })
        .collect()
}

fn one(topic: &str, doc: &str) -> Vec<(String, serde_json::Value)> {
    vec![(topic.to_string(), link_parsed(doc))]
}

fn request(protocol: &str, data: &str) -> AppMessage {
    AppMessage {
        id: "7".to_string(),
        protocol: protocol.to_string(),
        session_id: 1,
        data: Bytes::from(data.as_bytes().to_vec()),
    }
}

#[test]
fn address_is_written_and_read() {
    assert_eq!(PHONE.to_text(), "AA:BB:CC:00:1F:09");
    assert_eq!(DeviceAddress::parse("aa:bb:cc:00:1f:09"), Some(PHONE));
    assert_eq!(DeviceAddress::parse(&OTHER.to_text()), Some(OTHER));
    assert_eq!(DeviceAddress::parse("1:+2:003:4:5:fF"), Some(DeviceAddress(1, 2, 3, 4, 5, 255)));
    for bad in ["", "AA:BB:CC:00:1F", "AA:BB:CC:00:1F:09:11", "AA:BB:CC:00:1F:GG", "100:0:0:0:0:0", "1:2:3:4:5:", "1:2:3:4:5:+", "1:2:3:4:5:-6", "1:2:3:4:5: 6"] {
        assert_eq!(DeviceAddress::parse(bad), None);
    }
    for b in 0..=255u8 {
        let a = DeviceAddress(b, 0, 0, 0, 0, b);
        assert_eq!(a.to_text(), format!("{b:02X}:00:00:00:00:{b:02X}"));
    }
}

fn update(title: Option<&str>, status: Option<&str>) -> NowPlayingUpdate {
    NowPlayingUpdate {
        media_item: Some(MediaUpdate {
            title: title.map(str::to_string),
            artist: title.map(|_| "B • Lossless".to_string()),
            album: None,
            duration_ms: title.map(|_| 1000),
        }),
        playback: status.map(|s| PlaybackUpdate {
            status: Some(s.to_string()),
            elapsed_ms: None,
            shuffle_mode: None,
            repeat_mode: None,
            app_name: None,
        }),
    }
}

#[test]
fn what_plays_is_gathered_and_forgotten_at_a_stop() {
    let mut state = NowPlayingState::new();
    assert_eq!(link_value(&state.to_json()), link_parsed("{}"));
    state.update(&update(Some("A"), Some("playing")));
    state.update(&update(None, None));
    assert_eq!(
        link_value(&state.to_json()),
        link_parsed(
            r#"{"MediaItemAttributes":{"MediaItemTitle":"A","MediaItemArtist":"B","MediaItemDuration":1000},
            "PlaybackAttributes":{"PlaybackStatus":"playing"}}"#
        )
    );
    state.update(&update(None, Some("stopped")));
    assert_eq!(
        link_value(&state.to_json()),
        link_parsed(r#"{"PlaybackAttributes":{"PlaybackStatus":"stopped"}}"#)
    );
    state.clear();
    assert_eq!(link_value(&state.to_json()), link_parsed("{}"));
}

#[test]
fn what_the_phone_tells_reaches_the_clients() {
    let mut link = Iap2Link::new(PHONE, true, 0);
    assert_eq!(
        told(&link.on_event(&ConnectionEvent::AuthenticationStarted)),
        one("bluetooth.mfi", r#"{"event":"authentication_started","device":"AA:BB:CC:00:1F:09"}"#)
    );
    assert_eq!(
        told(&link.on_event(&ConnectionEvent::AuthenticationFailed { reason: "r".to_string() })),
        one(
            "bluetooth.mfi",
            r#"{"event":"authentication_failed","device":"AA:BB:CC:00:1F:09","reason":"r"}"#
        )
    );
    assert!(link.on_event(&ConnectionEvent::LinkEstablished).is_empty());
    let image = told(&link.on_event(&ConnectionEvent::FileTransferComplete { data: vec![0xAA, 0xBB, 0xCC, 0xDD] }));
    assert_eq!(image[0].0, "cancel");
    assert_eq!(
        image[1],
        (
            "media.nowPlaying.artwork".to_string(),
            link_parsed(r#"{"data":"qrvM3Q==","contentType":"image/jpeg"}"#)
        )
    );
    assert_eq!(
        told(&link.on_event(&ConnectionEvent::FileTransferCorrupted { transfer_id: 9 })),
        one("media.nowPlaying.artwork.failed", r#"{"transfer_id":9}"#)
    );
    let playing = ConnectionEvent::NowPlayingUpdate { update: update(Some("A"), None) };
    assert_eq!(told(&link.on_event(&playing))[0].0, "media.nowPlaying.update");
    assert!(link.running);
    assert!(link.on_event(&ConnectionEvent::Disconnected).is_empty());
    assert!(!link.running);
    let mut alone = Iap2Link::new(PHONE, false, 0);
    assert!(alone.on_event(&playing).is_empty());
    assert_eq!(alone.now_playing.title.as_deref(), Some("A"));
    alone.on_events_closed();
    assert!(!alone.running);
}

fn topic_of(message: &MsgPackMessage) -> String {
    match message {
        MsgPackMessage::Event { topic, .. } => topic.clone(),
        other => panic!("expected an event, got {other:?}"),
    }
}

#[test]
fn app_is_told_that_the_daemon_is_there_until_it_answers() {
    let mut link = Iap2Link::new(PHONE, true, 0);
    assert!(!link.on_answer());
    let (ready, beat) = link.on_tick(DAEMON_READY_INTERVAL, 1);
    assert!(ready.is_none() && beat.is_none());
    let sent = link.on_session(4, "com.usenocturne.daemon".to_string(), 100);
    assert_eq!((sent.session_id, topic_of(&sent.message).as_str()), (4, "daemon.ready"));
    assert!(link.on_answer());
    assert!(link.on_tick(100 + DAEMON_READY_INTERVAL - 1, 1).0.is_none());
    assert_eq!(link.on_tick(100 + DAEMON_READY_INTERVAL, 1).0.unwrap().session_id, 4);
    let (ready, beat) = link.on_tick(HEARTBEAT_INTERVAL, 77);
    assert!(ready.is_some());
    match beat.unwrap().message {
        MsgPackMessage::Event { topic, data } => {
            assert_eq!(topic, "daemon.heartbeat");
            assert_eq!(link_value(&data), link_parsed(r#"{"timestamp":77}"#));
        }
        other => panic!("unexpected {other:?}"),
    }
    let handler = link.manager.get_handler_mut("com.usenocturne.daemon").unwrap();
    let event = MsgPackMessage::Event { topic: "app.ready".to_string(), data: link_doc("{}") };
    handler.as_msgpack_mut().unwrap().handle_msgpack_message(&mut PendingCalls::new(), event);
    let (ready, beat) = link.on_tick(2 * HEARTBEAT_INTERVAL, 78);
    assert!(ready.is_none() && beat.is_some());
    link.on_session_closed();
    assert!(!link.on_answer());
    let (ready, beat) = link.on_tick(3 * HEARTBEAT_INTERVAL, 79);
    assert!(ready.is_none() && beat.is_none());
}

#[test]
fn sessions_carry_bytes_and_sound() {
    let mut link = Iap2Link::new(PHONE, true, 0);
    assert!(link.on_data(Bytes::from_static(b"x")).is_none());
    let sound = AudioEvent::Stopped { reason: "r".to_string(), total_frames: 2 };
    assert!(link.on_audio(&sound).is_none());
    link.on_session(4, "com.usenocturne.daemon".to_string(), 0);
    let message = link.on_data(Bytes::from_static(b"x")).unwrap();
    assert_eq!((message.session_id, &message.data[..]), (4, &b"x"[..]));
    match link.on_audio(&sound).unwrap().message {
        MsgPackMessage::Event { topic, data } => {
            assert_eq!(topic, "audio.recording.stopped");
            assert_eq!(link_value(&data), link_parsed(r#"{"reason":"r","totalFrames":2}"#));
        }
        other => panic!("unexpected {other:?}"),
    }
    let started = AudioEvent::Started { sample_rate: 16_000, channels: 1, frame_ms: 60 };
    match link.on_audio(&started).unwrap().message {
        MsgPackMessage::Event { topic, data } => {
            assert_eq!(topic, "audio.recording.started");
            assert_eq!(
                link_value(&data),
                link_parsed(r#"{"sampleRate":16000,"channels":1,"frameMs":60}"#)
            );
        }
        other => panic!("unexpected {other:?}"),
    }
    assert!(link.on_audio(&AudioEvent::MicLevel { energy: 5 }).is_none());
}

#[test]
fn requests_go_to_the_remote_control_or_the_app() {
    let mut link = Iap2Link::new(PHONE, true, 0);
    let mut route = |data: &str| link.on_request(&request("websocket.message", data));
    assert!(matches!(
        route(r#"{"method":"media.control.pause"}"#).unwrap(),
        PhoneRoute::SendHid { command: HidCommand::Pause }
    ));
    assert!(matches!(
        route(r#"{"method":"device.launchApp"}"#).unwrap(),
        PhoneRoute::LaunchApp { bundle_id } if bundle_id == "com.usenocturne.nocturne"
    ));
    assert!(matches!(
        route(r#"{"method":"device.launchApp","params":{"bundleId":"b"}}"#).unwrap(),
        PhoneRoute::LaunchApp { bundle_id } if bundle_id == "b"
    ));
    assert!(matches!(route(r#"{"method":"m"}"#).unwrap(), PhoneRoute::NoSession));
    assert!(matches!(route("nonsense"), Err(NocturnedError::Json(_))));
    link.on_session(4, "com.usenocturne.daemon".to_string(), 0);
    match link.on_request(&request("p", r#"{"method":"device.time.get"}"#)).unwrap() {
        PhoneRoute::Call { session_id, call: MsgPackMessage::Call { id, method, params } } => {
            assert_eq!((session_id, id.as_str(), method.as_str()), (4, "7", "device.time.get"));
            assert_eq!(link_value(&params), serde_json::Value::Null);
        }
        other => panic!("unexpected {other:?}"),
    }
    let handler = link.manager.get_handler_mut("com.usenocturne.daemon").unwrap();
    let answer = MsgPackMessage::Result { id: "7".to_string(), result: link_doc("{}") };
    let (_, effects) =
        handler.as_msgpack_mut().unwrap().handle_msgpack_message(&mut PendingCalls::new(), answer);
    assert_eq!(effects.len(), 1);
    assert_eq!(told(&device_reply(true, "7".to_string(), None)), one("to 7", r#"{"status":"ok"}"#));
    assert_eq!(
        told(&device_reply(true, "7".to_string(), Some("e".to_string()))),
        one("fault to 7", r#""e""#)
    );
    assert!(device_reply(false, "7".to_string(), None).is_empty());
    assert_eq!(
        told(&no_session_reply(true, "7".to_string())),
        one("fault to 7", r#""No active EA session""#)
    );
}

#[test]
fn device_identifies_itself() {
    let d = build_device_identification(Ok("SERIAL0042".to_string()), Ok("1.2".to_string())).unwrap();
    assert_eq!(d.name, "Nocturne (0042)");
    assert_eq!((d.serial_number.as_str(), d.firmware_version.as_str()), ("SERIAL0042", "1.2"));
    assert_eq!(d.messages_sent.len(), 13);
    assert_eq!(d.messages_received, vec![0xEA00, 0xEA01, 0x6801, 0x5001, 0x4158, 0x4155]);
    assert_eq!(d.hid_components[0].extra_data.as_deref(), Some(&[0x30, 0xE3, 0xD6, 0x05, 0x9A, 0x7D][..]));
    assert_eq!(d.hid_components[1].function, HidFunction::MediaPlaybackRemote);
    let fault = || Err(NocturnedError::General("x".to_string()));
    assert!(build_device_identification(fault(), Ok("1".to_string())).is_err());
    assert!(build_device_identification(Ok("s".to_string()), fault()).is_err());
    assert_eq!(media_item_attributes(), vec![1, 4, 12, 26]);
    assert_eq!(playback_attributes(), vec![0, 5, 6, 7]);
}

fn connection(address: DeviceAddress) -> Iap2Connection {
    Iap2Connection::new(address, Some(Ok(()))).unwrap()
}

#[test]
fn connection_is_made_or_its_failure_known() {
    let mut made = connection(PHONE);
    assert!(made.running && !made.user_disconnect_flag());
    assert_eq!(made.address(), PHONE);
    made.mark_user_initiated_disconnect();
    assert!(made.user_disconnect_flag());
    made.close();
    assert!(!made.running);
    let fault = NocturnedError::Iap2Protocol("no".to_string());
    assert_eq!(Iap2Connection::new(PHONE, Some(Err(fault))).unwrap_err().message(), "no");
    assert_eq!(
        Iap2Connection::new(PHONE, None).unwrap_err().message(),
        "Connection task terminated unexpectedly"
    );
}

#[test]
fn device_requests_are_read() {
    let daemon = BluetoothDaemon::new(true);
    let ask = |data: &str| daemon.handle_request(&request("bluetooth.control", data));
    let method = |m: &str, params: &str| ask(&format!(r#"{{"method":"{m}","params":{params}}}"#));
    let good = r#"{"address":"aa:bb:cc:00:1f:09"}"#;
    assert!(matches!(
        &method("bluetooth.device.connect", good)[..],
        [DaemonAction::Connect { device, address: PHONE, .. }] if device == "aa:bb:cc:00:1f:09"
    ));
    assert!(matches!(
        &method("bluetooth.device.disconnect", good)[..],
        [DaemonAction::Disconnect { address: PHONE, .. }]
    ));
    for m in ["bluetooth.device.unpair", "bluetooth.device.forget"] {
        assert!(matches!(&method(m, good)[..], [DaemonAction::Unpair { address: PHONE, .. }]));
    }
    let error_of = |actions: Vec<DaemonAction>| match actions.into_iter().next() {
        Some(DaemonAction::Client(e)) => told(&[e])[0].1["error"].clone(),
        other => panic!("unexpected {other:?}"),
    };
    assert_eq!(
        error_of(method("bluetooth.device.connect", r#"{"address":"x"}"#)),
        "Invalid Bluetooth address"
    );
    assert_eq!(error_of(method("bluetooth.device.unpair", "{}")), "Missing address parameter");
    assert!(method("bluetooth.device.connect", "{}").is_empty());
    assert!(method("bluetooth.other", good).is_empty());
    assert!(ask("nonsense").is_empty());
    let silent = BluetoothDaemon::new(false);
    assert!(silent
        .handle_request(&request("bluetooth.control", r#"{"method":"bluetooth.device.unpair"}"#))
        .is_empty());
}

#[test]
fn sound_requests_are_the_daemons_own_and_others_go_on() {
    let daemon = BluetoothDaemon::new(true);
    let ask = |data: &str| daemon.handle_request(&request("com.usenocturne.daemon", data));
    assert!(matches!(
        &ask(r#"{"method":"audio.record.start"}"#)[..],
        [
            DaemonAction::WakeWord(WakeWordCommand::Pause { ack: true, persist: false }),
            DaemonAction::Audio(AudioCommand::Start),
            DaemonAction::Client(_)
        ]
    ));
    assert!(matches!(
        &ask(r#"{"method":"audio.record.stop"}"#)[..],
        [DaemonAction::Audio(AudioCommand::Stop), DaemonAction::Client(_)]
    ));
    assert!(matches!(
        &ask(r#"{"method":"wakeword.pause"}"#)[..],
        [
            DaemonAction::WakeWord(WakeWordCommand::Pause { ack: false, persist: true }),
            DaemonAction::Client(_)
        ]
    ));
    assert!(matches!(
        &ask(r#"{"method":"wakeword.resume"}"#)[..],
        [DaemonAction::WakeWord(WakeWordCommand::Resume { persist: true }), DaemonAction::Client(_)]
    ));
    assert!(matches!(&ask(r#"{"method":"spotify.me"}"#)[..], [DaemonAction::Forward]));
    assert!(matches!(&ask("{}")[..], [DaemonAction::Forward]));
    assert!(matches!(&ask("nonsense")[..], [DaemonAction::Forward]));
}

#[test]
fn device_is_connected_once() {
    let mut daemon = BluetoothDaemon::new(true);
    let (done, effects) = daemon.begin_connect(PHONE);
    assert!(done.is_none() && daemon.android_wake_armed);
    assert_eq!(
        told(&effects),
        one(
            "bluetooth.connection",
            r#"{"event":"connecting","device":"AA:BB:CC:00:1F:09","connection_type":"auto"}"#
        )
    );
    daemon.connection_opened(connection(PHONE));
    let (outcome, effects) = daemon.end_connect(PHONE, true);
    assert!(matches!(outcome, Ok(ConnectionOutcome::Connected)));
    assert_eq!(
        told(&effects),
        one(
            "bluetooth.connection",
            r#"{"event":"connection_established","device":"AA:BB:CC:00:1F:09","connection_type":"iap2",
            "device_type":"iphone","channel":1,"initiated_by":"daemon"}"#
        )
    );
    let (done, effects) = daemon.begin_connect(PHONE);
    assert_eq!(done, Some(ConnectionOutcome::Connected));
    assert!(effects.is_empty());
    let (outcome, _) = daemon.end_connect(OTHER, false);
    assert!(matches!(outcome, Ok(ConnectionOutcome::WaitingForAndroid)));
    daemon.android_wake_armed = false;
    let (outcome, _) = daemon.end_connect(OTHER, false);
    assert_eq!(outcome.unwrap_err().message(), "Android wake not armed");
}

#[test]
fn one_phone_is_let_in_over_the_serial_port() {
    let mut daemon = BluetoothDaemon::new(true);
    assert!(daemon.admits_spp());
    daemon.pairing_mode = false;
    assert!(!daemon.admits_spp());
    daemon.begin_connect(OTHER);
    assert!(daemon.admits_spp());
    assert_eq!(
        told(&daemon.spp_accepted(OTHER)),
        one(
            "bluetooth.connection",
            r#"{"event":"connection_established","device":"01:02:03:04:05:06","connection_type":"generic"}"#
        )
    );
    assert!(!daemon.admits_spp());
    assert_eq!(daemon.begin_connect(OTHER).0, Some(ConnectionOutcome::Connected));
    let effects = told(&daemon.spp_closed(OTHER));
    assert_eq!(effects[0].0, "clear");
    assert_eq!(effects[1].1["connection_type"], "android");
    assert!(daemon.generic_connections.is_empty());
}

#[test]
fn device_departs() {
    let mut daemon = BluetoothDaemon::new(true);
    daemon.connection_opened(connection(PHONE));
    daemon.connection_opened(connection(OTHER));
    daemon.connection_opened(connection(PHONE));
    daemon.begin_disconnect(PHONE);
    let flags: Vec<bool> = daemon.connections.iter().map(|c| c.user_disconnect_flag()).collect();
    assert_eq!(flags, vec![true, false, false]);
    let fault = Err(NocturnedError::General("no".to_string()));
    let (outcome, effects) = daemon.disconnect_device(PHONE, fault);
    assert!(outcome.is_err() && effects.is_empty());
    assert_eq!(daemon.connections.len(), 3);
    let (outcome, effects) = daemon.disconnect_device(PHONE, Ok(()));
    assert!(outcome.is_ok());
    assert_eq!(told(&effects)[1].1["initiated_by"], "user");
    assert_eq!(daemon.connections, vec![connection(OTHER)]);
    let (_, effects) = daemon.unpair_device(OTHER, Ok(()));
    assert_eq!(
        told(&effects),
        one("bluetooth.device", r#"{"event":"unpaired","device":"01:02:03:04:05:06"}"#)
    );
    assert!(daemon.connections.is_empty());
}

#[test]
fn end_of_a_connection_is_told() {
    let mut daemon = BluetoothDaemon::new(true);
    assert_eq!(told(&daemon.incoming_accepted(PHONE))[0].1["connection_type"], "rfcomm");
    daemon.connection_opened(connection(PHONE));
    let effects = told(&daemon.incoming_closed(PHONE, false));
    assert_eq!(effects[0].0, "clear");
    assert!(effects[1].1.get("initiated_by").is_none());
    assert_eq!(daemon.connections.len(), 1);
    let effects = told(&daemon.outgoing_closed(PHONE, true));
    assert_eq!(effects[1].1["initiated_by"], "user");
    assert!(daemon.connections.is_empty());
    daemon.connection_opened(connection(OTHER));
    daemon.spp_accepted(PHONE);
    let closed = daemon.cleanup();
    assert_eq!((closed.len(), closed[0].running), (1, false));
    assert!(daemon.connections.is_empty() && daemon.generic_connections.is_empty());
}

#[test]
fn changes_of_devices_are_told() {
    let daemon = BluetoothDaemon::new(true);
    for (change, topic, event) in [
        (DeviceChange::Paired(true), "bluetooth.pairing", "paired"),
        (DeviceChange::Paired(false), "bluetooth.pairing", "unpaired"),
        (DeviceChange::Connected(true), "bluetooth.device", "connected"),
        (DeviceChange::Connected(false), "bluetooth.device", "disconnected"),
        (DeviceChange::Removed, "bluetooth.device", "removed"),
    ] {
        let effects = told(&daemon.device_changed(PHONE, change));
        assert_eq!(effects[0].0, topic);
        assert_eq!(effects[0].1["event"], event);
    }
    assert!(BluetoothDaemon::new(false).device_changed(PHONE, DeviceChange::Removed).is_empty());
}

#[test]
fn attempts_are_answered() {
    let reply = |outcome: Result<ConnectionOutcome, NocturnedError>| {
        told(&connect_reply(true, "7".to_string(), "dev", &outcome))
    };
    assert_eq!(
        reply(Ok(ConnectionOutcome::Connected)),
        one("to 7", r#"{"status":"connected","device":"dev"}"#)
    );
    assert_eq!(
        reply(Ok(ConnectionOutcome::WaitingForAndroid)),
        one("to 7", r#"{"status":"waiting_for_android","device":"dev"}"#)
    );
    assert_eq!(
        reply(Err(NocturnedError::Io("x".to_string()))),
        one("to 7", r#"{"error":"Connection failed: x"}"#)
    );
    assert_eq!(
        told(&departure_reply(true, "7".to_string(), "unpaired", "dev", &Ok(()))),
        one("to 7", r#"{"status":"unpaired","device":"dev"}"#)
    );
    let fault = Err(NocturnedError::General("x".to_string()));
    assert_eq!(
        told(&departure_reply(true, "7".to_string(), "unpaired", "dev", &fault)),
        one("to 7", r#"{"error":"x"}"#)
    );
}

fn object(path: &str, is_adapter: bool, device: Option<DeviceAddress>) -> ManagedObject {
    ManagedObject {
        path: path.to_string(),
        is_adapter,
        device: device.map(|d| d.to_text()),
    }
}

#[test]
fn device_is_found_among_the_objects() {
    let objects = vec![
        object("a0", true, None),
        object("d0", false, Some(OTHER)),
        object("d1", false, Some(PHONE)),
        object("a1", true, None),
        object("d2", false, Some(PHONE)),
    ];
    assert_eq!(disconnect_target(&objects, PHONE).unwrap(), 2);
    assert_eq!(removal_targets(&objects, PHONE).unwrap(), (3, 2));
    let none = Vec::new();
    assert_eq!(disconnect_target(&none, PHONE).unwrap_err().message(), "Device not found in BlueZ");
    assert_eq!(removal_targets(&none, PHONE).unwrap_err().message(), "Adapter not found");
    let adapter = vec![object("a0", true, None)];
    assert_eq!(
        removal_targets(&adapter, PHONE).unwrap_err().message(),
        "Device not found in BlueZ"
    );
    assert_eq!(disconnect_fault("x NotConnected y".to_string()).message(), "Device not connected");
    assert_eq!(disconnect_fault("is not connected".to_string()).message(), "Device not connected");
    assert_eq!(disconnect_fault("busy".to_string()).message(), "busy");
}

#[test]
fn service_records_name_the_device() {
    let name = Ok("Nocturne (0042)".to_string());
    assert_eq!(name_to_show(&name), "Nocturne (0042)");
    assert_eq!(name_to_show(&Err(NocturnedError::General("x".to_string()))), "Nocturne");
    let record = create_sdp_record_xml("U-U", &name);
    assert_eq!(record.matches("<uuid value=\"U-U\" />").count(), 2);
    assert!(record.starts_with("<?xml version=\"1.0\" encoding=\"UTF-8\" ?>\n<record>\n    <attribute id=\"0x0001\">"));
    assert!(record.contains("<uint8 value=\"0x01\" />"));
    assert!(record.contains("<text value=\"Nocturne (0042)\" />"));
    assert!(record.ends_with("</record>"));
    let record = create_spp_record_xml(&name);
    assert!(record.contains("<attribute id=\"0x0100\">\n        <text value=\"Nocturne (0042)\" />\n    </attribute>"));
    assert!(record.contains("<uint8 value=\"0x02\" />"));
}

fn about(address: Option<&str>, name: Option<&str>, alias: Option<&str>) -> Option<DeviceAbout> {
    Some(DeviceAbout {
        address: address.map(str::to_string),
        name: name.map(str::to_string),
        alias: alias.map(str::to_string),
    })
}

#[test]
fn agent_agrees_and_shows_codes() {
    let device = || "/dev/x".to_string();
    let (reply, effects) = handle_agent_call(&AgentCall::RequestPinCode { device: device() });
    assert!(matches!(reply, AgentReply::PinCode(s) if s == "0000"));
    assert_eq!(
        told(&effects),
        one("bluetooth.agent", r#"{"event":"request_pin_code","device":"/dev/x","pincode":"0000"}"#)
    );
    let (reply, effects) = handle_agent_call(&AgentCall::RequestPasskey { device: device() });
    assert!(matches!(reply, AgentReply::Passkey(0)));
    assert_eq!(told(&effects)[0].1["passkey"], 0);
    let (_, effects) = handle_agent_call(&AgentCall::DisplayPasskey {
        passkey: 42,
        entered: 3,
        about: about(Some("A"), None, Some("L")),
    });
    assert_eq!(
        told(&effects),
        one(
            "bluetooth.agent",
            r#"{"address":"A","name":"L","pin":"000042","type":"bluetooth_pin","entered":3}"#
        )
    );
    let (_, effects) = handle_agent_call(&AgentCall::RequestConfirmation {
        passkey: 1234567,
        about: about(None, Some("N"), Some("L")),
    });
    assert_eq!(
        told(&effects),
        one(
            "bluetooth.agent",
            r#"{"address":"unknown","name":"N","pin":"1234567","type":"bluetooth_pin"}"#
        )
    );
    let (_, effects) = handle_agent_call(&AgentCall::DisplayPinCode {
        pincode: "99".to_string(),
        about: about(None, None, None),
    });
    assert_eq!(told(&effects)[0].1["name"], "Unknown Device");
    let (reply, effects) =
        handle_agent_call(&AgentCall::DisplayPinCode { pincode: "99".to_string(), about: None });
    assert!(matches!(reply, AgentReply::Done) && effects.is_empty());
    let (_, effects) = handle_agent_call(&AgentCall::AuthorizeService {
        device: device(),
        uuid: "u".to_string(),
    });
    let effects = told(&effects);
    assert_eq!(effects[0].0, "bluetooth.pairing");
    assert_eq!(effects[0].1["type"], "pairing_succeeded");
    assert_eq!(effects[1].1["uuid"], "u");
    assert_eq!(effects[1].1["accepted"], true);
    let (_, effects) = handle_agent_call(&AgentCall::RequestAuthorization { device: device() });
    assert_eq!(told(&effects)[1].1["event"], "request_authorization");
    let (_, effects) = handle_agent_call(&AgentCall::Cancel);
    assert_eq!(told(&effects), one("bluetooth.agent", r#"{"event":"cancel"}"#));
    let (_, effects) = handle_agent_call(&AgentCall::Release);
    assert_eq!(told(&effects), one("bluetooth.agent", r#"{"event":"release"}"#));
}

#[test]
fn chunks_of_the_handler_are_one_for_small_messages() {
    assert_eq!(MsgPackProtocolHandler::create_chunks(b"x").unwrap().len(), 1);
}
