//! The connection to an iPhone: what it tells of itself and of what it plays, and what goes to the
//! app on it.
use crate::address::DeviceAddress;
use crate::app::chunk;
use crate::app::hid_mapping;
use crate::app::hid_mapping::HidCommand;
use crate::app::msgpack;
use crate::app::msgpack::{
    create_audio_data_event, create_audio_lifecycle_event, HandlerModel, MessageModel,
    MsgPackMessage, MsgPackProtocolHandler,
};
use crate::app::value;
use crate::app::websocket_handler::WebSocketProtocolHandler;
use crate::app::{
    AppCommunicationManager, AppMessage, AppMessageModel, AppProtocolHandlerEnum, ManagerModel,
    ProtocolModel,
};
use crate::audio::{AudioEvent, AudioEventModel};
use crate::buffer;
use crate::config;
use crate::effect;
use crate::effect::{ClientEffect, ClientEffectModel};
use crate::error::{ErrorModel, NocturnedError};
use crate::json::{Json, JsonModel, JsonNumber};
use crate::table;
use crate::text;
use bytes::Bytes;
use vstd::prelude::*;

verus! {

broadcast use crate::json::lemma_json_view;

/// What is known of what the phone plays.
#[derive(Debug)]
pub struct NowPlayingState {
    pub title: Option<String>,
    pub artist: Option<String>,
    pub album: Option<String>,
    pub duration_ms: Option<u64>,
    pub status: Option<String>,
    pub elapsed_ms: Option<u64>,
    pub shuffle_mode: Option<String>,
    pub repeat_mode: Option<String>,
    pub app_name: Option<String>,
}

/// What is known of what the phone plays, apart from how it is stored.
pub struct NowPlayingModel {
    pub title: Option<Seq<char>>,
    pub artist: Option<Seq<char>>,
    pub album: Option<Seq<char>>,
    pub duration_ms: Option<u64>,
    pub status: Option<Seq<char>>,
    pub elapsed_ms: Option<u64>,
    pub shuffle_mode: Option<Seq<char>>,
    pub repeat_mode: Option<Seq<char>>,
    pub app_name: Option<Seq<char>>,
}

impl View for NowPlayingState {
    type V = NowPlayingModel;

    open spec fn view(&self) -> NowPlayingModel {
        NowPlayingModel {
            title: text::optional_text(self.title),
            artist: text::optional_text(self.artist),
            album: text::optional_text(self.album),
            duration_ms: self.duration_ms,
            status: text::optional_text(self.status),
            elapsed_ms: self.elapsed_ms,
            shuffle_mode: text::optional_text(self.shuffle_mode),
            repeat_mode: text::optional_text(self.repeat_mode),
            app_name: text::optional_text(self.app_name),
        }
    }
}

/// An object with a member, where there is a value.
pub open spec fn and_some(doc: JsonModel, key: Seq<char>, value: Option<JsonModel>) -> JsonModel {
    match value {
        Some(v) => doc.and(key, v),
        None => doc,
    }
}

/// A text value, where there is a text.
pub open spec fn some_text(s: Option<Seq<char>>) -> Option<JsonModel> {
    match s {
        Some(s) => Some(JsonModel::Text(s)),
        None => None,
    }
}

/// A number, where there is one.
pub open spec fn some_number(n: Option<u64>) -> Option<JsonModel> {
    match n {
        Some(n) => Some(JsonModel::Number(JsonNumber::Unsigned(n))),
        None => None,
    }
}

/// An object, where it has members.
pub open spec fn unless_bare(doc: JsonModel) -> Option<JsonModel> {
    if doc == JsonModel::table() {
        None
    } else {
        Some(doc)
    }
}

impl NowPlayingModel {
    /// Nothing is known.
    pub open spec fn unknown() -> NowPlayingModel {
        NowPlayingModel {
            title: None,
            artist: None,
            album: None,
            duration_ms: None,
            status: None,
            elapsed_ms: None,
            shuffle_mode: None,
            repeat_mode: None,
            app_name: None,
        }
    }

    /// What is known of the track.
    pub open spec fn media(self) -> JsonModel {
        let d = and_some(JsonModel::table(), "MediaItemTitle"@, some_text(self.title));
        let d = and_some(
            d,
            "MediaItemArtist"@,
            match self.artist {
                Some(a) => Some(JsonModel::Text(msgpack::clean_artist(a))),
                None => None,
            },
        );
        let d = and_some(d, "MediaItemAlbum"@, some_text(self.album));
        and_some(d, "MediaItemDuration"@, some_number(self.duration_ms))
    }

    /// What is known of the player.
    pub open spec fn playback(self) -> JsonModel {
        let d = and_some(JsonModel::table(), "PlaybackStatus"@, some_text(self.status));
        let d = and_some(d, "PlaybackElapsedTime"@, some_number(self.elapsed_ms));
        let d = and_some(d, "PlaybackShuffleMode"@, some_text(self.shuffle_mode));
        let d = and_some(d, "PlaybackRepeatMode"@, some_text(self.repeat_mode));
        and_some(d, "PlaybackAppName"@, some_text(self.app_name))
    }

    /// What the clients are told.
    pub open spec fn json(self) -> JsonModel {
        let d = and_some(
            JsonModel::table(),
            "MediaItemAttributes"@,
            unless_bare(self.media()),
        );
        and_some(d, "PlaybackAttributes"@, unless_bare(self.playback()))
    }
}

fn add_text(doc: Json, key: &str, value: &Option<String>) -> (r: Json)
    ensures
        r@ == and_some(doc@, key@, some_text(text::optional_text(*value))),
{
    match value {
        Some(s) => doc.and(key, Json::text(s.as_str())),
        None => doc,
    }
}

fn add_number(doc: Json, key: &str, value: Option<u64>) -> (r: Json)
    ensures
        r@ == and_some(doc@, key@, some_number(value)),
{
    match value {
        Some(n) => doc.and(key, Json::unsigned(n)),
        None => doc,
    }
}

fn add_unless_bare(doc: Json, key: &str, value: Json) -> (r: Json)
    ensures
        r@ == and_some(doc@, key@, unless_bare(value@)),
{
    let bare = match &value {
        Json::Table(fields) => fields.len() == 0,
        _ => false,
    };
    proof {
        if bare {
            assert(value@->Table_0 =~= Seq::empty());
        } else if value@ is Table {
            assert(value@->Table_0.len() > 0);
        }
    }
    if bare {
        doc
    } else {
        doc.and(key, value)
    }
}

impl NowPlayingState {
    /// Nothing is known.
    pub fn new() -> (r: NowPlayingState)
        ensures
            r@ == NowPlayingModel::unknown(),
    {
        NowPlayingState {
            title: None,
            artist: None,
            album: None,
            duration_ms: None,
            status: None,
            elapsed_ms: None,
            shuffle_mode: None,
            repeat_mode: None,
            app_name: None,
        }
    }

    /// What the clients are told.
    pub fn to_json(&self) -> (r: Json)
        ensures
            r@ == self@.json(),
    {
        let media = add_text(Json::table(), "MediaItemTitle", &self.title);
        let media = match &self.artist {
            Some(a) => {
                let cleaned = msgpack::cleaned_artist(a.as_str());
                media.and("MediaItemArtist", Json::Text(cleaned))
            },
            None => media,
        };
        let media = add_text(media, "MediaItemAlbum", &self.album);
        let media = add_number(media, "MediaItemDuration", self.duration_ms);
        let playback = add_text(Json::table(), "PlaybackStatus", &self.status);
        let playback = add_number(playback, "PlaybackElapsedTime", self.elapsed_ms);
        let playback = add_text(playback, "PlaybackShuffleMode", &self.shuffle_mode);
        let playback = add_text(playback, "PlaybackRepeatMode", &self.repeat_mode);
        let playback = add_text(playback, "PlaybackAppName", &self.app_name);
        let json = add_unless_bare(Json::table(), "MediaItemAttributes", media);
        add_unless_bare(json, "PlaybackAttributes", playback)
    }

    /// Forgets what was known.
    pub fn clear(&mut self)
        ensures
            final(self)@ == NowPlayingModel::unknown(),
    {
        *self = NowPlayingState::new();
    }
}

/// News of the track.
#[derive(Debug)]
pub struct MediaUpdate {
    pub title: Option<String>,
    pub artist: Option<String>,
    pub album: Option<String>,
    pub duration_ms: Option<u64>,
}

/// News of the player.
#[derive(Debug)]
pub struct PlaybackUpdate {
    pub status: Option<String>,
    pub elapsed_ms: Option<u64>,
    pub shuffle_mode: Option<String>,
    pub repeat_mode: Option<String>,
    pub app_name: Option<String>,
}

/// News of what the phone plays.
#[derive(Debug)]
pub struct NowPlayingUpdate {
    pub media_item: Option<MediaUpdate>,
    pub playback: Option<PlaybackUpdate>,
}

impl View for NowPlayingUpdate {
    type V = NowPlayingModel;

    open spec fn view(&self) -> NowPlayingModel {
        NowPlayingModel {
            title: match self.media_item {
                Some(m) => text::optional_text(m.title),
                None => None,
            },
            artist: match self.media_item {
                Some(m) => text::optional_text(m.artist),
                None => None,
            },
            album: match self.media_item {
                Some(m) => text::optional_text(m.album),
                None => None,
            },
            duration_ms: match self.media_item {
                Some(m) => m.duration_ms,
                None => None,
            },
            status: match self.playback {
                Some(p) => text::optional_text(p.status),
                None => None,
            },
            elapsed_ms: match self.playback {
                Some(p) => p.elapsed_ms,
                None => None,
            },
            shuffle_mode: match self.playback {
                Some(p) => text::optional_text(p.shuffle_mode),
                None => None,
            },
            repeat_mode: match self.playback {
                Some(p) => text::optional_text(p.repeat_mode),
                None => None,
            },
            app_name: match self.playback {
                Some(p) => text::optional_text(p.app_name),
                None => None,
            },
        }
    }
}

/// What is known once something is told.
pub open spec fn newer<T>(known: Option<T>, news: Option<T>) -> Option<T> {
    match news {
        Some(v) => Some(v),
        None => known,
    }
}

impl NowPlayingModel {
    /// What is known after news: where the player has stopped, what was known before is forgotten
    /// first.
    pub open spec fn updated(self, news: NowPlayingModel) -> NowPlayingModel {
        let known = if news.status == Some("stopped"@) {
            NowPlayingModel::unknown()
        } else {
            self
        };
        NowPlayingModel {
            title: newer(known.title, news.title),
            artist: newer(known.artist, news.artist),
            album: newer(known.album, news.album),
            duration_ms: newer(known.duration_ms, news.duration_ms),
            status: newer(known.status, news.status),
            elapsed_ms: newer(known.elapsed_ms, news.elapsed_ms),
            shuffle_mode: newer(known.shuffle_mode, news.shuffle_mode),
            repeat_mode: newer(known.repeat_mode, news.repeat_mode),
            app_name: newer(known.app_name, news.app_name),
        }
    }
}

fn learn(known: &mut Option<String>, news: &Option<String>)
    ensures
        text::optional_text(*final(known)) == newer(
            text::optional_text(*old(known)),
            text::optional_text(*news),
        ),
{
    if let Some(s) = news {
        *known = Some(s.clone());
    }
}

impl NowPlayingState {
    /// Takes in news.
    pub fn update(&mut self, update: &NowPlayingUpdate)
        ensures
            final(self)@ == old(self)@.updated(update@),
    {
        let stopped = match &update.playback {
            Some(p) => match &p.status {
                Some(s) => text::same(s.as_str(), "stopped"),
                None => false,
            },
            None => false,
        };
        if stopped {
            self.clear();
        }
        if let Some(m) = &update.media_item {
            learn(&mut self.title, &m.title);
            learn(&mut self.artist, &m.artist);
            learn(&mut self.album, &m.album);
            if let Some(n) = m.duration_ms {
                self.duration_ms = Some(n);
            }
        }
        if let Some(p) = &update.playback {
            learn(&mut self.status, &p.status);
            if let Some(n) = p.elapsed_ms {
                self.elapsed_ms = Some(n);
            }
            learn(&mut self.shuffle_mode, &p.shuffle_mode);
            learn(&mut self.repeat_mode, &p.repeat_mode);
            learn(&mut self.app_name, &p.app_name);
        }
    }
}

/// What the phone tells on the connection.
#[derive(Debug)]
pub enum ConnectionEvent {
    LinkEstablished,
    AuthenticationStarted,
    AuthenticationSucceeded,
    AuthenticationFailed { reason: String },
    IdentificationAccepted,
    IdentificationRejected,
    EaSessionStarted { session_id: u8 },
    EaSessionStopped { session_id: u8 },
    NowPlayingUpdate { update: NowPlayingUpdate },
    HidRemoteStarted,
    HidRemoteStopped,
    FileTransferComplete { data: Vec<u8> },
    FileTransferCorrupted { transfer_id: u64 },
    Error { error: String },
    Disconnected,
}

/// What is told of the authentication.
pub open spec fn mfi_event(name: Seq<char>, device: Seq<char>) -> JsonModel {
    JsonModel::table().and("event"@, JsonModel::Text(name)).and(
        "device"@,
        JsonModel::Text(device),
    )
}

fn mfi_json(name: &str, device: &str) -> (r: Json)
    ensures
        r@ == mfi_event(name@, device@),
{
    Json::table().and("event", Json::text(name)).and("device", Json::text(device))
}

/// What is known of what the phone plays, after it tells something.
pub open spec fn playing_after(state: NowPlayingModel, event: ConnectionEvent) -> NowPlayingModel {
    match event {
        ConnectionEvent::NowPlayingUpdate { update } => state.updated(update@),
        _ => state,
    }
}

/// What is done for the clients when the phone tells something.
pub open spec fn event_effects(
    state: NowPlayingModel,
    event: ConnectionEvent,
    device: DeviceAddress,
) -> Seq<ClientEffectModel> {
    let device = device.chars();
    match event {
        ConnectionEvent::AuthenticationStarted => seq![
            effect::told("bluetooth.mfi"@, mfi_event("authentication_started"@, device)),
        ],
        ConnectionEvent::AuthenticationSucceeded => seq![
            effect::told("bluetooth.mfi"@, mfi_event("authentication_succeeded"@, device)),
        ],
        ConnectionEvent::AuthenticationFailed { reason } => seq![
            effect::told(
                "bluetooth.mfi"@,
                mfi_event("authentication_failed"@, device).and(
                    "reason"@,
                    JsonModel::Text(reason@),
                ),
            ),
        ],
        ConnectionEvent::NowPlayingUpdate { update } => seq![
            effect::told("media.nowPlaying.update"@, state.updated(update@).json()),
        ],
        ConnectionEvent::FileTransferComplete { data } => seq![
            ClientEffectModel::CancelImageFetches,
            effect::told(
                "media.nowPlaying.artwork"@,
                JsonModel::table().and(
                    "data"@,
                    JsonModel::Text(buffer::base64_text(data@)),
                ).and("contentType"@, JsonModel::Text("image/jpeg"@)),
            ),
        ],
        ConnectionEvent::FileTransferCorrupted { transfer_id } => seq![
            effect::told(
                "media.nowPlaying.artwork.failed"@,
                JsonModel::table().and(
                    "transfer_id"@,
                    JsonModel::Number(JsonNumber::Unsigned(transfer_id)),
                ),
            ),
        ],
        _ => Seq::empty(),
    }
}

/// Takes in what the phone tells: says what is done for the clients.
pub fn handle_connection_event(
    state: &mut NowPlayingState,
    event: &ConnectionEvent,
    device: DeviceAddress,
    has_websocket: bool,
) -> (r: Vec<ClientEffect>)
    requires
        has_websocket && event is FileTransferComplete ==> buffer::base64_fits(
            event->FileTransferComplete_data@.len(),
        ),
    ensures
        final(state)@ == playing_after(old(state)@, *event),
        effect::client_effects(r@) == effect::where_clients(
            has_websocket,
            event_effects(old(state)@, *event, device),
        ),
{
    let name = device.to_text();
    let device = name.as_str();
    match event {
        ConnectionEvent::AuthenticationStarted => effect::one_effect(
            has_websocket,
            effect::tell("bluetooth.mfi", mfi_json("authentication_started", device)),
        ),
        ConnectionEvent::AuthenticationSucceeded => effect::one_effect(
            has_websocket,
            effect::tell("bluetooth.mfi", mfi_json("authentication_succeeded", device)),
        ),
        ConnectionEvent::AuthenticationFailed { reason } => effect::one_effect(
            has_websocket,
            effect::tell(
                "bluetooth.mfi",
                mfi_json("authentication_failed", device).and(
                    "reason",
                    Json::text(reason.as_str()),
                ),
            ),
        ),
        ConnectionEvent::NowPlayingUpdate { update } => {
            state.update(update);
            effect::one_effect(
                has_websocket,
                effect::tell("media.nowPlaying.update", state.to_json()),
            )
        },
        ConnectionEvent::FileTransferComplete { data } => {
            if !has_websocket {
                return effect::no_effects();
            }
            let image = buffer::base64_encode(data.as_slice());
            effect::two_effects(
                true,
                ClientEffect::CancelImageFetches,
                effect::tell(
                    "media.nowPlaying.artwork",
                    Json::table().and("data", Json::Text(image)).and(
                        "contentType",
                        Json::text("image/jpeg"),
                    ),
                ),
            )
        },
        ConnectionEvent::FileTransferCorrupted { transfer_id } => effect::one_effect(
            has_websocket,
            effect::tell(
                "media.nowPlaying.artwork.failed",
                Json::table().and("transfer_id", Json::unsigned(*transfer_id)),
            ),
        ),
        _ => effect::no_effects(),
    }
}

/// A remark that is passed on to the phone app about a recording, where there is one.
pub open spec fn audio_message_model(event: AudioEventModel) -> Option<MessageModel> {
    match event {
        AudioEventModel::Data { seq, opus_data, timestamp_ms } => Some(
            msgpack::audio_data_event(seq, opus_data, timestamp_ms),
        ),
        AudioEventModel::Started { sample_rate, channels, frame_ms } => Some(
            MessageModel::Event {
                topic: "audio.recording.started"@,
                data: JsonModel::table().and(
                    "sampleRate"@,
                    JsonModel::Number(JsonNumber::Unsigned(sample_rate as u64)),
                ).and(
                    "channels"@,
                    JsonModel::Number(JsonNumber::Unsigned(channels as u64)),
                ).and(
                    "frameMs"@,
                    JsonModel::Number(JsonNumber::Unsigned(frame_ms as u64)),
                ),
            },
        ),
        AudioEventModel::Stopped { reason, total_frames } => Some(
            MessageModel::Event {
                topic: "audio.recording.stopped"@,
                data: JsonModel::table().and("reason"@, JsonModel::Text(reason)).and(
                    "totalFrames"@,
                    JsonModel::Number(JsonNumber::Unsigned(total_frames)),
                ),
            },
        ),
        AudioEventModel::MicLevel { .. } => None,
    }
}

/// Makes what is passed on to the phone app about a recording.
pub fn audio_message(event: &AudioEvent) -> (r: Option<MsgPackMessage>)
    requires
        event matches AudioEvent::Data { opus_data, .. } ==> buffer::base64_fits(opus_data@.len()),
    ensures
        match r {
            Some(m) => audio_message_model(event@) == Some(m@),
            None => audio_message_model(event@) is None,
        },
{
    match event {
        AudioEvent::Data { seq, opus_data, timestamp_ms } => Some(
            create_audio_data_event(*seq, opus_data.as_slice(), *timestamp_ms),
        ),
        AudioEvent::Started { sample_rate, channels, frame_ms } => Some(
            create_audio_lifecycle_event(
                "audio.recording.started",
                Json::table().and("sampleRate", Json::unsigned(*sample_rate as u64)).and(
                    "channels",
                    Json::unsigned(*channels as u64),
                ).and("frameMs", Json::unsigned(*frame_ms as u64)),
            ),
        ),
        AudioEvent::Stopped { reason, total_frames } => Some(
            create_audio_lifecycle_event(
                "audio.recording.stopped",
                Json::table().and("reason", Json::text(reason.as_str())).and(
                    "totalFrames",
                    Json::unsigned(*total_frames),
                ),
            ),
        ),
        AudioEvent::MicLevel { .. } => None,
    }
}

/// The event that tells the phone app that the daemon is there.
pub fn daemon_ready() -> (r: MsgPackMessage)
    ensures
        r@ == daemon_ready_model(),
{
    MsgPackMessage::Event { topic: "daemon.ready".to_owned(), data: Json::table() }
}

/// The event that tells the phone app that the daemon is still there.
pub fn heartbeat(timestamp_ms: u64) -> (r: MsgPackMessage)
    ensures
        r@ == heartbeat_model(timestamp_ms),
{
    MsgPackMessage::Event {
        topic: "daemon.heartbeat".to_owned(),
        data: Json::table().and("timestamp", Json::unsigned(timestamp_ms)),
    }
}

/// How often, in nanoseconds, the phone app is told that the daemon is still there.
pub const HEARTBEAT_INTERVAL: u64 = 10_000_000_000;

/// How often, in nanoseconds, the phone app is told that the daemon is there, until it answers.
pub const DAEMON_READY_INTERVAL: u64 = 3_000_000_000;

/// The course of a connection. Times are in nanoseconds from any origin.
#[derive(Clone, Copy, Debug, PartialEq, Eq, Structural)]
pub struct Link {
    pub session_id: Option<u8>,
    pub last_heartbeat: u64,
    pub last_daemon_ready: u64,
}

/// What is due on a connection.
#[derive(Clone, Copy, Debug, PartialEq, Eq, Structural)]
pub struct Due {
    pub daemon_ready: Option<u8>,
    pub heartbeat: Option<u8>,
}

/// So much time has passed since some moment.
pub open spec fn passed(now: u64, since: u64, interval: u64) -> bool {
    now >= since && now - since >= interval
}

impl Link {
    /// Whether the phone app is told again that the daemon is there.
    pub open spec fn ready_due(self, app_ready: bool, now: u64) -> bool {
        self.session_id is Some && !app_ready && passed(
            now,
            self.last_daemon_ready,
            DAEMON_READY_INTERVAL,
        )
    }

    /// Whether it is time for the phone app to be told that the daemon is still there.
    pub open spec fn heartbeat_due(self, now: u64) -> bool {
        passed(now, self.last_heartbeat, HEARTBEAT_INTERVAL)
    }

    /// What is due at some moment.
    pub open spec fn due(self, app_ready: bool, now: u64) -> Due {
        Due {
            daemon_ready: if self.ready_due(app_ready, now) {
                self.session_id
            } else {
                None
            },
            heartbeat: if self.heartbeat_due(now) {
                self.session_id
            } else {
                None
            },
        }
    }

    /// The connection after a look at the time.
    pub open spec fn ticked(self, app_ready: bool, now: u64) -> Link {
        Link {
            session_id: self.session_id,
            last_heartbeat: if self.heartbeat_due(now) {
                now
            } else {
                self.last_heartbeat
            },
            last_daemon_ready: if self.ready_due(app_ready, now) {
                now
            } else {
                self.last_daemon_ready
            },
        }
    }

    /// A connection without a session.
    pub fn new(now: u64) -> (r: Link)
        ensures
            r == (Link { session_id: None, last_heartbeat: now, last_daemon_ready: now }),
    {
        Link { session_id: None, last_heartbeat: now, last_daemon_ready: now }
    }

    /// A session was opened; the phone app is told that the daemon is there.
    pub fn session_opened(&mut self, session_id: u8, now: u64) -> (r: MsgPackMessage)
        ensures
            *final(self) == (Link {
                session_id: Some(session_id),
                last_daemon_ready: now,
                ..*old(self)
            }),
            r@ == daemon_ready_model(),
    {
        self.session_id = Some(session_id);
        self.last_daemon_ready = now;
        daemon_ready()
    }

    /// The session was closed.
    pub fn session_closed(&mut self)
        ensures
            *final(self) == (Link { session_id: None, ..*old(self) }),
    {
        self.session_id = None;
    }

    /// Looks at the time: says which sessions are told that the daemon is there, and that it is
    /// still there.
    pub fn tick(&mut self, app_ready: bool, now: u64) -> (r: Due)
        ensures
            *final(self) == old(self).ticked(app_ready, now),
            r == old(self).due(app_ready, now),
    {
        let mut due = Due { daemon_ready: None, heartbeat: None };
        if self.session_id.is_some() && !app_ready && now >= self.last_daemon_ready && now
            - self.last_daemon_ready >= DAEMON_READY_INTERVAL {
            due.daemon_ready = self.session_id;
            self.last_daemon_ready = now;
        }
        if now >= self.last_heartbeat && now - self.last_heartbeat >= HEARTBEAT_INTERVAL {
            due.heartbeat = self.session_id;
            self.last_heartbeat = now;
        }
        due
    }
}

/// Where a client's request goes.
#[derive(Debug)]
pub enum PhoneRoute {
    /// A key is sent, and the client is told whether it could be.
    SendHid { command: HidCommand },
    /// An app is started on the phone, and the client is told whether it could be.
    LaunchApp { bundle_id: String },
    /// The app on the phone is called.
    Call { session_id: u8, call: MsgPackMessage },
    /// There is no app to call.
    NoSession,
}

/// Where a client's request goes, apart from how it is stored.
pub enum PhoneRouteModel {
    SendHid { command: HidCommand },
    LaunchApp { bundle_id: Seq<char> },
    Call { session_id: u8, call: MessageModel },
    NoSession,
}

impl View for PhoneRoute {
    type V = PhoneRouteModel;

    open spec fn view(&self) -> PhoneRouteModel {
        match self {
            PhoneRoute::SendHid { command } => PhoneRouteModel::SendHid { command: *command },
            PhoneRoute::LaunchApp { bundle_id } => PhoneRouteModel::LaunchApp {
                bundle_id: bundle_id@,
            },
            PhoneRoute::Call { session_id, call } => PhoneRouteModel::Call {
                session_id: *session_id,
                call: call@,
            },
            PhoneRoute::NoSession => PhoneRouteModel::NoSession,
        }
    }
}

/// The method of a request.
pub open spec fn method_of(doc: JsonModel) -> Seq<char> {
    match doc.text_field("method"@) {
        Some(m) => m,
        None => "unknown"@,
    }
}

/// The parameters of a request.
pub open spec fn params_of(doc: JsonModel) -> JsonModel {
    match doc.field("params"@) {
        Some(p) => p,
        None => JsonModel::Null,
    }
}

/// Where a request goes.
pub open spec fn route_of(session: Option<u8>, id: Seq<char>, doc: JsonModel) -> PhoneRouteModel {
    let method = method_of(doc);
    if "media.control."@.is_prefix_of(method) && hid_mapping::hid_command(method) is Some {
        PhoneRouteModel::SendHid { command: hid_mapping::hid_command(method)->0 }
    } else if method == "device.launchApp"@ {
        PhoneRouteModel::LaunchApp {
            bundle_id: match params_of(doc).text_field("bundleId"@) {
                Some(s) => s,
                None => "com.usenocturne.nocturne"@,
            },
        }
    } else {
        match session {
            Some(session_id) => PhoneRouteModel::Call {
                session_id,
                call: MessageModel::Call { id, method, params: params_of(doc) },
            },
            None => PhoneRouteModel::NoSession,
        }
    }
}

/// What the app's protocol remembers of a request that the app is called with.
pub open spec fn marked(h: HandlerModel, id: Seq<char>, doc: JsonModel) -> HandlerModel {
    let method = method_of(doc);
    let h = HandlerModel { requests: h.requests.insert(id), ..h };
    let h = match params_of(doc).text_field("url"@) {
        Some(url) if method == "spotify.image.fetch"@ => HandlerModel {
            images: h.images.insert(id, url),
            ..h
        },
        _ => h,
    };
    if method == "device.time.get"@ || method == "device.ota.download"@ {
        HandlerModel { methods: h.methods.insert(id, method), ..h }
    } else {
        h
    }
}

/// What is remembered of a request, by where it goes.
pub open spec fn manager_after(
    m: ManagerModel,
    route: PhoneRouteModel,
    id: Seq<char>,
    doc: JsonModel,
) -> ManagerModel {
    let key = "com.usenocturne.daemon"@;
    if route is Call && m.handlers.contains_key(key) && m.handlers[key] is MsgPack {
        ManagerModel {
            handlers: m.handlers.insert(
                key,
                ProtocolModel::MsgPack(marked(m.handlers[key]->MsgPack_0, id, doc)),
            ),
            ..m
        }
    } else {
        m
    }
}

fn mark(h: &mut MsgPackProtocolHandler, id: &str, method: &str, params: &Json, doc: Ghost<JsonModel>)
    requires
        method@ == method_of(doc@),
        params@ == params_of(doc@),
    ensures
        final(h)@ == marked(old(h)@, id@, doc@),
{
    h.mark_as_websocket_message(id.to_owned());
    if text::same(method, "spotify.image.fetch") {
        if let Some(url) = params.get_str("url") {
            h.mark_as_image_request(id.to_owned(), url.to_owned());
        }
    }
    if text::same(method, "device.time.get") || text::same(method, "device.ota.download") {
        h.mark_method_for_message(id.to_owned(), method.to_owned());
    }
}

/// Says where a request goes, and remembers what its answer is for.
pub fn route_request(
    manager: &mut AppCommunicationManager,
    session: Option<u8>,
    id: &str,
    doc: &Json,
) -> (r: PhoneRoute)
    ensures
        r@ == route_of(session, id@, doc@),
        final(manager)@ == manager_after(old(manager)@, r@, id@, doc@),
{
    let method = match doc.get_str("method") {
        Some(m) => m.to_owned(),
        None => "unknown".to_owned(),
    };
    let params = match doc.get("params") {
        Some(p) => p.clone(),
        None => Json::Null,
    };
    if text::starts_with(method.as_str(), "media.control.") {
        if let Some(command) = hid_mapping::method_to_hid_command(method.as_str()) {
            return PhoneRoute::SendHid { command };
        }
    }
    if text::same(method.as_str(), "device.launchApp") {
        let bundle_id = match params.get_str("bundleId") {
            Some(s) => s.to_owned(),
            None => "com.usenocturne.nocturne".to_owned(),
        };
        return PhoneRoute::LaunchApp { bundle_id };
    }
    let session_id: u8 = match session {
        Some(s) => s,
        None => return PhoneRoute::NoSession,
    };
    let ghost before = manager@;
    if let Some(handler) = manager.get_handler_mut("com.usenocturne.daemon") {
        if let Some(h) = handler.as_msgpack_mut() {
            mark(h, id, method.as_str(), &params, Ghost(doc@));
        }
    }
    proof {
        let key = "com.usenocturne.daemon"@;
        if before.handlers.contains_key(key) && !(before.handlers[key] is MsgPack) {
            assert(before.handlers.insert(key, before.handlers[key]) =~= before.handlers);
        }
    }
    PhoneRoute::Call {
        session_id,
        call: MsgPackMessage::Call { id: id.to_owned(), method, params },
    }
}

/// Takes in a client's request: says where it goes, and remembers what its answer is for. Bytes
/// that are no document are a failure.
pub fn handle_websocket_message(
    manager: &mut AppCommunicationManager,
    session: Option<u8>,
    message: &AppMessage,
) -> (r: Result<PhoneRoute, NocturnedError>)
    ensures
        match value::json_read(message@.data) {
            Ok(doc) => {
                &&& r matches Ok(route)
                &&& route@ == route_of(session, message@.id, doc)
                &&& final(manager)@ == manager_after(old(manager)@, route@, message@.id, doc)
            },
            Err(fault) => {
                &&& r matches Err(e)
                &&& e@ == ErrorModel::Json(fault)
                &&& final(manager)@ == old(manager)@
            },
        },
{
    match value::read_json(buffer::bytes_slice(&message.data)) {
        Ok(doc) => Ok(route_request(manager, session, message.id.as_str(), &doc)),
        Err(e) => Err(e),
    }
}

/// Answers a request for a key or an app, by what went wrong.
pub fn device_reply(has_websocket: bool, id: String, fault: Option<String>) -> (r: Vec<ClientEffect>)
    ensures
        effect::client_effects(r@) == effect::where_clients(
            has_websocket,
            seq![
                match text::optional_text(fault) {
                    None => ClientEffectModel::Respond {
                        id: id@,
                        result: JsonModel::table().and("status"@, JsonModel::Text("ok"@)),
                    },
                    Some(error) => ClientEffectModel::RespondError { id: id@, error },
                },
            ],
        ),
{
    let e = match fault {
        None => ClientEffect::Respond {
            id,
            result: Json::table().and("status", Json::text("ok")),
        },
        Some(error) => ClientEffect::RespondError { id, error },
    };
    effect::one_effect(has_websocket, e)
}

/// Answers a request that there is no app for.
pub fn no_session_reply(has_websocket: bool, id: String) -> (r: Vec<ClientEffect>)
    ensures
        effect::client_effects(r@) == effect::where_clients(
            has_websocket,
            seq![
                ClientEffectModel::RespondError { id: id@, error: "No active EA session"@ },
            ],
        ),
{
    effect::one_effect(
        has_websocket,
        ClientEffect::RespondError { id, error: "No active EA session".to_owned() },
    )
}

/// A connection to an iPhone, as the daemon lists it.
#[derive(Clone, Copy, Debug, PartialEq, Eq, Structural)]
pub struct Iap2Connection {
    pub device_address: DeviceAddress,
    pub running: bool,
    pub user_initiated_disconnect: bool,
}

impl Iap2Connection {
    /// A connection to a device that is told whether it could be made: it could, it failed, or
    /// nothing was heard of it.
    pub fn new(device_address: DeviceAddress, ready: Option<Result<(), NocturnedError>>) -> (r:
        Result<Iap2Connection, NocturnedError>)
        ensures
            match ready {
                Some(Ok(_)) => r == Ok::<Iap2Connection, NocturnedError>(
                    Iap2Connection {
                        device_address,
                        running: true,
                        user_initiated_disconnect: false,
                    },
                ),
                Some(Err(e)) => r == Err::<Iap2Connection, NocturnedError>(e),
                None => r matches Err(e) && e@ == ErrorModel::Iap2Protocol(
                    "Connection task terminated unexpectedly"@,
                ),
            },
    {
        match ready {
            Some(Ok(_)) => Ok(
                Iap2Connection { device_address, running: true, user_initiated_disconnect: false },
            ),
            Some(Err(e)) => Err(e),
            None => Err(
                NocturnedError::Iap2Protocol("Connection task terminated unexpectedly".to_owned()),
            ),
        }
    }

    /// The device.
    pub fn address(&self) -> (r: DeviceAddress)
        ensures
            r == self.device_address,
    {
        self.device_address
    }

    /// Whether the user asked for the end of the connection.
    pub fn user_disconnect_flag(&self) -> (r: bool)
        ensures
            r == self.user_initiated_disconnect,
    {
        self.user_initiated_disconnect
    }

    /// Ends the connection.
    pub fn close(&mut self)
        ensures
            *final(self) == (Iap2Connection { running: false, ..*old(self) }),
    {
        self.running = false;
    }

    /// The user asks for the end of the connection.
    pub fn mark_user_initiated_disconnect(&mut self)
        ensures
            *final(self) == (Iap2Connection { user_initiated_disconnect: true, ..*old(self) }),
    {
        self.user_initiated_disconnect = true;
    }
}

/// The state of a connection while it lasts.
pub struct Iap2Link {
    pub device_address: DeviceAddress,
    pub has_websocket: bool,
    pub running: bool,
    pub link: Link,
    pub now_playing: NowPlayingState,
    pub manager: AppCommunicationManager,
}

/// The state of a connection, apart from how it is stored.
#[verifier::ext_equal]
pub struct Iap2LinkModel {
    pub device_address: DeviceAddress,
    pub has_websocket: bool,
    pub running: bool,
    pub link: Link,
    pub now_playing: NowPlayingModel,
    pub manager: ManagerModel,
}

impl View for Iap2Link {
    type V = Iap2LinkModel;

    open spec fn view(&self) -> Iap2LinkModel {
        Iap2LinkModel {
            device_address: self.device_address,
            has_websocket: self.has_websocket,
            running: self.running,
            link: self.link,
            now_playing: self.now_playing@,
            manager: self.manager@,
        }
    }
}

/// The handlers that a connection starts with, where there are clients: one for the requests of
/// clients, and one for the phone app.
pub open spec fn first_manager(has_websocket: bool) -> ManagerModel {
    ManagerModel {
        sessions: Map::empty(),
        handlers: if has_websocket {
            Map::<Seq<char>, ProtocolModel>::empty().insert(
                "websocket.message"@,
                ProtocolModel::WebSocket(
                    WebSocketProtocolHandler {
                        has_websocket: true,
                        has_audio: true,
                        has_wakeword: true,
                    },
                ),
            ).insert(
                msgpack::MSGPACK_PROTOCOL@,
                ProtocolModel::MsgPack(
                    HandlerModel { has_hid: true, ..HandlerModel::fresh(true, true) },
                ),
            )
        } else {
            Map::empty()
        },
    }
}

impl Iap2LinkModel {
    /// Whether the phone app has said that it is ready.
    pub open spec fn app_ready(self) -> bool {
        self.manager.app_ready() == Some(true)
    }

    /// The connection once the phone has told something.
    pub open spec fn told(self, event: ConnectionEvent) -> Iap2LinkModel {
        Iap2LinkModel {
            now_playing: playing_after(self.now_playing, event),
            running: self.running && !(event is Disconnected),
            ..self
        }
    }

    /// The connection once a session is open.
    pub open spec fn with_session(self, session_id: u8, protocol: Seq<char>, now: u64) -> Iap2LinkModel {
        Iap2LinkModel {
            link: Link { session_id: Some(session_id), last_daemon_ready: now, ..self.link },
            manager: ManagerModel {
                sessions: self.manager.sessions.insert(session_id, protocol),
                ..self.manager
            },
            ..self
        }
    }

    /// The connection once bytes of the open session have come.
    pub open spec fn with_data(self) -> Iap2LinkModel {
        match self.link.session_id {
            Some(session) => Iap2LinkModel { manager: self.manager.with_incoming(session), ..self },
            None => self,
        }
    }

    /// The connection once the open session has ended.
    pub open spec fn without_session(self) -> Iap2LinkModel {
        Iap2LinkModel { link: Link { session_id: None, ..self.link }, ..self }
    }

    /// The message that bytes of the open session make for the handler of its protocol.
    pub open spec fn data_message(self, id: Seq<char>, data: Seq<u8>) -> Option<AppMessageModel> {
        match self.link.session_id {
            Some(session_id) => match self.manager.handled_protocol(session_id) {
                Some(protocol) => Some(AppMessageModel { id, protocol, session_id, data }),
                None => None,
            },
            None => None,
        }
    }
}

/// What is sent at some moment, and to which session.
#[derive(Debug)]
pub struct Sent {
    pub session_id: u8,
    pub message: MsgPackMessage,
}

/// What is sent, apart from how it is stored.
pub open spec fn sent_model(sent: Option<Sent>) -> Option<(u8, MessageModel)> {
    match sent {
        Some(s) => Some((s.session_id, s.message@)),
        None => None,
    }
}

/// What goes to a session, where one is given.
pub open spec fn sent_to(session: Option<u8>, message: MessageModel) -> Option<(u8, MessageModel)> {
    match session {
        Some(s) => Some((s, message)),
        None => None,
    }
}

/// The event that tells the phone app that the daemon is there.
pub open spec fn daemon_ready_model() -> MessageModel {
    MessageModel::Event { topic: "daemon.ready"@, data: JsonModel::table() }
}

/// The event that tells the phone app that the daemon is still there.
pub open spec fn heartbeat_model(timestamp_ms: u64) -> MessageModel {
    MessageModel::Event {
        topic: "daemon.heartbeat"@,
        data: JsonModel::table().and(
            "timestamp"@,
            JsonModel::Number(JsonNumber::Unsigned(timestamp_ms)),
        ),
    }
}

impl Iap2Link {
    /// A connection to a device that has just been made.
    pub fn new(device_address: DeviceAddress, has_websocket: bool, now: u64) -> (r: Iap2Link)
        ensures
            r@ == (Iap2LinkModel {
                device_address,
                has_websocket,
                running: true,
                link: Link { session_id: None, last_heartbeat: now, last_daemon_ready: now },
                now_playing: NowPlayingModel::unknown(),
                manager: first_manager(has_websocket),
            }),
    {
        let mut manager = AppCommunicationManager::new();
        if has_websocket {
            let mut ws_handler = WebSocketProtocolHandler::new_with_cache(true);
            ws_handler.set_audio_cmd_tx();
            ws_handler.set_wakeword_pause_tx();
            manager.register_handler(AppProtocolHandlerEnum::WebSocket(ws_handler));
            let mut mp_handler = MsgPackProtocolHandler::with_image_cache(true);
            mp_handler.set_hid_tx();
            manager.register_handler(AppProtocolHandlerEnum::MsgPack(Box::new(mp_handler)));
        }
        assert(manager@ =~= first_manager(has_websocket));
        Iap2Link {
            device_address,
            has_websocket,
            running: true,
            link: Link::new(now),
            now_playing: NowPlayingState::new(),
            manager,
        }
    }

    /// The phone tells something: says what is done for the clients. The connection is over once
    /// the phone has left.
    pub fn on_event(&mut self, event: &ConnectionEvent) -> (r: Vec<ClientEffect>)
        requires
            old(self)@.has_websocket && event is FileTransferComplete ==> buffer::base64_fits(
                event->FileTransferComplete_data@.len(),
            ),
        ensures
            final(self)@ == old(self)@.told(*event),
            effect::client_effects(r@) == effect::where_clients(
                old(self)@.has_websocket,
                event_effects(old(self)@.now_playing, *event, old(self)@.device_address),
            ),
    {
        let effects = handle_connection_event(
            &mut self.now_playing,
            event,
            self.device_address,
            self.has_websocket,
        );
        if let ConnectionEvent::Disconnected = event {
            self.running = false;
        }
        effects
    }

    /// Nothing more is heard of the phone: the connection is over.
    pub fn on_events_closed(&mut self)
        ensures
            final(self)@ == (Iap2LinkModel { running: false, ..old(self)@ }),
    {
        self.running = false;
    }

    /// A session is opened: the phone app is told that the daemon is there.
    pub fn on_session(&mut self, session_id: u8, protocol: String, now: u64) -> (r: Sent)
        ensures
            final(self)@ == old(self)@.with_session(session_id, protocol@, now),
            sent_model(Some(r)) == Some((session_id, daemon_ready_model())),
    {
        self.manager.create_session(session_id, protocol);
        let message = self.link.session_opened(session_id, now);
        Sent { session_id, message }
    }

    /// Bytes of the open session come: makes the message that the handler of its protocol is
    /// given.
    pub fn on_data(&mut self, data: Bytes) -> (r: Option<AppMessage>)
        ensures
            final(self)@ == old(self)@.with_data(),
            match r {
                Some(m) => chunk::uuid_text(m@.id) && old(self)@.data_message(
                    m@.id,
                    buffer::payload(data),
                ) == Some(m@),
                None => old(self)@.data_message(Seq::empty(), buffer::payload(data)) is None,
            },
    {
        match self.link.session_id {
            Some(session_id) => self.manager.handle_incoming_data(session_id, data),
            None => None,
        }
    }

    /// The open session has ended.
    pub fn on_session_closed(&mut self)
        ensures
            final(self)@ == old(self)@.without_session(),
    {
        self.link.session_closed();
    }

    /// Whether bytes for the phone app go out: they do while a session is open.
    pub fn on_answer(&self) -> (r: bool)
        ensures
            r == self@.link.session_id is Some,
    {
        self.link.session_id.is_some()
    }

    /// A client's request comes: says where it goes.
    pub fn on_request(&mut self, message: &AppMessage) -> (r: Result<PhoneRoute, NocturnedError>)
        ensures
            match value::json_read(message@.data) {
                Ok(doc) => {
                    &&& r matches Ok(route)
                    &&& route@ == route_of(old(self)@.link.session_id, message@.id, doc)
                    &&& final(self)@ == (Iap2LinkModel {
                        manager: manager_after(old(self)@.manager, route@, message@.id, doc),
                        ..old(self)@
                    })
                },
                Err(fault) => {
                    &&& r matches Err(e)
                    &&& e@ == ErrorModel::Json(fault)
                    &&& final(self)@ == old(self)@
                },
            },
    {
        handle_websocket_message(&mut self.manager, self.link.session_id, message)
    }

    /// The recorder tells something: says what is passed on to the phone app.
    pub fn on_audio(&self, event: &AudioEvent) -> (r: Option<Sent>)
        requires
            self@.link.session_id is Some && event is Data ==> buffer::base64_fits(
                event->Data_opus_data@.len(),
            ),
        ensures
            sent_model(r) == match (self@.link.session_id, audio_message_model(event@)) {
                (Some(session), Some(message)) => Some((session, message)),
                _ => None,
            },
    {
        match self.link.session_id {
            Some(session_id) => match audio_message(event) {
                Some(message) => Some(Sent { session_id, message }),
                None => None,
            },
            None => None,
        }
    }

    /// Looks at the time: says whether the phone app is told that the daemon is there, and that it
    /// is still there.
    pub fn on_tick(&mut self, now: u64, timestamp_ms: u64) -> (r: (Option<Sent>, Option<Sent>))
        ensures
            final(self)@ == (Iap2LinkModel {
                link: old(self)@.link.ticked(old(self)@.app_ready(), now),
                ..old(self)@
            }),
            sent_model(r.0) == sent_to(
                old(self)@.link.due(old(self)@.app_ready(), now).daemon_ready,
                daemon_ready_model(),
            ),
            sent_model(r.1) == sent_to(
                old(self)@.link.due(old(self)@.app_ready(), now).heartbeat,
                heartbeat_model(timestamp_ms),
            ),
    {
        let app_ready = match self.manager.app_ready_flag() {
            Some(ready) => ready,
            None => false,
        };
        let due = self.link.tick(app_ready, now);
        let first = match due.daemon_ready {
            Some(session_id) => Some(Sent { session_id, message: daemon_ready() }),
            None => None,
        };
        let second = match due.heartbeat {
            Some(session_id) => Some(Sent { session_id, message: heartbeat(timestamp_ms) }),
            None => None,
        };
        (first, second)
    }
}

/// What a remote control of the device is for.
#[derive(Clone, Copy, Debug, PartialEq, Eq, Structural)]
pub enum HidFunction {
    NoFunction,
    MediaPlaybackRemote,
}

/// A remote control of the device.
#[derive(Debug)]
pub struct HidComponent {
    pub id: u16,
    pub name: String,
    pub function: HidFunction,
    pub extra_data: Option<Vec<u8>>,
}

/// A remote control, apart from how it is stored.
pub struct HidComponentModel {
    pub id: u16,
    pub name: Seq<char>,
    pub function: HidFunction,
    pub extra_data: Option<Seq<u8>>,
}

impl View for HidComponent {
    type V = HidComponentModel;

    open spec fn view(&self) -> HidComponentModel {
        HidComponentModel {
            id: self.id,
            name: self.name@,
            function: self.function,
            extra_data: match self.extra_data {
                Some(data) => Some(data@),
                None => None,
            },
        }
    }
}

/// What the device says of itself when it connects.
#[derive(Debug)]
pub struct DeviceIdentification {
    pub name: String,
    pub model_identifier: String,
    pub manufacturer: String,
    pub serial_number: String,
    pub firmware_version: String,
    pub hardware_version: String,
    pub messages_sent: Vec<u16>,
    pub messages_received: Vec<u16>,
    pub ea_protocol_name: String,
    pub bundle_seed_id: String,
    pub current_language: String,
    pub supported_languages: Vec<String>,
    pub hid_components: Vec<HidComponent>,
}

/// What the device says of itself, apart from how it is stored.
#[verifier::ext_equal]
pub struct IdentificationModel {
    pub name: Seq<char>,
    pub model_identifier: Seq<char>,
    pub manufacturer: Seq<char>,
    pub serial_number: Seq<char>,
    pub firmware_version: Seq<char>,
    pub hardware_version: Seq<char>,
    pub messages_sent: Seq<u16>,
    pub messages_received: Seq<u16>,
    pub ea_protocol_name: Seq<char>,
    pub bundle_seed_id: Seq<char>,
    pub current_language: Seq<char>,
    pub supported_languages: Seq<Seq<char>>,
    pub hid_components: Seq<HidComponentModel>,
}

/// The models of remote controls.
pub open spec fn component_models(components: Seq<HidComponent>) -> Seq<HidComponentModel> {
    components.map_values(|c: HidComponent| c@)
}

impl View for DeviceIdentification {
    type V = IdentificationModel;

    open spec fn view(&self) -> IdentificationModel {
        IdentificationModel {
            name: self.name@,
            model_identifier: self.model_identifier@,
            manufacturer: self.manufacturer@,
            serial_number: self.serial_number@,
            firmware_version: self.firmware_version@,
            hardware_version: self.hardware_version@,
            messages_sent: self.messages_sent@,
            messages_received: self.messages_received@,
            ea_protocol_name: self.ea_protocol_name@,
            bundle_seed_id: self.bundle_seed_id@,
            current_language: self.current_language@,
            supported_languages: table::texts(self.supported_languages@),
            hid_components: component_models(self.hid_components@),
        }
    }
}

/// The messages that the device sends.
pub open spec fn messages_sent() -> Seq<u16> {
    seq![
        0xEA02u16,
        0xEA03,
        0x6800,
        0x6802,
        0x6803,
        0x5000,
        0x5002,
        0x4157,
        0x4159,
        0x4154,
        0x4156,
        0x415B,
        0x415C,
    ]
}

/// The messages that the device receives.
pub open spec fn messages_received() -> Seq<u16> {
    seq![0xEA00u16, 0xEA01, 0x6801, 0x5001, 0x4158, 0x4155]
}

/// What a device with some serial number and firmware says of itself.
pub open spec fn identification(serial: Seq<char>, firmware: Seq<char>) -> IdentificationModel {
    IdentificationModel {
        name: "Nocturne ("@ + config::last_four(serial) + ")"@,
        model_identifier: "YX5H6679"@,
        manufacturer: "Vanta Labs"@,
        serial_number: serial,
        firmware_version: firmware,
        hardware_version: "1"@,
        messages_sent: messages_sent(),
        messages_received: messages_received(),
        ea_protocol_name: "com.usenocturne.daemon"@,
        bundle_seed_id: "A8CCNQDH4A"@,
        current_language: "en"@,
        supported_languages: seq!["en"@],
        hid_components: seq![
            HidComponentModel {
                id: 0x1092,
                name: "Nocturne"@,
                function: HidFunction::NoFunction,
                extra_data: Some(seq![0x30u8, 0xE3, 0xD6, 0x05, 0x9A, 0x7D]),
            },
            HidComponentModel {
                id: 0x14E9,
                name: "Nocturne"@,
                function: HidFunction::MediaPlaybackRemote,
                extra_data: None,
            },
        ],
    }
}

fn hid_components() -> (r: Vec<HidComponent>)
    ensures
        component_models(r@) == identification(Seq::empty(), Seq::empty()).hid_components,
{
    let extra: Vec<u8> = vec![0x30, 0xE3, 0xD6, 0x05, 0x9A, 0x7D];
    assert(extra@ =~= seq![0x30u8, 0xE3, 0xD6, 0x05, 0x9A, 0x7D]);
    let mut r: Vec<HidComponent> = Vec::new();
    r.push(
        HidComponent {
            id: 0x1092,
            name: "Nocturne".to_owned(),
            function: HidFunction::NoFunction,
            extra_data: Some(extra),
        },
    );
    r.push(
        HidComponent {
            id: 0x14E9,
            name: "Nocturne".to_owned(),
            function: HidFunction::MediaPlaybackRemote,
            extra_data: None,
        },
    );
    assert(component_models(r@) =~= identification(Seq::empty(), Seq::empty()).hid_components);
    r
}

/// Says what the device says of itself, by its serial number and its firmware, or why it cannot.
pub fn build_device_identification(
    serial: Result<String, NocturnedError>,
    firmware: Result<String, NocturnedError>,
) -> (r: Result<DeviceIdentification, NocturnedError>)
    requires
        serial matches Ok(s) ==> config::has_last_four(s@),
    ensures
        match (serial, firmware) {
            (Err(e), _) => r == Err::<DeviceIdentification, NocturnedError>(e),
            (Ok(_), Err(e)) => r == Err::<DeviceIdentification, NocturnedError>(e),
            (Ok(s), Ok(f)) => r matches Ok(d) && d@ == identification(s@, f@),
        },
{
    let serial_number = match serial {
        Ok(s) => s,
        Err(e) => return Err(e),
    };
    let name = config::name_with_serial(serial_number.as_str());
    let firmware_version = match firmware {
        Ok(f) => f,
        Err(e) => return Err(e),
    };
    let sent: Vec<u16> = vec![
        0xEA02,
        0xEA03,
        0x6800,
        0x6802,
        0x6803,
        0x5000,
        0x5002,
        0x4157,
        0x4159,
        0x4154,
        0x4156,
        0x415B,
        0x415C,
    ];
    let received: Vec<u16> = vec![0xEA00, 0xEA01, 0x6801, 0x5001, 0x4158, 0x4155];
    let mut languages: Vec<String> = Vec::new();
    languages.push("en".to_owned());
    let d = DeviceIdentification {
        name,
        model_identifier: "YX5H6679".to_owned(),
        manufacturer: "Vanta Labs".to_owned(),
        serial_number,
        firmware_version,
        hardware_version: "1".to_owned(),
        messages_sent: sent,
        messages_received: received,
        ea_protocol_name: "com.usenocturne.daemon".to_owned(),
        bundle_seed_id: "A8CCNQDH4A".to_owned(),
        current_language: "en".to_owned(),
        supported_languages: languages,
        hid_components: hid_components(),
    };
    assert(d@.supported_languages =~= seq!["en"@]);
    assert(d@ =~= identification(serial_number@, firmware_version@));
    Ok(d)
}

/// The attributes of a track that the phone is asked to tell: title, duration, artist and artwork.
pub fn media_item_attributes() -> (r: Vec<u16>)
    ensures
        r@ == seq![0x0001u16, 0x0004, 0x000C, 0x001A],
{
    let r: Vec<u16> = vec![0x0001, 0x0004, 0x000C, 0x001A];
    assert(r@ =~= seq![0x0001u16, 0x0004, 0x000C, 0x001A]);
    r
}

/// The attributes of the player that the phone is asked to tell: status, shuffle mode, repeat mode
/// and app.
pub fn playback_attributes() -> (r: Vec<u16>)
    ensures
        r@ == seq![0x0000u16, 0x0005, 0x0006, 0x0007],
{
    let r: Vec<u16> = vec![0x0000, 0x0005, 0x0006, 0x0007];
    assert(r@ =~= seq![0x0000u16, 0x0005, 0x0006, 0x0007]);
    r
}

/// News that say nothing change nothing, unless the player has stopped.
pub proof fn law_empty_news_change_nothing(state: NowPlayingModel)
    ensures
        state.updated(NowPlayingModel::unknown()) == state,
{
}

/// What the news say takes the place of what was known, whatever that was; what they do not speak
/// of stays as it was, unless the player has stopped, and is forgotten then.
pub proof fn law_news_take_the_place_of_what_was_known(
    state: NowPlayingModel,
    news: NowPlayingModel,
)
    ensures
        news.title is Some ==> state.updated(news).title == news.title,
        news.artist is Some ==> state.updated(news).artist == news.artist,
        news.album is Some ==> state.updated(news).album == news.album,
        news.duration_ms is Some ==> state.updated(news).duration_ms == news.duration_ms,
        news.status is Some ==> state.updated(news).status == news.status,
        news.elapsed_ms is Some ==> state.updated(news).elapsed_ms == news.elapsed_ms,
        news.shuffle_mode is Some ==> state.updated(news).shuffle_mode == news.shuffle_mode,
        news.repeat_mode is Some ==> state.updated(news).repeat_mode == news.repeat_mode,
        news.app_name is Some ==> state.updated(news).app_name == news.app_name,
        news.status is None ==> state.updated(news).status == state.status,
        news.status != Some("stopped"@) ==> {
            &&& news.title is None ==> state.updated(news).title == state.title
            &&& news.artist is None ==> state.updated(news).artist == state.artist
            &&& news.album is None ==> state.updated(news).album == state.album
            &&& news.duration_ms is None ==> state.updated(news).duration_ms == state.duration_ms
            &&& news.elapsed_ms is None ==> state.updated(news).elapsed_ms == state.elapsed_ms
            &&& news.shuffle_mode is None ==> state.updated(news).shuffle_mode
                == state.shuffle_mode
            &&& news.repeat_mode is None ==> state.updated(news).repeat_mode == state.repeat_mode
            &&& news.app_name is None ==> state.updated(news).app_name == state.app_name
        },
        news.status == Some("stopped"@) ==> {
            &&& news.title is None ==> state.updated(news).title is None
            &&& news.artist is None ==> state.updated(news).artist is None
            &&& news.album is None ==> state.updated(news).album is None
            &&& news.duration_ms is None ==> state.updated(news).duration_ms is None
            &&& news.elapsed_ms is None ==> state.updated(news).elapsed_ms is None
            &&& news.shuffle_mode is None ==> state.updated(news).shuffle_mode is None
            &&& news.repeat_mode is None ==> state.updated(news).repeat_mode is None
            &&& news.app_name is None ==> state.updated(news).app_name is None
        },
{
}

/// When the player stops, nothing is left but what the same news say.
pub proof fn law_stop_forgets_the_track(state: NowPlayingModel, news: NowPlayingModel)
    requires
        news.status == Some("stopped"@),
    ensures
        state.updated(news) == news,
{
}

/// The same news told again change nothing.
pub proof fn law_news_told_twice(state: NowPlayingModel, news: NowPlayingModel)
    ensures
        state.updated(news).updated(news) == state.updated(news),
{
}

/// While the phone app has not answered, the time between two remarks that the daemon is there is
/// at least the interval; once it has, there are no more.
pub proof fn law_ready_is_told_until_answered(link: Link, app_ready: bool, now: u64, later: u64)
    ensures
        app_ready ==> !link.ready_due(app_ready, now),
        link.ready_due(app_ready, now) && link.ticked(app_ready, now).ready_due(app_ready, later)
            ==> later - now >= DAEMON_READY_INTERVAL,
        link.heartbeat_due(now) && link.ticked(app_ready, now).heartbeat_due(later) ==> later - now
            >= HEARTBEAT_INTERVAL,
{
}

/// What the app is called with for a client is remembered, so that its answer finds the client.
pub proof fn law_called_request_is_remembered(h: HandlerModel, id: Seq<char>, doc: JsonModel)
    ensures
        marked(h, id, doc).requests.contains(id),
        method_of(doc) == "spotify.image.fetch"@ && params_of(doc).text_field("url"@) is Some
            ==> marked(h, id, doc).images.contains_key(id) && marked(h, id, doc).images[id]
            == params_of(doc).text_field("url"@)->0,
{
}

proof fn lemma_and_some(doc: JsonModel, key: Seq<char>, value: Option<JsonModel>)
    requires
        doc is Table,
    ensures
        and_some(doc, key, value) is Table,
        doc.field(key) is None ==> and_some(doc, key, value).field(key) == value,
        forall|other: Seq<char>|
            other != key ==> #[trigger] and_some(doc, key, value).field(other) == doc.field(other),
        value is Some ==> and_some(doc, key, value) != JsonModel::table(),
        doc != JsonModel::table() ==> and_some(doc, key, value) != JsonModel::table(),
        value is None ==> and_some(doc, key, value) == doc,
{
    if let Some(v) = value {
        crate::json::law_member_is_found(doc, key, v);
        let fields = doc->Table_0;
        assert(fields.push((key, v)).len() > 0);
    }
}

proof fn lemma_known_track_is_told(s: NowPlayingModel)
    ensures
        s.media().field("MediaItemTitle"@) == some_text(s.title),
        s.media().field("MediaItemArtist"@) is Some <==> s.artist is Some,
        s.media().field("MediaItemAlbum"@) == some_text(s.album),
        s.media().field("MediaItemDuration"@) == some_number(s.duration_ms),
        s.media() == JsonModel::table() <==> s.title is None && s.artist is None && s.album is None
            && s.duration_ms is None,
{
    let artist = match s.artist {
        Some(a) => Some(JsonModel::Text(msgpack::clean_artist(a))),
        None => None,
    };
    reveal_strlit("MediaItemTitle");
    reveal_strlit("MediaItemArtist");
    reveal_strlit("MediaItemAlbum");
    reveal_strlit("MediaItemDuration");
    assert("MediaItemTitle"@.len() == 14 && "MediaItemArtist"@.len() == 15);
    assert("MediaItemAlbum"@.len() == 14);
    assert("MediaItemDuration"@.len() == 17);
    assert("MediaItemTitle"@[9] != "MediaItemAlbum"@[9]);
    let d0 = JsonModel::table();
    crate::json::law_bare_object_has_no_member("MediaItemTitle"@);
    crate::json::law_bare_object_has_no_member("MediaItemArtist"@);
    crate::json::law_bare_object_has_no_member("MediaItemAlbum"@);
    crate::json::law_bare_object_has_no_member("MediaItemDuration"@);
    lemma_and_some(d0, "MediaItemTitle"@, some_text(s.title));
    let d1 = and_some(d0, "MediaItemTitle"@, some_text(s.title));
    lemma_and_some(d1, "MediaItemArtist"@, artist);
    let d2 = and_some(d1, "MediaItemArtist"@, artist);
    lemma_and_some(d2, "MediaItemAlbum"@, some_text(s.album));
    let d3 = and_some(d2, "MediaItemAlbum"@, some_text(s.album));
    lemma_and_some(d3, "MediaItemDuration"@, some_number(s.duration_ms));
    let d4 = and_some(d3, "MediaItemDuration"@, some_number(s.duration_ms));
    assert(s.media() == d4);
}

proof fn lemma_known_player_is_told(s: NowPlayingModel)
    ensures
        s.playback().field("PlaybackStatus"@) == some_text(s.status),
        s.playback().field("PlaybackElapsedTime"@) == some_number(s.elapsed_ms),
        s.playback().field("PlaybackShuffleMode"@) == some_text(s.shuffle_mode),
        s.playback().field("PlaybackRepeatMode"@) == some_text(s.repeat_mode),
        s.playback().field("PlaybackAppName"@) == some_text(s.app_name),
        s.playback() == JsonModel::table() <==> s.status is None && s.elapsed_ms is None
            && s.shuffle_mode is None && s.repeat_mode is None && s.app_name is None,
{
    reveal_strlit("PlaybackStatus");
    reveal_strlit("PlaybackElapsedTime");
    reveal_strlit("PlaybackShuffleMode");
    reveal_strlit("PlaybackRepeatMode");
    reveal_strlit("PlaybackAppName");
    assert("PlaybackStatus"@.len() == 14 && "PlaybackElapsedTime"@.len() == 19);
    assert("PlaybackShuffleMode"@.len() == 19);
    assert("PlaybackRepeatMode"@.len() == 18 && "PlaybackAppName"@.len() == 15);
    assert("PlaybackElapsedTime"@[8] != "PlaybackShuffleMode"@[8]);
    let d0 = JsonModel::table();
    crate::json::law_bare_object_has_no_member("PlaybackStatus"@);
    crate::json::law_bare_object_has_no_member("PlaybackElapsedTime"@);
    crate::json::law_bare_object_has_no_member("PlaybackShuffleMode"@);
    crate::json::law_bare_object_has_no_member("PlaybackRepeatMode"@);
    crate::json::law_bare_object_has_no_member("PlaybackAppName"@);
    lemma_and_some(d0, "PlaybackStatus"@, some_text(s.status));
    let d1 = and_some(d0, "PlaybackStatus"@, some_text(s.status));
    lemma_and_some(d1, "PlaybackElapsedTime"@, some_number(s.elapsed_ms));
    let d2 = and_some(d1, "PlaybackElapsedTime"@, some_number(s.elapsed_ms));
    lemma_and_some(d2, "PlaybackShuffleMode"@, some_text(s.shuffle_mode));
    let d3 = and_some(d2, "PlaybackShuffleMode"@, some_text(s.shuffle_mode));
    lemma_and_some(d3, "PlaybackRepeatMode"@, some_text(s.repeat_mode));
    let d4 = and_some(d3, "PlaybackRepeatMode"@, some_text(s.repeat_mode));
    lemma_and_some(d4, "PlaybackAppName"@, some_text(s.app_name));
    let d5 = and_some(d4, "PlaybackAppName"@, some_text(s.app_name));
    assert(s.playback() == d5);
}

/// A member of a part of what the clients are told, where there is the part and the member.
pub open spec fn told_of(doc: JsonModel, part: Seq<char>, key: Seq<char>) -> Option<JsonModel> {
    match doc.field(part) {
        Some(p) => p.field(key),
        None => None,
    }
}

/// What is known of the track and the player is what the clients are told, each thing under its
/// name, and what is not known they are not told.
pub proof fn law_known_is_told(s: NowPlayingModel)
    ensures
        told_of(s.json(), "MediaItemAttributes"@, "MediaItemTitle"@) == some_text(s.title),
        told_of(s.json(), "MediaItemAttributes"@, "MediaItemArtist"@) is Some <==> s.artist is Some,
        told_of(s.json(), "MediaItemAttributes"@, "MediaItemAlbum"@) == some_text(s.album),
        told_of(s.json(), "MediaItemAttributes"@, "MediaItemDuration"@) == some_number(
            s.duration_ms,
        ),
        told_of(s.json(), "PlaybackAttributes"@, "PlaybackStatus"@) == some_text(s.status),
        told_of(s.json(), "PlaybackAttributes"@, "PlaybackElapsedTime"@) == some_number(
            s.elapsed_ms,
        ),
        told_of(s.json(), "PlaybackAttributes"@, "PlaybackShuffleMode"@) == some_text(
            s.shuffle_mode,
        ),
        told_of(s.json(), "PlaybackAttributes"@, "PlaybackRepeatMode"@) == some_text(s.repeat_mode),
        told_of(s.json(), "PlaybackAttributes"@, "PlaybackAppName"@) == some_text(s.app_name),
{
    lemma_known_track_is_told(s);
    lemma_known_player_is_told(s);
    let media = unless_bare(s.media());
    let playback = unless_bare(s.playback());
    reveal_strlit("MediaItemAttributes");
    reveal_strlit("PlaybackAttributes");
    assert("MediaItemAttributes"@.len() == 19 && "PlaybackAttributes"@.len() == 18);
    crate::json::law_bare_object_has_no_member("MediaItemAttributes"@);
    crate::json::law_bare_object_has_no_member("PlaybackAttributes"@);
    lemma_and_some(JsonModel::table(), "MediaItemAttributes"@, media);
    let d1 = and_some(JsonModel::table(), "MediaItemAttributes"@, media);
    lemma_and_some(d1, "PlaybackAttributes"@, playback);
    assert(s.json() == and_some(d1, "PlaybackAttributes"@, playback));
    assert(s.json().field("MediaItemAttributes"@) == media);
    assert(s.json().field("PlaybackAttributes"@) == playback);
}

/// News are taken in and told to the clients as they stand then; other events change nothing of
/// what is known. Only the end of the connection ends it.
pub proof fn law_events_change_what_they_say(
    link: Iap2LinkModel,
    event: ConnectionEvent,
    device: DeviceAddress,
)
    ensures
        event matches ConnectionEvent::NowPlayingUpdate { update } ==> {
            &&& link.told(event).now_playing == link.now_playing.updated(update@)
            &&& event_effects(link.now_playing, event, device) == seq![
                effect::told("media.nowPlaying.update"@, link.told(event).now_playing.json()),
            ]
        },
        !(event is NowPlayingUpdate) ==> link.told(event).now_playing == link.now_playing,
        event is Disconnected ==> !link.told(event).running,
        !(event is Disconnected) ==> link.told(event).running == link.running,
        link.told(event).link == link.link,
        link.told(event).manager == link.manager,
        link.told(event).has_websocket == link.has_websocket,
        event is FileTransferComplete ==> event_effects(link.now_playing, event, device)[0]
            == ClientEffectModel::CancelImageFetches,
        event_effects(link.now_playing, event, device).contains(
            ClientEffectModel::CancelImageFetches,
        ) ==> event is FileTransferComplete,
{
}

/// What is told of the authentication names the device.
pub proof fn law_authentication_names_the_device(name: Seq<char>, device: Seq<char>)
    ensures
        mfi_event(name, device).text_field("event"@) == Some(name),
        mfi_event(name, device).text_field("device"@) == Some(device),
{
    reveal_strlit("event");
    reveal_strlit("device");
    assert("event"@.len() == 5 && "device"@.len() == 6);
    let d0 = JsonModel::table();
    crate::json::law_bare_object_has_no_member("event"@);
    crate::json::law_bare_object_has_no_member("device"@);
    crate::json::law_member_is_found(d0, "event"@, JsonModel::Text(name));
    let d1 = d0.and("event"@, JsonModel::Text(name));
    crate::json::law_member_is_found(d1, "device"@, JsonModel::Text(device));
    let d2 = d1.and("device"@, JsonModel::Text(device));
    assert(mfi_event(name, device) == d2);
}

/// As soon as the interval has passed, what is due is told, to the session that is open, and to
/// none where none is.
pub proof fn law_due_is_told_to_the_open_session(link: Link, app_ready: bool, now: u64)
    ensures
        link.due(app_ready, now).heartbeat is Some <==> link.session_id is Some && now
            - link.last_heartbeat >= HEARTBEAT_INTERVAL,
        link.due(app_ready, now).daemon_ready is Some <==> link.session_id is Some && !app_ready
            && now - link.last_daemon_ready >= DAEMON_READY_INTERVAL,
        link.due(app_ready, now).heartbeat is Some ==> link.due(app_ready, now).heartbeat
            == link.session_id,
        link.due(app_ready, now).daemon_ready is Some ==> link.due(app_ready, now).daemon_ready
            == link.session_id,
        link.ticked(app_ready, now).session_id == link.session_id,
        link.due(app_ready, now).heartbeat is Some ==> link.ticked(app_ready, now).last_heartbeat
            == now,
        link.due(app_ready, now).daemon_ready is Some ==> link.ticked(
            app_ready,
            now,
        ).last_daemon_ready == now,
        !link.heartbeat_due(now) ==> link.ticked(app_ready, now).last_heartbeat
            == link.last_heartbeat,
        !link.ready_due(app_ready, now) ==> link.ticked(app_ready, now).last_daemon_ready
            == link.last_daemon_ready,
{
}

/// A key of the player is sent as a key and an app to start is started, session or not. Any other
/// request is passed on to the app as it is, under its id and to the open session, and to nobody
/// where no session is open.
pub proof fn law_request_goes_where_it_belongs(
    session: Option<u8>,
    id: Seq<char>,
    doc: JsonModel,
)
    ensures
        route_of(session, id, doc) matches PhoneRouteModel::SendHid { command } ==> {
            &&& "media.control."@.is_prefix_of(method_of(doc))
            &&& hid_mapping::hid_command(method_of(doc)) == Some(command)
        },
        route_of(session, id, doc) matches PhoneRouteModel::LaunchApp { bundle_id } ==> {
            &&& doc.text_field("method"@) == Some("device.launchApp"@)
            &&& params_of(doc).text_field("bundleId"@) matches Some(named) ==> bundle_id == named
        },
        route_of(session, id, doc) matches PhoneRouteModel::Call { session_id, call } ==> {
            &&& session == Some(session_id)
            &&& call matches MessageModel::Call { id: called, method, params }
            &&& called == id
            &&& doc.text_field("method"@) matches Some(m) ==> method == m
            &&& doc.field("params"@) matches Some(p) ==> params == p
        },
        route_of(session, id, doc) is NoSession ==> session is None,
        session is None ==> !(route_of(session, id, doc) is Call),
        (session is Some && hid_mapping::hid_command(method_of(doc)) is None && method_of(doc)
            != "device.launchApp"@) ==> route_of(session, id, doc) is Call,
        ("media.control."@.is_prefix_of(method_of(doc)) && hid_mapping::hid_command(method_of(doc))
            is Some) ==> route_of(session, id, doc) is SendHid,
        doc.text_field("method"@) == Some("device.launchApp"@) ==> route_of(session, id, doc)
            is LaunchApp,
{
    reveal_strlit("media.control.");
    reveal_strlit("device.launchApp");
    assert("media.control."@[0] != "device.launchApp"@[0]);
    if "media.control."@.is_prefix_of("device.launchApp"@) {
        assert("media.control."@[0] == "device.launchApp"@.subrange(0, 14)[0]);
    }
    reveal_strlit("unknown");
    assert("unknown"@.len() == 7 && "device.launchApp"@.len() == 16);
}

/// What is remembered of a request leaves what is remembered of the others as it is. The method is
/// remembered of the requests whose answer the daemon itself takes in.
pub proof fn law_called_request_leaves_others_alone(
    h: HandlerModel,
    id: Seq<char>,
    doc: JsonModel,
    other: Seq<char>,
)
    ensures
        method_of(doc) == "device.time.get"@ || method_of(doc) == "device.ota.download"@ ==> {
            &&& marked(h, id, doc).methods.contains_key(id)
            &&& marked(h, id, doc).methods[id] == method_of(doc)
        },
        method_of(doc) != "device.time.get"@ && method_of(doc) != "device.ota.download"@ ==> marked(
            h,
            id,
            doc,
        ).methods == h.methods,
        method_of(doc) != "spotify.image.fetch"@ ==> marked(h, id, doc).images == h.images,
        other != id ==> {
            let after = marked(h, id, doc);
            &&& after.requests.contains(other) == h.requests.contains(other)
            &&& after.methods.contains_key(other) == h.methods.contains_key(other)
            &&& after.methods.contains_key(other) ==> after.methods[other] == h.methods[other]
            &&& after.images.contains_key(other) == h.images.contains_key(other)
            &&& after.images.contains_key(other) ==> after.images[other] == h.images[other]
        },
        marked(h, id, doc).inbound == h.inbound,
        marked(h, id, doc).files == h.files,
        marked(h, id, doc).app_ready == h.app_ready,
        marked(h, id, doc).handlers == h.handlers,
{
}

/// A session that is opened is the one that bytes are taken for and that messages go to, until it
/// ends. The app is told that the daemon is there one interval later at the soonest.
pub proof fn law_open_session_is_used(
    link: Iap2LinkModel,
    session: u8,
    protocol: Seq<char>,
    now: u64,
    id: Seq<char>,
    data: Seq<u8>,
)
    ensures
        ({
            let open = link.with_session(session, protocol, now);
            &&& open.link.session_id == Some(session)
            &&& open.manager.sessions.contains_key(session)
            &&& open.manager.sessions[session] == protocol
            &&& open.manager.handlers == link.manager.handlers
            &&& open.link.ready_due(false, now) ==> DAEMON_READY_INTERVAL == 0
            &&& link.manager.handlers.contains_key(protocol) ==> (open.data_message(id, data)
                matches Some(m) && m.id == id && m.protocol == protocol && m.session_id == session
                && m.data == data)
            &&& !link.manager.handlers.contains_key(protocol) ==> open.data_message(id, data)
                is None
            &&& open.without_session().link.session_id is None
            &&& open.without_session().data_message(id, data) is None
            &&& open.without_session().manager == open.manager
        }),
{
}

/// The phone app is sent the frames of a recording, its start and its end, with what the recorder
/// said of them, and not how loud it is.
pub proof fn law_recording_is_sent_to_the_app(event: AudioEventModel)
    ensures
        audio_message_model(event) is None <==> event is MicLevel,
        event matches AudioEventModel::Data { seq, opus_data, timestamp_ms } ==> {
            &&& audio_message_model(event) matches Some(MessageModel::Event { topic, data })
            &&& topic == "audio.data"@
            &&& data.unsigned_field("seq"@) == Some(seq)
            &&& data.text_field("opus"@) == Some(buffer::base64_text(opus_data))
            &&& data.unsigned_field("ts"@) == Some(timestamp_ms)
        },
        event matches AudioEventModel::Started { sample_rate, channels, frame_ms } ==> {
            &&& audio_message_model(event) matches Some(MessageModel::Event { topic, data })
            &&& topic == "audio.recording.started"@
            &&& data.unsigned_field("sampleRate"@) matches Some(n) && n == sample_rate
            &&& data.unsigned_field("channels"@) matches Some(n) && n == channels
            &&& data.unsigned_field("frameMs"@) matches Some(n) && n == frame_ms
        },
        event matches AudioEventModel::Stopped { reason, total_frames } ==> {
            &&& audio_message_model(event) matches Some(MessageModel::Event { topic, data })
            &&& topic == "audio.recording.stopped"@
            &&& data.text_field("reason"@) == Some(reason)
            &&& data.unsigned_field("totalFrames"@) == Some(total_frames)
        },
{
    match event {
        AudioEventModel::Data { seq, opus_data, timestamp_ms } => {
            reveal_strlit("seq");
            reveal_strlit("opus");
            reveal_strlit("ts");
            assert("seq"@.len() == 3 && "opus"@.len() == 4 && "ts"@.len() == 2);
            let d0 = JsonModel::table();
            crate::json::law_bare_object_has_no_member("seq"@);
            crate::json::law_bare_object_has_no_member("opus"@);
            crate::json::law_bare_object_has_no_member("ts"@);
            crate::json::law_member_is_found(
                d0,
                "seq"@,
                JsonModel::Number(JsonNumber::Unsigned(seq)),
            );
            let d1 = d0.and("seq"@, JsonModel::Number(JsonNumber::Unsigned(seq)));
            crate::json::law_member_is_found(
                d1,
                "opus"@,
                JsonModel::Text(buffer::base64_text(opus_data)),
            );
            let d2 = d1.and("opus"@, JsonModel::Text(buffer::base64_text(opus_data)));
            crate::json::law_member_is_found(
                d2,
                "ts"@,
                JsonModel::Number(JsonNumber::Unsigned(timestamp_ms)),
            );
            let d3 = d2.and("ts"@, JsonModel::Number(JsonNumber::Unsigned(timestamp_ms)));
        },
        AudioEventModel::Started { sample_rate, channels, frame_ms } => {
            reveal_strlit("sampleRate");
            reveal_strlit("channels");
            reveal_strlit("frameMs");
            assert("sampleRate"@.len() == 10 && "channels"@.len() == 8 && "frameMs"@.len() == 7);
            let d0 = JsonModel::table();
            crate::json::law_bare_object_has_no_member("sampleRate"@);
            crate::json::law_bare_object_has_no_member("channels"@);
            crate::json::law_bare_object_has_no_member("frameMs"@);
            crate::json::law_member_is_found(
                d0,
                "sampleRate"@,
                JsonModel::Number(JsonNumber::Unsigned(sample_rate as u64)),
            );
            let d1 = d0.and(
                "sampleRate"@,
                JsonModel::Number(JsonNumber::Unsigned(sample_rate as u64)),
            );
            crate::json::law_member_is_found(
                d1,
                "channels"@,
                JsonModel::Number(JsonNumber::Unsigned(channels as u64)),
            );
            let d2 = d1.and("channels"@, JsonModel::Number(JsonNumber::Unsigned(channels as u64)));
            crate::json::law_member_is_found(
                d2,
                "frameMs"@,
                JsonModel::Number(JsonNumber::Unsigned(frame_ms as u64)),
            );
            let d3 = d2.and("frameMs"@, JsonModel::Number(JsonNumber::Unsigned(frame_ms as u64)));
        },
        AudioEventModel::Stopped { reason, total_frames } => {
            reveal_strlit("reason");
            reveal_strlit("totalFrames");
            assert("reason"@.len() == 6 && "totalFrames"@.len() == 11);
            let d0 = JsonModel::table();
            crate::json::law_bare_object_has_no_member("reason"@);
            crate::json::law_bare_object_has_no_member("totalFrames"@);
            crate::json::law_member_is_found(d0, "reason"@, JsonModel::Text(reason));
            let d1 = d0.and("reason"@, JsonModel::Text(reason));
            crate::json::law_member_is_found(
                d1,
                "totalFrames"@,
                JsonModel::Number(JsonNumber::Unsigned(total_frames)),
            );
            let d2 = d1.and("totalFrames"@, JsonModel::Number(JsonNumber::Unsigned(total_frames)));
        },
        AudioEventModel::MicLevel { .. } => {},
    }
}

/// What goes to a session goes there as it is, and a sign of life carries the time.
pub proof fn law_message_goes_to_the_session(session: u8, message: MessageModel, timestamp_ms: u64)
    ensures
        sent_to(Some(session), message) == Some((session, message)),
        sent_to(None, message) is None,
        heartbeat_model(timestamp_ms) matches MessageModel::Event { topic, data } && topic
            == "daemon.heartbeat"@ && data.unsigned_field("timestamp"@) == Some(timestamp_ms),
{
    reveal_strlit("timestamp");
    let d0 = JsonModel::table();
    crate::json::law_bare_object_has_no_member("timestamp"@);
    crate::json::law_member_is_found(
        d0,
        "timestamp"@,
        JsonModel::Number(JsonNumber::Unsigned(timestamp_ms)),
    );
    let d1 = d0.and("timestamp"@, JsonModel::Number(JsonNumber::Unsigned(timestamp_ms)));
}

/// A device says its own serial number and firmware of itself, and the name that goes with the
/// serial number.
pub proof fn law_device_identifies_itself(serial: Seq<char>, firmware: Seq<char>)
    ensures
        identification(serial, firmware).serial_number == serial,
        identification(serial, firmware).firmware_version == firmware,
        serial.len() > 0 && !text::white_space(serial[0]) && !text::white_space(serial.last())
            ==> config::device_name(Ok(serial)) == Ok::<Seq<char>, crate::error::ErrorModel>(
            identification(serial, firmware).name,
        ),
        identification(serial, firmware).ea_protocol_name == msgpack::MSGPACK_PROTOCOL@,
{
    if serial.len() > 0 && !text::white_space(serial[0]) && !text::white_space(serial.last()) {
        assert(text::trimmed_start(serial) == serial);
        assert(text::trimmed_end(serial) == serial);
    }
}

/// Where there are clients, a connection starts with a handler for their requests and one for the
/// phone app, which nobody waits for yet and which has not said that it is ready; without clients
/// it has none.
pub proof fn law_connection_starts_with_its_handlers()
    ensures
        first_manager(false).handlers.dom() == Set::<Seq<char>>::empty(),
        first_manager(true).handlers.contains_key("websocket.message"@),
        first_manager(true).handlers.contains_key("com.usenocturne.daemon"@),
        first_manager(true).app_ready() == Some(false),
        first_manager(true).handlers["com.usenocturne.daemon"@] matches ProtocolModel::MsgPack(h)
            && h.has_hid && h.has_websocket && h.requests == Set::<Seq<char>>::empty()
            && h.handlers.contains_key("ping"@) && h.handlers.contains_key("device.info"@),
        first_manager(true).handlers["websocket.message"@] matches ProtocolModel::WebSocket(h)
            && h.has_websocket && h.has_audio && h.has_wakeword,
        first_manager(true).sessions.dom() == Set::<u8>::empty(),
{
    assert(msgpack::MSGPACK_PROTOCOL@ == "com.usenocturne.daemon"@);
    reveal_strlit("websocket.message");
    reveal_strlit("com.usenocturne.daemon");
    reveal_strlit("ping");
    reveal_strlit("device.info");
    assert("websocket.message"@.len() == 17 && "com.usenocturne.daemon"@.len() == 22);
    assert("ping"@.len() == 4);
    assert("device.info"@.len() == 11);
    assert(first_manager(false).handlers.dom() =~= Set::<Seq<char>>::empty());
    assert(first_manager(true).sessions.dom() =~= Set::<u8>::empty());
}

/// A request that the app is called with is remembered by the handler of the app, and by no other;
/// one that goes elsewhere is not remembered.
pub proof fn law_only_calls_are_remembered(
    m: ManagerModel,
    route: PhoneRouteModel,
    id: Seq<char>,
    doc: JsonModel,
    other: Seq<char>,
)
    ensures
        !(route is Call) ==> manager_after(m, route, id, doc) == m,
        manager_after(m, route, id, doc).sessions == m.sessions,
        other != "com.usenocturne.daemon"@ && m.handlers.contains_key(other) ==> manager_after(
            m,
            route,
            id,
            doc,
        ).handlers[other] == m.handlers[other],
        (route is Call && m.handlers.contains_key("com.usenocturne.daemon"@)
            && m.handlers["com.usenocturne.daemon"@] is MsgPack) ==> (manager_after(
            m,
            route,
            id,
            doc,
        ).handlers["com.usenocturne.daemon"@] matches ProtocolModel::MsgPack(h)
            && h.requests.contains(id)),
{
}

/// Bytes of the open session make the handler of its protocol know the session, and change nothing
/// where no session is open.
pub proof fn law_data_of_the_open_session_count(link: Iap2LinkModel)
    ensures
        link.link.session_id is None ==> link.with_data() == link,
        link.link.session_id matches Some(session) ==> link.with_data().manager
            == link.manager.with_incoming(session),
        link.with_data().link == link.link,
        link.with_data().now_playing == link.now_playing,
        link.with_data().running == link.running,
        link.with_data().app_ready() == link.app_ready(),
        link.app_ready() <==> (link.manager.app_ready() matches Some(ready) && ready),
{
    if let Some(session) = link.link.session_id {
        crate::app::law_bytes_make_the_session_known(
            link.manager,
            session,
            "com.usenocturne.daemon"@,
        );
    }
}

/// The clients get the picture of a track as it came, and are told which transfer failed.
pub proof fn law_artwork_is_told(
    state: NowPlayingModel,
    event: ConnectionEvent,
    device: DeviceAddress,
)
    ensures
        event matches ConnectionEvent::FileTransferComplete { data } ==> {
            &&& event_effects(state, event, device).len() == 2
            &&& event_effects(state, event, device)[1] matches ClientEffectModel::Broadcast {
                topic,
                data: told,
            }
            &&& topic == "media.nowPlaying.artwork"@
            &&& told.text_field("data"@) == Some(buffer::base64_text(data@))
        },
        event matches ConnectionEvent::FileTransferCorrupted { transfer_id } ==> {
            &&& event_effects(state, event, device).len() == 1
            &&& event_effects(state, event, device)[0] matches ClientEffectModel::Broadcast {
                topic,
                data: told,
            }
            &&& topic == "media.nowPlaying.artwork.failed"@
            &&& told.unsigned_field("transfer_id"@) == Some(transfer_id)
        },
        event matches ConnectionEvent::AuthenticationFailed { reason } ==> {
            &&& event_effects(state, event, device).len() == 1
            &&& event_effects(state, event, device)[0] matches ClientEffectModel::Broadcast {
                topic,
                data: told,
            }
            &&& told.text_field("event"@) == Some("authentication_failed"@)
            &&& told.text_field("device"@) == Some(device.chars())
            &&& told.text_field("reason"@) == Some(reason@)
        },
        event is AuthenticationSucceeded ==> event_effects(state, event, device) == seq![
            effect::told(
                "bluetooth.mfi"@,
                mfi_event("authentication_succeeded"@, device.chars()),
            ),
        ],
{
    reveal_strlit("data");
    reveal_strlit("contentType");
    reveal_strlit("transfer_id");
    reveal_strlit("event");
    reveal_strlit("device");
    reveal_strlit("reason");
    assert("data"@.len() == 4 && "contentType"@.len() == 11 && "transfer_id"@.len() == 11);
    assert("event"@.len() == 5 && "device"@.len() == 6 && "reason"@.len() == 6);
    assert("contentType"@[0] != "transfer_id"@[0]);
    assert("device"@[0] != "reason"@[0]);
    crate::json::law_bare_object_has_no_member("reason"@);
    match event {
        ConnectionEvent::FileTransferComplete { data } => {
            let d0 = JsonModel::table();
            crate::json::law_bare_object_has_no_member("data"@);
            crate::json::law_bare_object_has_no_member("contentType"@);
            crate::json::law_member_is_found(
                d0,
                "data"@,
                JsonModel::Text(buffer::base64_text(data@)),
            );
            let d1 = d0.and("data"@, JsonModel::Text(buffer::base64_text(data@)));
            crate::json::law_member_is_found(d1, "contentType"@, JsonModel::Text("image/jpeg"@));
            let d2 = d1.and("contentType"@, JsonModel::Text("image/jpeg"@));
        },
        ConnectionEvent::FileTransferCorrupted { transfer_id } => {
            let d0 = JsonModel::table();
            crate::json::law_bare_object_has_no_member("transfer_id"@);
            crate::json::law_member_is_found(
                d0,
                "transfer_id"@,
                JsonModel::Number(JsonNumber::Unsigned(transfer_id)),
            );
            let d1 = d0.and("transfer_id"@, JsonModel::Number(JsonNumber::Unsigned(transfer_id)));
        },
        ConnectionEvent::AuthenticationFailed { reason } => {
            let d0 = JsonModel::table();
            crate::json::law_bare_object_has_no_member("event"@);
            crate::json::law_bare_object_has_no_member("device"@);
            crate::json::law_bare_object_has_no_member("reason"@);
            crate::json::law_member_is_found(
                d0,
                "event"@,
                JsonModel::Text("authentication_failed"@),
            );
            let d1 = d0.and("event"@, JsonModel::Text("authentication_failed"@));
            crate::json::law_member_is_found(d1, "device"@, JsonModel::Text(device.chars()));
            let d2 = d1.and("device"@, JsonModel::Text(device.chars()));
            crate::json::law_member_is_found(d2, "reason"@, JsonModel::Text(reason@));
            let d3 = d2.and("reason"@, JsonModel::Text(reason@));
        },
        _ => {},
    }
}

} // verus!
