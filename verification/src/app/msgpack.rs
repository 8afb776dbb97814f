//! The protocol of the phone app: calls, results, errors and events in MessagePack.
use crate::app::chunk;
use crate::app::hid_mapping;
use crate::app::hid_mapping::HidCommand;
use crate::app::inbound::{Arrived, Inbound, InboundModel, Retransmission};
use crate::app::ota;
use crate::app::ota::{
    FileWrite, FileWriteModel, OtaFileModel, OtaFiles, OtaPackageInfo, OtaPackageModel,
};
use crate::app::{AppMessage, AppMessageModel};
use crate::buffer;
use crate::config;
use crate::config::DeviceInfoMetadata;
use crate::error::{ErrorModel, NocturnedError};
use crate::json::{Json, JsonModel, JsonNumber};
use crate::table::{TextMap, TextSet};
use crate::text;
use bytes::Bytes;
use vstd::prelude::*;

verus! {

broadcast use crate::json::lemma_json_view;

/// The protocol's name.
pub const MSGPACK_PROTOCOL: &'static str = "com.usenocturne.daemon";

/// A message of the protocol.
#[derive(Debug)]
pub enum MsgPackMessage {
    Call { id: String, method: String, params: Json },
    Result { id: String, result: Json },
    Error { id: String, error: String },
    Event { topic: String, data: Json },
}

/// A message of the protocol, apart from how it is stored.
pub enum MessageModel {
    Call { id: Seq<char>, method: Seq<char>, params: JsonModel },
    Result { id: Seq<char>, result: JsonModel },
    Error { id: Seq<char>, error: Seq<char> },
    Event { topic: Seq<char>, data: JsonModel },
}

impl View for MsgPackMessage {
    type V = MessageModel;

    open spec fn view(&self) -> MessageModel {
        match self {
            MsgPackMessage::Call { id, method, params } => MessageModel::Call {
                id: id@,
                method: method@,
                params: params@,
            },
            MsgPackMessage::Result { id, result } => MessageModel::Result {
                id: id@,
                result: result@,
            },
            MsgPackMessage::Error { id, error } => MessageModel::Error { id: id@, error: error@ },
            MsgPackMessage::Event { topic, data } => MessageModel::Event {
                topic: topic@,
                data: data@,
            },
        }
    }
}

/// The event that carries one frame of a recording.
pub open spec fn audio_data_event(seq: u64, opus_data: Seq<u8>, timestamp_ms: u64) -> MessageModel {
    MessageModel::Event {
        topic: "audio.data"@,
        data: JsonModel::table().and(
            "seq"@,
            JsonModel::Number(JsonNumber::Unsigned(seq)),
        ).and("opus"@, JsonModel::Text(buffer::base64_text(opus_data))).and(
            "ts"@,
            JsonModel::Number(JsonNumber::Unsigned(timestamp_ms)),
        ),
    }
}

/// Makes the event that carries one frame of a recording.
pub fn create_audio_data_event(seq: u64, opus_data: &[u8], timestamp_ms: u64) -> (r: MsgPackMessage)
    requires
        buffer::base64_fits(opus_data@.len()),
    ensures
        r@ == audio_data_event(seq, opus_data@, timestamp_ms),
{
    let opus = buffer::base64_encode(opus_data);
    MsgPackMessage::Event {
        topic: "audio.data".to_owned(),
        data: Json::table().and("seq", Json::unsigned(seq)).and("opus", Json::Text(opus)).and(
            "ts",
            Json::unsigned(timestamp_ms),
        ),
    }
}

/// Makes an event about the course of a recording.
pub fn create_audio_lifecycle_event(topic: &str, data: Json) -> (r: MsgPackMessage)
    ensures
        r@ == (MessageModel::Event { topic: topic@, data: data@ }),
{
    MsgPackMessage::Event { topic: topic.to_owned(), data }
}

/// What answers a call.
#[derive(Clone, Copy, Debug, PartialEq, Eq, Structural)]
pub enum CallHandler {
    /// A greeting.
    Ping,
    /// What the daemon tells of itself.
    DeviceInfo,
    /// A function that is kept outside.
    Outside,
}

/// What is to be done about a message, besides answering it.
#[derive(Debug)]
pub enum Effect {
    /// Tell the clients of an event.
    Broadcast { event: String, data: Json },
    /// Answer a client's request.
    Respond { id: String, result: Json },
    /// Answer a client's request with a failure.
    RespondError { id: String, error: String },
    /// Forget that an image was asked for.
    UntrackImageFetch { id: String },
    /// Keep an image.
    CacheImage { url: String, image: String },
    /// Set the clock.
    SetClock { datetime: String },
    /// Hand a result to the call that waits for it.
    CompleteCall { id: String, result: Json },
    /// Download a package.
    StartDownload { package: OtaPackageInfo },
    /// Write a pushed file.
    WriteFile { name: String, file: FileWrite },
    /// Put a failure on record.
    Fault { fault: NocturnedError },
}

/// What is to be done, apart from how it is stored.
pub enum EffectModel {
    Broadcast { event: Seq<char>, data: JsonModel },
    Respond { id: Seq<char>, result: JsonModel },
    RespondError { id: Seq<char>, error: Seq<char> },
    UntrackImageFetch { id: Seq<char> },
    CacheImage { url: Seq<char>, image: Seq<char> },
    SetClock { datetime: Seq<char> },
    CompleteCall { id: Seq<char>, result: JsonModel },
    StartDownload { package: OtaPackageModel },
    WriteFile { name: Seq<char>, file: FileWriteModel },
    Fault { fault: ErrorModel },
}

impl View for Effect {
    type V = EffectModel;

    open spec fn view(&self) -> EffectModel {
        match self {
            Effect::Broadcast { event, data } => EffectModel::Broadcast {
                event: event@,
                data: data@,
            },
            Effect::Respond { id, result } => EffectModel::Respond { id: id@, result: result@ },
            Effect::RespondError { id, error } => EffectModel::RespondError {
                id: id@,
                error: error@,
            },
            Effect::UntrackImageFetch { id } => EffectModel::UntrackImageFetch { id: id@ },
            Effect::CacheImage { url, image } => EffectModel::CacheImage { url: url@, image: image@ },
            Effect::SetClock { datetime } => EffectModel::SetClock { datetime: datetime@ },
            Effect::CompleteCall { id, result } => EffectModel::CompleteCall {
                id: id@,
                result: result@,
            },
            Effect::StartDownload { package } => EffectModel::StartDownload { package: package@ },
            Effect::WriteFile { name, file } => EffectModel::WriteFile {
                name: name@,
                file: file@,
            },
            Effect::Fault { fault } => EffectModel::Fault { fault: fault@ },
        }
    }
}

/// The models of what is to be done.
pub open spec fn effect_models(effects: Seq<Effect>) -> Seq<EffectModel> {
    effects.map_values(|e: Effect| e@)
}

/// One thing to do, where it applies.
pub open spec fn doing(applies: bool, effect: EffectModel) -> Seq<EffectModel> {
    if applies {
        seq![effect]
    } else {
        Seq::empty()
    }
}

/// How a message is answered.
#[derive(Debug)]
pub enum Outcome {
    /// Not at all.
    Done,
    /// With a message.
    Reply(MsgPackMessage),
    /// By whether a key could be sent.
    SendHid { id: String, command: HidCommand },
    /// With what the daemon tells of itself.
    ReportDevice { id: String },
    /// With what a function that is kept outside returns.
    RunHandler { id: String, method: String, params: Json },
}

/// How a message is answered, apart from how it is stored.
pub enum OutcomeModel {
    Done,
    Reply(MessageModel),
    SendHid { id: Seq<char>, command: HidCommand },
    ReportDevice { id: Seq<char> },
    RunHandler { id: Seq<char>, method: Seq<char>, params: JsonModel },
}

impl View for Outcome {
    type V = OutcomeModel;

    open spec fn view(&self) -> OutcomeModel {
        match self {
            Outcome::Done => OutcomeModel::Done,
            Outcome::Reply(m) => OutcomeModel::Reply(m@),
            Outcome::SendHid { id, command } => OutcomeModel::SendHid {
                id: id@,
                command: *command,
            },
            Outcome::ReportDevice { id } => OutcomeModel::ReportDevice { id: id@ },
            Outcome::RunHandler { id, method, params } => OutcomeModel::RunHandler {
                id: id@,
                method: method@,
                params: params@,
            },
        }
    }
}

/// The ids of the calls whose result is waited for.
pub struct PendingCalls {
    ids: TextSet,
}

impl View for PendingCalls {
    type V = Set<Seq<char>>;

    closed spec fn view(&self) -> Set<Seq<char>> {
        self.ids@
    }
}

impl PendingCalls {
    /// No result is waited for.
    pub fn new() -> (r: PendingCalls)
        ensures
            r@ == Set::<Seq<char>>::empty(),
    {
        PendingCalls { ids: TextSet::new() }
    }

    /// Waits for the result of a call.
    pub fn expect(&mut self, id: String)
        ensures
            final(self)@ == old(self)@.insert(id@),
    {
        self.ids.insert(id);
    }

    /// Stops waiting for the result of a call, and says whether it was waited for.
    pub fn complete(&mut self, id: &str) -> (r: bool)
        ensures
            final(self)@ == old(self)@.remove(id@),
            r == old(self)@.contains(id@),
    {
        self.ids.remove(id)
    }
}

/// The state of the protocol. What the effects need is there or not: clients, a store for images,
/// a remote control, and a session to send to.
pub struct MsgPackProtocolHandler {
    inbound: Inbound,
    call_handlers: TextMap<CallHandler>,
    websocket_message_ids: TextSet,
    pending_image_requests: TextMap<String>,
    pending_methods: TextMap<String>,
    ota_files: OtaFiles,
    ota_package_info: Option<OtaPackageInfo>,
    session_id: Option<u8>,
    app_ready_received: bool,
    has_websocket: bool,
    has_image_cache: bool,
    has_session: bool,
    has_hid: bool,
}

/// The state of the protocol, apart from how it is stored.
#[verifier::ext_equal]
pub struct HandlerModel {
    pub inbound: InboundModel,
    pub handlers: Map<Seq<char>, CallHandler>,
    pub requests: Set<Seq<char>>,
    pub images: Map<Seq<char>, Seq<char>>,
    pub methods: Map<Seq<char>, Seq<char>>,
    pub files: Map<Seq<char>, OtaFileModel>,
    pub package: Option<OtaPackageModel>,
    pub session_id: Option<u8>,
    pub app_ready: bool,
    pub has_websocket: bool,
    pub has_image_cache: bool,
    pub has_session: bool,
    pub has_hid: bool,
}

/// The texts under texts.
pub open spec fn text_values(m: Map<Seq<char>, String>) -> Map<Seq<char>, Seq<char>> {
    m.map_values(|s: String| s@)
}

/// A package, where there is one.
pub open spec fn optional_package(p: Option<OtaPackageInfo>) -> Option<OtaPackageModel> {
    match p {
        Some(p) => Some(p@),
        None => None,
    }
}

impl View for MsgPackProtocolHandler {
    type V = HandlerModel;

    closed spec fn view(&self) -> HandlerModel {
        HandlerModel {
            inbound: self.inbound@,
            handlers: self.call_handlers@,
            requests: self.websocket_message_ids@,
            images: text_values(self.pending_image_requests@),
            methods: text_values(self.pending_methods@),
            files: self.ota_files@,
            package: optional_package(self.ota_package_info),
            session_id: self.session_id,
            app_ready: self.app_ready_received,
            has_websocket: self.has_websocket,
            has_image_cache: self.has_image_cache,
            has_session: self.has_session,
            has_hid: self.has_hid,
        }
    }
}

/// The handlers that are there from the start.
pub open spec fn default_handlers() -> Map<Seq<char>, CallHandler> {
    Map::<Seq<char>, CallHandler>::empty().insert("ping"@, CallHandler::Ping).insert(
        "device.info"@,
        CallHandler::DeviceInfo,
    )
}

/// What a call is answered with, and what is to be done about it.
pub open spec fn call_handled(
    state: HandlerModel,
    id: Seq<char>,
    method: Seq<char>,
    params: JsonModel,
) -> (OutcomeModel, Seq<EffectModel>) {
    if "media.control."@.is_prefix_of(method) {
        (
            match hid_mapping::hid_command(method) {
                Some(command) => if state.has_hid {
                    OutcomeModel::SendHid { id, command }
                } else {
                    OutcomeModel::Reply(MessageModel::Error { id, error: "hid_unavailable"@ })
                },
                None => OutcomeModel::Reply(
                    MessageModel::Error { id, error: "unknown_method: "@ + method },
                ),
            },
            Seq::empty(),
        )
    } else if method == "device.volume.update"@ {
        let volume = match params.signed_field("volumePercent"@) {
            Some(n) => n,
            None => 0,
        };
        (
            OutcomeModel::Reply(
                MessageModel::Result {
                    id,
                    result: JsonModel::table().and("success"@, JsonModel::Bool(true)),
                },
            ),
            doing(
                state.has_websocket,
                EffectModel::Broadcast {
                    event: "phone.volume.update"@,
                    data: JsonModel::table().and(
                        "volumePercent"@,
                        JsonModel::Number(crate::json::signed_number(volume)),
                    ),
                },
            ),
        )
    } else {
        (
            if state.handlers.contains_key(method) {
                match state.handlers[method] {
                    CallHandler::Ping => OutcomeModel::Reply(
                        MessageModel::Result {
                            id,
                            result: JsonModel::table().and(
                                "pong"@,
                                JsonModel::Text("hello from nocturne"@),
                            ),
                        },
                    ),
                    CallHandler::DeviceInfo => OutcomeModel::ReportDevice { id },
                    CallHandler::Outside => OutcomeModel::RunHandler { id, method, params },
                }
            } else {
                OutcomeModel::Reply(
                    MessageModel::Error { id, error: "Method not found: "@ + method },
                )
            },
            Seq::empty(),
        )
    }
}

/// What is to be done about a result that no call waits for: the clock is set where the time was
/// asked for, an image that was asked for is kept, and a client that waits gets its answer.
pub open spec fn result_effects(
    state: HandlerModel,
    id: Seq<char>,
    result: JsonModel,
) -> Seq<EffectModel> {
    let clock = match result.text_field("datetime"@) {
        Some(datetime) => doing(
            state.methods.contains_key(id) && state.methods[id] == "device.time.get"@,
            EffectModel::SetClock { datetime },
        ),
        None => Seq::empty(),
    };
    let untrack = doing(
        state.images.contains_key(id) && state.has_websocket,
        EffectModel::UntrackImageFetch { id },
    );
    let keep = match result.text_field("data"@) {
        Some(data) => doing(
            state.images.contains_key(id) && state.has_image_cache,
            EffectModel::CacheImage { url: state.images[id], image: data },
        ),
        None => Seq::empty(),
    };
    let answer = doing(
        state.requests.contains(id) && state.has_websocket,
        EffectModel::Respond { id, result },
    );
    clock + untrack + keep + answer
}

/// The state after a result that no call waits for: nothing is kept of the id.
pub open spec fn result_taken(state: HandlerModel, id: Seq<char>) -> HandlerModel {
    HandlerModel {
        methods: state.methods.remove(id),
        images: state.images.remove(id),
        requests: state.requests.remove(id),
        ..state
    }
}

/// What is to be done about an error.
pub open spec fn error_effects(state: HandlerModel, id: Seq<char>, error: Seq<char>) -> Seq<
    EffectModel,
> {
    doing(
        state.requests.contains(id) && state.has_websocket,
        EffectModel::RespondError { id, error },
    )
}

/// The artist of a track without what some players add to it.
pub open spec fn clean_artist(artist: Seq<char>) -> Seq<char> {
    let s = text::without(artist, " • Video Available"@);
    let s = text::without(s, "Video Available • "@);
    let s = text::without(s, "Video Available"@);
    let s = text::without(s, " • Lossless"@);
    let s = text::without(s, "Lossless • "@);
    text::without(s, "Lossless"@)
}

/// The data of an event as the clients get it.
pub open spec fn shown_data(topic: Seq<char>, data: JsonModel) -> JsonModel {
    if topic != "media.nowPlaying.update"@ {
        data
    } else {
        match data.field("MediaItemAttributes"@) {
            Some(attrs) => match attrs.text_field("MediaItemArtist"@) {
                Some(artist) => data.with(
                    "MediaItemAttributes"@,
                    attrs.with("MediaItemArtist"@, JsonModel::Text(clean_artist(artist))),
                ),
                None => data,
            },
            None => data,
        }
    }
}

/// The data of an event about the progress of a pushed file.
pub open spec fn push_progress(data: JsonModel) -> JsonModel {
    JsonModel::table().and(
        "chunk_index"@,
        JsonModel::Number(
            JsonNumber::Unsigned(
                match data.unsigned_field("chunk_index"@) {
                    Some(n) => n,
                    None => 0,
                },
            ),
        ),
    ).and(
        "total_chunks"@,
        JsonModel::Number(
            JsonNumber::Unsigned(
                match data.unsigned_field("total_chunks"@) {
                    Some(n) => n,
                    None => 0,
                },
            ),
        ),
    ).and("file_name"@, JsonModel::Text(ota::text_or(data, "file_name"@, "unknown"@)))
}

/// The state after an event.
pub open spec fn event_taken(state: HandlerModel, topic: Seq<char>, data: JsonModel) -> HandlerModel {
    if topic == "device.ota.package_state"@ {
        match ota::package_state(data) {
            Ok(Some(package)) => HandlerModel { package: Some(package), ..state },
            _ => state,
        }
    } else if topic == "device.ota.chunk"@ {
        match ota::chunk_message(data) {
            Ok(c) => HandlerModel { files: ota::files_after(state.files, c), ..state },
            Err(_) => state,
        }
    } else if topic == "app.ready"@ {
        HandlerModel { app_ready: true, ..state }
    } else {
        state
    }
}

/// What is to be done about an event: updates are taken in, the app sets the clock when it is
/// ready, and all but the updates is passed on to the clients.
pub open spec fn event_effects(state: HandlerModel, topic: Seq<char>, data: JsonModel) -> Seq<
    EffectModel,
> {
    if topic == "device.ota.package_state"@ {
        match ota::package_state(data) {
            Ok(Some(package)) => seq![EffectModel::StartDownload { package }],
            Ok(None) => Seq::empty(),
            Err(fault) => seq![EffectModel::Fault { fault }],
        }
    } else if topic == "device.ota.chunk"@ {
        let taken = match ota::chunk_message(data) {
            Ok(c) => match ota::file_completed(state.files, c) {
                Some(file) => seq![EffectModel::WriteFile { name: c.file_name, file }],
                None => Seq::empty(),
            },
            Err(fault) => seq![EffectModel::Fault { fault }],
        };
        taken + doing(
            state.has_websocket,
            EffectModel::Broadcast { event: "device.ota.progress"@, data: push_progress(data) },
        )
    } else {
        let clock = match data.text_field("datetime"@) {
            Some(datetime) => doing(topic == "app.ready"@, EffectModel::SetClock { datetime }),
            None => Seq::empty(),
        };
        clock + doing(
            state.has_websocket,
            EffectModel::Broadcast { event: topic, data: shown_data(topic, data) },
        )
    }
}

/// The state, the awaited calls, the answer and the effects after a message.
pub open spec fn message_handled(
    state: HandlerModel,
    calls: Set<Seq<char>>,
    m: MessageModel,
) -> (HandlerModel, Set<Seq<char>>, OutcomeModel, Seq<EffectModel>) {
    match m {
        MessageModel::Call { id, method, params } => {
            let (outcome, effects) = call_handled(state, id, method, params);
            (state, calls, outcome, effects)
        },
        MessageModel::Result { id, result } => if calls.contains(id) {
            (
                state,
                calls.remove(id),
                OutcomeModel::Done,
                seq![EffectModel::CompleteCall { id, result }],
            )
        } else {
            (
                result_taken(state, id),
                calls,
                OutcomeModel::Done,
                result_effects(state, id, result),
            )
        },
        MessageModel::Error { id, error } => (
            HandlerModel { requests: state.requests.remove(id), ..state },
            calls,
            OutcomeModel::Done,
            error_effects(state, id, error),
        ),
        MessageModel::Event { topic, data } => (
            event_taken(state, topic, data),
            calls,
            OutcomeModel::Done,
            event_effects(state, topic, data),
        ),
    }
}

impl HandlerModel {
    /// The state of a protocol that nothing has happened to.
    pub open spec fn fresh(has_websocket: bool, has_image_cache: bool) -> HandlerModel {
        HandlerModel {
            inbound: InboundModel::empty(),
            handlers: default_handlers(),
            requests: Set::empty(),
            images: Map::empty(),
            methods: Map::empty(),
            files: Map::empty(),
            package: None,
            session_id: None,
            app_ready: false,
            has_websocket,
            has_image_cache,
            has_session: false,
            has_hid: false,
        }
    }

    /// The state once a pushed file was written.
    pub open spec fn with_written(self, name: Seq<char>) -> HandlerModel {
        HandlerModel { files: self.files.remove(name), ..self }
    }

    /// What is to be done once a pushed file was written.
    pub open spec fn written_effects(self, file: ota::FileWriteModel) -> Seq<EffectModel> {
        doing(
            self.has_websocket,
            EffectModel::Broadcast {
                event: "device.ota.complete"@,
                data: ota::complete_event(file.path, file.data.len()),
            },
        )
    }

    /// The session that calls go to, where there is one.
    pub open spec fn target(self) -> Option<u8> {
        if self.has_session {
            self.session_id
        } else {
            None
        }
    }

    /// What is kept of chunks and files is in order.
    pub open spec fn well_formed(self) -> bool {
        self.inbound.well_formed() && ota::files_well_formed(self.files)
    }
}

/// Adds something to do.
fn push_effect(effects: &mut Vec<Effect>, effect: Effect)
    ensures
        effect_models(final(effects)@) == effect_models(old(effects)@).push(effect@),
{
    let ghost before = effects@;
    effects.push(effect);
    assert(effect_models(effects@) =~= effect_models(before).push(effect@));
}

/// Takes out of the artist of a track what some players add to it.
pub fn cleaned_artist(artist: &str) -> (r: String)
    ensures
        r@ == clean_artist(artist@),
{
    let s = text::remove_all(artist, " • Video Available");
    let s = text::remove_all(s.as_str(), "Video Available • ");
    let s = text::remove_all(s.as_str(), "Video Available");
    let s = text::remove_all(s.as_str(), " • Lossless");
    let s = text::remove_all(s.as_str(), "Lossless • ");
    text::remove_all(s.as_str(), "Lossless")
}

fn shown(topic: &str, data: Json) -> (r: Json)
    ensures
        r@ == shown_data(topic@, data@),
{
    if !text::same(topic, "media.nowPlaying.update") {
        return data;
    }
    let changed = match data.get("MediaItemAttributes") {
        Some(attrs) => match attrs.get_str("MediaItemArtist") {
            Some(artist) => {
                let s = cleaned_artist(artist);
                let mut attrs = attrs.clone();
                attrs.set("MediaItemArtist", Json::Text(s));
                Some(attrs)
            },
            None => None,
        },
        None => None,
    };
    match changed {
        Some(attrs) => {
            let mut data = data;
            data.set("MediaItemAttributes", attrs);
            data
        },
        None => data,
    }
}

impl MsgPackProtocolHandler {
    /// A protocol that nothing has happened to.
    pub fn new(has_websocket: bool) -> (r: MsgPackProtocolHandler)
        ensures
            r@ == HandlerModel::fresh(has_websocket, false),
            r@.well_formed(),
    {
        MsgPackProtocolHandler::fresh(has_websocket, false)
    }

    /// A protocol that nothing has happened to, with a store for images.
    pub fn with_image_cache(has_websocket: bool) -> (r: MsgPackProtocolHandler)
        ensures
            r@ == HandlerModel::fresh(has_websocket, true),
            r@.well_formed(),
    {
        MsgPackProtocolHandler::fresh(has_websocket, true)
    }

    fn fresh(has_websocket: bool, has_image_cache: bool) -> (r: MsgPackProtocolHandler)
        ensures
            r@ == HandlerModel::fresh(has_websocket, has_image_cache),
            r@.well_formed(),
    {
        let mut handler = MsgPackProtocolHandler {
            inbound: Inbound::new(),
            call_handlers: TextMap::new(),
            websocket_message_ids: TextSet::new(),
            pending_image_requests: TextMap::new(),
            pending_methods: TextMap::new(),
            ota_files: OtaFiles::new(),
            ota_package_info: None,
            session_id: None,
            app_ready_received: false,
            has_websocket,
            has_image_cache,
            has_session: false,
            has_hid: false,
        };
        handler.register_default_handlers();
        assert(handler@ =~= HandlerModel::fresh(has_websocket, has_image_cache));
        handler
    }

    /// Whether the app has said that it is ready.
    pub fn app_ready_flag(&self) -> (r: bool)
        ensures
            r == self@.app_ready,
    {
        self.app_ready_received
    }

    /// A session to send to is there.
    pub fn set_session_info(&mut self, session_id: u8)
        ensures
            final(self)@ == (HandlerModel {
                session_id: Some(session_id),
                has_session: true,
                ..old(self)@
            }),
    {
        self.session_id = Some(session_id);
        self.has_session = true;
    }

    /// A remote control is there.
    pub fn set_hid_tx(&mut self)
        ensures
            final(self)@ == (HandlerModel { has_hid: true, ..old(self)@ }),
    {
        self.has_hid = true;
    }

    fn register_default_handlers(&mut self)
        ensures
            final(self)@ == (HandlerModel {
                handlers: old(self)@.handlers.insert("ping"@, CallHandler::Ping).insert(
                    "device.info"@,
                    CallHandler::DeviceInfo,
                ),
                ..old(self)@
            }),
    {
        self.register_call_handler("ping".to_owned(), CallHandler::Ping);
        self.register_call_handler("device.info".to_owned(), CallHandler::DeviceInfo);
    }

    /// Lets calls of a method be answered, in place of what answered them.
    pub fn register_call_handler(&mut self, method: String, handler: CallHandler)
        ensures
            final(self)@ == (HandlerModel {
                handlers: old(self)@.handlers.insert(method@, handler),
                ..old(self)@
            }),
    {
        self.call_handlers.insert(method, handler);
    }

    /// The answer with an id is for a client.
    pub fn mark_as_websocket_message(&mut self, message_id: String)
        ensures
            final(self)@ == (HandlerModel {
                requests: old(self)@.requests.insert(message_id@),
                ..old(self)@
            }),
    {
        self.websocket_message_ids.insert(message_id);
    }

    /// The answer with an id is to a call of a method.
    pub fn mark_method_for_message(&mut self, message_id: String, method: String)
        ensures
            final(self)@ == (HandlerModel {
                methods: old(self)@.methods.insert(message_id@, method@),
                ..old(self)@
            }),
    {
        self.pending_methods.insert(message_id, method);
        assert(self@.methods =~= old(self)@.methods.insert(message_id@, method@));
    }

    /// The answer with an id is the image under a URL.
    pub fn mark_as_image_request(&mut self, message_id: String, url: String)
        ensures
            final(self)@ == (HandlerModel {
                images: old(self)@.images.insert(message_id@, url@),
                ..old(self)@
            }),
    {
        self.pending_image_requests.insert(message_id, url);
        assert(self@.images =~= old(self)@.images.insert(message_id@, url@));
    }

    /// Cuts a message into envelopes.
    pub fn create_chunks(data: &[u8]) -> (r: Result<Vec<Bytes>, NocturnedError>)
        ensures
            r is Ok,
            exists|id: Seq<char>|
                chunk::own_id(id) && chunk::payloads(r->Ok_0@) == #[trigger] chunk::envelopes(
                    data@,
                    id,
                ),
    {
        chunk::create_chunks(data)
    }

    fn handle_call(&self, id: String, method: String, params: Json) -> (r: (Outcome, Vec<Effect>))
        ensures
            (r.0@, effect_models(r.1@)) == call_handled(self@, id@, method@, params@),
    {
        let mut effects: Vec<Effect> = Vec::new();
        assert(effect_models(effects@) =~= Seq::empty());
        if text::starts_with(method.as_str(), "media.control.") {
            let outcome = match hid_mapping::method_to_hid_command(method.as_str()) {
                Some(command) => if self.has_hid {
                    Outcome::SendHid { id, command }
                } else {
                    Outcome::Reply(
                        MsgPackMessage::Error { id, error: "hid_unavailable".to_owned() },
                    )
                },
                None => Outcome::Reply(
                    MsgPackMessage::Error {
                        id,
                        error: text::joined("unknown_method: ", method.as_str()),
                    },
                ),
            };
            return (outcome, effects);
        }
        if text::same(method.as_str(), "device.volume.update") {
            let volume: i64 = match params.get_i64("volumePercent") {
                Some(n) => n,
                None => 0,
            };
            if self.has_websocket {
                push_effect(
                    &mut effects,
                    Effect::Broadcast {
                        event: "phone.volume.update".to_owned(),
                        data: Json::table().and("volumePercent", Json::signed(volume)),
                    },
                );
                assert(Seq::<EffectModel>::empty().push(effects@[0]@) =~= seq![effects@[0]@]);
            }
            let result = Json::table().and("success", Json::Bool(true));
            return (Outcome::Reply(MsgPackMessage::Result { id, result }), effects);
        }
        let outcome = match self.call_handlers.get(method.as_str()) {
            Some(handler) => match *handler {
                CallHandler::Ping => Outcome::Reply(
                    MsgPackMessage::Result {
                        id,
                        result: Json::table().and("pong", Json::text("hello from nocturne")),
                    },
                ),
                CallHandler::DeviceInfo => Outcome::ReportDevice { id },
                CallHandler::Outside => Outcome::RunHandler { id, method, params },
            },
            None => Outcome::Reply(
                MsgPackMessage::Error {
                    id,
                    error: text::joined("Method not found: ", method.as_str()),
                },
            ),
        };
        (outcome, effects)
    }

    fn handle_result(&mut self, id: String, result: Json) -> (r: Vec<Effect>)
        ensures
            final(self)@ == result_taken(old(self)@, id@),
            effect_models(r@) == result_effects(old(self)@, id@, result@),
    {
        let ghost before = self@;
        let mut effects: Vec<Effect> = Vec::new();
        assert(effect_models(effects@) =~= Seq::empty());
        if let Some(method) = self.pending_methods.remove(id.as_str()) {
            if text::same(method.as_str(), "device.time.get") {
                if let Some(datetime) = result.get_str("datetime") {
                    push_effect(&mut effects, Effect::SetClock { datetime: datetime.to_owned() });
                }
            }
        }
        let ghost first = effect_models(effects@);
        if let Some(url) = self.pending_image_requests.remove(id.as_str()) {
            if self.has_websocket {
                push_effect(&mut effects, Effect::UntrackImageFetch { id: id.clone() });
            }
            if self.has_image_cache {
                if let Some(data) = result.get_str("data") {
                    push_effect(&mut effects, Effect::CacheImage { url, image: data.to_owned() });
                }
            }
        }
        let ghost id_chars = id@;
        if self.websocket_message_ids.contains(id.as_str()) {
            self.websocket_message_ids.remove(id.as_str());
            if self.has_websocket {
                push_effect(&mut effects, Effect::Respond { id, result });
            }
        }
        assert(self@.methods =~= before.methods.remove(id_chars));
        assert(self@.images =~= before.images.remove(id_chars));
        assert(self@.requests =~= before.requests.remove(id_chars));
        assert(effect_models(effects@) =~= result_effects(before, id_chars, result@));
        effects
    }

    fn handle_error(&mut self, id: String, error: String) -> (r: Vec<Effect>)
        ensures
            final(self)@ == (HandlerModel {
                requests: old(self)@.requests.remove(id@),
                ..old(self)@
            }),
            effect_models(r@) == error_effects(old(self)@, id@, error@),
    {
        let ghost before = self@;
        let mut effects: Vec<Effect> = Vec::new();
        let ghost id_chars = id@;
        if self.websocket_message_ids.contains(id.as_str()) {
            self.websocket_message_ids.remove(id.as_str());
            if self.has_websocket {
                effects.push(Effect::RespondError { id, error });
            }
        }
        assert(self@.requests =~= before.requests.remove(id_chars));
        assert(effect_models(effects@) =~= error_effects(before, id_chars, error@));
        effects
    }

    fn handle_event(&mut self, topic: String, data: Json) -> (r: Vec<Effect>)
        requires
            old(self)@.well_formed(),
        ensures
            final(self)@ == event_taken(old(self)@, topic@, data@),
            effect_models(r@) == event_effects(old(self)@, topic@, data@),
            final(self)@.well_formed(),
    {
        let ghost before = self@;
        let ghost topic_chars = topic@;
        let ghost model = data@;
        let mut effects: Vec<Effect> = Vec::new();
        if text::same(topic.as_str(), "device.ota.package_state") {
            match ota::handle_package_state(&data) {
                Ok(Some(package)) => {
                    self.ota_package_info = Some(package.clone());
                    effects.push(Effect::StartDownload { package });
                },
                Ok(None) => {},
                Err(fault) => {
                    effects.push(Effect::Fault { fault });
                },
            }
        } else if text::same(topic.as_str(), "device.ota.chunk") {
            match self.ota_files.handle_ota_chunk(&data) {
                Ok(Some((name, file))) => {
                    effects.push(Effect::WriteFile { name, file });
                },
                Ok(None) => {},
                Err(fault) => {
                    effects.push(Effect::Fault { fault });
                },
            }
            if self.has_websocket {
                let chunk_index: u64 = match data.get_u64("chunk_index") {
                    Some(n) => n,
                    None => 0,
                };
                let total_chunks: u64 = match data.get_u64("total_chunks") {
                    Some(n) => n,
                    None => 0,
                };
                let file_name = match data.get_str("file_name") {
                    Some(s) => Json::text(s),
                    None => Json::text("unknown"),
                };
                effects.push(
                    Effect::Broadcast {
                        event: "device.ota.progress".to_owned(),
                        data: Json::table().and("chunk_index", Json::unsigned(chunk_index)).and(
                            "total_chunks",
                            Json::unsigned(total_chunks),
                        ).and("file_name", file_name),
                    },
                );
            }
        } else {
            if text::same(topic.as_str(), "app.ready") {
                self.app_ready_received = true;
                if let Some(datetime) = data.get_str("datetime") {
                    effects.push(Effect::SetClock { datetime: datetime.to_owned() });
                }
            }
            if self.has_websocket {
                let data = shown(topic.as_str(), data);
                effects.push(Effect::Broadcast { event: topic, data });
            }
        }
        assert(effect_models(effects@) =~= event_effects(before, topic_chars, model));
        assert(self@ =~= event_taken(before, topic_chars, model));
        effects
    }

    /// Handles a message: says how it is answered and what else is to be done.
    pub fn handle_msgpack_message(&mut self, calls: &mut PendingCalls, msg: MsgPackMessage) -> (r: (
        Outcome,
        Vec<Effect>,
    ))
        requires
            old(self)@.well_formed(),
        ensures
            (final(self)@, final(calls)@, r.0@, effect_models(r.1@)) == message_handled(
                old(self)@,
                old(calls)@,
                msg@,
            ),
            final(self)@.well_formed(),
    {
        match msg {
            MsgPackMessage::Call { id, method, params } => self.handle_call(id, method, params),
            MsgPackMessage::Result { id, result } => {
                let ghost before = calls@;
                let ghost id_chars = id@;
                if calls.complete(id.as_str()) {
                    let mut effects: Vec<Effect> = Vec::new();
                    effects.push(Effect::CompleteCall { id, result });
                    assert(effect_models(effects@) =~= seq![
                        EffectModel::CompleteCall { id: id_chars, result: result@ },
                    ]);
                    (Outcome::Done, effects)
                } else {
                    assert(calls@ =~= before);
                    (Outcome::Done, self.handle_result(id, result))
                }
            },
            MsgPackMessage::Error { id, error } => (Outcome::Done, self.handle_error(id, error)),
            MsgPackMessage::Event { topic, data } => (
                Outcome::Done,
                self.handle_event(topic, data),
            ),
        }
    }
}

/// What answers a call for a key, by what went wrong when the key was sent.
pub open spec fn hid_reply_model(id: Seq<char>, fault: Option<Seq<char>>) -> MessageModel {
    match fault {
        None => MessageModel::Result {
            id,
            result: JsonModel::table().and("status"@, JsonModel::Text("ok"@)),
        },
        Some(fault) => MessageModel::Error { id, error: "hid_send_failed: "@ + fault },
    }
}

/// Answers a call for a key.
pub fn hid_reply(id: String, fault: Option<String>) -> (r: MsgPackMessage)
    ensures
        r@ == hid_reply_model(id@, text::optional_text(fault)),
{
    match fault {
        None => MsgPackMessage::Result {
            id,
            result: Json::table().and("status", Json::text("ok")),
        },
        Some(fault) => MsgPackMessage::Error {
            id,
            error: text::joined("hid_send_failed: ", fault.as_str()),
        },
    }
}

/// Answers a call for what the daemon tells of itself.
pub fn device_info_reply(id: String, info: &DeviceInfoMetadata) -> (r: MsgPackMessage)
    ensures
        r@ == (MessageModel::Result { id: id@, result: config::device_info_json(info@) }),
{
    MsgPackMessage::Result { id, result: info.to_json() }
}

/// Answers a call with what a function that is kept outside returned.
pub fn handler_reply(id: String, result: Json) -> (r: MsgPackMessage)
    ensures
        r@ == (MessageModel::Result { id: id@, result: result@ }),
{
    MsgPackMessage::Result { id, result }
}

/// The event that asks for a chunk again.
pub open spec fn retransmit_event(r: (Seq<char>, u16)) -> EffectModel {
    EffectModel::Broadcast {
        event: "chunk.retransmit_request"@,
        data: JsonModel::table().and("message_id"@, JsonModel::Text(r.0)).and(
            "chunk_idx"@,
            JsonModel::Number(JsonNumber::Unsigned(r.1 as u64)),
        ),
    }
}

/// The state once it is known that a message of a session came in.
pub open spec fn session_seen(state: HandlerModel, session: u8) -> HandlerModel {
    HandlerModel {
        session_id: match state.session_id {
            Some(id) => Some(id),
            None => Some(session),
        },
        ..state
    }
}

/// The messages that answer what came in: the first goes back the way it came, the others to the
/// session.
pub open spec fn routed(state: HandlerModel, session: u8, responses: Seq<AppMessageModel>) -> (
    Option<AppMessageModel>,
    Seq<AppMessageModel>,
) {
    if responses.len() == 0 {
        (None, Seq::empty())
    } else {
        (
            Some(responses[0]),
            if state.has_session {
                responses.skip(1).map_values(
                    |m: AppMessageModel| AppMessageModel { session_id: session, ..m },
                )
            } else {
                Seq::empty()
            },
        )
    }
}

/// The models of messages.
pub open spec fn message_models(messages: Seq<AppMessage>) -> Seq<AppMessageModel> {
    messages.map_values(|m: AppMessage| m@)
}

/// A message, where there is one.
pub open spec fn optional_message(m: Option<AppMessage>) -> Option<AppMessageModel> {
    match m {
        Some(m) => Some(m@),
        None => None,
    }
}

/// The message that answers a request, out of the envelopes of the answer: an answer in more than
/// one envelope, or in none, is not sent.
pub open spec fn response_model(request_id: Seq<char>, envelopes: Seq<Seq<u8>>) -> Option<
    AppMessageModel,
> {
    if envelopes.len() == 1 {
        Some(
            AppMessageModel {
                id: request_id,
                protocol: MSGPACK_PROTOCOL@,
                session_id: 0,
                data: envelopes[0],
            },
        )
    } else {
        None
    }
}

/// The messages that carry a call to a session.
pub open spec fn call_messages_model(
    message_id: Seq<char>,
    session: u8,
    envelopes: Seq<Seq<u8>>,
) -> Seq<AppMessageModel> {
    envelopes.map_values(
        |e: Seq<u8>| AppMessageModel {
            id: message_id,
            protocol: MSGPACK_PROTOCOL@,
            session_id: session,
            data: e,
        },
    )
}

/// Makes the message that answers a request out of the envelopes of the answer.
pub fn response_of(request_id: &str, chunks: Vec<Bytes>) -> (r: Option<AppMessage>)
    ensures
        optional_message(r) == response_model(request_id@, chunk::payloads(chunks@)),
{
    if chunks.len() == 1 {
        let mut chunks = chunks;
        let data = chunks.remove(0);
        Some(
            AppMessage {
                id: request_id.to_owned(),
                protocol: MSGPACK_PROTOCOL.to_owned(),
                session_id: 0,
                data,
            },
        )
    } else {
        None
    }
}

/// Makes the messages that carry a call to a session, or fails where there is none.
pub fn call_messages(session: Option<u8>, message_id: &str, chunks: Vec<Bytes>) -> (r: Result<
    Vec<AppMessage>,
    NocturnedError,
>)
    ensures
        match session {
            Some(session) => r matches Ok(messages) && message_models(messages@)
                == call_messages_model(message_id@, session, chunk::payloads(chunks@)),
            None => r matches Err(e) && e@ == ErrorModel::Config("Session not initialized"@),
        },
{
    let session: u8 = match session {
        Some(s) => s,
        None => return Err(NocturnedError::config("Session not initialized")),
    };
    let ghost goal = call_messages_model(message_id@, session, chunk::payloads(chunks@));
    let mut out: Vec<AppMessage> = Vec::new();
    let mut i: usize = 0;
    while i < chunks.len()
        invariant
            i <= chunks.len(),
            goal == call_messages_model(message_id@, session, chunk::payloads(chunks@)),
            out@.len() == i,
            forall|k: int| 0 <= k < i ==> (#[trigger] out@[k])@ == goal[k],
        decreases chunks.len() - i,
    {
        out.push(
            AppMessage {
                id: message_id.to_owned(),
                protocol: MSGPACK_PROTOCOL.to_owned(),
                session_id: session,
                data: buffer::bytes_copy(buffer::bytes_slice(&chunks[i])),
            },
        );
        i += 1;
    }
    assert(message_models(out@) =~= goal);
    Ok(out)
}

/// Makes a call under a given id, whose result is then waited for.
pub fn call_with_id(calls: &mut PendingCalls, id: &str, method: &str, params: Json) -> (r:
    MsgPackMessage)
    ensures
        final(calls)@ == old(calls)@.insert(id@),
        r@ == (MessageModel::Call { id: id@, method: method@, params: params@ }),
{
    calls.expect(id.to_owned());
    MsgPackMessage::Call { id: id.to_owned(), method: method.to_owned(), params }
}

/// Makes a call under an id of its own, whose result is then waited for.
pub fn call_method(calls: &mut PendingCalls, method: &str, params: Json) -> (r: (
    String,
    MsgPackMessage,
))
    ensures
        chunk::uuid_text(r.0@),
        final(calls)@ == old(calls)@.insert(r.0@),
        r.1@ == (MessageModel::Call { id: r.0@, method: method@, params: params@ }),
{
    let id = chunk::new_uuid();
    let message = call_with_id(calls, id.as_str(), method, params);
    (id, message)
}

impl MsgPackProtocolHandler {
    /// The protocol's name.
    pub fn protocol_name(&self) -> (r: &str)
        ensures
            r@ == MSGPACK_PROTOCOL@,
    {
        MSGPACK_PROTOCOL
    }

    /// Takes in a message of a session: its bytes are cut into envelopes, and whole messages come
    /// out.
    pub fn handle_message(&mut self, message: &AppMessage) -> (r: Arrived)
        requires
            old(self)@.well_formed(),
            message@.data.len() <= isize::MAX,
        ensures
            final(self)@ == (HandlerModel {
                inbound: old(self)@.inbound.received(message@.session_id, message@.data),
                ..session_seen(old(self)@, message@.session_id)
            }),
            r@ == old(self)@.inbound.arrives(message@.session_id, message@.data),
            final(self)@.well_formed(),
    {
        if self.session_id.is_none() {
            self.session_id = Some(message.session_id);
        }
        self.inbound.process_inbound(message.session_id, buffer::bytes_slice(&message.data))
    }

    /// What is to be done about chunks that came damaged.
    pub fn request_chunk_retransmission(&self, retransmissions: &Vec<Retransmission>) -> (r: Vec<
        Effect,
    >)
        ensures
            effect_models(r@) == if self@.has_websocket {
                retransmissions@.map_values(|r: Retransmission| retransmit_event(r@))
            } else {
                Seq::empty()
            },
    {
        let mut out: Vec<Effect> = Vec::new();
        assert(effect_models(out@) =~= Seq::empty());
        if !self.has_websocket {
            return out;
        }
        let ghost goal = retransmissions@.map_values(|r: Retransmission| retransmit_event(r@));
        let mut i: usize = 0;
        while i < retransmissions.len()
            invariant
                i <= retransmissions.len(),
                goal == retransmissions@.map_values(|r: Retransmission| retransmit_event(r@)),
                out@.len() == i,
                forall|k: int| 0 <= k < i ==> (#[trigger] out@[k])@ == goal[k],
            decreases retransmissions.len() - i,
        {
            out.push(
                Effect::Broadcast {
                    event: "chunk.retransmit_request".to_owned(),
                    data: Json::table().and(
                        "message_id",
                        Json::text(retransmissions[i].message_id.as_str()),
                    ).and("chunk_idx", Json::unsigned(retransmissions[i].chunk_idx as u64)),
                },
            );
            i += 1;
        }
        assert(effect_models(out@) =~= goal);
        out
    }

    /// What is to be done about a message that is a document but none of the protocol: a client
    /// that waits for it is told what is wrong.
    pub fn reject_undecodable(&mut self, doc: &Json, fault: &str) -> (r: Vec<Effect>)
        ensures
            match doc@.text_field("id"@) {
                Some(id) => {
                    &&& final(self)@ == (HandlerModel {
                        requests: old(self)@.requests.remove(id),
                        ..old(self)@
                    })
                    &&& effect_models(r@) == error_effects(
                        old(self)@,
                        id,
                        "MessagePack decode error: "@ + fault@,
                    )
                },
                None => final(self)@ == old(self)@ && r@.len() == 0,
            },
    {
        match doc.get_str("id") {
            Some(id) => self.handle_error(
                id.to_owned(),
                text::joined("MessagePack decode error: ", fault),
            ),
            None => Vec::new(),
        }
    }

    /// Makes the message that answers a request.
    pub fn create_response(&self, request_id: String, data: Bytes) -> (r: AppMessage)
        ensures
            r@ == (AppMessageModel {
                id: request_id@,
                protocol: MSGPACK_PROTOCOL@,
                session_id: 0,
                data: buffer::payload(data),
            }),
    {
        AppMessage { id: request_id, protocol: MSGPACK_PROTOCOL.to_owned(), session_id: 0, data }
    }

    /// Frames the bytes of an answer, which is sent where it fits in one envelope.
    pub fn frame_response(&self, request_id: &str, response_data: &[u8]) -> (r: Option<AppMessage>)
        ensures
            r is Some <==> 0 < response_data@.len() <= chunk::CHUNK_SIZE,
            exists|id: Seq<char>|
                chunk::own_id(id) && optional_message(r) == response_model(
                    request_id@,
                    #[trigger] chunk::envelopes(response_data@, id),
                ),
    {
        match chunk::create_chunks(response_data) {
            Ok(chunks) => response_of(request_id, chunks),
            Err(_) => None,
        }
    }

    /// Says which answers go where.
    pub fn route_responses(&self, session_id: u8, responses: Vec<AppMessage>) -> (r: (
        Option<AppMessage>,
        Vec<AppMessage>,
    ))
        ensures
            (optional_message(r.0), message_models(r.1@)) == routed(
                self@,
                session_id,
                message_models(responses@),
            ),
    {
        let ghost models = message_models(responses@);
        let mut rest: Vec<AppMessage> = Vec::new();
        assert(message_models(rest@) =~= Seq::empty());
        if responses.len() == 0 {
            return (None, rest);
        }
        let mut responses = responses;
        let first = responses.remove(0);
        assert(first@ == models[0]);
        if self.has_session {
            let ghost goal = models.skip(1).map_values(
                |m: AppMessageModel| AppMessageModel { session_id: session_id, ..m },
            );
            assert(responses@.len() == goal.len());
            while responses.len() > 0
                invariant
                    rest@.len() + responses@.len() == goal.len(),
                    goal.len() == models.len() - 1,
                    goal == models.skip(1).map_values(
                        |m: AppMessageModel| AppMessageModel { session_id: session_id, ..m },
                    ),
                    forall|k: int|
                        0 <= k < responses@.len() ==> (#[trigger] responses@[k])@ == models[k + 1
                            + rest@.len()],
                    forall|k: int| 0 <= k < rest@.len() ==> (#[trigger] rest@[k])@ == goal[k],
                decreases responses@.len(),
            {
                let mut extra = responses.remove(0);
                extra.session_id = session_id;
                rest.push(extra);
            }
            assert(message_models(rest@) =~= goal);
        }
        (Some(first), rest)
    }

    /// Forgets a pushed file that was written, and says what the clients are told.
    pub fn file_written(&mut self, file_name: &str, file: &FileWrite) -> (r: Vec<Effect>)
        requires
            old(self)@.well_formed(),
        ensures
            final(self)@ == (HandlerModel {
                files: old(self)@.files.remove(file_name@),
                ..old(self)@
            }),
            final(self)@ == old(self)@.with_written(file_name@),
            effect_models(r@) == old(self)@.written_effects(file@),
            effect_models(r@) == doing(
                old(self)@.has_websocket,
                EffectModel::Broadcast {
                    event: "device.ota.complete"@,
                    data: ota::complete_event(file@.path, file@.data.len()),
                },
            ),
            final(self)@.well_formed(),
    {
        let ghost before = self@;
        self.ota_files.written(file_name);
        let mut out: Vec<Effect> = Vec::new();
        if self.has_websocket {
            out.push(
                Effect::Broadcast {
                    event: "device.ota.complete".to_owned(),
                    data: ota::complete_event_data(file.path.as_str(), file.data.len()),
                },
            );
        }
        assert(effect_models(out@) =~= doing(
            before.has_websocket,
            EffectModel::Broadcast {
                event: "device.ota.complete"@,
                data: ota::complete_event(file@.path, file@.data.len()),
            },
        ));
        out
    }

    /// The session that calls go to, where there is one.
    pub fn call_session(&self) -> (r: Option<u8>)
        ensures
            r == if self@.has_session {
                self@.session_id
            } else {
                None
            },
            r == self@.target(),
    {
        if self.has_session {
            self.session_id
        } else {
            None
        }
    }
}

/// A client that waits for an id gets one answer: once a result or an error has come for it and no
/// call was waiting, nothing more is sent to it.
pub proof fn law_request_is_answered_once(
    state: HandlerModel,
    calls: Set<Seq<char>>,
    id: Seq<char>,
    first: MessageModel,
    error: Seq<char>,
    result: JsonModel,
)
    requires
        !calls.contains(id),
        first matches MessageModel::Result { id: x, .. } ==> x == id,
        first matches MessageModel::Error { id: x, .. } ==> x == id,
        first is Result || first is Error,
    ensures
        ({
            let (after, _, _, _) = message_handled(state, calls, first);
            let (_, _, _, again) = message_handled(after, calls, MessageModel::Result { id, result });
            let (_, _, _, failed) = message_handled(after, calls, MessageModel::Error { id, error });
            &&& !after.requests.contains(id)
            &&& !again.contains(EffectModel::Respond { id, result })
            &&& failed.len() == 0
        }),
{
    let (after, _, _, _) = message_handled(state, calls, first);
    let again = message_handled(after, calls, MessageModel::Result { id, result }).3;
    assert forall|k: int| 0 <= k < again.len() implies #[trigger] again[k] != (
    EffectModel::Respond { id, result }) by {}
}

/// A client that waits gets the answer as it came, when no call was waiting for the same id.
pub proof fn law_request_gets_its_answer(
    state: HandlerModel,
    calls: Set<Seq<char>>,
    id: Seq<char>,
    result: JsonModel,
    error: Seq<char>,
)
    requires
        state.has_websocket,
        state.requests.contains(id),
        !calls.contains(id),
    ensures
        message_handled(state, calls, MessageModel::Result { id, result }).3.last() == (
        EffectModel::Respond { id, result }),
        message_handled(state, calls, MessageModel::Error { id, error }).3 == seq![
            EffectModel::RespondError { id, error },
        ],
{
}

/// A call that waits gets its result, once, and nobody else gets it.
pub proof fn law_waiting_call_gets_its_result_once(
    state: HandlerModel,
    calls: Set<Seq<char>>,
    id: Seq<char>,
    result: JsonModel,
)
    requires
        calls.contains(id),
    ensures
        ({
            let (after, left, outcome, effects) = message_handled(
                state,
                calls,
                MessageModel::Result { id, result },
            );
            &&& after == state
            &&& left == calls.remove(id)
            &&& !left.contains(id)
            &&& effects == seq![EffectModel::CompleteCall { id, result }]
        }),
{
}

/// A call is answered, and nothing but a call is.
pub proof fn law_calls_are_answered(state: HandlerModel, calls: Set<Seq<char>>, m: MessageModel)
    ensures
        message_handled(state, calls, m).2 is Done <==> !(m is Call),
{
}

/// Whatever a call is answered with, it is answered under its id, and a handler is given the method
/// and the parameters of the call.
pub proof fn law_call_is_answered_under_its_id(
    state: HandlerModel,
    id: Seq<char>,
    method: Seq<char>,
    params: JsonModel,
)
    ensures
        match call_handled(state, id, method, params).0 {
            OutcomeModel::Done => false,
            OutcomeModel::Reply(MessageModel::Result { id: answered, .. }) => answered == id,
            OutcomeModel::Reply(MessageModel::Error { id: answered, .. }) => answered == id,
            OutcomeModel::Reply(_) => false,
            OutcomeModel::SendHid { id: answered, command } => answered == id
                && hid_mapping::hid_command(method) == Some(command),
            OutcomeModel::ReportDevice { id: answered } => answered == id,
            OutcomeModel::RunHandler { id: answered, method: m, params: p } => answered == id && m
                == method && p == params,
        },
{
}

/// A call with a method that nothing handles is refused, and one with a method that a handler was
/// registered for goes to that handler.
pub proof fn law_call_goes_to_its_handler(
    state: HandlerModel,
    id: Seq<char>,
    method: Seq<char>,
    params: JsonModel,
)
    requires
        !"media.control."@.is_prefix_of(method),
        method != "device.volume.update"@,
    ensures
        ({
            let (outcome, effects) = call_handled(state, id, method, params);
            &&& effects.len() == 0
            &&& !state.handlers.contains_key(method) <==> (outcome is Reply && outcome->Reply_0
                is Error)
            &&& state.handlers.contains_key(method) ==> {
                &&& state.handlers[method] == CallHandler::Outside <==> outcome is RunHandler
                &&& state.handlers[method] == CallHandler::DeviceInfo <==> outcome is ReportDevice
                &&& state.handlers[method] == CallHandler::Ping <==> (outcome is Reply
                    && outcome->Reply_0 is Result)
            }
        }),
{
}

/// A key of the player is pressed where keys can be sent, and a key that there is none for is
/// refused.
pub proof fn law_key_is_pressed(
    state: HandlerModel,
    id: Seq<char>,
    method: Seq<char>,
    params: JsonModel,
)
    requires
        "media.control."@.is_prefix_of(method),
    ensures
        ({
            let (outcome, effects) = call_handled(state, id, method, params);
            &&& effects.len() == 0
            &&& outcome is SendHid <==> state.has_hid && hid_mapping::hid_command(method) is Some
            &&& !(outcome is SendHid) ==> outcome is Reply && outcome->Reply_0 is Error
        }),
{
}

/// The clients are told the volume that the phone says.
pub proof fn law_volume_is_told(
    state: HandlerModel,
    id: Seq<char>,
    params: JsonModel,
    volume: i64,
)
    requires
        state.has_websocket,
        params.signed_field("volumePercent"@) == Some(volume),
    ensures
        ({
            let (outcome, effects) = call_handled(state, id, "device.volume.update"@, params);
            &&& effects.len() == 1
            &&& effects[0] matches EffectModel::Broadcast { event, data }
            &&& event == "phone.volume.update"@
            &&& data.signed_field("volumePercent"@) == Some(volume)
        }),
{
    reveal_strlit("media.control.");
    reveal_strlit("device.volume.update");
    assert("media.control."@[0] != "device.volume.update"@[0]);
    if "media.control."@.is_prefix_of("device.volume.update"@) {
        assert("media.control."@[0] == "device.volume.update"@.subrange(0, 14)[0]);
    }
    crate::json::law_numbers_read_back(volume, 0);
    reveal_strlit("volumePercent");
    let d0 = JsonModel::table();
    crate::json::law_bare_object_has_no_member("volumePercent"@);
    crate::json::law_member_is_found(
        d0,
        "volumePercent"@,
        JsonModel::Number(crate::json::signed_number(volume)),
    );
    let d1 = d0.and("volumePercent"@, JsonModel::Number(crate::json::signed_number(volume)));
}

/// An image that came is kept under the address that it was asked for by, and as it came. The clock
/// is set only by an answer to the question for the time. Nothing else is kept or set.
pub proof fn law_result_does_what_was_asked_for(
    state: HandlerModel,
    id: Seq<char>,
    result: JsonModel,
    url: Seq<char>,
    image: Seq<char>,
    datetime: Seq<char>,
)
    ensures
        result_effects(state, id, result).contains(EffectModel::CacheImage { url, image }) <==> {
            &&& state.has_image_cache
            &&& state.images.contains_key(id)
            &&& state.images[id] == url
            &&& result.text_field("data"@) == Some(image)
        },
        result_effects(state, id, result).contains(EffectModel::SetClock { datetime }) <==> {
            &&& state.methods.contains_key(id)
            &&& state.methods[id] == "device.time.get"@
            &&& result.text_field("datetime"@) == Some(datetime)
        },
        result_effects(state, id, result).contains(EffectModel::Respond { id, result }) <==> {
            &&& state.has_websocket
            &&& state.requests.contains(id)
        },
        result_effects(state, id, result).contains(EffectModel::UntrackImageFetch { id }) <==> {
            &&& state.has_websocket
            &&& state.images.contains_key(id)
        },
{
    let clock = match result.text_field("datetime"@) {
        Some(datetime) => doing(
            state.methods.contains_key(id) && state.methods[id] == "device.time.get"@,
            EffectModel::SetClock { datetime },
        ),
        None => Seq::empty(),
    };
    let untrack = doing(
        state.images.contains_key(id) && state.has_websocket,
        EffectModel::UntrackImageFetch { id },
    );
    let keep = match result.text_field("data"@) {
        Some(data) => doing(
            state.images.contains_key(id) && state.has_image_cache,
            EffectModel::CacheImage { url: state.images[id], image: data },
        ),
        None => Seq::empty(),
    };
    let answer = doing(
        state.requests.contains(id) && state.has_websocket,
        EffectModel::Respond { id, result },
    );
    let all = result_effects(state, id, result);
    assert(clock.len() > 0 ==> all[0] == clock[0]);
    assert(untrack.len() > 0 ==> all[clock.len() as int] == untrack[0]);
    assert(keep.len() > 0 ==> all[(clock.len() + untrack.len()) as int] == keep[0]);
    assert(answer.len() > 0 ==> all[(clock.len() + untrack.len() + keep.len()) as int]
        == answer[0]);
}

/// Once a result or an error was taken in, nothing is kept of its id, and all that is kept of
/// others stays.
pub proof fn law_answer_leaves_others_alone(
    state: HandlerModel,
    calls: Set<Seq<char>>,
    id: Seq<char>,
    result: JsonModel,
    error: Seq<char>,
    other: Seq<char>,
)
    requires
        !calls.contains(id),
        other != id,
    ensures
        ({
            let after = message_handled(state, calls, MessageModel::Result { id, result }).0;
            &&& !after.requests.contains(id)
            &&& !after.images.contains_key(id)
            &&& !after.methods.contains_key(id)
            &&& after.requests.contains(other) == state.requests.contains(other)
            &&& after.images.contains_key(other) == state.images.contains_key(other)
            &&& state.images.contains_key(other) ==> after.images[other] == state.images[other]
            &&& after.methods.contains_key(other) == state.methods.contains_key(other)
            &&& state.methods.contains_key(other) ==> after.methods[other] == state.methods[other]
            &&& after.inbound == state.inbound
            &&& after.files == state.files
            &&& after.app_ready == state.app_ready
        }),
        ({
            let after = message_handled(state, calls, MessageModel::Error { id, error }).0;
            &&& !after.requests.contains(id)
            &&& after.requests.contains(other) == state.requests.contains(other)
            &&& after.images == state.images
            &&& after.methods == state.methods
            &&& after.files == state.files
        }),
        message_handled(state, calls, MessageModel::Result { id, result }).1 == calls,
        message_handled(state, calls, MessageModel::Error { id, error }).1 == calls,
{
}

/// An event that is not about updates reaches the clients under its topic, once and last, and apart
/// from the artist of a track its data are what came.
pub proof fn law_event_reaches_the_clients(
    state: HandlerModel,
    topic: Seq<char>,
    data: JsonModel,
)
    requires
        topic != "device.ota.package_state"@,
        topic != "device.ota.chunk"@,
        state.has_websocket,
    ensures
        event_effects(state, topic, data).last() matches EffectModel::Broadcast { event, data: shown }
            && event == topic && (topic != "media.nowPlaying.update"@ ==> shown == data),
        event_effects(state, topic, data).len() <= 2,
        forall|datetime: Seq<char>|
            #[trigger] event_effects(state, topic, data).contains(
                EffectModel::SetClock { datetime },
            )
                <==> topic == "app.ready"@ && data.text_field("datetime"@) == Some(datetime),
        event_taken(state, topic, data).app_ready == (state.app_ready || topic == "app.ready"@),
        event_taken(state, topic, data).files == state.files,
        event_taken(state, topic, data).package == state.package,
        event_taken(state, topic, data).requests == state.requests,
{
    let done = event_effects(state, topic, data);
    if let Some(datetime) = data.text_field("datetime"@) {
        if topic == "app.ready"@ {
            assert(done[0] == EffectModel::SetClock { datetime });
        }
    }
}

/// The clients see a track as it came, but for what some players add to the name of its artist.
pub proof fn law_only_the_artist_is_changed(data: JsonModel, key: Seq<char>)
    ensures
        key != "MediaItemAttributes"@ ==> shown_data("media.nowPlaying.update"@, data).field(key)
            == data.field(key),
        key != "MediaItemArtist"@ ==> {
            let shown = shown_data("media.nowPlaying.update"@, data).field("MediaItemAttributes"@);
            let came = data.field("MediaItemAttributes"@);
            &&& shown is Some <==> came is Some
            &&& came matches Some(attrs) ==> shown->0.field(key) == attrs.field(key)
        },
        (data.field("MediaItemAttributes"@) matches Some(attrs) && attrs.text_field(
            "MediaItemArtist"@,
        ) is None) ==> shown_data("media.nowPlaying.update"@, data) == data,
{
    if let Some(attrs) = data.field("MediaItemAttributes"@) {
        if let Some(artist) = attrs.text_field("MediaItemArtist"@) {
            let clean = JsonModel::Text(clean_artist(artist));
            let changed = attrs.with("MediaItemArtist"@, clean);
            crate::json::law_field_after_with(data, "MediaItemAttributes"@, changed);
            if key != "MediaItemAttributes"@ {
                crate::json::law_with_keeps_other_fields(
                    data,
                    "MediaItemAttributes"@,
                    changed,
                    key,
                );
            }
            if key != "MediaItemArtist"@ {
                crate::json::law_with_keeps_other_fields(attrs, "MediaItemArtist"@, clean, key);
            }
        }
    }
}

/// The name of an artist to which nothing was added stays as it is, and what was added behind it is
/// taken off.
pub proof fn law_artist_keeps_its_name(artist: Seq<char>)
    requires
        !text::holds(artist, "Video Available"@),
        !text::holds(artist, "Lossless"@),
    ensures
        clean_artist(artist) == artist,
        clean_artist(artist + " • Video Available"@) == artist,
        clean_artist(artist + " • Lossless"@) == artist,
{
    reveal_strlit(" • Video Available");
    reveal_strlit("Video Available • ");
    reveal_strlit("Video Available");
    reveal_strlit(" • Lossless");
    reveal_strlit("Lossless • ");
    reveal_strlit("Lossless");
    let video = " • Video Available"@;
    let lossless = " • Lossless"@;
    assert(video.subrange(3, 18) =~= "Video Available"@);
    assert("Video Available • "@.subrange(0, 15) =~= "Video Available"@);
    assert(lossless.subrange(3, 11) =~= "Lossless"@);
    assert("Lossless • "@.subrange(0, 8) =~= "Lossless"@);
    lemma_longer_is_not_held(artist, video, "Video Available"@, 3);
    lemma_longer_is_not_held(artist, "Video Available • "@, "Video Available"@, 0);
    lemma_longer_is_not_held(artist, lossless, "Lossless"@, 3);
    lemma_longer_is_not_held(artist, "Lossless • "@, "Lossless"@, 0);
    lemma_stays(artist, video);
    lemma_stays(artist, "Video Available • "@);
    lemma_stays(artist, "Video Available"@);
    lemma_stays(artist, lossless);
    lemma_stays(artist, "Lossless • "@);
    lemma_stays(artist, "Lossless"@);
    assert(video[0] == ' ' && video[1] == '•' && video[2] == ' ' && video[8] == ' ');
    assert(video[3] == 'V' && video[9] == 'A');
    assert forall|d: int| 0 < d < video.len() implies video[d] != video[0] || (d + 1 < video.len()
        && #[trigger] video[d + 1] != video[1]) by {
        if d == 2 || d == 8 {
        }
    }
    lemma_suffix_is_taken_off(artist, video);
    assert(lossless[0] == ' ' && lossless[1] == '•' && lossless[2] == ' ' && lossless[3]
        == 'L');
    assert forall|d: int| 0 < d < lossless.len() implies lossless[d] != lossless[0] || (d + 1
        < lossless.len() && #[trigger] lossless[d + 1] != lossless[1]) by {
        if d == 2 {
        }
    }
    lemma_suffix_is_taken_off(artist, lossless);
    let tagged = artist + lossless;
    lemma_no_video_in_lossless(artist);
    lemma_longer_is_not_held(tagged, video, "Video Available"@, 3);
    lemma_longer_is_not_held(tagged, "Video Available • "@, "Video Available"@, 0);
    lemma_stays(tagged, video);
    lemma_stays(tagged, "Video Available • "@);
    lemma_stays(tagged, "Video Available"@);
}

proof fn lemma_longer_is_not_held(s: Seq<char>, long: Seq<char>, short: Seq<char>, at: int)
    requires
        0 <= at <= long.len() - short.len(),
        long.subrange(at, at + short.len()) == short,
        !text::holds(s, short),
    ensures
        !text::holds(s, long),
{
    if text::holds(s, long) {
        let i = choose|i: int| text::occurs_at(s, long, i);
        assert(s.subrange(i + at, i + at + short.len()) =~= s.subrange(i, i + long.len()).subrange(
            at,
            at + short.len(),
        ));
        assert(text::occurs_at(s, short, i + at));
    }
}

proof fn lemma_stays(s: Seq<char>, pattern: Seq<char>)
    requires
        pattern.len() > 0,
        !text::holds(s, pattern),
    ensures
        text::without(s, pattern) == s,
{
    text::law_pattern_is_taken_out(s, pattern, Seq::empty());
}

proof fn lemma_suffix_is_taken_off(s: Seq<char>, pattern: Seq<char>)
    requires
        pattern.len() >= 2,
        !text::holds(s, pattern),
        forall|d: int|
            0 < d < pattern.len() ==> pattern[d] != pattern[0] || (d + 1 < pattern.len()
                && #[trigger] pattern[d + 1] != pattern[1]),
    ensures
        text::without(s + pattern, pattern) == s,
{
    let whole = s + pattern + Seq::<char>::empty();
    let n = pattern.len() as int;
    assert(whole =~= s + pattern);
    assert forall|i: int| 0 <= i < s.len() implies !(#[trigger] text::occurs_at(
        whole,
        pattern,
        i,
    )) by {
        if text::occurs_at(whole, pattern, i) {
            let found = whole.subrange(i, i + n);
            let d = s.len() - i;
            if d >= n {
                assert(s.subrange(i, i + n) =~= found);
                assert(text::occurs_at(s, pattern, i));
            } else {
                assert(found[d] == whole[s.len() as int] && whole[s.len() as int] == pattern[0]);
                assert(found[d] == pattern[d]);
                if d + 1 < n {
                    assert(found[d + 1] == whole[s.len() as int + 1] && whole[s.len() as int + 1]
                        == pattern[1]);
                    assert(found[d + 1] == pattern[d + 1]);
                }
            }
        }
    }
    text::law_pattern_is_taken_out(s, pattern, Seq::empty());
    assert(text::without(Seq::<char>::empty(), pattern) =~= Seq::empty());
    assert(s + Seq::<char>::empty() =~= s);
}

proof fn lemma_no_video_in_lossless(artist: Seq<char>)
    requires
        !text::holds(artist, "Video Available"@),
    ensures
        !text::holds(artist + " • Lossless"@, "Video Available"@),
{
    reveal_strlit("Video Available");
    reveal_strlit(" • Lossless");
    let video = "Video Available"@;
    let behind = " • Lossless"@;
    let whole = artist + behind;
    if text::holds(whole, video) {
        let i = choose|i: int| text::occurs_at(whole, video, i);
        let found = whole.subrange(i, i + 15);
        assert(found == video);
        let d = artist.len() - i;
        if d >= 15 {
            assert(artist.subrange(i, i + 15) =~= found);
            assert(text::occurs_at(artist, video, i));
        } else if d > 0 {
            assert(found[d] == behind[0]);
            assert(video[d] == ' ');
            assert(d == 5);
            assert(found[6] == behind[1]);
            assert(video[6] == 'A');
        } else {
            assert(found[0] == behind[-d]);
            assert(video[0] == 'V');
        }
    }
}

/// A package that is announced is remembered and its download is started. One chunk of a pushed
/// file is taken in at a time, and the file is written when it is complete. What is wrong with a message
/// is reported, and it changes nothing.
pub proof fn law_updates_are_taken_in(state: HandlerModel, data: JsonModel)
    ensures
        ({
            let topic = "device.ota.package_state"@;
            let done = event_effects(state, topic, data);
            let after = event_taken(state, topic, data);
            match ota::package_state(data) {
                Ok(Some(package)) => done == seq![EffectModel::StartDownload { package }]
                    && after.package == Some(package) && after.files == state.files,
                Ok(None) => done.len() == 0 && after == state,
                Err(fault) => done == seq![EffectModel::Fault { fault }] && after == state,
            }
        }),
        ({
            let topic = "device.ota.chunk"@;
            let done = event_effects(state, topic, data);
            let after = event_taken(state, topic, data);
            &&& state.has_websocket ==> done.last() == (EffectModel::Broadcast {
                event: "device.ota.progress"@,
                data: push_progress(data),
            })
            &&& after.package == state.package
            &&& match ota::chunk_message(data) {
                Ok(c) => {
                    &&& after.files == ota::files_after(state.files, c)
                    &&& match ota::file_completed(state.files, c) {
                        Some(file) => done[0] == (EffectModel::WriteFile {
                            name: c.file_name,
                            file,
                        }),
                        None => done.len() == if state.has_websocket {
                            1nat
                        } else {
                            0
                        },
                    }
                },
                Err(fault) => done[0] == (EffectModel::Fault { fault }) && after == state,
            }
        }),
{
    reveal_strlit("device.ota.package_state");
    reveal_strlit("device.ota.chunk");
    assert("device.ota.package_state"@.len() == 24 && "device.ota.chunk"@.len() == 16);
}

/// The clients are told which chunk of which file came, and of how many.
pub proof fn law_pushed_chunk_is_told(data: JsonModel)
    ensures
        data.unsigned_field("chunk_index"@) is Some ==> push_progress(data).unsigned_field(
            "chunk_index"@,
        ) == data.unsigned_field("chunk_index"@),
        data.unsigned_field("total_chunks"@) is Some ==> push_progress(data).unsigned_field(
            "total_chunks"@,
        ) == data.unsigned_field("total_chunks"@),
        data.text_field("file_name"@) is Some ==> push_progress(data).text_field("file_name"@)
            == data.text_field("file_name"@),
{
    let index: u64 = match data.unsigned_field("chunk_index"@) {
        Some(n) => n,
        None => 0,
    };
    let total: u64 = match data.unsigned_field("total_chunks"@) {
        Some(n) => n,
        None => 0,
    };
    let name = ota::text_or(data, "file_name"@, "unknown"@);
    reveal_strlit("chunk_index");
    reveal_strlit("total_chunks");
    reveal_strlit("file_name");
    assert("chunk_index"@.len() == 11 && "total_chunks"@.len() == 12 && "file_name"@.len() == 9);
    let d0 = JsonModel::table();
    crate::json::law_bare_object_has_no_member("chunk_index"@);
    crate::json::law_bare_object_has_no_member("total_chunks"@);
    crate::json::law_bare_object_has_no_member("file_name"@);
    crate::json::law_member_is_found(
        d0,
        "chunk_index"@,
        JsonModel::Number(JsonNumber::Unsigned(index)),
    );
    let d1 = d0.and("chunk_index"@, JsonModel::Number(JsonNumber::Unsigned(index)));
    crate::json::law_member_is_found(
        d1,
        "total_chunks"@,
        JsonModel::Number(JsonNumber::Unsigned(total)),
    );
    let d2 = d1.and("total_chunks"@, JsonModel::Number(JsonNumber::Unsigned(total)));
    crate::json::law_member_is_found(d2, "file_name"@, JsonModel::Text(name));
    let d3 = d2.and("file_name"@, JsonModel::Text(name));
    assert(push_progress(data) == d3);
}

/// A chunk is asked for again by its message and its place.
pub proof fn law_retransmission_names_the_chunk(id: Seq<char>, index: u16)
    ensures
        retransmit_event((id, index)) matches EffectModel::Broadcast { event, data } && event
            == "chunk.retransmit_request"@ && data.text_field("message_id"@) == Some(id)
            && data.unsigned_field("chunk_idx"@) == Some(index as u64),
{
    reveal_strlit("message_id");
    reveal_strlit("chunk_idx");
    assert("message_id"@.len() == 10 && "chunk_idx"@.len() == 9);
    let d0 = JsonModel::table();
    crate::json::law_bare_object_has_no_member("message_id"@);
    crate::json::law_bare_object_has_no_member("chunk_idx"@);
    crate::json::law_member_is_found(d0, "message_id"@, JsonModel::Text(id));
    let d1 = d0.and("message_id"@, JsonModel::Text(id));
    crate::json::law_member_is_found(
        d1,
        "chunk_idx"@,
        JsonModel::Number(JsonNumber::Unsigned(index as u64)),
    );
    let d2 = d1.and("chunk_idx"@, JsonModel::Number(JsonNumber::Unsigned(index as u64)));
}

/// The first session that a message came from stays the one that is known.
pub proof fn law_first_session_stays(state: HandlerModel, first: u8, later: u8)
    ensures
        session_seen(state, first).session_id is Some,
        state.session_id is None ==> session_seen(state, first).session_id == Some(first),
        state.session_id is Some ==> session_seen(state, first).session_id == state.session_id,
        session_seen(session_seen(state, first), later).session_id == session_seen(
            state,
            first,
        ).session_id,
        session_seen(state, first).requests == state.requests,
        session_seen(state, first).inbound == state.inbound,
{
}

/// Every answer is sent, in its order and with its data, where there is a session to send to: the
/// first the way it came, and the others to the session.
pub proof fn law_every_answer_is_sent(
    state: HandlerModel,
    session: u8,
    responses: Seq<AppMessageModel>,
    i: int,
)
    requires
        0 <= i < responses.len(),
        state.has_session || i == 0,
    ensures
        ({
            let (back, others) = routed(state, session, responses);
            let sent = if i == 0 {
                back->0
            } else {
                others[i - 1]
            };
            &&& back is Some
            &&& others.len() == if state.has_session {
                (responses.len() - 1) as nat
            } else {
                0
            }
            &&& sent.id == responses[i].id
            &&& sent.data == responses[i].data
            &&& sent.protocol == responses[i].protocol
            &&& i == 0 ==> sent == responses[0]
            &&& i > 0 ==> sent.session_id == session
        }),
{
}

/// A call is carried by one message for each of its envelopes, in their order, to its session and
/// under its id; an answer is sent under the id of its request where one envelope holds it.
pub proof fn law_messages_carry_the_envelopes(
    id: Seq<char>,
    session: u8,
    envelopes: Seq<Seq<u8>>,
)
    ensures
        call_messages_model(id, session, envelopes).map_values(|m: AppMessageModel| m.data)
            == envelopes,
        forall|i: int|
            0 <= i < envelopes.len() ==> (#[trigger] call_messages_model(
                id,
                session,
                envelopes,
            )[i]).session_id == session && call_messages_model(id, session, envelopes)[i].id == id,
        response_model(id, envelopes) is Some <==> envelopes.len() == 1,
        response_model(id, envelopes) matches Some(m) ==> m.id == id && m.data == envelopes[0],
{
    assert(call_messages_model(id, session, envelopes).map_values(|m: AppMessageModel| m.data)
        =~= envelopes);
}

/// A key that was sent is answered with success, and one that could not be with why, under the id
/// of the call.
pub proof fn law_key_is_answered(id: Seq<char>, fault: Option<Seq<char>>)
    ensures
        fault is None ==> (hid_reply_model(id, fault) matches MessageModel::Result {
            id: answered,
            result,
        } && answered == id && result.text_field("status"@) == Some("ok"@)),
        fault matches Some(why) ==> (hid_reply_model(id, fault) matches MessageModel::Error {
            id: answered,
            error,
        } && answered == id && why.is_suffix_of(error)),
{
    reveal_strlit("status");
    let d0 = JsonModel::table();
    crate::json::law_bare_object_has_no_member("status"@);
    crate::json::law_member_is_found(d0, "status"@, JsonModel::Text("ok"@));
    let d1 = d0.and("status"@, JsonModel::Text("ok"@));
    if let Some(why) = fault {
        let error = "hid_send_failed: "@ + why;
        assert(why =~= error.subrange(error.len() - why.len(), error.len() as int));
    }
}

/// A file that was written is forgotten, so that it can be pushed anew, and the clients are told
/// where it is and how long. The other files stay as far as they came.
pub proof fn law_written_file_is_forgotten(
    state: HandlerModel,
    name: Seq<char>,
    file: ota::FileWriteModel,
    other: Seq<char>,
)
    requires
        file.data.len() <= u64::MAX,
    ensures
        !state.with_written(name).files.contains_key(name),
        other != name && state.files.contains_key(other) ==> state.with_written(
            name,
        ).files.contains_key(other) && state.with_written(name).files[other] == state.files[other],
        state.with_written(name).requests == state.requests,
        state.with_written(name).inbound == state.inbound,
        state.has_websocket ==> {
            &&& state.written_effects(file).len() == 1
            &&& state.written_effects(file)[0] matches EffectModel::Broadcast { event, data }
            &&& event == "device.ota.complete"@
            &&& data.text_field("file_path"@) == Some(file.path)
            &&& data.unsigned_field("size"@) matches Some(n) && n == file.data.len()
        },
        !state.has_websocket ==> state.written_effects(file).len() == 0,
{
    ota::law_written_file_is_told(file.path, file.data.len());
}

/// A protocol that nothing has happened to waits for nothing, has no session to call, and has not
/// heard that the app is ready. Once bytes of a session came, that is the one that calls go to.
pub proof fn law_fresh_protocol_waits_for_nothing(
    has_websocket: bool,
    has_image_cache: bool,
    session: u8,
)
    ensures
        ({
            let state = HandlerModel::fresh(has_websocket, has_image_cache);
            let known = HandlerModel { session_id: Some(session), has_session: true, ..state };
            &&& state.target() is None
            &&& known.target() == Some(session)
            &&& !state.app_ready
            &&& !state.has_session
            &&& !state.has_hid
            &&& state.has_websocket == has_websocket
            &&& state.has_image_cache == has_image_cache
            &&& forall|id: Seq<char>| !(#[trigger] state.requests.contains(id))
            &&& forall|id: Seq<char>| !(#[trigger] state.images.contains_key(id))
            &&& forall|id: Seq<char>| !(#[trigger] state.methods.contains_key(id))
            &&& forall|name: Seq<char>| !(#[trigger] state.files.contains_key(name))
        }),
{
}

} // verus!
