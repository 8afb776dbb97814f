//! The clients on the display: their requests, what answers them, and what they are told.
use crate::ab;
use crate::ab::{ABData, ABModel};
use crate::app::value;
use crate::app::{AppMessage, AppMessageModel};
use crate::brightness;
use crate::brightness::BrightnessConfig;
use crate::buffer;
use crate::config;
use crate::config::DeviceInfoMetadata;
use crate::error::NocturnedError;
use crate::json::{Json, JsonModel};
use crate::table;
use crate::table::TextSet;
use crate::text;
use bytes::Bytes;
use vstd::prelude::*;
use vstd::utf8::*;

verus! {

broadcast use crate::json::lemma_json_view;

/// A message from or to a client.
#[derive(Debug)]
pub enum WebSocketMessage {
    Request { id: String, method: String, params: Json },
    Response { id: String, result: Json },
    Error { id: String, error: String },
    Event { topic: String, data: Json, server_timestamp_ms: Option<u128> },
}

/// A message from or to a client, apart from how it is stored.
pub enum WsModel {
    Request { id: Seq<char>, method: Seq<char>, params: JsonModel },
    Response { id: Seq<char>, result: JsonModel },
    Error { id: Seq<char>, error: Seq<char> },
    Event { topic: Seq<char>, data: JsonModel, server_timestamp_ms: Option<u128> },
}

impl View for WebSocketMessage {
    type V = WsModel;

    open spec fn view(&self) -> WsModel {
        match self {
            WebSocketMessage::Request { id, method, params } => WsModel::Request {
                id: id@,
                method: method@,
                params: params@,
            },
            WebSocketMessage::Response { id, result } => WsModel::Response {
                id: id@,
                result: result@,
            },
            WebSocketMessage::Error { id, error } => WsModel::Error { id: id@, error: error@ },
            WebSocketMessage::Event { topic, data, server_timestamp_ms } => WsModel::Event {
                topic: topic@,
                data: data@,
                server_timestamp_ms: *server_timestamp_ms,
            },
        }
    }
}

/// The models of messages.
pub open spec fn ws_models(messages: Seq<WebSocketMessage>) -> Seq<WsModel> {
    messages.map_values(|m: WebSocketMessage| m@)
}

/// A change of the boot slots.
#[derive(Clone, Copy, Debug, PartialEq, Eq, Structural)]
pub enum AbChange {
    /// None: the record is only read.
    Get,
    Reset,
    SetSlot(usize),
    /// Whether the system that runs has started well.
    BootResult(bool),
    Failover,
}

/// A command of the system.
#[derive(Clone, Copy, Debug, PartialEq, Eq, Structural)]
pub enum SystemCommand {
    ResetBootCounter,
    Reboot,
    Shutdown,
}

/// What is to be done about a request.
#[derive(Debug)]
pub enum ServerAction {
    /// Send a message to every client.
    Send(WebSocketMessage),
    /// Tell every client of an event.
    Broadcast { topic: String, data: Json },
    /// Read the record of the boot slots, change it, and answer.
    ChangeSlots { id: String, change: AbChange },
    GetBrightness { id: String },
    SetBrightness { id: String, value: u8 },
    SetAutoBrightness { id: String, enabled: bool },
    SetDiscoverable { discoverable: bool },
    ListDevices { id: String },
    /// Hand a request to what manages the connections.
    ToManager { id: String, protocol: String, request: Json },
    ReportVersion { id: String },
    ReportDevice { id: String },
    ApplyUpdate { file_path: String },
    RunCommand { id: String, command: SystemCommand },
    FactoryReset { id: String },
    /// Look for an image that is kept, and go on with what was found.
    LookUpImage { id: String, url: String, params: Json },
}

/// What is to be done about a request, apart from how it is stored.
pub enum ServerActionModel {
    Send(WsModel),
    Broadcast { topic: Seq<char>, data: JsonModel },
    ChangeSlots { id: Seq<char>, change: AbChange },
    GetBrightness { id: Seq<char> },
    SetBrightness { id: Seq<char>, value: u8 },
    SetAutoBrightness { id: Seq<char>, enabled: bool },
    SetDiscoverable { discoverable: bool },
    ListDevices { id: Seq<char> },
    ToManager { id: Seq<char>, protocol: Seq<char>, request: JsonModel },
    ReportVersion { id: Seq<char> },
    ReportDevice { id: Seq<char> },
    ApplyUpdate { file_path: Seq<char> },
    RunCommand { id: Seq<char>, command: SystemCommand },
    FactoryReset { id: Seq<char> },
    LookUpImage { id: Seq<char>, url: Seq<char>, params: JsonModel },
}

impl View for ServerAction {
    type V = ServerActionModel;

    open spec fn view(&self) -> ServerActionModel {
        match self {
            ServerAction::Send(m) => ServerActionModel::Send(m@),
            ServerAction::Broadcast { topic, data } => ServerActionModel::Broadcast {
                topic: topic@,
                data: data@,
            },
            ServerAction::ChangeSlots { id, change } => ServerActionModel::ChangeSlots {
                id: id@,
                change: *change,
            },
            ServerAction::GetBrightness { id } => ServerActionModel::GetBrightness { id: id@ },
            ServerAction::SetBrightness { id, value } => ServerActionModel::SetBrightness {
                id: id@,
                value: *value,
            },
            ServerAction::SetAutoBrightness { id, enabled } =>
                ServerActionModel::SetAutoBrightness { id: id@, enabled: *enabled },
            ServerAction::SetDiscoverable { discoverable } => ServerActionModel::SetDiscoverable {
                discoverable: *discoverable,
            },
            ServerAction::ListDevices { id } => ServerActionModel::ListDevices { id: id@ },
            ServerAction::ToManager { id, protocol, request } => ServerActionModel::ToManager {
                id: id@,
                protocol: protocol@,
                request: request@,
            },
            ServerAction::ReportVersion { id } => ServerActionModel::ReportVersion { id: id@ },
            ServerAction::ReportDevice { id } => ServerActionModel::ReportDevice { id: id@ },
            ServerAction::ApplyUpdate { file_path } => ServerActionModel::ApplyUpdate {
                file_path: file_path@,
            },
            ServerAction::RunCommand { id, command } => ServerActionModel::RunCommand {
                id: id@,
                command: *command,
            },
            ServerAction::FactoryReset { id } => ServerActionModel::FactoryReset { id: id@ },
            ServerAction::LookUpImage { id, url, params } => ServerActionModel::LookUpImage {
                id: id@,
                url: url@,
                params: params@,
            },
        }
    }
}

/// The models of what is to be done.
pub open spec fn server_actions(actions: Seq<ServerAction>) -> Seq<ServerActionModel> {
    actions.map_values(|a: ServerAction| a@)
}

/// The protocol of the phone app.
pub open spec fn phone_protocol() -> Seq<char> {
    "com.usenocturne.daemon"@
}

/// A request as it is handed on.
pub open spec fn handed_on(method: Seq<char>, params: JsonModel) -> JsonModel {
    JsonModel::table().and("method"@, JsonModel::Text(method)).and("params"@, params)
}

/// What is done about a request for the boot slots, where it is one.
pub open spec fn slots_request(id: Seq<char>, method: Seq<char>, params: JsonModel) -> Option<
    ServerActionModel,
> {
    if method == "device.ab.get"@ {
        Some(ServerActionModel::ChangeSlots { id, change: AbChange::Get })
    } else if method == "device.ab.reset"@ {
        Some(ServerActionModel::ChangeSlots { id, change: AbChange::Reset })
    } else if method == "device.ab.setSlot"@ {
        match params.unsigned_field("slot"@) {
            Some(n) if n as usize == 0 || n as usize == 1 => Some(
                ServerActionModel::ChangeSlots { id, change: AbChange::SetSlot(n as usize) },
            ),
            _ => Some(
                ServerActionModel::Send(
                    WsModel::Error { id, error: "invalid slot number: must be 0 or 1"@ },
                ),
            ),
        }
    } else if method == "device.ab.setBootResult"@ {
        match params.signed_field("result"@) {
            Some(n) if n == 0 || n == 1 => Some(
                ServerActionModel::ChangeSlots { id, change: AbChange::BootResult(n == 1) },
            ),
            _ => Some(
                ServerActionModel::Send(
                    WsModel::Error { id, error: "invalid boot result: must be 0 or 1"@ },
                ),
            ),
        }
    } else if method == "device.ab.failover"@ {
        Some(ServerActionModel::ChangeSlots { id, change: AbChange::Failover })
    } else {
        None
    }
}

/// What is done about a request for the brightness, where it is one.
pub open spec fn brightness_request(id: Seq<char>, method: Seq<char>, params: JsonModel) -> Option<
    ServerActionModel,
> {
    if method == "device.brightness.get"@ {
        Some(ServerActionModel::GetBrightness { id })
    } else if method == "device.brightness.set"@ {
        match params.unsigned_field("brightness"@) {
            Some(n) => Some(ServerActionModel::SetBrightness { id, value: n as u8 }),
            None => Some(
                ServerActionModel::Send(
                    WsModel::Error { id, error: "missing brightness parameter"@ },
                ),
            ),
        }
    } else if method == "device.brightness.auto"@ {
        Some(
            ServerActionModel::SetAutoBrightness {
                id,
                enabled: match params.flag_field("enabled"@) {
                    Some(b) => b,
                    None => true,
                },
            },
        )
    } else {
        None
    }
}

/// A text is a word, whatever its capitals.
pub open spec fn is_word(s: Seq<char>, word: Seq<char>) -> bool {
    text::uppercase(s) == text::uppercase(word)
}

/// Whether the device is to be seen by others: a flag or a word, and yes where it is neither.
pub open spec fn wants_discoverable(params: JsonModel) -> bool {
    match params.field("discoverable"@) {
        Some(JsonModel::Bool(b)) => b,
        Some(JsonModel::Text(s)) => !(is_word(s, "false"@) || is_word(s, "0"@) || is_word(
            s,
            "no"@,
        ) || is_word(s, "off"@)),
        _ => true,
    }
}

/// What is done about a request that the daemon answers itself or hands to the connections; none
/// for a request to the phone.
pub open spec fn device_request(id: Seq<char>, method: Seq<char>, params: JsonModel) -> Option<
    Seq<ServerActionModel>,
> {
    if method == "bluetooth.discoverable"@ {
        let d = wants_discoverable(params);
        Some(
            seq![
                ServerActionModel::SetDiscoverable { discoverable: d },
                ServerActionModel::Send(
                    WsModel::Response {
                        id,
                        result: JsonModel::table().and("discoverable"@, JsonModel::Bool(d)).and(
                            "status"@,
                            JsonModel::Text("requested"@),
                        ),
                    },
                ),
                ServerActionModel::Broadcast {
                    topic: "bluetooth.discoverable"@,
                    data: JsonModel::table().and("discoverable"@, JsonModel::Bool(d)),
                },
            ],
        )
    } else if method == "bluetooth.devices.list"@ {
        Some(seq![ServerActionModel::ListDevices { id }])
    } else if method == "bluetooth.device.connect"@ || method == "bluetooth.device.disconnect"@
        || method == "bluetooth.device.unpair"@ || method == "bluetooth.device.forget"@ {
        Some(
            seq![
                ServerActionModel::ToManager {
                    id,
                    protocol: "bluetooth.control"@,
                    request: handed_on(method, params),
                },
            ],
        )
    } else if method == "device.version"@ {
        Some(seq![ServerActionModel::ReportVersion { id }])
    } else if method == "device.info"@ {
        Some(seq![ServerActionModel::ReportDevice { id }])
    } else if method == "device.ota.apply"@ {
        Some(
            seq![
                ServerActionModel::ApplyUpdate {
                    file_path: match params.text_field("file_path"@) {
                        Some(s) => s,
                        None => "/tmp/nocturne-update.swu"@,
                    },
                },
                ServerActionModel::Send(
                    WsModel::Response {
                        id,
                        result: JsonModel::table().and(
                            "current"@,
                            JsonModel::Text("in_progress"@),
                        ).and("ota"@, JsonModel::Text("started"@)),
                    },
                ),
            ],
        )
    } else if method == "reset_boot_counter"@ {
        Some(
            seq![ServerActionModel::RunCommand { id, command: SystemCommand::ResetBootCounter }],
        )
    } else if method == "device.power.reboot"@ {
        Some(seq![ServerActionModel::RunCommand { id, command: SystemCommand::Reboot }])
    } else if method == "device.power.shutdown"@ {
        Some(seq![ServerActionModel::RunCommand { id, command: SystemCommand::Shutdown }])
    } else if method == "device.factoryreset"@ {
        Some(seq![ServerActionModel::FactoryReset { id }])
    } else {
        None
    }
}

/// What is done about a request that goes to the phone.
pub open spec fn phone_request(id: Seq<char>, method: Seq<char>, params: JsonModel) -> Seq<
    ServerActionModel,
> {
    seq![
        ServerActionModel::ToManager {
            id,
            protocol: phone_protocol(),
            request: handed_on(method, params),
        },
    ]
}

/// What is done about a request.
pub open spec fn request_actions(id: Seq<char>, method: Seq<char>, params: JsonModel) -> Seq<
    ServerActionModel,
> {
    match slots_request(id, method, params) {
        Some(action) => seq![action],
        None => match brightness_request(id, method, params) {
            Some(action) => seq![action],
            None => match device_request(id, method, params) {
                Some(actions) => actions,
                None => match params.text_field("url"@) {
                    Some(url) if method == "spotify.image.fetch"@ => seq![
                        ServerActionModel::LookUpImage { id, url, params },
                    ],
                    _ => phone_request(id, method, params),
                },
            },
        },
    }
}

/// Whether a request is for an image that no address is given of, which the phone is asked for at
/// once.
pub open spec fn asks_phone_for_image(method: Seq<char>, params: JsonModel) -> bool {
    method == "spotify.image.fetch"@ && params.text_field("url"@) is None
}

/// What the server remembers: which images the phone was asked for, what the app said last of
/// itself, and whether the wake word is muted.
pub struct WebSocketServer {
    pending_image_fetches: TextSet,
    last_app_ready: Option<Json>,
    last_wakeword_state: Option<bool>,
    playing: bool,
}

/// What the server remembers, apart from how it is stored.
#[verifier::ext_equal]
pub struct ServerModel {
    pub pending: Set<Seq<char>>,
    pub app_ready: Option<JsonModel>,
    pub wakeword_muted: Option<bool>,
    pub playing: bool,
}

/// What is done about a request for an image, once it is known whether the image is kept.
pub open spec fn image_actions(
    id: Seq<char>,
    url: Seq<char>,
    params: JsonModel,
    found: Option<Seq<char>>,
) -> Seq<ServerActionModel> {
    match found {
        Some(data) => seq![
            ServerActionModel::Send(
                WsModel::Response {
                    id,
                    result: JsonModel::table().and("url"@, JsonModel::Text(url)).and(
                        "data"@,
                        JsonModel::Text(data),
                    ).and("contentType"@, JsonModel::Text("image/jpeg"@)),
                },
            ),
        ],
        None => phone_request(id, "spotify.image.fetch"@, params),
    }
}

/// A document, where there is one.
pub open spec fn optional_json(doc: Option<Json>) -> Option<JsonModel> {
    match doc {
        Some(d) => Some(d@),
        None => None,
    }
}

impl View for WebSocketServer {
    type V = ServerModel;

    closed spec fn view(&self) -> ServerModel {
        ServerModel {
            pending: self.pending_image_fetches@,
            app_ready: optional_json(self.last_app_ready),
            wakeword_muted: self.last_wakeword_state,
            playing: self.playing,
        }
    }
}

/// What the player of the phone does, where an event says so.
pub open spec fn playback_status(topic: Seq<char>, data: JsonModel) -> Option<Seq<char>> {
    if topic == "media.nowPlaying.update"@ {
        match data.field("PlaybackAttributes"@) {
            Some(playback) => playback.text_field("PlaybackStatus"@),
            None => None,
        }
    } else {
        None
    }
}

impl ServerModel {
    /// What is remembered once the wake word is muted or not.
    pub open spec fn with_muted(self, muted: bool) -> ServerModel {
        ServerModel { wakeword_muted: Some(muted), ..self }
    }

    /// What is remembered once the phone was asked for an image.
    pub open spec fn with_fetch(self, id: Seq<char>) -> ServerModel {
        ServerModel { pending: self.pending.insert(id), ..self }
    }

    /// What is remembered once an image is not waited for any more.
    pub open spec fn without_fetch(self, id: Seq<char>) -> ServerModel {
        ServerModel { pending: self.pending.remove(id), ..self }
    }

    /// What is remembered once no image is waited for any more.
    pub open spec fn without_fetches(self) -> ServerModel {
        ServerModel { pending: Set::empty(), ..self }
    }

    /// What is remembered once the app has gone.
    pub open spec fn without_app(self) -> ServerModel {
        ServerModel { app_ready: None, ..self }
    }

    /// What is remembered once a request came.
    pub open spec fn asked(self, id: Seq<char>, method: Seq<char>, params: JsonModel) -> ServerModel {
        if asks_phone_for_image(method, params) {
            self.with_fetch(id)
        } else {
            self
        }
    }

    /// What is remembered once it is known whether an image is kept.
    pub open spec fn looked_up(self, id: Seq<char>, found: Option<Seq<char>>) -> ServerModel {
        match found {
            Some(_) => self,
            None => self.with_fetch(id),
        }
    }

    /// What is remembered once the clients were told an event.
    pub open spec fn told(self, topic: Seq<char>, data: JsonModel) -> ServerModel {
        ServerModel {
            app_ready: app_ready_after(self.app_ready, topic, data),
            playing: match playback_status(topic, data) {
                Some(status) => status == "playing"@,
                None => self.playing,
            },
            ..self
        }
    }
}

/// An event without a time.
pub open spec fn event(topic: Seq<char>, data: JsonModel) -> WsModel {
    WsModel::Event { topic, data, server_timestamp_ms: None }
}

/// The data of an event about the wake word.
pub open spec fn muted_json(muted: bool) -> JsonModel {
    JsonModel::table().and("muted"@, JsonModel::Bool(muted))
}

/// A document with a member of another, where that has it.
pub open spec fn with_member(doc: JsonModel, from: JsonModel, key: Seq<char>) -> JsonModel {
    match from.field(key) {
        Some(v) => doc.with(key, v),
        None => doc,
    }
}

/// What the app said of itself, with what it says of its subscription now.
pub open spec fn merged_subscription(doc: JsonModel, update: JsonModel) -> JsonModel {
    let d = with_member(doc, update, "subscribed"@);
    let d = with_member(d, update, "subscriptionStatus"@);
    with_member(d, update, "hasLifetime"@)
}

/// What is remembered of what the app said last, after an event.
pub open spec fn app_ready_after(
    cached: Option<JsonModel>,
    topic: Seq<char>,
    data: JsonModel,
) -> Option<JsonModel> {
    if topic == "app.ready"@ {
        Some(data)
    } else if topic == "subscription.updated"@ {
        match cached {
            Some(doc) => Some(merged_subscription(doc, data)),
            None => None,
        }
    } else {
        cached
    }
}

/// What is remembered of the app can take in what an event says.
pub open spec fn can_merge(cached: Option<JsonModel>, topic: Seq<char>, data: JsonModel) -> bool {
    topic == "subscription.updated"@ && topic != "app.ready"@ ==> match cached {
        Some(doc) => doc.takes_fields() || (data.field("subscribed"@) is None && data.field(
            "subscriptionStatus"@,
        ) is None && data.field("hasLifetime"@) is None),
        None => true,
    }
}

/// The answer to a request for an image that was given up.
pub open spec fn cancelled(id: Seq<char>) -> WsModel {
    WsModel::Response {
        id,
        result: JsonModel::table().and("cancelled"@, JsonModel::Bool(true)).and(
            "reason"@,
            JsonModel::Text("artwork_event_received"@),
        ),
    }
}

/// The answers to requests that were given up.
pub open spec fn cancelled_all(ids: Seq<Seq<char>>) -> Seq<WsModel> {
    ids.map_values(|id: Seq<char>| cancelled(id))
}

fn merge_member(doc: &mut Json, from: &Json, key: &str)
    requires
        from@.field(key@) is Some ==> old(doc)@.takes_fields(),
    ensures
        final(doc)@ == with_member(old(doc)@, from@, key@),
        old(doc)@.takes_fields() ==> final(doc)@.takes_fields(),
{
    match from.get(key) {
        Some(v) => {
            doc.set(key, v.clone());
        },
        None => {},
    }
}

fn is_word_text(s: &str, word: &str) -> (r: bool)
    ensures
        r == is_word(s@, word@),
{
    text::same_ignoring_case(s, word)
}

fn read_discoverable(params: &Json) -> (r: bool)
    ensures
        r == wants_discoverable(params@),
{
    match params.get("discoverable") {
        Some(value) => match value {
            Json::Bool(b) => *b,
            Json::Text(s) => !(is_word_text(s.as_str(), "false") || is_word_text(s.as_str(), "0")
                || is_word_text(s.as_str(), "no") || is_word_text(s.as_str(), "off")),
            _ => true,
        },
        None => true,
    }
}

fn hand_on(method: &str, params: Json) -> (r: Json)
    ensures
        r@ == handed_on(method@, params@),
{
    Json::table().and("method", Json::text(method)).and("params", params)
}

fn one(action: ServerAction) -> (r: Vec<ServerAction>)
    ensures
        server_actions(r@) == seq![action@],
{
    let mut out: Vec<ServerAction> = Vec::new();
    out.push(action);
    assert(server_actions(out@) =~= seq![action@]);
    out
}

fn plan_slots(id: &str, method: &str, params: &Json) -> (r: Option<ServerAction>)
    ensures
        match r {
            Some(a) => slots_request(id@, method@, params@) == Some(a@),
            None => slots_request(id@, method@, params@) is None,
        },
{
    if text::same(method, "device.ab.get") {
        Some(ServerAction::ChangeSlots { id: id.to_owned(), change: AbChange::Get })
    } else if text::same(method, "device.ab.reset") {
        Some(ServerAction::ChangeSlots { id: id.to_owned(), change: AbChange::Reset })
    } else if text::same(method, "device.ab.setSlot") {
        match params.get_u64("slot") {
            Some(n) if n as usize == 0 || n as usize == 1 => Some(
                ServerAction::ChangeSlots {
                    id: id.to_owned(),
                    change: AbChange::SetSlot(n as usize),
                },
            ),
            _ => Some(
                ServerAction::Send(
                    WebSocketMessage::Error {
                        id: id.to_owned(),
                        error: "invalid slot number: must be 0 or 1".to_owned(),
                    },
                ),
            ),
        }
    } else if text::same(method, "device.ab.setBootResult") {
        match params.get_i64("result") {
            Some(n) if n == 0 || n == 1 => Some(
                ServerAction::ChangeSlots {
                    id: id.to_owned(),
                    change: AbChange::BootResult(n == 1),
                },
            ),
            _ => Some(
                ServerAction::Send(
                    WebSocketMessage::Error {
                        id: id.to_owned(),
                        error: "invalid boot result: must be 0 or 1".to_owned(),
                    },
                ),
            ),
        }
    } else if text::same(method, "device.ab.failover") {
        Some(ServerAction::ChangeSlots { id: id.to_owned(), change: AbChange::Failover })
    } else {
        None
    }
}

fn plan_brightness(id: &str, method: &str, params: &Json) -> (r: Option<ServerAction>)
    ensures
        match r {
            Some(a) => brightness_request(id@, method@, params@) == Some(a@),
            None => brightness_request(id@, method@, params@) is None,
        },
{
    if text::same(method, "device.brightness.get") {
        Some(ServerAction::GetBrightness { id: id.to_owned() })
    } else if text::same(method, "device.brightness.set") {
        match params.get_u64("brightness") {
            Some(n) => Some(ServerAction::SetBrightness { id: id.to_owned(), value: n as u8 }),
            None => Some(
                ServerAction::Send(
                    WebSocketMessage::Error {
                        id: id.to_owned(),
                        error: "missing brightness parameter".to_owned(),
                    },
                ),
            ),
        }
    } else if text::same(method, "device.brightness.auto") {
        let enabled = match params.get_bool("enabled") {
            Some(b) => b,
            None => true,
        };
        Some(ServerAction::SetAutoBrightness { id: id.to_owned(), enabled })
    } else {
        None
    }
}

fn plan_device(id: &str, method: &str, params: &Json) -> (r: Option<Vec<ServerAction>>)
    ensures
        match r {
            Some(a) => device_request(id@, method@, params@) == Some(server_actions(a@)),
            None => device_request(id@, method@, params@) is None,
        },
{
    if text::same(method, "bluetooth.discoverable") {
        let d = read_discoverable(params);
        let mut out: Vec<ServerAction> = Vec::new();
        out.push(ServerAction::SetDiscoverable { discoverable: d });
        out.push(
            ServerAction::Send(
                WebSocketMessage::Response {
                    id: id.to_owned(),
                    result: Json::table().and("discoverable", Json::Bool(d)).and(
                        "status",
                        Json::text("requested"),
                    ),
                },
            ),
        );
        out.push(
            ServerAction::Broadcast {
                topic: "bluetooth.discoverable".to_owned(),
                data: Json::table().and("discoverable", Json::Bool(d)),
            },
        );
        assert(server_actions(out@) =~= device_request(id@, method@, params@)->0);
        Some(out)
    } else if text::same(method, "bluetooth.devices.list") {
        Some(one(ServerAction::ListDevices { id: id.to_owned() }))
    } else if text::same(method, "bluetooth.device.connect") || text::same(
        method,
        "bluetooth.device.disconnect",
    ) || text::same(method, "bluetooth.device.unpair") || text::same(
        method,
        "bluetooth.device.forget",
    ) {
        Some(
            one(
                ServerAction::ToManager {
                    id: id.to_owned(),
                    protocol: "bluetooth.control".to_owned(),
                    request: hand_on(method, params.clone()),
                },
            ),
        )
    } else if text::same(method, "device.version") {
        Some(one(ServerAction::ReportVersion { id: id.to_owned() }))
    } else if text::same(method, "device.info") {
        Some(one(ServerAction::ReportDevice { id: id.to_owned() }))
    } else if text::same(method, "device.ota.apply") {
        let file_path = match params.get_str("file_path") {
            Some(s) => s.to_owned(),
            None => "/tmp/nocturne-update.swu".to_owned(),
        };
        let mut out: Vec<ServerAction> = Vec::new();
        out.push(ServerAction::ApplyUpdate { file_path });
        out.push(
            ServerAction::Send(
                WebSocketMessage::Response {
                    id: id.to_owned(),
                    result: Json::table().and("current", Json::text("in_progress")).and(
                        "ota",
                        Json::text("started"),
                    ),
                },
            ),
        );
        assert(server_actions(out@) =~= device_request(id@, method@, params@)->0);
        Some(out)
    } else if text::same(method, "reset_boot_counter") {
        Some(
            one(
                ServerAction::RunCommand {
                    id: id.to_owned(),
                    command: SystemCommand::ResetBootCounter,
                },
            ),
        )
    } else if text::same(method, "device.power.reboot") {
        Some(
            one(ServerAction::RunCommand { id: id.to_owned(), command: SystemCommand::Reboot }),
        )
    } else if text::same(method, "device.power.shutdown") {
        Some(
            one(ServerAction::RunCommand { id: id.to_owned(), command: SystemCommand::Shutdown }),
        )
    } else if text::same(method, "device.factoryreset") {
        Some(one(ServerAction::FactoryReset { id: id.to_owned() }))
    } else {
        None
    }
}

fn to_phone(id: String, method: &str, params: Json) -> (r: Vec<ServerAction>)
    ensures
        server_actions(r@) == phone_request(id@, method@, params@),
{
    one(
        ServerAction::ToManager {
            id,
            protocol: "com.usenocturne.daemon".to_owned(),
            request: hand_on(method, params),
        },
    )
}

impl WebSocketServer {
    /// A server that remembers nothing.
    pub fn new() -> (r: WebSocketServer)
        ensures
            r@ == (ServerModel {
                pending: Set::empty(),
                app_ready: None,
                wakeword_muted: None,
                playing: false,
            }),
    {
        WebSocketServer {
            pending_image_fetches: TextSet::new(),
            last_app_ready: None,
            last_wakeword_state: None,
            playing: false,
        }
    }

    /// Remembers whether the wake word is muted, and tells the clients.
    pub fn update_last_wakeword_state(&mut self, muted: bool) -> (r: WebSocketMessage)
        ensures
            final(self)@ == (ServerModel { wakeword_muted: Some(muted), ..old(self)@ }),
            final(self)@ == old(self)@.with_muted(muted),
            r@ == event("voice.wakeword.state"@, muted_json(muted)),
    {
        self.last_wakeword_state = Some(muted);
        WebSocketMessage::Event {
            topic: "voice.wakeword.state".to_owned(),
            data: Json::table().and("muted", Json::Bool(muted)),
            server_timestamp_ms: None,
        }
    }

    /// Remembers that the phone was asked for an image.
    pub fn track_image_fetch(&mut self, request_id: String)
        ensures
            final(self)@ == (ServerModel {
                pending: old(self)@.pending.insert(request_id@),
                ..old(self)@
            }),
            final(self)@ == old(self)@.with_fetch(request_id@),
    {
        self.pending_image_fetches.insert(request_id);
    }

    /// Forgets that the phone was asked for an image.
    pub fn untrack_image_fetch(&mut self, request_id: &str)
        ensures
            final(self)@ == (ServerModel {
                pending: old(self)@.pending.remove(request_id@),
                ..old(self)@
            }),
            final(self)@ == old(self)@.without_fetch(request_id@),
    {
        self.pending_image_fetches.remove(request_id);
    }

    /// Gives up on every image that the phone was asked for: each request is answered once.
    pub fn cancel_all_pending_image_fetches(&mut self) -> (r: Vec<WebSocketMessage>)
        ensures
            final(self)@ == (ServerModel { pending: Set::empty(), ..old(self)@ }),
            final(self)@ == old(self)@.without_fetches(),
            exists|ids: Seq<Seq<char>>|
                {
                    &&& ids.no_duplicates()
                    &&& ids.to_set() == old(self)@.pending
                    &&& ws_models(r@) == #[trigger] cancelled_all(ids)
                },
    {
        let ids = self.pending_image_fetches.drain();
        let ghost keys = table::texts(ids@);
        let ghost goal = cancelled_all(keys);
        let mut out: Vec<WebSocketMessage> = Vec::new();
        let mut i: usize = 0;
        while i < ids.len()
            invariant
                i <= ids.len(),
                keys == table::texts(ids@),
                goal == cancelled_all(keys),
                out@.len() == i,
                forall|k: int| 0 <= k < i ==> (#[trigger] out@[k])@ == goal[k],
            decreases ids.len() - i,
        {
            out.push(
                WebSocketMessage::Response {
                    id: ids[i].clone(),
                    result: Json::table().and("cancelled", Json::Bool(true)).and(
                        "reason",
                        Json::text("artwork_event_received"),
                    ),
                },
            );
            i += 1;
        }
        assert(ws_models(out@) =~= goal);
        out
    }

    /// What a client is told first: what the app said last of itself, and whether the wake word is
    /// muted.
    pub open spec fn greeting_models(state: ServerModel) -> Seq<WsModel> {
        let ready = match state.app_ready {
            Some(data) => seq![event("app.ready"@, data)],
            None => Seq::empty(),
        };
        let muted = match state.wakeword_muted {
            Some(m) => seq![event("voice.wakeword.state"@, muted_json(m))],
            None => Seq::empty(),
        };
        ready + muted
    }

    /// What a client is told first.
    pub fn greeting(&self) -> (r: Vec<WebSocketMessage>)
        ensures
            ws_models(r@) == WebSocketServer::greeting_models(self@),
    {
        let mut out: Vec<WebSocketMessage> = Vec::new();
        if let Some(data) = &self.last_app_ready {
            out.push(
                WebSocketMessage::Event {
                    topic: "app.ready".to_owned(),
                    data: data.clone(),
                    server_timestamp_ms: None,
                },
            );
        }
        if let Some(muted) = self.last_wakeword_state {
            out.push(
                WebSocketMessage::Event {
                    topic: "voice.wakeword.state".to_owned(),
                    data: Json::table().and("muted", Json::Bool(muted)),
                    server_timestamp_ms: None,
                },
            );
        }
        assert(ws_models(out@) =~= WebSocketServer::greeting_models(self@));
        out
    }

    /// Handles a message of a client: says what is to be done. Only requests count.
    pub fn handle_incoming_message(&mut self, msg: WebSocketMessage) -> (r: Vec<ServerAction>)
        ensures
            match msg@ {
                WsModel::Request { id, method, params } => {
                    &&& server_actions(r@) == request_actions(id, method, params)
                    &&& final(self)@ == if asks_phone_for_image(method, params) {
                        (ServerModel { pending: old(self)@.pending.insert(id), ..old(self)@ })
                    } else {
                        old(self)@
                    }
                },
                _ => r@.len() == 0 && final(self)@ == old(self)@,
            },
            msg@ matches WsModel::Request { id, method, params } ==> final(self)@ == old(
                self,
            )@.asked(id, method, params),
    {
        match msg {
            WebSocketMessage::Request { id, method, params } => {
                proof {
                    lemma_image_method(id@, params@);
                }
                if let Some(action) = plan_slots(id.as_str(), method.as_str(), &params) {
                    return one(action);
                }
                if let Some(action) = plan_brightness(id.as_str(), method.as_str(), &params) {
                    return one(action);
                }
                if let Some(actions) = plan_device(id.as_str(), method.as_str(), &params) {
                    return actions;
                }
                if text::same(method.as_str(), "spotify.image.fetch") {
                    let url = match params.get_str("url") {
                        Some(s) => Some(s.to_owned()),
                        None => None,
                    };
                    match url {
                        Some(url) => {
                            return one(ServerAction::LookUpImage { id, url, params });
                        },
                        None => {
                            self.track_image_fetch(id.clone());
                        },
                    }
                }
                to_phone(id, method.as_str(), params)
            },
            _ => Vec::new(),
        }
    }

    /// Goes on with a request for an image, once it is known whether the image is kept: the
    /// clients get it, or the phone is asked for it.
    pub fn image_looked_up(
        &mut self,
        id: String,
        url: &str,
        params: Json,
        found: Option<String>,
    ) -> (r: Vec<ServerAction>)
        ensures
            match text::optional_text(found) {
                Some(data) => {
                    &&& final(self)@ == old(self)@
                    &&& server_actions(r@) == seq![
                        ServerActionModel::Send(
                            WsModel::Response {
                                id: id@,
                                result: JsonModel::table().and("url"@, JsonModel::Text(url@)).and(
                                    "data"@,
                                    JsonModel::Text(data),
                                ).and("contentType"@, JsonModel::Text("image/jpeg"@)),
                            },
                        ),
                    ]
                },
                None => {
                    &&& final(self)@ == (ServerModel {
                        pending: old(self)@.pending.insert(id@),
                        ..old(self)@
                    })
                    &&& server_actions(r@) == phone_request(
                        id@,
                        "spotify.image.fetch"@,
                        params@,
                    )
                },
            },
            final(self)@ == old(self)@.looked_up(id@, text::optional_text(found)),
            server_actions(r@) == image_actions(
                id@,
                url@,
                params@,
                text::optional_text(found),
            ),
    {
        match found {
            Some(data) => one(
                ServerAction::Send(
                    WebSocketMessage::Response {
                        id,
                        result: Json::table().and("url", Json::text(url)).and(
                            "data",
                            Json::Text(data),
                        ).and("contentType", Json::text("image/jpeg")),
                    },
                ),
            ),
            None => {
                self.track_image_fetch(id.clone());
                to_phone(id, "spotify.image.fetch", params)
            },
        }
    }

    /// Whether an app has said that it is ready.
    pub fn has_ready_app_session(&self) -> (r: bool)
        ensures
            r == (self@.app_ready is Some),
    {
        self.last_app_ready.is_some()
    }

    /// Whether the phone said last that it plays something.
    pub fn is_playback_active(&self) -> (r: bool)
        ensures
            r == self@.playing,
    {
        self.playing
    }

    /// Forgets what the app said last of itself.
    pub fn clear_app_ready(&mut self)
        ensures
            final(self)@ == (ServerModel { app_ready: None, ..old(self)@ }),
            final(self)@ == old(self)@.without_app(),
    {
        self.last_app_ready = None;
    }

    /// Whether what is remembered of the app can take in what an event says.
    pub fn accepts_event(&self, topic: &str, data: &Json) -> (r: bool)
        ensures
            r == can_merge(self@.app_ready, topic@, data@),
    {
        if !text::same(topic, "subscription.updated") || text::same(topic, "app.ready") {
            return true;
        }
        match &self.last_app_ready {
            Some(doc) => {
                let takes = match doc {
                    Json::Table(_) => true,
                    Json::Null => true,
                    _ => false,
                };
                takes || (data.get("subscribed").is_none() && data.get(
                    "subscriptionStatus",
                ).is_none() && data.get("hasLifetime").is_none())
            },
            None => true,
        }
    }

    /// Remembers what an event says of the app and of the phone's player, and makes the message
    /// that tells the clients.
    pub fn broadcast_event(&mut self, topic: String, data: Json) -> (r: WebSocketMessage)
        requires
            can_merge(old(self)@.app_ready, topic@, data@),
        ensures
            final(self)@ == old(self)@.told(topic@, data@),
            r@ == event(topic@, data@),
    {
        if text::same(topic.as_str(), "media.nowPlaying.update") {
            let status = match data.get("PlaybackAttributes") {
                Some(playback) => playback.get_str("PlaybackStatus"),
                None => None,
            };
            if let Some(status) = status {
                self.playing = text::same(status, "playing");
            }
        }
        if text::same(topic.as_str(), "app.ready") {
            self.last_app_ready = Some(data.clone());
        } else if text::same(topic.as_str(), "subscription.updated") {
            if let Some(doc) = self.last_app_ready.take() {
                let mut doc = doc;
                merge_member(&mut doc, &data, "subscribed");
                merge_member(&mut doc, &data, "subscriptionStatus");
                merge_member(&mut doc, &data, "hasLifetime");
                self.last_app_ready = Some(doc);
            }
        }
        WebSocketMessage::Event { topic, data, server_timestamp_ms: None }
    }
}

/// A request for an image is none of those that the daemon answers itself.
proof fn lemma_image_method(id: Seq<char>, params: JsonModel)
    ensures
        slots_request(id, "spotify.image.fetch"@, params) is None,
        brightness_request(id, "spotify.image.fetch"@, params) is None,
        device_request(id, "spotify.image.fetch"@, params) is None,
{
    reveal_strlit("spotify.image.fetch");
    reveal_strlit("device.ab.get");
    reveal_strlit("device.ab.reset");
    reveal_strlit("device.ab.setSlot");
    reveal_strlit("device.ab.setBootResult");
    reveal_strlit("device.ab.failover");
    reveal_strlit("device.brightness.get");
    reveal_strlit("device.brightness.set");
    reveal_strlit("device.brightness.auto");
    reveal_strlit("bluetooth.discoverable");
    reveal_strlit("bluetooth.devices.list");
    reveal_strlit("bluetooth.device.connect");
    reveal_strlit("bluetooth.device.disconnect");
    reveal_strlit("bluetooth.device.unpair");
    reveal_strlit("bluetooth.device.forget");
    reveal_strlit("device.version");
    reveal_strlit("device.info");
    reveal_strlit("device.ota.apply");
    reveal_strlit("reset_boot_counter");
    reveal_strlit("device.power.reboot");
    reveal_strlit("device.power.shutdown");
    reveal_strlit("device.factoryreset");
    let m = "spotify.image.fetch"@;
    assert(m[0] == 's');
    assert("device.ab.get"@[0] == 'd' && "device.ab.reset"@[0] == 'd' && "device.ab.setSlot"@[0]
        == 'd' && "device.ab.setBootResult"@[0] == 'd' && "device.ab.failover"@[0] == 'd');
    assert("device.brightness.get"@[0] == 'd' && "device.brightness.set"@[0] == 'd'
        && "device.brightness.auto"@[0] == 'd');
    assert("bluetooth.discoverable"@[0] == 'b' && "bluetooth.devices.list"@[0] == 'b'
        && "bluetooth.device.connect"@[0] == 'b' && "bluetooth.device.disconnect"@[0] == 'b'
        && "bluetooth.device.unpair"@[0] == 'b' && "bluetooth.device.forget"@[0] == 'b');
    assert("device.version"@[0] == 'd' && "device.info"@[0] == 'd' && "device.ota.apply"@[0] == 'd'
        && "reset_boot_counter"@[0] == 'r' && "device.power.reboot"@[0] == 'd'
        && "device.power.shutdown"@[0] == 'd' && "device.factoryreset"@[0] == 'd');
}

/// The record of the boot slots after a change.
pub open spec fn ab_changed(d: ABModel, change: AbChange) -> ABModel {
    match change {
        AbChange::Get => d,
        AbChange::Reset => ABModel::initial(),
        AbChange::SetSlot(slot) => d.with_active(slot as int),
        AbChange::BootResult(well) => if well {
            d.with_boot(d.active_slot())
        } else {
            d.with_active(1 - d.active_slot())
        },
        AbChange::Failover => d.with_active(1 - d.active_slot()),
    }
}

/// Changes the record of the boot slots.
pub fn change_slots(info: &mut ABData, change: AbChange)
    requires
        change matches AbChange::SetSlot(slot) ==> slot < 2,
    ensures
        final(info)@ == ab_changed(old(info)@, change),
{
    match change {
        AbChange::Get => {},
        AbChange::Reset => {
            info.reset();
        },
        AbChange::SetSlot(slot) => {
            info.set_active_slot(slot);
        },
        AbChange::BootResult(well) => {
            if well {
                let active: usize = info.get_active_slot();
                info.set_successful_boot(active);
            } else {
                info.failover();
            }
        },
        AbChange::Failover => {
            info.failover();
        },
    }
}

/// Whether the record is written back after a change.
pub open spec fn written_back(change: AbChange) -> bool {
    change != AbChange::Get
}

/// Whether a change of the boot slots is written back.
pub fn is_written_back(change: AbChange) -> (r: bool)
    ensures
        r == (change != AbChange::Get),
        r == written_back(change),
{
    match change {
        AbChange::Get => false,
        _ => true,
    }
}

/// Answers a request for the boot slots, with the record or with what went wrong.
pub fn slots_reply(id: String, outcome: &Result<ABData, NocturnedError>) -> (r: WebSocketMessage)
    ensures
        r@ == match outcome {
            Ok(info) => WsModel::Response { id: id@, result: ab::ab_json(info@) },
            Err(e) => WsModel::Error { id: id@, error: e@.message() },
        },
{
    match outcome {
        Ok(info) => WebSocketMessage::Response { id, result: info.to_json_value() },
        Err(e) => WebSocketMessage::Error { id, error: e.message() },
    }
}

/// Answers a request for the brightness, with the setting or with what went wrong.
pub fn brightness_reply(id: String, outcome: &Result<BrightnessConfig, NocturnedError>) -> (r:
    WebSocketMessage)
    ensures
        r@ == match outcome {
            Ok(c) => WsModel::Response { id: id@, result: brightness::brightness_json(*c) },
            Err(e) => WsModel::Error { id: id@, error: e@.message() },
        },
{
    match outcome {
        Ok(c) => WebSocketMessage::Response { id, result: c.to_json() },
        Err(e) => WebSocketMessage::Error { id, error: e.message() },
    }
}

/// What is known of a Bluetooth device. Its flags are numbers that are not zero.
#[derive(Debug)]
pub struct KnownDevice {
    pub address: Option<String>,
    pub name: Option<String>,
    pub alias: Option<String>,
    pub paired: Option<u64>,
    pub blocked: Option<u64>,
    pub connected: Option<u64>,
    pub trusted: Option<u64>,
}

/// What is known of a Bluetooth device, apart from how it is stored.
pub struct KnownDeviceModel {
    pub address: Option<Seq<char>>,
    pub name: Option<Seq<char>>,
    pub alias: Option<Seq<char>>,
    pub paired: Option<u64>,
    pub blocked: Option<u64>,
    pub connected: Option<u64>,
    pub trusted: Option<u64>,
}

impl View for KnownDevice {
    type V = KnownDeviceModel;

    open spec fn view(&self) -> KnownDeviceModel {
        KnownDeviceModel {
            address: text::optional_text(self.address),
            name: text::optional_text(self.name),
            alias: text::optional_text(self.alias),
            paired: self.paired,
            blocked: self.blocked,
            connected: self.connected,
            trusted: self.trusted,
        }
    }
}

/// A flag that is set.
pub open spec fn is_set(flag: Option<u64>) -> bool {
    match flag {
        Some(n) => n != 0,
        None => false,
    }
}

fn flag_set(flag: Option<u64>) -> (r: bool)
    ensures
        r == is_set(flag),
{
    match flag {
        Some(n) => n != 0,
        None => false,
    }
}

/// A device as the clients see it.
pub open spec fn device_json(d: KnownDeviceModel) -> JsonModel {
    JsonModel::table().and(
        "address"@,
        JsonModel::Text(
            match d.address {
                Some(s) => s,
                None => "unknown"@,
            },
        ),
    ).and("blocked"@, JsonModel::Bool(is_set(d.blocked))).and(
        "default"@,
        JsonModel::Bool(is_set(d.trusted)),
    ).and("connected"@, JsonModel::Bool(is_set(d.connected))).and(
        "device_info"@,
        JsonModel::table().and(
            "name"@,
            JsonModel::Text(
                match (d.name, d.alias) {
                    (Some(s), _) => s,
                    (None, Some(s)) => s,
                    (None, None) => "Unknown Device"@,
                },
            ),
        ),
    )
}

/// The devices that the clients see: those that are paired, in order.
pub open spec fn paired_devices(devices: Seq<KnownDeviceModel>) -> Seq<JsonModel>
    decreases devices.len(),
{
    if devices.len() == 0 {
        Seq::empty()
    } else {
        let before = paired_devices(devices.drop_last());
        if is_set(devices.last().paired) {
            before.push(device_json(devices.last()))
        } else {
            before
        }
    }
}

/// The models of devices.
pub open spec fn device_models(devices: Seq<KnownDevice>) -> Seq<KnownDeviceModel> {
    devices.map_values(|d: KnownDevice| d@)
}

fn device_document(d: &KnownDevice) -> (r: Json)
    ensures
        r@ == device_json(d@),
{
    let address = match &d.address {
        Some(s) => Json::text(s.as_str()),
        None => Json::text("unknown"),
    };
    let name = match &d.name {
        Some(s) => Json::text(s.as_str()),
        None => match &d.alias {
            Some(s) => Json::text(s.as_str()),
            None => Json::text("Unknown Device"),
        },
    };
    Json::table().and("address", address).and("blocked", Json::Bool(flag_set(d.blocked))).and(
        "default",
        Json::Bool(flag_set(d.trusted)),
    ).and("connected", Json::Bool(flag_set(d.connected))).and(
        "device_info",
        Json::table().and("name", name),
    )
}

/// Answers a request for the devices, with those that are paired or with what went wrong.
pub fn device_list_reply(id: String, outcome: &Result<Vec<KnownDevice>, String>) -> (r:
    WebSocketMessage)
    ensures
        r@ == match outcome {
            Ok(devices) => WsModel::Response {
                id: id@,
                result: JsonModel::table().and(
                    "payload"@,
                    JsonModel::List(paired_devices(device_models(devices@))),
                ).and("type"@, JsonModel::Text("bluetooth_device_list"@)),
            },
            Err(e) => WsModel::Error { id: id@, error: e@ },
        },
        r@ == devices_reply(
            id@,
            match outcome {
                Ok(devices) => Ok(device_models(devices@)),
                Err(e) => Err(e@),
            },
        ),
{
    let devices = match outcome {
        Ok(d) => d,
        Err(e) => return WebSocketMessage::Error { id, error: e.clone() },
    };
    let ghost models = device_models(devices@);
    let mut items: Vec<Json> = Vec::new();
    let mut i: usize = 0;
    assert(models.take(0) =~= Seq::empty());
    while i < devices.len()
        invariant
            i <= devices.len(),
            models == device_models(devices@),
            items@.len() == paired_devices(models.take(i as int)).len(),
            forall|k: int|
                0 <= k < items@.len() ==> (#[trigger] items@[k])@ == paired_devices(
                    models.take(i as int),
                )[k],
        decreases devices.len() - i,
    {
        assert(models.take(i + 1).drop_last() =~= models.take(i as int));
        if flag_set(devices[i].paired) {
            items.push(device_document(&devices[i]));
        }
        i += 1;
    }
    assert(models.take(i as int) =~= models);
    let payload = Json::List(items);
    assert(payload@->List_0 =~= paired_devices(models));
    WebSocketMessage::Response {
        id,
        result: Json::table().and("payload", payload).and(
            "type",
            Json::text("bluetooth_device_list"),
        ),
    }
}

/// What the clients are told of the firmware: what its file says, or why that is not known.
pub open spec fn version_result(content: Result<Seq<char>, Seq<char>>) -> JsonModel {
    match content {
        Ok(s) => match value::json_read(encode_utf8(s)) {
            Ok(doc) => doc,
            Err(fault) => JsonModel::table().and(
                "error"@,
                JsonModel::Text("Failed to parse version.json: "@ + fault),
            ),
        },
        Err(fault) => JsonModel::table().and(
            "error"@,
            JsonModel::Text("Failed to read version.json: "@ + fault),
        ),
    }
}

/// Answers a request for the firmware, by what its file held.
pub fn version_reply(id: String, content: &Result<String, String>) -> (r: WebSocketMessage)
    ensures
        r@ == (WsModel::Response {
            id: id@,
            result: version_result(config::read_model(*content)),
        }),
{
    let result = match content {
        Ok(s) => match value::read_json(s.as_str().as_bytes()) {
            Ok(doc) => doc,
            Err(e) => {
                let fault = e.message();
                Json::table().and(
                    "error",
                    Json::Text(text::joined("Failed to parse version.json: ", fault.as_str())),
                )
            },
        },
        Err(fault) => Json::table().and(
            "error",
            Json::Text(text::joined("Failed to read version.json: ", fault.as_str())),
        ),
    };
    WebSocketMessage::Response { id, result }
}

/// Answers a request for what the daemon tells of itself.
pub fn device_info_reply(id: String, info: &DeviceInfoMetadata) -> (r: WebSocketMessage)
    ensures
        r@ == (WsModel::Response { id: id@, result: config::device_info_json(info@) }),
{
    WebSocketMessage::Response { id, result: info.to_json() }
}

/// What became of a program that was run.
#[derive(Debug)]
pub enum CommandOutcome {
    Ran { success: bool, stdout: String, stderr: String },
    NotRun { error: String },
}

/// What became of a program, apart from how it is stored.
pub enum CommandOutcomeModel {
    Ran { success: bool, stdout: Seq<char>, stderr: Seq<char> },
    NotRun { error: Seq<char> },
}

impl View for CommandOutcome {
    type V = CommandOutcomeModel;

    open spec fn view(&self) -> CommandOutcomeModel {
        match self {
            CommandOutcome::Ran { success, stdout, stderr } => CommandOutcomeModel::Ran {
                success: *success,
                stdout: stdout@,
                stderr: stderr@,
            },
            CommandOutcome::NotRun { error } => CommandOutcomeModel::NotRun { error: error@ },
        }
    }
}

/// An update that worked: the installer says so, and nothing in what it printed says otherwise.
pub open spec fn update_worked(outcome: CommandOutcomeModel) -> bool {
    match outcome {
        CommandOutcomeModel::Ran { success, stdout, stderr } => success && !text::holds(
            stdout,
            "Swupdate *failed* !"@,
        ) && !text::holds(stdout, "Installation failed !"@) && !text::holds(stderr, "ERROR"@),
        CommandOutcomeModel::NotRun { .. } => false,
    }
}

/// Tells the clients what became of an update.
pub fn update_status(outcome: &CommandOutcome, timestamp_ms: u128) -> (r: WebSocketMessage)
    ensures
        r@ == (WsModel::Event {
            topic: "device.ota.status"@,
            data: JsonModel::table().and("current"@, JsonModel::Text("finished"@)).and(
                "ota"@,
                JsonModel::Text(
                    if update_worked(outcome@) {
                        "complete"@
                    } else {
                        "failed"@
                    },
                ),
            ),
            server_timestamp_ms: Some(timestamp_ms),
        }),
        r@ == update_event(outcome@, timestamp_ms),
{
    let worked = match outcome {
        CommandOutcome::Ran { success, stdout, stderr } => *success && !text::contains(
            stdout.as_str(),
            "Swupdate *failed* !",
        ) && !text::contains(stdout.as_str(), "Installation failed !") && !text::contains(
            stderr.as_str(),
            "ERROR",
        ),
        CommandOutcome::NotRun { .. } => false,
    };
    let ota = if worked {
        "complete"
    } else {
        "failed"
    };
    WebSocketMessage::Event {
        topic: "device.ota.status".to_owned(),
        data: Json::table().and("current", Json::text("finished")).and("ota", Json::text(ota)),
        server_timestamp_ms: Some(timestamp_ms),
    }
}

/// What is answered where something worked.
pub open spec fn success_json() -> JsonModel {
    JsonModel::table().and("success"@, JsonModel::Bool(true))
}

/// What is answered where something did not work.
pub open spec fn failure_json(error: Seq<char>) -> JsonModel {
    JsonModel::table().and("success"@, JsonModel::Bool(false)).and(
        "error"@,
        JsonModel::Text(error),
    )
}

fn success_document() -> (r: Json)
    ensures
        r@ == success_json(),
{
    Json::table().and("success", Json::Bool(true))
}

fn failure_document(error: String) -> (r: Json)
    ensures
        r@ == failure_json(error@),
{
    Json::table().and("success", Json::Bool(false)).and("error", Json::Text(error))
}

/// Answers a request to run a command of the system.
pub fn command_reply(id: String, outcome: &CommandOutcome) -> (r: WebSocketMessage)
    ensures
        r@ == (WsModel::Response {
            id: id@,
            result: match outcome@ {
                CommandOutcomeModel::Ran { success, stderr, .. } => if success {
                    success_json()
                } else {
                    failure_json(stderr)
                },
                CommandOutcomeModel::NotRun { error } => failure_json(error),
            },
        }),
        r@ == (WsModel::Response { id: id@, result: command_result(outcome@) }),
{
    let result = match outcome {
        CommandOutcome::Ran { success, stderr, .. } => if *success {
            success_document()
        } else {
            failure_document(stderr.clone())
        },
        CommandOutcome::NotRun { error } => failure_document(error.clone()),
    };
    WebSocketMessage::Response { id, result }
}

/// A step back to how the device came from the factory.
#[derive(Clone, Copy, Debug, PartialEq, Eq, Structural)]
pub enum ResetStep {
    SetFirstboot,
    Sync,
    Reboot,
}

/// What comes after a step: another, or the answer.
#[derive(Debug)]
pub enum AfterReset {
    Step(ResetStep),
    Answer(Json),
}

/// What comes after a step, apart from how it is stored.
pub enum AfterResetModel {
    Step(ResetStep),
    Answer(JsonModel),
}

impl View for AfterReset {
    type V = AfterResetModel;

    open spec fn view(&self) -> AfterResetModel {
        match self {
            AfterReset::Step(s) => AfterResetModel::Step(*s),
            AfterReset::Answer(j) => AfterResetModel::Answer(j@),
        }
    }
}

/// What a command is answered with.
pub open spec fn command_result(outcome: CommandOutcomeModel) -> JsonModel {
    match outcome {
        CommandOutcomeModel::Ran { success, stderr, .. } => if success {
            success_json()
        } else {
            failure_json(stderr)
        },
        CommandOutcomeModel::NotRun { error } => failure_json(error),
    }
}

/// What the clients are told at the end of an update.
pub open spec fn update_event(outcome: CommandOutcomeModel, timestamp_ms: u128) -> WsModel {
    WsModel::Event {
        topic: "device.ota.status"@,
        data: JsonModel::table().and("current"@, JsonModel::Text("finished"@)).and(
            "ota"@,
            JsonModel::Text(
                if update_worked(outcome) {
                    "complete"@
                } else {
                    "failed"@
                },
            ),
        ),
        server_timestamp_ms: Some(timestamp_ms),
    }
}

/// What a request for the devices is answered with.
pub open spec fn devices_reply(
    id: Seq<char>,
    devices: Result<Seq<KnownDeviceModel>, Seq<char>>,
) -> WsModel {
    match devices {
        Ok(known) => WsModel::Response {
            id,
            result: JsonModel::table().and(
                "payload"@,
                JsonModel::List(paired_devices(known)),
            ).and("type"@, JsonModel::Text("bluetooth_device_list"@)),
        },
        Err(error) => WsModel::Error { id, error },
    }
}

/// What a step says that could not be run, and what it says that failed.
pub open spec fn reset_faults(step: ResetStep) -> (Seq<char>, Seq<char>) {
    match step {
        ResetStep::SetFirstboot => (
            "Failed to execute uenv: "@,
            "Failed to set firstboot flag: "@,
        ),
        ResetStep::Sync => ("Failed to execute sync: "@, "Failed to sync filesystem: "@),
        ResetStep::Reboot => ("Failed to execute shutdown: "@, "Failed to reboot: "@),
    }
}

/// What comes after a step: the next where it worked, and the answer after the last or where it
/// did not.
pub open spec fn after_reset_step(step: ResetStep, outcome: CommandOutcomeModel) -> AfterResetModel {
    match outcome {
        CommandOutcomeModel::Ran { success, stderr, .. } => if !success {
            AfterResetModel::Answer(failure_json(reset_faults(step).1 + stderr))
        } else {
            match step {
                ResetStep::SetFirstboot => AfterResetModel::Step(ResetStep::Sync),
                ResetStep::Sync => AfterResetModel::Step(ResetStep::Reboot),
                ResetStep::Reboot => AfterResetModel::Answer(success_json()),
            }
        },
        CommandOutcomeModel::NotRun { error } => AfterResetModel::Answer(
            failure_json(reset_faults(step).0 + error),
        ),
    }
}

/// Says what comes after a step.
pub fn factory_reset(step: ResetStep, outcome: &CommandOutcome) -> (r: AfterReset)
    ensures
        r@ == after_reset_step(step, outcome@),
{
    let (not_run, failed) = match step {
        ResetStep::SetFirstboot => ("Failed to execute uenv: ", "Failed to set firstboot flag: "),
        ResetStep::Sync => ("Failed to execute sync: ", "Failed to sync filesystem: "),
        ResetStep::Reboot => ("Failed to execute shutdown: ", "Failed to reboot: "),
    };
    match outcome {
        CommandOutcome::Ran { success, stderr, .. } => if !*success {
            AfterReset::Answer(failure_document(text::joined(failed, stderr.as_str())))
        } else {
            match step {
                ResetStep::SetFirstboot => AfterReset::Step(ResetStep::Sync),
                ResetStep::Sync => AfterReset::Step(ResetStep::Reboot),
                ResetStep::Reboot => AfterReset::Answer(success_document()),
            }
        },
        CommandOutcome::NotRun { error } => AfterReset::Answer(
            failure_document(text::joined(not_run, error.as_str())),
        ),
    }
}

impl WebSocketServer {
    /// Answers a request with a document.
    pub fn send_response(&self, request_id: String, result: Json) -> (r: WebSocketMessage)
        ensures
            r@ == (WsModel::Response { id: request_id@, result: result@ }),
    {
        WebSocketMessage::Response { id: request_id, result }
    }

    /// Answers a request with a failure.
    pub fn send_error(&self, request_id: String, error: String) -> (r: WebSocketMessage)
        ensures
            r@ == (WsModel::Error { id: request_id@, error: error@ }),
    {
        WebSocketMessage::Error { id: request_id, error }
    }
}

/// What a client gets for a message that makes no sense.
pub fn unreadable_reply(error: &str) -> (r: WebSocketMessage)
    ensures
        r@ == (WsModel::Error { id: "unknown"@, error: error@ }),
{
    WebSocketMessage::Error { id: "unknown".to_owned(), error: error.to_owned() }
}

/// Makes the message that hands a request to what manages the connections, out of the bytes of the
/// request.
pub fn manager_message(id: String, protocol: String, data: Bytes) -> (r: AppMessage)
    ensures
        r@ == (AppMessageModel {
            id: id@,
            protocol: protocol@,
            session_id: 1,
            data: buffer::payload(data),
        }),
{
    AppMessage { id, protocol, session_id: 1, data }
}

/// A client that connects after the app said that it is ready is told so first.
pub proof fn law_ready_is_replayed(state: ServerModel, data: JsonModel)
    ensures
        ({
            let after = state.told("app.ready"@, data);
            let told = WebSocketServer::greeting_models(after);
            told.len() > 0 && told[0] == event("app.ready"@, data)
        }),
{
}

/// A client that connects after the app said what it is subscribed to is told that, and all else
/// that the app said of itself before.
pub proof fn law_subscription_is_replayed(cached: JsonModel, update: JsonModel, key: Seq<char>)
    requires
        cached.takes_fields(),
    ensures
        ({
            let after = app_ready_after(Some(cached), "subscription.updated"@, update);
            let of_subscription = key == "subscribed"@ || key == "subscriptionStatus"@ || key
                == "hasLifetime"@;
            &&& after matches Some(doc)
            &&& doc.field(key) == if of_subscription && update.field(key) is Some {
                update.field(key)
            } else {
                cached.field(key)
            }
        }),
{
    reveal_strlit("subscribed");
    reveal_strlit("subscriptionStatus");
    reveal_strlit("hasLifetime");
    reveal_strlit("app.ready");
    reveal_strlit("subscription.updated");
    assert("subscribed"@.len() == 10);
    assert("subscriptionStatus"@.len() == 18);
    assert("hasLifetime"@.len() == 11);
    assert("app.ready"@.len() == 9);
    assert("subscription.updated"@.len() == 20);
    let a = with_member(cached, update, "subscribed"@);
    let b = with_member(a, update, "subscriptionStatus"@);
    lemma_with_member(cached, update, "subscribed"@, key);
    lemma_with_member(a, update, "subscriptionStatus"@, key);
    lemma_with_member(b, update, "hasLifetime"@, key);
}

proof fn lemma_with_member(doc: JsonModel, from: JsonModel, member: Seq<char>, key: Seq<char>)
    requires
        doc.takes_fields(),
    ensures
        with_member(doc, from, member).takes_fields(),
        with_member(doc, from, member).field(key) == if key == member && from.field(member) is Some {
            from.field(member)
        } else {
            doc.field(key)
        },
{
    if let Some(v) = from.field(member) {
        crate::json::law_field_after_with(doc, member, v);
        if key != member {
            crate::json::law_with_keeps_other_fields(doc, member, v, key);
        }
    }
}

/// A request that the daemon does not answer itself goes to the phone as it is.
pub proof fn law_other_requests_go_to_the_phone(id: Seq<char>, method: Seq<char>, params: JsonModel)
    requires
        slots_request(id, method, params) is None,
        brightness_request(id, method, params) is None,
        device_request(id, method, params) is None,
        method != "spotify.image.fetch"@,
    ensures
        request_actions(id, method, params) == seq![
            ServerActionModel::ToManager {
                id,
                protocol: phone_protocol(),
                request: handed_on(method, params),
            },
        ],
{
}

/// Every request leads to something.
pub proof fn law_no_request_is_dropped(id: Seq<char>, method: Seq<char>, params: JsonModel)
    ensures
        request_actions(id, method, params).len() > 0,
{
}

/// A factory reset reboots only after the flag was set and the disks were synced, and fails with
/// the first step that does not work.
pub proof fn law_factory_reset_stops_at_a_failure(step: ResetStep, outcome: CommandOutcomeModel)
    ensures
        after_reset_step(step, outcome) is Step <==> (step != ResetStep::Reboot && outcome is Ran
            && outcome->success),
        after_reset_step(step, outcome) == AfterResetModel::Step(ResetStep::Reboot) ==> step
            == ResetStep::Sync,
        after_reset_step(step, outcome) == AfterResetModel::Step(ResetStep::Sync) ==> step
            == ResetStep::SetFirstboot,
{
}

/// A request that is handed on has the method and the parameters that it came with.
pub proof fn law_request_is_handed_on_as_it_is(method: Seq<char>, params: JsonModel)
    ensures
        handed_on(method, params).text_field("method"@) == Some(method),
        handed_on(method, params).field("params"@) == Some(params),
{
    reveal_strlit("method");
    reveal_strlit("params");
    assert("method"@.len() == 6 && "params"@.len() == 6);
    assert("method"@[0] != "params"@[0]);
    let d0 = JsonModel::table();
    crate::json::law_bare_object_has_no_member("method"@);
    crate::json::law_bare_object_has_no_member("params"@);
    crate::json::law_member_is_found(d0, "method"@, JsonModel::Text(method));
    let d1 = d0.and("method"@, JsonModel::Text(method));
    crate::json::law_member_is_found(d1, "params"@, params);
    let d2 = d1.and("params"@, params);
    assert(handed_on(method, params) == d2);
}

/// Whatever is done about a request is done under its id, and what is handed on is the request.
pub proof fn law_request_keeps_its_id(
    id: Seq<char>,
    method: Seq<char>,
    params: JsonModel,
    i: int,
)
    requires
        0 <= i < request_actions(id, method, params).len(),
    ensures
        match request_actions(id, method, params)[i] {
            ServerActionModel::Send(WsModel::Response { id: answered, .. }) => answered == id,
            ServerActionModel::Send(WsModel::Error { id: answered, .. }) => answered == id,
            ServerActionModel::Send(_) => false,
            ServerActionModel::Broadcast { .. } => true,
            ServerActionModel::ChangeSlots { id: answered, .. } => answered == id,
            ServerActionModel::GetBrightness { id: answered } => answered == id,
            ServerActionModel::SetBrightness { id: answered, .. } => answered == id,
            ServerActionModel::SetAutoBrightness { id: answered, .. } => answered == id,
            ServerActionModel::SetDiscoverable { .. } => true,
            ServerActionModel::ListDevices { id: answered } => answered == id,
            ServerActionModel::ToManager { id: answered, request, .. } => answered == id && request
                == handed_on(method, params),
            ServerActionModel::ReportVersion { id: answered } => answered == id,
            ServerActionModel::ReportDevice { id: answered } => answered == id,
            ServerActionModel::ApplyUpdate { .. } => true,
            ServerActionModel::RunCommand { id: answered, .. } => answered == id,
            ServerActionModel::FactoryReset { id: answered } => answered == id,
            ServerActionModel::LookUpImage { id: answered, url, params: given } => answered == id
                && params.text_field("url"@) == Some(url) && given == params && method
                == "spotify.image.fetch"@,
        },
{
}

/// The slots and the brightness are set to what a request says, and a request that does not say it,
/// or says what cannot be, is refused and changes nothing.
pub proof fn law_settings_are_what_was_asked_for(id: Seq<char>, params: JsonModel)
    ensures
        match slots_request(id, "device.ab.setSlot"@, params) {
            Some(ServerActionModel::ChangeSlots { change, .. }) => change matches AbChange::SetSlot(
                slot,
            ) && slot < 2 && (params.unsigned_field("slot"@) matches Some(n) && n as usize == slot),
            Some(ServerActionModel::Send(WsModel::Error { .. })) => params.unsigned_field("slot"@)
                != Some(0u64) && params.unsigned_field("slot"@) != Some(1u64),
            _ => false,
        },
        match slots_request(id, "device.ab.setBootResult"@, params) {
            Some(ServerActionModel::ChangeSlots { change, .. }) => change matches
                AbChange::BootResult(well) && (params.signed_field("result"@) matches Some(n) && n
                == if well {
                1int
            } else {
                0
            }),
            Some(ServerActionModel::Send(WsModel::Error { .. })) => params.signed_field("result"@)
                != Some(0i64) && params.signed_field("result"@) != Some(1i64),
            _ => false,
        },
        match brightness_request(id, "device.brightness.set"@, params) {
            Some(ServerActionModel::SetBrightness { value, .. }) => params.unsigned_field(
                "brightness"@,
            ) matches Some(n) && (n <= 0xff ==> value == n),
            Some(ServerActionModel::Send(WsModel::Error { .. })) => params.unsigned_field(
                "brightness"@,
            ) is None,
            _ => false,
        },
        brightness_request(id, "device.brightness.auto"@, params) matches Some(
            ServerActionModel::SetAutoBrightness { enabled, .. },
        ) && (params.flag_field("enabled"@) matches Some(b) ==> enabled == b) && (params.flag_field(
            "enabled"@,
        ) is None ==> enabled),
        brightness_request(id, "device.brightness.get"@, params) is Some,
        slots_request(id, "device.ab.get"@, params) == Some(
            ServerActionModel::ChangeSlots { id, change: AbChange::Get },
        ),
        slots_request(id, "device.ab.reset"@, params) == Some(
            ServerActionModel::ChangeSlots { id, change: AbChange::Reset },
        ),
        slots_request(id, "device.ab.failover"@, params) == Some(
            ServerActionModel::ChangeSlots { id, change: AbChange::Failover },
        ),
{
    reveal_strlit("device.ab.get");
    reveal_strlit("device.ab.reset");
    reveal_strlit("device.ab.setSlot");
    reveal_strlit("device.ab.setBootResult");
    reveal_strlit("device.ab.failover");
    reveal_strlit("device.brightness.get");
    reveal_strlit("device.brightness.set");
    reveal_strlit("device.brightness.auto");
    assert("device.ab.get"@.len() == 13 && "device.ab.reset"@.len() == 15);
    assert("device.ab.setSlot"@.len() == 17);
    assert("device.ab.setBootResult"@.len() == 23 && "device.ab.failover"@.len() == 18);
    assert("device.brightness.get"@.len() == 21);
    assert("device.brightness.set"@.len() == 21 && "device.brightness.auto"@.len() == 22);
    assert("device.brightness.get"@[18] != "device.brightness.set"@[18]);
}

/// The slots after a change: a change that only looks leaves them, a slot that is set starts, a good
/// start is marked where it happened, and a bad one and a change over move to the other slot.
pub proof fn law_slots_change_as_asked(d: ABModel, change: AbChange)
    requires
        d.well_formed(),
        d.slots[0].priority <= 15,
        d.slots[1].priority <= 15,
        change matches AbChange::SetSlot(slot) ==> slot < 2,
    ensures
        ({
            let after = ab_changed(d, change);
            let was = d.active_slot();
            match change {
                AbChange::Get => after == d,
                AbChange::Reset => after.active_slot() == 0 && after.valid(),
                AbChange::SetSlot(slot) => after.active_slot() == slot
                    && after.slots[slot as int].tries_remaining == 7,
                AbChange::BootResult(true) => after.active_slot() == was
                    && after.slots[was].successful_boot == 1 && after.slots[1 - was]
                    == d.slots[1 - was],
                AbChange::BootResult(false) => after.active_slot() == 1 - was,
                AbChange::Failover => after.active_slot() == 1 - was,
            }
        }),
{
}

/// Whether others see the device is what the request says, as a flag or as a word with or without
/// capitals, and yes where it says nothing.
pub proof fn law_discoverable_as_asked(params: JsonModel)
    ensures
        params.flag_field("discoverable"@) matches Some(b) ==> wants_discoverable(params) == b,
        params.field("discoverable"@) is None ==> wants_discoverable(params),
        params.text_field("discoverable"@) matches Some(word) ==> (!wants_discoverable(params)
            <==> text::uppercase(word) == "FALSE"@ || text::uppercase(word) == "0"@
            || text::uppercase(word) == "NO"@ || text::uppercase(word) == "OFF"@),
{
    reveal_strlit("false");
    reveal_strlit("0");
    reveal_strlit("no");
    reveal_strlit("off");
    reveal_strlit("FALSE");
    reveal_strlit("NO");
    reveal_strlit("OFF");
    assert(text::uppercase("false"@) =~= "FALSE"@);
    assert(text::uppercase("0"@) =~= "0"@);
    assert(text::uppercase("no"@) =~= "NO"@);
    assert(text::uppercase("off"@) =~= "OFF"@);
}

/// A client that connects is told last whether the wake word is muted, as it was told last to all.
pub proof fn law_muting_is_replayed(state: ServerModel, muted: bool)
    ensures
        WebSocketServer::greeting_models(state.with_muted(muted)).last() == event(
            "voice.wakeword.state"@,
            muted_json(muted),
        ),
        muted_json(muted).flag_field("muted"@) == Some(muted),
        state.with_muted(muted).app_ready == state.app_ready,
        state.with_muted(muted).pending == state.pending,
        state.with_muted(muted).playing == state.playing,
{
    reveal_strlit("muted");
    let d0 = JsonModel::table();
    crate::json::law_bare_object_has_no_member("muted"@);
    crate::json::law_member_is_found(d0, "muted"@, JsonModel::Bool(muted));
    let d1 = d0.and("muted"@, JsonModel::Bool(muted));
    assert(muted_json(muted) == d1);
}

/// Once the app has gone, a client that connects is not told that it is ready, and nothing else is
/// forgotten.
pub proof fn law_gone_app_is_not_replayed(state: ServerModel)
    ensures
        state.without_app().app_ready is None,
        state.without_app().wakeword_muted == state.wakeword_muted,
        state.without_app().pending == state.pending,
        state.without_app().playing == state.playing,
        WebSocketServer::greeting_models(state.without_app()).len() <= 1,
        state.wakeword_muted is None ==> WebSocketServer::greeting_models(
            state.without_app(),
        ).len() == 0,
{
}

/// The images that the phone was asked for are those that are waited for, until they came or were
/// given up.
pub proof fn law_awaited_images_are_known(
    state: ServerModel,
    id: Seq<char>,
    method: Seq<char>,
    params: JsonModel,
    found: Option<Seq<char>>,
    other: Seq<char>,
)
    ensures
        state.with_fetch(id).pending.contains(id),
        !state.without_fetch(id).pending.contains(id),
        state.without_fetches().pending.len() == 0,
        other != id ==> state.with_fetch(id).pending.contains(other) == state.pending.contains(
            other,
        ),
        other != id ==> state.without_fetch(id).pending.contains(other) == state.pending.contains(
            other,
        ),
        found is None ==> state.looked_up(id, found).pending.contains(id),
        found is Some ==> state.looked_up(id, found) == state,
        method == "spotify.image.fetch"@ && params.text_field("url"@) is None ==> state.asked(
            id,
            method,
            params,
        ).pending.contains(id),
        method != "spotify.image.fetch"@ ==> state.asked(id, method, params) == state,
        state.with_fetch(id).app_ready == state.app_ready,
        state.without_fetches().app_ready == state.app_ready,
{
}

/// A client gets an image that is kept, under the address that it asked for, and the phone is not
/// asked for it; one that is not kept the phone is asked for.
pub proof fn law_kept_image_is_handed_out(
    id: Seq<char>,
    url: Seq<char>,
    params: JsonModel,
    found: Option<Seq<char>>,
)
    ensures
        image_actions(id, url, params, found).len() == 1,
        found matches Some(data) ==> {
            &&& image_actions(id, url, params, found)[0] matches ServerActionModel::Send(
                WsModel::Response { id: answered, result },
            )
            &&& answered == id
            &&& result.text_field("url"@) == Some(url)
            &&& result.text_field("data"@) == Some(data)
        },
        found is None ==> {
            &&& image_actions(id, url, params, found)[0] matches ServerActionModel::ToManager {
                id: asked,
                protocol,
                request,
            }
            &&& asked == id
            &&& protocol == "com.usenocturne.daemon"@
            &&& request.text_field("method"@) == Some("spotify.image.fetch"@)
            &&& request.field("params"@) == Some(params)
        },
{
    law_request_is_handed_on_as_it_is("spotify.image.fetch"@, params);
    if let Some(data) = found {
        reveal_strlit("url");
        reveal_strlit("data");
        reveal_strlit("contentType");
        assert("url"@.len() == 3 && "data"@.len() == 4 && "contentType"@.len() == 11);
        let d0 = JsonModel::table();
        crate::json::law_bare_object_has_no_member("url"@);
        crate::json::law_bare_object_has_no_member("data"@);
        crate::json::law_bare_object_has_no_member("contentType"@);
        crate::json::law_member_is_found(d0, "url"@, JsonModel::Text(url));
        let d1 = d0.and("url"@, JsonModel::Text(url));
        crate::json::law_member_is_found(d1, "data"@, JsonModel::Text(data));
        let d2 = d1.and("data"@, JsonModel::Text(data));
        crate::json::law_member_is_found(d2, "contentType"@, JsonModel::Text("image/jpeg"@));
        let d3 = d2.and("contentType"@, JsonModel::Text("image/jpeg"@));
    }
}

/// A request that was given up is answered as cancelled, under its id.
pub proof fn law_given_up_request_is_cancelled(id: Seq<char>)
    ensures
        cancelled(id) matches WsModel::Response { id: answered, result } && answered == id
            && result.flag_field("cancelled"@) == Some(true),
{
    reveal_strlit("cancelled");
    reveal_strlit("reason");
    assert("cancelled"@.len() == 9 && "reason"@.len() == 6);
    let d0 = JsonModel::table();
    crate::json::law_bare_object_has_no_member("cancelled"@);
    crate::json::law_bare_object_has_no_member("reason"@);
    crate::json::law_member_is_found(d0, "cancelled"@, JsonModel::Bool(true));
    let d1 = d0.and("cancelled"@, JsonModel::Bool(true));
    crate::json::law_member_is_found(d1, "reason"@, JsonModel::Text("artwork_event_received"@));
    let d2 = d1.and("reason"@, JsonModel::Text("artwork_event_received"@));
}

/// Whether something plays is what the phone said last of its player; events about other things do
/// not change it, nor whether the wake word is muted.
pub proof fn law_playing_is_what_was_told(
    state: ServerModel,
    topic: Seq<char>,
    data: JsonModel,
    playback: JsonModel,
    status: Seq<char>,
)
    ensures
        topic == "media.nowPlaying.update"@ && data.field("PlaybackAttributes"@) == Some(playback)
            && playback.text_field("PlaybackStatus"@) == Some(status) ==> (state.told(
            topic,
            data,
        ).playing <==> status == "playing"@),
        topic != "media.nowPlaying.update"@ ==> state.told(topic, data).playing == state.playing,
        data.field("PlaybackAttributes"@) is None ==> state.told(topic, data).playing
            == state.playing,
        topic != "app.ready"@ && topic != "subscription.updated"@ ==> state.told(
            topic,
            data,
        ).app_ready == state.app_ready,
        state.told(topic, data).pending == state.pending,
        state.told(topic, data).wakeword_muted == state.wakeword_muted,
{
}

/// The clients see the devices that are paired, each once and in order, and no others.
pub proof fn law_paired_devices_are_listed(devices: Seq<KnownDeviceModel>)
    ensures
        paired_devices(devices) == devices.filter(
            |d: KnownDeviceModel| d.paired matches Some(n) && n != 0,
        ).map_values(|d: KnownDeviceModel| device_json(d)),
    decreases devices.len(),
{
    reveal(Seq::filter);
    let paired = |d: KnownDeviceModel| d.paired matches Some(n) && n != 0;
    let shown = |d: KnownDeviceModel| device_json(d);
    if devices.len() > 0 {
        law_paired_devices_are_listed(devices.drop_last());
        let before = devices.drop_last().filter(paired);
        assert(before.push(devices.last()).map_values(shown) =~= before.map_values(shown).push(
            device_json(devices.last()),
        ));
    } else {
        assert(devices.filter(paired).map_values(shown) =~= Seq::empty());
    }
}

/// What the clients see of a device is what is known of it.
pub proof fn law_device_is_shown_as_known(d: KnownDeviceModel)
    ensures
        d.address is Some ==> device_json(d).text_field("address"@) == d.address,
        device_json(d).flag_field("blocked"@) == Some(d.blocked matches Some(n) && n != 0),
        device_json(d).flag_field("default"@) == Some(d.trusted matches Some(n) && n != 0),
        device_json(d).flag_field("connected"@) == Some(d.connected matches Some(n) && n != 0),
        device_json(d).field("device_info"@) matches Some(info) && {
            &&& d.name is Some ==> info.text_field("name"@) == d.name
            &&& d.name is None && d.alias is Some ==> info.text_field("name"@) == d.alias
        },
{
    let address = match d.address {
        Some(s) => s,
        None => "unknown"@,
    };
    let name = match (d.name, d.alias) {
        (Some(s), _) => s,
        (None, Some(s)) => s,
        (None, None) => "Unknown Device"@,
    };
    let info = JsonModel::table().and("name"@, JsonModel::Text(name));
    crate::json::law_bare_object_has_no_member("name"@);
    crate::json::law_member_is_found(JsonModel::table(), "name"@, JsonModel::Text(name));
    reveal_strlit("address");
    reveal_strlit("blocked");
    reveal_strlit("default");
    reveal_strlit("connected");
    reveal_strlit("device_info");
    assert("address"@.len() == 7 && "blocked"@.len() == 7 && "default"@.len() == 7);
    assert("connected"@.len() == 9 && "device_info"@.len() == 11);
    assert("address"@[0] != "blocked"@[0]);
    assert("address"@[0] != "default"@[0]);
    assert("blocked"@[0] != "default"@[0]);
    let d0 = JsonModel::table();
    crate::json::law_bare_object_has_no_member("address"@);
    crate::json::law_bare_object_has_no_member("blocked"@);
    crate::json::law_bare_object_has_no_member("default"@);
    crate::json::law_bare_object_has_no_member("connected"@);
    crate::json::law_bare_object_has_no_member("device_info"@);
    crate::json::law_member_is_found(d0, "address"@, JsonModel::Text(address));
    let d1 = d0.and("address"@, JsonModel::Text(address));
    crate::json::law_member_is_found(d1, "blocked"@, JsonModel::Bool(is_set(d.blocked)));
    let d2 = d1.and("blocked"@, JsonModel::Bool(is_set(d.blocked)));
    crate::json::law_member_is_found(d2, "default"@, JsonModel::Bool(is_set(d.trusted)));
    let d3 = d2.and("default"@, JsonModel::Bool(is_set(d.trusted)));
    crate::json::law_member_is_found(d3, "connected"@, JsonModel::Bool(is_set(d.connected)));
    let d4 = d3.and("connected"@, JsonModel::Bool(is_set(d.connected)));
    crate::json::law_member_is_found(d4, "device_info"@, info);
    let d5 = d4.and("device_info"@, info);
    assert(device_json(d) == d5);
}

/// An update worked only where the installer ran and said so, and printed nothing to the contrary.
pub proof fn law_update_worked_only_where_nothing_says_otherwise(outcome: CommandOutcomeModel)
    ensures
        outcome is NotRun ==> !update_worked(outcome),
        outcome matches CommandOutcomeModel::Ran { success, stdout, stderr } ==> {
            &&& !success ==> !update_worked(outcome)
            &&& (exists|i: int| text::occurs_at(stderr, "ERROR"@, i)) ==> !update_worked(outcome)
            &&& (exists|i: int| text::occurs_at(stdout, "Installation failed !"@, i))
                ==> !update_worked(outcome)
            &&& (exists|i: int| text::occurs_at(stdout, "Swupdate *failed* !"@, i))
                ==> !update_worked(outcome)
            &&& success && stdout.len() == 0 && stderr.len() == 0 ==> update_worked(outcome)
        },
{
    reveal_strlit("Swupdate *failed* !");
    reveal_strlit("Installation failed !");
    reveal_strlit("ERROR");
}

/// What worked is answered with success, and what did not with why.
pub proof fn law_success_and_failure_are_told(error: Seq<char>)
    ensures
        success_json().flag_field("success"@) == Some(true),
        failure_json(error).flag_field("success"@) == Some(false),
        failure_json(error).text_field("error"@) == Some(error),
{
    crate::json::law_bare_object_has_no_member("success"@);
    crate::json::law_member_is_found(JsonModel::table(), "success"@, JsonModel::Bool(true));
    reveal_strlit("success");
    reveal_strlit("error");
    assert("success"@.len() == 7 && "error"@.len() == 5);
    let d0 = JsonModel::table();
    crate::json::law_bare_object_has_no_member("success"@);
    crate::json::law_bare_object_has_no_member("error"@);
    crate::json::law_member_is_found(d0, "success"@, JsonModel::Bool(false));
    let d1 = d0.and("success"@, JsonModel::Bool(false));
    crate::json::law_member_is_found(d1, "error"@, JsonModel::Text(error));
    let d2 = d1.and("error"@, JsonModel::Text(error));
    assert(failure_json(error) == d2);
}

/// A command is answered with success where it ran and said so, and otherwise with what it printed
/// or why it did not run.
pub proof fn law_command_is_answered(outcome: CommandOutcomeModel)
    ensures
        command_result(outcome).flag_field("success"@) == Some(outcome is Ran && outcome->success),
        outcome is Ran && !outcome->success ==> command_result(outcome).text_field("error"@)
            == Some(outcome->stderr),
        outcome is NotRun ==> command_result(outcome).text_field("error"@) == Some(outcome->error),
{
    law_success_and_failure_are_told(outcome->stderr);
    law_success_and_failure_are_told(outcome->error);
}

/// The clients are told that an update is complete where it worked, and that it failed where it did
/// not, with the time.
pub proof fn law_end_of_an_update_is_told(outcome: CommandOutcomeModel, timestamp_ms: u128)
    ensures
        update_event(outcome, timestamp_ms) matches WsModel::Event {
            topic,
            data,
            server_timestamp_ms,
        } && topic == "device.ota.status"@ && server_timestamp_ms == Some(timestamp_ms)
            && data.text_field("current"@) == Some("finished"@) && data.text_field("ota"@) == Some(
            if update_worked(outcome) {
                "complete"@
            } else {
                "failed"@
            },
        ),
{
    let ota = if update_worked(outcome) {
        "complete"@
    } else {
        "failed"@
    };
    reveal_strlit("current");
    reveal_strlit("ota");
    assert("current"@.len() == 7 && "ota"@.len() == 3);
    let d0 = JsonModel::table();
    crate::json::law_bare_object_has_no_member("current"@);
    crate::json::law_bare_object_has_no_member("ota"@);
    crate::json::law_member_is_found(d0, "current"@, JsonModel::Text("finished"@));
    let d1 = d0.and("current"@, JsonModel::Text("finished"@));
    crate::json::law_member_is_found(d1, "ota"@, JsonModel::Text(ota));
    let d2 = d1.and("ota"@, JsonModel::Text(ota));
}

/// The devices are told under the id of the request, or why they could not be listed.
pub proof fn law_devices_are_told(id: Seq<char>, devices: Result<Seq<KnownDeviceModel>, Seq<char>>)
    ensures
        devices matches Ok(known) ==> {
            &&& devices_reply(id, devices) matches WsModel::Response { id: answered, result }
            &&& answered == id
            &&& result.field("payload"@) == Some(JsonModel::List(paired_devices(known)))
        },
        devices matches Err(why) ==> devices_reply(id, devices) == (WsModel::Error {
            id,
            error: why,
        }),
{
    if let Ok(known) = devices {
        reveal_strlit("payload");
        reveal_strlit("type");
        assert("payload"@.len() == 7 && "type"@.len() == 4);
        let d0 = JsonModel::table();
        crate::json::law_bare_object_has_no_member("payload"@);
        crate::json::law_bare_object_has_no_member("type"@);
        crate::json::law_member_is_found(d0, "payload"@, JsonModel::List(paired_devices(known)));
        let d1 = d0.and("payload"@, JsonModel::List(paired_devices(known)));
        crate::json::law_member_is_found(d1, "type"@, JsonModel::Text("bluetooth_device_list"@));
        let d2 = d1.and("type"@, JsonModel::Text("bluetooth_device_list"@));
    }
}

/// A factory reset that went through is answered with success, and one that stopped with a failure.
pub proof fn law_factory_reset_is_answered(step: ResetStep, outcome: CommandOutcomeModel)
    ensures
        after_reset_step(step, outcome) matches AfterResetModel::Answer(answer) ==> {
            &&& answer.flag_field("success"@) == Some(
                outcome is Ran && outcome->success && step == ResetStep::Reboot,
            )
            &&& outcome is NotRun ==> (answer.text_field("error"@) matches Some(why)
                && outcome->error.is_suffix_of(why))
        },
{
    law_success_and_failure_are_told(reset_faults(step).1 + outcome->stderr);
    law_success_and_failure_are_told(reset_faults(step).0 + outcome->error);
    if outcome is NotRun {
        let error = outcome->error;
        let why = reset_faults(step).0 + error;
        assert(error =~= why.subrange(why.len() - error.len(), why.len() as int));
    }
}

/// The record of the slots is written back unless nothing was changed.
pub proof fn law_changed_record_is_written_back(d: ABModel, change: AbChange)
    ensures
        !written_back(change) ==> ab_changed(d, change) == d,
        change is Reset || change is SetSlot || change is BootResult || change is Failover
            ==> written_back(change),
        change is Get ==> !written_back(change),
{
}

/// The clients get the description of the firmware as its file says it, and why there is none where
/// it cannot be read.
pub proof fn law_firmware_is_told_as_described(content: Result<Seq<char>, Seq<char>>)
    ensures
        content matches Ok(s) ==> (value::json_read(encode_utf8(s)) matches Ok(doc)
            ==> version_result(content) == doc),
        content matches Err(fault) ==> (version_result(content).text_field("error"@) matches Some(
            why,
        ) && fault.is_suffix_of(why)),
{
    if let Err(fault) = content {
        let why = "Failed to read version.json: "@ + fault;
        crate::json::law_bare_object_has_no_member("error"@);
        crate::json::law_member_is_found(JsonModel::table(), "error"@, JsonModel::Text(why));
        assert(fault =~= why.subrange(why.len() - fault.len(), why.len() as int));
    }
}

/// What the app says of its subscription can be taken in wherever the app said an object of itself,
/// and every other event always.
pub proof fn law_objects_take_in_a_subscription(
    cached: Option<JsonModel>,
    topic: Seq<char>,
    data: JsonModel,
)
    ensures
        topic != "subscription.updated"@ ==> can_merge(cached, topic, data),
        cached is None ==> can_merge(cached, topic, data),
        (cached matches Some(doc) && doc is Table) ==> can_merge(cached, topic, data),
        topic == "subscription.updated"@ && data.field("subscribed"@) is Some && (cached matches Some(
            doc,
        ) && doc.text() is Some) ==> !can_merge(cached, topic, data),
{
    reveal_strlit("app.ready");
    reveal_strlit("subscription.updated");
    assert("app.ready"@.len() == 9 && "subscription.updated"@.len() == 20);
}

/// Of the requests that were given up each is answered, under its own id.
pub proof fn law_every_given_up_request_is_answered(ids: Seq<Seq<char>>)
    ensures
        cancelled_all(ids).len() == ids.len(),
        forall|i: int|
            0 <= i < ids.len() ==> (#[trigger] cancelled_all(ids)[i] matches WsModel::Response {
                id,
                result,
            } && id == ids[i]),
{
}

/// A request for the device does what its method says: it restarts, is switched off or is reset
/// just where that is asked for, an update is applied from the file that is named, and what concerns
/// other devices goes to where they are known.
pub proof fn law_device_does_what_the_method_says(
    id: Seq<char>,
    method: Seq<char>,
    params: JsonModel,
)
    ensures
        ({
            let done = request_actions(id, method, params);
            let connections = method == "bluetooth.device.connect"@ || method
                == "bluetooth.device.disconnect"@ || method == "bluetooth.device.unpair"@ || method
                == "bluetooth.device.forget"@;
            &&& done[0] == (ServerActionModel::RunCommand { id, command: SystemCommand::Reboot })
                <==> method == "device.power.reboot"@
            &&& done[0] == (ServerActionModel::RunCommand { id, command: SystemCommand::Shutdown })
                <==> method == "device.power.shutdown"@
            &&& done[0] == (ServerActionModel::RunCommand {
                id,
                command: SystemCommand::ResetBootCounter,
            }) <==> method == "reset_boot_counter"@
            &&& done[0] is FactoryReset <==> method == "device.factoryreset"@
            &&& done[0] is ReportVersion <==> method == "device.version"@
            &&& done[0] is ReportDevice <==> method == "device.info"@
            &&& done[0] is ListDevices <==> method == "bluetooth.devices.list"@
            &&& done[0] is ApplyUpdate <==> method == "device.ota.apply"@
            &&& done[0] matches ServerActionModel::ApplyUpdate { file_path } ==> (
            params.text_field("file_path"@) matches Some(named) ==> file_path == named)
            &&& done[0] matches ServerActionModel::ToManager { protocol, .. } ==> protocol
                == if connections {
                "bluetooth.control"@
            } else {
                "com.usenocturne.daemon"@
            }
            &&& connections ==> done[0] is ToManager
        }),
{
    reveal_strlit("device.ab.get");
    reveal_strlit("device.ab.reset");
    reveal_strlit("device.ab.setSlot");
    reveal_strlit("device.ab.setBootResult");
    reveal_strlit("device.ab.failover");
    reveal_strlit("device.brightness.get");
    reveal_strlit("device.brightness.set");
    reveal_strlit("device.brightness.auto");
    reveal_strlit("bluetooth.discoverable");
    reveal_strlit("bluetooth.devices.list");
    reveal_strlit("bluetooth.device.connect");
    reveal_strlit("bluetooth.device.disconnect");
    reveal_strlit("bluetooth.device.unpair");
    reveal_strlit("bluetooth.device.forget");
    reveal_strlit("device.version");
    reveal_strlit("device.info");
    reveal_strlit("device.ota.apply");
    reveal_strlit("reset_boot_counter");
    reveal_strlit("device.power.reboot");
    reveal_strlit("device.power.shutdown");
    reveal_strlit("device.factoryreset");
    assert("device.ab.get"@.len() == 13);
    assert("device.ab.reset"@.len() == 15);
    assert("device.ab.setSlot"@.len() == 17);
    assert("device.ab.setBootResult"@.len() == 23);
    assert("device.ab.failover"@.len() == 18);
    assert("device.brightness.get"@.len() == 21);
    assert("device.brightness.set"@.len() == 21);
    assert("device.brightness.auto"@.len() == 22);
    assert("bluetooth.discoverable"@.len() == 22);
    assert("bluetooth.devices.list"@.len() == 22);
    assert("bluetooth.device.connect"@.len() == 24);
    assert("bluetooth.device.disconnect"@.len() == 27);
    assert("bluetooth.device.unpair"@.len() == 23);
    assert("bluetooth.device.forget"@.len() == 23);
    assert("device.version"@.len() == 14);
    assert("device.info"@.len() == 11);
    assert("device.ota.apply"@.len() == 16);
    assert("reset_boot_counter"@.len() == 18);
    assert("device.power.reboot"@.len() == 19);
    assert("device.power.shutdown"@.len() == 21);
    assert("device.factoryreset"@.len() == 19);
    assert("device.ab.setBootResult"@[0] != "bluetooth.device.unpair"@[0]);
    assert("device.ab.setBootResult"@[0] != "bluetooth.device.forget"@[0]);
    assert("device.ab.failover"@[0] != "reset_boot_counter"@[0]);
    assert("device.brightness.get"@[18] != "device.brightness.set"@[18]);
    assert("device.brightness.get"@[7] != "device.power.shutdown"@[7]);
    assert("device.brightness.set"@[7] != "device.power.shutdown"@[7]);
    assert("device.brightness.auto"@[0] != "bluetooth.discoverable"@[0]);
    assert("device.brightness.auto"@[0] != "bluetooth.devices.list"@[0]);
    assert("bluetooth.discoverable"@[11] != "bluetooth.devices.list"@[11]);
    assert("bluetooth.device.unpair"@[17] != "bluetooth.device.forget"@[17]);
    assert("device.power.reboot"@[7] != "device.factoryreset"@[7]);
}

/// Whether others may see the device is set, answered and told to all the same way.
pub proof fn law_discoverable_is_told_as_set(id: Seq<char>, params: JsonModel)
    ensures
        ({
            let done = request_actions(id, "bluetooth.discoverable"@, params);
            &&& done.len() == 3
            &&& done[0] matches ServerActionModel::SetDiscoverable { discoverable }
            &&& discoverable == wants_discoverable(params)
            &&& done[1] matches ServerActionModel::Send(WsModel::Response { id: answered, result })
            &&& answered == id
            &&& result.flag_field("discoverable"@) == Some(discoverable)
            &&& done[2] matches ServerActionModel::Broadcast { topic, data }
            &&& topic == "bluetooth.discoverable"@
            &&& data.flag_field("discoverable"@) == Some(discoverable)
        }),
{
    reveal_strlit("device.ab.get");
    reveal_strlit("device.ab.reset");
    reveal_strlit("device.ab.setSlot");
    reveal_strlit("device.ab.setBootResult");
    reveal_strlit("device.ab.failover");
    reveal_strlit("device.brightness.get");
    reveal_strlit("device.brightness.set");
    reveal_strlit("device.brightness.auto");
    reveal_strlit("bluetooth.discoverable");
    reveal_strlit("discoverable");
    reveal_strlit("status");
    assert("device.ab.get"@.len() == 13);
    assert("device.ab.reset"@.len() == 15);
    assert("device.ab.setSlot"@.len() == 17);
    assert("device.ab.setBootResult"@.len() == 23);
    assert("device.ab.failover"@.len() == 18);
    assert("device.brightness.get"@.len() == 21);
    assert("device.brightness.set"@.len() == 21);
    assert("device.brightness.auto"@.len() == 22);
    assert("bluetooth.discoverable"@.len() == 22);
    assert("discoverable"@.len() == 12 && "status"@.len() == 6);
    assert("device.brightness.get"@[18] != "device.brightness.set"@[18]);
    assert("device.brightness.auto"@[0] != "bluetooth.discoverable"@[0]);
    let seen = JsonModel::Bool(wants_discoverable(params));
    let d0 = JsonModel::table();
    crate::json::law_bare_object_has_no_member("discoverable"@);
    crate::json::law_bare_object_has_no_member("status"@);
    crate::json::law_member_is_found(d0, "discoverable"@, seen);
    let d1 = d0.and("discoverable"@, seen);
    crate::json::law_member_is_found(d1, "status"@, JsonModel::Text("requested"@));
    let d2 = d1.and("status"@, JsonModel::Text("requested"@));
}

} // verus!
