//! The daemon's connections to phones: which are made, ended and listed, and where the requests of
//! clients go.
use crate::address;
use crate::address::DeviceAddress;
use crate::app::value;
use crate::app::AppMessage;
use crate::audio::AudioCommand;
use crate::buffer;
use crate::effect;
use crate::effect::{ClientEffect, ClientEffectModel};
use crate::error::{ErrorModel, NocturnedError};
use crate::iap2_wrapper::Iap2Connection;
use crate::json::{Json, JsonModel, JsonNumber};
use crate::spp;
use crate::text;
use crate::wakeword::WakeWordCommand;
use vstd::prelude::*;

verus! {

broadcast use crate::json::lemma_json_view;

/// A connection over a serial port, as the daemon lists it.
#[derive(Clone, Copy, Debug, PartialEq, Eq, Structural)]
pub struct GenericConnection {
    pub device_address: DeviceAddress,
}

/// What came of an attempt to connect.
#[derive(Clone, Copy, Debug, PartialEq, Eq, Structural)]
pub enum ConnectionOutcome {
    Connected,
    WaitingForAndroid,
}

/// What the daemon does about a client's request.
#[derive(Debug)]
pub enum DaemonAction {
    /// Something for the clients.
    Client(ClientEffect),
    /// Connect to a device.
    Connect { id: String, device: String, address: DeviceAddress },
    /// Disconnect from a device.
    Disconnect { id: String, device: String, address: DeviceAddress },
    /// Forget a device.
    Unpair { id: String, device: String, address: DeviceAddress },
    /// Tell the detector of the wake word something.
    WakeWord(WakeWordCommand),
    /// Tell the recorder something.
    Audio(AudioCommand),
    /// Hand the request to every connection.
    Forward,
}

/// What the daemon does about a client's request, apart from how it is stored.
pub enum DaemonActionModel {
    Client(ClientEffectModel),
    Connect { id: Seq<char>, device: Seq<char>, address: Seq<u8> },
    Disconnect { id: Seq<char>, device: Seq<char>, address: Seq<u8> },
    Unpair { id: Seq<char>, device: Seq<char>, address: Seq<u8> },
    WakeWord(WakeWordCommand),
    Audio(AudioCommand),
    Forward,
}

impl View for DaemonAction {
    type V = DaemonActionModel;

    open spec fn view(&self) -> DaemonActionModel {
        match self {
            DaemonAction::Client(e) => DaemonActionModel::Client(e@),
            DaemonAction::Connect { id, device, address } => DaemonActionModel::Connect {
                id: id@,
                device: device@,
                address: address@,
            },
            DaemonAction::Disconnect { id, device, address } => DaemonActionModel::Disconnect {
                id: id@,
                device: device@,
                address: address@,
            },
            DaemonAction::Unpair { id, device, address } => DaemonActionModel::Unpair {
                id: id@,
                device: device@,
                address: address@,
            },
            DaemonAction::WakeWord(c) => DaemonActionModel::WakeWord(*c),
            DaemonAction::Audio(c) => DaemonActionModel::Audio(*c),
            DaemonAction::Forward => DaemonActionModel::Forward,
        }
    }
}

/// The models of what is done.
pub open spec fn daemon_actions(actions: Seq<DaemonAction>) -> Seq<DaemonActionModel> {
    actions.map_values(|a: DaemonAction| a@)
}

/// A failure, as a client is told of it in place of a result.
pub open spec fn fault_result(error: Seq<char>) -> JsonModel {
    JsonModel::table().and("error"@, JsonModel::Text(error))
}

/// A state, as a client is told of it.
pub open spec fn status_result(status: Seq<char>) -> JsonModel {
    JsonModel::table().and("status"@, JsonModel::Text(status))
}

/// The state of a device, as a client is told of it.
pub open spec fn device_result(status: Seq<char>, device: Seq<char>) -> JsonModel {
    status_result(status).and("device"@, JsonModel::Text(device))
}

/// An answer, where there are clients.
pub open spec fn answer(has_websocket: bool, id: Seq<char>, result: JsonModel) -> Seq<
    DaemonActionModel,
> {
    if has_websocket {
        seq![DaemonActionModel::Client(ClientEffectModel::Respond { id, result })]
    } else {
        Seq::empty()
    }
}

/// The address that a request names, as it is written there.
pub open spec fn named_address(doc: JsonModel) -> Option<Seq<char>> {
    match doc.field("params"@) {
        Some(params) => params.text_field("address"@),
        None => None,
    }
}

/// What is done about a request that concerns a device.
pub open spec fn control_actions(has_websocket: bool, id: Seq<char>, doc: JsonModel) -> Seq<
    DaemonActionModel,
> {
    match doc.text_field("method"@) {
        None => Seq::empty(),
        Some(method) => {
            let connects = method == "bluetooth.device.connect"@;
            let disconnects = method == "bluetooth.device.disconnect"@;
            let unpairs = method == "bluetooth.device.unpair"@ || method
                == "bluetooth.device.forget"@;
            if connects || disconnects || unpairs {
                match named_address(doc) {
                    None => if connects {
                        Seq::empty()
                    } else {
                        answer(has_websocket, id, fault_result("Missing address parameter"@))
                    },
                    Some(device) => match address::address_bytes(device) {
                        None => answer(
                            has_websocket,
                            id,
                            fault_result("Invalid Bluetooth address"@),
                        ),
                        Some(address) => seq![
                            if connects {
                                DaemonActionModel::Connect { id, device, address }
                            } else if disconnects {
                                DaemonActionModel::Disconnect { id, device, address }
                            } else {
                                DaemonActionModel::Unpair { id, device, address }
                            },
                        ],
                    },
                }
            } else {
                Seq::empty()
            }
        },
    }
}

/// What is done about any other request: the recorder and the detector are the daemon's own, and
/// all else goes to the phones.
pub open spec fn other_actions(has_websocket: bool, id: Seq<char>, doc: Option<JsonModel>) -> Seq<
    DaemonActionModel,
> {
    let method = match doc {
        Some(doc) => doc.text_field("method"@),
        None => None,
    };
    if method == Some("audio.record.start"@) {
        seq![
            DaemonActionModel::WakeWord(WakeWordCommand::Pause { ack: true, persist: false }),
            DaemonActionModel::Audio(AudioCommand::Start),
        ] + answer(has_websocket, id, status_result("recording"@))
    } else if method == Some("audio.record.stop"@) {
        seq![DaemonActionModel::Audio(AudioCommand::Stop)] + answer(
            has_websocket,
            id,
            status_result("idle"@),
        )
    } else if method == Some("wakeword.pause"@) {
        seq![
            DaemonActionModel::WakeWord(WakeWordCommand::Pause { ack: false, persist: true }),
        ] + answer(has_websocket, id, status_result("paused"@))
    } else if method == Some("wakeword.resume"@) {
        seq![DaemonActionModel::WakeWord(WakeWordCommand::Resume { persist: true })] + answer(
            has_websocket,
            id,
            status_result("resumed"@),
        )
    } else {
        seq![DaemonActionModel::Forward]
    }
}

/// What is done about a request under a protocol.
pub open spec fn request_actions(
    has_websocket: bool,
    protocol: Seq<char>,
    id: Seq<char>,
    doc: Option<JsonModel>,
) -> Seq<DaemonActionModel> {
    if protocol == "bluetooth.control"@ {
        match doc {
            Some(doc) => control_actions(has_websocket, id, doc),
            None => Seq::empty(),
        }
    } else {
        other_actions(has_websocket, id, doc)
    }
}

fn push_action(actions: &mut Vec<DaemonAction>, action: DaemonAction)
    ensures
        daemon_actions(final(actions)@) == daemon_actions(old(actions)@).push(action@),
{
    let ghost before = actions@;
    actions.push(action);
    assert(daemon_actions(actions@) =~= daemon_actions(before).push(action@));
}

fn push_answer(actions: &mut Vec<DaemonAction>, has_websocket: bool, id: &str, result: Json)
    ensures
        daemon_actions(final(actions)@) == daemon_actions(old(actions)@) + answer(
            has_websocket,
            id@,
            result@,
        ),
{
    let ghost before = daemon_actions(actions@);
    if has_websocket {
        push_action(
            actions,
            DaemonAction::Client(ClientEffect::Respond { id: id.to_owned(), result }),
        );
    }
    assert(daemon_actions(actions@) =~= before + answer(has_websocket, id@, result@));
}

fn no_actions() -> (r: Vec<DaemonAction>)
    ensures
        daemon_actions(r@) == Seq::<DaemonActionModel>::empty(),
{
    let r: Vec<DaemonAction> = Vec::new();
    assert(daemon_actions(r@) =~= Seq::<DaemonActionModel>::empty());
    r
}

fn answered(has_websocket: bool, id: &str, result: Json) -> (r: Vec<DaemonAction>)
    ensures
        daemon_actions(r@) == answer(has_websocket, id@, result@),
{
    let mut r = no_actions();
    push_answer(&mut r, has_websocket, id, result);
    assert(daemon_actions(r@) =~= answer(has_websocket, id@, result@));
    r
}

fn fault_json(error: &str) -> (r: Json)
    ensures
        r@ == fault_result(error@),
{
    Json::table().and("error", Json::text(error))
}

fn status_json(status: &str) -> (r: Json)
    ensures
        r@ == status_result(status@),
{
    Json::table().and("status", Json::text(status))
}

fn handle_control(has_websocket: bool, id: &str, doc: &Json) -> (r: Vec<DaemonAction>)
    ensures
        daemon_actions(r@) == control_actions(has_websocket, id@, doc@),
{
    let method = match doc.get_str("method") {
        Some(m) => m,
        None => return no_actions(),
    };
    let connects = text::same(method, "bluetooth.device.connect");
    let disconnects = text::same(method, "bluetooth.device.disconnect");
    let unpairs = text::same(method, "bluetooth.device.unpair") || text::same(
        method,
        "bluetooth.device.forget",
    );
    if !connects && !disconnects && !unpairs {
        return no_actions();
    }
    let named = match doc.get("params") {
        Some(params) => params.get_str("address"),
        None => None,
    };
    let device = match named {
        Some(s) => s,
        None => {
            if connects {
                return no_actions();
            }
            return answered(has_websocket, id, fault_json("Missing address parameter"));
        },
    };
    let address = match DeviceAddress::parse(device) {
        Some(a) => a,
        None => return answered(has_websocket, id, fault_json("Invalid Bluetooth address")),
    };
    let id = id.to_owned();
    let device = device.to_owned();
    let action = if connects {
        DaemonAction::Connect { id, device, address }
    } else if disconnects {
        DaemonAction::Disconnect { id, device, address }
    } else {
        DaemonAction::Unpair { id, device, address }
    };
    let mut r = no_actions();
    push_action(&mut r, action);
    assert(daemon_actions(r@) =~= seq![action@]);
    r
}

fn handle_other(has_websocket: bool, id: &str, doc: Option<&Json>) -> (r: Vec<DaemonAction>)
    ensures
        daemon_actions(r@) == other_actions(
            has_websocket,
            id@,
            match doc {
                Some(d) => Some(d@),
                None => None,
            },
        ),
{
    let found = match doc {
        Some(d) => d.get_str("method"),
        None => None,
    };
    let method = match found {
        Some(m) => m,
        None => {
            let mut r = no_actions();
            push_action(&mut r, DaemonAction::Forward);
            assert(daemon_actions(r@) =~= seq![DaemonActionModel::Forward]);
            return r;
        },
    };
    let mut r = no_actions();
    if text::same(method, "audio.record.start") {
        push_action(
            &mut r,
            DaemonAction::WakeWord(WakeWordCommand::Pause { ack: true, persist: false }),
        );
        push_action(&mut r, DaemonAction::Audio(AudioCommand::Start));
        assert(daemon_actions(r@) =~= seq![
            DaemonActionModel::WakeWord(WakeWordCommand::Pause { ack: true, persist: false }),
            DaemonActionModel::Audio(AudioCommand::Start),
        ]);
        push_answer(&mut r, has_websocket, id, status_json("recording"));
    } else if text::same(method, "audio.record.stop") {
        push_action(&mut r, DaemonAction::Audio(AudioCommand::Stop));
        assert(daemon_actions(r@) =~= seq![DaemonActionModel::Audio(AudioCommand::Stop)]);
        push_answer(&mut r, has_websocket, id, status_json("idle"));
    } else if text::same(method, "wakeword.pause") {
        push_action(
            &mut r,
            DaemonAction::WakeWord(WakeWordCommand::Pause { ack: false, persist: true }),
        );
        assert(daemon_actions(r@) =~= seq![
            DaemonActionModel::WakeWord(WakeWordCommand::Pause { ack: false, persist: true }),
        ]);
        push_answer(&mut r, has_websocket, id, status_json("paused"));
    } else if text::same(method, "wakeword.resume") {
        push_action(&mut r, DaemonAction::WakeWord(WakeWordCommand::Resume { persist: true }));
        assert(daemon_actions(r@) =~= seq![
            DaemonActionModel::WakeWord(WakeWordCommand::Resume { persist: true }),
        ]);
        push_answer(&mut r, has_websocket, id, status_json("resumed"));
    } else {
        push_action(&mut r, DaemonAction::Forward);
        assert(daemon_actions(r@) =~= seq![DaemonActionModel::Forward]);
    }
    r
}

/// What the clients are told of a connection.
pub open spec fn connection_event(event: Seq<char>, device: DeviceAddress, kind: Seq<char>) -> JsonModel {
    JsonModel::table().and("event"@, JsonModel::Text(event)).and(
        "device"@,
        JsonModel::Text(device.chars()),
    ).and("connection_type"@, JsonModel::Text(kind))
}

fn connection_json(event: &str, device: DeviceAddress, kind: &str) -> (r: Json)
    ensures
        r@ == connection_event(event@, device, kind@),
{
    Json::table().and("event", Json::text(event)).and("device", Json::Text(device.to_text())).and(
        "connection_type",
        Json::text(kind),
    )
}

/// What the clients are told of a device.
pub open spec fn device_event(event: Seq<char>, device: DeviceAddress) -> JsonModel {
    JsonModel::table().and("event"@, JsonModel::Text(event)).and(
        "device"@,
        JsonModel::Text(device.chars()),
    )
}

fn device_json(event: &str, device: DeviceAddress) -> (r: Json)
    ensures
        r@ == device_event(event@, device),
{
    Json::table().and("event", Json::text(event)).and("device", Json::Text(device.to_text()))
}

/// What the clients are told of the end of a connection to an iPhone.
pub open spec fn closed_event(device: DeviceAddress, by_user: bool) -> JsonModel {
    let event = connection_event("connection_closed"@, device, "rfcomm"@);
    if by_user {
        event.and("initiated_by"@, JsonModel::Text("user"@))
    } else {
        event
    }
}

fn closed_json(device: DeviceAddress, by_user: bool) -> (r: Json)
    ensures
        r@ == closed_event(device, by_user),
{
    let event = connection_json("connection_closed", device, "rfcomm");
    if by_user {
        event.and("initiated_by", Json::text("user"))
    } else {
        event
    }
}

/// What the clients are told of a connection to an iPhone that the daemon made.
pub open spec fn established_event(device: DeviceAddress) -> JsonModel {
    connection_event("connection_established"@, device, "iap2"@).and(
        "device_type"@,
        JsonModel::Text("iphone"@),
    ).and("channel"@, JsonModel::Number(JsonNumber::Unsigned(1))).and(
        "initiated_by"@,
        JsonModel::Text("daemon"@),
    )
}

/// Something that is known of a device, or that happened to it.
#[derive(Clone, Copy, Debug, PartialEq, Eq, Structural)]
pub enum DeviceChange {
    Paired(bool),
    Connected(bool),
    Removed,
}

/// What is done for the clients about a change.
pub open spec fn change_effect(device: DeviceAddress, change: DeviceChange) -> ClientEffectModel {
    match change {
        DeviceChange::Paired(true) => effect::told(
            "bluetooth.pairing"@,
            device_event("paired"@, device),
        ),
        DeviceChange::Paired(false) => effect::told(
            "bluetooth.pairing"@,
            device_event("unpaired"@, device),
        ),
        DeviceChange::Connected(true) => effect::told(
            "bluetooth.device"@,
            device_event("connected"@, device),
        ),
        DeviceChange::Connected(false) => effect::told(
            "bluetooth.device"@,
            device_event("disconnected"@, device),
        ),
        DeviceChange::Removed => effect::told("bluetooth.device"@, device_event("removed"@, device)),
    }
}

/// The daemon's connections, and whom it lets in: anyone while devices may pair, and an Android
/// phone that a client asked to wake.
#[derive(Debug)]
pub struct BluetoothDaemon {
    pub connections: Vec<Iap2Connection>,
    pub generic_connections: Vec<GenericConnection>,
    pub android_wake_armed: bool,
    pub pairing_mode: bool,
    pub has_websocket: bool,
}

/// The daemon's connections, apart from how they are stored.
#[verifier::ext_equal]
pub struct DaemonModel {
    pub connections: Seq<Iap2Connection>,
    pub generic_connections: Seq<GenericConnection>,
    pub android_wake_armed: bool,
    pub pairing_mode: bool,
    pub has_websocket: bool,
}

impl View for BluetoothDaemon {
    type V = DaemonModel;

    open spec fn view(&self) -> DaemonModel {
        DaemonModel {
            connections: self.connections@,
            generic_connections: self.generic_connections@,
            android_wake_armed: self.android_wake_armed,
            pairing_mode: self.pairing_mode,
            has_websocket: self.has_websocket,
        }
    }
}

/// Connections without those to a device.
pub open spec fn connections_but(connections: Seq<Iap2Connection>, address: DeviceAddress) -> Seq<
    Iap2Connection,
> {
    connections.filter(|c: Iap2Connection| c.device_address != address)
}

/// Connections over a serial port without those to a device.
pub open spec fn generic_but(connections: Seq<GenericConnection>, address: DeviceAddress) -> Seq<
    GenericConnection,
> {
    connections.filter(|c: GenericConnection| c.device_address != address)
}

/// Connections after the first to a device is marked as ended by the user.
pub open spec fn first_marked(connections: Seq<Iap2Connection>, address: DeviceAddress) -> Seq<
    Iap2Connection,
>
    decreases connections.len(),
{
    if connections.len() == 0 {
        connections
    } else if connections[0].device_address == address {
        connections.update(
            0,
            Iap2Connection { user_initiated_disconnect: true, ..connections[0] },
        )
    } else {
        seq![connections[0]] + first_marked(connections.drop_first(), address)
    }
}

impl DaemonModel {
    /// Whether a device has a connection to an iPhone.
    pub open spec fn has_iap2(self, address: DeviceAddress) -> bool {
        exists|i: int|
            0 <= i < self.connections.len() && (#[trigger] self.connections[i]).device_address
                == address
    }

    /// Whether a device has a connection over a serial port.
    pub open spec fn has_generic(self, address: DeviceAddress) -> bool {
        exists|i: int|
            0 <= i < self.generic_connections.len() && (
            #[trigger] self.generic_connections[i]).device_address == address
    }

    /// Whether a device has a connection.
    pub open spec fn has_device(self, address: DeviceAddress) -> bool {
        self.has_iap2(address) || self.has_generic(address)
    }

    /// The daemon without connections to an iPhone at some address.
    pub open spec fn without(self, address: DeviceAddress) -> DaemonModel {
        DaemonModel { connections: connections_but(self.connections, address), ..self }
    }

    /// The daemon without connections over a serial port to some address.
    pub open spec fn without_generic(self, address: DeviceAddress) -> DaemonModel {
        DaemonModel { generic_connections: generic_but(self.generic_connections, address), ..self }
    }

    /// The daemon with one more connection to an iPhone.
    pub open spec fn with_connection(self, connection: Iap2Connection) -> DaemonModel {
        DaemonModel { connections: self.connections.push(connection), ..self }
    }

    /// Whether a phone may connect over a serial port.
    pub open spec fn admits_spp(self) -> bool {
        self.pairing_mode || self.android_wake_armed
    }

    /// The daemon once a phone has connected over a serial port.
    pub open spec fn with_generic(self, device: DeviceAddress) -> DaemonModel {
        DaemonModel {
            android_wake_armed: false,
            generic_connections: self.generic_connections.push(
                GenericConnection { device_address: device },
            ),
            ..self
        }
    }

    /// The daemon once a client has asked for a connection.
    pub open spec fn armed(self) -> DaemonModel {
        DaemonModel { android_wake_armed: true, ..self }
    }

    /// How an attempt to connect begins: whether it is over already, and what is done for the
    /// clients.
    pub open spec fn connect_begun(self, address: DeviceAddress) -> (
        Option<ConnectionOutcome>,
        Seq<ClientEffectModel>,
    ) {
        if self.has_device(address) {
            (Some(ConnectionOutcome::Connected), Seq::empty())
        } else {
            (
                None,
                effect::where_clients(
                    self.has_websocket,
                    seq![
                        effect::told(
                            "bluetooth.connection"@,
                            connection_event("connecting"@, address, "auto"@),
                        ),
                    ],
                ),
            )
        }
    }

    /// How an attempt to connect ends, and what is done for the clients.
    pub open spec fn connect_ended(self, address: DeviceAddress, established: bool) -> (
        Result<ConnectionOutcome, ErrorModel>,
        Seq<ClientEffectModel>,
    ) {
        if established {
            (
                Ok(ConnectionOutcome::Connected),
                effect::where_clients(
                    self.has_websocket,
                    seq![effect::told("bluetooth.connection"@, established_event(address))],
                ),
            )
        } else if self.android_wake_armed {
            (Ok(ConnectionOutcome::WaitingForAndroid), Seq::empty())
        } else {
            (Err(ErrorModel::General("Android wake not armed"@)), Seq::empty())
        }
    }

    /// The daemon once the user wants a connection to end.
    pub open spec fn disconnecting(self, address: DeviceAddress) -> DaemonModel {
        DaemonModel { connections: first_marked(self.connections, address), ..self }
    }

    /// The daemon once a device was disconnected or forgotten, or could not be.
    pub open spec fn released(self, address: DeviceAddress, worked: bool) -> DaemonModel {
        if worked {
            self.without(address)
        } else {
            self
        }
    }

    /// What is done for the clients once a device was disconnected, or could not be.
    pub open spec fn disconnect_effects(self, address: DeviceAddress, worked: bool) -> Seq<
        ClientEffectModel,
    > {
        if worked {
            self.departure(closed_event(address, true))
        } else {
            Seq::empty()
        }
    }

    /// What is done for the clients once a device was forgotten, or could not be.
    pub open spec fn unpair_effects(self, address: DeviceAddress, worked: bool) -> Seq<
        ClientEffectModel,
    > {
        if worked {
            effect::where_clients(
                self.has_websocket,
                seq![effect::told("bluetooth.device"@, device_event("unpaired"@, address))],
            )
        } else {
            Seq::empty()
        }
    }

    /// The daemon without a connection.
    pub open spec fn alone(self) -> DaemonModel {
        DaemonModel { connections: Seq::empty(), generic_connections: Seq::empty(), ..self }
    }

    /// What is done for the clients when a device has left.
    pub open spec fn departure(self, event: JsonModel) -> Seq<ClientEffectModel> {
        effect::where_clients(
            self.has_websocket,
            seq![ClientEffectModel::ClearAppReady, effect::told("bluetooth.connection"@, event)],
        )
    }
}

proof fn lemma_filter_step<T>(s: Seq<T>, i: int, pred: spec_fn(T) -> bool)
    requires
        0 <= i < s.len(),
    ensures
        s.take(i + 1).filter(pred) == if pred(s[i]) {
            s.take(i).filter(pred).push(s[i])
        } else {
            s.take(i).filter(pred)
        },
{
    reveal(Seq::filter);
    assert(s.take(i + 1).drop_last() =~= s.take(i));
}

proof fn lemma_first_marked(connections: Seq<Iap2Connection>, address: DeviceAddress, i: int)
    requires
        0 <= i <= connections.len(),
        forall|k: int| 0 <= k < i ==> (#[trigger] connections[k]).device_address != address,
        i < connections.len() ==> connections[i].device_address == address,
    ensures
        first_marked(connections, address) == if i < connections.len() {
            connections.update(
                i,
                Iap2Connection { user_initiated_disconnect: true, ..connections[i] },
            )
        } else {
            connections
        },
    decreases connections.len(),
{
    if connections.len() > 0 && i > 0 {
        let later = connections.drop_first();
        assert forall|k: int| 0 <= k < i - 1 implies (#[trigger] later[k]).device_address
            != address by {
            assert(later[k] == connections[k + 1]);
        }
        lemma_first_marked(later, address, i - 1);
        if i < connections.len() {
            assert(seq![connections[0]] + later.update(
                i - 1,
                Iap2Connection { user_initiated_disconnect: true, ..connections[i] },
            ) =~= connections.update(
                i,
                Iap2Connection { user_initiated_disconnect: true, ..connections[i] },
            ));
        } else {
            assert(seq![connections[0]] + later =~= connections);
        }
    }
}

impl BluetoothDaemon {
    /// No connection, and devices may pair.
    pub fn new(has_websocket: bool) -> (r: BluetoothDaemon)
        ensures
            r@ == (DaemonModel {
                connections: Seq::empty(),
                generic_connections: Seq::empty(),
                android_wake_armed: false,
                pairing_mode: true,
                has_websocket,
            }),
    {
        BluetoothDaemon {
            connections: Vec::new(),
            generic_connections: Vec::new(),
            android_wake_armed: false,
            pairing_mode: true,
            has_websocket,
        }
    }

    /// A client's request comes: says what is done about it.
    pub fn handle_request(&self, message: &AppMessage) -> (r: Vec<DaemonAction>)
        ensures
            daemon_actions(r@) == request_actions(
                self@.has_websocket,
                message@.protocol,
                message@.id,
                spp::document(message@.data),
            ),
    {
        let doc = value::read_json(buffer::bytes_slice(&message.data));
        let id = message.id.as_str();
        if text::same(message.protocol.as_str(), "bluetooth.control") {
            match doc {
                Ok(doc) => handle_control(self.has_websocket, id, &doc),
                Err(_) => no_actions(),
            }
        } else {
            match doc {
                Ok(doc) => handle_other(self.has_websocket, id, Some(&doc)),
                Err(_) => handle_other(self.has_websocket, id, None),
            }
        }
    }

    fn has_iap2(&self, address: DeviceAddress) -> (r: bool)
        ensures
            r == self@.has_iap2(address),
    {
        let mut i: usize = 0;
        while i < self.connections.len()
            invariant
                i <= self.connections@.len(),
                forall|k: int|
                    0 <= k < i ==> (#[trigger] self.connections@[k]).device_address != address,
            decreases self.connections.len() - i,
        {
            if self.connections[i].address() == address {
                assert(self@.connections[i as int].device_address == address);
                return true;
            }
            i += 1;
        }
        false
    }

    fn has_generic(&self, address: DeviceAddress) -> (r: bool)
        ensures
            r == self@.has_generic(address),
    {
        let mut i: usize = 0;
        while i < self.generic_connections.len()
            invariant
                i <= self.generic_connections@.len(),
                forall|k: int|
                    0 <= k < i ==> (#[trigger] self.generic_connections@[k]).device_address
                        != address,
            decreases self.generic_connections.len() - i,
        {
            if self.generic_connections[i].device_address == address {
                assert(self@.generic_connections[i as int].device_address == address);
                return true;
            }
            i += 1;
        }
        false
    }

    fn drop_connections(&mut self, address: DeviceAddress)
        ensures
            final(self)@ == old(self)@.without(address),
    {
        let mut kept: Vec<Iap2Connection> = Vec::new();
        let mut i: usize = 0;
        let ghost pred = |c: Iap2Connection| c.device_address != address;
        reveal(Seq::filter);
        while i < self.connections.len()
            invariant
                pred == (|c: Iap2Connection| c.device_address != address),
                i <= self.connections@.len(),
                kept@ == self.connections@.take(i as int).filter(pred),
            decreases self.connections.len() - i,
        {
            proof {
                lemma_filter_step(self.connections@, i as int, pred);
            }
            if self.connections[i].address() != address {
                kept.push(self.connections[i]);
            }
            i += 1;
        }
        assert(self.connections@.take(i as int) =~= self.connections@);
        self.connections = kept;
    }

    fn drop_generic(&mut self, address: DeviceAddress)
        ensures
            final(self)@ == old(self)@.without_generic(address),
    {
        let mut kept: Vec<GenericConnection> = Vec::new();
        let mut i: usize = 0;
        let ghost pred = |c: GenericConnection| c.device_address != address;
        reveal(Seq::filter);
        while i < self.generic_connections.len()
            invariant
                pred == (|c: GenericConnection| c.device_address != address),
                i <= self.generic_connections@.len(),
                kept@ == self.generic_connections@.take(i as int).filter(pred),
            decreases self.generic_connections.len() - i,
        {
            proof {
                lemma_filter_step(self.generic_connections@, i as int, pred);
            }
            if self.generic_connections[i].device_address != address {
                kept.push(self.generic_connections[i]);
            }
            i += 1;
        }
        assert(self.generic_connections@.take(i as int) =~= self.generic_connections@);
        self.generic_connections = kept;
    }

    /// A client asks for a connection to a device: from now on an Android phone may come back. A
    /// device that is connected needs no more; for another the clients are told that it is being
    /// connected, and a connection to an iPhone is tried.
    pub fn begin_connect(&mut self, address: DeviceAddress) -> (r: (
        Option<ConnectionOutcome>,
        Vec<ClientEffect>,
    ))
        ensures
            final(self)@ == old(self)@.armed(),
            (r.0, effect::client_effects(r.1@)) == old(self)@.connect_begun(address),
            old(self)@.has_device(address) ==> r.0 == Some(ConnectionOutcome::Connected)
                && effect::client_effects(r.1@) == Seq::<ClientEffectModel>::empty(),
            !old(self)@.has_device(address) ==> r.0 is None && effect::client_effects(r.1@)
                == effect::where_clients(
                old(self)@.has_websocket,
                seq![
                    effect::told(
                        "bluetooth.connection"@,
                        connection_event("connecting"@, address, "auto"@),
                    ),
                ],
            ),
    {
        let connected = self.has_iap2(address) || self.has_generic(address);
        self.android_wake_armed = true;
        if connected {
            return (Some(ConnectionOutcome::Connected), effect::no_effects());
        }
        (
            None,
            effect::one_effect(
                self.has_websocket,
                effect::tell(
                    "bluetooth.connection",
                    connection_json("connecting", address, "auto"),
                ),
            ),
        )
    }

    /// A connection to an iPhone is made.
    pub fn connection_opened(&mut self, connection: Iap2Connection)
        ensures
            final(self)@ == old(self)@.with_connection(connection),
    {
        self.connections.push(connection);
    }

    /// The attempt at a connection to an iPhone is over, with or without one. Without one an
    /// Android phone is waited for, if it may still come back.
    pub fn end_connect(&self, address: DeviceAddress, established: bool) -> (r: (
        Result<ConnectionOutcome, NocturnedError>,
        Vec<ClientEffect>,
    ))
        ensures
            established ==> r.0 == Ok::<ConnectionOutcome, NocturnedError>(
                ConnectionOutcome::Connected,
            ) && effect::client_effects(r.1@) == effect::where_clients(
                self@.has_websocket,
                seq![effect::told("bluetooth.connection"@, established_event(address))],
            ),
            !established && self@.android_wake_armed ==> r.0 == Ok::<
                ConnectionOutcome,
                NocturnedError,
            >(ConnectionOutcome::WaitingForAndroid),
            !established && !self@.android_wake_armed ==> r.0 is Err && r.0->Err_0@
                == ErrorModel::General("Android wake not armed"@),
            !established ==> effect::client_effects(r.1@) == Seq::<ClientEffectModel>::empty(),
            effect::client_effects(r.1@) == self@.connect_ended(address, established).1,
            match r.0 {
                Ok(o) => self@.connect_ended(address, established).0 == Ok::<
                    ConnectionOutcome,
                    ErrorModel,
                >(o),
                Err(e) => self@.connect_ended(address, established).0 == Err::<
                    ConnectionOutcome,
                    ErrorModel,
                >(e@),
            },
    {
        if established {
            let event = connection_json("connection_established", address, "iap2").and(
                "device_type",
                Json::text("iphone"),
            ).and("channel", Json::unsigned(1)).and("initiated_by", Json::text("daemon"));
            return (
                Ok(ConnectionOutcome::Connected),
                effect::one_effect(
                    self.has_websocket,
                    effect::tell("bluetooth.connection", event),
                ),
            );
        }
        if !self.android_wake_armed {
            return (
                Err(NocturnedError::General("Android wake not armed".to_owned())),
                effect::no_effects(),
            );
        }
        (Ok(ConnectionOutcome::WaitingForAndroid), effect::no_effects())
    }

    /// An iPhone connects: the clients are told.
    pub fn incoming_accepted(&self, device: DeviceAddress) -> (r: Vec<ClientEffect>)
        ensures
            effect::client_effects(r@) == effect::where_clients(
                self@.has_websocket,
                seq![
                    effect::told(
                        "bluetooth.connection"@,
                        connection_event("connection_established"@, device, "rfcomm"@),
                    ),
                ],
            ),
    {
        effect::one_effect(
            self.has_websocket,
            effect::tell(
                "bluetooth.connection",
                connection_json("connection_established", device, "rfcomm"),
            ),
        )
    }

    /// A connection that an iPhone made has ended. It stays listed.
    pub fn incoming_closed(&self, device: DeviceAddress, by_user: bool) -> (r: Vec<ClientEffect>)
        ensures
            effect::client_effects(r@) == self@.departure(closed_event(device, by_user)),
    {
        effect::two_effects(
            self.has_websocket,
            ClientEffect::ClearAppReady,
            effect::tell("bluetooth.connection", closed_json(device, by_user)),
        )
    }

    /// A connection that the daemon made to an iPhone has ended.
    pub fn outgoing_closed(&mut self, device: DeviceAddress, by_user: bool) -> (r: Vec<ClientEffect>)
        ensures
            final(self)@ == old(self)@.without(device),
            effect::client_effects(r@) == old(self)@.departure(closed_event(device, by_user)),
    {
        self.drop_connections(device);
        self.incoming_closed(device, by_user)
    }

    /// Whether a phone may connect over a serial port.
    pub fn admits_spp(&self) -> (r: bool)
        ensures
            r == self@.admits_spp(),
    {
        self.pairing_mode || self.android_wake_armed
    }

    /// A phone connects over a serial port: it is listed, and another may no longer come back.
    pub fn spp_accepted(&mut self, device: DeviceAddress) -> (r: Vec<ClientEffect>)
        ensures
            final(self)@ == old(self)@.with_generic(device),
            effect::client_effects(r@) == effect::where_clients(
                old(self)@.has_websocket,
                seq![
                    effect::told(
                        "bluetooth.connection"@,
                        connection_event("connection_established"@, device, "generic"@),
                    ),
                ],
            ),
    {
        self.android_wake_armed = false;
        self.generic_connections.push(GenericConnection { device_address: device });
        effect::one_effect(
            self.has_websocket,
            effect::tell(
                "bluetooth.connection",
                connection_json("connection_established", device, "generic"),
            ),
        )
    }

    /// A connection over a serial port has ended.
    pub fn spp_closed(&mut self, device: DeviceAddress) -> (r: Vec<ClientEffect>)
        ensures
            final(self)@ == old(self)@.without_generic(device),
            effect::client_effects(r@) == old(self)@.departure(
                connection_event("connection_closed"@, device, "android"@),
            ),
    {
        self.drop_generic(device);
        effect::two_effects(
            self.has_websocket,
            ClientEffect::ClearAppReady,
            effect::tell(
                "bluetooth.connection",
                connection_json("connection_closed", device, "android"),
            ),
        )
    }

    /// The user asks for the end of a connection: the connection is marked with that.
    pub fn begin_disconnect(&mut self, address: DeviceAddress)
        ensures
            final(self)@ == (DaemonModel {
                connections: first_marked(old(self)@.connections, address),
                ..old(self)@
            }),
            final(self)@ == old(self)@.disconnecting(address),
    {
        let mut i: usize = 0;
        while i < self.connections.len() && self.connections[i].device_address != address
            invariant
                i <= self.connections@.len(),
                forall|k: int|
                    0 <= k < i ==> (#[trigger] self.connections@[k]).device_address != address,
            decreases self.connections.len() - i,
        {
            i += 1;
        }
        proof {
            lemma_first_marked(self.connections@, address, i as int);
        }
        if i < self.connections.len() {
            let mut connection = self.connections[i];
            connection.mark_user_initiated_disconnect();
            self.connections.set(i, connection);
        }
    }

    /// A device was disconnected, or could not be.
    pub fn disconnect_device(
        &mut self,
        address: DeviceAddress,
        outcome: Result<(), NocturnedError>,
    ) -> (r: (Result<(), NocturnedError>, Vec<ClientEffect>))
        ensures
            r.0 == outcome,
            outcome is Ok ==> final(self)@ == old(self)@.without(address)
                && effect::client_effects(r.1@) == old(self)@.departure(
                closed_event(address, true),
            ),
            final(self)@ == old(self)@.released(address, outcome is Ok),
            effect::client_effects(r.1@) == old(self)@.disconnect_effects(address, outcome is Ok),
            outcome is Err ==> final(self)@ == old(self)@ && effect::client_effects(r.1@) == Seq::<
                ClientEffectModel,
            >::empty(),
    {
        let effects = if outcome.is_ok() {
            self.outgoing_closed(address, true)
        } else {
            effect::no_effects()
        };
        (outcome, effects)
    }

    /// A device was forgotten, or could not be.
    pub fn unpair_device(
        &mut self,
        address: DeviceAddress,
        outcome: Result<(), NocturnedError>,
    ) -> (r: (Result<(), NocturnedError>, Vec<ClientEffect>))
        ensures
            r.0 == outcome,
            outcome is Ok ==> final(self)@ == old(self)@.without(address)
                && effect::client_effects(r.1@) == effect::where_clients(
                old(self)@.has_websocket,
                seq![effect::told("bluetooth.device"@, device_event("unpaired"@, address))],
            ),
            final(self)@ == old(self)@.released(address, outcome is Ok),
            effect::client_effects(r.1@) == old(self)@.unpair_effects(address, outcome is Ok),
            outcome is Err ==> final(self)@ == old(self)@ && effect::client_effects(r.1@) == Seq::<
                ClientEffectModel,
            >::empty(),
    {
        let effects = if outcome.is_ok() {
            self.drop_connections(address);
            effect::one_effect(
                self.has_websocket,
                effect::tell("bluetooth.device", device_json("unpaired", address)),
            )
        } else {
            effect::no_effects()
        };
        (outcome, effects)
    }

    /// Something is known of a device, or happened to it: the clients are told.
    pub fn device_changed(&self, device: DeviceAddress, change: DeviceChange) -> (r: Vec<
        ClientEffect,
    >)
        ensures
            effect::client_effects(r@) == effect::where_clients(
                self@.has_websocket,
                seq![change_effect(device, change)],
            ),
    {
        let e = match change {
            DeviceChange::Paired(paired) => effect::tell(
                "bluetooth.pairing",
                device_json(
                    if paired {
                        "paired"
                    } else {
                        "unpaired"
                    },
                    device,
                ),
            ),
            DeviceChange::Connected(connected) => effect::tell(
                "bluetooth.device",
                device_json(
                    if connected {
                        "connected"
                    } else {
                        "disconnected"
                    },
                    device,
                ),
            ),
            DeviceChange::Removed => effect::tell(
                "bluetooth.device",
                device_json("removed", device),
            ),
        };
        effect::one_effect(self.has_websocket, e)
    }

    /// Ends all connections: hands out those to iPhones, closed.
    pub fn cleanup(&mut self) -> (r: Vec<Iap2Connection>)
        ensures
            final(self)@ == (DaemonModel {
                connections: Seq::empty(),
                generic_connections: Seq::empty(),
                ..old(self)@
            }),
            final(self)@ == old(self)@.alone(),
            r@ == old(self)@.connections.map_values(
                |c: Iap2Connection| Iap2Connection { running: false, ..c },
            ),
    {
        let mut closed: Vec<Iap2Connection> = Vec::new();
        let mut i: usize = 0;
        while i < self.connections.len()
            invariant
                i <= self.connections@.len(),
                closed@.len() == i,
                forall|k: int|
                    0 <= k < i ==> #[trigger] closed@[k] == (Iap2Connection {
                        running: false,
                        ..self.connections@[k]
                    }),
            decreases self.connections.len() - i,
        {
            let mut connection = self.connections[i];
            connection.close();
            closed.push(connection);
            i += 1;
        }
        assert(closed@ =~= self@.connections.map_values(
            |c: Iap2Connection| Iap2Connection { running: false, ..c },
        ));
        self.connections = Vec::new();
        self.generic_connections = Vec::new();
        closed
    }
}

/// What a client is told of an attempt to connect.
pub open spec fn connect_result(
    device: Seq<char>,
    outcome: Result<ConnectionOutcome, ErrorModel>,
) -> JsonModel {
    match outcome {
        Ok(ConnectionOutcome::Connected) => device_result("connected"@, device),
        Ok(ConnectionOutcome::WaitingForAndroid) => device_result("waiting_for_android"@, device),
        Err(e) => fault_result("Connection failed: "@ + e.message()),
    }
}

fn device_status(status: &str, device: &str) -> (r: Json)
    ensures
        r@ == device_result(status@, device@),
{
    status_json(status).and("device", Json::text(device))
}

/// Answers a request for a connection.
pub fn connect_reply(
    has_websocket: bool,
    id: String,
    device: &str,
    outcome: &Result<ConnectionOutcome, NocturnedError>,
) -> (r: Vec<ClientEffect>)
    ensures
        effect::client_effects(r@) == effect::where_clients(
            has_websocket,
            seq![
                ClientEffectModel::Respond {
                    id: id@,
                    result: connect_result(
                        device@,
                        match *outcome {
                            Ok(o) => Ok(o),
                            Err(e) => Err(e@),
                        },
                    ),
                },
            ],
        ),
{
    let result = match outcome {
        Ok(ConnectionOutcome::Connected) => device_status("connected", device),
        Ok(ConnectionOutcome::WaitingForAndroid) => device_status("waiting_for_android", device),
        Err(e) => {
            let cause = e.message();
            let message = text::joined("Connection failed: ", cause.as_str());
            fault_json(message.as_str())
        },
    };
    effect::one_effect(has_websocket, ClientEffect::Respond { id, result })
}

/// Answers a request that a device be disconnected or forgotten.
pub fn departure_reply(
    has_websocket: bool,
    id: String,
    status: &str,
    device: &str,
    outcome: &Result<(), NocturnedError>,
) -> (r: Vec<ClientEffect>)
    ensures
        effect::client_effects(r@) == effect::where_clients(
            has_websocket,
            seq![
                ClientEffectModel::Respond {
                    id: id@,
                    result: match *outcome {
                        Ok(_) => device_result(status@, device@),
                        Err(e) => fault_result(e@.message()),
                    },
                },
            ],
        ),
{
    let result = match outcome {
        Ok(_) => device_status(status, device),
        Err(e) => {
            let cause = e.message();
            fault_json(cause.as_str())
        },
    };
    effect::one_effect(has_websocket, ClientEffect::Respond { id, result })
}

/// An object that the Bluetooth service manages: an adapter, a device with an address, or
/// something else.
#[derive(Debug)]
pub struct ManagedObject {
    pub path: String,
    pub is_adapter: bool,
    pub device: Option<String>,
}

/// The first device with an address among objects: its position, or that there is none.
pub open spec fn device_at(objects: Seq<ManagedObject>, address: Seq<char>) -> Option<nat>
    decreases objects.len(),
{
    if objects.len() == 0 {
        None
    } else if text::optional_text(objects[0].device) == Some(address) {
        Some(0)
    } else {
        match device_at(objects.drop_first(), address) {
            Some(i) => Some(i + 1),
            None => None,
        }
    }
}

/// The last adapter among objects: its position, or that there is none.
pub open spec fn adapter_at(objects: Seq<ManagedObject>) -> Option<nat>
    decreases objects.len(),
{
    if objects.len() == 0 {
        None
    } else if objects.last().is_adapter {
        Some((objects.len() - 1) as nat)
    } else {
        adapter_at(objects.drop_last())
    }
}

/// A position, where there is one.
pub open spec fn position(i: Option<usize>) -> Option<nat> {
    match i {
        Some(i) => Some(i as nat),
        None => None,
    }
}

fn find_device(objects: &Vec<ManagedObject>, address: &str) -> (r: Option<usize>)
    ensures
        position(r) == device_at(objects@, address@),
{
    let mut i: usize = 0;
    assert(objects@.skip(0) =~= objects@);
    while i < objects.len()
        invariant
            i <= objects@.len(),
            device_at(objects@, address@) == match device_at(objects@.skip(i as int), address@) {
                Some(k) => Some(k + i as nat),
                None => None,
            },
        decreases objects.len() - i,
    {
        assert(objects@.skip(i as int).drop_first() =~= objects@.skip(i + 1));
        if let Some(device) = &objects[i].device {
            if text::same(device.as_str(), address) {
                return Some(i);
            }
        }
        i += 1;
    }
    None
}

fn find_adapter(objects: &Vec<ManagedObject>) -> (r: Option<usize>)
    ensures
        position(r) == adapter_at(objects@),
{
    let mut found: Option<usize> = None;
    let mut i: usize = 0;
    while i < objects.len()
        invariant
            i <= objects@.len(),
            position(found) == adapter_at(objects@.take(i as int)),
        decreases objects.len() - i,
    {
        assert(objects@.take(i + 1).drop_last() =~= objects@.take(i as int));
        if objects[i].is_adapter {
            found = Some(i);
        }
        i += 1;
    }
    assert(objects@.take(i as int) =~= objects@);
    found
}

/// Finds the device that is to be disconnected among the objects of the Bluetooth service.
pub fn disconnect_target(objects: &Vec<ManagedObject>, address: DeviceAddress) -> (r: Result<
    usize,
    NocturnedError,
>)
    ensures
        match device_at(objects@, address.chars()) {
            Some(i) => r matches Ok(k) && k == i,
            None => r matches Err(e) && e@ == ErrorModel::General("Device not found in BlueZ"@),
        },
{
    let name = address.to_text();
    match find_device(objects, name.as_str()) {
        Some(i) => Ok(i),
        None => Err(NocturnedError::General("Device not found in BlueZ".to_owned())),
    }
}

/// Finds the adapter that is to forget a device, and the device, among the objects of the
/// Bluetooth service.
pub fn removal_targets(objects: &Vec<ManagedObject>, address: DeviceAddress) -> (r: Result<
    (usize, usize),
    NocturnedError,
>)
    ensures
        match (adapter_at(objects@), device_at(objects@, address.chars())) {
            (None, _) => r matches Err(e) && e@ == ErrorModel::General("Adapter not found"@),
            (Some(_), None) => r matches Err(e) && e@ == ErrorModel::General(
                "Device not found in BlueZ"@,
            ),
            (Some(a), Some(d)) => r matches Ok(t) && t.0 == a && t.1 == d,
        },
{
    let name = address.to_text();
    let device = find_device(objects, name.as_str());
    match find_adapter(objects) {
        Some(a) => match device {
            Some(d) => Ok((a, d)),
            None => Err(NocturnedError::General("Device not found in BlueZ".to_owned())),
        },
        None => Err(NocturnedError::General("Adapter not found".to_owned())),
    }
}

/// What a failure to disconnect is reported as.
pub open spec fn disconnect_fault_model(message: Seq<char>) -> ErrorModel {
    if text::holds(message, "NotConnected"@) || text::holds(message, "not connected"@) {
        ErrorModel::General("Device not connected"@)
    } else {
        ErrorModel::General(message)
    }
}

/// Makes the failure that is reported when a device could not be disconnected.
pub fn disconnect_fault(message: String) -> (r: NocturnedError)
    ensures
        r@ == disconnect_fault_model(message@),
{
    if text::contains(message.as_str(), "NotConnected") || text::contains(
        message.as_str(),
        "not connected",
    ) {
        NocturnedError::General("Device not connected".to_owned())
    } else {
        NocturnedError::General(message)
    }
}

/// The service record of iAP2, up to the first identifier.
pub const IAP2_RECORD_HEAD: &'static str = r#"<?xml version="1.0" encoding="UTF-8" ?>
<record>
    <attribute id="0x0001">
        <sequence>
            <uuid value=""#;

/// The service record of iAP2, between the identifiers.
pub const IAP2_RECORD_MIDDLE: &'static str = r#"" />
        </sequence>
    </attribute>
    <attribute id="0x0004">
        <sequence>
            <sequence>
                <uuid value="0x0100" />
            </sequence>
            <sequence>
                <uuid value="0x0003" />
                <uint8 value="0x01" />
            </sequence>
        </sequence>
    </attribute>
    <attribute id="0x0009">
        <sequence>
            <sequence>
                <uuid value=""#;

/// The service record of iAP2, from the second identifier to the device's name.
pub const IAP2_RECORD_NAME: &'static str = r#"" />
                <uint16 value="0x0102" />
            </sequence>
        </sequence>
    </attribute>
    <attribute id="0x0005">
        <sequence>
            <uuid value="0x1002" />
        </sequence>
    </attribute>
    <attribute id="0x0100">
        <text value="iAP2" />
    </attribute>
    <attribute id="0x0101">
        <text value="iPod Accessory Protocol v2" />
    </attribute>
    <attribute id="0x0102">
        <text value=""#;

/// The service record of iAP2, after the device's name.
pub const IAP2_RECORD_TAIL: &'static str = r#"" />
    </attribute>
</record>"#;

/// The service record of the serial port, up to the device's name.
pub const SPP_RECORD_HEAD: &'static str = r#"<?xml version="1.0" encoding="UTF-8" ?>
<record>
    <attribute id="0x0001">
        <sequence>
            <uuid value="0x1101" />
        </sequence>
    </attribute>
    <attribute id="0x0004">
        <sequence>
            <sequence>
                <uuid value="0x0100" />
            </sequence>
            <sequence>
                <uuid value="0x0003" />
                <uint8 value="0x02" />
            </sequence>
        </sequence>
    </attribute>
    <attribute id="0x0009">
        <sequence>
            <sequence>
                <uuid value="0x1101" />
                <uint16 value="0x0102" />
            </sequence>
        </sequence>
    </attribute>
    <attribute id="0x0100">
        <text value=""#;

/// The service record of the serial port, after the device's name.
pub const SPP_RECORD_TAIL: &'static str = r#"" />
    </attribute>
    <attribute id="0x0101">
        <text value="Serial Port" />
    </attribute>
</record>"#;

/// The name that the device shows: its own, or a plain one where that is not known.
pub open spec fn shown_name(name: Result<String, NocturnedError>) -> Seq<char> {
    match name {
        Ok(s) => s@,
        Err(_) => "Nocturne"@,
    }
}

/// The name that the device shows: its own, or a plain one where that is not known.
pub fn name_to_show(name: &Result<String, NocturnedError>) -> (r: String)
    ensures
        r@ == shown_name(*name),
{
    match name {
        Ok(s) => s.clone(),
        Err(_) => "Nocturne".to_owned(),
    }
}

/// The service record of iAP2.
pub fn create_sdp_record_xml(uuid: &str, name: &Result<String, NocturnedError>) -> (r: String)
    ensures
        r@ == IAP2_RECORD_HEAD@ + uuid@ + IAP2_RECORD_MIDDLE@ + uuid@ + IAP2_RECORD_NAME@
            + shown_name(*name) + IAP2_RECORD_TAIL@,
{
    let shown = name_to_show(name);
    let mut out = IAP2_RECORD_HEAD.to_owned();
    out.append(uuid);
    out.append(IAP2_RECORD_MIDDLE);
    out.append(uuid);
    out.append(IAP2_RECORD_NAME);
    out.append(shown.as_str());
    out.append(IAP2_RECORD_TAIL);
    out
}

/// The service record of the serial port.
pub fn create_spp_record_xml(name: &Result<String, NocturnedError>) -> (r: String)
    ensures
        r@ == SPP_RECORD_HEAD@ + shown_name(*name) + SPP_RECORD_TAIL@,
{
    let shown = name_to_show(name);
    let mut out = SPP_RECORD_HEAD.to_owned();
    out.append(shown.as_str());
    out.append(SPP_RECORD_TAIL);
    out
}

proof fn lemma_filter_members<T>(s: Seq<T>, pred: spec_fn(T) -> bool)
    ensures
        forall|i: int|
            0 <= i < s.filter(pred).len() ==> pred(#[trigger] s.filter(pred)[i]) && s.contains(
                s.filter(pred)[i],
            ),
        forall|i: int|
            0 <= i < s.len() && pred(#[trigger] s[i]) ==> s.filter(pred).contains(s[i]),
    decreases s.len(),
{
    reveal(Seq::filter);
    if s.len() > 0 {
        let early = s.drop_last();
        lemma_filter_members(early, pred);
        let f = s.filter(pred);
        assert forall|i: int| 0 <= i < f.len() implies pred(#[trigger] f[i]) && s.contains(f[i]) by {
            if i < early.filter(pred).len() {
                assert(f[i] == early.filter(pred)[i]);
                assert(early.contains(early.filter(pred)[i]));
                let k = choose|k: int| 0 <= k < early.len() && early[k] == f[i];
                assert(s[k] == f[i]);
            } else {
                assert(f[i] == s.last());
                assert(s[s.len() - 1] == f[i]);
            }
        }
        assert forall|i: int| 0 <= i < s.len() && pred(#[trigger] s[i]) implies f.contains(s[i]) by {
            if i < early.len() {
                assert(early[i] == s[i]);
                assert(early.filter(pred).contains(s[i]));
                let k = choose|k: int| 0 <= k < early.filter(pred).len() && early.filter(pred)[k] == s[i];
                assert(f[k] == s[i]);
            } else {
                assert(f[f.len() - 1] == s[i]);
            }
        }
    }
}

/// A device that was disconnected or forgotten is not listed any more, and every other device is
/// as before.
pub proof fn law_departed_device_is_gone(m: DaemonModel, gone: DeviceAddress, other: DeviceAddress)
    ensures
        !m.without(gone).has_iap2(gone),
        !m.without_generic(gone).has_generic(gone),
        other != gone ==> m.without(gone).has_iap2(other) == m.has_iap2(other),
        other != gone ==> m.without_generic(gone).has_generic(other) == m.has_generic(other),
        m.without(gone).generic_connections == m.generic_connections,
        m.without_generic(gone).connections == m.connections,
{
    let keep = |c: Iap2Connection| c.device_address != gone;
    let keep_generic = |c: GenericConnection| c.device_address != gone;
    lemma_filter_members(m.connections, keep);
    lemma_filter_members(m.generic_connections, keep_generic);
    let left = m.connections.filter(keep);
    let left_generic = m.generic_connections.filter(keep_generic);
    if other != gone {
        if m.has_iap2(other) {
            let i = choose|i: int|
                0 <= i < m.connections.len() && (#[trigger] m.connections[i]).device_address
                    == other;
            assert(keep(m.connections[i]));
            assert(left.contains(m.connections[i]));
            let k = choose|k: int| 0 <= k < left.len() && left[k] == m.connections[i];
            assert(m.without(gone).connections[k].device_address == other);
        }
        if m.without(gone).has_iap2(other) {
            let k = choose|k: int|
                0 <= k < left.len() && (#[trigger] m.without(gone).connections[k]).device_address
                    == other;
            assert(m.connections.contains(left[k]));
            let i = choose|i: int| 0 <= i < m.connections.len() && m.connections[i] == left[k];
            assert(m.connections[i].device_address == other);
        }
        if m.has_generic(other) {
            let i = choose|i: int|
                0 <= i < m.generic_connections.len() && (
                #[trigger] m.generic_connections[i]).device_address == other;
            assert(keep_generic(m.generic_connections[i]));
            assert(left_generic.contains(m.generic_connections[i]));
            let k = choose|k: int|
                0 <= k < left_generic.len() && left_generic[k] == m.generic_connections[i];
            assert(m.without_generic(gone).generic_connections[k].device_address == other);
        }
        if m.without_generic(gone).has_generic(other) {
            let k = choose|k: int|
                0 <= k < left_generic.len() && (#[trigger] m.without_generic(
                    gone,
                ).generic_connections[k]).device_address == other;
            assert(m.generic_connections.contains(left_generic[k]));
            let i = choose|i: int|
                0 <= i < m.generic_connections.len() && m.generic_connections[i] == left_generic[k];
            assert(m.generic_connections[i].device_address == other);
        }
    }
}

/// A device that connected is listed.
pub proof fn law_connected_device_is_listed(
    m: DaemonModel,
    connection: Iap2Connection,
    device: DeviceAddress,
)
    ensures
        m.with_connection(connection).has_device(connection.device_address),
        m.with_generic(device).has_device(device),
{
    assert(m.with_connection(connection).connections[m.connections.len() as int] == connection);
    assert(m.with_generic(device).generic_connections[m.generic_connections.len() as int]
        == (GenericConnection { device_address: device }));
}

/// While devices may not pair, a request to connect lets in one phone over the serial port, and no
/// more.
pub proof fn law_wake_lets_one_phone_in(m: DaemonModel, device: DeviceAddress)
    requires
        !m.pairing_mode,
    ensures
        m.armed().admits_spp(),
        !m.armed().with_generic(device).admits_spp(),
{
}

/// Marking a connection as ended by the user leaves every connection where it is. The first to the
/// device is marked, and no other changes.
pub proof fn law_marking_moves_no_connection(
    connections: Seq<Iap2Connection>,
    address: DeviceAddress,
)
    ensures
        first_marked(connections, address).len() == connections.len(),
        forall|i: int|
            0 <= i < connections.len() ==> (#[trigger] first_marked(
                connections,
                address,
            )[i]).device_address == connections[i].device_address && first_marked(
                connections,
                address,
            )[i].running == connections[i].running,
        forall|i: int|
            0 <= i < connections.len() && connections[i].device_address != address
                ==> #[trigger] first_marked(connections, address)[i] == connections[i],
        forall|i: int|
            0 <= i < connections.len() && connections[i].device_address == address && (forall|k: int|
                0 <= k < i ==> (#[trigger] connections[k]).device_address != address) ==> (
            #[trigger] first_marked(connections, address)[i]).user_initiated_disconnect,
    decreases connections.len(),
{
    if connections.len() > 0 && connections[0].device_address != address {
        law_marking_moves_no_connection(connections.drop_first(), address);
    }
}

/// A device that has a connection is not connected to again, and the clients are not told of an
/// attempt. Otherwise they are told that one is made. Either way a phone may connect by itself
/// from then on.
pub proof fn law_connected_device_is_not_connected_again(m: DaemonModel, address: DeviceAddress)
    ensures
        m.connect_begun(address).0 is Some <==> m.has_iap2(address) || m.has_generic(address),
        m.connect_begun(address).0 is Some ==> m.connect_begun(address).0 == Some(
            ConnectionOutcome::Connected,
        ) && m.connect_begun(address).1.len() == 0,
        m.connect_begun(address).0 is None && m.has_websocket ==> m.connect_begun(address).1
            == seq![
            effect::told(
                "bluetooth.connection"@,
                connection_event("connecting"@, address, "auto"@),
            ),
        ],
        m.armed().admits_spp(),
        m.armed().connections == m.connections,
        m.armed().generic_connections == m.generic_connections,
{
}

/// An attempt ends well where a connection was made, and then the clients are told. Where none was,
/// the daemon waits for a phone that may connect by itself, and fails where none may.
pub proof fn law_attempt_ends_by_what_came_of_it(
    m: DaemonModel,
    address: DeviceAddress,
    established: bool,
)
    ensures
        m.connect_ended(address, established).0 == Ok::<ConnectionOutcome, ErrorModel>(
            ConnectionOutcome::Connected,
        ) <==> established,
        m.connect_ended(address, established).0 is Err <==> !established && !m.android_wake_armed,
        m.connect_ended(address, established).1.len() > 0 <==> established && m.has_websocket,
        m.armed().connect_ended(address, established).0 is Ok,
{
}

/// A device that was disconnected or forgotten has no connection to an iPhone left, and the clients
/// are told which device. Where it could not be, everything stays as it is and they are told
/// nothing.
pub proof fn law_released_device_is_gone(m: DaemonModel, address: DeviceAddress, worked: bool)
    ensures
        worked ==> !m.released(address, worked).has_iap2(address),
        !worked ==> m.released(address, worked) == m,
        m.released(address, worked).generic_connections == m.generic_connections,
        m.has_websocket && worked ==> {
            &&& m.disconnect_effects(address, worked).len() == 2
            &&& m.disconnect_effects(address, worked)[0] is ClearAppReady
            &&& m.disconnect_effects(address, worked)[1] == effect::told(
                "bluetooth.connection"@,
                closed_event(address, true),
            )
            &&& m.unpair_effects(address, worked) == seq![
                effect::told("bluetooth.device"@, device_event("unpaired"@, address)),
            ]
        },
        !m.has_websocket || !worked ==> m.disconnect_effects(address, worked).len() == 0
            && m.unpair_effects(address, worked).len() == 0,
{
    law_departed_device_is_gone(m, address, address);
}

/// At the end no device has a connection.
pub proof fn law_cleaned_up_daemon_is_alone(m: DaemonModel, address: DeviceAddress)
    ensures
        !m.alone().has_device(address),
        m.alone().pairing_mode == m.pairing_mode,
        m.alone().has_websocket == m.has_websocket,
{
}

/// The clients are told what happened to which device, over what connection, and who ended it where
/// that was the user.
pub proof fn law_events_name_the_device(
    event: Seq<char>,
    device: DeviceAddress,
    kind: Seq<char>,
    by_user: bool,
)
    ensures
        connection_event(event, device, kind).text_field("event"@) == Some(event),
        connection_event(event, device, kind).text_field("device"@) == Some(device.chars()),
        connection_event(event, device, kind).text_field("connection_type"@) == Some(kind),
        device_event(event, device).text_field("event"@) == Some(event),
        device_event(event, device).text_field("device"@) == Some(device.chars()),
        closed_event(device, by_user).text_field("event"@) == Some("connection_closed"@),
        closed_event(device, by_user).text_field("device"@) == Some(device.chars()),
        closed_event(device, by_user).text_field("initiated_by"@) == if by_user {
            Some("user"@)
        } else {
            None
        },
        established_event(device).text_field("event"@) == Some("connection_established"@),
        established_event(device).text_field("device"@) == Some(device.chars()),
        established_event(device).text_field("connection_type"@) == Some("iap2"@),
        established_event(device).text_field("initiated_by"@) == Some("daemon"@),
{
    reveal_strlit("event");
    reveal_strlit("device");
    reveal_strlit("connection_type");
    reveal_strlit("initiated_by");
    reveal_strlit("device_type");
    reveal_strlit("channel");
    assert("event"@.len() == 5 && "device"@.len() == 6 && "connection_type"@.len() == 15);
    assert("initiated_by"@.len() == 12 && "device_type"@.len() == 11 && "channel"@.len() == 7);
    crate::json::law_bare_object_has_no_member("initiated_by"@);
    lemma_connection_event(event, device, kind);
    lemma_connection_event("connection_closed"@, device, "rfcomm"@);
    let closed = connection_event("connection_closed"@, device, "rfcomm"@);
    crate::json::law_member_is_found(closed, "initiated_by"@, JsonModel::Text("user"@));
    lemma_connection_event("connection_established"@, device, "iap2"@);
    let d0 = connection_event("connection_established"@, device, "iap2"@);
    crate::json::law_member_is_found(d0, "device_type"@, JsonModel::Text("iphone"@));
    let d1 = d0.and("device_type"@, JsonModel::Text("iphone"@));
    crate::json::law_member_is_found(d1, "channel"@, JsonModel::Number(JsonNumber::Unsigned(1)));
    let d2 = d1.and("channel"@, JsonModel::Number(JsonNumber::Unsigned(1)));
    crate::json::law_member_is_found(d2, "initiated_by"@, JsonModel::Text("daemon"@));
    let d3 = d2.and("initiated_by"@, JsonModel::Text("daemon"@));
    assert(established_event(device) == d3);
}

proof fn lemma_connection_event(event: Seq<char>, device: DeviceAddress, kind: Seq<char>)
    ensures
        connection_event(event, device, kind) is Table,
        connection_event(event, device, kind).field("event"@) == Some(JsonModel::Text(event)),
        connection_event(event, device, kind).field("device"@) == Some(
            JsonModel::Text(device.chars()),
        ),
        connection_event(event, device, kind).field("connection_type"@) == Some(
            JsonModel::Text(kind),
        ),
        connection_event(event, device, kind).field("initiated_by"@) is None,
        device_event(event, device).field("event"@) == Some(JsonModel::Text(event)),
        device_event(event, device).field("device"@) == Some(JsonModel::Text(device.chars())),
{
    crate::json::law_bare_object_has_no_member("initiated_by"@);
    reveal_strlit("event");
    reveal_strlit("device");
    reveal_strlit("connection_type");
    reveal_strlit("initiated_by");
    assert("event"@.len() == 5 && "device"@.len() == 6 && "connection_type"@.len() == 15);
    assert("initiated_by"@.len() == 12);
    let d0 = JsonModel::table();
    crate::json::law_bare_object_has_no_member("event"@);
    crate::json::law_bare_object_has_no_member("device"@);
    crate::json::law_bare_object_has_no_member("connection_type"@);
    crate::json::law_member_is_found(d0, "event"@, JsonModel::Text(event));
    let d1 = d0.and("event"@, JsonModel::Text(event));
    crate::json::law_member_is_found(d1, "device"@, JsonModel::Text(device.chars()));
    let d2 = d1.and("device"@, JsonModel::Text(device.chars()));
    crate::json::law_member_is_found(d2, "connection_type"@, JsonModel::Text(kind));
    let d3 = d2.and("connection_type"@, JsonModel::Text(kind));
    assert(connection_event(event, device, kind) == d3);
}

/// A change of a device is told as what it is, under the topic of pairings or of devices, with the
/// device.
pub proof fn law_change_is_told_as_what_it_is(device: DeviceAddress, change: DeviceChange)
    ensures
        change_effect(device, change) matches ClientEffectModel::Broadcast { topic, data } && {
            &&& data.text_field("device"@) == Some(device.chars())
            &&& change is Paired ==> topic == "bluetooth.pairing"@
            &&& !(change is Paired) ==> topic == "bluetooth.device"@
            &&& data.text_field("event"@) == Some(
                match change {
                    DeviceChange::Paired(true) => "paired"@,
                    DeviceChange::Paired(false) => "unpaired"@,
                    DeviceChange::Connected(true) => "connected"@,
                    DeviceChange::Connected(false) => "disconnected"@,
                    DeviceChange::Removed => "removed"@,
                },
            )
        },
{
    law_events_name_the_device("paired"@, device, "auto"@, true);
    law_events_name_the_device("unpaired"@, device, "auto"@, true);
    law_events_name_the_device("connected"@, device, "auto"@, true);
    law_events_name_the_device("disconnected"@, device, "auto"@, true);
    law_events_name_the_device("removed"@, device, "auto"@, true);
}

/// A request that concerns a device is carried out for the address that it names, under its id, and
/// answered as a failure where it names none that can be read.
pub proof fn law_device_request_is_for_the_named_device(
    id: Seq<char>,
    doc: JsonModel,
    method: Seq<char>,
    named: Seq<char>,
)
    requires
        doc.text_field("method"@) == Some(method),
        doc.field("params"@) matches Some(params) && params.text_field("address"@) == Some(named),
    ensures
        ({
            let done = control_actions(true, id, doc);
            let bytes = address::address_bytes(named);
            let concerns = method == "bluetooth.device.connect"@ || method
                == "bluetooth.device.disconnect"@ || method == "bluetooth.device.unpair"@ || method
                == "bluetooth.device.forget"@;
            &&& !concerns ==> done.len() == 0
            &&& concerns ==> done.len() == 1
            &&& concerns && bytes is None ==> (done[0] matches DaemonActionModel::Client(
                ClientEffectModel::Respond { id: answered, .. },
            ) && answered == id)
            &&& concerns && bytes is Some ==> match done[0] {
                DaemonActionModel::Connect { id: asked, device, address } => method
                    == "bluetooth.device.connect"@ && asked == id && device == named && Some(address)
                    == bytes,
                DaemonActionModel::Disconnect { id: asked, device, address } => method
                    == "bluetooth.device.disconnect"@ && asked == id && device == named && Some(
                    address,
                ) == bytes,
                DaemonActionModel::Unpair { id: asked, device, address } => (method
                    == "bluetooth.device.unpair"@ || method == "bluetooth.device.forget"@) && asked
                    == id && device == named && Some(address) == bytes,
                _ => false,
            }
        }),
{
    reveal_strlit("bluetooth.device.connect");
    reveal_strlit("bluetooth.device.disconnect");
    reveal_strlit("bluetooth.device.unpair");
    reveal_strlit("bluetooth.device.forget");
    assert("bluetooth.device.connect"@.len() == 24 && "bluetooth.device.disconnect"@.len() == 27);
    assert("bluetooth.device.unpair"@.len() == 23);
    assert("bluetooth.device.forget"@.len() == 23);
    assert("bluetooth.device.unpair"@[17] != "bluetooth.device.forget"@[17]);
}

/// The recorder and the detector do what a request tells them, a recording has the detector rest
/// first, and every other request goes to the phones.
pub proof fn law_own_requests_stay_with_the_daemon(
    has_websocket: bool,
    id: Seq<char>,
    doc: Option<JsonModel>,
)
    ensures
        ({
            let method = match doc {
                Some(doc) => doc.text_field("method"@),
                None => None,
            };
            let done = other_actions(has_websocket, id, doc);
            let own = method == Some("audio.record.start"@) || method == Some("audio.record.stop"@)
                || method == Some("wakeword.pause"@) || method == Some("wakeword.resume"@);
            &&& done.contains(DaemonActionModel::Forward) <==> !own
            &&& !own ==> done.len() == 1
            &&& own && has_websocket ==> (done.last() matches DaemonActionModel::Client(
                ClientEffectModel::Respond { id: answered, .. },
            ) && answered == id)
            &&& done.contains(DaemonActionModel::Audio(AudioCommand::Start)) <==> method == Some(
                "audio.record.start"@,
            )
            &&& done.contains(DaemonActionModel::Audio(AudioCommand::Stop)) <==> method == Some(
                "audio.record.stop"@,
            )
            &&& method == Some("audio.record.start"@) ==> done[0] == DaemonActionModel::WakeWord(
                WakeWordCommand::Pause { ack: true, persist: false },
            )
            &&& method == Some("wakeword.pause"@) ==> done[0] == DaemonActionModel::WakeWord(
                WakeWordCommand::Pause { ack: false, persist: true },
            )
            &&& method == Some("wakeword.resume"@) ==> done[0] == DaemonActionModel::WakeWord(
                WakeWordCommand::Resume { persist: true },
            )
        }),
{
    reveal_strlit("audio.record.start");
    reveal_strlit("audio.record.stop");
    reveal_strlit("wakeword.pause");
    reveal_strlit("wakeword.resume");
    assert("audio.record.start"@.len() == 18 && "audio.record.stop"@.len() == 17);
    assert("wakeword.pause"@.len() == 14);
    assert("wakeword.resume"@.len() == 15);
    let method = match doc {
        Some(doc) => doc.text_field("method"@),
        None => None,
    };
    let done = other_actions(has_websocket, id, doc);
    if method == Some("audio.record.start"@) {
        assert(done[1] == DaemonActionModel::Audio(AudioCommand::Start));
    } else if method == Some("audio.record.stop"@) {
        assert(done[0] == DaemonActionModel::Audio(AudioCommand::Stop));
    } else if method != Some("wakeword.pause"@) && method != Some("wakeword.resume"@) {
        assert(done[0] == DaemonActionModel::Forward);
    }
}

/// A client is told what came of its attempt, and for which device.
pub proof fn law_attempt_is_answered(
    device: Seq<char>,
    outcome: Result<ConnectionOutcome, ErrorModel>,
)
    ensures
        outcome matches Ok(o) ==> {
            &&& connect_result(device, outcome).text_field("device"@) == Some(device)
            &&& connect_result(device, outcome).text_field("status"@) == Some(
                if o == ConnectionOutcome::Connected {
                    "connected"@
                } else {
                    "waiting_for_android"@
                },
            )
        },
        outcome matches Err(e) ==> (connect_result(device, outcome).text_field("error"@) matches
            Some(why) && e.message().is_suffix_of(why)),
{
    match outcome {
        Ok(o) => {
            let status = if o == ConnectionOutcome::Connected {
                "connected"@
            } else {
                "waiting_for_android"@
            };
            reveal_strlit("status");
            reveal_strlit("device");
            assert("status"@.len() == 6 && "device"@.len() == 6);
            assert("status"@[0] != "device"@[0]);
            let d0 = JsonModel::table();
            crate::json::law_bare_object_has_no_member("status"@);
            crate::json::law_bare_object_has_no_member("device"@);
            crate::json::law_member_is_found(d0, "status"@, JsonModel::Text(status));
            let d1 = d0.and("status"@, JsonModel::Text(status));
            crate::json::law_member_is_found(d1, "device"@, JsonModel::Text(device));
            let d2 = d1.and("device"@, JsonModel::Text(device));
            assert(connect_result(device, outcome) == d2);
        },
        Err(e) => {
            let why = "Connection failed: "@ + e.message();
            crate::json::law_bare_object_has_no_member("error"@);
            crate::json::law_member_is_found(JsonModel::table(), "error"@, JsonModel::Text(why));
            assert(e.message() =~= why.subrange(
                why.len() - e.message().len(),
                why.len() as int,
            ));
        },
    }
}

/// The device that is found among objects is the first with the address, and the adapter the last
/// one; none is found just where there is none.
pub proof fn law_found_objects_are_the_right_ones(objects: Seq<ManagedObject>, address: Seq<char>)
    ensures
        match device_at(objects, address) {
            Some(i) => {
                &&& i < objects.len()
                &&& objects[i as int].device matches Some(d) && d@ == address
                &&& forall|k: int|
                    0 <= k < i ==> text::optional_text((#[trigger] objects[k]).device) != Some(
                        address,
                    )
            },
            None => forall|k: int|
                0 <= k < objects.len() ==> text::optional_text((#[trigger] objects[k]).device)
                    != Some(address),
        },
        match adapter_at(objects) {
            Some(i) => {
                &&& i < objects.len()
                &&& objects[i as int].is_adapter
                &&& forall|k: int| i < k < objects.len() ==> !(#[trigger] objects[k]).is_adapter
            },
            None => forall|k: int| 0 <= k < objects.len() ==> !(#[trigger] objects[k]).is_adapter,
        },
    decreases objects.len(),
{
    if objects.len() > 0 {
        let later = objects.drop_first();
        let earlier = objects.drop_last();
        law_found_objects_are_the_right_ones(later, address);
        law_found_objects_are_the_right_ones(earlier, address);
        assert(forall|k: int| 0 < k < objects.len() ==> #[trigger] objects[k] == later[k - 1]);
        assert(forall|k: int| 0 <= k < earlier.len() ==> #[trigger] objects[k] == earlier[k]);
    }
}

/// A device that is not connected is reported as such, and every other failure by what it says.
pub proof fn law_disconnect_failure_says_why(message: Seq<char>)
    ensures
        (exists|i: int| text::occurs_at(message, "NotConnected"@, i)) || (exists|i: int|
            text::occurs_at(message, "not connected"@, i)) ==> disconnect_fault_model(message)
            == ErrorModel::General("Device not connected"@),
        !text::holds(message, "NotConnected"@) && !text::holds(message, "not connected"@)
            ==> disconnect_fault_model(message).message() == message,
{
}

/// A connection that the user wants to end stays until it has ended, and is then known to have been
/// ended by the user.
pub proof fn law_user_ends_the_connection(m: DaemonModel, address: DeviceAddress)
    ensures
        m.disconnecting(address).has_iap2(address) == m.has_iap2(address),
        m.disconnecting(address).connections.len() == m.connections.len(),
        m.disconnecting(address).generic_connections == m.generic_connections,
        m.has_iap2(address) ==> exists|i: int|
            0 <= i < m.connections.len() && (#[trigger] m.disconnecting(
                address,
            ).connections[i]).device_address == address && m.disconnecting(
                address,
            ).connections[i].user_initiated_disconnect,
        !m.has_iap2(address) ==> m.disconnecting(address).connections == m.connections,
{
    law_marking_moves_no_connection(m.connections, address);
    let marked = first_marked(m.connections, address);
    if m.has_iap2(address) {
        let i = choose|i: int|
            0 <= i < m.connections.len() && (#[trigger] m.connections[i]).device_address == address;
        assert(m.disconnecting(address).connections[i].device_address == address);
        lemma_first_is_marked(m.connections, address, i);
    } else {
        assert(marked =~= m.connections);
    }
    if m.disconnecting(address).has_iap2(address) {
        let i = choose|i: int|
            0 <= i < marked.len() && (#[trigger] marked[i]).device_address == address;
        assert(m.connections[i].device_address == address);
    }
}

proof fn lemma_first_is_marked(connections: Seq<Iap2Connection>, address: DeviceAddress, i: int)
    requires
        0 <= i < connections.len(),
        connections[i].device_address == address,
    ensures
        exists|k: int|
            0 <= k < connections.len() && (#[trigger] first_marked(
                connections,
                address,
            )[k]).device_address == address && first_marked(
                connections,
                address,
            )[k].user_initiated_disconnect,
    decreases connections.len(),
{
    let marked = first_marked(connections, address);
    if connections[0].device_address == address {
        assert(marked[0].device_address == address && marked[0].user_initiated_disconnect);
    } else {
        let later = connections.drop_first();
        assert(later[i - 1] == connections[i]);
        lemma_first_is_marked(later, address, i - 1);
        let k = choose|k: int|
            0 <= k < later.len() && (#[trigger] first_marked(later, address)[k]).device_address
                == address && first_marked(later, address)[k].user_initiated_disconnect;
        law_marking_moves_no_connection(later, address);
        assert(marked =~= seq![connections[0]] + first_marked(later, address));
        assert(marked[k + 1] == first_marked(later, address)[k]);
    }
}

/// What comes under the protocol for devices is never passed on to the phones, and what comes under
/// another never reaches a device.
pub proof fn law_protocols_are_kept_apart(
    has_websocket: bool,
    protocol: Seq<char>,
    id: Seq<char>,
    doc: Option<JsonModel>,
    i: int,
)
    requires
        0 <= i < request_actions(has_websocket, protocol, id, doc).len(),
    ensures
        ({
            let action = request_actions(has_websocket, protocol, id, doc)[i];
            &&& protocol == "bluetooth.control"@ ==> !(action is Forward) && !(action is Audio)
                && !(action is WakeWord)
            &&& protocol != "bluetooth.control"@ ==> !(action is Connect) && !(action is Disconnect)
                && !(action is Unpair)
            &&& action matches DaemonActionModel::Client(ClientEffectModel::Respond {
                id: answered,
                ..
            }) ==> answered == id
        }),
{
}

} // verus!
