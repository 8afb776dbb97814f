//! The messages that the daemon and the phone exchange.
use crate::app::inbound::Arrived;
use crate::app::msgpack::{HandlerModel, MsgPackProtocolHandler};
use crate::app::websocket_handler::{RequestAction, WebSocketProtocolHandler};
use crate::buffer;
use crate::error::{ErrorModel, NocturnedError};
use crate::table::TextMap;
use bytes::Bytes;
use std::collections::HashMap;
use vstd::prelude::*;

pub mod chunk;
pub mod hid_mapping;
pub mod inbound;
pub mod link_laws;
pub mod msgpack;
pub mod ota;
pub mod value;
pub mod websocket_handler;

verus! {

/// A message of a session, in or out.
pub struct AppMessage {
    pub id: String,
    pub protocol: String,
    pub session_id: u8,
    pub data: Bytes,
}

/// A message of a session, apart from how it is stored.
pub struct AppMessageModel {
    pub id: Seq<char>,
    pub protocol: Seq<char>,
    pub session_id: u8,
    pub data: Seq<u8>,
}

impl View for AppMessage {
    type V = AppMessageModel;

    open spec fn view(&self) -> AppMessageModel {
        AppMessageModel {
            id: self.id@,
            protocol: self.protocol@,
            session_id: self.session_id,
            data: buffer::payload(self.data),
        }
    }
}

broadcast use vstd::std_specs::hash::group_hash_axioms;

/// A session of the phone app, and the protocol that it speaks.
#[derive(Debug)]
pub struct AppSession {
    pub id: u8,
    pub protocol: String,
}

/// What handles the messages of a protocol.
pub enum AppProtocolHandlerEnum {
    MsgPack(Box<MsgPackProtocolHandler>),
    WebSocket(WebSocketProtocolHandler),
}

/// What comes of a message.
pub enum Handled {
    /// Of the phone app's own protocol: whole messages, and chunks to ask for again.
    Arrived(Arrived),
    /// Of a client's request: what is to be done.
    Requests(Vec<RequestAction>),
}

/// What handles the messages of a protocol, apart from how it is stored.
pub enum ProtocolModel {
    MsgPack(HandlerModel),
    WebSocket(WebSocketProtocolHandler),
}

impl View for AppProtocolHandlerEnum {
    type V = ProtocolModel;

    open spec fn view(&self) -> ProtocolModel {
        match self {
            AppProtocolHandlerEnum::MsgPack(h) => ProtocolModel::MsgPack(h@),
            AppProtocolHandlerEnum::WebSocket(h) => ProtocolModel::WebSocket(*h),
        }
    }
}

impl ProtocolModel {
    /// The protocol's name.
    pub open spec fn name(self) -> Seq<char> {
        match self {
            ProtocolModel::MsgPack(_) => msgpack::MSGPACK_PROTOCOL@,
            ProtocolModel::WebSocket(_) => "websocket.message"@,
        }
    }

    /// The handler once it has a session to send to.
    pub open spec fn with_session(self, session: u8) -> ProtocolModel {
        match self {
            ProtocolModel::MsgPack(h) => ProtocolModel::MsgPack(
                HandlerModel { session_id: Some(session), has_session: true, ..h },
            ),
            ProtocolModel::WebSocket(h) => ProtocolModel::WebSocket(h),
        }
    }
}

impl AppProtocolHandlerEnum {
    /// The protocol's name.
    pub fn protocol_name(&self) -> (r: &str)
        ensures
            r@ == self@.name(),
    {
        match self {
            AppProtocolHandlerEnum::MsgPack(h) => h.protocol_name(),
            AppProtocolHandlerEnum::WebSocket(h) => h.protocol_name(),
        }
    }

    /// Handles a message: whole messages come out of the phone app's own protocol, and things to do
    /// about the requests of clients.
    pub fn handle_message(&mut self, message: &AppMessage) -> (r: Result<Handled, NocturnedError>)
        requires
            old(self)@ matches ProtocolModel::MsgPack(h) ==> h.well_formed(),
            message@.data.len() <= isize::MAX,
        ensures
            match old(self)@ {
                ProtocolModel::MsgPack(h) => {
                    &&& r matches Ok(Handled::Arrived(a))
                    &&& a@ == h.inbound.arrives(message@.session_id, message@.data)
                    &&& final(self)@ == ProtocolModel::MsgPack(
                        HandlerModel {
                            inbound: h.inbound.received(message@.session_id, message@.data),
                            ..msgpack::session_seen(h, message@.session_id)
                        },
                    )
                },
                ProtocolModel::WebSocket(h) => {
                    &&& final(self)@ == old(self)@
                    &&& match value::json_read(message@.data) {
                        Ok(doc) => r matches Ok(Handled::Requests(actions))
                            && websocket_handler::request_actions(actions@) == h.request_handled(
                            message@.id,
                            doc,
                        ),
                        Err(fault) => r matches Err(e) && e@ == ErrorModel::Json(fault),
                    }
                },
            },
    {
        match self {
            AppProtocolHandlerEnum::MsgPack(h) => Ok(Handled::Arrived(h.handle_message(message))),
            AppProtocolHandlerEnum::WebSocket(h) => match h.handle_message(message) {
                Ok(actions) => Ok(Handled::Requests(actions)),
                Err(e) => Err(e),
            },
        }
    }

    /// The handler of the phone app's own protocol, where it is that.
    pub fn as_msgpack_mut(&mut self) -> (r: Option<&mut MsgPackProtocolHandler>)
        ensures
            match r {
                Some(h) => {
                    &&& old(self)@ == ProtocolModel::MsgPack(h@)
                    &&& final(self)@ == ProtocolModel::MsgPack(final(h)@)
                },
                None => !(old(self)@ is MsgPack) && final(self)@ == old(self)@,
            },
    {
        match self {
            AppProtocolHandlerEnum::MsgPack(h) => Some(&mut **h),
            AppProtocolHandlerEnum::WebSocket(_) => None,
        }
    }
}

/// The sessions of the phone app, and the handlers of the protocols.
pub struct AppCommunicationManager {
    sessions: HashMap<u8, AppSession>,
    handlers: TextMap<AppProtocolHandlerEnum>,
}

/// Sessions and handlers, apart from how they are stored.
#[verifier::ext_equal]
pub struct ManagerModel {
    pub sessions: Map<u8, Seq<char>>,
    pub handlers: Map<Seq<char>, ProtocolModel>,
}

/// The models of the handlers.
pub open spec fn handler_models(handlers: Map<Seq<char>, AppProtocolHandlerEnum>) -> Map<
    Seq<char>,
    ProtocolModel,
> {
    handlers.map_values(|h: AppProtocolHandlerEnum| h@)
}

impl View for AppCommunicationManager {
    type V = ManagerModel;

    closed spec fn view(&self) -> ManagerModel {
        ManagerModel {
            sessions: self.sessions@.map_values(|s: AppSession| s.protocol@),
            handlers: handler_models(self.handlers@),
        }
    }
}

impl ManagerModel {
    /// The protocol of a session that has a handler.
    pub open spec fn handled_protocol(self, session: u8) -> Option<Seq<char>> {
        if self.sessions.contains_key(session) && self.handlers.contains_key(
            self.sessions[session],
        ) {
            Some(self.sessions[session])
        } else {
            None
        }
    }

    /// Sessions and handlers once bytes of a session have come: its handler knows the session.
    pub open spec fn with_incoming(self, session: u8) -> ManagerModel {
        match self.handled_protocol(session) {
            Some(protocol) => ManagerModel {
                handlers: self.handlers.insert(
                    protocol,
                    self.handlers[protocol].with_session(session),
                ),
                ..self
            },
            None => self,
        }
    }

    /// Whether the phone app has said that it is ready, where its protocol has a handler.
    pub open spec fn app_ready(self) -> Option<bool> {
        if self.handlers.contains_key("com.usenocturne.daemon"@) {
            match self.handlers["com.usenocturne.daemon"@] {
                ProtocolModel::MsgPack(h) => Some(h.app_ready),
                ProtocolModel::WebSocket(_) => None,
            }
        } else {
            None
        }
    }
}

impl AppCommunicationManager {
    /// No session and no handler.
    pub fn new() -> (r: AppCommunicationManager)
        ensures
            r@ == (ManagerModel { sessions: Map::empty(), handlers: Map::empty() }),
    {
        let r = AppCommunicationManager { sessions: HashMap::new(), handlers: TextMap::new() };
        assert(r@ =~= ManagerModel { sessions: Map::empty(), handlers: Map::empty() });
        r
    }

    /// Lets a handler handle the messages of its protocol, in place of another.
    pub fn register_handler(&mut self, handler: AppProtocolHandlerEnum)
        ensures
            final(self)@ == (ManagerModel {
                handlers: old(self)@.handlers.insert(handler@.name(), handler@),
                ..old(self)@
            }),
    {
        let ghost before = self@;
        let protocol = handler.protocol_name().to_owned();
        self.handlers.insert(protocol, handler);
        assert(self@.handlers =~= before.handlers.insert(handler@.name(), handler@));
    }

    /// The handler of a protocol.
    pub fn get_handler_mut(&mut self, protocol: &str) -> (r: Option<&mut AppProtocolHandlerEnum>)
        ensures
            match r {
                Some(h) => {
                    &&& old(self)@.handlers.contains_key(protocol@)
                    &&& h@ == old(self)@.handlers[protocol@]
                    &&& final(self)@.handlers == old(self)@.handlers.insert(
                        protocol@,
                        final(h)@,
                    )
                    &&& final(self)@.sessions == old(self)@.sessions
                },
                None => !old(self)@.handlers.contains_key(protocol@) && final(self)@ == old(
                    self,
                )@,
            },
    {
        let ghost before = self.handlers@;
        proof {
            assert forall|h: AppProtocolHandlerEnum|
                handler_models(#[trigger] before.insert(protocol@, h)) == handler_models(
                    before,
                ).insert(protocol@, h@) by {
                assert(handler_models(before.insert(protocol@, h)) =~= handler_models(
                    before,
                ).insert(protocol@, h@));
            }
        }
        self.handlers.get_mut(protocol)
    }

    /// Whether the phone app has said that it is ready, where its protocol has a handler.
    pub fn app_ready_flag(&self) -> (r: Option<bool>)
        ensures
            r == self@.app_ready(),
    {
        match self.handlers.get("com.usenocturne.daemon") {
            Some(AppProtocolHandlerEnum::MsgPack(h)) => Some(h.app_ready_flag()),
            Some(AppProtocolHandlerEnum::WebSocket(_)) => None,
            None => None,
        }
    }

    /// Opens a session, in place of another of the same number.
    pub fn create_session(&mut self, session_id: u8, protocol: String)
        ensures
            final(self)@ == (ManagerModel {
                sessions: old(self)@.sessions.insert(session_id, protocol@),
                ..old(self)@
            }),
    {
        let ghost before = self@;
        self.sessions.insert(session_id, AppSession { id: session_id, protocol });
        assert(self@.sessions =~= before.sessions.insert(session_id, protocol@));
    }

    /// Takes in bytes of a session: makes the message that its handler is given, under a given id.
    /// Bytes of a session that is not open, or that has no handler, are dropped.
    pub fn incoming_with_id(&mut self, session_id: u8, data: Bytes, message_id: String) -> (r:
        Option<AppMessage>)
        ensures
            match old(self)@.handled_protocol(session_id) {
                Some(protocol) => {
                    &&& r matches Some(m)
                    &&& m@ == (AppMessageModel {
                        id: message_id@,
                        protocol,
                        session_id,
                        data: buffer::payload(data),
                    })
                },
                None => r is None,
            },
            final(self)@ == old(self)@.with_incoming(session_id),
    {
        let protocol = match self.sessions.get(&session_id) {
            Some(session) => session.protocol.clone(),
            None => return None,
        };
        let found = match self.get_handler_mut(protocol.as_str()) {
            Some(handler) => {
                if let Some(h) = handler.as_msgpack_mut() {
                    h.set_session_info(session_id);
                }
                true
            },
            None => false,
        };
        if found {
            Some(AppMessage { id: message_id, protocol, session_id, data })
        } else {
            None
        }
    }

    /// Takes in bytes of a session: makes the message that its handler is given, under an id of
    /// its own.
    pub fn handle_incoming_data(&mut self, session_id: u8, data: Bytes) -> (r: Option<AppMessage>)
        ensures
            match old(self)@.handled_protocol(session_id) {
                Some(protocol) => {
                    &&& r matches Some(m)
                    &&& chunk::uuid_text(m@.id)
                    &&& m@ == (AppMessageModel {
                        id: m@.id,
                        protocol,
                        session_id,
                        data: buffer::payload(data),
                    })
                },
                None => r is None,
            },
            final(self)@ == old(self)@.with_incoming(session_id),
    {
        let id = chunk::new_uuid();
        self.incoming_with_id(session_id, data, id)
    }
}

/// Makes the message that answers bytes of a session go to that session.
pub fn answer_to_session(response: AppMessage, session_id: u8) -> (r: AppMessage)
    ensures
        r@ == (AppMessageModel { session_id, ..response@ }),
{
    AppMessage { session_id, ..response }
}

/// Bytes of a session make its handler know the session that answers go to. They are dropped where
/// the session is not open or nothing handles its protocol, and nothing else changes.
pub proof fn law_bytes_make_the_session_known(m: ManagerModel, session: u8, other: Seq<char>)
    ensures
        m.with_incoming(session).sessions == m.sessions,
        m.with_incoming(session).handlers.dom() == m.handlers.dom(),
        m.handled_protocol(session) is Some <==> m.sessions.contains_key(session)
            && m.handlers.contains_key(m.sessions[session]),
        m.handled_protocol(session) matches Some(protocol) ==> {
            &&& protocol == m.sessions[session]
            &&& m.handlers[protocol] matches ProtocolModel::MsgPack(h) ==> (m.with_incoming(
                session,
            ).handlers[protocol] matches ProtocolModel::MsgPack(after) && after.session_id == Some(
                session,
            ) && after.has_session && after.requests == h.requests && after.inbound == h.inbound
                && after.app_ready == h.app_ready && after.files == h.files)
            &&& m.handlers[protocol] is WebSocket ==> m.with_incoming(session).handlers[protocol]
                == m.handlers[protocol]
        },
        m.handled_protocol(session) != Some(other) && m.handlers.contains_key(other)
            ==> m.with_incoming(session).handlers[other] == m.handlers[other],
        m.with_incoming(session).app_ready() == m.app_ready(),
{
    assert(m.with_incoming(session).handlers.dom() =~= m.handlers.dom());
}

/// The app is ready where the handler of its protocol has taken in that it is.
pub proof fn law_ready_app_is_ready(m: ManagerModel, h: HandlerModel, data: crate::json::JsonModel)
    ensures
        ({
            let after = msgpack::event_taken(h, "app.ready"@, data);
            let with = ManagerModel {
                handlers: m.handlers.insert(
                    "com.usenocturne.daemon"@,
                    ProtocolModel::MsgPack(after),
                ),
                ..m
            };
            with.app_ready() == Some(true)
        }),
{
    reveal_strlit("device.ota.package_state");
    reveal_strlit("device.ota.chunk");
    reveal_strlit("app.ready");
    assert("app.ready"@.len() == 9 && "device.ota.chunk"@.len() == 16);
    assert("device.ota.package_state"@.len() == 24);
}

} // verus!
