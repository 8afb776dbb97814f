//! The agent that answers for the device while it pairs.
use crate::effect;
use crate::effect::{ClientEffect, ClientEffectModel};
use crate::json::{Json, JsonModel, JsonNumber};
use crate::text;
use vstd::prelude::*;

verus! {

broadcast use crate::json::lemma_json_view;

/// What could be found out of a device: its address, its name, and what it is called here.
#[derive(Debug)]
pub struct DeviceAbout {
    pub address: Option<String>,
    pub name: Option<String>,
    pub alias: Option<String>,
}

/// What could be found out of a device, apart from how it is stored.
pub struct AboutModel {
    pub address: Option<Seq<char>>,
    pub name: Option<Seq<char>>,
    pub alias: Option<Seq<char>>,
}

impl View for DeviceAbout {
    type V = AboutModel;

    open spec fn view(&self) -> AboutModel {
        AboutModel {
            address: text::optional_text(self.address),
            name: text::optional_text(self.name),
            alias: text::optional_text(self.alias),
        }
    }
}

/// What the agent is asked. Where a code is to be shown, there is what could be found out of the
/// device, unless nobody could be asked.
#[derive(Debug)]
pub enum AgentCall {
    Release,
    RequestPinCode { device: String },
    DisplayPinCode { pincode: String, about: Option<DeviceAbout> },
    RequestPasskey { device: String },
    DisplayPasskey { passkey: u32, entered: u16, about: Option<DeviceAbout> },
    RequestConfirmation { passkey: u32, about: Option<DeviceAbout> },
    RequestAuthorization { device: String },
    AuthorizeService { device: String, uuid: String },
    Cancel,
}

/// What the agent answers: everything is agreed to, and some calls ask for a code.
#[derive(Debug)]
pub enum AgentReply {
    Done,
    PinCode(String),
    Passkey(u32),
}

/// What the agent answers, apart from how it is stored.
pub enum ReplyModel {
    Done,
    PinCode(Seq<char>),
    Passkey(u32),
}

impl View for AgentReply {
    type V = ReplyModel;

    open spec fn view(&self) -> ReplyModel {
        match self {
            AgentReply::Done => ReplyModel::Done,
            AgentReply::PinCode(s) => ReplyModel::PinCode(s@),
            AgentReply::Passkey(n) => ReplyModel::Passkey(*n),
        }
    }
}

/// A text, or another in its place.
pub open spec fn or_else(s: Option<Seq<char>>, other: Seq<char>) -> Seq<char> {
    match s {
        Some(s) => s,
        None => other,
    }
}

/// What the clients are told of a code that is to be shown.
pub open spec fn pin_event(about: AboutModel, pin: Seq<char>) -> JsonModel {
    JsonModel::table().and("address"@, JsonModel::Text(or_else(about.address, "unknown"@))).and(
        "name"@,
        JsonModel::Text(or_else(about.name, or_else(about.alias, "Unknown Device"@))),
    ).and("pin"@, JsonModel::Text(pin)).and("type"@, JsonModel::Text("bluetooth_pin"@))
}

/// What the clients are told of something that the agent was asked.
pub open spec fn agent_event(event: Seq<char>) -> JsonModel {
    JsonModel::table().and("event"@, JsonModel::Text(event))
}

/// What the clients are told of a device that has paired.
pub open spec fn paired_event(device: Seq<char>) -> JsonModel {
    JsonModel::table().and("type"@, JsonModel::Text("pairing_succeeded"@)).and(
        "device"@,
        JsonModel::Text(device),
    )
}

/// What the clients are told of a call.
pub open spec fn call_effects(call: AgentCall) -> Seq<ClientEffectModel> {
    let topic = "bluetooth.agent"@;
    match call {
        AgentCall::Release => seq![effect::told(topic, agent_event("release"@))],
        AgentCall::RequestPinCode { device } => seq![
            effect::told(
                topic,
                agent_event("request_pin_code"@).and("device"@, JsonModel::Text(device@)).and(
                    "pincode"@,
                    JsonModel::Text("0000"@),
                ),
            ),
        ],
        AgentCall::DisplayPinCode { pincode, about } => match about {
            Some(about) => seq![effect::told(topic, pin_event(about@, pincode@))],
            None => Seq::empty(),
        },
        AgentCall::RequestPasskey { device } => seq![
            effect::told(
                topic,
                agent_event("request_passkey"@).and("device"@, JsonModel::Text(device@)).and(
                    "passkey"@,
                    JsonModel::Number(JsonNumber::Unsigned(0)),
                ),
            ),
        ],
        AgentCall::DisplayPasskey { passkey, entered, about } => match about {
            Some(about) => seq![
                effect::told(
                    topic,
                    pin_event(about@, text::padded(passkey as nat, 6)).and(
                        "entered"@,
                        JsonModel::Number(JsonNumber::Unsigned(entered as u64)),
                    ),
                ),
            ],
            None => Seq::empty(),
        },
        AgentCall::RequestConfirmation { passkey, about } => match about {
            Some(about) => seq![
                effect::told(topic, pin_event(about@, text::padded(passkey as nat, 6))),
            ],
            None => Seq::empty(),
        },
        AgentCall::RequestAuthorization { device } => seq![
            effect::told("bluetooth.pairing"@, paired_event(device@)),
            effect::told(
                topic,
                agent_event("request_authorization"@).and("device"@, JsonModel::Text(device@)).and(
                    "accepted"@,
                    JsonModel::Bool(true),
                ),
            ),
        ],
        AgentCall::AuthorizeService { device, uuid } => seq![
            effect::told("bluetooth.pairing"@, paired_event(device@)),
            effect::told(
                topic,
                agent_event("authorize_service"@).and("device"@, JsonModel::Text(device@)).and(
                    "uuid"@,
                    JsonModel::Text(uuid@),
                ).and("accepted"@, JsonModel::Bool(true)),
            ),
        ],
        AgentCall::Cancel => seq![effect::told(topic, agent_event("cancel"@))],
    }
}

/// What a call is answered.
pub open spec fn call_reply(call: AgentCall) -> ReplyModel {
    match call {
        AgentCall::RequestPinCode { .. } => ReplyModel::PinCode("0000"@),
        AgentCall::RequestPasskey { .. } => ReplyModel::Passkey(0),
        _ => ReplyModel::Done,
    }
}

fn text_or(s: &Option<String>, other: &str) -> (r: String)
    ensures
        r@ == or_else(text::optional_text(*s), other@),
{
    match s {
        Some(s) => s.clone(),
        None => other.to_owned(),
    }
}

fn pin_json(about: &DeviceAbout, pin: &str) -> (r: Json)
    ensures
        r@ == pin_event(about@, pin@),
{
    let called = text_or(&about.alias, "Unknown Device");
    Json::table().and("address", Json::Text(text_or(&about.address, "unknown"))).and(
        "name",
        Json::Text(text_or(&about.name, called.as_str())),
    ).and("pin", Json::text(pin)).and("type", Json::text("bluetooth_pin"))
}

fn agent_json(event: &str) -> (r: Json)
    ensures
        r@ == agent_event(event@),
{
    Json::table().and("event", Json::text(event))
}

fn paired(device: &str) -> (r: ClientEffect)
    ensures
        r@ == effect::told("bluetooth.pairing"@, paired_event(device@)),
{
    effect::tell(
        "bluetooth.pairing",
        Json::table().and("type", Json::text("pairing_succeeded")).and("device", Json::text(device)),
    )
}

/// Answers a call, and says what the clients are told of it.
pub fn handle_agent_call(call: &AgentCall) -> (r: (AgentReply, Vec<ClientEffect>))
    ensures
        r.0@ == call_reply(*call),
        effect::client_effects(r.1@) == call_effects(*call),
{
    let topic = "bluetooth.agent";
    match call {
        AgentCall::Release => (
            AgentReply::Done,
            effect::one_effect(true, effect::tell(topic, agent_json("release"))),
        ),
        AgentCall::RequestPinCode { device } => (
            AgentReply::PinCode("0000".to_owned()),
            effect::one_effect(
                true,
                effect::tell(
                    topic,
                    agent_json("request_pin_code").and("device", Json::text(device.as_str())).and(
                        "pincode",
                        Json::text("0000"),
                    ),
                ),
            ),
        ),
        AgentCall::DisplayPinCode { pincode, about } => (
            AgentReply::Done,
            match about {
                Some(about) => effect::one_effect(
                    true,
                    effect::tell(topic, pin_json(about, pincode.as_str())),
                ),
                None => effect::no_effects(),
            },
        ),
        AgentCall::RequestPasskey { device } => (
            AgentReply::Passkey(0),
            effect::one_effect(
                true,
                effect::tell(
                    topic,
                    agent_json("request_passkey").and("device", Json::text(device.as_str())).and(
                        "passkey",
                        Json::unsigned(0),
                    ),
                ),
            ),
        ),
        AgentCall::DisplayPasskey { passkey, entered, about } => {
            let pin = text::padded_text(*passkey as u64, 6);
            (
                AgentReply::Done,
                match about {
                    Some(about) => effect::one_effect(
                        true,
                        effect::tell(
                            topic,
                            pin_json(about, pin.as_str()).and(
                                "entered",
                                Json::unsigned(*entered as u64),
                            ),
                        ),
                    ),
                    None => effect::no_effects(),
                },
            )
        },
        AgentCall::RequestConfirmation { passkey, about } => {
            let pin = text::padded_text(*passkey as u64, 6);
            (
                AgentReply::Done,
                match about {
                    Some(about) => effect::one_effect(
                        true,
                        effect::tell(topic, pin_json(about, pin.as_str())),
                    ),
                    None => effect::no_effects(),
                },
            )
        },
        AgentCall::RequestAuthorization { device } => (
            AgentReply::Done,
            effect::two_effects(
                true,
                paired(device.as_str()),
                effect::tell(
                    topic,
                    agent_json("request_authorization").and(
                        "device",
                        Json::text(device.as_str()),
                    ).and("accepted", Json::Bool(true)),
                ),
            ),
        ),
        AgentCall::AuthorizeService { device, uuid } => (
            AgentReply::Done,
            effect::two_effects(
                true,
                paired(device.as_str()),
                effect::tell(
                    topic,
                    agent_json("authorize_service").and("device", Json::text(device.as_str())).and(
                        "uuid",
                        Json::text(uuid.as_str()),
                    ).and("accepted", Json::Bool(true)),
                ),
            ),
        ),
        AgentCall::Cancel => (
            AgentReply::Done,
            effect::one_effect(true, effect::tell(topic, agent_json("cancel"))),
        ),
    }
}

/// The code that is shown for a passkey has six digits at least, and is the passkey when it is
/// read as a number.
pub proof fn law_shown_passkey_is_the_passkey(passkey: u32)
    ensures
        text::padded(passkey as nat, 6).len() >= 6,
        text::u32_value(text::padded(passkey as nat, 6)) == Some(passkey),
{
    text::law_padding_keeps_the_number(passkey as nat, 6);
}

/// A code that is shown comes with the address and the name of the device that it is for, as far as
/// they are known.
pub proof fn law_shown_code_names_the_device(about: AboutModel, pin: Seq<char>)
    ensures
        pin_event(about, pin).text_field("pin"@) == Some(pin),
        pin_event(about, pin).text_field("type"@) == Some("bluetooth_pin"@),
        about.address is Some ==> pin_event(about, pin).text_field("address"@) == about.address,
        about.name is Some ==> pin_event(about, pin).text_field("name"@) == about.name,
        about.name is None && about.alias is Some ==> pin_event(about, pin).text_field("name"@)
            == about.alias,
{
    reveal_strlit("address");
    reveal_strlit("name");
    reveal_strlit("pin");
    reveal_strlit("type");
    assert("address"@.len() == 7 && "name"@.len() == 4 && "pin"@.len() == 3);
    assert("type"@.len() == 4);
    assert("name"@[0] != "type"@[0]);
    let d0 = JsonModel::table();
    crate::json::law_bare_object_has_no_member("address"@);
    crate::json::law_bare_object_has_no_member("name"@);
    crate::json::law_bare_object_has_no_member("pin"@);
    crate::json::law_bare_object_has_no_member("type"@);
    crate::json::law_member_is_found(
        d0,
        "address"@,
        JsonModel::Text(or_else(about.address, "unknown"@)),
    );
    let d1 = d0.and("address"@, JsonModel::Text(or_else(about.address, "unknown"@)));
    crate::json::law_member_is_found(
        d1,
        "name"@,
        JsonModel::Text(or_else(about.name, or_else(about.alias, "Unknown Device"@))),
    );
    let d2 = d1.and(
        "name"@,
        JsonModel::Text(or_else(about.name, or_else(about.alias, "Unknown Device"@))),
    );
    crate::json::law_member_is_found(d2, "pin"@, JsonModel::Text(pin));
    let d3 = d2.and("pin"@, JsonModel::Text(pin));
    crate::json::law_member_is_found(d3, "type"@, JsonModel::Text("bluetooth_pin"@));
    let d4 = d3.and("type"@, JsonModel::Text("bluetooth_pin"@));
    assert(pin_event(about, pin) == d4);
}

/// What a device is answered is what the clients are told that it was answered, and only a call
/// that asks for a code gets one.
pub proof fn law_answered_code_is_told(call: AgentCall)
    ensures
        call_reply(call) matches ReplyModel::PinCode(code) ==> {
            &&& call is RequestPinCode
            &&& call_effects(call).len() == 1
            &&& call_effects(call)[0] matches ClientEffectModel::Broadcast { topic, data }
            &&& data.text_field("pincode"@) == Some(code)
        },
        call_reply(call) matches ReplyModel::Passkey(code) ==> {
            &&& call is RequestPasskey
            &&& call_effects(call).len() == 1
            &&& call_effects(call)[0] matches ClientEffectModel::Broadcast { topic, data }
            &&& data.unsigned_field("passkey"@) matches Some(n) && n == code
        },
        call is RequestPinCode <==> call_reply(call) is PinCode,
        call is RequestPasskey <==> call_reply(call) is Passkey,
        call matches AgentCall::DisplayPinCode { pincode, about: Some(about) } ==> call_effects(
            call,
        ) == seq![effect::told("bluetooth.agent"@, pin_event(about@, pincode@))],
        call matches AgentCall::RequestConfirmation { passkey, about: Some(about) } ==> {
            &&& call_effects(call).len() == 1
            &&& call_effects(call)[0] matches ClientEffectModel::Broadcast { topic, data }
            &&& data.text_field("pin"@) matches Some(code) && text::u32_value(code) == Some(passkey)
        },
        call matches AgentCall::DisplayPasskey { passkey, entered, about: Some(about) } ==> {
            &&& call_effects(call).len() == 1
            &&& call_effects(call)[0] matches ClientEffectModel::Broadcast { topic, data }
            &&& data.text_field("pin"@) matches Some(code) && text::u32_value(code) == Some(passkey)
        },
{
    let zero = JsonModel::Number(JsonNumber::Unsigned(0));
    reveal_strlit("event");
    reveal_strlit("device");
    reveal_strlit("pincode");
    reveal_strlit("passkey");
    reveal_strlit("pin");
    reveal_strlit("entered");
    assert("event"@.len() == 5 && "device"@.len() == 6 && "pincode"@.len() == 7);
    assert("passkey"@.len() == 7 && "pin"@.len() == 3 && "entered"@.len() == 7);
    assert("pincode"@[1] != "passkey"@[1]);
    assert("pincode"@[0] != "entered"@[0]);
    assert("passkey"@[0] != "entered"@[0]);
    match call {
        AgentCall::RequestPinCode { device } => {
            let d0 = JsonModel::table();
            crate::json::law_bare_object_has_no_member("event"@);
            crate::json::law_bare_object_has_no_member("device"@);
            crate::json::law_bare_object_has_no_member("pincode"@);
            crate::json::law_member_is_found(d0, "event"@, JsonModel::Text("request_pin_code"@));
            let d1 = d0.and("event"@, JsonModel::Text("request_pin_code"@));
            crate::json::law_member_is_found(d1, "device"@, JsonModel::Text(device@));
            let d2 = d1.and("device"@, JsonModel::Text(device@));
            crate::json::law_member_is_found(d2, "pincode"@, JsonModel::Text("0000"@));
            let d3 = d2.and("pincode"@, JsonModel::Text("0000"@));
        },
        AgentCall::RequestPasskey { device } => {
            let d0 = JsonModel::table();
            crate::json::law_bare_object_has_no_member("event"@);
            crate::json::law_bare_object_has_no_member("device"@);
            crate::json::law_bare_object_has_no_member("passkey"@);
            crate::json::law_member_is_found(d0, "event"@, JsonModel::Text("request_passkey"@));
            let d1 = d0.and("event"@, JsonModel::Text("request_passkey"@));
            crate::json::law_member_is_found(d1, "device"@, JsonModel::Text(device@));
            let d2 = d1.and("device"@, JsonModel::Text(device@));
            crate::json::law_member_is_found(d2, "passkey"@, zero);
            let d3 = d2.and("passkey"@, zero);
        },
        AgentCall::RequestConfirmation { passkey, about: Some(about) } => {
            law_shown_passkey_is_the_passkey(passkey);
            law_shown_code_names_the_device(about@, text::padded(passkey as nat, 6));
        },
        AgentCall::DisplayPasskey { passkey, entered, about: Some(about) } => {
            law_shown_passkey_is_the_passkey(passkey);
            let shown = pin_event(about@, text::padded(passkey as nat, 6));
            law_shown_code_names_the_device(about@, text::padded(passkey as nat, 6));
            crate::json::law_member_is_found(
                shown,
                "entered"@,
                JsonModel::Number(JsonNumber::Unsigned(entered as u64)),
            );
        },
        _ => {},
    }
}

/// A device that asks to be let in is let in, and the clients are told first that it has paired and
/// then that it was accepted, each time with the device.
pub proof fn law_accepted_device_is_told(call: AgentCall, device: String)
    requires
        call == (AgentCall::RequestAuthorization { device }) || (call matches
            AgentCall::AuthorizeService { device: named, .. } && named == device),
    ensures
        call_reply(call) is Done,
        call_effects(call).len() == 2,
        call_effects(call)[0] matches ClientEffectModel::Broadcast { topic, data } && topic
            == "bluetooth.pairing"@ && data.text_field("device"@) == Some(device@),
        call_effects(call)[1] matches ClientEffectModel::Broadcast { topic, data } && topic
            == "bluetooth.agent"@ && data.text_field("device"@) == Some(device@) && data.flag_field(
            "accepted"@,
        ) == Some(true),
{
    reveal_strlit("event");
    reveal_strlit("device");
    reveal_strlit("type");
    reveal_strlit("accepted");
    reveal_strlit("uuid");
    assert("event"@.len() == 5 && "device"@.len() == 6 && "type"@.len() == 4);
    assert("accepted"@.len() == 8 && "uuid"@.len() == 4);
    assert("type"@[0] != "uuid"@[0]);
    crate::json::law_bare_object_has_no_member("device"@);
    crate::json::law_bare_object_has_no_member("accepted"@);
    let asked = match call {
        AgentCall::RequestAuthorization { .. } => "request_authorization"@,
        _ => "authorize_service"@,
    };
    let paired = JsonModel::Text("pairing_succeeded"@);
    crate::json::law_member_is_found(JsonModel::table(), "type"@, paired);
    crate::json::law_member_is_found(
        JsonModel::table().and("type"@, paired),
        "device"@,
        JsonModel::Text(device@),
    );
    crate::json::law_member_is_found(JsonModel::table(), "event"@, JsonModel::Text(asked));
    let d1 = agent_event(asked);
    crate::json::law_member_is_found(d1, "device"@, JsonModel::Text(device@));
    let d2 = d1.and("device"@, JsonModel::Text(device@));
    crate::json::law_member_is_found(d2, "accepted"@, JsonModel::Bool(true));
    if let AgentCall::AuthorizeService { device: _, uuid } = call {
        crate::json::law_member_is_found(d2, "uuid"@, JsonModel::Text(uuid@));
        let d3 = d2.and("uuid"@, JsonModel::Text(uuid@));
        crate::json::law_member_is_found(d3, "accepted"@, JsonModel::Bool(true));
    }
}

} // verus!
