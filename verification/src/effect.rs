//! What is done for the clients about something that happened on a connection.
use crate::json::{Json, JsonModel};
use vstd::prelude::*;

verus! {

/// Something that is done for the clients.
#[derive(Debug)]
pub enum ClientEffect {
    /// Tell them of an event.
    Broadcast { topic: String, data: Json },
    /// Answer a request.
    Respond { id: String, result: Json },
    /// Answer a request with a failure.
    RespondError { id: String, error: String },
    /// Give up on the images that the phone was asked for.
    CancelImageFetches,
    /// Forget what the app said last of itself.
    ClearAppReady,
}

/// Something that is done for the clients, apart from how it is stored.
pub enum ClientEffectModel {
    Broadcast { topic: Seq<char>, data: JsonModel },
    Respond { id: Seq<char>, result: JsonModel },
    RespondError { id: Seq<char>, error: Seq<char> },
    CancelImageFetches,
    ClearAppReady,
}

impl View for ClientEffect {
    type V = ClientEffectModel;

    open spec fn view(&self) -> ClientEffectModel {
        match self {
            ClientEffect::Broadcast { topic, data } => ClientEffectModel::Broadcast {
                topic: topic@,
                data: data@,
            },
            ClientEffect::Respond { id, result } => ClientEffectModel::Respond {
                id: id@,
                result: result@,
            },
            ClientEffect::RespondError { id, error } => ClientEffectModel::RespondError {
                id: id@,
                error: error@,
            },
            ClientEffect::CancelImageFetches => ClientEffectModel::CancelImageFetches,
            ClientEffect::ClearAppReady => ClientEffectModel::ClearAppReady,
        }
    }
}

/// The models of what is done.
pub open spec fn client_effects(effects: Seq<ClientEffect>) -> Seq<ClientEffectModel> {
    effects.map_values(|e: ClientEffect| e@)
}

/// What is done where there are clients.
pub open spec fn where_clients(
    has_websocket: bool,
    effects: Seq<ClientEffectModel>,
) -> Seq<ClientEffectModel> {
    if has_websocket {
        effects
    } else {
        Seq::empty()
    }
}

/// An event for the clients.
pub open spec fn told(topic: Seq<char>, data: JsonModel) -> ClientEffectModel {
    ClientEffectModel::Broadcast { topic, data }
}

/// Tells the clients of an event.
pub fn tell(topic: &str, data: Json) -> (r: ClientEffect)
    ensures
        r@ == told(topic@, data@),
{
    ClientEffect::Broadcast { topic: topic.to_owned(), data }
}

/// Nothing to do.
pub fn no_effects() -> (r: Vec<ClientEffect>)
    ensures
        client_effects(r@) == Seq::<ClientEffectModel>::empty(),
{
    let out: Vec<ClientEffect> = Vec::new();
    assert(client_effects(out@) =~= Seq::<ClientEffectModel>::empty());
    out
}

/// One thing to do, where there are clients.
pub fn one_effect(has_websocket: bool, effect: ClientEffect) -> (r: Vec<ClientEffect>)
    ensures
        client_effects(r@) == where_clients(has_websocket, seq![effect@]),
{
    let mut out: Vec<ClientEffect> = Vec::new();
    if has_websocket {
        out.push(effect);
    }
    assert(client_effects(out@) =~= where_clients(has_websocket, seq![effect@]));
    out
}

/// Two things to do, where there are clients.
pub fn two_effects(has_websocket: bool, first: ClientEffect, second: ClientEffect) -> (r: Vec<
    ClientEffect,
>)
    ensures
        client_effects(r@) == where_clients(has_websocket, seq![first@, second@]),
{
    let mut out: Vec<ClientEffect> = Vec::new();
    if has_websocket {
        out.push(first);
        out.push(second);
    }
    assert(client_effects(out@) =~= where_clients(has_websocket, seq![first@, second@]));
    out
}

} // verus!
