//! The requests of the clients that go to the phone or to the daemon's own devices.
use crate::app::value;
use crate::app::{AppMessage, AppMessageModel};
use crate::audio::AudioCommand;
use crate::buffer;
use crate::error::{ErrorModel, NocturnedError};
use crate::json::{Json, JsonModel};
use crate::text;
use crate::wakeword::WakeWordCommand;
use bytes::Bytes;
use vstd::prelude::*;

verus! {

broadcast use crate::json::lemma_json_view;

/// The methods that are passed on to the phone as they are.
pub open spec fn passed_on(method: Seq<char>) -> bool {
    ||| method == "spotify.auth.getStatus"@
    ||| method == "spotify.artist.get"@
    ||| method == "spotify.artist.topTracks"@
    ||| method == "spotify.album.get"@
    ||| method == "spotify.album.tracks"@
    ||| method == "spotify.playlist.get"@
    ||| method == "spotify.playlist.tracks"@
    ||| method == "spotify.show.get"@
    ||| method == "spotify.show.episodes"@
    ||| method == "spotify.me.profile"@
    ||| method == "spotify.player.state"@
    ||| method == "spotify.player.queue"@
    ||| method == "spotify.player.queue.add"@
    ||| method == "spotify.player.transfer"@
    ||| method == "spotify.player.play"@
    ||| method == "spotify.player.pause"@
    ||| method == "spotify.player.next"@
    ||| method == "spotify.player.previous"@
    ||| method == "spotify.player.seek"@
    ||| method == "spotify.player.volume"@
    ||| method == "spotify.player.shuffle"@
    ||| method == "spotify.player.repeat"@
    ||| method == "spotify.me.tracks"@
    ||| method == "spotify.me.tracks.contains"@
    ||| method == "spotify.me.tracks.save"@
    ||| method == "spotify.me.tracks.remove"@
    ||| method == "spotify.me.playlists"@
    ||| method == "spotify.me.shows"@
    ||| method == "spotify.me.shows.save"@
    ||| method == "spotify.me.shows.remove"@
    ||| method == "spotify.me.shows.contains"@
    ||| method == "spotify.me.topArtists"@
    ||| method == "spotify.me.topTracks"@
    ||| method == "spotify.me.recentlyPlayed"@
    ||| method == "spotify.devices"@
    ||| method == "spotify.radio.mixes"@
    ||| method == "spotify.radio.playlist"@
    ||| method == "spotify.radio.topMix"@
    ||| method == "spotify.radio.discoveries"@
    ||| method == "spotify.track.lyrics"@
    ||| method == "spotify.player.speed"@
    ||| method == "spotify.dj.start"@
    ||| method == "spotify.dj.signal"@
    ||| method == "device.timezone.get"@
    ||| method == "device.time.get"@
    ||| method == "tts.speak"@
    ||| method == "tts.stop"@
    ||| method == "voice.cancel"@
    ||| method == "onboarding.set_state"@
}

/// Whether a method is passed on to the phone as it is.
pub fn is_passed_on(method: &str) -> (r: bool)
    ensures
        r == passed_on(method@),
{
    text::same(method, "spotify.auth.getStatus")
        || text::same(method, "spotify.artist.get")
        || text::same(method, "spotify.artist.topTracks")
        || text::same(method, "spotify.album.get")
        || text::same(method, "spotify.album.tracks")
        || text::same(method, "spotify.playlist.get")
        || text::same(method, "spotify.playlist.tracks")
        || text::same(method, "spotify.show.get")
        || text::same(method, "spotify.show.episodes")
        || text::same(method, "spotify.me.profile")
        || text::same(method, "spotify.player.state")
        || text::same(method, "spotify.player.queue")
        || text::same(method, "spotify.player.queue.add")
        || text::same(method, "spotify.player.transfer")
        || text::same(method, "spotify.player.play")
        || text::same(method, "spotify.player.pause")
        || text::same(method, "spotify.player.next")
        || text::same(method, "spotify.player.previous")
        || text::same(method, "spotify.player.seek")
        || text::same(method, "spotify.player.volume")
        || text::same(method, "spotify.player.shuffle")
        || text::same(method, "spotify.player.repeat")
        || text::same(method, "spotify.me.tracks")
        || text::same(method, "spotify.me.tracks.contains")
        || text::same(method, "spotify.me.tracks.save")
        || text::same(method, "spotify.me.tracks.remove")
        || text::same(method, "spotify.me.playlists")
        || text::same(method, "spotify.me.shows")
        || text::same(method, "spotify.me.shows.save")
        || text::same(method, "spotify.me.shows.remove")
        || text::same(method, "spotify.me.shows.contains")
        || text::same(method, "spotify.me.topArtists")
        || text::same(method, "spotify.me.topTracks")
        || text::same(method, "spotify.me.recentlyPlayed")
        || text::same(method, "spotify.devices")
        || text::same(method, "spotify.radio.mixes")
        || text::same(method, "spotify.radio.playlist")
        || text::same(method, "spotify.radio.topMix")
        || text::same(method, "spotify.radio.discoveries")
        || text::same(method, "spotify.track.lyrics")
        || text::same(method, "spotify.player.speed")
        || text::same(method, "spotify.dj.start")
        || text::same(method, "spotify.dj.signal")
        || text::same(method, "device.timezone.get")
        || text::same(method, "device.time.get")
        || text::same(method, "tts.speak")
        || text::same(method, "tts.stop")
        || text::same(method, "voice.cancel")
        || text::same(method, "onboarding.set_state")
}

/// What is to be done about a request.
#[derive(Debug)]
pub enum RequestAction {
    /// Tell the recorder.
    Record(AudioCommand),
    /// Tell the detector of the wake word.
    WakeWord(WakeWordCommand),
    /// Answer the request.
    Respond { id: String, result: Json },
    /// Look for an image that is kept, and go on with what was found.
    LookUpImage { url: String, params: Json },
    /// Pass the request on to the phone.
    Forward { request: Json },
}

/// What is to be done about a request, apart from how it is stored.
pub enum RequestActionModel {
    Record(AudioCommand),
    WakeWord(WakeWordCommand),
    Respond { id: Seq<char>, result: JsonModel },
    LookUpImage { url: Seq<char>, params: JsonModel },
    Forward { request: JsonModel },
}

impl View for RequestAction {
    type V = RequestActionModel;

    open spec fn view(&self) -> RequestActionModel {
        match self {
            RequestAction::Record(c) => RequestActionModel::Record(*c),
            RequestAction::WakeWord(c) => RequestActionModel::WakeWord(*c),
            RequestAction::Respond { id, result } => RequestActionModel::Respond {
                id: id@,
                result: result@,
            },
            RequestAction::LookUpImage { url, params } => RequestActionModel::LookUpImage {
                url: url@,
                params: params@,
            },
            RequestAction::Forward { request } => RequestActionModel::Forward {
                request: request@,
            },
        }
    }
}

/// The models of what is to be done.
pub open spec fn request_actions(actions: Seq<RequestAction>) -> Seq<RequestActionModel> {
    actions.map_values(|a: RequestAction| a@)
}

/// One thing to do, where it applies.
pub open spec fn action_if(applies: bool, action: RequestActionModel) -> Seq<RequestActionModel> {
    if applies {
        seq![action]
    } else {
        Seq::empty()
    }
}

/// A request as it is passed on.
pub open spec fn forward_request(method: Seq<char>, params: JsonModel) -> JsonModel {
    JsonModel::table().and("method"@, JsonModel::Text(method)).and("params"@, params)
}

/// The parameters of a request, null where it has none.
pub open spec fn params_of(doc: JsonModel) -> JsonModel {
    match doc.field("params"@) {
        Some(p) => p,
        None => JsonModel::Null,
    }
}

/// An answer that says how something stands.
pub open spec fn status(s: Seq<char>) -> JsonModel {
    JsonModel::table().and("status"@, JsonModel::Text(s))
}

fn status_json(s: &str) -> (r: Json)
    ensures
        r@ == status(s@),
{
    Json::table().and("status", Json::text(s))
}

/// What handles the requests. Clients, a recorder and a detector are there or not.
#[derive(Clone, Copy, Debug, PartialEq, Eq, Structural)]
pub struct WebSocketProtocolHandler {
    pub has_websocket: bool,
    pub has_audio: bool,
    pub has_wakeword: bool,
}

impl WebSocketProtocolHandler {
    /// What is to be done about a request.
    pub open spec fn request_handled(self, id: Seq<char>, doc: JsonModel) -> Seq<
        RequestActionModel,
    > {
        match doc.text_field("method"@) {
            None => Seq::empty(),
            Some(method) => if method == "spotify.image.fetch"@ {
                match params_of(doc).text_field("url"@) {
                    Some(url) => seq![
                        RequestActionModel::LookUpImage { url, params: params_of(doc) },
                    ],
                    None => seq![
                        RequestActionModel::Forward {
                            request: forward_request(method, params_of(doc)),
                        },
                    ],
                }
            } else if passed_on(method) {
                seq![
                    RequestActionModel::Forward {
                        request: forward_request(method, params_of(doc)),
                    },
                ]
            } else if method == "audio.record.start"@ {
                action_if(self.has_audio, RequestActionModel::Record(AudioCommand::Start))
                    + action_if(
                    self.has_websocket,
                    RequestActionModel::Respond { id, result: status("recording"@) },
                )
            } else if method == "audio.record.stop"@ {
                action_if(self.has_audio, RequestActionModel::Record(AudioCommand::Stop))
                    + action_if(
                    self.has_websocket,
                    RequestActionModel::Respond { id, result: status("idle"@) },
                )
            } else if method == "wakeword.pause"@ {
                action_if(
                    self.has_wakeword,
                    RequestActionModel::WakeWord(
                        WakeWordCommand::Pause { ack: false, persist: true },
                    ),
                ) + action_if(
                    self.has_websocket,
                    RequestActionModel::Respond { id, result: status("paused"@) },
                )
            } else if method == "wakeword.resume"@ {
                action_if(
                    self.has_wakeword,
                    RequestActionModel::WakeWord(WakeWordCommand::Resume { persist: true }),
                ) + action_if(
                    self.has_websocket,
                    RequestActionModel::Respond { id, result: status("resumed"@) },
                )
            } else {
                action_if(
                    self.has_websocket,
                    RequestActionModel::Respond {
                        id,
                        result: JsonModel::table().and(
                            "error"@,
                            JsonModel::Text("Unknown method: "@ + method),
                        ),
                    },
                )
            },
        }
    }

    /// What is to be done once it is known whether an image is kept: it is handed to the clients,
    /// or the phone is asked for it.
    pub open spec fn image_handled(
        self,
        id: Seq<char>,
        url: Seq<char>,
        params: JsonModel,
        found: Option<Seq<char>>,
    ) -> Seq<RequestActionModel> {
        match found {
            Some(data) => action_if(
                self.has_websocket,
                RequestActionModel::Respond {
                    id,
                    result: JsonModel::table().and("url"@, JsonModel::Text(url)).and(
                        "data"@,
                        JsonModel::Text(data),
                    ).and("contentType"@, JsonModel::Text("image/jpeg"@)),
                },
            ),
            None => seq![
                RequestActionModel::Forward {
                    request: forward_request("spotify.image.fetch"@, params),
                },
            ],
        }
    }

    /// A handler without recorder and detector.
    pub fn new_with_cache(has_websocket: bool) -> (r: WebSocketProtocolHandler)
        ensures
            r == (WebSocketProtocolHandler {
                has_websocket,
                has_audio: false,
                has_wakeword: false,
            }),
    {
        WebSocketProtocolHandler { has_websocket, has_audio: false, has_wakeword: false }
    }

    /// A recorder is there.
    pub fn set_audio_cmd_tx(&mut self)
        ensures
            *final(self) == (WebSocketProtocolHandler { has_audio: true, ..*old(self) }),
    {
        self.has_audio = true;
    }

    /// A detector of the wake word is there.
    pub fn set_wakeword_pause_tx(&mut self)
        ensures
            *final(self) == (WebSocketProtocolHandler { has_wakeword: true, ..*old(self) }),
    {
        self.has_wakeword = true;
    }

    /// The protocol's name.
    pub fn protocol_name(&self) -> (r: &str)
        ensures
            r@ == "websocket.message"@,
    {
        "websocket.message"
    }

    /// Handles a message: says what is to be done about the request in it. Bytes that are no
    /// document are a failure.
    pub fn handle_message(&self, message: &AppMessage) -> (r: Result<
        Vec<RequestAction>,
        NocturnedError,
    >)
        ensures
            match value::json_read(message@.data) {
                Ok(doc) => r matches Ok(actions) && request_actions(actions@)
                    == self.request_handled(message@.id, doc),
                Err(fault) => r matches Err(e) && e@ == ErrorModel::Json(fault),
            },
    {
        match value::read_json(buffer::bytes_slice(&message.data)) {
            Ok(doc) => Ok(self.handle_request(message.id.as_str(), &doc)),
            Err(e) => Err(e),
        }
    }

    /// Says what is to be done about a request.
    pub fn handle_request(&self, id: &str, doc: &Json) -> (r: Vec<RequestAction>)
        ensures
            request_actions(r@) == self.request_handled(id@, doc@),
    {
        let mut actions: Vec<RequestAction> = Vec::new();
        let method = match doc.get_str("method") {
            Some(m) => m,
            None => {
                assert(request_actions(actions@) =~= self.request_handled(id@, doc@));
                return actions;
            },
        };
        let params = match doc.get("params") {
            Some(p) => p.clone(),
            None => Json::Null,
        };
        assert(params@ == params_of(doc@));
        let mut answer: Option<Json> = None;
        if text::same(method, "spotify.image.fetch") {
            let url = match params.get_str("url") {
                Some(url) => Some(url.to_owned()),
                None => None,
            };
            match url {
                Some(url) => {
                    actions.push(RequestAction::LookUpImage { url, params });
                },
                None => {
                    let request = Json::table().and("method", Json::text(method)).and(
                        "params",
                        params,
                    );
                    actions.push(RequestAction::Forward { request });
                },
            }
        } else if is_passed_on(method) {
            let request = Json::table().and("method", Json::text(method)).and("params", params);
            actions.push(RequestAction::Forward { request });
        } else if text::same(method, "audio.record.start") {
            if self.has_audio {
                actions.push(RequestAction::Record(AudioCommand::Start));
            }
            answer = Some(status_json("recording"));
        } else if text::same(method, "audio.record.stop") {
            if self.has_audio {
                actions.push(RequestAction::Record(AudioCommand::Stop));
            }
            answer = Some(status_json("idle"));
        } else if text::same(method, "wakeword.pause") {
            if self.has_wakeword {
                actions.push(
                    RequestAction::WakeWord(WakeWordCommand::Pause { ack: false, persist: true }),
                );
            }
            answer = Some(status_json("paused"));
        } else if text::same(method, "wakeword.resume") {
            if self.has_wakeword {
                actions.push(RequestAction::WakeWord(WakeWordCommand::Resume { persist: true }));
            }
            answer = Some(status_json("resumed"));
        } else {
            let error = text::joined("Unknown method: ", method);
            answer = Some(Json::table().and("error", Json::Text(error)));
        }
        if let Some(result) = answer {
            if self.has_websocket {
                actions.push(RequestAction::Respond { id: id.to_owned(), result });
            }
        }
        assert(request_actions(actions@) =~= self.request_handled(id@, doc@));
        actions
    }

    /// Says what is to be done once it is known whether an image is kept.
    pub fn image_looked_up(&self, id: &str, url: &str, params: Json, found: Option<String>) -> (r:
        Vec<RequestAction>)
        ensures
            request_actions(r@) == self.image_handled(
                id@,
                url@,
                params@,
                text::optional_text(found),
            ),
    {
        let ghost goal = self.image_handled(id@, url@, params@, text::optional_text(found));
        let mut actions: Vec<RequestAction> = Vec::new();
        match found {
            Some(data) => {
                if self.has_websocket {
                    let result = Json::table().and("url", Json::text(url)).and(
                        "data",
                        Json::Text(data),
                    ).and("contentType", Json::text("image/jpeg"));
                    actions.push(RequestAction::Respond { id: id.to_owned(), result });
                }
            },
            None => {
                let request = Json::table().and("method", Json::text("spotify.image.fetch")).and(
                    "params",
                    params,
                );
                actions.push(RequestAction::Forward { request });
            },
        }
        assert(request_actions(actions@) =~= goal);
        actions
    }
}

/// Makes the message that passes a request on to the phone, out of the bytes of the request.
pub fn forwarded(message: &AppMessage, data: Bytes) -> (r: AppMessage)
    ensures
        r@ == (AppMessageModel {
            id: message@.id,
            protocol: "com.usenocturne.daemon"@,
            session_id: message@.session_id,
            data: buffer::payload(data),
        }),
{
    AppMessage {
        id: message.id.clone(),
        protocol: "com.usenocturne.daemon".to_owned(),
        session_id: message.session_id,
        data,
    }
}

/// A request for an image that is kept is answered and not passed on.
pub proof fn law_kept_image_is_not_asked_for(
    handler: WebSocketProtocolHandler,
    id: Seq<char>,
    url: Seq<char>,
    params: JsonModel,
    data: Seq<char>,
)
    ensures
        forall|i: int|
            0 <= i < handler.image_handled(id, url, params, Some(data)).len() ==> !((
            #[trigger] handler.image_handled(id, url, params, Some(data))[i]) is Forward),
{
}

/// A request that is passed on to the phone is passed on as it is, with its method and its
/// parameters, and nothing else is done about it. Whatever is answered is answered under the id of
/// the request.
pub proof fn law_request_is_passed_on_as_it_is(
    handler: WebSocketProtocolHandler,
    id: Seq<char>,
    doc: JsonModel,
    i: int,
)
    requires
        0 <= i < handler.request_handled(id, doc).len(),
    ensures
        ({
            let done = handler.request_handled(id, doc);
            &&& done[i] matches RequestActionModel::Forward { request } ==> {
                &&& done.len() == 1
                &&& request.text_field("method"@) == doc.text_field("method"@)
                &&& request.field("params"@) == Some(params_of(doc))
            }
            &&& done[i] matches RequestActionModel::Respond { id: answered, .. } ==> answered == id
                && handler.has_websocket && i == done.len() - 1
            &&& done[i] matches RequestActionModel::LookUpImage { url, params } ==> {
                &&& done.len() == 1
                &&& doc.text_field("method"@) == Some("spotify.image.fetch"@)
                &&& params_of(doc).text_field("url"@) == Some(url)
                &&& params == params_of(doc)
            }
        }),
{
    if let Some(method) = doc.text_field("method"@) {
        law_forwarded_request(method, params_of(doc));
    }
}

/// A request as it is passed on has the method and the parameters that it had.
pub proof fn law_forwarded_request(method: Seq<char>, params: JsonModel)
    ensures
        forward_request(method, params).text_field("method"@) == Some(method),
        forward_request(method, params).field("params"@) == Some(params),
{
    reveal_strlit("method");
    reveal_strlit("params");
    assert("method"@.len() == 6 && "params"@.len() == 6);
    assert("method"@[0] != "params"@[0]);
    let d0 = JsonModel::table();
    crate::json::law_bare_object_has_no_member("method"@);
    crate::json::law_bare_object_has_no_member("params"@);
    crate::json::law_member_is_found(d0, "method"@, JsonModel::Text(method));
    let d1 = d0.and("method"@, JsonModel::Text(method));
    crate::json::law_member_is_found(d1, "params"@, params);
    let d2 = d1.and("params"@, params);
    assert(forward_request(method, params) == d2);
}

/// Every request with a method leads to an answer, to a look for its image or to the phone, where
/// there are clients, and the recorder and the detector are told what the request says.
pub proof fn law_recorder_and_detector_do_as_asked(
    handler: WebSocketProtocolHandler,
    id: Seq<char>,
    doc: JsonModel,
)
    requires
        handler.has_audio,
        handler.has_wakeword,
        handler.has_websocket,
    ensures
        ({
            let method = doc.text_field("method"@);
            let done = handler.request_handled(id, doc);
            &&& done.len() == 0 <==> method is None
            &&& done.contains(RequestActionModel::Record(AudioCommand::Start)) <==> method == Some(
                "audio.record.start"@,
            )
            &&& done.contains(RequestActionModel::Record(AudioCommand::Stop)) <==> method == Some(
                "audio.record.stop"@,
            )
            &&& forall|ack: bool, persist: bool| #[trigger]
                done.contains(
                    RequestActionModel::WakeWord(WakeWordCommand::Pause { ack, persist }),
                ) <==> method == Some("wakeword.pause"@) && persist && !ack
            &&& forall|persist: bool| #[trigger]
                done.contains(RequestActionModel::WakeWord(WakeWordCommand::Resume { persist }))
                    <==> method == Some("wakeword.resume"@) && persist
        }),
{
    reveal_strlit("spotify.image.fetch");
    reveal_strlit("audio.record.start");
    reveal_strlit("audio.record.stop");
    reveal_strlit("wakeword.pause");
    reveal_strlit("wakeword.resume");
    assert("spotify.image.fetch"@.len() == 19 && "audio.record.start"@.len() == 18);
    assert("audio.record.stop"@.len() == 17);
    assert("wakeword.pause"@.len() == 14 && "wakeword.resume"@.len() == 15);
    lemma_own_methods_are_not_passed_on();
    let done = handler.request_handled(id, doc);
    if let Some(method) = doc.text_field("method"@) {
        if method == "audio.record.start"@ {
            assert(done[0] == RequestActionModel::Record(AudioCommand::Start));
        } else if method == "audio.record.stop"@ {
            assert(done[0] == RequestActionModel::Record(AudioCommand::Stop));
        } else if method == "wakeword.pause"@ {
            assert(done[0] == RequestActionModel::WakeWord(
                WakeWordCommand::Pause { ack: false, persist: true },
            ));
        } else if method == "wakeword.resume"@ {
            assert(done[0] == RequestActionModel::WakeWord(
                WakeWordCommand::Resume { persist: true },
            ));
        }
    }
}

proof fn lemma_own_methods_are_not_passed_on()
    ensures
        !passed_on("audio.record.start"@),
        !passed_on("audio.record.stop"@),
        !passed_on("wakeword.pause"@),
        !passed_on("wakeword.resume"@),
{
    reveal_strlit("audio.record.start");
    reveal_strlit("audio.record.stop");
    reveal_strlit("wakeword.pause");
    reveal_strlit("wakeword.resume");
    reveal_strlit("spotify.auth.getStatus");
    reveal_strlit("spotify.artist.get");
    reveal_strlit("spotify.artist.topTracks");
    reveal_strlit("spotify.album.get");
    reveal_strlit("spotify.album.tracks");
    reveal_strlit("spotify.playlist.get");
    reveal_strlit("spotify.playlist.tracks");
    reveal_strlit("spotify.show.get");
    reveal_strlit("spotify.show.episodes");
    reveal_strlit("spotify.me.profile");
    reveal_strlit("spotify.player.state");
    reveal_strlit("spotify.player.queue");
    reveal_strlit("spotify.player.queue.add");
    reveal_strlit("spotify.player.transfer");
    reveal_strlit("spotify.player.play");
    reveal_strlit("spotify.player.pause");
    reveal_strlit("spotify.player.next");
    reveal_strlit("spotify.player.previous");
    reveal_strlit("spotify.player.seek");
    reveal_strlit("spotify.player.volume");
    reveal_strlit("spotify.player.shuffle");
    reveal_strlit("spotify.player.repeat");
    reveal_strlit("spotify.me.tracks");
    reveal_strlit("spotify.me.tracks.contains");
    reveal_strlit("spotify.me.tracks.save");
    reveal_strlit("spotify.me.tracks.remove");
    reveal_strlit("spotify.me.playlists");
    reveal_strlit("spotify.me.shows");
    reveal_strlit("spotify.me.shows.save");
    reveal_strlit("spotify.me.shows.remove");
    reveal_strlit("spotify.me.shows.contains");
    reveal_strlit("spotify.me.topArtists");
    reveal_strlit("spotify.me.topTracks");
    reveal_strlit("spotify.me.recentlyPlayed");
    reveal_strlit("spotify.devices");
    reveal_strlit("spotify.radio.mixes");
    reveal_strlit("spotify.radio.playlist");
    reveal_strlit("spotify.radio.topMix");
    reveal_strlit("spotify.radio.discoveries");
    reveal_strlit("spotify.track.lyrics");
    reveal_strlit("spotify.player.speed");
    reveal_strlit("spotify.dj.start");
    reveal_strlit("spotify.dj.signal");
    reveal_strlit("device.timezone.get");
    reveal_strlit("device.time.get");
    reveal_strlit("tts.speak");
    reveal_strlit("tts.stop");
    reveal_strlit("voice.cancel");
    reveal_strlit("onboarding.set_state");
    assert("audio.record.start"@[0] == 'a' && "audio.record.stop"@[0] == 'a');
    assert("wakeword.pause"@[0] == 'w' && "wakeword.resume"@[0] == 'w');
    assert forall|method: Seq<char>| #[trigger] passed_on(method) implies method[0] != 'a' && method[0]
        != 'w' by {}
}

} // verus!
