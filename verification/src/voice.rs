//! What follows when the wake word is heard, and how the recorder and the detector share the
//! microphone.
use crate::app::value;
use crate::audio::{AudioCommand, AudioEvent};
use crate::effect;
use crate::effect::{ClientEffect, ClientEffectModel};
use crate::json::{Json, JsonModel};
use crate::wakeword::{WakeWordCommand, WakeWordEvent};
use vstd::prelude::*;

verus! {

broadcast use crate::json::lemma_json_view;

/// What is done about it.
#[derive(Debug)]
pub enum VoiceAction {
    /// Something for the clients.
    Client(ClientEffect),
    /// Tell the detector something.
    WakeWord(WakeWordCommand),
    /// Tell the recorder something.
    Audio(AudioCommand),
    /// Remember whether the detector is paused.
    RememberMuted(bool),
}

/// What is done about it, apart from how it is stored.
pub enum VoiceActionModel {
    Client(ClientEffectModel),
    WakeWord(WakeWordCommand),
    Audio(AudioCommand),
    RememberMuted(bool),
}

impl View for VoiceAction {
    type V = VoiceActionModel;

    open spec fn view(&self) -> VoiceActionModel {
        match self {
            VoiceAction::Client(e) => VoiceActionModel::Client(e@),
            VoiceAction::WakeWord(c) => VoiceActionModel::WakeWord(*c),
            VoiceAction::Audio(c) => VoiceActionModel::Audio(*c),
            VoiceAction::RememberMuted(m) => VoiceActionModel::RememberMuted(*m),
        }
    }
}

/// The models of what is done.
pub open spec fn voice_actions(actions: Seq<VoiceAction>) -> Seq<VoiceActionModel> {
    actions.map_values(|a: VoiceAction| a@)
}

/// What the clients are told of the wake word.
pub open spec fn wake_event(keyword: Seq<char>, confidence: u32) -> JsonModel {
    JsonModel::table().and("keyword"@, JsonModel::Text(keyword)).and(
        "confidence"@,
        value::single_json(confidence),
    )
}

/// What is done when the detector tells something. The wake word counts unless something plays and
/// the detector is too little sure for that, and where an app is ready to listen.
pub open spec fn wake_actions(
    event: WakeWordEvent,
    playing: bool,
    unsure: bool,
    app_ready: bool,
) -> Seq<VoiceActionModel> {
    match event {
        WakeWordEvent::Detected { keyword, confidence } => if (playing && unsure) || !app_ready {
            Seq::empty()
        } else {
            seq![
                VoiceActionModel::Client(
                    effect::told("voice.wakeword"@, wake_event(keyword@, confidence)),
                ),
                VoiceActionModel::WakeWord(WakeWordCommand::Pause { ack: true, persist: false }),
                VoiceActionModel::Audio(AudioCommand::Start),
            ]
        },
        WakeWordEvent::StateChanged { muted } => seq![VoiceActionModel::RememberMuted(muted)],
    }
}

/// The detector tells something: says what is done. Something may play or not, the detector may be
/// less sure than it has to be while something plays, and an app may be ready or not.
pub fn on_wake_word(event: &WakeWordEvent, playing: bool, unsure: bool, app_ready: bool) -> (r: Vec<
    VoiceAction,
>)
    ensures
        voice_actions(r@) == wake_actions(*event, playing, unsure, app_ready),
{
    let mut out: Vec<VoiceAction> = Vec::new();
    match event {
        WakeWordEvent::Detected { keyword, confidence } => {
            if !(playing && unsure) && app_ready {
                let data = Json::table().and("keyword", Json::text(keyword.as_str())).and(
                    "confidence",
                    value::single_to_json(*confidence),
                );
                out.push(VoiceAction::Client(effect::tell("voice.wakeword", data)));
                out.push(
                    VoiceAction::WakeWord(WakeWordCommand::Pause { ack: true, persist: false }),
                );
                out.push(VoiceAction::Audio(AudioCommand::Start));
            }
        },
        WakeWordEvent::StateChanged { muted } => {
            out.push(VoiceAction::RememberMuted(*muted));
        },
    }
    assert(voice_actions(out@) =~= wake_actions(*event, playing, unsure, app_ready));
    out
}

/// What the detector is told when the recorder tells something: it rests while a recording lasts.
pub open spec fn resting_command(event: AudioEvent) -> Option<WakeWordCommand> {
    match event {
        AudioEvent::Started { .. } => Some(WakeWordCommand::Pause { ack: false, persist: false }),
        AudioEvent::Stopped { .. } => Some(WakeWordCommand::Resume { persist: false }),
        AudioEvent::Data { .. } => None,
        AudioEvent::MicLevel { .. } => None,
    }
}

/// The recorder tells something: says what the detector is told.
pub fn on_audio_event(event: &AudioEvent) -> (r: Option<WakeWordCommand>)
    ensures
        r == resting_command(*event),
{
    match event {
        AudioEvent::Started { .. } => Some(WakeWordCommand::Pause { ack: false, persist: false }),
        AudioEvent::Stopped { .. } => Some(WakeWordCommand::Resume { persist: false }),
        AudioEvent::Data { .. } => None,
        AudioEvent::MicLevel { .. } => None,
    }
}

/// Tells the clients how loud it is. The level is the bit pattern of a single-precision number.
pub fn level_event(level: u32) -> (r: ClientEffect)
    ensures
        r@ == effect::told(
            "audio.level"@,
            JsonModel::table().and("level"@, value::single_json(level)),
        ),
{
    effect::tell("audio.level", Json::table().and("level", value::single_to_json(level)))
}

/// A recording that the wake word starts has the microphone to itself: the detector is told to
/// rest, and is waited for, before the recorder is told to start.
pub proof fn law_detector_rests_before_a_recording(
    event: WakeWordEvent,
    playing: bool,
    unsure: bool,
    app_ready: bool,
    i: int,
)
    requires
        0 <= i < wake_actions(event, playing, unsure, app_ready).len(),
        wake_actions(event, playing, unsure, app_ready)[i] == VoiceActionModel::Audio(
            AudioCommand::Start,
        ),
    ensures
        exists|k: int|
            0 <= k < i && #[trigger] wake_actions(event, playing, unsure, app_ready)[k]
                == VoiceActionModel::WakeWord(WakeWordCommand::Pause { ack: true, persist: false }),
{
    assert(wake_actions(event, playing, unsure, app_ready)[1] == VoiceActionModel::WakeWord(
        WakeWordCommand::Pause { ack: true, persist: false },
    ));
}

/// A wake word counts where an app is ready to listen, unless something plays and the detector is
/// too little sure for that. Then the clients are told, the detector rests and a recording starts;
/// otherwise nothing happens. Whether the detector is muted is remembered in any case.
pub proof fn law_wake_word_starts_a_recording(
    event: WakeWordEvent,
    playing: bool,
    unsure: bool,
    app_ready: bool,
)
    ensures
        ({
            let done = wake_actions(event, playing, unsure, app_ready);
            &&& event is Detected ==> (done.len() == 0 <==> !app_ready || (playing && unsure))
            &&& done.contains(VoiceActionModel::Audio(AudioCommand::Start)) <==> event is Detected
                && app_ready && !(playing && unsure)
            &&& event is Detected && done.len() > 0 ==> done[0] is Client
            &&& event matches WakeWordEvent::StateChanged { muted } ==> done == seq![
                VoiceActionModel::RememberMuted(muted),
            ]
            &&& !done.contains(VoiceActionModel::Audio(AudioCommand::Stop))
        }),
{
    let done = wake_actions(event, playing, unsure, app_ready);
    if event is Detected && app_ready && !(playing && unsure) {
        assert(done[2] == VoiceActionModel::Audio(AudioCommand::Start));
    }
}

/// A recording pauses the detector while it lasts, and no longer. Nobody waits for it then, and
/// nothing of it is remembered for the next start.
pub proof fn law_detector_rests_while_a_recording_lasts(event: AudioEvent)
    ensures
        event is Started ==> (resting_command(event) matches Some(
            WakeWordCommand::Pause { ack, persist },
        ) && !ack && !persist),
        event is Stopped ==> (resting_command(event) matches Some(
            WakeWordCommand::Resume { persist },
        ) && !persist),
        event is Data || event is MicLevel ==> resting_command(event) is None,
{
}

/// The clients are told which word was heard and how sure the detector is.
pub proof fn law_heard_word_is_told(keyword: Seq<char>, confidence: u32)
    ensures
        wake_event(keyword, confidence).text_field("keyword"@) == Some(keyword),
        value::finite_single(confidence) ==> wake_event(keyword, confidence).field("confidence"@)
            == Some(JsonModel::Number(crate::json::JsonNumber::Single(confidence))),
{
    reveal_strlit("keyword");
    reveal_strlit("confidence");
    assert("keyword"@.len() == 7 && "confidence"@.len() == 10);
    let d0 = JsonModel::table();
    crate::json::law_bare_object_has_no_member("keyword"@);
    crate::json::law_bare_object_has_no_member("confidence"@);
    crate::json::law_member_is_found(d0, "keyword"@, JsonModel::Text(keyword));
    let d1 = d0.and("keyword"@, JsonModel::Text(keyword));
    crate::json::law_member_is_found(d1, "confidence"@, value::single_json(confidence));
    let d2 = d1.and("confidence"@, value::single_json(confidence));
    assert(wake_event(keyword, confidence) == d2);
}

} // verus!
