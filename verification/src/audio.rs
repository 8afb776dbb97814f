//! Recording of speech: when it starts and stops, and what is told of it.
use crate::error::{ErrorModel, NocturnedError};
use crate::pcm;
use crate::text;
use vstd::prelude::*;

verus! {

/// The bytes of one frame of sound.
pub const PCM_FRAME_BYTES: usize = 1920;

/// The samples of one frame of sound.
pub const PCM_FRAME_SAMPLES: usize = 960;

/// The most that the squares of the samples of a frame add up to where the frame is quiet: where
/// the root of their mean, in single precision, is below 300.
pub const QUIET_ENERGY: u64 = 86_399_991;

/// How long it must be quiet, in nanoseconds, for a recording to end.
pub const SILENCE_DURATION: u64 = 1_500_000_000;

/// How long, in nanoseconds, quiet does not count after the first frame.
pub const SILENCE_GRACE_PERIOD: u64 = 1_500_000_000;

/// What is told of a recording.
#[derive(Debug)]
pub enum AudioEvent {
    Started { sample_rate: u32, channels: u8, frame_ms: u16 },
    Data { seq: u64, opus_data: Vec<u8>, timestamp_ms: u64 },
    Stopped { reason: String, total_frames: u64 },
    /// How loud a frame is, as the sum of the squares of its samples.
    MicLevel { energy: u64 },
}

/// What is told of a recording, apart from how it is stored.
pub enum AudioEventModel {
    Started { sample_rate: u32, channels: u8, frame_ms: u16 },
    Data { seq: u64, opus_data: Seq<u8>, timestamp_ms: u64 },
    Stopped { reason: Seq<char>, total_frames: u64 },
    MicLevel { energy: u64 },
}

impl View for AudioEvent {
    type V = AudioEventModel;

    open spec fn view(&self) -> AudioEventModel {
        match self {
            AudioEvent::Started { sample_rate, channels, frame_ms } => AudioEventModel::Started {
                sample_rate: *sample_rate,
                channels: *channels,
                frame_ms: *frame_ms,
            },
            AudioEvent::Data { seq, opus_data, timestamp_ms } => AudioEventModel::Data {
                seq: *seq,
                opus_data: opus_data@,
                timestamp_ms: *timestamp_ms,
            },
            AudioEvent::Stopped { reason, total_frames } => AudioEventModel::Stopped {
                reason: reason@,
                total_frames: *total_frames,
            },
            AudioEvent::MicLevel { energy } => AudioEventModel::MicLevel { energy: *energy },
        }
    }
}

/// What the recorder is told to do.
#[derive(Clone, Copy, Debug, PartialEq, Eq, Structural)]
pub enum AudioCommand {
    Start,
    Stop,
}

/// The format of the sound.
#[derive(Clone, Copy, Debug, PartialEq, Eq, Structural)]
pub struct AudioConfig {
    pub sample_rate: u32,
    pub channels: u8,
    pub frame_duration_ms: u16,
}

impl Default for AudioConfig {
    fn default() -> (r: AudioConfig)
        ensures
            r == default_config(),
    {
        AudioConfig { sample_rate: 16_000, channels: 1, frame_duration_ms: 60 }
    }
}

/// The format that is recorded.
pub open spec fn default_config() -> AudioConfig {
    AudioConfig { sample_rate: 16_000, channels: 1, frame_duration_ms: 60 }
}

/// Holds a format against what can be recorded.
pub fn validate_config(config: AudioConfig) -> (r: Result<(), NocturnedError>)
    ensures
        match r {
            Ok(_) => config == default_config(),
            Err(e) => config != default_config() && e@ == ErrorModel::General(
                "audio capture only supports 16kHz mono 60ms frames"@,
            ),
        },
{
    if config.sample_rate != 16_000 || config.channels != 1 || config.frame_duration_ms != 60 {
        return Err(
            NocturnedError::General(
                "audio capture only supports 16kHz mono 60ms frames".to_owned(),
            ),
        );
    }
    Ok(())
}

/// Whether a recording is on.
#[derive(Clone, Copy, Debug, PartialEq, Eq, Structural)]
pub enum CaptureState {
    Idle,
    Recording,
}

/// The state after a command.
pub open spec fn applied(state: CaptureState, cmd: AudioCommand) -> CaptureState {
    match (state, cmd) {
        (CaptureState::Idle, AudioCommand::Start) => CaptureState::Recording,
        (CaptureState::Recording, AudioCommand::Stop) => CaptureState::Idle,
        _ => state,
    }
}

impl CaptureState {
    /// The state after a command.
    pub fn apply(self, cmd: AudioCommand) -> (r: CaptureState)
        ensures
            r == applied(self, cmd),
    {
        match self {
            CaptureState::Idle => match cmd {
                AudioCommand::Start => CaptureState::Recording,
                AudioCommand::Stop => CaptureState::Idle,
            },
            CaptureState::Recording => match cmd {
                AudioCommand::Start => CaptureState::Recording,
                AudioCommand::Stop => CaptureState::Idle,
            },
        }
    }
}

/// What happens to the recorder.
#[derive(Clone, Copy, Debug, PartialEq, Eq, Structural)]
pub enum CaptureInput {
    Command(AudioCommand),
    /// No more commands will come.
    CommandsClosed,
    /// The recording that was on has ended by itself.
    RecordingDone,
}

/// What the recorder does.
#[derive(Clone, Copy, Debug, PartialEq, Eq, Structural)]
pub enum CaptureAction {
    Nothing,
    StartRecording,
    /// Ask the recording to stop, and wait for its end.
    StopRecording,
    /// Wait for the end of the recording.
    FinishRecording,
    End,
    /// Ask the recording to stop, wait for its end, and end.
    StopRecordingAndEnd,
}

/// What the recorder does, and whether a recording is on then.
pub open spec fn capture_step(state: CaptureState, input: CaptureInput) -> (
    CaptureState,
    CaptureAction,
) {
    match (state, input) {
        (CaptureState::Idle, CaptureInput::Command(AudioCommand::Start)) => (
            CaptureState::Recording,
            CaptureAction::StartRecording,
        ),
        (CaptureState::Recording, CaptureInput::Command(AudioCommand::Stop)) => (
            CaptureState::Idle,
            CaptureAction::StopRecording,
        ),
        (CaptureState::Recording, CaptureInput::RecordingDone) => (
            CaptureState::Idle,
            CaptureAction::FinishRecording,
        ),
        (CaptureState::Idle, CaptureInput::CommandsClosed) => (
            CaptureState::Idle,
            CaptureAction::End,
        ),
        (CaptureState::Recording, CaptureInput::CommandsClosed) => (
            CaptureState::Idle,
            CaptureAction::StopRecordingAndEnd,
        ),
        _ => (state, CaptureAction::Nothing),
    }
}

/// The recorder.
#[derive(Debug)]
pub struct AudioCapture {
    pub config: AudioConfig,
    pub state: CaptureState,
}

impl AudioCapture {
    /// A recorder that is idle.
    pub fn new() -> (r: AudioCapture)
        ensures
            r == (AudioCapture { config: default_config(), state: CaptureState::Idle }),
    {
        AudioCapture { config: AudioConfig::default(), state: CaptureState::Idle }
    }

    /// Says what the recorder does about what happens to it.
    pub fn run(&mut self, input: CaptureInput) -> (r: CaptureAction)
        ensures
            (final(self).state, r) == capture_step(old(self).state, input),
            final(self).config == old(self).config,
    {
        match input {
            CaptureInput::Command(AudioCommand::Start) => {
                if self.state == CaptureState::Recording {
                    return CaptureAction::Nothing;
                }
                self.state = self.state.apply(AudioCommand::Start);
                CaptureAction::StartRecording
            },
            CaptureInput::Command(AudioCommand::Stop) => {
                if self.state == CaptureState::Idle {
                    return CaptureAction::Nothing;
                }
                self.state = self.state.apply(AudioCommand::Stop);
                CaptureAction::StopRecording
            },
            CaptureInput::CommandsClosed => {
                if self.state == CaptureState::Idle {
                    return CaptureAction::End;
                }
                self.state = CaptureState::Idle;
                CaptureAction::StopRecordingAndEnd
            },
            CaptureInput::RecordingDone => {
                if self.state == CaptureState::Idle {
                    return CaptureAction::Nothing;
                }
                self.state = CaptureState::Idle;
                CaptureAction::FinishRecording
            },
        }
    }
}

/// The recorder follows its commands as the states do: a recording starts only where none is on,
/// and stops only where one is.
pub proof fn law_commands_move_the_recorder(state: CaptureState, cmd: AudioCommand)
    ensures
        capture_step(state, CaptureInput::Command(cmd)).0 == applied(state, cmd),
        capture_step(state, CaptureInput::Command(cmd)).1 == CaptureAction::StartRecording <==> (
        state == CaptureState::Idle && cmd == AudioCommand::Start),
        capture_step(state, CaptureInput::Command(cmd)).1 == CaptureAction::StopRecording <==> (
        state == CaptureState::Recording && cmd == AudioCommand::Stop),
{
}

/// A recording that is on. Times are in nanoseconds from any origin.
#[derive(Clone, Copy, Debug, PartialEq, Eq, Structural)]
pub struct Recording {
    pub config: AudioConfig,
    /// The number of the next frame that is sent.
    pub seq: u64,
    /// How many frames were sent.
    pub total_frames: u64,
    pub started_sent: bool,
    pub first_frame_at: Option<u64>,
    pub silence_start: Option<u64>,
    /// How many frames were heard.
    pub mic_level_counter: u64,
}

/// What is done with a frame once it is heard.
#[derive(Debug)]
pub enum FrameDecision {
    /// Encode the frame and send it.
    Encode,
    /// End the recording.
    Stop(AudioEvent),
}

/// What is done with a frame, apart from how it is stored.
pub enum FrameDecisionModel {
    Encode,
    Stop(AudioEventModel),
}

impl View for FrameDecision {
    type V = FrameDecisionModel;

    open spec fn view(&self) -> FrameDecisionModel {
        match self {
            FrameDecision::Encode => FrameDecisionModel::Encode,
            FrameDecision::Stop(e) => FrameDecisionModel::Stop(e@),
        }
    }
}

/// The models of events.
pub open spec fn event_models(events: Seq<AudioEvent>) -> Seq<AudioEventModel> {
    events.map_values(|e: AudioEvent| e@)
}

/// The time from one moment to another, none where the other is earlier.
pub open spec fn time_since(now: u64, earlier: u64) -> u64 {
    if now < earlier {
        0
    } else {
        (now - earlier) as u64
    }
}

fn elapsed(now: u64, earlier: u64) -> (r: u64)
    ensures
        r == time_since(now, earlier),
{
    if now < earlier {
        0
    } else {
        now - earlier
    }
}

impl Recording {
    /// The time of the first frame, once a frame is heard.
    pub open spec fn first_frame(self, now: u64) -> u64 {
        match self.first_frame_at {
            Some(t) => t,
            None => now,
        }
    }

    /// Whether quiet does not count yet.
    pub open spec fn in_grace(self, now: u64) -> bool {
        time_since(now, self.first_frame(now)) < SILENCE_GRACE_PERIOD
    }

    /// Since when it is quiet, once a frame is heard.
    pub open spec fn quiet_since(self, now: u64, energy: u64) -> Option<u64> {
        if self.in_grace(now) || energy > QUIET_ENERGY {
            None
        } else {
            match self.silence_start {
                Some(t) => Some(t),
                None => Some(now),
            }
        }
    }

    /// The recording once a frame is heard.
    pub open spec fn heard(self, now: u64, energy: u64) -> Recording {
        Recording {
            started_sent: true,
            first_frame_at: Some(self.first_frame(now)),
            silence_start: self.quiet_since(now, energy),
            mic_level_counter: (self.mic_level_counter + 1) as u64,
            ..self
        }
    }

    /// What is told when a frame is heard: that the recording started, with the first frame, and
    /// how loud it is, with every third.
    pub open spec fn heard_events(self, energy: u64) -> Seq<AudioEventModel> {
        let started = if self.started_sent {
            Seq::empty()
        } else {
            seq![
                AudioEventModel::Started {
                    sample_rate: self.config.sample_rate,
                    channels: self.config.channels,
                    frame_ms: self.config.frame_duration_ms,
                },
            ]
        };
        let level = if (self.mic_level_counter + 1) % 3 == 0 {
            seq![AudioEventModel::MicLevel { energy }]
        } else {
            Seq::empty()
        };
        started + level
    }

    /// Whether it has been quiet long enough.
    pub open spec fn silent(self, now: u64, energy: u64) -> bool {
        match self.quiet_since(now, energy) {
            Some(t) => time_since(now, t) >= SILENCE_DURATION,
            None => false,
        }
    }

    /// What is done with a frame that is heard.
    pub open spec fn decision(self, now: u64, energy: u64) -> FrameDecisionModel {
        if self.silent(now, energy) {
            FrameDecisionModel::Stop(
                AudioEventModel::Stopped {
                    reason: "silence"@,
                    total_frames: self.total_frames,
                },
            )
        } else {
            FrameDecisionModel::Encode
        }
    }

    /// The recording once a frame is sent.
    pub open spec fn sent(self) -> Recording {
        Recording {
            seq: (self.seq + 1) as u64,
            total_frames: (self.total_frames + 1) as u64,
            ..self
        }
    }

    /// What is told of a frame that is sent.
    pub open spec fn frame_event(self, opus_data: Seq<u8>, timestamp_ms: u64) -> AudioEventModel {
        AudioEventModel::Data { seq: self.seq, opus_data, timestamp_ms }
    }

    /// What is told where the recording was asked to stop.
    pub open spec fn stop_event(self) -> AudioEventModel {
        AudioEventModel::Stopped { reason: "stopped"@, total_frames: self.total_frames }
    }

    /// What is told where no more sound comes.
    pub open spec fn end_event(self) -> AudioEventModel {
        AudioEventModel::Stopped {
            reason: if self.total_frames == 0 {
                "startup_failed"@
            } else {
                "arecord_eof"@
            },
            total_frames: self.total_frames,
        }
    }

    /// Frames are numbered by how many were sent, no more were sent than heard, the start is told
    /// with the first, and quiet counts only after the grace period.
    pub open spec fn well_formed(self) -> bool {
        &&& self.seq == self.total_frames <= self.mic_level_counter
        &&& self.started_sent <==> self.mic_level_counter > 0
        &&& self.first_frame_at is Some <==> self.mic_level_counter > 0
        &&& self.silence_start matches Some(t) ==> {
            &&& self.first_frame_at matches Some(f)
            &&& t >= f + SILENCE_GRACE_PERIOD
        }
    }

    /// The recording before its first frame.
    pub open spec fn fresh(config: AudioConfig) -> Recording {
        Recording {
            config,
            seq: 0,
            total_frames: 0,
            started_sent: false,
            first_frame_at: None,
            silence_start: None,
            mic_level_counter: 0,
        }
    }

    /// A recording before its first frame.
    pub fn new(config: AudioConfig) -> (r: Recording)
        ensures
            r == Recording::fresh(config),
            r.well_formed(),
    {
        Recording {
            config,
            seq: 0,
            total_frames: 0,
            started_sent: false,
            first_frame_at: None,
            silence_start: None,
            mic_level_counter: 0,
        }
    }

    /// Hears a frame: says what is told, and what is done with the frame.
    pub fn on_frame(&mut self, pcm_frame: &[u8], now: u64) -> (r: (Vec<AudioEvent>, FrameDecision))
        requires
            old(self).well_formed(),
            old(self).mic_level_counter < u64::MAX,
            pcm_frame@.len() == PCM_FRAME_BYTES,
        ensures
            ({
                let energy = pcm::energy(pcm::samples(pcm_frame@)) as u64;
                &&& *final(self) == old(self).heard(now, energy)
                &&& event_models(r.0@) == old(self).heard_events(energy)
                &&& r.1@ == old(self).decision(now, energy)
            }),
            final(self).well_formed(),
    {
        let ghost before = *self;
        let samples = pcm::pcm_to_samples(pcm_frame);
        let energy: u64 = pcm::sample_energy(&samples);
        let mut events: Vec<AudioEvent> = Vec::new();
        if !self.started_sent {
            events.push(
                AudioEvent::Started {
                    sample_rate: self.config.sample_rate,
                    channels: self.config.channels,
                    frame_ms: self.config.frame_duration_ms,
                },
            );
            self.started_sent = true;
        }
        let first_frame: u64 = match self.first_frame_at {
            Some(t) => t,
            None => now,
        };
        self.first_frame_at = Some(first_frame);
        let within_grace_period = elapsed(now, first_frame) < SILENCE_GRACE_PERIOD;
        self.mic_level_counter = self.mic_level_counter + 1;
        if self.mic_level_counter % 3 == 0 {
            events.push(AudioEvent::MicLevel { energy });
        }
        assert(event_models(events@) =~= before.heard_events(energy));
        if within_grace_period || energy > QUIET_ENERGY {
            self.silence_start = None;
            return (events, FrameDecision::Encode);
        }
        let since: u64 = match self.silence_start {
            Some(t) => t,
            None => now,
        };
        self.silence_start = Some(since);
        if elapsed(now, since) >= SILENCE_DURATION {
            let stopped = AudioEvent::Stopped {
                reason: "silence".to_owned(),
                total_frames: self.total_frames,
            };
            return (events, FrameDecision::Stop(stopped));
        }
        (events, FrameDecision::Encode)
    }

    /// Takes in the frame that was heard last, once it is encoded: says what is told.
    pub fn on_encoded(&mut self, opus_data: Vec<u8>, timestamp_ms: u64) -> (r: AudioEvent)
        requires
            old(self).well_formed(),
            old(self).total_frames < old(self).mic_level_counter,
        ensures
            *final(self) == old(self).sent(),
            r@ == (AudioEventModel::Data {
                seq: old(self).seq,
                opus_data: opus_data@,
                timestamp_ms,
            }),
            r@ == old(self).frame_event(opus_data@, timestamp_ms),
            final(self).well_formed(),
    {
        let event = AudioEvent::Data { seq: self.seq, opus_data, timestamp_ms };
        self.seq = self.seq + 1;
        self.total_frames = self.total_frames + 1;
        event
    }

    /// What is told where the recording was asked to stop.
    pub fn on_stop(&self) -> (r: AudioEvent)
        ensures
            r@ == (AudioEventModel::Stopped {
                reason: "stopped"@,
                total_frames: self.total_frames,
            }),
            r@ == self.stop_event(),
    {
        AudioEvent::Stopped { reason: "stopped".to_owned(), total_frames: self.total_frames }
    }

    /// What is told where no more sound comes.
    pub fn on_end_of_sound(&self) -> (r: AudioEvent)
        ensures
            r@ == (AudioEventModel::Stopped {
                reason: if self.total_frames == 0 {
                    "startup_failed"@
                } else {
                    "arecord_eof"@
                },
                total_frames: self.total_frames,
            }),
            r@ == self.end_event(),
    {
        let reason = if self.total_frames == 0 {
            "startup_failed"
        } else {
            "arecord_eof"
        };
        AudioEvent::Stopped { reason: reason.to_owned(), total_frames: self.total_frames }
    }
}

/// What is told where a recording could not start.
pub fn recording_failed(reason: &str) -> (r: AudioEvent)
    ensures
        r@ == (AudioEventModel::Stopped { reason: reason@, total_frames: 0 }),
{
    AudioEvent::Stopped { reason: reason.to_owned(), total_frames: 0 }
}

/// The samples of a frame that is to be encoded, or what is wrong with its length.
pub fn frame_samples(pcm_frame: &[u8]) -> (r: Result<Vec<i16>, NocturnedError>)
    ensures
        match r {
            Ok(s) => {
                &&& pcm_frame@.len() == PCM_FRAME_BYTES
                &&& s@ == pcm::samples(pcm_frame@)
                &&& s@.len() == PCM_FRAME_SAMPLES
            },
            Err(e) => pcm_frame@.len() != PCM_FRAME_BYTES && e@ == ErrorModel::General(
                "invalid pcm frame size: expected "@ + text::decimal(1920) + " bytes, got "@
                    + text::decimal(pcm_frame@.len()),
            ),
        },
{
    if pcm_frame.len() != PCM_FRAME_BYTES {
        let expected = text::decimal_text(PCM_FRAME_BYTES as u64);
        let got = text::decimal_text(pcm_frame.len() as u64);
        let mut message = text::joined("invalid pcm frame size: expected ", expected.as_str());
        message.append(" bytes, got ");
        message.append(got.as_str());
        return Err(NocturnedError::General(message));
    }
    Ok(pcm::pcm_to_samples(pcm_frame))
}

/// A recording does not end for quiet before the grace period and a stretch of quiet as long as
/// it takes have passed since its first frame.
pub proof fn law_quiet_ends_a_recording_no_sooner(rec: Recording, now: u64, energy: u64)
    requires
        rec.well_formed(),
        rec.decision(now, energy) is Stop,
    ensures
        rec.first_frame_at matches Some(f) && now - f >= SILENCE_GRACE_PERIOD + SILENCE_DURATION,
        energy <= QUIET_ENERGY,
{
}

/// A loud frame keeps a recording on, and quiet has to start over after it.
pub proof fn law_sound_keeps_a_recording_on(rec: Recording, now: u64, energy: u64)
    requires
        energy > QUIET_ENERGY,
    ensures
        rec.decision(now, energy) is Encode,
        rec.heard(now, energy).silence_start is None,
{
}

/// The start is told once, with the first frame and before anything else.
pub proof fn law_start_is_told_once(rec: Recording, now: u64, energy: u64)
    requires
        rec.well_formed(),
        rec.mic_level_counter < u64::MAX,
    ensures
        rec.mic_level_counter == 0 ==> rec.heard_events(energy).len() > 0
            && rec.heard_events(energy)[0] is Started,
        rec.mic_level_counter > 0 ==> forall|i: int|
            0 <= i < rec.heard_events(energy).len() ==> !((#[trigger] rec.heard_events(energy)[i]) is Started),
        rec.heard(now, energy).started_sent,
{
}

/// Frames are sent under the numbers from zero on, and a recording ends with their count.
pub proof fn law_frames_are_numbered(rec: Recording, now: u64, energy: u64)
    requires
        rec.well_formed(),
        rec.mic_level_counter < u64::MAX,
    ensures
        rec.seq == rec.total_frames,
        rec.heard(now, energy).well_formed(),
        rec.heard(now, energy).sent().well_formed(),
        rec.heard(now, energy).sent().seq == rec.seq + 1,
        rec.heard(now, energy).sent().total_frames == rec.total_frames + 1,
{
}

/// Whether a recording is on depends on what happened last: a start sets one going, and a stop, its
/// own end and the end of the commands leave none. The recorder ends with its commands, and no
/// recording is left behind.
pub proof fn law_recorder_ends_with_its_commands(state: CaptureState, input: CaptureInput)
    ensures
        capture_step(state, input).0 == CaptureState::Recording <==> input == CaptureInput::Command(
            AudioCommand::Start,
        ),
        capture_step(state, input).1 == CaptureAction::End || capture_step(state, input).1
            == CaptureAction::StopRecordingAndEnd <==> input == CaptureInput::CommandsClosed,
        capture_step(state, input).1 == CaptureAction::StopRecordingAndEnd ==> state
            == CaptureState::Recording,
        input == CaptureInput::CommandsClosed && state == CaptureState::Recording ==> capture_step(
            state,
            input,
        ).1 == CaptureAction::StopRecordingAndEnd,
        capture_step(state, input).1 == CaptureAction::FinishRecording <==> (input
            == CaptureInput::RecordingDone && state == CaptureState::Recording),
{
}

/// Quiet that lasts as long as it takes, once the grace period is over, ends a recording, and the
/// count of its frames is told.
pub proof fn law_long_quiet_ends_a_recording(
    rec: Recording,
    first: u64,
    since: u64,
    now: u64,
    energy: u64,
)
    requires
        rec.first_frame_at == Some(first),
        rec.silence_start == Some(since),
        now - first >= SILENCE_GRACE_PERIOD,
        now - since >= SILENCE_DURATION,
        energy <= QUIET_ENERGY,
    ensures
        rec.decision(now, energy) matches FrameDecisionModel::Stop(
            AudioEventModel::Stopped { reason, total_frames },
        ) && total_frames == rec.total_frames && reason == "silence"@,
{
}

/// The grace period is counted from the first frame, and quiet from the first quiet frame after it
/// or after the last loud one.
pub proof fn law_quiet_is_timed_from_its_start(
    rec: Recording,
    now: u64,
    energy: u64,
    later: u64,
    quiet: u64,
)
    requires
        rec.mic_level_counter < u64::MAX,
    ensures
        rec.first_frame_at is None ==> rec.heard(now, energy).first_frame_at == Some(now),
        rec.first_frame_at is Some ==> rec.heard(now, energy).first_frame_at == rec.first_frame_at,
        rec.heard(now, energy).silence_start is Some ==> energy <= QUIET_ENERGY,
        rec.silence_start is None && rec.heard(now, energy).silence_start is Some ==> rec.heard(
            now,
            energy,
        ).silence_start == Some(now),
        rec.silence_start is Some && rec.heard(now, energy).silence_start is Some ==> rec.heard(
            now,
            energy,
        ).silence_start == rec.silence_start,
        (rec.first_frame_at matches Some(f) && now - f >= SILENCE_GRACE_PERIOD && energy
            <= QUIET_ENERGY) ==> rec.heard(now, energy).silence_start is Some,
        rec.heard(now, energy).mic_level_counter == rec.mic_level_counter + 1,
        rec.heard(now, energy).config == rec.config,
{
}

/// The start is told with the format of the recording, and every third frame with how loud it is.
pub proof fn law_level_is_told_with_every_third_frame(rec: Recording, energy: u64)
    ensures
        forall|i: int|
            0 <= i < rec.heard_events(energy).len() ==> (#[trigger] rec.heard_events(energy)[i]
                == AudioEventModel::MicLevel { energy } || rec.heard_events(energy)[i]
                == AudioEventModel::Started {
                sample_rate: rec.config.sample_rate,
                channels: rec.config.channels,
                frame_ms: rec.config.frame_duration_ms,
            }),
        rec.heard_events(energy).contains(AudioEventModel::MicLevel { energy }) <==> (
        rec.mic_level_counter + 1) % 3 == 0,
{
    let told = rec.heard_events(energy);
    if (rec.mic_level_counter + 1) % 3 == 0 {
        assert(told.last() == AudioEventModel::MicLevel { energy });
    }
}

/// The recording after so many frames were heard and sent.
pub open spec fn after_frames(rec: Recording, n: nat) -> Recording
    decreases n,
{
    if n == 0 {
        rec
    } else {
        after_frames(rec, (n - 1) as nat).sent()
    }
}

/// The frames of a recording carry the numbers from zero on, with what was encoded, and however the
/// recording ends, their count is told.
pub proof fn law_frames_are_counted(config: AudioConfig, n: nat, opus_data: Seq<u8>, at: u64)
    requires
        n < u64::MAX,
    ensures
        ({
            let rec = after_frames(Recording::fresh(config), n);
            &&& Recording::fresh(config).well_formed()
            &&& Recording::fresh(config).config == config
            &&& rec.frame_event(opus_data, at) matches AudioEventModel::Data {
                seq,
                opus_data: carried,
                timestamp_ms,
            }
            &&& seq == n
            &&& carried == opus_data
            &&& timestamp_ms == at
            &&& rec.stop_event() matches AudioEventModel::Stopped { reason, total_frames }
            &&& total_frames == n
            &&& rec.end_event() matches AudioEventModel::Stopped { reason: why, total_frames: count }
            &&& count == n
            &&& why == "startup_failed"@ <==> n == 0
        }),
{
    lemma_after_frames(config, n);
    reveal_strlit("startup_failed");
    reveal_strlit("arecord_eof");
    assert("startup_failed"@.len() == 14 && "arecord_eof"@.len() == 11);
}

proof fn lemma_after_frames(config: AudioConfig, n: nat)
    requires
        n < u64::MAX,
    ensures
        after_frames(Recording::fresh(config), n).seq == n,
        after_frames(Recording::fresh(config), n).total_frames == n,
    decreases n,
{
    if n > 0 {
        lemma_after_frames(config, (n - 1) as nat);
    }
}

/// A frame of the format that is recorded has as many samples as its duration takes, of two bytes
/// each.
pub proof fn law_frame_has_its_duration()
    ensures
        default_config().sample_rate * default_config().frame_duration_ms
            * default_config().channels == PCM_FRAME_SAMPLES * 1000,
        PCM_FRAME_BYTES == 2 * PCM_FRAME_SAMPLES,
{
}

} // verus!
