//! Listening for a wake word: when the detector listens, and which sound, mel frames and embeddings
//! its models are given.
use crate::pcm;
use crate::pcm::{FrameBuffer, FrameBufferModel};
use crate::text;
use std::collections::VecDeque;
use vstd::prelude::*;

verus! {

/// The samples of one frame of sound.
pub const FRAME_SAMPLES: usize = 1280;

/// The bytes of one frame of sound.
pub const FRAME_BYTES: usize = 2560;

/// The samples of the frame before that go in front of a frame.
pub const MEL_OVERLAP_SAMPLES: usize = 480;

/// The samples that the first model is given.
pub const MEL_INPUT_SAMPLES: usize = 1760;

/// The values of one mel frame.
pub const MEL_BINS: usize = 32;

/// The mel frames that the second model is given.
pub const MEL_WINDOW_SIZE: usize = 76;

/// The new mel frames that it takes for another embedding.
pub const MEL_SLIDE_STEP: usize = 8;

/// The embeddings that a classifier is given.
pub const EMBEDDING_WINDOW: usize = 16;

/// The most embeddings that are kept.
pub const MAX_EMBEDDINGS: usize = 120;

/// How long, in nanoseconds, a wake word is not looked for after one was heard.
pub const DETECTION_DEBOUNCE: u64 = 2_000_000_000;

/// Whether the detector was left paused, by what the file that says so held.
pub open spec fn muted_by(content: Option<Seq<char>>) -> bool {
    match content {
        Some(s) => text::trimmed(s) == "paused"@,
        None => false,
    }
}

/// Whether the detector was left paused.
pub fn load_preference_muted(content: Option<&str>) -> (r: bool)
    ensures
        r == muted_by(
            match content {
                Some(s) => Some(s@),
                None => None,
            },
        ),
{
    match content {
        Some(s) => {
            let trimmed = text::trim(s);
            text::same(trimmed.as_str(), "paused")
        },
        None => false,
    }
}

/// What the file that says whether the detector is paused holds.
pub open spec fn preference(muted: bool) -> Seq<char> {
    if muted {
        "paused"@
    } else {
        "running"@
    }
}

/// What is written so that the detector stays paused or not.
pub fn save_preference_muted(muted: bool) -> (r: &'static str)
    ensures
        r@ == preference(muted),
{
    if muted {
        "paused"
    } else {
        "running"
    }
}

proof fn lemma_trimmed_same(s: Seq<char>)
    requires
        s.len() > 0,
        !text::white_space(s[0]),
        !text::white_space(s.last()),
    ensures
        text::trimmed(s) == s,
{
}

/// What was written of whether the detector is paused reads back, and where nothing was written it
/// is not.
pub proof fn law_preference_reads_back(muted: bool)
    ensures
        muted_by(Some(preference(muted))) == muted,
        !muted_by(None),
{
    reveal_strlit("paused");
    reveal_strlit("running");
    lemma_trimmed_same("paused"@);
    lemma_trimmed_same("running"@);
}

/// What the detector is told to do. Whoever tells it to pause may wait for it.
#[derive(Clone, Copy, Debug, PartialEq, Eq, Structural)]
pub enum WakeWordCommand {
    Pause { ack: bool, persist: bool },
    Resume { persist: bool },
}

/// What the detector of the wake word tells. How sure it is is carried as the bit pattern of a
/// single-precision number.
#[derive(Debug)]
pub enum WakeWordEvent {
    Detected { keyword: String, confidence: u32 },
    StateChanged { muted: bool },
}

/// What the detector needs next.
#[derive(Clone, Copy, Debug, PartialEq, Eq, Structural)]
pub enum WakeWordNeed {
    Command,
    Listener,
    CommandOrSound,
}

/// What the detector does.
#[derive(Clone, Copy, Debug, PartialEq, Eq, Structural)]
pub enum WakeWordAction {
    StopListener,
    /// Remember whether it is paused, and tell of it.
    PersistAndNotify { muted: bool },
    Acknowledge,
    /// Wait a little before the next attempt.
    Delay,
    End,
}

/// What the detector has made of the sound so far, with `M` a mel frame and `E` an embedding.
pub struct Features<M, E> {
    overlap: Vec<i16>,
    mel: Vec<M>,
    mel_since_embed: usize,
    embeddings: VecDeque<E>,
}

/// What the detector has made of the sound, apart from how it is stored.
#[verifier::ext_equal]
pub struct FeaturesModel<M, E> {
    pub overlap: Seq<i16>,
    pub mel: Seq<M>,
    pub mel_since_embed: nat,
    pub embeddings: Seq<E>,
}

impl<M, E> View for Features<M, E> {
    type V = FeaturesModel<M, E>;

    closed spec fn view(&self) -> FeaturesModel<M, E> {
        FeaturesModel {
            overlap: self.overlap@,
            mel: self.mel@,
            mel_since_embed: self.mel_since_embed as nat,
            embeddings: self.embeddings@,
        }
    }
}

/// Samples of silence.
pub open spec fn silence(n: nat) -> Seq<i16> {
    Seq::new(n, |i: int| 0i16)
}

/// The last items of a sequence.
pub open spec fn tail<T>(s: Seq<T>, n: nat) -> Seq<T> {
    s.subrange(s.len() - n, s.len() as int)
}

impl<M, E> FeaturesModel<M, E> {
    /// Nothing was heard.
    pub open spec fn empty() -> FeaturesModel<M, E> {
        FeaturesModel {
            overlap: silence(MEL_OVERLAP_SAMPLES as nat),
            mel: Seq::empty(),
            mel_since_embed: 0,
            embeddings: Seq::empty(),
        }
    }

    /// What is kept is within its bounds.
    pub open spec fn well_formed(self) -> bool {
        &&& self.overlap.len() == MEL_OVERLAP_SAMPLES
        &&& self.mel_since_embed <= self.mel.len()
        &&& self.embeddings.len() <= MAX_EMBEDDINGS
    }

    /// Whether it is time for another embedding.
    pub open spec fn embedding_due(self) -> bool {
        self.mel.len() >= MEL_WINDOW_SIZE && self.mel_since_embed >= MEL_SLIDE_STEP
    }

    /// The features with another embedding: the oldest makes room, and old mel frames are dropped
    /// where there are many.
    pub open spec fn with_embedding(self, e: E) -> FeaturesModel<M, E> {
        FeaturesModel {
            overlap: self.overlap,
            mel: if self.mel.len() > MEL_WINDOW_SIZE + MEL_SLIDE_STEP * 4 {
                tail(self.mel, MEL_WINDOW_SIZE as nat)
            } else {
                self.mel
            },
            mel_since_embed: 0,
            embeddings: if self.embeddings.len() == MAX_EMBEDDINGS {
                self.embeddings.drop_first().push(e)
            } else {
                self.embeddings.push(e)
            },
        }
    }
}

impl<M, E> Features<M, E> {
    /// Nothing was heard.
    pub fn new() -> (r: Features<M, E>)
        ensures
            r@ == FeaturesModel::<M, E>::empty(),
            r@.well_formed(),
    {
        let r = Features {
            overlap: zeros(),
            mel: Vec::new(),
            mel_since_embed: 0,
            embeddings: VecDeque::new(),
        };
        assert(r@ =~= FeaturesModel::<M, E>::empty());
        r
    }

    /// Forgets what was heard.
    pub fn clear(&mut self)
        ensures
            final(self)@ == FeaturesModel::<M, E>::empty(),
            final(self)@.well_formed(),
    {
        self.overlap = zeros();
        self.mel.clear();
        self.mel_since_embed = 0;
        self.embeddings.clear();
        assert(self@ =~= FeaturesModel::<M, E>::empty());
    }

    /// The samples that the first model is given for a frame: the end of the frame before, and the
    /// frame.
    pub fn mel_input(&mut self, pcm_frame: &[u8]) -> (r: Vec<i16>)
        requires
            old(self)@.well_formed(),
            pcm_frame@.len() == FRAME_BYTES,
        ensures
            r@ == old(self)@.overlap + pcm::samples(pcm_frame@),
            r@.len() == MEL_INPUT_SAMPLES,
            final(self)@ == (FeaturesModel {
                overlap: tail(pcm::samples(pcm_frame@), MEL_OVERLAP_SAMPLES as nat),
                ..old(self)@
            }),
            final(self)@.well_formed(),
    {
        let ghost before = self@;
        let samples = pcm::pcm_to_samples(pcm_frame);
        let mut input: Vec<i16> = Vec::new();
        copy_samples(&mut input, &self.overlap, 0);
        copy_samples(&mut input, &samples, 0);
        assert(self.overlap@.skip(0) =~= self.overlap@);
        assert(samples@.skip(0) =~= samples@);
        assert(input@ =~= before.overlap + samples@);
        let mut overlap: Vec<i16> = Vec::new();
        copy_samples(&mut overlap, &samples, samples.len() - MEL_OVERLAP_SAMPLES);
        assert(overlap@ =~= tail(samples@, MEL_OVERLAP_SAMPLES as nat));
        self.overlap = overlap;
        input
    }

    /// Takes in mel frames.
    pub fn push_mel(&mut self, frames: Vec<M>)
        requires
            old(self)@.well_formed(),
        ensures
            final(self)@ == (FeaturesModel {
                mel: old(self)@.mel + frames@,
                mel_since_embed: old(self)@.mel_since_embed + frames@.len(),
                ..old(self)@
            }),
            final(self)@.well_formed(),
    {
        let mut frames = frames;
        let count: usize = frames.len();
        self.mel.append(&mut frames);
        assert(self.mel@.len() == self.mel.len());
        self.mel_since_embed = self.mel_since_embed + count;
    }

    /// Where the mel frames begin that the second model is given, when it is time for another
    /// embedding.
    pub fn window_start(&self) -> (r: Option<usize>)
        ensures
            match r {
                Some(start) => self@.embedding_due() && start == self@.mel.len() - MEL_WINDOW_SIZE,
                None => !self@.embedding_due(),
            },
    {
        if self.mel.len() >= MEL_WINDOW_SIZE && self.mel_since_embed >= MEL_SLIDE_STEP {
            Some(self.mel.len() - MEL_WINDOW_SIZE)
        } else {
            None
        }
    }

    /// A mel frame.
    pub fn mel_frame(&self, i: usize) -> (r: &M)
        requires
            i < self@.mel.len(),
        ensures
            *r == self@.mel[i as int],
    {
        &self.mel[i]
    }

    /// Takes in an embedding.
    pub fn push_embedding(&mut self, embedding: E)
        requires
            old(self)@.well_formed(),
        ensures
            final(self)@ == old(self)@.with_embedding(embedding),
            final(self)@.well_formed(),
    {
        let ghost before = self@;
        if self.embeddings.len() == MAX_EMBEDDINGS {
            let _ = self.embeddings.pop_front();
            assert(self.embeddings@ =~= before.embeddings.drop_first());
        }
        self.embeddings.push_back(embedding);
        self.mel_since_embed = 0;
        if self.mel.len() > MEL_WINDOW_SIZE + MEL_SLIDE_STEP * 4 {
            let from: usize = self.mel.len() - MEL_WINDOW_SIZE;
            let kept = self.mel.split_off(from);
            self.mel = kept;
        }
        assert(self@ =~= before.with_embedding(embedding));
    }

    /// Where the embeddings begin that a classifier is given, when there are enough.
    pub fn recent_start(&self) -> (r: Option<usize>)
        ensures
            match r {
                Some(start) => self@.embeddings.len() >= EMBEDDING_WINDOW && start
                    == self@.embeddings.len() - EMBEDDING_WINDOW,
                None => self@.embeddings.len() < EMBEDDING_WINDOW,
            },
    {
        if self.embeddings.len() < EMBEDDING_WINDOW {
            None
        } else {
            Some(self.embeddings.len() - EMBEDDING_WINDOW)
        }
    }

    /// An embedding.
    pub fn embedding(&self, i: usize) -> (r: &E)
        requires
            i < self@.embeddings.len(),
        ensures
            *r == self@.embeddings[i as int],
    {
        &self.embeddings[i]
    }
}

fn zeros() -> (r: Vec<i16>)
    ensures
        r@ == silence(MEL_OVERLAP_SAMPLES as nat),
{
    let mut r: Vec<i16> = Vec::new();
    while r.len() < MEL_OVERLAP_SAMPLES
        invariant
            r@ == silence(r@.len()),
            r.len() <= MEL_OVERLAP_SAMPLES,
        decreases MEL_OVERLAP_SAMPLES - r.len(),
    {
        r.push(0);
        assert(r@ =~= silence(r@.len()));
    }
    r
}

fn copy_samples(out: &mut Vec<i16>, from: &Vec<i16>, start: usize)
    requires
        start <= from@.len(),
    ensures
        final(out)@ == old(out)@ + from@.skip(start as int),
{
    let ghost before = out@;
    let mut i: usize = start;
    while i < from.len()
        invariant
            start <= i <= from.len(),
            out@ == before + from@.subrange(start as int, i as int),
        decreases from.len() - i,
    {
        out.push(from[i]);
        i += 1;
        assert(from@.subrange(start as int, i as int) =~= from@.subrange(start as int, i - 1).push(
            from@[i - 1],
        ));
    }
    assert(from@.subrange(start as int, i as int) =~= from@.skip(start as int));
}

/// The values of one frame in what the first model gives: its last dimension, where it has more
/// than one.
pub fn mel_width(shape: &[usize]) -> (r: usize)
    ensures
        r == if shape@.len() >= 2 {
            shape@.last()
        } else {
            MEL_BINS
        },
{
    if shape.len() >= 2 {
        shape[shape.len() - 1]
    } else {
        MEL_BINS
    }
}

/// A value of a mel frame out of what the first model gives, with `zero` where the frames there
/// are too short.
pub open spec fn mel_value<T>(data: Seq<T>, width: nat, zero: T, frame: int, bin: int) -> T {
    if bin < width {
        data[frame * width + bin]
    } else {
        zero
    }
}

/// The mel frames in what the first model gives.
pub open spec fn mel_frames<T>(data: Seq<T>, width: nat, zero: T) -> Seq<Seq<T>> {
    Seq::new(
        data.len() / width,
        |i: int| Seq::new(MEL_BINS as nat, |b: int| mel_value(data, width, zero, i, b)),
    )
}

/// The frames in a vector of vectors.
pub open spec fn rows<T>(frames: Seq<Vec<T>>) -> Seq<Seq<T>> {
    frames.map_values(|f: Vec<T>| f@)
}

/// Cuts what the first model gives into mel frames.
pub fn split_mel<T: Copy>(data: &[T], width: usize, zero: T) -> (r: Vec<Vec<T>>)
    requires
        width > 0,
    ensures
        rows(r@) == mel_frames(data@, width as nat, zero),
{
    let count: usize = data.len() / width;
    let mut out: Vec<Vec<T>> = Vec::new();
    let mut i: usize = 0;
    while i < count
        invariant
            width > 0,
            count == data.len() / width,
            data.len() == data@.len(),
            i <= count,
            out@.len() == i,
            forall|k: int|
                0 <= k < i ==> (#[trigger] out@[k])@ == mel_frames(data@, width as nat, zero)[k],
        decreases count - i,
    {
        assert(i * width + width <= data@.len()) by (nonlinear_arith)
            requires
                i < count,
                count == data@.len() / width as nat,
                width > 0,
        ;
        assert(i * width >= 0) by (nonlinear_arith);
        let base: usize = i * width;
        let mut frame: Vec<T> = Vec::new();
        let mut b: usize = 0;
        while b < MEL_BINS
            invariant
                b <= MEL_BINS,
                base == i * width,
                base + width <= data.len(),
                data.len() == data@.len(),
                frame@.len() == b,
                forall|k: int|
                    0 <= k < b ==> #[trigger] frame@[k] == mel_value(
                        data@,
                        width as nat,
                        zero,
                        i as int,
                        k,
                    ),
            decreases MEL_BINS - b,
        {
            if b < width {
                frame.push(data[base + b]);
            } else {
                frame.push(zero);
            }
            b += 1;
        }
        assert(frame@ =~= mel_frames(data@, width as nat, zero)[i as int]);
        out.push(frame);
        i += 1;
    }
    assert(rows(out@) =~= mel_frames(data@, width as nat, zero));
    out
}

/// The keyword of a classifier by the name of its file; none for other files.
pub open spec fn keyword_of(file_name: Seq<char>) -> Option<Seq<char>> {
    if !".onnx"@.is_suffix_of(file_name) || file_name == "melspectrogram.onnx"@ || file_name
        == "embedding_model.onnx"@ {
        None
    } else {
        Some(text::without_trailing(file_name, ".onnx"@))
    }
}

/// The keyword of a classifier by the name of its file.
pub fn classifier_keyword(file_name: &str) -> (r: Option<String>)
    ensures
        text::optional_text(r) == keyword_of(file_name@),
{
    if !text::ends_with(file_name, ".onnx") || text::same(file_name, "melspectrogram.onnx")
        || text::same(file_name, "embedding_model.onnx") {
        None
    } else {
        Some(text::trim_trailing(file_name, ".onnx"))
    }
}

/// The detector. Times are in nanoseconds from any origin.
pub struct WakeWordDetector<M, E> {
    paused: bool,
    listening: bool,
    sound: FrameBuffer,
    features: Features<M, E>,
    last_detection_at: Option<u64>,
}

/// The detector, apart from how it is stored.
#[verifier::ext_equal]
pub struct DetectorModel<M, E> {
    pub paused: bool,
    pub listening: bool,
    pub sound: FrameBufferModel,
    pub features: FeaturesModel<M, E>,
    pub last_detection_at: Option<u64>,
}

impl<M, E> View for WakeWordDetector<M, E> {
    type V = DetectorModel<M, E>;

    closed spec fn view(&self) -> DetectorModel<M, E> {
        DetectorModel {
            paused: self.paused,
            listening: self.listening,
            sound: self.sound@,
            features: self.features@,
            last_detection_at: self.last_detection_at,
        }
    }
}

/// No sound is waiting.
pub open spec fn no_sound() -> FrameBufferModel {
    FrameBufferModel { frame_bytes: FRAME_BYTES, data: Seq::empty() }
}

/// One thing to do, where it applies.
pub open spec fn action_if(applies: bool, action: WakeWordAction) -> Seq<WakeWordAction> {
    if applies {
        seq![action]
    } else {
        Seq::empty()
    }
}

impl<M, E> DetectorModel<M, E> {
    /// A paused detector does not listen, and what is kept is within its bounds.
    pub open spec fn well_formed(self) -> bool {
        &&& self.paused ==> !self.listening
        &&& self.sound.frame_bytes == FRAME_BYTES
        &&& self.features.well_formed()
    }

    /// What the detector needs next.
    pub open spec fn need(self) -> WakeWordNeed {
        if self.paused {
            WakeWordNeed::Command
        } else if !self.listening {
            WakeWordNeed::Listener
        } else {
            WakeWordNeed::CommandOrSound
        }
    }

    /// The detector with nothing heard.
    pub open spec fn deaf(self) -> DetectorModel<M, E> {
        DetectorModel {
            listening: false,
            sound: no_sound(),
            features: FeaturesModel::<M, E>::empty(),
            ..self
        }
    }

    /// The detector after a command, or after the last of them.
    pub open spec fn commanded(self, cmd: Option<WakeWordCommand>) -> DetectorModel<M, E> {
        match cmd {
            Some(WakeWordCommand::Pause { .. }) => DetectorModel { paused: true, ..self.deaf() },
            Some(WakeWordCommand::Resume { .. }) => DetectorModel { paused: false, ..self },
            None => if self.listening {
                self.deaf()
            } else {
                self
            },
        }
    }

    /// What the detector does about a command, or about the last of them.
    pub open spec fn command_actions(self, cmd: Option<WakeWordCommand>) -> Seq<WakeWordAction> {
        match cmd {
            Some(WakeWordCommand::Pause { ack, persist }) => action_if(
                self.listening,
                WakeWordAction::StopListener,
            ) + action_if(persist, WakeWordAction::PersistAndNotify { muted: true }) + action_if(
                ack,
                WakeWordAction::Acknowledge,
            ),
            Some(WakeWordCommand::Resume { persist }) => action_if(
                persist,
                WakeWordAction::PersistAndNotify { muted: false },
            ),
            None => action_if(self.listening, WakeWordAction::StopListener).push(
                WakeWordAction::End,
            ),
        }
    }

    /// The detector once it is known whether the listener could be started.
    pub open spec fn with_listener(self, started: bool) -> DetectorModel<M, E> {
        if started {
            DetectorModel { listening: true, ..self.deaf() }
        } else {
            self
        }
    }

    /// What the detector does where no more sound comes.
    pub open spec fn end_of_sound_actions(self) -> Seq<WakeWordAction> {
        seq![WakeWordAction::StopListener, WakeWordAction::Delay]
    }

    /// The detector with more sound.
    pub open spec fn with_sound(self, bytes: Seq<u8>) -> DetectorModel<M, E> {
        DetectorModel {
            sound: FrameBufferModel { data: self.sound.data + bytes, ..self.sound },
            ..self
        }
    }

    /// The samples that the first model is given next, where a whole frame is there.
    pub open spec fn mel_input(self) -> Option<Seq<i16>> {
        if self.sound.data.len() >= FRAME_BYTES {
            Some(self.features.overlap + pcm::samples(self.sound.data.take(FRAME_BYTES as int)))
        } else {
            None
        }
    }

    /// The detector once the first model was given its samples, where a whole frame was there.
    pub open spec fn after_mel_input(self) -> DetectorModel<M, E> {
        if self.sound.data.len() >= FRAME_BYTES {
            DetectorModel {
                sound: FrameBufferModel {
                    data: self.sound.data.skip(FRAME_BYTES as int),
                    ..self.sound
                },
                features: FeaturesModel {
                    overlap: tail(
                        pcm::samples(self.sound.data.take(FRAME_BYTES as int)),
                        MEL_OVERLAP_SAMPLES as nat,
                    ),
                    ..self.features
                },
                ..self
            }
        } else {
            self
        }
    }

    /// The detector with more mel frames.
    pub open spec fn with_mel(self, frames: Seq<M>) -> DetectorModel<M, E> {
        DetectorModel {
            features: FeaturesModel {
                mel: self.features.mel + frames,
                mel_since_embed: self.features.mel_since_embed + frames.len(),
                ..self.features
            },
            ..self
        }
    }

    /// The mel frames that the second model is given, when it is time for another embedding.
    pub open spec fn mel_window(self) -> Option<Seq<M>> {
        if self.features.embedding_due() {
            Some(tail(self.features.mel, MEL_WINDOW_SIZE as nat))
        } else {
            None
        }
    }

    /// The embeddings that the classifiers are given, when there are enough and a wake word is
    /// looked for.
    pub open spec fn classified(self, now: u64) -> Option<Seq<E>> {
        if self.features.embeddings.len() >= EMBEDDING_WINDOW && self.may_detect(now) {
            Some(tail(self.features.embeddings, EMBEDDING_WINDOW as nat))
        } else {
            None
        }
    }

    /// The detector once a wake word was heard.
    pub open spec fn with_detection(self, now: u64) -> DetectorModel<M, E> {
        DetectorModel { last_detection_at: Some(now), ..self }
    }

    /// Whether a wake word is looked for at some time.
    pub open spec fn may_detect(self, now: u64) -> bool {
        match self.last_detection_at {
            Some(last) => now >= last && now - last >= DETECTION_DEBOUNCE,
            None => true,
        }
    }
}

impl<M, E> WakeWordDetector<M, E> {
    /// A detector that has heard nothing.
    pub fn new(paused: bool) -> (r: WakeWordDetector<M, E>)
        ensures
            r@ == (DetectorModel {
                paused,
                listening: false,
                sound: no_sound(),
                features: FeaturesModel::<M, E>::empty(),
                last_detection_at: None,
            }),
            r@.well_formed(),
    {
        WakeWordDetector {
            paused,
            listening: false,
            sound: FrameBuffer::new(FRAME_BYTES),
            features: Features::new(),
            last_detection_at: None,
        }
    }

    fn stop_hearing(&mut self)
        requires
            old(self)@.sound.frame_bytes == FRAME_BYTES,
        ensures
            final(self)@ == old(self)@.deaf(),
    {
        self.listening = false;
        self.sound.clear();
        self.features.clear();
    }

    /// What the detector needs next.
    pub fn need(&self) -> (r: WakeWordNeed)
        ensures
            r == self@.need(),
    {
        if self.paused {
            WakeWordNeed::Command
        } else if !self.listening {
            WakeWordNeed::Listener
        } else {
            WakeWordNeed::CommandOrSound
        }
    }

    /// Obeys a command, or the end of the commands.
    pub fn on_command(&mut self, cmd: Option<WakeWordCommand>) -> (r: Vec<WakeWordAction>)
        requires
            old(self)@.well_formed(),
        ensures
            final(self)@ == old(self)@.commanded(cmd),
            r@ == old(self)@.command_actions(cmd),
            final(self)@.well_formed(),
    {
        let ghost before = self@;
        let mut actions: Vec<WakeWordAction> = Vec::new();
        match cmd {
            Some(WakeWordCommand::Pause { ack, persist }) => {
                if self.listening {
                    actions.push(WakeWordAction::StopListener);
                }
                self.stop_hearing();
                self.paused = true;
                if persist {
                    actions.push(WakeWordAction::PersistAndNotify { muted: true });
                }
                if ack {
                    actions.push(WakeWordAction::Acknowledge);
                }
            },
            Some(WakeWordCommand::Resume { persist }) => {
                self.paused = false;
                if persist {
                    actions.push(WakeWordAction::PersistAndNotify { muted: false });
                }
            },
            None => {
                if self.listening {
                    actions.push(WakeWordAction::StopListener);
                    self.stop_hearing();
                }
                actions.push(WakeWordAction::End);
            },
        }
        assert(actions@ =~= before.command_actions(cmd));
        actions
    }

    /// Learns whether the listener could be started.
    pub fn on_listener(&mut self, started: bool) -> (r: Vec<WakeWordAction>)
        requires
            old(self)@.well_formed(),
            old(self)@.need() == WakeWordNeed::Listener,
        ensures
            final(self)@ == if started {
                (DetectorModel { listening: true, ..old(self)@.deaf() })
            } else {
                old(self)@
            },
            r@ == action_if(!started, WakeWordAction::Delay),
            final(self)@ == old(self)@.with_listener(started),
            final(self)@.well_formed(),
    {
        let mut actions: Vec<WakeWordAction> = Vec::new();
        if started {
            self.stop_hearing();
            self.listening = true;
        } else {
            actions.push(WakeWordAction::Delay);
        }
        assert(actions@ =~= action_if(!started, WakeWordAction::Delay));
        actions
    }

    /// Learns that no more sound comes.
    pub fn on_end_of_sound(&mut self) -> (r: Vec<WakeWordAction>)
        requires
            old(self)@.well_formed(),
        ensures
            final(self)@ == old(self)@.deaf(),
            r@ == seq![WakeWordAction::StopListener, WakeWordAction::Delay],
            r@ == old(self)@.end_of_sound_actions(),
            final(self)@.well_formed(),
    {
        self.stop_hearing();
        let mut actions: Vec<WakeWordAction> = Vec::new();
        actions.push(WakeWordAction::StopListener);
        actions.push(WakeWordAction::Delay);
        assert(actions@ =~= seq![WakeWordAction::StopListener, WakeWordAction::Delay]);
        actions
    }

    /// Takes in sound.
    pub fn on_sound(&mut self, bytes: &[u8])
        requires
            old(self)@.well_formed(),
            old(self)@.sound.data.len() + bytes@.len() <= isize::MAX,
        ensures
            final(self)@ == (DetectorModel {
                sound: FrameBufferModel {
                    data: old(self)@.sound.data + bytes@,
                    ..old(self)@.sound
                },
                ..old(self)@
            }),
            final(self)@ == old(self)@.with_sound(bytes@),
            final(self)@.well_formed(),
    {
        self.sound.push(bytes);
    }

    /// The samples that the first model is given next, where a whole frame is there.
    pub fn next_mel_input(&mut self) -> (r: Option<Vec<i16>>)
        requires
            old(self)@.well_formed(),
        ensures
            match r {
                Some(input) => {
                    let frame = old(self)@.sound.data.take(FRAME_BYTES as int);
                    &&& old(self)@.sound.data.len() >= FRAME_BYTES
                    &&& input@ == old(self)@.features.overlap + pcm::samples(frame)
                    &&& final(self)@ == (DetectorModel {
                        sound: FrameBufferModel {
                            data: old(self)@.sound.data.skip(FRAME_BYTES as int),
                            ..old(self)@.sound
                        },
                        features: FeaturesModel {
                            overlap: tail(pcm::samples(frame), MEL_OVERLAP_SAMPLES as nat),
                            ..old(self)@.features
                        },
                        ..old(self)@
                    })
                },
                None => old(self)@.sound.data.len() < FRAME_BYTES && final(self)@ == old(self)@,
            },
            match r {
                Some(input) => old(self)@.mel_input() == Some(input@),
                None => old(self)@.mel_input() is None,
            },
            final(self)@ == old(self)@.after_mel_input(),
            final(self)@.well_formed(),
    {
        match self.sound.next_pcm_frame() {
            Some(frame) => Some(self.features.mel_input(frame.as_slice())),
            None => None,
        }
    }

    /// Takes in mel frames, and says where those begin that the second model is given, when it is
    /// time for another embedding.
    pub fn on_mel(&mut self, frames: Vec<M>) -> (r: Option<usize>)
        requires
            old(self)@.well_formed(),
        ensures
            ({
                let features = FeaturesModel {
                    mel: old(self)@.features.mel + frames@,
                    mel_since_embed: old(self)@.features.mel_since_embed + frames@.len(),
                    ..old(self)@.features
                };
                &&& final(self)@ == (DetectorModel { features, ..old(self)@ })
                &&& match r {
                    Some(start) => features.embedding_due() && start == features.mel.len()
                        - MEL_WINDOW_SIZE,
                    None => !features.embedding_due(),
                }
            }),
            final(self)@ == old(self)@.with_mel(frames@),
            match r {
                Some(start) => final(self)@.mel_window() == Some(
                    final(self)@.features.mel.skip(start as int),
                ),
                None => final(self)@.mel_window() is None,
            },
            final(self)@.well_formed(),
    {
        let ghost before = self@;
        let ghost taken = frames@;
        self.features.push_mel(frames);
        let start = self.features.window_start();
        proof {
            assert(self@ == before.with_mel(taken));
            if let Some(from) = start {
                assert(self@.features.mel.skip(from as int) =~= tail(
                    self@.features.mel,
                    MEL_WINDOW_SIZE as nat,
                ));
            }
        }
        start
    }

    /// A mel frame.
    pub fn mel_frame(&self, i: usize) -> (r: &M)
        requires
            i < self@.features.mel.len(),
        ensures
            *r == self@.features.mel[i as int],
    {
        self.features.mel_frame(i)
    }

    /// Takes in an embedding.
    pub fn on_embedding(&mut self, embedding: E)
        requires
            old(self)@.well_formed(),
        ensures
            final(self)@ == (DetectorModel {
                features: old(self)@.features.with_embedding(embedding),
                ..old(self)@
            }),
            final(self)@.well_formed(),
    {
        self.features.push_embedding(embedding);
    }

    /// Where the embeddings begin that the classifiers are given, when there are enough of them
    /// and a wake word is looked for.
    pub fn classify_from(&self, now: u64) -> (r: Option<usize>)
        ensures
            match r {
                Some(start) => {
                    &&& self@.features.embeddings.len() >= EMBEDDING_WINDOW
                    &&& self@.may_detect(now)
                    &&& start == self@.features.embeddings.len() - EMBEDDING_WINDOW
                },
                None => self@.features.embeddings.len() < EMBEDDING_WINDOW || !self@.may_detect(
                    now,
                ),
            },
            match r {
                Some(start) => self@.classified(now) == Some(
                    self@.features.embeddings.skip(start as int),
                ),
                None => self@.classified(now) is None,
            },
    {
        let start: usize = match self.features.recent_start() {
            Some(s) => s,
            None => return None,
        };
        assert(self@.features.embeddings.skip(start as int) =~= tail(
            self@.features.embeddings,
            EMBEDDING_WINDOW as nat,
        ));
        match self.last_detection_at {
            Some(last) => if now < last || now - last < DETECTION_DEBOUNCE {
                None
            } else {
                Some(start)
            },
            None => Some(start),
        }
    }

    /// An embedding.
    pub fn embedding(&self, i: usize) -> (r: &E)
        requires
            i < self@.features.embeddings.len(),
        ensures
            *r == self@.features.embeddings[i as int],
    {
        self.features.embedding(i)
    }

    /// Learns that a wake word was heard.
    pub fn on_detection(&mut self, now: u64)
        requires
            old(self)@.well_formed(),
        ensures
            final(self)@ == (DetectorModel { last_detection_at: Some(now), ..old(self)@ }),
            final(self)@ == old(self)@.with_detection(now),
            final(self)@.well_formed(),
    {
        self.last_detection_at = Some(now);
    }
}

/// After a pause the detector waits for a command and has heard nothing; after a pause and a
/// resume it starts over with a listener.
pub proof fn law_pause_forgets_and_resume_starts_over<M, E>(
    d: DetectorModel<M, E>,
    ack: bool,
    persist: bool,
    again: bool,
)
    requires
        d.well_formed(),
    ensures
        ({
            let paused = d.commanded(Some(WakeWordCommand::Pause { ack, persist }));
            let resumed = paused.commanded(Some(WakeWordCommand::Resume { persist: again }));
            &&& paused.need() == WakeWordNeed::Command
            &&& paused.features == FeaturesModel::<M, E>::empty()
            &&& paused.sound == no_sound()
            &&& resumed.need() == WakeWordNeed::Listener
            &&& resumed.features == FeaturesModel::<M, E>::empty()
        }),
{
}

/// What is remembered of whether the detector is paused is what the command made it, and it is
/// remembered just where the command says so. A pause is acknowledged just where someone waits for
/// it, after everything else. A listener that is on is stopped first by a pause and by the end of
/// the commands, and no other command stops one.
pub proof fn law_commands_tell_the_state<M, E>(
    d: DetectorModel<M, E>,
    cmd: Option<WakeWordCommand>,
)
    ensures
        ({
            let told = d.command_actions(cmd);
            let after = d.commanded(cmd);
            let persist = match cmd {
                Some(WakeWordCommand::Pause { ack: _, persist }) => persist,
                Some(WakeWordCommand::Resume { persist }) => persist,
                None => false,
            };
            let waits = cmd matches Some(WakeWordCommand::Pause { ack, .. }) && ack;
            let resumes = cmd matches Some(WakeWordCommand::Resume { .. });
            &&& forall|muted: bool| #[trigger]
                told.contains(WakeWordAction::PersistAndNotify { muted }) ==> muted == after.paused
            &&& told.contains(WakeWordAction::PersistAndNotify { muted: after.paused }) <==> persist
            &&& told.contains(WakeWordAction::Acknowledge) <==> waits
            &&& waits ==> told.last() == WakeWordAction::Acknowledge
            &&& told.contains(WakeWordAction::StopListener) <==> d.listening && !resumes
            &&& d.listening && !resumes ==> told[0] == WakeWordAction::StopListener
            &&& told.contains(WakeWordAction::End) <==> cmd is None
            &&& !told.contains(WakeWordAction::Delay)
            &&& told.no_duplicates()
            &&& cmd matches Some(WakeWordCommand::Pause { .. }) ==> after.paused
            &&& resumes ==> !after.paused
            &&& cmd is None ==> after.paused == d.paused
            &&& after.listening ==> d.listening && resumes
            &&& after.last_detection_at == d.last_detection_at
        }),
{
    let told = d.command_actions(cmd);
    match cmd {
        Some(WakeWordCommand::Pause { ack, persist }) => {
            let stop: int = if d.listening {
                1
            } else {
                0
            };
            let keep: int = if persist {
                1
            } else {
                0
            };
            assert(d.listening ==> told[0] == WakeWordAction::StopListener);
            assert(persist ==> told[stop] == WakeWordAction::PersistAndNotify { muted: true });
            assert(ack ==> told[stop + keep] == WakeWordAction::Acknowledge);
        },
        Some(WakeWordCommand::Resume { persist }) => {
            assert(persist ==> told[0] == WakeWordAction::PersistAndNotify { muted: false });
        },
        None => {
            assert(told.last() == WakeWordAction::End);
            assert(d.listening ==> told[0] == WakeWordAction::StopListener);
        },
    }
}

/// Two wake words are not told within the time that must pass between them.
pub proof fn law_detections_keep_their_distance<M, E>(d: DetectorModel<M, E>, first: u64, now: u64)
    requires
        d.last_detection_at == Some(first),
        d.may_detect(now),
    ensures
        now - first >= DETECTION_DEBOUNCE,
{
}

/// A wake word that was heard is the last one from then on. Until it is told again, the time that
/// must pass since is the only thing that keeps the detector from looking for another.
pub proof fn law_detection_is_remembered<M, E>(d: DetectorModel<M, E>, first: u64, now: u64)
    ensures
        d.last_detection_at is None ==> d.may_detect(now),
        d.with_detection(first).may_detect(now) <==> now - first >= DETECTION_DEBOUNCE,
        d.with_detection(first).features == d.features,
        d.with_detection(first).sound == d.sound,
        d.with_detection(first).need() == d.need(),
        d.classified(now) is Some <==> d.features.embeddings.len() >= 16 && d.may_detect(now),
        d.classified(now) matches Some(given) ==> given.len() == 16 && given.is_suffix_of(
            d.features.embeddings,
        ),
{
}

/// The mel frames that are kept once an embedding is made are few, and the newest are among them.
/// The embeddings that are kept are the newest, and the one that was made is the last.
pub proof fn law_embedding_keeps_the_newest<M, E>(f: FeaturesModel<M, E>, e: E)
    requires
        f.well_formed(),
        f.embedding_due(),
    ensures
        f.with_embedding(e).well_formed(),
        MEL_WINDOW_SIZE <= f.with_embedding(e).mel.len() <= MEL_WINDOW_SIZE + MEL_SLIDE_STEP * 4,
        tail(f.with_embedding(e).mel, MEL_WINDOW_SIZE as nat) == tail(
            f.mel,
            MEL_WINDOW_SIZE as nat,
        ),
        f.with_embedding(e).embeddings.last() == e,
        !f.with_embedding(e).embedding_due(),
        f.with_embedding(e).embeddings.is_suffix_of(f.embeddings.push(e)),
        f.embeddings.len() < MAX_EMBEDDINGS ==> f.with_embedding(e).embeddings.len()
            == f.embeddings.len() + 1,
        f.embeddings.len() == MAX_EMBEDDINGS ==> f.with_embedding(e).embeddings.len()
            == MAX_EMBEDDINGS,
        f.with_embedding(e).mel.is_suffix_of(f.mel),
        f.with_embedding(e).overlap == f.overlap,
{
    let after = f.with_embedding(e);
    assert(tail(after.mel, MEL_WINDOW_SIZE as nat) =~= tail(f.mel, MEL_WINDOW_SIZE as nat));
    let all = f.embeddings.push(e);
    assert(after.embeddings =~= all.subrange(
        all.len() - after.embeddings.len(),
        all.len() as int,
    ));
    assert(after.mel =~= f.mel.subrange(f.mel.len() - after.mel.len(), f.mel.len() as int));
}

/// The detector waits for a command while it is paused, and then for a listener, until one is on.
/// It starts with one as if it had heard nothing, and goes on as before where none could start.
pub proof fn law_listener_starts_afresh<M, E>(d: DetectorModel<M, E>, started: bool)
    requires
        d.well_formed(),
        d.need() == WakeWordNeed::Listener,
    ensures
        !d.paused && !d.listening,
        started ==> d.with_listener(started).need() == WakeWordNeed::CommandOrSound,
        started ==> d.with_listener(started).sound.data.len() == 0,
        started ==> d.with_listener(started).features.mel.len() == 0,
        started ==> d.with_listener(started).features.embeddings.len() == 0,
        started ==> d.with_listener(started).features.overlap == silence(480),
        !started ==> d.with_listener(started) == d,
        d.with_listener(started).last_detection_at == d.last_detection_at,
{
}

/// The detector after so many frames of sound.
pub open spec fn after_frames<M, E>(d: DetectorModel<M, E>, n: nat) -> DetectorModel<M, E>
    decreases n,
{
    if n == 0 {
        d
    } else {
        after_frames(d, (n - 1) as nat).after_mel_input()
    }
}

/// The first model hears the sound without a gap: frame after frame it is given the samples of the
/// next frame, and in front of them the last samples of the frame before, or silence before the
/// first.
pub proof fn law_first_model_hears_without_a_gap<M, E>(
    d: DetectorModel<M, E>,
    heard: Seq<u8>,
    n: nat,
)
    requires
        d.sound.data.len() == 0,
        d.features.overlap == silence(480),
        heard.len() >= (n + 1) * 2560,
    ensures
        after_frames(d.with_sound(heard), n).mel_input() == Some(
            (silence(480) + pcm::samples(heard)).subrange(n as int * 1280, n as int * 1280 + 1760),
        ),
{
    let all = silence(480) + pcm::samples(heard);
    let now = after_frames(d.with_sound(heard), n);
    lemma_after_frames(d, heard, n);
    assert(now.mel_input()->0 =~= all.subrange(n as int * 1280, n as int * 1280 + 1760));
}

proof fn lemma_after_frames<M, E>(d: DetectorModel<M, E>, heard: Seq<u8>, n: nat)
    requires
        d.sound.data.len() == 0,
        d.features.overlap == silence(480),
        heard.len() >= n * 2560,
    ensures
        after_frames(d.with_sound(heard), n).sound.data == heard.skip(n as int * 2560),
        after_frames(d.with_sound(heard), n).features.overlap == (silence(480) + pcm::samples(
            heard,
        )).subrange(n as int * 1280, n as int * 1280 + 480),
    decreases n,
{
    let all = silence(480) + pcm::samples(heard);
    let now = after_frames(d.with_sound(heard), n);
    if n == 0 {
        assert(now.sound.data =~= heard.skip(0));
        assert(now.features.overlap =~= all.subrange(0, 480));
    } else {
        let m = (n - 1) as nat;
        lemma_after_frames(d, heard, m);
        assert(heard.skip(m as int * 2560).skip(2560) =~= heard.skip(n as int * 2560));
        assert(now.features.overlap =~= all.subrange(n as int * 1280, n as int * 1280 + 480));
    }
}

/// Mel frames are kept in the order in which they came. The second model is given the newest of
/// them, when there are enough and enough of them are new.
pub proof fn law_second_model_is_given_the_newest<M, E>(d: DetectorModel<M, E>, frames: Seq<M>)
    ensures
        d.with_mel(frames).features.mel == d.features.mel + frames,
        d.with_mel(frames).features.embeddings == d.features.embeddings,
        d.with_mel(frames).mel_window() is Some <==> d.features.mel.len() + frames.len() >= 76
            && d.features.mel_since_embed + frames.len() >= 8,
        d.with_mel(frames).mel_window() matches Some(window) ==> window.len() == 76
            && window.is_suffix_of(d.features.mel + frames),
{
}

/// What the first model gives is cut row by row: the frames of two runs of whole rows are those of
/// the first and then those of the second, and a row becomes one frame of its first values, with
/// zeros where it is too short.
pub proof fn law_rows_become_frames<T>(a: Seq<T>, b: Seq<T>, width: nat, zero: T)
    requires
        width > 0,
        a.len() % width == 0,
    ensures
        mel_frames(a + b, width, zero) == mel_frames(a, width, zero) + mel_frames(b, width, zero),
        a.len() == width ==> {
            &&& mel_frames(a, width, zero).len() == 1
            &&& mel_frames(a, width, zero)[0].len() == 32
            &&& forall|i: int|
                0 <= i < 32 ==> #[trigger] mel_frames(a, width, zero)[0][i] == if i < width {
                    a[i]
                } else {
                    zero
                }
        },
{
    let w = width as int;
    let rows = a.len() as int / w;
    let more = b.len() as int / w;
    assert(a.len() == rows * w && (a.len() + b.len()) as int / w == rows + more) by (
        nonlinear_arith)
        requires
            w > 0,
            a.len() as int % w == 0,
            rows == a.len() as int / w,
            more == b.len() as int / w,
    ;
    let whole = mel_frames(a + b, width, zero);
    let parts = mel_frames(a, width, zero) + mel_frames(b, width, zero);
    assert forall|i: int| 0 <= i < whole.len() implies #[trigger] whole[i] == parts[i] by {
        if i < rows {
            assert(i * w >= 0 && i * w + w <= rows * w) by (nonlinear_arith)
                requires
                    0 <= i < rows,
                    w > 0,
            ;
            assert(whole[i] =~= mel_frames(a, width, zero)[i]);
        } else {
            let j = i - rows;
            assert(i * w == j * w + a.len()) by (nonlinear_arith)
                requires
                    i == j + rows,
                    a.len() == rows * w,
            ;
            assert(j * w >= 0 && j * w + w <= b.len()) by (nonlinear_arith)
                requires
                    0 <= j < more,
                    more == b.len() as int / w,
                    w > 0,
            ;
            assert(whole[i] =~= mel_frames(b, width, zero)[j]);
        }
    }
    assert(whole =~= parts);
    if a.len() == width {
        assert(rows == 1) by (nonlinear_arith)
            requires
                w > 0,
                w == rows * w,
        ;
    }
}

/// A file of a classifier is named after its keyword, and the files of the other models are none.
pub proof fn law_classifier_is_named_after_its_keyword(keyword: Seq<char>)
    requires
        !".onnx"@.is_suffix_of(keyword),
        keyword != "melspectrogram"@,
        keyword != "embedding_model"@,
    ensures
        keyword_of(keyword + ".onnx"@) == Some(keyword),
        keyword_of(keyword) is None,
        keyword_of("melspectrogram"@ + ".onnx"@) is None,
        keyword_of("embedding_model"@ + ".onnx"@) is None,
{
    reveal_strlit(".onnx");
    reveal_strlit("melspectrogram");
    reveal_strlit("melspectrogram.onnx");
    reveal_strlit("embedding_model");
    reveal_strlit("embedding_model.onnx");
    let name = keyword + ".onnx"@;
    assert("melspectrogram"@ + ".onnx"@ =~= "melspectrogram.onnx"@);
    assert("embedding_model"@ + ".onnx"@ =~= "embedding_model.onnx"@);
    assert(name.subrange(name.len() - 5, name.len() as int) =~= ".onnx"@);
    assert(name.take(name.len() - 5) =~= keyword);
    assert("melspectrogram.onnx"@.take(14) =~= "melspectrogram"@);
    assert("embedding_model.onnx"@.take(15) =~= "embedding_model"@);
    text::law_trailing_run_is_taken_off(keyword, ".onnx"@);
}

/// Where no more sound comes, the listener is stopped, and after a while the detector starts over
/// with another, as if it had heard nothing.
pub proof fn law_end_of_sound_starts_over<M, E>(d: DetectorModel<M, E>)
    requires
        d.well_formed(),
        d.need() == WakeWordNeed::CommandOrSound,
    ensures
        d.end_of_sound_actions()[0] == WakeWordAction::StopListener,
        d.end_of_sound_actions().last() == WakeWordAction::Delay,
        d.end_of_sound_actions().len() == 2,
        d.deaf().need() == WakeWordNeed::Listener,
        d.deaf().sound.data.len() == 0,
        d.deaf().features.mel.len() == 0,
        d.deaf().features.embeddings.len() == 0,
        d.deaf().last_detection_at == d.last_detection_at,
{
}

} // verus!
