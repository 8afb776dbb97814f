use nocturned::audio::{AudioCommand, AudioEvent};
use nocturned::effect::ClientEffect;
use nocturned::pcm::pcm_to_samples;
use nocturned::voice::{level_event, on_audio_event, on_wake_word, VoiceAction};
use nocturned::wakeword::{
    classifier_keyword, load_preference_muted, mel_width, save_preference_muted, split_mel,
    Features, WakeWordAction, WakeWordCommand, WakeWordDetector, WakeWordEvent, WakeWordNeed,
    DETECTION_DEBOUNCE, FRAME_BYTES, MAX_EMBEDDINGS, MEL_BINS,
};

#[test]
fn pcm_to_f32_returns_raw_magnitude() {
    let max_bytes = i16::MAX.to_le_bytes();
    let neg_one_bytes = (-1i16).to_le_bytes();
    let result: Vec<f32> = pcm_to_samples(&[
        max_bytes[0],
        max_bytes[1],
        neg_one_bytes[0],
        neg_one_bytes[1],
    ])
    .into_iter()
    .map(|s| s as f32)
    .collect();
    assert_eq!(result[0], 32767.0f32);
    assert_eq!(result[1], -1.0f32);
}

#[test]
fn every_sample_is_read_little_end_first() {
    for s in i16::MIN..=i16::MAX {
        assert_eq!(pcm_to_samples(&s.to_le_bytes()), vec![s]);
    }
    assert_eq!(pcm_to_samples(&[1, 0, 9]), vec![1]);
}

#[test]
fn preference_is_kept() {
    assert!(load_preference_muted(Some(save_preference_muted(true))));
    assert!(!load_preference_muted(Some(save_preference_muted(false))));
    assert!(load_preference_muted(Some(" paused\n")));
    assert!(!load_preference_muted(Some("PAUSED")));
    assert!(!load_preference_muted(None));
}

#[test]
fn classifier_is_named_after_its_file() {
    assert_eq!(classifier_keyword("hey.onnx").as_deref(), Some("hey"));
    assert_eq!(classifier_keyword("melspectrogram.onnx"), None);
    assert_eq!(classifier_keyword("embedding_model.onnx"), None);
    assert_eq!(classifier_keyword("hey.txt"), None);
    assert_eq!(classifier_keyword("a.onnx.onnx").as_deref(), Some("a"));
}

#[test]
fn detector_pauses_resumes_and_ends() {
    let mut detector: WakeWordDetector<u8, u8> = WakeWordDetector::new(false);
    assert_eq!(detector.need(), WakeWordNeed::Listener);
    assert_eq!(detector.on_listener(false), vec![WakeWordAction::Delay]);
    assert!(detector.on_listener(true).is_empty());
    assert_eq!(detector.need(), WakeWordNeed::CommandOrSound);
    assert_eq!(
        detector.on_command(Some(WakeWordCommand::Pause { ack: true, persist: true })),
        vec![
            WakeWordAction::StopListener,
            WakeWordAction::PersistAndNotify { muted: true },
            WakeWordAction::Acknowledge,
        ]
    );
    assert_eq!(detector.need(), WakeWordNeed::Command);
    assert!(detector
        .on_command(Some(WakeWordCommand::Resume { persist: false }))
        .is_empty());
    assert_eq!(detector.need(), WakeWordNeed::Listener);
    detector.on_listener(true);
    assert_eq!(
        detector.on_end_of_sound(),
        vec![WakeWordAction::StopListener, WakeWordAction::Delay]
    );
    assert_eq!(detector.on_command(None), vec![WakeWordAction::End]);
}

#[test]
fn frames_overlap_for_the_first_model() {
    let mut detector: WakeWordDetector<u8, u8> = WakeWordDetector::new(false);
    detector.on_listener(true);
    let sound: Vec<u8> = (0..FRAME_BYTES as u32 / 2)
        .flat_map(|i| (i as i16).to_le_bytes())
        .collect();
    detector.on_sound(&sound[..1000]);
    assert!(detector.next_mel_input().is_none());
    detector.on_sound(&sound[1000..]);
    let input = detector.next_mel_input().unwrap();
    assert_eq!(input.len(), 1760);
    assert!(input[..480].iter().all(|s| *s == 0));
    assert_eq!((input[480], input[1759]), (0, 1279));
    detector.on_sound(&sound);
    let input = detector.next_mel_input().unwrap();
    assert_eq!((input[0], input[479], input[480]), (800, 1279, 0));
}

#[test]
fn embeddings_come_every_eight_frames() {
    let mut detector: WakeWordDetector<usize, usize> = WakeWordDetector::new(false);
    detector.on_listener(true);
    assert_eq!(detector.on_mel((0..75).collect()), None);
    assert_eq!(detector.on_mel(vec![75]), Some(0));
    assert_eq!(*detector.mel_frame(75), 75);
    detector.on_embedding(0);
    assert_eq!(detector.on_mel((76..83).collect()), None);
    assert_eq!(detector.on_mel(vec![83]), Some(8));
    detector.on_embedding(1);
    for i in 2..15 {
        detector.on_embedding(i);
    }
    assert_eq!(detector.classify_from(0), None);
    detector.on_embedding(15);
    assert_eq!(detector.classify_from(0), Some(0));
    assert_eq!(*detector.embedding(15), 15);
    detector.on_detection(100);
    assert_eq!(detector.classify_from(100 + DETECTION_DEBOUNCE - 1), None);
    assert_eq!(detector.classify_from(100 + DETECTION_DEBOUNCE), Some(0));
}

#[test]
fn only_the_newest_embeddings_are_kept() {
    let mut features: Features<u8, usize> = Features::new();
    for i in 0..MAX_EMBEDDINGS + 5 {
        features.push_embedding(i);
    }
    assert_eq!(features.recent_start(), Some(MAX_EMBEDDINGS - 16));
    assert_eq!(*features.embedding(0), 5);
    features.clear();
    assert_eq!(features.recent_start(), None);
}

#[test]
fn model_output_is_cut_into_frames() {
    assert_eq!(mel_width(&[1, 1, 5, 32]), 32);
    assert_eq!(mel_width(&[7]), MEL_BINS);
    let frames = split_mel(&(0..70).collect::<Vec<i32>>(), 32, -1);
    assert_eq!(frames.len(), 2);
    assert_eq!((frames[1][0], frames[1][31]), (32, 63));
    let frames = split_mel(&[1, 2, 3, 4], 2, 0);
    assert_eq!(frames.len(), 2);
    assert_eq!(&frames[1][..3], &[3, 4, 0]);
}

fn heard() -> WakeWordEvent {
    WakeWordEvent::Detected { keyword: "hey".to_string(), confidence: 0.75f32.to_bits() }
}

#[test]
fn wake_word_starts_a_recording() {
    match &on_wake_word(&heard(), false, true, true)[..] {
        [VoiceAction::Client(ClientEffect::Broadcast { topic, data }), VoiceAction::WakeWord(command), VoiceAction::Audio(AudioCommand::Start)] =>
        {
            assert_eq!(topic, "voice.wakeword");
            assert_eq!(data.get_str("keyword"), Some("hey"));
            assert_eq!(
                format!("{:?}", data.get("confidence").unwrap()),
                format!("Number(Single({}))", 0.75f32.to_bits())
            );
            assert_eq!(*command, WakeWordCommand::Pause { ack: true, persist: false });
        }
        other => panic!("unexpected {other:?}"),
    }
    assert_eq!(on_wake_word(&heard(), true, false, true).len(), 3);
    assert!(on_wake_word(&heard(), true, true, true).is_empty());
    assert!(on_wake_word(&heard(), false, false, false).is_empty());
    assert!(matches!(
        &on_wake_word(&WakeWordEvent::StateChanged { muted: true }, true, true, false)[..],
        [VoiceAction::RememberMuted(true)]
    ));
}

#[test]
fn detector_rests_while_a_recording_lasts() {
    let started = AudioEvent::Started { sample_rate: 16_000, channels: 1, frame_ms: 60 };
    assert_eq!(
        on_audio_event(&started),
        Some(WakeWordCommand::Pause { ack: false, persist: false })
    );
    let stopped = AudioEvent::Stopped { reason: "x".to_string(), total_frames: 0 };
    assert_eq!(on_audio_event(&stopped), Some(WakeWordCommand::Resume { persist: false }));
    assert_eq!(on_audio_event(&AudioEvent::MicLevel { energy: 1 }), None);
    match level_event(f32::NAN.to_bits()) {
        ClientEffect::Broadcast { topic, data } => {
            assert_eq!(topic, "audio.level");
            assert_eq!(format!("{:?}", data.get("level").unwrap()), "Null");
        }
        other => panic!("unexpected {other:?}"),
    }
}
