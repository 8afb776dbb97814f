use nocturned::ab::{
    open_and_load_ab_data, save_ab_data, ABData, AB_MAGIC, AB_METADATA_MISC_PARTITION_OFFSET,
    MISC_BUF_SIZE,
};
use nocturned::audio::{
    frame_samples, recording_failed, validate_config, AudioCapture, AudioCommand, AudioConfig,
    AudioEvent, CaptureAction, CaptureInput, CaptureState, FrameDecision, Recording,
    PCM_FRAME_BYTES, PCM_FRAME_SAMPLES, QUIET_ENERGY,
};
use nocturned::brightness::{
    als_to_brightness, ambient_light_update, backlight_text, get_brightness_config,
    init_brightness, median_of_samples, next_value, parse_brightness_value, read_ambient_light,
    set_auto_brightness, set_brightness, step_fn, tick_auto_brightness, AutoBrightness,
    BrightnessAction, BrightnessConfig, StoredFault,
};
use nocturned::config::{
    collect_device_info_metadata, get_bluetooth_device_name, get_firmware_version,
    get_serial_number, version_info_fault, Config, VersionInfo,
};
use nocturned::error::NocturnedError;
use nocturned::image_cache::ImageCache;
use nocturned::mfi::{
    CertificateAction, CertificateOutcome, ChallengeAction, ChallengeOutcome, MfiChip,
};
use nocturned::mfi_impl::HardwareMfiProvider;
use nocturned::pcm::{pcm_to_samples, sample_energy, FrameBuffer};
use std::collections::VecDeque;

fn device_text(json: &nocturned::json::Json) -> String {
    format!("{json:?}")
}

#[test]
fn capture_state_transitions_idle_recording_idle() {
    let state = CaptureState::Idle;
    let state = state.apply(AudioCommand::Start);
    assert_eq!(state, CaptureState::Recording);

    let state = state.apply(AudioCommand::Stop);
    assert_eq!(state, CaptureState::Idle);
}

#[test]
fn commands_that_fit_no_state_change_nothing() {
    assert_eq!(CaptureState::Idle.apply(AudioCommand::Stop), CaptureState::Idle);
    assert_eq!(CaptureState::Recording.apply(AudioCommand::Start), CaptureState::Recording);
}

#[test]
fn reset_record_boots_the_first_slot() {
    let mut data = ABData::default();
    assert!(!data.validate());
    data.reset();
    assert!(data.validate());
    assert_eq!(data.magic, AB_MAGIC);
    assert_eq!((data.version_major, data.version_minor), (1, 0));
    assert_eq!((data.slots[0].priority, data.slots[1].priority), (15, 14));
    assert_eq!((data.slots[0].tries_remaining, data.slots[1].tries_remaining), (7, 7));
    assert_eq!(data.get_active_slot(), 0);
}

#[test]
fn slots_are_chosen_failed_over_and_marked() {
    let mut data = ABData::default();
    data.reset();
    data.set_active_slot(1);
    assert_eq!(data.get_active_slot(), 1);
    assert_eq!((data.slots[0].priority, data.slots[1].priority), (14, 15));
    data.failover();
    assert_eq!(data.get_active_slot(), 0);
    data.slots[0].tries_remaining = 1;
    data.set_successful_boot(0);
    assert_eq!((data.slots[0].tries_remaining, data.slots[0].successful_boot), (7, 1));
    assert_eq!(data.get_active_slot(), 0);
    data.slots[0].priority = 3;
    data.slots[1].priority = 3;
    assert_eq!(data.get_active_slot(), 1);
}

#[test]
fn record_has_its_bytes_and_checksum() {
    let mut data = ABData::default();
    data.reset();
    let bytes = data.to_bytes_with_crc(0x0102_0304);
    assert_eq!(bytes.len(), 32);
    assert_eq!(&bytes[..16], &[0, 0x41, 0x42, 0x30, 1, 0, 0, 0, 15, 7, 0, 0, 14, 7, 0, 0]);
    assert_eq!(&bytes[28..], &[1, 2, 3, 4]);
    assert_eq!(data.calculate_crc32(), crc32fast::hash(&bytes[..28]));
    let again = ABData::from_bytes(&bytes);
    assert_eq!(again.crc32, 0x0102_0304);
    assert_eq!(again.to_bytes_no_crc(), data.to_bytes_no_crc());
    assert_eq!(data.to_bytes_no_crc().len(), 32);
    assert_eq!(&data.to_bytes_no_crc()[..28], &bytes[..28]);
    assert_eq!(&data.to_bytes_no_crc()[28..], &[0, 0, 0, 0]);
}

#[test]
fn saved_record_is_loaded() {
    let mut data = ABData::default();
    data.reset();
    data.set_active_slot(1);
    let mut misc = vec![0xEEu8; MISC_BUF_SIZE];
    save_ab_data(&data, &mut misc).unwrap();
    assert_eq!(misc[AB_METADATA_MISC_PARTITION_OFFSET - 1], 0xEE);
    let loaded = open_and_load_ab_data(&misc).unwrap();
    assert_eq!(loaded.get_active_slot(), 1);
    assert_eq!(loaded.crc32, data.calculate_crc32());
    let shown = device_text(&loaded.to_json_value());
    assert!(shown.contains("active_slot_letter") && shown.contains("\"B\""));
    let mut larger = vec![0xEEu8; MISC_BUF_SIZE + 5];
    save_ab_data(&data, &mut larger).unwrap();
    assert_eq!(&larger[..MISC_BUF_SIZE], &misc[..]);
    assert_eq!(&larger[MISC_BUF_SIZE..], &[0xEE; 5]);
    assert_eq!(open_and_load_ab_data(&larger).unwrap().get_active_slot(), 1);
}

#[test]
fn partition_that_holds_too_little_is_a_failure() {
    let mut data = ABData::default();
    data.reset();
    let mut misc = vec![0xEEu8; MISC_BUF_SIZE - 1];
    assert!(matches!(save_ab_data(&data, &mut misc), Err(NocturnedError::Io(_))));
    assert_eq!(misc, vec![0xEEu8; MISC_BUF_SIZE - 1]);
    assert!(matches!(open_and_load_ab_data(&misc), Err(NocturnedError::Io(_))));
}

#[test]
fn record_with_a_wrong_mark_or_version_is_refused() {
    let misc = vec![0u8; MISC_BUF_SIZE];
    match open_and_load_ab_data(&misc) {
        Err(NocturnedError::General(s)) => assert_eq!(s, "invalid AB data"),
        other => panic!("expected a failure, got {other:?}"),
    }
    let mut data = ABData::default();
    data.reset();
    data.version_major = 2;
    assert!(!data.validate());
    data.version_major = 0;
    assert!(data.validate());
}

fn frame_of(sample: i16) -> Vec<u8> {
    sample.to_le_bytes().repeat(PCM_FRAME_SAMPLES)
}

fn rms(samples: &[i16]) -> f32 {
    let mut sum = 0.0f64;
    for s in samples {
        let x = *s as f64;
        sum += x * x;
    }
    (sum / samples.len() as f64).sqrt() as f32
}

#[test]
fn quiet_energy_is_the_threshold_of_the_mean() {
    let mean = |energy: u64| (energy as f64 / PCM_FRAME_SAMPLES as f64).sqrt() as f32;
    assert!(mean(QUIET_ENERGY) < 300.0);
    assert!(mean(QUIET_ENERGY + 1) >= 300.0);
    for energy in [0u64, 1, 86_000_000, 86_399_000, QUIET_ENERGY - 1] {
        assert!(mean(energy) < 300.0);
    }
    for energy in [QUIET_ENERGY + 2, 86_400_000, 87_000_000, 1_000_000_000_000] {
        assert!(mean(energy) >= 300.0);
    }
    let samples = pcm_to_samples(&frame_of(-300));
    assert_eq!(sample_energy(&samples), 86_400_000);
    assert!(rms(&samples) >= 300.0);
}

#[test]
fn recording_tells_start_level_and_data() {
    let mut recording = Recording::new(AudioConfig::default());
    let loud = frame_of(1000);
    let (events, decision) = recording.on_frame(&loud, 0);
    assert!(matches!(decision, FrameDecision::Encode));
    assert_eq!(events.len(), 1);
    assert!(matches!(events[0], AudioEvent::Started { sample_rate: 16_000, channels: 1, frame_ms: 60 }));
    match recording.on_encoded(vec![1, 2], 77) {
        AudioEvent::Data { seq, opus_data, timestamp_ms } => {
            assert_eq!((seq, opus_data, timestamp_ms), (0, vec![1, 2], 77));
        }
        other => panic!("expected data, got {other:?}"),
    }
    let (events, _) = recording.on_frame(&loud, 60_000_000);
    assert!(events.is_empty());
    assert!(matches!(recording.on_encoded(vec![3], 78), AudioEvent::Data { seq: 1, .. }));
    let (events, _) = recording.on_frame(&loud, 120_000_000);
    assert_eq!(events.len(), 1);
    assert!(matches!(events[0], AudioEvent::MicLevel { energy: 960_000_000 }));
    assert!(matches!(recording.on_stop(), AudioEvent::Stopped { total_frames: 2, .. }));
}

#[test]
fn quiet_after_the_grace_period_ends_a_recording() {
    let mut recording = Recording::new(AudioConfig::default());
    let quiet = frame_of(10);
    let mut now = 0u64;
    let mut frames = 0u64;
    loop {
        let (_, decision) = recording.on_frame(&quiet, now);
        match decision {
            FrameDecision::Encode => {
                recording.on_encoded(Vec::new(), 0);
                frames += 1;
            }
            FrameDecision::Stop(AudioEvent::Stopped { reason, total_frames }) => {
                assert_eq!(reason, "silence");
                assert_eq!(total_frames, frames);
                break;
            }
            other => panic!("unexpected {other:?}"),
        }
        now += 60_000_000;
    }
    assert_eq!(now, 3_000_000_000);
}

#[test]
fn sound_keeps_a_recording_on() {
    let mut recording = Recording::new(AudioConfig::default());
    let quiet = frame_of(0);
    let loud = frame_of(2000);
    let mut now = 0u64;
    for i in 0..200 {
        let frame = if i % 20 == 19 { &loud } else { &quiet };
        let (_, decision) = recording.on_frame(frame, now);
        assert!(matches!(decision, FrameDecision::Encode));
        recording.on_encoded(Vec::new(), 0);
        now += 60_000_000;
    }
}

#[test]
fn end_of_sound_names_its_reason() {
    let mut recording = Recording::new(AudioConfig::default());
    match recording.on_end_of_sound() {
        AudioEvent::Stopped { reason, total_frames } => {
            assert_eq!((reason.as_str(), total_frames), ("startup_failed", 0));
        }
        other => panic!("unexpected {other:?}"),
    }
    recording.on_frame(&frame_of(900), 0);
    recording.on_encoded(vec![0], 0);
    match recording.on_end_of_sound() {
        AudioEvent::Stopped { reason, total_frames } => {
            assert_eq!((reason.as_str(), total_frames), ("arecord_eof", 1));
        }
        other => panic!("unexpected {other:?}"),
    }
    assert!(matches!(recording.on_stop(), AudioEvent::Stopped { reason, .. } if reason == "stopped"));
    match recording_failed("no sound card") {
        AudioEvent::Stopped { reason, total_frames } => {
            assert_eq!((reason.as_str(), total_frames), ("no sound card", 0));
        }
        other => panic!("unexpected {other:?}"),
    }
}

#[test]
fn recorder_follows_commands() {
    let mut capture = AudioCapture::new();
    assert_eq!(capture.run(CaptureInput::Command(AudioCommand::Stop)), CaptureAction::Nothing);
    assert_eq!(capture.run(CaptureInput::Command(AudioCommand::Start)), CaptureAction::StartRecording);
    assert_eq!(capture.run(CaptureInput::Command(AudioCommand::Start)), CaptureAction::Nothing);
    assert_eq!(capture.run(CaptureInput::RecordingDone), CaptureAction::FinishRecording);
    assert_eq!(capture.run(CaptureInput::Command(AudioCommand::Start)), CaptureAction::StartRecording);
    assert_eq!(capture.run(CaptureInput::Command(AudioCommand::Stop)), CaptureAction::StopRecording);
    assert_eq!(capture.run(CaptureInput::CommandsClosed), CaptureAction::End);
}

#[test]
fn only_one_sound_format_is_recorded() {
    assert!(validate_config(AudioConfig::default()).is_ok());
    for config in [
        AudioConfig { sample_rate: 48_000, ..AudioConfig::default() },
        AudioConfig { channels: 2, ..AudioConfig::default() },
        AudioConfig { frame_duration_ms: 20, ..AudioConfig::default() },
    ] {
        match validate_config(config) {
            Err(NocturnedError::General(s)) => {
                assert_eq!(s, "audio capture only supports 16kHz mono 60ms frames")
            }
            other => panic!("unexpected {other:?}"),
        }
    }
    match frame_samples(&[0u8; 10]) {
        Err(e) => assert_eq!(e.message(), "invalid pcm frame size: expected 1920 bytes, got 10"),
        Ok(_) => panic!("a short frame was taken"),
    }
    assert_eq!(frame_samples(&frame_of(-2)).unwrap(), vec![-2i16; 960]);
}

#[test]
fn frames_do_not_depend_on_how_the_sound_comes() {
    let sound: Vec<u8> = (0..PCM_FRAME_BYTES * 3 + 100).map(|i| (i % 256) as u8).collect();
    let mut whole = FrameBuffer::new(PCM_FRAME_BYTES);
    whole.push(&sound);
    let mut expected = Vec::new();
    while let Some(frame) = whole.next_pcm_frame() {
        expected.push(frame);
    }
    assert_eq!(expected.len(), 3);
    assert_eq!(expected.concat(), sound[..PCM_FRAME_BYTES * 3]);
    let mut buffer = FrameBuffer::new(PCM_FRAME_BYTES);
    let mut got = Vec::new();
    for piece in sound.chunks(700) {
        buffer.push(piece);
        while let Some(frame) = buffer.next_pcm_frame() {
            got.push(frame);
        }
    }
    assert_eq!(got, expected);
    buffer.clear();
    buffer.push(&sound[..PCM_FRAME_BYTES - 1]);
    assert!(buffer.next_pcm_frame().is_none());
}

fn float_step(current: i32, target: i32) -> i32 {
    let diff_scaled = (target - current) as f32 * 0.02;
    if diff_scaled >= 1.0 {
        diff_scaled.round() as i32
    } else if diff_scaled > 0.0 {
        1
    } else if diff_scaled <= -1.0 {
        diff_scaled.round() as i32
    } else if diff_scaled < 0.0 {
        -1
    } else {
        0
    }
}

#[test]
fn step_is_a_fiftieth_of_the_way() {
    for current in 0..=255u8 {
        for target in 0..=255u8 {
            assert_eq!(step_fn(current, target), float_step(current as i32, target as i32));
        }
    }
    assert_eq!(step_fn(20, 240), 4);
    assert_eq!(step_fn(240, 20), -4);
    assert_eq!(step_fn(100, 101), 1);
}

fn float_als(als_raw: u32) -> u8 {
    let stock: f64 = if als_raw <= 12 {
        235.0
    } else if als_raw >= 2000 {
        50.0
    } else {
        let inner = 2219.95 - (als_raw as f64) * 182.881;
        let log = (inner.abs() as f32).ln();
        ((297.479 - (log as f64) * 19.3238) as f32).round() as f64
    };
    let remapped = 240.0 - (235.0 - stock) * 220.0 / 185.0;
    remapped.round().clamp(20.0, 240.0) as u8
}

#[test]
fn light_is_mapped_to_brightness() {
    for als in 0..2100u32 {
        assert_eq!(als_to_brightness(als), float_als(als), "at {als}");
        assert!(als_to_brightness(als) >= als_to_brightness(als + 1), "at {als}");
    }
    assert_eq!(als_to_brightness(12), 240);
    assert_eq!(als_to_brightness(13), 198);
    assert_eq!(als_to_brightness(1999), 20);
    assert_eq!(als_to_brightness(2000), 20);
    assert_eq!(als_to_brightness(u32::MAX), 20);
}

#[test]
fn median_is_the_upper_middle() {
    assert_eq!(median_of_samples(&VecDeque::new()), None);
    assert_eq!(median_of_samples(&VecDeque::from(vec![9])), Some(9));
    assert_eq!(median_of_samples(&VecDeque::from(vec![5, 1])), Some(5));
    assert_eq!(median_of_samples(&VecDeque::from(vec![7, 1, 3, 9, 5])), Some(5));
}

#[test]
fn brightness_moves_to_its_target_and_stays() {
    assert_eq!(next_value(100, 100, 9), 100);
    assert_eq!(next_value(100, 103, 9), 103);
    assert_eq!(next_value(100, 90, -3), 97);
    assert_eq!(next_value(239, 255, 9), 240);
    assert_eq!(next_value(100, 100, i32::MAX), 100);
    assert_eq!(next_value(100, 90, i32::MIN), 90);
    assert_eq!(next_value(100, 103, i32::MAX - 100), 103);
    let dark = VecDeque::from(vec![3u32, 4, 5]);
    assert_eq!(tick_auto_brightness(&dark, None, 0, 40), Some((44, 240, 4)));
    assert_eq!(tick_auto_brightness(&dark, Some(240), 7, 40), Some((47, 240, 7)));
    assert_eq!(tick_auto_brightness(&VecDeque::new(), None, 0, 40), None);
    assert_eq!(tick_auto_brightness(&VecDeque::new(), None, i32::MAX, 40), None);
    assert_eq!(tick_auto_brightness(&dark, None, i32::MAX, 40), Some((44, 240, 4)));
    let mut auto = AutoBrightness::new();
    assert_eq!(auto.tick(40), None);
    for i in 0..20 {
        auto.push_sample(i % 3);
    }
    let mut shown = 40u8;
    for _ in 0..100 {
        shown = auto.tick(shown).unwrap();
        assert!((20..=240).contains(&shown));
    }
    assert_eq!(shown, 240);
}

#[test]
fn brightness_setting_is_kept_and_applied() {
    let config = get_brightness_config(None).unwrap();
    assert_eq!((config.auto, config.brightness), (true, 180));
    let kept = BrightnessConfig { auto: false, brightness: 7 };
    assert_eq!(get_brightness_config(Some(Ok(kept))).unwrap(), kept);
    assert!(matches!(
        get_brightness_config(Some(Err(StoredFault::Unreadable("bad".to_string())))),
        Err(NocturnedError::Io(s)) if s == "bad"
    ));
    assert!(matches!(
        get_brightness_config(Some(Err(StoredFault::Malformed("worse".to_string())))),
        Err(NocturnedError::Json(s)) if s == "worse"
    ));
    assert_eq!(
        set_brightness(9).unwrap(),
        vec![
            BrightnessAction::StopAuto,
            BrightnessAction::WriteBacklight(9),
            BrightnessAction::Save(BrightnessConfig { auto: false, brightness: 9 }),
        ]
    );
    assert_eq!(
        set_brightness(0).unwrap_err().message(),
        "brightness value must be between 1 and 255"
    );
    assert_eq!(
        set_auto_brightness(true, Some(kept)),
        vec![
            BrightnessAction::StartAuto,
            BrightnessAction::Save(BrightnessConfig { auto: true, brightness: 7 }),
        ]
    );
    assert_eq!(
        set_auto_brightness(false, None),
        vec![
            BrightnessAction::StopAuto,
            BrightnessAction::Save(BrightnessConfig { auto: false, brightness: 180 }),
        ]
    );
    assert_eq!(init_brightness(Some(kept)), vec![BrightnessAction::WriteBacklight(7)]);
    assert_eq!(init_brightness(None), Vec::<BrightnessAction>::new());
}

#[test]
fn brightness_and_light_are_read_from_their_files() {
    for value in 0..=255u8 {
        assert_eq!(parse_brightness_value(&backlight_text(value)), Some(value));
    }
    assert_eq!(parse_brightness_value(" 12\n"), Some(12));
    assert_eq!(parse_brightness_value("256"), None);
    assert_eq!(parse_brightness_value("-1"), None);
    assert_eq!(parse_brightness_value("+5"), Some(5));
    assert_eq!(read_ambient_light("1234\n"), Some(1234));
    assert_eq!(read_ambient_light("4294967296"), None);
    assert_eq!(read_ambient_light(""), None);
    assert!(ambient_light_update(Some(4), Some(4)).is_none());
    assert!(ambient_light_update(Some(4), None).is_none());
    let data = ambient_light_update(None, Some(4)).unwrap();
    assert_eq!(data.get_u64("value"), Some(4));
}

#[test]
fn device_is_named_after_its_serial_number() {
    let contents = Ok("  ABCD12345678 \n".to_string());
    assert_eq!(get_serial_number(&contents).unwrap(), "ABCD12345678");
    assert_eq!(get_bluetooth_device_name(&contents).unwrap(), "Nocturne (5678)");
    assert_eq!(get_bluetooth_device_name(&Ok("ab".to_string())).unwrap(), "Nocturne (ab)");
    assert_eq!(
        get_serial_number(&Ok(" \n".to_string())).unwrap_err().message(),
        "Serial number is empty"
    );
    assert_eq!(
        get_serial_number(&Err("gone".to_string())).unwrap_err().message(),
        "Failed to read serial number: gone"
    );
}

fn version(short: &str, long: &str) -> VersionInfo {
    VersionInfo {
        version: long.to_string(),
        short_version: short.to_string(),
        git_hash: "abc".to_string(),
        build_date: String::new(),
    }
}

#[test]
fn firmware_version_has_no_leading_letter() {
    assert_eq!(get_firmware_version(Ok(version("v1.2", "v1.2-x"))).unwrap(), "1.2");
    assert_eq!(get_firmware_version(Ok(version("vv", "v3"))).unwrap(), "3");
    assert_eq!(
        get_firmware_version(Ok(version("", "v"))).unwrap_err().message(),
        "Firmware version is empty"
    );
    let fault = version_info_fault(true, "eof");
    assert_eq!(fault.message(), "Failed to parse version JSON: eof");
    assert_eq!(version_info_fault(false, "eof").message(), "Failed to read firmware version: eof");
}

#[test]
fn device_information_is_collected() {
    let info = version("v1.2", "v1.2-x");
    let about = collect_device_info_metadata(&Ok("SER0001\n".to_string()), Some(&info));
    assert_eq!(about.device, "Nocturne (0001)");
    assert_eq!(about.version, "1.2");
    assert_eq!(about.full_version.as_deref(), Some("v1.2-x"));
    assert_eq!(about.build_date, None);
    assert_eq!(about.git_hash.as_deref(), Some("abc"));
    assert_eq!(about.serial_number.as_deref(), Some("SER0001"));
    let json = about.to_json();
    assert_eq!(json.get_str("fullVersion"), Some("v1.2-x"));
    assert!(json.get("buildDate").is_none());
    let about = collect_device_info_metadata(&Err("x".to_string()), None);
    assert_eq!((about.device.as_str(), about.version.as_str()), ("Nocturne", "unknown"));
    assert_eq!(about.serial_number, None);
}

#[test]
fn configuration_is_loaded_or_the_default() {
    assert!(!Config::load(None).unwrap().debug_logs);
    assert!(Config::load(Some(Ok(Config { debug_logs: true }))).unwrap().debug_logs);
    assert!(Config::load(Some(Err("x".to_string()))).is_err());
}

#[test]
fn image_is_kept_under_its_last_segment() {
    let cache = ImageCache {};
    assert_eq!(
        cache.get_cache_path("https://i.scdn.co/image/ab12"),
        "/var/cache/nocturned/images/ab12"
    );
    let url = "https://pickasso.spotifycdn.com/image/ab67c0de0000deef/dt/v1/img/daily/1/ab6761610000e5eb523b45e1db5e220a25302aba/en";
    assert_eq!(
        cache.get_cache_path(url),
        "/var/cache/nocturned/images/ab6761610000e5eb523b45e1db5e220a25302aba"
    );
    let other = url.replace("/en", "/de");
    assert_eq!(cache.get_cache_path(&other), cache.get_cache_path(url));
    assert_eq!(cache.get_cache_path("plain"), "/var/cache/nocturned/images/plain");
}

#[test]
fn certificate_is_accepted_or_refused() {
    let chip = MfiChip::new();
    assert_eq!(HardwareMfiProvider::new().chip, chip);
    assert_eq!(chip.certificate_length(3, 0xAA).unwrap(), 0x3AA);
    assert_eq!(chip.certificate_length(4, 0).unwrap(), 1024);
    assert_eq!(
        chip.certificate_length(4, 1).unwrap_err().message(),
        "Invalid certificate length: 1025"
    );
    assert!(chip.certificate_length(0, 0).is_err());
    assert_eq!(chip.check_certificate(vec![1, 2, 0], 2).unwrap(), vec![1, 2]);
    assert_eq!(
        chip.check_certificate(vec![0, 0, 1], 2).unwrap_err().message(),
        "Certificate is all zeros"
    );
    assert_eq!(
        chip.check_certificate(vec![0xFF, 0xFF, 0], 2).unwrap_err().message(),
        "Certificate is all 0xFF"
    );
}

#[test]
fn certificate_is_read_in_two_steps() {
    let chip = MfiChip::new();
    assert!(matches!(
        chip.read_certificate(CertificateOutcome::Asked),
        CertificateAction::ReadLength
    ));
    assert!(matches!(
        chip.read_certificate(CertificateOutcome::Length(1, 2)),
        CertificateAction::ReadData(258)
    ));
    match chip.read_certificate(CertificateOutcome::Data(vec![1, 2, 0], 2)) {
        CertificateAction::Finish(Ok(cert)) => assert_eq!(cert, vec![1, 2]),
        other => panic!("expected a certificate, got {other:?}"),
    }
    let fault = |outcome: CertificateOutcome| match chip.read_certificate(outcome) {
        CertificateAction::Finish(Err(e)) => e.message(),
        other => panic!("expected a failure, got {other:?}"),
    };
    let gone = || "gone".to_string();
    assert_eq!(fault(CertificateOutcome::NotOpened(gone())), "Cannot open MFi device: gone.");
    assert_eq!(fault(CertificateOutcome::NoLength(gone())), "ioctl get cert length failed: gone");
    assert_eq!(fault(CertificateOutcome::Length(0, 0)), "Invalid certificate length: 0");
    assert_eq!(
        fault(CertificateOutcome::NotOpenedForData(gone())),
        "Failed to open MFi device for data: gone"
    );
    assert_eq!(fault(CertificateOutcome::NoData(gone())), "ioctl get cert data failed: gone");
    assert_eq!(fault(CertificateOutcome::Data(vec![0, 0, 7], 2)), "Certificate is all zeros");
}

#[test]
fn challenge_is_sent_before_its_answer_is_judged() {
    let chip = MfiChip::new();
    let challenge = [7u8; 32];
    match chip.challenge_response(&challenge, ChallengeOutcome::Asked) {
        ChallengeAction::Send(data) => assert_eq!(data, challenge),
        other => panic!("expected to send, got {other:?}"),
    }
    assert!(matches!(
        chip.challenge_response(&challenge, ChallengeOutcome::Sent),
        ChallengeAction::Read
    ));
    let fault = |challenge: &[u8], outcome: ChallengeOutcome| {
        match chip.challenge_response(challenge, outcome) {
            ChallengeAction::Finish(Err(e)) => e.message(),
            other => panic!("expected a failure, got {other:?}"),
        }
    };
    let gone = || "gone".to_string();
    assert_eq!(
        fault(&challenge, ChallengeOutcome::NotOpened(gone())),
        "Failed to open MFi device: gone"
    );
    assert_eq!(
        fault(&challenge, ChallengeOutcome::NotSent(-1, gone())),
        "Failed to send challenge (ioctl returned -1): gone"
    );
    assert_eq!(
        fault(&challenge, ChallengeOutcome::NotRead(i32::MIN, gone())),
        "Failed to read response (ioctl returned -2147483648): gone"
    );
    for outcome in [ChallengeOutcome::Asked, ChallengeOutcome::Answered(vec![0x81; 64])] {
        assert_eq!(fault(&challenge[1..], outcome), "Challenge must be 32 bytes, got 31");
    }
}

#[test]
fn response_of_the_chip_is_accepted_or_refused() {
    let chip = MfiChip::new();
    assert!(chip.check_challenge(&[0u8; 32]).is_ok());
    assert_eq!(
        chip.check_challenge(&[0u8; 31]).unwrap_err().message(),
        "Challenge must be 32 bytes, got 31"
    );
    let good: Vec<u8> = (0..64u8).map(|i| i.wrapping_mul(37) | 0x80).collect();
    let judged = |resp: Vec<u8>| {
        match chip.challenge_response(&[0u8; 32], ChallengeOutcome::Answered(resp)) {
            ChallengeAction::Finish(result) => result,
            other => panic!("expected a verdict, got {other:?}"),
        }
    };
    assert_eq!(judged(good.clone()).unwrap(), good);
    let message = |resp: Vec<u8>| judged(resp).unwrap_err().message();
    assert_eq!(message(vec![0; 64]), "MFi chip returned all-zero signature - hardware error");
    assert_eq!(message(vec![0xFF; 64]), "MFi chip returned all-FF signature - hardware error");
    let mut text = vec![b'A'; 33];
    text.extend_from_slice(&[0xFF; 31]);
    let shown = String::from_utf8_lossy(&text).into_owned();
    assert_eq!(
        message(text),
        format!("Response appears to be ASCII (serial number?), expected binary signature. Got: {shown}")
    );
    let mut half = vec![0u8; 32];
    half.extend_from_slice(&[0x81; 32]);
    assert_eq!(message(half.clone()), "ECDSA signature r-component is zero - invalid signature");
    half.rotate_left(32);
    assert_eq!(message(half), "ECDSA signature s-component is zero - invalid signature");
}
