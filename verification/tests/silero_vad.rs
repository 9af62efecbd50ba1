use xiaozhi_server::audio::silero_vad::{
    model_path, SileroVadConfig, SileroVadStream, SpeechLevel, VadEvent, VadParams, VadState,
};
use xiaozhi_server::env::Env;

fn level(prob: f32, threshold: f32) -> SpeechLevel {
    if prob > threshold {
        SpeechLevel::Speech
    } else if prob < threshold - 0.15 {
        SpeechLevel::Silence
    } else {
        SpeechLevel::Between
    }
}

fn params() -> VadParams {
    VadParams {
        frame_size_samples: 512,
        min_speech_samples: 512,
        speech_pad_samples: 0,
        min_silence_samples: 1024,
        min_silence_samples_at_max_speech: 1568,
    }
}

fn update(state: &mut VadState, params: &VadParams, prob: f32, max: f32) -> Option<VadEvent> {
    let too_long = state.speech_len(params) as f32 > max;
    state.update(params, level(prob, 0.5), too_long)
}

fn env(pairs: &[(&str, &str)]) -> Env {
    Env {
        vars: pairs
            .iter()
            .map(|(a, b)| (a.to_string(), b.to_string()))
            .collect(),
    }
}

#[test]
fn vad_state_emits_start_and_end_after_enough_silence() {
    let params = params();
    let max_speech_samples = 16_000.0;
    let mut state = VadState::default();

    assert_eq!(
        update(&mut state, &params, 0.8, max_speech_samples),
        Some(VadEvent::SpeechStart { sample: 0 })
    );
    assert_eq!(update(&mut state, &params, 0.8, max_speech_samples), None);
    assert_eq!(update(&mut state, &params, 0.1, max_speech_samples), None);
    assert_eq!(update(&mut state, &params, 0.1, max_speech_samples), None);
    assert_eq!(
        update(&mut state, &params, 0.1, max_speech_samples),
        Some(VadEvent::SpeechEnd {
            start_sample: 0,
            end_sample: 1536
        })
    );
}

#[test]
fn speech_that_lasts_too_long_is_cut_off() {
    let params = params();
    let mut state = VadState::default();
    assert_eq!(
        update(&mut state, &params, 0.9, 1000.0),
        Some(VadEvent::SpeechStart { sample: 0 })
    );
    assert_eq!(update(&mut state, &params, 0.9, 1000.0), None);
    assert_eq!(
        update(&mut state, &params, 0.45, 1000.0),
        Some(VadEvent::SpeechEnd {
            start_sample: 0,
            end_sample: 1536
        })
    );
}

#[test]
fn short_speech_starts_but_does_not_end() {
    let params = VadParams {
        min_speech_samples: 10_000,
        ..params()
    };
    let mut state = VadState::default();
    assert_eq!(
        update(&mut state, &params, 0.9, 1e9),
        Some(VadEvent::SpeechStart { sample: 0 })
    );
    for _ in 0..3 {
        assert_eq!(update(&mut state, &params, 0.1, 1e9), None);
    }
    assert!(!state.triggered);
    assert_eq!(
        update(&mut state, &params, 0.9, 1e9),
        Some(VadEvent::SpeechStart { sample: 2048 })
    );
}

#[test]
fn a_level_between_keeps_speech_on() {
    let params = params();
    let mut state = VadState::default();
    update(&mut state, &params, 0.9, 1e9);
    for _ in 0..10 {
        assert_eq!(update(&mut state, &params, 0.4, 1e9), None);
    }
    assert!(state.triggered);
}

#[test]
fn every_end_follows_its_own_start() {
    let params = params();
    let probs = [
        0.1, 0.9, 0.9, 0.1, 0.9, 0.1, 0.1, 0.1, 0.1, 0.9, 0.1, 0.1, 0.1, 0.9, 0.9, 0.9, 0.1, 0.1,
        0.1,
    ];
    let mut state = VadState::default();
    let mut last = None;
    let mut ends = 0;
    for prob in probs {
        if let Some(event) = update(&mut state, &params, prob, 1e9) {
            if let VadEvent::SpeechEnd { start_sample, end_sample } = event {
                assert_eq!(
                    last,
                    Some(VadEvent::SpeechStart {
                        sample: start_sample
                    })
                );
                assert!(end_sample - start_sample > params.min_speech_samples);
                ends += 1;
            }
            last = Some(event);
        }
    }
    assert_eq!(ends, 3);
}

#[test]
fn samples_are_gathered_into_frames() {
    let mut stream = SileroVadStream::new(VadParams {
        frame_size_samples: 4,
        ..params()
    });
    stream.accept_pcm(&[1, 2, 3]);
    assert_eq!(stream.next_frame(), None);
    stream.accept_pcm(&[4, 5, 6, 7, 8, 9]);
    assert_eq!(stream.next_frame(), Some(vec![1, 2, 3, 4]));
    assert_eq!(stream.next_frame(), Some(vec![5, 6, 7, 8]));
    assert_eq!(stream.next_frame(), None);
    assert_eq!(stream.speech_len(), 4);
    assert_eq!(
        stream.frame_level(SpeechLevel::Speech, false),
        Some(VadEvent::SpeechStart { sample: 0 })
    );
}

#[test]
fn vad_settings_have_defaults() {
    let config = SileroVadConfig::from_env(&env(&[])).unwrap().unwrap();
    assert_eq!(config.sample_rate, 16_000);
    assert_eq!(config.frame_size_ms, 32);
    assert_eq!(config.min_silence_duration_ms, 600);
    assert_eq!(config.speech_pad_ms, 64);
    assert_eq!(config.min_speech_duration_ms, 160);
    assert_eq!(config.model_path, None);
    assert!(config.check().is_ok());
    let params = VadParams::from_config(&config);
    let tried = VadParams::try_from_config(&config).unwrap();
    assert_eq!(format!("{tried:?}"), format!("{params:?}"));
    assert_eq!(params.frame_size_samples, 512);
    assert_eq!(params.min_speech_samples, 2560);
    assert_eq!(params.speech_pad_samples, 1024);
    assert_eq!(params.min_silence_samples, 9600);
    assert_eq!(params.min_silence_samples_at_max_speech, 1568);
}

#[test]
fn vad_settings_can_be_refused() {
    assert!(
        SileroVadConfig::from_env(&env(&[("XIAOZHI_VAD_PROVIDER", "OFF")]))
            .unwrap()
            .is_none()
    );
    let err = SileroVadConfig::from_env(&env(&[("XIAOZHI_VAD_PROVIDER", "Other")])).unwrap_err();
    assert_eq!(
        err.message,
        "unsupported XIAOZHI_VAD_PROVIDER=other; expected silero or none"
    );
    let mut config = SileroVadConfig::from_env(&env(&[(
        "XIAOZHI_VAD_FRAME_SIZE_MS",
        "0",
    )]))
    .unwrap()
    .unwrap();
    assert_eq!(
        config.check().unwrap_err().message,
        "Silero VAD frame size must be positive"
    );
    config.sample_rate = 44_100;
    assert_eq!(
        config.check().unwrap_err().message,
        "Silero VAD only supports 8kHz or 16kHz, got 44100"
    );
}

#[test]
fn model_paths_fall_back() {
    assert_eq!(model_path(&Some("x.onnx".to_string()), true), "x.onnx");
    assert_eq!(model_path(&None, true), "models/silero_vad.onnx");
    assert!(model_path(&None, false).ends_with("silero_vad/data/silero_vad.onnx"));
}

#[test]
fn sizes_have_to_be_countable() {
    let mut config = SileroVadConfig::from_env(&env(&[])).unwrap().unwrap();
    assert!(VadParams::try_from_config(&config).is_some());
    config.speech_pad_ms = usize::MAX / 16 + 1;
    assert!(VadParams::try_from_config(&config).is_none());
    config.speech_pad_ms = usize::MAX / 16;
    assert!(VadParams::try_from_config(&config).is_some());
    config.frame_size_ms = usize::MAX;
    assert!(VadParams::try_from_config(&config).is_none());
}
