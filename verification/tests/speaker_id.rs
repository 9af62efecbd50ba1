use xiaozhi_server::env::Env;
use xiaozhi_server::speaker_id::{
    best_speaker, has_voice, min_similarity_setting, top_scores, AgentMap, SpeakerIdConfig,
    SpeakerRegistry, SPEAKER_SCORE_TOP_K,
};

// An integer that orders as the float does.
fn key(x: f32) -> i64 {
    let bits = x.to_bits() as i32;
    (if bits < 0 { bits ^ 0x7fff_ffff } else { bits }) as i64
}

fn value(key: i64) -> f32 {
    let bits = key as i32;
    f32::from_bits((if bits < 0 { bits ^ 0x7fff_ffff } else { bits }) as u32)
}

fn speaker_similarity(query: &[f32], embeddings: &[Vec<f32>], top_k: usize) -> f32 {
    let keys: Vec<i64> = embeddings
        .iter()
        .map(|e| key(query.iter().zip(e).map(|(a, b)| a * b).sum::<f32>()))
        .collect();
    let top = top_scores(&keys, top_k);
    top.iter().map(|k| value(*k)).sum::<f32>() / top.len() as f32
}

fn env(pairs: &[(&str, &str)]) -> Env {
    Env {
        vars: pairs
            .iter()
            .map(|(a, b)| (a.to_string(), b.to_string()))
            .collect(),
    }
}

#[test]
fn parses_agent_map_json() {
    let map = AgentMap::parse(br#"{"alice":"agent-a","bob":"agent-b"}"#).unwrap();
    assert_eq!(map.get("alice").as_deref(), Some("agent-a"));
    assert_eq!(map.get("bob").as_deref(), Some("agent-b"));
}

#[test]
fn speaker_similarity_uses_top_k_mean() {
    let query = vec![1.0, 0.0];
    let embeddings = vec![
        vec![0.1, 0.0],
        vec![0.9, 0.0],
        vec![0.6, 0.0],
        vec![0.3, 0.0],
    ];

    let score = speaker_similarity(&query, &embeddings, 3);

    assert!((score - 0.6).abs() < f32::EPSILON);
}

#[test]
fn registry_identify_scores_each_speaker_from_multiple_samples() {
    let speakers = [
        ("alice", vec![vec![0.7, 0.0], vec![0.8, 0.0], vec![0.9, 0.0]]),
        ("bob", vec![vec![0.95, 0.0], vec![0.1, 0.0], vec![0.1, 0.0]]),
    ];
    let registry = SpeakerRegistry {
        speakers: speakers.iter().map(|(name, _)| name.to_string()).collect(),
        agent_map: AgentMap {
            entries: vec![("alice".to_string(), "agent-a".to_string())],
        },
    };
    let scores: Vec<f32> = speakers
        .iter()
        .map(|(_, embeddings)| speaker_similarity(&[1.0, 0.0], embeddings, SPEAKER_SCORE_TOP_K))
        .collect();
    let keys: Vec<i64> = scores.iter().map(|s| key(*s)).collect();

    let identity = registry.identify(&keys, "default-agent", key(-1.0), key(0.35));

    assert_eq!(identity.speaker_name.as_deref(), Some("alice"));
    assert_eq!(identity.agent_id, "agent-a");
    assert!((scores[identity.best.unwrap()] - 0.8).abs() < f32::EPSILON);
}

#[test]
fn unknown_voices_get_the_default_agent() {
    let registry = SpeakerRegistry {
        speakers: vec!["a".to_string(), "b".to_string()],
        agent_map: AgentMap::empty(),
    };
    let identity = registry.identify(&vec![3, 2], "d", 0, 5);
    assert_eq!(identity.speaker_name, None);
    assert_eq!(identity.agent_id, "d");
    assert_eq!(identity.best, Some(0));
    let identity = registry.identify(&vec![-3, -2], "d", 0, -5);
    assert_eq!(identity.speaker_name, None);
    assert_eq!(identity.best, None);
    let identity = registry.identify(&vec![3, 7], "d", 0, 5);
    assert_eq!(identity.speaker_name.as_deref(), Some("b"));
    assert_eq!(identity.agent_id, "b");
}

#[test]
fn the_first_of_equal_speakers_wins() {
    assert_eq!(best_speaker(&vec![1, 5, 5, 2], 0), Some(1));
    assert_eq!(best_speaker(&vec![1, 5], 5), None);
    assert_eq!(best_speaker(&vec![], 5), None);
}

#[test]
fn the_largest_scores_come_first() {
    assert_eq!(top_scores(&vec![3, 9, -1, 9, 4], 3), vec![9, 9, 4]);
    assert_eq!(top_scores(&vec![3, 9], 5), vec![9, 3]);
    assert_eq!(top_scores(&vec![3, 9], 0), Vec::<i64>::new());
}

#[test]
fn agent_maps_hold_texts_only() {
    assert!(AgentMap::parse(br#"{"a":1}"#).is_err());
    assert!(AgentMap::parse(b"[]").is_err());
    let map = AgentMap::parse(br#"{"a":"x","a":"y"}"#).unwrap();
    assert_eq!(map.get("a").as_deref(), Some("y"));
    assert_eq!(map.get("b"), None);
}

#[test]
fn speaker_settings_are_read() {
    assert!(SpeakerIdConfig::from_env(&env(&[])).unwrap().is_none());
    assert!(SpeakerIdConfig::from_env(&env(&[("SPEAKER_PROVIDER", "Off")]))
        .unwrap()
        .is_none());
    let err = SpeakerIdConfig::from_env(&env(&[("SPEAKER_PROVIDER", "X")])).unwrap_err();
    assert_eq!(
        err.message,
        "unsupported XIAOZHI_SPEAKER_PROVIDER=x; expected speaker_id or none"
    );
    let settings = env(&[
        ("XIAOZHI_SPEAKER_PROVIDER", ""),
        ("SPEAKER_PROVIDER", "voiceprint"),
        ("SPEAKER_MIN_SIMILARITY", "0.5"),
    ]);
    let config = SpeakerIdConfig::from_env(&settings).unwrap().unwrap();
    assert_eq!(config.model_path, "models/voxceleb_resnet34.onnx");
    assert_eq!(config.db_dir, "speakers");
    assert_eq!(config.default_agent_id, "zhuzhu");
    assert_eq!(min_similarity_setting(&settings).as_deref(), Some("0.5"));
    assert!(has_voice(&[1]));
    assert!(!has_voice(&[]));
}
