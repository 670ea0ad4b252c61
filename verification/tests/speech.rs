use charcoal_dict::word::speech::{
    CacheReadError, SpeechAction, SpeechError, SpeechEvent, SpeechState,
};
use charcoal_dict::{CacheKey, ExactQuery, Lang, Speech};

fn wav() -> Vec<u8> {
    let mut bytes = Vec::new();
    bytes.extend_from_slice(b"RIFF");
    bytes.extend_from_slice(&68u32.to_le_bytes());
    bytes.extend_from_slice(b"WAVEfmt ");
    bytes.extend_from_slice(&16u32.to_le_bytes());
    bytes.extend_from_slice(&1u16.to_le_bytes());
    bytes.extend_from_slice(&1u16.to_le_bytes());
    bytes.extend_from_slice(&8000u32.to_le_bytes());
    bytes.extend_from_slice(&16000u32.to_le_bytes());
    bytes.extend_from_slice(&2u16.to_le_bytes());
    bytes.extend_from_slice(&16u16.to_le_bytes());
    bytes.extend_from_slice(b"data");
    bytes.extend_from_slice(&32u32.to_le_bytes());
    bytes.extend_from_slice(&[0; 32]);
    bytes
}

fn begin(refresh: bool) -> (SpeechState, SpeechAction) {
    Speech::step(SpeechState::Start, SpeechEvent::Begin { refresh })
}

#[test]
fn speech_parameters_are_encoded_and_language_is_preserved() {
    let query = ExactQuery::new("C++ & x=1#tail".into(), Lang::Fra, false).unwrap();
    let url = url::Url::parse(&Speech::url(&query).unwrap()).unwrap();
    let pairs: std::collections::HashMap<_, _> = url.query_pairs().collect();
    assert_eq!(pairs["q"], "C++ & x=1#tail");
    assert_eq!(pairs["tl"], "fr");
    assert!(url.fragment().is_none());
}

#[test]
fn speech_urls_name_the_service_and_client() {
    let query = ExactQuery::new("hello".into(), Lang::Eng, false).unwrap();
    assert_eq!(
        Speech::url(&query).unwrap(),
        "https://translate.google.com/translate_tts?ie=UTF-8&client=tw-ob&tl=en&q=hello"
    );
    assert_eq!(Speech::language(Lang::Cmn), "zh_cn");
    assert_eq!(Speech::language(Lang::Deu), "en");
}

#[test]
fn html_responses_are_not_audio() {
    assert!(Speech::validate(b"<html>Please verify your request</html>").is_err());
    assert_eq!(
        Speech::validate(b"<html>Please verify your request</html>"),
        Err(SpeechError::InvalidAudio)
    );
    assert!(Speech::validate(&wav()).is_ok());
}

#[test]
fn valid_audio_cache_works_without_network_or_playback() {
    let (state, action) = begin(false);
    assert!(matches!(action, SpeechAction::ReadCache));
    let (state, action) = Speech::step(state, SpeechEvent::CacheRead(Ok(wav())));
    assert!(matches!(state, SpeechState::Finished));
    match action {
        SpeechAction::Deliver { audio, warn } => {
            assert_eq!(audio, wav());
            assert!(!warn);
        }
        other => panic!("unexpected {other:?}"),
    }
}

#[test]
fn corrupt_audio_is_replaced_and_refresh_bypasses_valid_cache() {
    for refresh in [false, true] {
        let (mut state, action) = begin(refresh);
        if refresh {
            assert!(matches!(action, SpeechAction::Fetch { warn: false }));
        } else {
            assert!(matches!(action, SpeechAction::ReadCache));
            let (next, action) =
                Speech::step(state, SpeechEvent::CacheRead(Ok(b"invalid audio".to_vec())));
            assert!(matches!(action, SpeechAction::Fetch { warn: true }));
            state = next;
        }
        let (state, action) = Speech::step(state, SpeechEvent::Fetched(Some(wav())));
        match action {
            SpeechAction::Store(bytes) => assert_eq!(bytes, wav()),
            other => panic!("unexpected {other:?}"),
        }
        let (_, action) = Speech::step(state, SpeechEvent::Stored { ok: true });
        match action {
            SpeechAction::Deliver { audio, warn } => {
                assert_eq!(audio, wav());
                assert!(!warn);
            }
            other => panic!("unexpected {other:?}"),
        }
    }
}

#[test]
fn invalid_audio_responses_are_never_cached() {
    let (state, _) = begin(false);
    let (state, _) = Speech::step(state, SpeechEvent::CacheRead(Err(CacheReadError::NotFound)));
    let (state, action) = Speech::step(
        state,
        SpeechEvent::Fetched(Some(b"<html>Verification required</html>".to_vec())),
    );
    assert!(matches!(state, SpeechState::Finished));
    assert!(matches!(action, SpeechAction::Fail(SpeechError::InvalidAudio)));
}

#[test]
fn downloaded_audio_survives_cache_write_failure() {
    let (state, _) = begin(true);
    let (state, _) = Speech::step(state, SpeechEvent::Fetched(Some(wav())));
    let (state, action) = Speech::step(state, SpeechEvent::Stored { ok: false });
    assert!(matches!(state, SpeechState::Finished));
    match action {
        SpeechAction::Deliver { audio, warn } => {
            assert_eq!(audio, wav());
            assert!(warn);
        }
        other => panic!("unexpected {other:?}"),
    }
}

#[test]
fn missing_cache_is_fetched_quietly_and_unreadable_cache_with_a_warning() {
    let (state, _) = begin(false);
    let (_, action) = Speech::step(state, SpeechEvent::CacheRead(Err(CacheReadError::NotFound)));
    assert!(matches!(action, SpeechAction::Fetch { warn: false }));
    let (state, _) = begin(false);
    let (_, action) =
        Speech::step(state, SpeechEvent::CacheRead(Err(CacheReadError::Unavailable)));
    assert!(matches!(action, SpeechAction::Fetch { warn: true }));
}

#[test]
fn failed_downloads_fail_and_stray_events_are_ignored() {
    let (state, _) = begin(true);
    let (_, action) = Speech::step(state, SpeechEvent::Fetched(None));
    assert!(matches!(action, SpeechAction::Fail(SpeechError::FetchFailed)));
    let (state, action) = Speech::step(SpeechState::Start, SpeechEvent::Stored { ok: true });
    assert!(matches!(state, SpeechState::Start));
    assert!(matches!(action, SpeechAction::Ignore));
}

#[test]
fn speech_is_cached_under_the_tts_provider() {
    let query = ExactQuery::new("hello".into(), Lang::Eng, false).unwrap();
    assert_eq!(
        Speech::cache_key(&query),
        CacheKey::new("hello", Lang::Eng, "google-tts", 1)
    );
}
