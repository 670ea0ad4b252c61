use charcoal_dict::app::cli::{QueryArgs, Toggle};
use charcoal_dict::app::config::{MainMode, Normal};
use charcoal_dict::{Config, ExactQuery, Lang, Question, Suggestion};

fn args(words: &[&str]) -> QueryArgs {
    QueryArgs {
        query: words.iter().map(|w| w.to_string()).collect(),
        speak: false,
        mute: false,
        speak_as: None,
        refresh: false,
        concise: false,
        concise_as: None,
    }
}

#[test]
fn query_words_are_joined_by_spaces() {
    assert_eq!(args(&["hello", "world"]).query(), "hello world");
    assert_eq!(args(&["clear"]).query(), "clear");
    assert_eq!(args(&[]).query(), "");
}

#[test]
fn toggles_set_flip_and_counter() {
    for (toggle, start, set, counter) in [
        (Toggle::True, false, true, false),
        (Toggle::False, true, false, true),
        (Toggle::Flip, true, false, false),
        (Toggle::Flip, false, true, true),
    ] {
        let mut b = start;
        toggle.twitch(&mut b);
        assert_eq!(b, set);
        let mut b = start;
        toggle.counter_twitch(&mut b);
        assert_eq!(b, counter);
    }
}

#[test]
fn new_configuration_is_silent_english_and_shows_everything() {
    let config = Config::new("/tmp/config.toml".to_owned());
    assert_eq!(config.path, "/tmp/config.toml");
    assert_eq!(config.main_mode, MainMode::Normal);
    assert_eq!(config.lang, Lang::Eng);
    assert!(!config.speak);
    assert_eq!(
        config.normal,
        Normal { with_pronunciation: true, with_variants: true, with_sentence: true }
    );
    assert_eq!(Config::default().path, "");
    assert_eq!(Normal::default(), config.normal);
}

#[test]
fn speak_forces_speech_and_mute_overloads_it() {
    let mut config = Config::new(String::new());
    let mut a = args(&["hi"]);
    a.speak = true;
    config.apply(&mut a);
    assert!(config.speak);
    assert_eq!(a.speak_as, Some(Toggle::True));

    let mut config = Config::new(String::new());
    config.speak = true;
    let mut a = args(&["hi"]);
    a.speak = true;
    a.mute = true;
    config.apply(&mut a);
    assert!(!config.speak);
    assert_eq!(a.speak_as, Some(Toggle::False));
}

#[test]
fn speak_as_flips_and_concise_hides_details() {
    let mut config = Config::new(String::new());
    let mut a = args(&["hi"]);
    a.speak_as = Some(Toggle::Flip);
    a.concise = true;
    config.apply(&mut a);
    assert!(config.speak);
    assert!(!config.normal.with_sentence);
    assert!(!config.normal.with_variants);
    assert!(config.normal.with_pronunciation);

    let mut a = args(&["hi"]);
    a.concise_as = Some(Toggle::False);
    config.apply(&mut a);
    assert!(config.normal.with_sentence);
    assert!(config.normal.with_variants);
}

#[test]
fn empty_words_are_not_queries() {
    assert!(ExactQuery::new(String::new(), Lang::Eng, false).is_none());
    let query = ExactQuery::new("hello".into(), Lang::Cmn, true).unwrap();
    assert_eq!(query.word(), "hello");
    assert_eq!(query.lang(), Lang::Cmn);
    assert!(query.refresh());
}

#[test]
fn languages_round_trip_through_their_codes() {
    assert_eq!(Lang::Eng.code(), "eng");
    assert_eq!(Lang::from_code("fra"), Some(Lang::Fra));
    assert_eq!(Lang::from_code("cmn"), Some(Lang::Cmn));
    assert_eq!(Lang::from_code("xx"), None);
    assert_eq!(Lang::from_code(Lang::Ukr.code()), Some(Lang::Ukr));
}

#[test]
fn suggestions_keep_the_word() {
    assert_eq!(Suggestion::new("helo".into()).word, "helo");
}
