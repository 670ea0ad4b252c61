//! Spoken pronunciation: the address of the audio, whether bytes are audio, and the
//! decisions of fetching it through the cache.
//!
//! Reading and writing the cache, the download and the playback are done by the
//! program around this library, which runs `Speech::step` and performs the action it
//! returns.
use vstd::prelude::*;

use crate::app::cache::{self, CacheKey};
use crate::lang::Lang;
use crate::word::{ExactQuery, Question};

verus! {

/// Names the serialization of the URL that `url::Url::parse` makes of `base`, with the
/// `pairs` then appended to its query in `application/x-www-form-urlencoded` form;
/// `None` where `base` does not parse.
pub uninterp spec fn url_with_query(base: Seq<char>, pairs: Seq<(Seq<char>, Seq<char>)>) -> Option<
    Seq<char>,
>;

/// Names whether `rodio` can open `bytes` as audio (`rodio::Decoder::try_from` succeeds).
pub uninterp spec fn decodable_audio(bytes: Seq<u8>) -> bool;

/// Calls `url::Url::parse` on `base`, then `query_pairs_mut().extend_pairs` with `pairs`,
/// and serializes the URL. Claims that the result is `url_with_query` of the arguments.
#[verifier::external_body]
fn append_query_pairs(base: &str, pairs: &Vec<(String, String)>) -> (r: Option<String>)
    ensures
        match r {
            Some(u) => url_with_query(base@, pairs.deep_view()) == Some(u@),
            None => url_with_query(base@, pairs.deep_view()) is None,
        },
{
    let mut url = url::Url::parse(base).ok()?;
    url.query_pairs_mut().extend_pairs(pairs.iter());
    Some(url.into())
}

/// Calls `rodio::Decoder::try_from` on a cursor over a copy of `bytes`. Claims that the
/// decoder opens exactly when `decodable_audio(bytes)`.
#[verifier::external_body]
fn audio_decodes(bytes: &[u8]) -> (r: bool)
    ensures
        r == decodable_audio(bytes@),
{
    rodio::Decoder::try_from(std::io::Cursor::new(bytes.to_vec())).is_ok()
}

/// The language tag that the speech service is asked for: English, French and
/// Mandarin are spoken as such, every other language as English.
pub open spec fn tts_language(lang: Lang) -> Seq<char> {
    match lang {
        Lang::Fra => "fr"@,
        Lang::Cmn => "zh_cn"@,
        _ => "en"@,
    }
}

/// The speech service.
pub open spec fn tts_base() -> Seq<char> {
    "https://translate.google.com/translate_tts"@
}

/// The query of a speech request for `word` in `lang`.
pub open spec fn tts_pairs(word: Seq<char>, lang: Lang) -> Seq<(Seq<char>, Seq<char>)> {
    seq![
        ("ie"@, "UTF-8"@),
        ("client"@, "tw-ob"@),
        ("tl"@, tts_language(lang)),
        ("q"@, word),
    ]
}

/// Why speech was not delivered.
#[derive(Clone, Copy, Debug, PartialEq, Eq, Structural)]
pub enum SpeechError {
    /// The bytes are not audio.
    InvalidAudio,
    /// The download failed.
    FetchFailed,
}

/// How reading the cached audio failed.
#[derive(Clone, Copy, Debug, PartialEq, Eq, Structural)]
pub enum CacheReadError {
    /// Nothing is cached.
    NotFound,
    /// The cached file could not be read.
    Unavailable,
}

/// Where fetching speech through the cache stands.
#[derive(Debug)]
pub enum SpeechState {
    Start,
    ReadingCache,
    Fetching,
    /// Downloaded, valid audio is being written to the cache.
    Storing(Vec<u8>),
    Finished,
}

/// What happened outside.
#[derive(Debug)]
pub enum SpeechEvent {
    /// Speech was asked for; `refresh` bypasses the cache.
    Begin { refresh: bool },
    /// The cache was read.
    CacheRead(Result<Vec<u8>, CacheReadError>),
    /// The download ended, with the body or without.
    Fetched(Option<Vec<u8>>),
    /// Writing the cache ended, well or not.
    Stored { ok: bool },
}

/// What to do next.
#[derive(Debug)]
pub enum SpeechAction {
    /// Read the cached audio.
    ReadCache,
    /// Download the audio; `warn` reports that an unusable cache entry was skipped.
    Fetch { warn: bool },
    /// Write this audio to the cache.
    Store(Vec<u8>),
    /// Hand this audio out; `warn` reports that writing the cache failed.
    Deliver { audio: Vec<u8>, warn: bool },
    /// Give up.
    Fail(SpeechError),
    /// Nothing: the event does not belong to this state.
    Ignore,
}

/// The model of `SpeechState`.
pub enum SpeechStateView {
    Start,
    ReadingCache,
    Fetching,
    Storing(Seq<u8>),
    Finished,
}

/// The model of `SpeechEvent`.
pub enum SpeechEventView {
    Begin { refresh: bool },
    CacheRead(Result<Seq<u8>, CacheReadError>),
    Fetched(Option<Seq<u8>>),
    Stored { ok: bool },
}

/// The model of `SpeechAction`.
pub enum SpeechActionView {
    ReadCache,
    Fetch { warn: bool },
    Store(Seq<u8>),
    Deliver { audio: Seq<u8>, warn: bool },
    Fail(SpeechError),
    Ignore,
}

impl View for SpeechState {
    type V = SpeechStateView;

    open spec fn view(&self) -> SpeechStateView {
        match self {
            SpeechState::Start => SpeechStateView::Start,
            SpeechState::ReadingCache => SpeechStateView::ReadingCache,
            SpeechState::Fetching => SpeechStateView::Fetching,
            SpeechState::Storing(b) => SpeechStateView::Storing(b@),
            SpeechState::Finished => SpeechStateView::Finished,
        }
    }
}

impl View for SpeechEvent {
    type V = SpeechEventView;

    open spec fn view(&self) -> SpeechEventView {
        match self {
            SpeechEvent::Begin { refresh } => SpeechEventView::Begin { refresh: *refresh },
            SpeechEvent::CacheRead(Ok(b)) => SpeechEventView::CacheRead(Ok(b@)),
            SpeechEvent::CacheRead(Err(e)) => SpeechEventView::CacheRead(Err(*e)),
            SpeechEvent::Fetched(Some(b)) => SpeechEventView::Fetched(Some(b@)),
            SpeechEvent::Fetched(None) => SpeechEventView::Fetched(None),
            SpeechEvent::Stored { ok } => SpeechEventView::Stored { ok: *ok },
        }
    }
}

impl View for SpeechAction {
    type V = SpeechActionView;

    open spec fn view(&self) -> SpeechActionView {
        match self {
            SpeechAction::ReadCache => SpeechActionView::ReadCache,
            SpeechAction::Fetch { warn } => SpeechActionView::Fetch { warn: *warn },
            SpeechAction::Store(b) => SpeechActionView::Store(b@),
            SpeechAction::Deliver { audio, warn } => SpeechActionView::Deliver {
                audio: audio@,
                warn: *warn,
            },
            SpeechAction::Fail(e) => SpeechActionView::Fail(*e),
            SpeechAction::Ignore => SpeechActionView::Ignore,
        }
    }
}

/// The decisions of fetching speech through the cache: unless refreshing, valid cached
/// audio is used; otherwise the audio is downloaded, refused unless it is audio, cached,
/// and delivered even where caching fails.
pub open spec fn speech_next(state: SpeechStateView, event: SpeechEventView) -> (
    SpeechStateView,
    SpeechActionView,
) {
    match (state, event) {
        (SpeechStateView::Start, SpeechEventView::Begin { refresh }) => if refresh {
            (SpeechStateView::Fetching, SpeechActionView::Fetch { warn: false })
        } else {
            (SpeechStateView::ReadingCache, SpeechActionView::ReadCache)
        },
        (SpeechStateView::ReadingCache, SpeechEventView::CacheRead(read)) => match read {
            Ok(bytes) => if decodable_audio(bytes) {
                (SpeechStateView::Finished, SpeechActionView::Deliver { audio: bytes, warn: false })
            } else {
                (SpeechStateView::Fetching, SpeechActionView::Fetch { warn: true })
            },
            Err(e) => (
                SpeechStateView::Fetching,
                SpeechActionView::Fetch { warn: e != CacheReadError::NotFound },
            ),
        },
        (SpeechStateView::Fetching, SpeechEventView::Fetched(fetched)) => match fetched {
            None => (SpeechStateView::Finished, SpeechActionView::Fail(SpeechError::FetchFailed)),
            Some(bytes) => if decodable_audio(bytes) {
                (SpeechStateView::Storing(bytes), SpeechActionView::Store(bytes))
            } else {
                (SpeechStateView::Finished, SpeechActionView::Fail(SpeechError::InvalidAudio))
            },
        },
        (SpeechStateView::Storing(bytes), SpeechEventView::Stored { ok }) => (
            SpeechStateView::Finished,
            SpeechActionView::Deliver { audio: bytes, warn: !ok },
        ),
        _ => (state, SpeechActionView::Ignore),
    }
}

/// Speech for queried words.
pub struct Speech;

fn pair(key: &str, value: String) -> (r: (String, String))
    ensures
        r.0@ == key@,
        r.1@ == value@,
{
    (String::from_str(key), value)
}

impl Speech {
    /// The language tag that the speech service is asked for.
    pub fn language(lang: Lang) -> (r: &'static str)
        ensures
            r@ == tts_language(lang),
    {
        match lang {
            Lang::Fra => "fr",
            Lang::Cmn => "zh_cn",
            _ => "en",
        }
    }

    /// The address of the spoken word of a query.
    pub fn url(word_query: &ExactQuery) -> (r: Option<String>)
        ensures
            match r {
                Some(u) => url_with_query(
                    tts_base(),
                    tts_pairs(word_query.word_view(), word_query.lang_view()),
                ) == Some(u@),
                None => url_with_query(
                    tts_base(),
                    tts_pairs(word_query.word_view(), word_query.lang_view()),
                ) is None,
            },
    {
        let mut pairs: Vec<(String, String)> = Vec::new();
        pairs.push(pair("ie", String::from_str("UTF-8")));
        pairs.push(pair("client", String::from_str("tw-ob")));
        pairs.push(pair("tl", String::from_str(Self::language(word_query.lang()))));
        pairs.push(pair("q", word_query.word()));
        assert(pairs.deep_view() =~= tts_pairs(word_query.word_view(), word_query.lang_view()));
        append_query_pairs("https://translate.google.com/translate_tts", &pairs)
    }

    /// Whether `bytes` are audio.
    pub fn validate(bytes: &[u8]) -> (r: Result<(), SpeechError>)
        ensures
            r is Ok <==> decodable_audio(bytes@),
            r is Err ==> r == Err::<(), SpeechError>(SpeechError::InvalidAudio),
    {
        if audio_decodes(bytes) {
            Ok(())
        } else {
            Err(SpeechError::InvalidAudio)
        }
    }

    /// The identity under which the spoken word of a query is cached.
    pub fn cache_key(word_query: &ExactQuery) -> (r: CacheKey)
        ensures
            r@ == cache::key_of(
                word_query.word_view(),
                word_query.lang_view(),
                cache::tts_provider(),
                1,
            ),
    {
        proof {
            cache::lemma_provider_literals();
        }
        let word = word_query.word();
        CacheKey::new(word.as_str(), word_query.lang(), "google-tts", 1)
    }

    /// The next state and action after `event`.
    pub fn step(state: SpeechState, event: SpeechEvent) -> (r: (SpeechState, SpeechAction))
        ensures
            (r.0@, r.1@) == speech_next(state@, event@),
    {
        match (state, event) {
            (SpeechState::Start, SpeechEvent::Begin { refresh }) => if refresh {
                (SpeechState::Fetching, SpeechAction::Fetch { warn: false })
            } else {
                (SpeechState::ReadingCache, SpeechAction::ReadCache)
            },
            (SpeechState::ReadingCache, SpeechEvent::CacheRead(read)) => match read {
                Ok(bytes) => if audio_decodes(bytes.as_slice()) {
                    (SpeechState::Finished, SpeechAction::Deliver { audio: bytes, warn: false })
                } else {
                    (SpeechState::Fetching, SpeechAction::Fetch { warn: true })
                },
                Err(e) => {
                    let warn = match e {
                        CacheReadError::NotFound => false,
                        CacheReadError::Unavailable => true,
                    };
                    (SpeechState::Fetching, SpeechAction::Fetch { warn })
                },
            },
            (SpeechState::Fetching, SpeechEvent::Fetched(fetched)) => match fetched {
                None => (SpeechState::Finished, SpeechAction::Fail(SpeechError::FetchFailed)),
                Some(bytes) => if audio_decodes(bytes.as_slice()) {
                    let copy = bytes.clone();
                    assert(copy@ =~= bytes@);
                    (SpeechState::Storing(bytes), SpeechAction::Store(copy))
                } else {
                    (SpeechState::Finished, SpeechAction::Fail(SpeechError::InvalidAudio))
                },
            },
            (SpeechState::Storing(bytes), SpeechEvent::Stored { ok }) => (
                SpeechState::Finished,
                SpeechAction::Deliver { audio: bytes, warn: !ok },
            ),
            (state, _) => (state, SpeechAction::Ignore),
        }
    }
}

/// The states in which every audio held is valid.
pub open spec fn holds_valid_audio(state: SpeechStateView) -> bool {
    state matches SpeechStateView::Storing(b) ==> decodable_audio(b)
}

/// Invalid audio is never cached nor delivered: every audio that a step stores or
/// delivers is valid, and valid states stay valid.
pub proof fn lemma_only_valid_audio(state: SpeechStateView, event: SpeechEventView)
    requires
        holds_valid_audio(state),
    ensures
        holds_valid_audio(speech_next(state, event).0),
        speech_next(state, event).1 matches SpeechActionView::Store(b) ==> decodable_audio(b),
        speech_next(state, event).1 matches SpeechActionView::Deliver { audio, .. }
            ==> decodable_audio(audio),
{
}

/// Refreshing bypasses the cache: the first step downloads.
pub proof fn lemma_refresh_bypasses_cache()
    ensures
        speech_next(SpeechStateView::Start, SpeechEventView::Begin { refresh: true })
            == (SpeechStateView::Fetching, SpeechActionView::Fetch { warn: false }),
{
}

/// Valid cached audio is used as it is, without a download.
pub proof fn lemma_valid_cache_is_used(bytes: Seq<u8>)
    requires
        decodable_audio(bytes),
    ensures
        speech_next(SpeechStateView::ReadingCache, SpeechEventView::CacheRead(Ok(bytes))) == (
            SpeechStateView::Finished,
            SpeechActionView::Deliver { audio: bytes, warn: false },
        ),
{
}

/// Corrupt cached audio is replaced: it leads to a download.
pub proof fn lemma_corrupt_cache_is_refetched(bytes: Seq<u8>)
    requires
        !decodable_audio(bytes),
    ensures
        speech_next(SpeechStateView::ReadingCache, SpeechEventView::CacheRead(Ok(bytes))) == (
            SpeechStateView::Fetching,
            SpeechActionView::Fetch { warn: true },
        ),
{
}

/// Downloaded audio survives a failure to cache it: it is delivered all the same.
pub proof fn lemma_store_failure_still_delivers(bytes: Seq<u8>)
    ensures
        speech_next(SpeechStateView::Storing(bytes), SpeechEventView::Stored { ok: false }) == (
            SpeechStateView::Finished,
            SpeechActionView::Deliver { audio: bytes, warn: true },
        ),
{
}

} // verus!
