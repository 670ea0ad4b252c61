//! Words: what is asked, what is answered, and how answers are obtained.
pub mod backend;
pub mod frontend;
pub mod http;
pub mod speech;

use vstd::prelude::*;

use crate::app::cache::{self, CacheKey};
use crate::lang::Lang;

pub use backend::{AcquireError, QueryCache, QueryYoudict};

verus! {

/// A question to the dictionary.
pub trait Question {
    /// The word asked about.
    fn word(&self) -> String;

    /// The language it is asked in.
    fn lang(&self) -> Lang;

    /// Whether cached answers must be bypassed; unless a question says otherwise, they
    /// need not be.
    fn refresh(&self) -> (r: bool)
        default_ensures
            !r,
    {
        false
    }
}

/// An answer from the dictionary.
pub trait Answer {
    /// Whether the dictionary knew nothing of the word.
    fn not_found(&self) -> bool;
}

/// A source of answers.
pub trait Acquire {
    type WordQuery;
    type WordEntry;
    type Error;

    fn acquire(self, word_query: &Self::WordQuery) -> Result<Self::WordEntry, Self::Error>;
}

/// A query for exactly one non-empty word.
#[derive(Debug)]
pub struct ExactQuery {
    word: String,
    lang: Lang,
    refresh: bool,
}

impl ExactQuery {
    pub closed spec fn word_view(&self) -> Seq<char> {
        self.word@
    }

    pub closed spec fn lang_view(&self) -> Lang {
        self.lang
    }

    pub closed spec fn refresh_view(&self) -> bool {
        self.refresh
    }

    /// A query for `word`, unless it is empty.
    pub fn new(word: String, lang: Lang, refresh: bool) -> (r: Option<Self>)
        ensures
            r is None <==> word@.len() == 0,
            r matches Some(q) ==> q.word_view() == word@ && q.lang_view() == lang
                && q.refresh_view() == refresh,
    {
        if word.unicode_len() == 0 {
            return None;
        }
        Some(Self { word, lang, refresh })
    }

    /// The identity of this query's dictionary entry.
    pub fn cache_key(&self) -> (r: CacheKey)
        ensures
            r@ == cache::key_of(self.word_view(), self.lang_view(), cache::youdao_provider(), 1),
    {
        proof {
            cache::lemma_provider_literals();
        }
        CacheKey::new(self.word.as_str(), self.lang, "youdao", 1)
    }
}

impl Clone for ExactQuery {
    fn clone(&self) -> (r: Self)
        ensures
            r.word_view() == self.word_view(),
            r.lang_view() == self.lang_view(),
            r.refresh_view() == self.refresh_view(),
    {
        ExactQuery { word: self.word.clone(), lang: self.lang, refresh: self.refresh }
    }
}

impl Question for ExactQuery {
    fn word(&self) -> (r: String)
        ensures
            r@ == self.word_view(),
    {
        self.word.clone()
    }

    fn lang(&self) -> (r: Lang)
        ensures
            r == self.lang_view(),
    {
        self.lang
    }

    fn refresh(&self) -> (r: bool)
        ensures
            r == self.refresh_view(),
    {
        self.refresh
    }
}

} // verus!
