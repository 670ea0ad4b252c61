//! Where answers come from: the cache and the Youdao dictionary.
pub mod youdict;

use vstd::prelude::*;

use crate::app::cache::{self, Cache};
use crate::word::{ExactQuery, Question};

pub use youdict::{Sen, Sentence, SelectError};

verus! {

/// Why an answer was not taken from a source.
#[derive(Clone, Copy, Debug, PartialEq, Eq, Structural)]
pub enum AcquireError {
    /// The query asks to bypass the cache.
    ForceRefresh,
}

/// Answers kept in the cache.
pub struct QueryCache<'a> {
    cache: &'a Cache,
}

impl<'a> QueryCache<'a> {
    pub closed spec fn cache_view(&self) -> Cache {
        *self.cache
    }

    pub fn new(cache: &'a Cache) -> (r: Self)
        ensures
            r.cache_view() == *cache,
    {
        Self { cache }
    }

    /// The file that holds the cached answer to `word_query`, unless the query asks
    /// to bypass the cache.
    pub fn entry_path(&self, word_query: &ExactQuery) -> (r: Result<String, AcquireError>)
        ensures
            word_query.refresh_view() ==> r == Err::<String, AcquireError>(
                AcquireError::ForceRefresh,
            ),
            !word_query.refresh_view() ==> (r matches Ok(p) && p@ == cache::entry_path(
                self.cache_view().cache_dir_view(),
                cache::key_of(word_query.word_view(), word_query.lang_view(), cache::youdao_provider(), 1),
                cache::bin_format(),
            )),
    {
        if word_query.refresh() {
            return Err(AcquireError::ForceRefresh);
        }
        let key = word_query.cache_key();
        proof {
            crate::app::cache::lemma_format_literals();
        }
        match self.cache.get_file_path(&key, "bin") {
            Ok(p) => Ok(p),
            Err(_) => {
                proof {
                    assert(false);
                }
                Err(AcquireError::ForceRefresh)
            },
        }
    }
}

/// Answers from the Youdao dictionary.
pub struct QueryYoudict;

impl QueryYoudict {
    pub fn new() -> (r: Self) {
        Self
    }
}

} // verus!
