//! Suggestions for words the dictionary does not know.
use vstd::prelude::*;

verus! {

/// A suggestion to be looked for, for a word the dictionary did not know.
#[derive(Debug)]
pub struct Suggestion {
    pub word: String,
}

impl Suggestion {
    pub fn new(word: String) -> (r: Self)
        ensures
            r.word@ == word@,
    {
        Self { word }
    }
}

} // verus!
