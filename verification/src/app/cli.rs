//! The command line: what a user can ask for, and the three-way switches it offers.
use vstd::prelude::*;

use crate::text::{self, join_strings};

verus! {

/// The parsed command line.
#[derive(Debug)]
pub struct Cli {
    pub commands: Commands,
}

/// What the user asked for.
#[derive(Debug)]
pub enum Commands {
    /// Query words from online or offline
    Query(QueryArgs),
    /// Edit the configuration file
    Edit(EditArgs),
    /// Cache commands
    Cache { commands: CacheCmds },
}

/// The arguments of a query.
#[derive(Debug)]
pub struct QueryArgs {
    /// The word to be queried
    pub query: Vec<String>,
    /// Speak aloud
    pub speak: bool,
    /// Mute (overloads speak)
    pub mute: bool,
    /// Whether to speak aloud
    pub speak_as: Option<Toggle>,
    /// Whether to refresh cache
    pub refresh: bool,
    /// Be concise
    pub concise: bool,
    /// Whether to be concise
    pub concise_as: Option<Toggle>,
}

impl QueryArgs {
    /// The queried words, joined by single spaces.
    pub fn query(&self) -> (r: String)
        ensures
            r@ == text::join(self.query.deep_view(), seq![' ']),
    {
        proof {
            reveal_strlit(" ");
            assert(" "@ =~= seq![' ']);
        }
        join_strings(&self.query, " ")
    }
}

/// The arguments of an edit.
#[derive(Debug)]
pub struct EditArgs {
    /// A fresh start
    pub reset: bool,
}

/// What to do with the cache.
#[derive(Debug)]
pub enum CacheCmds {
    /// Show cache location
    Show,
    /// Clean cache
    Clean,
    /// Import
    Import { dir: String },
    /// Export
    Export { dir: String },
}

/// A three-way switch for a boolean setting.
#[derive(Clone, Copy, Debug, PartialEq, Eq, Structural)]
pub enum Toggle {
    /// True
    True,
    /// False
    False,
    /// Flip
    Flip,
}

/// The setting `b` after `t` is applied to it.
pub open spec fn toggled(t: Toggle, b: bool) -> bool {
    match t {
        Toggle::True => true,
        Toggle::False => false,
        Toggle::Flip => !b,
    }
}

/// The setting `b` after `t` is applied to its opposite sense.
pub open spec fn counter_toggled(t: Toggle, b: bool) -> bool {
    match t {
        Toggle::True => false,
        Toggle::False => true,
        Toggle::Flip => !b,
    }
}

impl Toggle {
    /// Sets `b` as the switch says.
    pub fn twitch(&self, b: &mut bool)
        ensures
            *final(b) == toggled(*self, *old(b)),
    {
        match self {
            Toggle::True => *b = true,
            Toggle::False => *b = false,
            Toggle::Flip => *b = !*b,
        }
    }

    /// Sets `b` as the switch says of the opposite setting.
    pub fn counter_twitch(&self, b: &mut bool)
        ensures
            *final(b) == counter_toggled(*self, *old(b)),
    {
        match self {
            Toggle::True => *b = false,
            Toggle::False => *b = true,
            Toggle::Flip => *b = !*b,
        }
    }
}

/// A counter twitch of a setting is the twitch of its negation, negated.
pub proof fn lemma_counter_twitch_negates(t: Toggle, b: bool)
    ensures
        counter_toggled(t, b) == !toggled(t, !b),
{
}

/// Flipping twice restores a setting; setting to true or false twice is setting once.
pub proof fn lemma_twitch_twice(t: Toggle, b: bool)
    ensures
        t == Toggle::Flip ==> toggled(t, toggled(t, b)) == b,
        t != Toggle::Flip ==> toggled(t, toggled(t, b)) == toggled(t, b),
        t != Toggle::Flip ==> counter_toggled(t, counter_toggled(t, b)) == counter_toggled(t, b),
{
}

} // verus!
