//! The user's configuration and how the command line overrides it for one query.
use vstd::prelude::*;

use super::cli::{self, QueryArgs, Toggle};
use crate::lang::Lang;

verus! {

/// The configuration, kept as TOML at `path`.
#[derive(Debug)]
pub struct Config {
    pub path: String,
    pub main_mode: MainMode,
    pub lang: Lang,
    pub speak: bool,
    pub normal: Normal,
}

/// The display mode.
#[derive(Clone, Copy, Debug, PartialEq, Eq, Structural)]
pub enum MainMode {
    Normal,
}

/// What the normal display shows.
#[derive(Clone, Copy, Debug, PartialEq, Eq, Structural)]
pub struct Normal {
    pub with_pronunciation: bool,
    pub with_variants: bool,
    pub with_sentence: bool,
}

/// The normal display with everything shown.
pub open spec fn full_normal() -> Normal {
    Normal { with_pronunciation: true, with_variants: true, with_sentence: true }
}

/// A setting after an optional switch.
pub open spec fn toggled_opt(t: Option<Toggle>, b: bool) -> bool {
    match t {
        Some(t) => cli::toggled(t, b),
        None => b,
    }
}

/// A setting after an optional switch of its opposite sense.
pub open spec fn counter_toggled_opt(t: Option<Toggle>, b: bool) -> bool {
    match t {
        Some(t) => cli::counter_toggled(t, b),
        None => b,
    }
}

/// The speech switch that the flags of a query settle on: `--mute` wins over
/// `--speak`, which wins over `--speak-as`.
pub open spec fn settled_speak_as(args: QueryArgs) -> Option<Toggle> {
    if args.mute {
        Some(Toggle::False)
    } else if args.speak {
        Some(Toggle::True)
    } else {
        args.speak_as
    }
}

/// The conciseness switch that the flags of a query settle on: `--concise` wins over
/// `--concise-as`.
pub open spec fn settled_concise_as(args: QueryArgs) -> Option<Toggle> {
    if args.concise {
        Some(Toggle::True)
    } else {
        args.concise_as
    }
}

impl Config {
    /// The default configuration, kept at `path`: normal mode, English, silent, and
    /// everything shown.
    pub fn new(path: String) -> (r: Self)
        ensures
            r.path@ == path@,
            r.main_mode == MainMode::Normal,
            r.lang == Lang::Eng,
            !r.speak,
            r.normal == full_normal(),
    {
        Config {
            path,
            main_mode: MainMode::Normal,
            lang: Lang::Eng,
            speak: false,
            normal: Normal { with_pronunciation: true, with_variants: true, with_sentence: true },
        }
    }

    /// Applies the switches of a query to this configuration, recording in `args` the
    /// switches the flags settled on.
    pub fn apply(&mut self, args: &mut QueryArgs)
        ensures
            final(args).speak_as == settled_speak_as(*old(args)),
            final(args).concise_as == settled_concise_as(*old(args)),
            final(args).query == old(args).query,
            final(args).speak == old(args).speak,
            final(args).mute == old(args).mute,
            final(args).refresh == old(args).refresh,
            final(args).concise == old(args).concise,
            final(self).speak == toggled_opt(settled_speak_as(*old(args)), old(self).speak),
            final(self).normal.with_sentence == counter_toggled_opt(
                settled_concise_as(*old(args)),
                old(self).normal.with_sentence,
            ),
            final(self).normal.with_variants == counter_toggled_opt(
                settled_concise_as(*old(args)),
                old(self).normal.with_variants,
            ),
            old(args).mute ==> final(args).speak_as == Some(Toggle::False) && !final(self).speak,
            !old(args).mute && old(args).speak ==> final(args).speak_as == Some(Toggle::True)
                && final(self).speak,
            !old(args).mute && !old(args).speak ==> final(args).speak_as == old(args).speak_as
                && final(self).speak == toggled_opt(old(args).speak_as, old(self).speak),
            old(args).concise ==> final(args).concise_as == Some(Toggle::True)
                && !final(self).normal.with_sentence && !final(self).normal.with_variants,
            !old(args).concise ==> final(args).concise_as == old(args).concise_as
                && final(self).normal.with_sentence == counter_toggled_opt(
                old(args).concise_as,
                old(self).normal.with_sentence,
            ) && final(self).normal.with_variants == counter_toggled_opt(
                old(args).concise_as,
                old(self).normal.with_variants,
            ),
            final(self).normal.with_pronunciation == old(self).normal.with_pronunciation,
            final(self).path == old(self).path,
            final(self).main_mode == old(self).main_mode,
            final(self).lang == old(self).lang,
    {
        if args.speak {
            args.speak_as = Some(Toggle::True);
        }
        if args.mute {
            args.speak_as = Some(Toggle::False);
        }
        if let Some(speak_as) = &args.speak_as {
            speak_as.twitch(&mut self.speak);
        }
        if args.concise {
            args.concise_as = Some(Toggle::True);
        }
        if let Some(concise_as) = &args.concise_as {
            concise_as.counter_twitch(&mut self.normal.with_sentence);
            concise_as.counter_twitch(&mut self.normal.with_variants);
        }
    }
}

impl Default for Config {
    fn default() -> (r: Self)
        ensures
            r.path@ == Seq::<char>::empty(),
            r.main_mode == MainMode::Normal,
            r.lang == Lang::Eng,
            !r.speak,
            r.normal == full_normal(),
    {
        Self::new(String::new())
    }
}

impl Default for Normal {
    fn default() -> (r: Self)
        ensures
            r == full_normal(),
    {
        Normal { with_pronunciation: true, with_variants: true, with_sentence: true }
    }
}

/// `--mute` silences a query whatever else is asked and configured; otherwise
/// `--speak` or `--speak-as true` makes it speak.
pub proof fn lemma_mute_overrides_speak(args: QueryArgs, speak: bool)
    ensures
        args.mute ==> !toggled_opt(settled_speak_as(args), speak),
        !args.mute && args.speak ==> toggled_opt(settled_speak_as(args), speak),
        !args.mute && args.speak_as == Some(Toggle::True) ==> toggled_opt(
            settled_speak_as(args),
            speak,
        ),
{
}

/// `--concise` hides the example sentences and the variants.
pub proof fn lemma_concise_hides_details(args: QueryArgs, normal: Normal)
    requires
        args.concise,
    ensures
        !counter_toggled_opt(settled_concise_as(args), normal.with_sentence),
        !counter_toggled_opt(settled_concise_as(args), normal.with_variants),
{
}

/// A query without switches leaves the configuration as it is.
pub proof fn lemma_no_switches_no_change(args: QueryArgs, speak: bool, normal: Normal)
    requires
        !args.mute,
        !args.speak,
        !args.concise,
        args.speak_as is None,
        args.concise_as is None,
    ensures
        toggled_opt(settled_speak_as(args), speak) == speak,
        counter_toggled_opt(settled_concise_as(args), normal.with_sentence) == normal.with_sentence,
        counter_toggled_opt(settled_concise_as(args), normal.with_variants) == normal.with_variants,
{
}

/// Without `--mute` and `--speak`, an explicit `--speak-as t` is applied as given
/// (so `--speak-as false` silences the query and `--speak-as flip` flips the
/// setting); without `--concise`, an explicit `--concise-as t` is applied as given.
pub proof fn lemma_explicit_switch_applied(args: QueryArgs, speak: bool, normal: Normal)
    ensures
        !args.mute && !args.speak ==> settled_speak_as(args) == args.speak_as,
        !args.mute && !args.speak && args.speak_as == Some(Toggle::False) ==> !toggled_opt(
            settled_speak_as(args),
            speak,
        ),
        !args.mute && !args.speak && args.speak_as == Some(Toggle::Flip) ==> toggled_opt(
            settled_speak_as(args),
            speak,
        ) == !speak,
        !args.concise ==> settled_concise_as(args) == args.concise_as,
        !args.concise && args.concise_as == Some(Toggle::False) ==> counter_toggled_opt(
            settled_concise_as(args),
            normal.with_sentence,
        ) && counter_toggled_opt(settled_concise_as(args), normal.with_variants),
{
}

} // verus!
