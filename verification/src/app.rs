//! The application's verified parts: its cache, its command line, its configuration,
//! and the decisions of a query that looks a word up while its speech is prefetched.
pub mod cache;
pub mod cli;
pub mod config;

use vstd::prelude::*;

verus! {

/// The command line application; its entry points run in the program around this
/// library.
pub struct App {}

/// Where a lookup raced by a speech prefetch stands.
#[derive(Clone, Copy, Debug, PartialEq, Eq, Structural)]
pub enum PrefetchState {
    /// Both are running.
    Racing,
    /// The prefetch finished first; the lookup is still running.
    PrefetchReady,
    /// The entry was shown; the prefetch is still running.
    AwaitingPrefetch,
    /// The entry was shown and the prefetched audio handed out.
    Done,
    /// The lookup failed or found nothing; the prefetch was dropped.
    Cancelled,
}

/// What finished.
#[derive(Clone, Copy, Debug, PartialEq, Eq, Structural)]
pub enum PrefetchEvent {
    LookupFailed,
    /// The lookup found no entry for the word.
    LookupEmpty,
    LookupFound,
    PrefetchDone,
}

/// What to do next.
#[derive(Clone, Copy, Debug, PartialEq, Eq, Structural)]
pub enum PrefetchAction {
    /// Keep waiting for the lookup.
    Wait,
    /// Drop the prefetch and return the lookup's error.
    Fail,
    /// Drop the prefetch and return the empty entry, without audio and unshown.
    ReturnWithoutAudio,
    /// Show the entry, then wait for the prefetch.
    Render,
    /// Show the entry, then return it with the prefetched audio.
    RenderThenReturnAudio,
    /// Return the shown entry with the prefetched audio.
    ReturnAudio,
    /// Nothing: the event does not belong to this state.
    Ignore,
}

/// The decisions of a lookup raced by a prefetch: the entry is shown as soon as the
/// lookup finds it, the audio is handed out only after that, and a lookup that fails or
/// finds nothing drops the prefetch and shows nothing.
pub open spec fn prefetch_next(state: PrefetchState, event: PrefetchEvent) -> (
    PrefetchState,
    PrefetchAction,
) {
    match (state, event) {
        (PrefetchState::Racing, PrefetchEvent::LookupFailed) => (
            PrefetchState::Cancelled,
            PrefetchAction::Fail,
        ),
        (PrefetchState::Racing, PrefetchEvent::LookupEmpty) => (
            PrefetchState::Cancelled,
            PrefetchAction::ReturnWithoutAudio,
        ),
        (PrefetchState::Racing, PrefetchEvent::LookupFound) => (
            PrefetchState::AwaitingPrefetch,
            PrefetchAction::Render,
        ),
        (PrefetchState::Racing, PrefetchEvent::PrefetchDone) => (
            PrefetchState::PrefetchReady,
            PrefetchAction::Wait,
        ),
        (PrefetchState::PrefetchReady, PrefetchEvent::LookupFailed) => (
            PrefetchState::Cancelled,
            PrefetchAction::Fail,
        ),
        (PrefetchState::PrefetchReady, PrefetchEvent::LookupEmpty) => (
            PrefetchState::Cancelled,
            PrefetchAction::ReturnWithoutAudio,
        ),
        (PrefetchState::PrefetchReady, PrefetchEvent::LookupFound) => (
            PrefetchState::Done,
            PrefetchAction::RenderThenReturnAudio,
        ),
        (PrefetchState::AwaitingPrefetch, PrefetchEvent::PrefetchDone) => (
            PrefetchState::Done,
            PrefetchAction::ReturnAudio,
        ),
        _ => (state, PrefetchAction::Ignore),
    }
}

impl App {
    /// The next state and action of a lookup raced by a prefetch.
    pub fn prefetch_step(state: PrefetchState, event: PrefetchEvent) -> (r: (
        PrefetchState,
        PrefetchAction,
    ))
        ensures
            r == prefetch_next(state, event),
    {
        match (state, event) {
            (PrefetchState::Racing, PrefetchEvent::LookupFailed) => (
                PrefetchState::Cancelled,
                PrefetchAction::Fail,
            ),
            (PrefetchState::Racing, PrefetchEvent::LookupEmpty) => (
                PrefetchState::Cancelled,
                PrefetchAction::ReturnWithoutAudio,
            ),
            (PrefetchState::Racing, PrefetchEvent::LookupFound) => (
                PrefetchState::AwaitingPrefetch,
                PrefetchAction::Render,
            ),
            (PrefetchState::Racing, PrefetchEvent::PrefetchDone) => (
                PrefetchState::PrefetchReady,
                PrefetchAction::Wait,
            ),
            (PrefetchState::PrefetchReady, PrefetchEvent::LookupFailed) => (
                PrefetchState::Cancelled,
                PrefetchAction::Fail,
            ),
            (PrefetchState::PrefetchReady, PrefetchEvent::LookupEmpty) => (
                PrefetchState::Cancelled,
                PrefetchAction::ReturnWithoutAudio,
            ),
            (PrefetchState::PrefetchReady, PrefetchEvent::LookupFound) => (
                PrefetchState::Done,
                PrefetchAction::RenderThenReturnAudio,
            ),
            (PrefetchState::AwaitingPrefetch, PrefetchEvent::PrefetchDone) => (
                PrefetchState::Done,
                PrefetchAction::ReturnAudio,
            ),
            _ => (state, PrefetchAction::Ignore),
        }
    }
}

/// The state reached and the actions taken on a sequence of events.
pub open spec fn prefetch_run(start: PrefetchState, events: Seq<PrefetchEvent>) -> (
    PrefetchState,
    Seq<PrefetchAction>,
)
    decreases events.len(),
{
    if events.len() == 0 {
        (start, Seq::empty())
    } else {
        let before = prefetch_run(start, events.drop_last());
        let step = prefetch_next(before.0, events.last());
        (step.0, before.1.push(step.1))
    }
}

/// Whether an action shows the entry.
pub open spec fn renders(a: PrefetchAction) -> bool {
    a == PrefetchAction::Render || a == PrefetchAction::RenderThenReturnAudio
}

/// Whether an action hands the prefetched audio out.
pub open spec fn hands_out_audio(a: PrefetchAction) -> bool {
    a == PrefetchAction::ReturnAudio || a == PrefetchAction::RenderThenReturnAudio
}

/// What holds of every run from the start.
pub open spec fn prefetch_invariant(state: PrefetchState, actions: Seq<PrefetchAction>) -> bool {
    &&& (state == PrefetchState::Racing || state == PrefetchState::PrefetchReady || state
        == PrefetchState::Cancelled) ==> forall|i: int| 0 <= i < actions.len() ==> !renders(
        #[trigger] actions[i],
    )
    &&& (state == PrefetchState::AwaitingPrefetch || state == PrefetchState::Done) ==> exists|
        j: int,
    | 0 <= j < actions.len() && renders(#[trigger] actions[j])
    &&& forall|k: int|
        0 <= k < actions.len() && #[trigger] actions[k] == PrefetchAction::ReturnAudio ==> exists|
            j: int,
        | 0 <= j < k && renders(#[trigger] actions[j])
    &&& forall|k: int|
        0 <= k < actions.len() && hands_out_audio(#[trigger] actions[k]) ==> (
        state == PrefetchState::Done)
}

proof fn lemma_prefetch_invariant(events: Seq<PrefetchEvent>)
    ensures
        prefetch_invariant(
            prefetch_run(PrefetchState::Racing, events).0,
            prefetch_run(PrefetchState::Racing, events).1,
        ),
    decreases events.len(),
{
    if events.len() > 0 {
        lemma_prefetch_invariant(events.drop_last());
        let before = prefetch_run(PrefetchState::Racing, events.drop_last());
        let step = prefetch_next(before.0, events.last());
        let acts = before.1.push(step.1);
        assert forall|i: int| 0 <= i < before.1.len() implies acts[i] == before.1[i] by {}
        if step.0 == PrefetchState::AwaitingPrefetch || step.0 == PrefetchState::Done {
            if renders(step.1) {
                assert(renders(acts[before.1.len() as int]));
            } else {
                let j = choose|j: int| 0 <= j < before.1.len() && renders(#[trigger] before.1[j]);
                assert(renders(acts[j]));
            }
        }
        assert forall|k: int|
            0 <= k < acts.len() && #[trigger] acts[k] == PrefetchAction::ReturnAudio implies exists|
                j: int,
            | 0 <= j < k && renders(#[trigger] acts[j]) by {
            if k == before.1.len() {
                let j = choose|j: int| 0 <= j < before.1.len() && renders(#[trigger] before.1[j]);
                assert(renders(acts[j]));
            } else {
                assert(acts[k] == before.1[k]);
                let j = choose|j: int| 0 <= j < k && renders(#[trigger] before.1[j]);
                assert(renders(acts[j]));
            }
        }
    }
}

/// Text precedes audio: on any sequence of events, the prefetched audio is handed out
/// only together with or after the showing of the entry.
pub proof fn lemma_text_precedes_audio(events: Seq<PrefetchEvent>, k: int)
    requires
        0 <= k < prefetch_run(PrefetchState::Racing, events).1.len(),
        hands_out_audio(prefetch_run(PrefetchState::Racing, events).1[k]),
    ensures
        exists|j: int|
            0 <= j <= k && renders(#[trigger] prefetch_run(PrefetchState::Racing, events).1[j]),
{
    lemma_prefetch_invariant(events);
    let acts = prefetch_run(PrefetchState::Racing, events).1;
    if acts[k] == PrefetchAction::RenderThenReturnAudio {
        assert(renders(acts[k]));
    }
}

/// Failed and missing lookups cancel the prefetch without showing anything: once a run
/// is cancelled, none of its actions showed the entry or handed audio out.
pub proof fn lemma_cancelled_runs_show_nothing(events: Seq<PrefetchEvent>)
    requires
        prefetch_run(PrefetchState::Racing, events).0 == PrefetchState::Cancelled,
    ensures
        forall|i: int|
            0 <= i < prefetch_run(PrefetchState::Racing, events).1.len() ==> !renders(
                #[trigger] prefetch_run(PrefetchState::Racing, events).1[i],
            ) && !hands_out_audio(prefetch_run(PrefetchState::Racing, events).1[i]),
{
    lemma_prefetch_invariant(events);
}

/// A lookup that finds the entry shows it, whichever of the two finished first.
pub proof fn lemma_found_entries_are_shown(state: PrefetchState)
    requires
        state == PrefetchState::Racing || state == PrefetchState::PrefetchReady,
    ensures
        renders(prefetch_next(state, PrefetchEvent::LookupFound).1),
{
}

} // verus!
