use charcoal_dict::app::{PrefetchAction, PrefetchEvent, PrefetchState};
use charcoal_dict::App;

fn run(events: &[PrefetchEvent]) -> (PrefetchState, Vec<PrefetchAction>) {
    let mut state = PrefetchState::Racing;
    let mut actions = Vec::new();
    for event in events {
        let (next, action) = App::prefetch_step(state, *event);
        state = next;
        actions.push(action);
    }
    (state, actions)
}

#[test]
fn prefetch_runs_concurrently_and_text_precedes_audio_completion() {
    let (state, actions) = run(&[PrefetchEvent::LookupFound, PrefetchEvent::PrefetchDone]);
    assert_eq!(actions, vec![PrefetchAction::Render, PrefetchAction::ReturnAudio]);
    assert_eq!(state, PrefetchState::Done);
}

#[test]
fn completed_prefetch_waits_for_lookup_before_rendering() {
    let (state, actions) = run(&[PrefetchEvent::PrefetchDone, PrefetchEvent::LookupFound]);
    assert_eq!(
        actions,
        vec![PrefetchAction::Wait, PrefetchAction::RenderThenReturnAudio]
    );
    assert_eq!(state, PrefetchState::Done);
}

#[test]
fn failed_and_missing_lookups_cancel_prefetch_without_rendering() {
    for (event, expected) in [
        (PrefetchEvent::LookupFailed, PrefetchAction::Fail),
        (PrefetchEvent::LookupEmpty, PrefetchAction::ReturnWithoutAudio),
    ] {
        let (state, actions) = run(&[event]);
        assert_eq!(state, PrefetchState::Cancelled);
        assert_eq!(actions, vec![expected]);
        let (state, actions) = run(&[PrefetchEvent::PrefetchDone, event]);
        assert_eq!(state, PrefetchState::Cancelled);
        assert_eq!(actions, vec![PrefetchAction::Wait, expected]);
    }
}

#[test]
fn events_after_the_end_are_ignored() {
    let (state, actions) = run(&[
        PrefetchEvent::LookupFailed,
        PrefetchEvent::PrefetchDone,
        PrefetchEvent::LookupFound,
    ]);
    assert_eq!(state, PrefetchState::Cancelled);
    assert_eq!(
        actions,
        vec![PrefetchAction::Fail, PrefetchAction::Ignore, PrefetchAction::Ignore]
    );
}
