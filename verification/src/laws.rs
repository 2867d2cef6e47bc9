//! What holds of every run of the engine.

use crate::config::ConfigView;
use crate::engine::{
    consistent, pending, start, step, ActionView, EngineView, EventView, LaunchError,
};
use crate::scanner::{lemma_versions_found_finite, versions_found, CandidateView};
use crate::versions::{ascending, lemma_sorted_listing_exists};
use vstd::prelude::*;

verus! {

/// The state after a row of events, taken up one after the other.
pub open spec fn run(engine: EngineView, events: Seq<EventView>) -> EngineView
    decreases events.len(),
{
    if events.len() == 0 {
        engine
    } else {
        step(run(engine, events.drop_last()), events.last())
    }
}

/// A run begins in a consistent state.
pub proof fn lemma_start_consistent(config: ConfigView)
    ensures
        consistent(start(config)),
{
}

/// No event leads out of the consistent states.
pub proof fn lemma_step_consistent(engine: EngineView, event: EventView)
    requires
        consistent(engine),
    ensures
        consistent(step(engine, event)),
{
    if let EventView::Listed(listing) = event {
        lemma_versions_found_finite(listing);
    }
}

/// Every state of every run is consistent.
pub proof fn lemma_run_consistent(config: ConfigView, events: Seq<EventView>)
    ensures
        consistent(run(start(config), events)),
    decreases events.len(),
{
    if events.len() > 0 {
        lemma_run_consistent(config, events.drop_last());
        lemma_step_consistent(run(start(config), events.drop_last()), events.last());
    }
}

/// At the end of a run the known versions are the versions found, whatever
/// was known before.
pub proof fn law_known_versions_are_those_found(config: ConfigView, events: Seq<EventView>)
    requires
        run(start(config), events).stage.finished(),
    ensures
        run(start(config), events).config.version == run(start(config), events).discovered,
{
    lemma_run_consistent(config, events);
}

/// Once a run is over, nothing changes its record any more, and all that is
/// asked for is to keep it.
pub proof fn law_finished_is_final(engine: EngineView, event: EventView)
    requires
        engine.stage.finished(),
    ensures
        step(engine, event) == engine,
        pending(engine) is Persist,
{
}

/// With exactly one version found and its start successful, the run ends
/// without a word to the user: the one version is started from the
/// installation directory, it becomes the last selection, and the versions
/// found become the known ones.
pub proof fn law_single_version_launches(engine: EngineView, event: EventView)
    requires
        consistent(engine),
        engine.stage.looking(),
        !step(engine, event).stage.looking(),
        step(engine, event).discovered.len() == 1,
    ensures
        ({
            let launching = step(engine, event);
            let found = launching.discovered;
            let done = step(launching, EventView::LaunchFinished(Ok(())));
            &&& found == set![found.choose()]
            &&& pending(launching) == (ActionView::Launch {
                root: launching.config.path,
                version: found.choose(),
            })
            &&& !pending(launching).asks_user()
            &&& done.stage is Launched
            &&& pending(done) is Persist
            &&& done.config.version == found
            &&& done.config.last_selected == found.choose()
            &&& done.config.path == launching.config.path
            &&& done.config.remember == (engine.config.remember && found == engine.config.version)
        }),
{
    let launching = step(engine, event);
    let found = launching.discovered;
    lemma_step_consistent(engine, event);
    Set::lemma_is_singleton(found);
    assert(found.contains(found.choose()));
    assert(found =~= set![found.choose()]);
}

/// When the versions found are not those that the last run knew, the
/// remembered choice is not trusted: whatever happens afterwards, the
/// remembered version is never started on its own, and "remember" is off for
/// as long as the run lasts.
pub proof fn law_changed_versions_forget(
    engine: EngineView,
    event: EventView,
    later: Seq<EventView>,
)
    requires
        consistent(engine),
        engine.stage.looking(),
        !step(engine, event).stage.looking(),
        step(engine, event).discovered != engine.config.version,
    ensures
        ({
            let after = run(step(engine, event), later);
            &&& !after.stage.looking()
            &&& after.stage !is RememberedAutoLaunch
            &&& !after.stage.finished() ==> !after.config.remember
        }),
    decreases later.len(),
{
    if later.len() > 0 {
        law_changed_versions_forget(engine, event, later.drop_last());
    }
}

/// When "remember" is on, the versions found are those that the last run
/// knew, and the last selection is one of them, that version is started
/// without a word to the user. If it cannot be started, the user gets the
/// list, with that version marked; a single version is tried twice before
/// that, once as the only one and once as the remembered one.
pub proof fn law_remembered_choice_launches(
    engine: EngineView,
    event: EventView,
    first_error: LaunchError,
    second_error: LaunchError,
)
    requires
        consistent(engine),
        engine.stage.looking(),
        !step(engine, event).stage.looking(),
        engine.config.remember,
        step(engine, event).discovered == engine.config.version,
        step(engine, event).discovered.contains(engine.config.last_selected),
    ensures
        ({
            let choice = engine.config.last_selected;
            let launching = step(engine, event);
            let launch = ActionView::Launch { root: launching.config.path, version: choice };
            let failed = step(launching, EventView::LaunchFinished(Err(first_error)));
            let asking = if failed.stage is Interactive {
                failed
            } else {
                step(failed, EventView::LaunchFinished(Err(second_error)))
            };
            &&& pending(launching) == launch
            &&& !pending(launching).asks_user()
            &&& step(launching, EventView::LaunchFinished(Ok(()))).stage is Launched
            &&& failed.stage !is Interactive ==> pending(failed) == launch
            &&& asking.stage is Interactive
            &&& pending(asking) is PickOne
            &&& pending(asking)->preselected == Some(choice)
            &&& asking.config.remember
            &&& asking.config.last_selected == choice
        }),
{
    let launching = step(engine, event);
    let found = launching.discovered;
    lemma_step_consistent(engine, event);
    if found.len() == 1 {
        Set::lemma_is_singleton(found);
        assert(found.contains(found.choose()));
    }
}

/// The user is asked for a directory at most once: after the directory that
/// the user named has been listed, no row of events leads back to the
/// question or to another listing.
pub proof fn law_directory_asked_once(engine: EngineView, event: EventView, later: Seq<EventView>)
    requires
        engine.stage is Rescanning,
        event is Listed,
    ensures
        !run(step(engine, event), later).stage.looking(),
    decreases later.len(),
{
    if later.len() > 0 {
        law_directory_asked_once(engine, event, later.drop_last());
    }
}

/// The list that the user gets holds the versions found, each once, in
/// dictionary order, and the last selection is marked if it is among them.
pub proof fn law_list_shows_versions_found(engine: EngineView)
    requires
        consistent(engine),
        engine.stage is Interactive,
    ensures
        pending(engine) is PickOne,
        ascending(pending(engine)->items),
        pending(engine)->items.to_set() == engine.discovered,
        pending(engine)->items.len() == engine.discovered.len(),
        pending(engine)->preselected == if engine.discovered.contains(engine.config.last_selected) {
            Some(engine.config.last_selected)
        } else {
            None
        },
{
    lemma_sorted_listing_exists(engine.discovered);
}

/// A version that the user asked for and that could not be started leaves
/// everything as it was: the list is shown again, and the record is
/// untouched.
pub proof fn law_failed_request_changes_nothing(
    engine: EngineView,
    selection: Option<Seq<char>>,
    remember: bool,
    error: LaunchError,
)
    requires
        engine.stage is Interactive,
    ensures
        ({
            let asked = step(engine, EventView::LaunchRequested { selection, remember });
            step(asked, EventView::LaunchFinished(Err(error))) == engine
        }),
{
}

/// A remembered choice stays one of the known versions: if the record of
/// the last run had it so, the record at the end of this run has it so too,
/// unless the user closed the list with nothing selected and "remember"
/// ticked.
pub proof fn law_remembered_choice_is_known(config: ConfigView, events: Seq<EventView>)
    requires
        config.coherent(),
    ensures
        ({
            let end = run(start(config), events);
            end.config.coherent() || (end.stage is ClosedWithoutLaunch
                && end.config.last_selected.len() == 0)
        }),
    decreases events.len(),
{
    if events.len() > 0 {
        let before = run(start(config), events.drop_last());
        law_remembered_choice_is_known(config, events.drop_last());
        lemma_run_consistent(config, events.drop_last());
        if before.stage is OneVersionAutoLaunch {
            Set::lemma_is_singleton(before.discovered);
            assert(before.discovered.contains(before.discovered.choose()));
        }
    }
}

/// The world that a run meets: what listing a directory gives, and how the
/// start of a version from a directory ends.
pub struct World {
    pub entries: spec_fn(Seq<char>) -> Option<Seq<CandidateView>>,
    pub launches: spec_fn(Seq<char>, Seq<char>) -> Result<(), LaunchError>,
}

/// What comes back for `action` in `world` from a user who declines every
/// question: no new directory, and the list closed as it was shown, with the
/// "remember" box left at `remember`. At the end of a run nothing is asked
/// for, and whatever comes back changes nothing.
pub open spec fn declined(world: World, action: ActionView, remember: bool) -> EventView {
    match action {
        ActionView::Scan { root } => EventView::Listed((world.entries)(root)),
        ActionView::PickDirectory => EventView::DirectoryPicked(None),
        ActionView::Launch { root, version } => EventView::LaunchFinished(
            (world.launches)(root, version),
        ),
        ActionView::PickOne { items, preselected } => EventView::Closed {
            selection: preselected,
            remember,
        },
        ActionView::Persist => EventView::DirectoryPicked(None),
    }
}

/// One turn of a run with such a user: the engine asks, the world answers.
pub open spec fn turn(world: World, engine: EngineView, remember: bool) -> EngineView {
    step(engine, declined(world, pending(engine), remember))
}

/// A whole run with such a user. Four turns end every run: the listing, the
/// declined question for a directory or the start of a single version, the
/// start of the remembered version, and the closed list.
pub open spec fn declined_run(world: World, config: ConfigView, remember: bool) -> EngineView {
    let listed = turn(world, start(config), remember);
    let second = turn(world, listed, remember);
    let third = turn(world, second, remember);
    turn(world, third, remember)
}

/// A run with a user who declines every question comes to an end.
pub proof fn law_declined_run_ends(world: World, config: ConfigView, remember: bool)
    ensures
        declined_run(world, config, remember).stage.finished(),
        consistent(declined_run(world, config, remember)),
{
    let s0 = start(config);
    let s1 = turn(world, s0, remember);
    let s2 = turn(world, s1, remember);
    let s3 = turn(world, s2, remember);
    lemma_step_consistent(s0, declined(world, pending(s0), remember));
    lemma_step_consistent(s1, declined(world, pending(s1), remember));
    lemma_step_consistent(s2, declined(world, pending(s2), remember));
    lemma_step_consistent(s3, declined(world, pending(s3), remember));
}

/// Running twice in the same world with a user who declines every question
/// changes nothing the second time: the known versions and the last
/// selection are after the second run what they were after the first.
pub proof fn law_declined_runs_idempotent(
    world: World,
    config: ConfigView,
    first_remember: bool,
    second_remember: bool,
)
    ensures
        ({
            let first = declined_run(world, config, first_remember).config;
            let second = declined_run(world, first, second_remember).config;
            &&& second.version == first.version
            &&& second.last_selected == first.last_selected
            &&& second.path == first.path
        }),
{
    let a0 = start(config);
    let a1 = turn(world, a0, first_remember);
    let a2 = turn(world, a1, first_remember);
    let a3 = turn(world, a2, first_remember);
    let a4 = turn(world, a3, first_remember);
    lemma_step_consistent(a0, declined(world, pending(a0), first_remember));
    lemma_step_consistent(a1, declined(world, pending(a1), first_remember));
    lemma_step_consistent(a2, declined(world, pending(a2), first_remember));
    lemma_step_consistent(a3, declined(world, pending(a3), first_remember));
    let first = a4.config;
    let b0 = start(first);
    let b1 = turn(world, b0, second_remember);
    let b2 = turn(world, b1, second_remember);
    let b3 = turn(world, b2, second_remember);
    let b4 = turn(world, b3, second_remember);
    lemma_step_consistent(b0, declined(world, pending(b0), second_remember));
    lemma_step_consistent(b1, declined(world, pending(b1), second_remember));
    lemma_step_consistent(b2, declined(world, pending(b2), second_remember));
    lemma_step_consistent(b3, declined(world, pending(b3), second_remember));
    let found = versions_found((world.entries)(config.path));
    lemma_versions_found_finite((world.entries)(config.path));
    assert(first.path == config.path);
    assert(first.version == found);
    if found.len() == 1 {
        Set::lemma_is_singleton(found);
        assert(found.contains(found.choose()));
    }
}

} // verus!
