//! How a run gets its record from the store: a record that is missing or
//! unreadable is replaced by a fresh one, once.

use crate::config::{Config, ConfigView};
use vstd::prelude::*;

verus! {

/// Why the store gave no record.
#[derive(Clone, Copy, Debug, PartialEq, Eq, Structural)]
pub enum LoadError {
    /// The store holds no record.
    NotFound,
    /// What the store holds cannot be read as a record.
    Corrupt,
}

/// The store did not take a record.
#[derive(Clone, Copy, Debug, PartialEq, Eq, Structural)]
pub struct WriteError;

/// Why a run could not begin.
#[derive(Clone, Copy, Debug, PartialEq, Eq, Structural)]
pub enum StartupError {
    /// The store gave no record, even after a fresh one was written.
    Load(LoadError),
    /// The fresh record could not be written.
    Write(WriteError),
}

/// Where the loading of the record stands.
#[derive(Debug, PartialEq)]
pub enum Startup {
    /// The record is being read.
    Loading,
    /// Reading failed; a fresh record is being written.
    Resetting,
    /// The fresh record is being read back.
    Reloading,
    /// The run can begin with this record.
    Ready(Config),
    /// The run cannot begin.
    Failed(StartupError),
}

/// A `Startup` as plain mathematical values.
#[verifier::ext_equal]
pub enum StartupView {
    Loading,
    Resetting,
    Reloading,
    Ready(ConfigView),
    Failed(StartupError),
}

impl View for Startup {
    type V = StartupView;

    open spec fn view(&self) -> StartupView {
        match self {
            Startup::Loading => StartupView::Loading,
            Startup::Resetting => StartupView::Resetting,
            Startup::Reloading => StartupView::Reloading,
            Startup::Ready(config) => StartupView::Ready(config@),
            Startup::Failed(error) => StartupView::Failed(*error),
        }
    }
}

/// What the store reports back.
#[derive(Debug)]
pub enum StoreEvent {
    /// An attempt to read the record ended.
    Loaded(Result<Config, LoadError>),
    /// An attempt to write a record ended.
    Written(Result<(), WriteError>),
}

/// A `StoreEvent` as plain mathematical values.
pub enum StoreEventView {
    Loaded(Result<ConfigView, LoadError>),
    Written(Result<(), WriteError>),
}

impl View for StoreEvent {
    type V = StoreEventView;

    open spec fn view(&self) -> StoreEventView {
        match self {
            StoreEvent::Loaded(Ok(config)) => StoreEventView::Loaded(Ok(config@)),
            StoreEvent::Loaded(Err(error)) => StoreEventView::Loaded(Err(*error)),
            StoreEvent::Written(outcome) => StoreEventView::Written(*outcome),
        }
    }
}

/// What is asked of the store, or of the caller.
#[derive(Debug, PartialEq)]
pub enum StoreAction {
    /// Read the record and report `StoreEvent::Loaded`.
    Load,
    /// Write this record and report `StoreEvent::Written`.
    Save(Config),
    /// Begin the run with the record that `Startup::Ready` holds.
    Begin,
    /// Give up with the error that `Startup::Failed` holds.
    Abort,
}

/// A `StoreAction` as plain mathematical values.
#[verifier::ext_equal]
pub enum StoreActionView {
    Load,
    Save(ConfigView),
    Begin,
    Abort,
}

impl View for StoreAction {
    type V = StoreActionView;

    open spec fn view(&self) -> StoreActionView {
        match self {
            StoreAction::Load => StoreActionView::Load,
            StoreAction::Save(config) => StoreActionView::Save(config@),
            StoreAction::Begin => StoreActionView::Begin,
            StoreAction::Abort => StoreActionView::Abort,
        }
    }
}

/// The state after `event`. An event that was not asked for changes nothing.
pub open spec fn startup_step(state: StartupView, event: StoreEventView) -> StartupView {
    match (state, event) {
        (StartupView::Loading, StoreEventView::Loaded(Ok(config))) => StartupView::Ready(config),
        (StartupView::Loading, StoreEventView::Loaded(Err(_))) => StartupView::Resetting,
        (StartupView::Resetting, StoreEventView::Written(Ok(_))) => StartupView::Reloading,
        (StartupView::Resetting, StoreEventView::Written(Err(error))) => StartupView::Failed(
            StartupError::Write(error),
        ),
        (StartupView::Reloading, StoreEventView::Loaded(Ok(config))) => StartupView::Ready(config),
        (StartupView::Reloading, StoreEventView::Loaded(Err(error))) => StartupView::Failed(
            StartupError::Load(error),
        ),
        _ => state,
    }
}

/// What is asked for in a state.
pub open spec fn startup_pending(state: StartupView) -> StoreActionView {
    match state {
        StartupView::Loading | StartupView::Reloading => StoreActionView::Load,
        StartupView::Resetting => StoreActionView::Save(ConfigView::fresh()),
        StartupView::Ready(_) => StoreActionView::Begin,
        StartupView::Failed(_) => StoreActionView::Abort,
    }
}

/// The state after a row of events, taken up one after the other.
pub open spec fn startup_run(state: StartupView, events: Seq<StoreEventView>) -> StartupView
    decreases events.len(),
{
    if events.len() == 0 {
        state
    } else {
        startup_step(startup_run(state, events.drop_last()), events.last())
    }
}

impl Startup {
    /// The state in which loading begins.
    pub fn new() -> (state: Startup)
        ensures
            state@ == StartupView::Loading,
    {
        Startup::Loading
    }

    /// What is asked for now.
    pub fn pending(&self) -> (action: StoreAction)
        ensures
            action@ == startup_pending(self@),
    {
        match self {
            Startup::Loading | Startup::Reloading => StoreAction::Load,
            Startup::Resetting => StoreAction::Save(Config::new()),
            Startup::Ready(_) => StoreAction::Begin,
            Startup::Failed(_) => StoreAction::Abort,
        }
    }

    /// Takes up what the store reports, and moves on.
    pub fn step(self, event: StoreEvent) -> (next: Startup)
        ensures
            next@ == startup_step(self@, event@),
    {
        match self {
            Startup::Loading => match event {
                StoreEvent::Loaded(Ok(config)) => Startup::Ready(config),
                StoreEvent::Loaded(Err(_)) => Startup::Resetting,
                _ => Startup::Loading,
            },
            Startup::Resetting => match event {
                StoreEvent::Written(Ok(_)) => Startup::Reloading,
                StoreEvent::Written(Err(error)) => Startup::Failed(StartupError::Write(error)),
                _ => Startup::Resetting,
            },
            Startup::Reloading => match event {
                StoreEvent::Loaded(Ok(config)) => Startup::Ready(config),
                StoreEvent::Loaded(Err(error)) => Startup::Failed(StartupError::Load(error)),
                _ => Startup::Reloading,
            },
            Startup::Ready(config) => Startup::Ready(config),
            Startup::Failed(error) => Startup::Failed(error),
        }
    }

    /// The outcome of loading, once there is one: the record to begin with,
    /// or the error to give up with.
    pub fn outcome(self) -> (outcome: Option<Result<Config, StartupError>>)
        ensures
            match self@ {
                StartupView::Ready(config) => outcome matches Some(Ok(c)) && c@ == config,
                StartupView::Failed(error) => outcome == Some(
                    Err::<Config, StartupError>(error),
                ),
                _ => outcome is None,
            },
    {
        match self {
            Startup::Ready(config) => Some(Ok(config)),
            Startup::Failed(error) => Some(Err(error)),
            _ => None,
        }
    }
}

/// A fresh record is written at most once: after it has been written, no
/// row of events leads to a second writing or back to the first reading.
pub proof fn law_reset_at_most_once(events: Seq<StoreEventView>)
    ensures
        ({
            let after = startup_run(StartupView::Reloading, events);
            after !is Loading && after !is Resetting
        }),
    decreases events.len(),
{
    if events.len() > 0 {
        law_reset_at_most_once(events.drop_last());
    }
}

/// A record that can be read is the record of the run, and nothing is
/// written for it. One that cannot be read gets one fresh start; if reading
/// fails again, the run gives up with the second error.
pub proof fn law_second_failure_is_fatal(first: LoadError, second: LoadError)
    ensures
        ({
            let resetting = startup_step(StartupView::Loading, StoreEventView::Loaded(Err(first)));
            let reloading = startup_step(resetting, StoreEventView::Written(Ok(())));
            let failed = startup_step(reloading, StoreEventView::Loaded(Err(second)));
            &&& startup_pending(resetting) == StoreActionView::Save(ConfigView::fresh())
            &&& startup_pending(reloading) is Load
            &&& failed == StartupView::Failed(StartupError::Load(second))
            &&& startup_pending(failed) is Abort
        }),
{
}

} // verus!
