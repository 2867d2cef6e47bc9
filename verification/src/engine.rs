//! The decisions of one run: from what was found on disk and what the last
//! run left behind to the version that is started, or to the question put to
//! the user.
//!
//! The engine does no work on the outside world itself. It says what is to be
//! done next (`Engine::pending`), is told how that went (`Engine::step`), and
//! ends with the record to keep for the next run.

use crate::config::{Config, ConfigView};
use crate::scanner::{get_versions, listing_view, versions_found, Candidate, CandidateView};
use crate::versions::{lemma_sorted_listing_exists, sorted_listing, texts, VersionSet};
use vstd::prelude::*;

verus! {

/// Why a version could not be started.
#[derive(Clone, Copy, Debug, PartialEq, Eq, Structural)]
pub enum LaunchError {
    /// Nothing that can be run lies at the place where the version's entry
    /// file should be.
    NotFound,
    /// The system refused to start the file.
    SpawnFailed,
}

/// Where a run stands.
#[derive(Debug, PartialEq, Eq)]
pub enum Stage {
    /// The installation directory is being listed for the first time.
    Scanning,
    /// No version was found; the user is asked for another directory.
    EmptyPrompt,
    /// The directory that the user named is being listed.
    Rescanning,
    /// The only version found is being started.
    OneVersionAutoLaunch,
    /// The version chosen in an earlier run is being started.
    RememberedAutoLaunch,
    /// The user is looking at the list of versions.
    Interactive,
    /// The version that the user asked for is being started.
    UserLaunch { chosen: String, remember: bool },
    /// A version was started. The run is over.
    Launched,
    /// The user closed the list without starting anything. The run is over.
    ClosedWithoutLaunch,
}

/// A `Stage` as plain mathematical values.
pub enum StageView {
    Scanning,
    EmptyPrompt,
    Rescanning,
    OneVersionAutoLaunch,
    RememberedAutoLaunch,
    Interactive,
    UserLaunch { chosen: Seq<char>, remember: bool },
    Launched,
    ClosedWithoutLaunch,
}

impl View for Stage {
    type V = StageView;

    open spec fn view(&self) -> StageView {
        match self {
            Stage::Scanning => StageView::Scanning,
            Stage::EmptyPrompt => StageView::EmptyPrompt,
            Stage::Rescanning => StageView::Rescanning,
            Stage::OneVersionAutoLaunch => StageView::OneVersionAutoLaunch,
            Stage::RememberedAutoLaunch => StageView::RememberedAutoLaunch,
            Stage::Interactive => StageView::Interactive,
            Stage::UserLaunch { chosen, remember } => StageView::UserLaunch {
                chosen: chosen@,
                remember: *remember,
            },
            Stage::Launched => StageView::Launched,
            Stage::ClosedWithoutLaunch => StageView::ClosedWithoutLaunch,
        }
    }
}

impl StageView {
    /// The versions of this run are not settled yet: the installation
    /// directory is being listed, or asked for.
    pub open spec fn looking(self) -> bool {
        self is Scanning || self is EmptyPrompt || self is Rescanning
    }

    /// The run is over: nothing is asked of the outside world any more but
    /// to keep the record.
    pub open spec fn finished(self) -> bool {
        self is Launched || self is ClosedWithoutLaunch
    }
}

/// What the outside world reports back to the engine.
#[derive(Debug, PartialEq, Eq)]
pub enum Event {
    /// The installation directory was listed; `None` if it could not be.
    Listed(Option<Vec<Candidate>>),
    /// The user named a new installation directory, or declined to.
    DirectoryPicked(Option<String>),
    /// An attempt to start a version ended.
    LaunchFinished(Result<(), LaunchError>),
    /// The user asked to start the selected version, with the "remember"
    /// box as it stood at that moment.
    LaunchRequested { selection: Option<String>, remember: bool },
    /// The user closed the list, with the selection and the "remember" box
    /// as they stood at that moment.
    Closed { selection: Option<String>, remember: bool },
}

/// An `Event` as plain mathematical values.
pub enum EventView {
    Listed(Option<Seq<CandidateView>>),
    DirectoryPicked(Option<Seq<char>>),
    LaunchFinished(Result<(), LaunchError>),
    LaunchRequested { selection: Option<Seq<char>>, remember: bool },
    Closed { selection: Option<Seq<char>>, remember: bool },
}

/// What an optional string holds.
pub open spec fn text_of(text: Option<String>) -> Option<Seq<char>> {
    match text {
        None => None,
        Some(s) => Some(s@),
    }
}

impl View for Event {
    type V = EventView;

    open spec fn view(&self) -> EventView {
        match self {
            Event::Listed(listing) => EventView::Listed(listing_view(*listing)),
            Event::DirectoryPicked(path) => EventView::DirectoryPicked(text_of(*path)),
            Event::LaunchFinished(outcome) => EventView::LaunchFinished(*outcome),
            Event::LaunchRequested { selection, remember } => EventView::LaunchRequested {
                selection: text_of(*selection),
                remember: *remember,
            },
            Event::Closed { selection, remember } => EventView::Closed {
                selection: text_of(*selection),
                remember: *remember,
            },
        }
    }
}

/// What the engine asks of the outside world.
#[derive(Debug, PartialEq, Eq)]
pub enum Action {
    /// List the directory `root` and report `Event::Listed`.
    Scan { root: String },
    /// Ask the user for an installation directory and report
    /// `Event::DirectoryPicked`.
    PickDirectory,
    /// Start the entry file of `version` under `root`, do not wait for it,
    /// and report `Event::LaunchFinished`.
    Launch { root: String, version: String },
    /// Show `items` with `preselected` marked, and report
    /// `Event::LaunchRequested` or `Event::Closed`.
    PickOne { items: Vec<String>, preselected: Option<String> },
    /// Keep the engine's record for the next run. Nothing follows.
    Persist,
}

/// An `Action` as plain mathematical values.
#[verifier::ext_equal]
pub enum ActionView {
    Scan { root: Seq<char> },
    PickDirectory,
    Launch { root: Seq<char>, version: Seq<char> },
    PickOne { items: Seq<Seq<char>>, preselected: Option<Seq<char>> },
    Persist,
}

impl View for Action {
    type V = ActionView;

    open spec fn view(&self) -> ActionView {
        match self {
            Action::Scan { root } => ActionView::Scan { root: root@ },
            Action::PickDirectory => ActionView::PickDirectory,
            Action::Launch { root, version } => ActionView::Launch {
                root: root@,
                version: version@,
            },
            Action::PickOne { items, preselected } => ActionView::PickOne {
                items: texts(items@),
                preselected: text_of(*preselected),
            },
            Action::Persist => ActionView::Persist,
        }
    }
}

impl ActionView {
    /// The action puts a question to the user.
    pub open spec fn asks_user(self) -> bool {
        self is PickDirectory || self is PickOne
    }
}

/// An `Engine` as plain mathematical values.
#[verifier::ext_equal]
pub struct EngineView {
    /// The record as it stands.
    pub config: ConfigView,
    /// The versions found by the last listing.
    pub discovered: Set<Seq<char>>,
    /// Where the run stands.
    pub stage: StageView,
}

/// The state in which a run begins.
pub open spec fn start(config: ConfigView) -> EngineView {
    EngineView { config, discovered: Set::empty(), stage: StageView::Scanning }
}

/// What holds of every state that a run passes through.
pub open spec fn consistent(engine: EngineView) -> bool {
    &&& engine.discovered.finite()
    &&& engine.stage is OneVersionAutoLaunch ==> engine.discovered.len() == 1
    &&& engine.stage is OneVersionAutoLaunch && engine.config.remember ==> engine.config.version
        == engine.discovered
    &&& engine.stage is RememberedAutoLaunch ==> engine.config.remember
    &&& engine.stage matches StageView::UserLaunch { chosen, .. } ==> engine.discovered.contains(
        chosen,
    )
    &&& engine.stage.looking() ==> engine.discovered.is_empty()
    &&& (engine.stage is RememberedAutoLaunch || engine.stage is Interactive
        || engine.stage is UserLaunch || engine.stage.finished()) ==> engine.config.version
        == engine.discovered
}

/// Takes up what a listing found. A remembered choice is trusted only while
/// the versions are those of the last run. A single version is started at
/// once; otherwise the run goes on with `settle`.
pub open spec fn reconcile(config: ConfigView, found: Set<Seq<char>>) -> EngineView {
    let checked = ConfigView { remember: config.remember && found == config.version, ..config };
    if found.len() == 1 {
        EngineView { config: checked, discovered: found, stage: StageView::OneVersionAutoLaunch }
    } else {
        settle(checked, found)
    }
}

/// Records the versions found as the known ones, then starts the remembered
/// version if there is one to trust, and else turns to the user.
pub open spec fn settle(config: ConfigView, found: Set<Seq<char>>) -> EngineView {
    EngineView {
        config: ConfigView { version: found, ..config },
        discovered: found,
        stage: if config.remember {
            StageView::RememberedAutoLaunch
        } else {
            StageView::Interactive
        },
    }
}

/// The selection, if it is one of the versions on offer.
pub open spec fn offered(found: Set<Seq<char>>, selection: Option<Seq<char>>) -> Option<Seq<char>> {
    match selection {
        Some(name) => if found.contains(name) {
            Some(name)
        } else {
            None
        },
        None => None,
    }
}

/// The state after `event`. An event that the stage did not ask for changes
/// nothing.
pub open spec fn step(engine: EngineView, event: EventView) -> EngineView {
    match (engine.stage, event) {
        (StageView::Scanning, EventView::Listed(listing)) => {
            let found = versions_found(listing);
            if found.is_empty() {
                EngineView { stage: StageView::EmptyPrompt, ..engine }
            } else {
                reconcile(engine.config, found)
            }
        },
        (StageView::EmptyPrompt, EventView::DirectoryPicked(Some(path))) => EngineView {
            config: ConfigView { path, ..engine.config },
            stage: StageView::Rescanning,
            ..engine
        },
        (StageView::EmptyPrompt, EventView::DirectoryPicked(None)) => reconcile(
            engine.config,
            Set::empty(),
        ),
        (StageView::Rescanning, EventView::Listed(listing)) => reconcile(
            engine.config,
            versions_found(listing),
        ),
        (StageView::OneVersionAutoLaunch, EventView::LaunchFinished(Ok(_))) => EngineView {
            config: ConfigView {
                version: engine.discovered,
                last_selected: engine.discovered.choose(),
                ..engine.config
            },
            stage: StageView::Launched,
            ..engine
        },
        (StageView::OneVersionAutoLaunch, EventView::LaunchFinished(Err(_))) => settle(
            engine.config,
            engine.discovered,
        ),
        (StageView::RememberedAutoLaunch, EventView::LaunchFinished(Ok(_))) => EngineView {
            stage: StageView::Launched,
            ..engine
        },
        (StageView::RememberedAutoLaunch, EventView::LaunchFinished(Err(_))) => EngineView {
            stage: StageView::Interactive,
            ..engine
        },
        (StageView::Interactive, EventView::LaunchRequested { selection, remember }) => {
            match offered(engine.discovered, selection) {
                Some(chosen) => EngineView {
                    stage: StageView::UserLaunch { chosen, remember },
                    ..engine
                },
                None => engine,
            }
        },
        (StageView::Interactive, EventView::Closed { selection, remember }) => EngineView {
            config: ConfigView {
                last_selected: match offered(engine.discovered, selection) {
                    Some(chosen) => chosen,
                    None => Seq::empty(),
                },
                remember,
                ..engine.config
            },
            stage: StageView::ClosedWithoutLaunch,
            ..engine
        },
        (
            StageView::UserLaunch { chosen, remember },
            EventView::LaunchFinished(Ok(_)),
        ) => EngineView {
            config: ConfigView { last_selected: chosen, remember, ..engine.config },
            stage: StageView::Launched,
            ..engine
        },
        (StageView::UserLaunch { .. }, EventView::LaunchFinished(Err(_))) => EngineView {
            stage: StageView::Interactive,
            ..engine
        },
        _ => engine,
    }
}

/// What the engine asks for in a state.
pub open spec fn pending(engine: EngineView) -> ActionView {
    match engine.stage {
        StageView::Scanning | StageView::Rescanning => ActionView::Scan {
            root: engine.config.path,
        },
        StageView::EmptyPrompt => ActionView::PickDirectory,
        StageView::OneVersionAutoLaunch => ActionView::Launch {
            root: engine.config.path,
            version: engine.discovered.choose(),
        },
        StageView::RememberedAutoLaunch => ActionView::Launch {
            root: engine.config.path,
            version: engine.config.last_selected,
        },
        StageView::Interactive => ActionView::PickOne {
            items: sorted_listing(engine.discovered),
            preselected: offered(engine.discovered, Some(engine.config.last_selected)),
        },
        StageView::UserLaunch { chosen, .. } => ActionView::Launch {
            root: engine.config.path,
            version: chosen,
        },
        StageView::Launched | StageView::ClosedWithoutLaunch => ActionView::Persist,
    }
}

/// The decision engine of one run.
#[derive(Debug)]
pub struct Engine {
    config: Config,
    discovered: VersionSet,
    stage: Stage,
}

impl View for Engine {
    type V = EngineView;

    closed spec fn view(&self) -> EngineView {
        EngineView { config: self.config@, discovered: self.discovered@, stage: self.stage@ }
    }
}

/// The engine for a listing that has been taken up: see `reconcile`.
fn reconciled(config: Config, found: VersionSet) -> (engine: Engine)
    ensures
        engine@ == reconcile(config@, found@),
{
    let mut config = config;
    config.remember = config.remember && found == config.version;
    if found.len() == 1 {
        Engine { config, discovered: found, stage: Stage::OneVersionAutoLaunch }
    } else {
        settled(config, found)
    }
}

/// The engine once the versions found are the known ones: see `settle`.
fn settled(config: Config, found: VersionSet) -> (engine: Engine)
    ensures
        engine@ == settle(config@, found@),
{
    let mut config = config;
    config.version = found.clone();
    let stage = if config.remember {
        Stage::RememberedAutoLaunch
    } else {
        Stage::Interactive
    };
    Engine { config, discovered: found, stage }
}

/// The one version of a set that holds exactly one.
fn sole(found: &VersionSet) -> (only: String)
    requires
        found@.len() == 1,
    ensures
        only@ == found@.choose(),
{
    proof {
        Set::lemma_is_singleton(found@);
        lemma_sorted_listing_exists(found@);
        assert(found@.contains(found@.choose()));
        assert(found@.contains(sorted_listing(found@)[0]));
    }
    match found.get(0) {
        Some(version) => version.clone(),
        None => unreached(),
    }
}

/// The selection, if it is one of the versions on offer.
fn pick(found: &VersionSet, selection: Option<String>) -> (chosen: Option<String>)
    ensures
        text_of(chosen) == offered(found@, text_of(selection)),
{
    match selection {
        Some(name) => {
            if found.contains(name.as_str()) {
                Some(name)
            } else {
                None
            }
        },
        None => None,
    }
}

impl Engine {
    #[verifier::type_invariant]
    spec fn sound(&self) -> bool {
        consistent(self@)
    }

    /// The engine at the start of a run, with the record of the last one.
    pub fn new(config: Config) -> (engine: Engine)
        ensures
            engine@ == start(config@),
            consistent(engine@),
    {
        Engine { config, discovered: VersionSet::new(), stage: Stage::Scanning }
    }

    /// Where the run stands.
    pub fn stage(&self) -> (stage: &Stage)
        ensures
            stage@ == self@.stage,
    {
        &self.stage
    }

    /// The record as it stands. Once the run is over, this is the record to
    /// keep.
    pub fn config(&self) -> (config: &Config)
        ensures
            config@ == self@.config,
    {
        &self.config
    }

    /// The versions that the last listing found.
    pub fn discovered(&self) -> (found: &VersionSet)
        ensures
            found@ == self@.discovered,
    {
        &self.discovered
    }

    /// Whether the run is over.
    pub fn is_finished(&self) -> (over: bool)
        ensures
            over == self@.stage.finished(),
    {
        match self.stage {
            Stage::Launched | Stage::ClosedWithoutLaunch => true,
            _ => false,
        }
    }

    /// Gives up the engine for its record.
    pub fn into_config(self) -> (config: Config)
        ensures
            config@ == self@.config,
    {
        self.config
    }

    /// What the engine asks for now.
    pub fn pending(&self) -> (action: Action)
        ensures
            action@ == pending(self@),
    {
        proof {
            use_type_invariant(self);
        }
        match &self.stage {
            Stage::Scanning | Stage::Rescanning => Action::Scan { root: self.config.path.clone() },
            Stage::EmptyPrompt => Action::PickDirectory,
            Stage::OneVersionAutoLaunch => Action::Launch {
                root: self.config.path.clone(),
                version: sole(&self.discovered),
            },
            Stage::RememberedAutoLaunch => Action::Launch {
                root: self.config.path.clone(),
                version: self.config.last_selected.clone(),
            },
            Stage::Interactive => {
                let items = self.discovered.names();
                let preselected = pick(&self.discovered, Some(self.config.last_selected.clone()));
                Action::PickOne { items, preselected }
            },
            Stage::UserLaunch { chosen, .. } => Action::Launch {
                root: self.config.path.clone(),
                version: chosen.clone(),
            },
            Stage::Launched | Stage::ClosedWithoutLaunch => Action::Persist,
        }
    }

    /// Takes up what the outside world reports, and moves on. An event that
    /// the stage did not ask for changes nothing.
    pub fn step(self, event: Event) -> (next: Engine)
        ensures
            next@ == step(self@, event@),
            consistent(next@),
    {
        proof {
            use_type_invariant(&self);
        }
        let Engine { config, discovered, stage } = self;
        match stage {
            Stage::Scanning => match event {
                Event::Listed(listing) => {
                    let found = get_versions(&listing);
                    if found.is_empty() {
                        Engine { config, discovered, stage: Stage::EmptyPrompt }
                    } else {
                        reconciled(config, found)
                    }
                },
                _ => Engine { config, discovered, stage: Stage::Scanning },
            },
            Stage::EmptyPrompt => match event {
                Event::DirectoryPicked(Some(path)) => {
                    let mut config = config;
                    config.path = path;
                    Engine { config, discovered, stage: Stage::Rescanning }
                },
                Event::DirectoryPicked(None) => reconciled(config, VersionSet::new()),
                _ => Engine { config, discovered, stage: Stage::EmptyPrompt },
            },
            Stage::Rescanning => match event {
                Event::Listed(listing) => reconciled(config, get_versions(&listing)),
                _ => Engine { config, discovered, stage: Stage::Rescanning },
            },
            Stage::OneVersionAutoLaunch => match event {
                Event::LaunchFinished(Ok(_)) => {
                    let mut config = config;
                    config.last_selected = sole(&discovered);
                    config.version = discovered.clone();
                    Engine { config, discovered, stage: Stage::Launched }
                },
                Event::LaunchFinished(Err(_)) => settled(config, discovered),
                _ => Engine { config, discovered, stage: Stage::OneVersionAutoLaunch },
            },
            Stage::RememberedAutoLaunch => match event {
                Event::LaunchFinished(Ok(_)) => Engine { config, discovered, stage: Stage::Launched },
                Event::LaunchFinished(Err(_)) => Engine {
                    config,
                    discovered,
                    stage: Stage::Interactive,
                },
                _ => Engine { config, discovered, stage: Stage::RememberedAutoLaunch },
            },
            Stage::Interactive => match event {
                Event::LaunchRequested { selection, remember } => {
                    match pick(&discovered, selection) {
                        Some(chosen) => Engine {
                            config,
                            discovered,
                            stage: Stage::UserLaunch { chosen, remember },
                        },
                        None => Engine { config, discovered, stage: Stage::Interactive },
                    }
                },
                Event::Closed { selection, remember } => {
                    let mut config = config;
                    config.last_selected = match pick(&discovered, selection) {
                        Some(chosen) => chosen,
                        None => String::new(),
                    };
                    config.remember = remember;
                    Engine { config, discovered, stage: Stage::ClosedWithoutLaunch }
                },
                _ => Engine { config, discovered, stage: Stage::Interactive },
            },
            Stage::UserLaunch { chosen, remember } => match event {
                Event::LaunchFinished(Ok(_)) => {
                    let mut config = config;
                    config.last_selected = chosen;
                    config.remember = remember;
                    Engine { config, discovered, stage: Stage::Launched }
                },
                Event::LaunchFinished(Err(_)) => Engine {
                    config,
                    discovered,
                    stage: Stage::Interactive,
                },
                _ => Engine { config, discovered, stage: Stage::UserLaunch { chosen, remember } },
            },
            Stage::Launched => Engine { config, discovered, stage: Stage::Launched },
            Stage::ClosedWithoutLaunch => Engine {
                config,
                discovered,
                stage: Stage::ClosedWithoutLaunch,
            },
        }
    }
}

} // verus!
