//! What the launcher keeps from one run to the next.

use crate::versions::VersionSet;
use vstd::prelude::*;

verus! {

/// Where Bitwig Studio is looked for until the user names another place.
pub const DEFAULT_PATH: &'static str = "C:\\Program Files\\Bitwig Studio";

/// The record that outlives a run.
#[derive(Debug)]
pub struct Config {
    /// The directory that holds one sub-directory per installed version.
    pub path: String,
    /// The versions that the last run found under `path`.
    pub version: VersionSet,
    /// The version chosen last; empty when there is none.
    pub last_selected: String,
    /// Whether to start `last_selected` without asking.
    pub remember: bool,
}

/// A `Config` as plain mathematical values.
#[verifier::ext_equal]
pub struct ConfigView {
    pub path: Seq<char>,
    pub version: Set<Seq<char>>,
    pub last_selected: Seq<char>,
    pub remember: bool,
}

impl View for Config {
    type V = ConfigView;

    open spec fn view(&self) -> ConfigView {
        ConfigView {
            path: self.path@,
            version: self.version@,
            last_selected: self.last_selected@,
            remember: self.remember,
        }
    }
}

impl ConfigView {
    /// The record of a first run: the default directory, nothing known,
    /// nothing chosen, nothing remembered.
    pub open spec fn fresh() -> ConfigView {
        ConfigView {
            path: DEFAULT_PATH@,
            version: Set::empty(),
            last_selected: Seq::empty(),
            remember: false,
        }
    }

    /// A remembered choice is one of the known versions.
    pub open spec fn coherent(self) -> bool {
        self.remember ==> self.version.contains(self.last_selected)
    }
}

impl Config {
    /// The record of a first run.
    pub fn new() -> (config: Config)
        ensures
            config@ == ConfigView::fresh(),
            config@.coherent(),
    {
        Config {
            path: DEFAULT_PATH.to_owned(),
            version: VersionSet::new(),
            last_selected: String::new(),
            remember: false,
        }
    }
}

impl Clone for Config {
    fn clone(&self) -> (copy: Config)
        ensures
            copy@ == self@,
    {
        Config {
            path: self.path.clone(),
            version: self.version.clone(),
            last_selected: self.last_selected.clone(),
            remember: self.remember,
        }
    }
}

impl PartialEq for Config {
    /// Two records are equal when they hold the same values.
    fn eq(&self, other: &Config) -> (same: bool) {
        self.path == other.path && self.version == other.version && self.last_selected
            == other.last_selected && self.remember == other.remember
    }
}

impl vstd::std_specs::cmp::PartialEqSpecImpl for Config {
    open spec fn obeys_eq_spec() -> bool {
        true
    }

    open spec fn eq_spec(&self, other: &Config) -> bool {
        self@ == other@
    }
}

} // verus!
