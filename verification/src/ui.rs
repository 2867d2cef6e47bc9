//! The parts of the launcher's window.

use vstd::prelude::*;

verus! {

/// Names the controls, events, resources and values of the window in which
/// the user picks a version.
#[derive(Debug, Clone, Copy, PartialEq, Eq, Hash)]
pub enum Id {
    // Controls
    MainWindow,
    VersionList,
    BitwigLabel,
    BitwigDirLabel,
    LaunchButton,
    ChangeDirButton,
    ChangeDirDialog,
    RememberCheckBox,
    // Events
    Launch,
    ChangeDir,
    // Resources
    Font,
    // Values
    Path,
}

} // verus!
