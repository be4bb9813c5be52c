//! The single hub for every operation.

use vstd::prelude::*;
use crate::app::Pane;
use crate::repo::RepoId;
use crate::tree::NodeRef;

verus! {

/// Mouse, default keys, and the config keymap all convert into an `Action`,
/// and `App::apply` looks only at this.
#[derive(Debug, Clone, Copy, PartialEq, Eq, Structural)]
pub enum Action {
    // tree
    ToggleCheck(NodeRef),
    Focus(RepoId),
    ClearFocus,
    Expand(NodeRef),
    Collapse(NodeRef),
    CursorUp,
    CursorDown,
    CheckAll,
    UncheckAll,
    // command
    LoadPreset(usize),
    Run,
    Cancel,
    // output
    ScrollUp,
    ScrollDown,
    ScrollTop,
    ScrollBottom,
    CopyOutput,
    // app
    Rescan,
    FocusPane(Pane),
    Quit,
}

} // verus!
