//! Icon sets: Nerd Font glyphs or plain ASCII.

use vstd::prelude::*;

verus! {

/// Icon representation: Nerd Font glyphs or plain ASCII.
#[derive(Debug, Clone, Copy, PartialEq, Eq, Structural)]
pub enum IconMode {
    Nerd,
    Ascii,
}

impl Default for IconMode {
    fn default() -> (m: IconMode)
        ensures
            m == IconMode::Nerd,
    {
        IconMode::Nerd
    }
}

/// The icon set used for rendering. Callers treat icons as fixed-width slots to
/// guard against cell-width drift.
pub struct Icons {
    pub expanded: &'static str,
    pub collapsed: &'static str,
    pub fqdn: &'static str,
    pub user: &'static str,
    pub repo: &'static str,
    pub status_done: &'static str,
    pub status_fail: &'static str,
    pub status_cancel: &'static str,
    pub status_skip: &'static str,
    /// Spinner frames for the running state.
    pub spinner: Vec<&'static str>,
    pub focus: &'static str,
    pub box_bar: &'static str,
    /// Cancel button at the right end of the command line.
    pub cancel: &'static str,
    /// Copy button floating at the top-right of the output pane.
    pub copy: &'static str,
    pub check_on: &'static str,
    pub check_off: &'static str,
    pub check_partial: &'static str,
    /// Selection accent bar.
    pub sel_bar: &'static str,
    pub prompt: &'static str,
    /// Powerline pills (Nerd only; ASCII falls back to a bar).
    pub pills: bool,
    pub pl_left: &'static str,
    pub pl_sep: &'static str,
    pub pl_right: &'static str,
}

/// Picks the Nerd Font text or the ASCII text.
pub open spec fn pick(mode: IconMode, nerd: &'static str, ascii: &'static str) -> Seq<char> {
    if mode == IconMode::Nerd { nerd@ } else { ascii@ }
}

impl Icons {
    /// The spinner has at least one frame.
    pub open spec fn wf(&self) -> bool {
        self.spinner@.len() > 0
    }

    /// The icon set that `Icons::new(mode)` returns.
    pub open spec fn is_set_for(&self, mode: IconMode) -> bool {
        &&& self.wf()
        &&& self.expanded@ == pick(mode, "\u{f078}", "v")
        &&& self.collapsed@ == pick(mode, "\u{f054}", ">")
        &&& self.fqdn@ == pick(mode, "\u{f0ac}", "")
        &&& self.user@ == pick(mode, "\u{f007}", "")
        &&& self.repo@ == pick(mode, "\u{f126}", "")
        &&& self.status_done@ == pick(mode, "\u{f00c}", "ok")
        &&& self.status_fail@ == pick(mode, "\u{f00d}", "x")
        &&& self.status_cancel@ == pick(mode, "\u{f05e}", "!")
        &&& self.status_skip@ == pick(mode, "\u{f068}", "-")
        &&& mode == IconMode::Nerd ==> self.spinner@ == seq!["⠋", "⠙", "⠹", "⠸", "⠼", "⠴", "⠦", "⠧", "⠇", "⠏"]
        &&& mode == IconMode::Ascii ==> self.spinner@ == seq!["|", "/", "-", "\\"]
        &&& self.focus@ == pick(mode, "\u{f06e}", "*")
        &&& self.box_bar@ == pick(mode, "▌", "|")
        &&& self.cancel@ == pick(mode, "\u{f04d}", "stop")
        &&& self.copy@ == pick(mode, "\u{f0c5}", "copy")
        &&& self.check_on@ == pick(mode, "\u{f046}", "[x]")
        &&& self.check_off@ == pick(mode, "\u{f096}", "[ ]")
        &&& self.check_partial@ == pick(mode, "\u{f147}", "[~]")
        &&& self.sel_bar@ == pick(mode, "▎", ">")
        &&& self.prompt@ == pick(mode, "\u{f061}", ">")
        &&& self.pills == (mode == IconMode::Nerd)
        &&& self.pl_left@ == pick(mode, "\u{e0b6}", "")
        &&& self.pl_sep@ == pick(mode, "\u{e0b0}", "")
        &&& self.pl_right@ == pick(mode, "\u{e0b4}", "")
    }

    /// The icon set for a mode: Nerd Font glyphs, or plain ASCII.
    pub fn new(mode: IconMode) -> (icons: Icons)
        ensures
            icons.is_set_for(mode),
    {
        match mode {
            IconMode::Nerd => Icons {
                expanded: "\u{f078}",
                collapsed: "\u{f054}",
                fqdn: "\u{f0ac}",
                user: "\u{f007}",
                repo: "\u{f126}",
                status_done: "\u{f00c}",
                status_fail: "\u{f00d}",
                status_cancel: "\u{f05e}",
                status_skip: "\u{f068}",
                spinner: vec!["⠋", "⠙", "⠹", "⠸", "⠼", "⠴", "⠦", "⠧", "⠇", "⠏"],
                focus: "\u{f06e}",
                box_bar: "▌",
                cancel: "\u{f04d}",
                copy: "\u{f0c5}",
                check_on: "\u{f046}",
                check_off: "\u{f096}",
                check_partial: "\u{f147}",
                sel_bar: "▎",
                prompt: "\u{f061}",
                pills: true,
                pl_left: "\u{e0b6}",
                pl_sep: "\u{e0b0}",
                pl_right: "\u{e0b4}",
            },
            IconMode::Ascii => Icons {
                expanded: "v",
                collapsed: ">",
                fqdn: "",
                user: "",
                repo: "",
                status_done: "ok",
                status_fail: "x",
                status_cancel: "!",
                status_skip: "-",
                spinner: vec!["|", "/", "-", "\\"],
                focus: "*",
                box_bar: "|",
                cancel: "stop",
                copy: "copy",
                check_on: "[x]",
                check_off: "[ ]",
                check_partial: "[~]",
                sel_bar: ">",
                prompt: ">",
                pills: false,
                pl_left: "",
                pl_sep: "",
                pl_right: "",
            },
        }
    }
}

} // verus!
