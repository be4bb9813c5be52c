//! User configuration (every field optional).

use vstd::prelude::*;
use crate::theme::IconMode;
use crate::keys::keymap_view;
use crate::laws::names_distinct;

verus! {

#[derive(Debug, Clone)]
pub struct Preset {
    pub label: String,
    pub command: String,
    /// Optional. When set, it merges into the keymap so a single key can load it.
    pub key: Option<String>,
}

/// The configuration. `keymap` holds (key string, action name) entries with
/// distinct keys.
#[derive(Debug, Clone)]
pub struct Config {
    /// Globs (`fqdn/user/repo`) of repos checked by default at startup.
    pub default_checked: Vec<String>,
    pub icons: IconMode,
    /// Key string → Action name.
    pub keymap: Vec<(String, String)>,
    pub presets: Vec<Preset>,
}

impl Config {
    /// Each key string is bound at most once.
    pub open spec fn wf(&self) -> bool {
        names_distinct(keymap_view(self.keymap@))
    }
}

impl Default for Config {
    fn default() -> (c: Config)
        ensures
            c.default_checked@.len() == 0,
            c.icons == IconMode::Nerd,
            c.keymap@.len() == 0,
            c.presets@.len() == 0,
            c.wf(),
    {
        Config { default_checked: Vec::new(), icons: IconMode::Nerd, keymap: Vec::new(), presets: Vec::new() }
    }
}

} // verus!
