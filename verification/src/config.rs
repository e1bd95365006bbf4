use vstd::prelude::*;
use vstd::string::StringExecFns;

verus! {

/// Runtime settings read by the history manager and the sampling loop.
///
/// `enabled` and `max_items` drive the core policy; `start_on_login` and
/// `shortcut` belong to the surrounding user interface and are carried here
/// only so that one configuration value serves the whole application.
#[derive(Debug, Clone)]
pub struct Config {
    pub enabled: bool,
    pub max_items: usize,
    pub start_on_login: bool,
    pub shortcut: String,
}

impl Config {
    /// A configuration is usable only with a positive capacity.
    pub open spec fn valid(self) -> bool {
        self.max_items >= 1
    }
}

impl Default for Config {
    fn default() -> (c: Config)
        ensures
            c.enabled,
            c.max_items == 200,
            c.start_on_login,
            c.shortcut@ == "Ctrl+Shift+V"@,
            c.valid(),
    {
        Config {
            enabled: true,
            max_items: 200,
            start_on_login: true,
            shortcut: String::from_str("Ctrl+Shift+V"),
        }
    }
}

} // verus!
