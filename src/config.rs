//! The daemon's settings.

use vstd::prelude::*;

verus! {

/// How many entries the history keeps where the settings say nothing.
pub const DEFAULT_MAX_ITEMS: usize = 100;

/// The text of the daemon's settings file when it is first made.
pub fn default_config() -> (r: &'static str)
    ensures
        r@ == "max_items=100"@,
{
    "max_items=100"
}

/// The daemon's settings: how many entries the history keeps.
#[derive(Debug, Clone)]
pub struct Config {
    pub max_items: usize,
}

/// The daemon's settings as a file may give them.
#[derive(Debug)]
pub struct ConfigOptional {
    pub max_items: Option<usize>,
}

impl Config {
    /// The settings that a file gave, with the default where it gave none.
    pub fn create_from_optional(optional: ConfigOptional) -> (r: Self)
        ensures
            r.max_items == match optional.max_items {
                Some(n) => n,
                None => DEFAULT_MAX_ITEMS,
            },
    {
        let max_items = match optional.max_items {
            Some(items) => items,
            None => DEFAULT_MAX_ITEMS,
        };
        Config { max_items }
    }
}

} // verus!
