//! The run's configuration values: the remote workspace credential and
//! the name of the parent page the whole hierarchy hangs under. Loading
//! them from disk or the environment happens outside; the library only
//! carries the values.

use vstd::prelude::*;

verus! {

/// The remote workspace's settings.
pub struct Notion {
    pub secret: String,
    pub parent_page: String,
}

/// Everything one run is configured with.
pub struct NotationSettings {
    pub notion: Notion,
}

impl NotationSettings {
    /// Bundles the two configured values.
    pub fn from_values(secret: String, parent_page: String) -> (r: Self)
        ensures
            r.notion.secret@ == secret@,
            r.notion.parent_page@ == parent_page@,
    {
        NotationSettings { notion: Notion { secret, parent_page } }
    }
}

} // verus!
