//! The rotation state kept between runs.

use vstd::prelude::*;

verus! {

/// What the application saves of the rotation: the ids still queued in
/// this cycle, those already shown in it, and the image last shown.
pub struct PersistedState {
    pub remaining_queue: Vec<String>,
    pub shown_ids: Vec<String>,
    pub last_image_id: Option<String>,
}

impl PersistedState {
    /// The state of a first run: nothing queued, nothing shown.
    pub fn empty() -> (r: PersistedState)
        ensures
            r.remaining_queue@.len() == 0,
            r.shown_ids@.len() == 0,
            r.last_image_id is None,
    {
        PersistedState { remaining_queue: Vec::new(), shown_ids: Vec::new(), last_image_id: None }
    }
}

/// Where the rotation state is saved.
pub struct StateStore {
    path: String,
}

impl View for StateStore {
    type V = Seq<char>;

    closed spec fn view(&self) -> Seq<char> {
        self.path@
    }
}

impl StateStore {
    /// A store that saves to the JSON file at `path`.
    pub fn new(path: String) -> (r: StateStore)
        ensures
            r@ == path@,
    {
        StateStore { path }
    }

    /// The file the state is saved to.
    pub fn path(&self) -> (r: &str)
        ensures
            r@ == self@,
    {
        self.path.as_str()
    }
}

} // verus!
