//! The list of sessions to choose from.

use crate::session_manager::{is_newest_first, SessionIdentifier, SessionManager};
use vstd::prelude::*;

verus! {

/// The sessions that can be chosen, newest first.
#[derive(Debug)]
pub struct SessionSelector {
    pub sessions: Vec<(SessionIdentifier, String)>,
}

/// The directories of `sessions`, in order.
pub open spec fn dirs_of(sessions: Seq<(SessionIdentifier, String)>) -> Seq<String> {
    sessions.map_values(|session: (SessionIdentifier, String)| session.1)
}

impl SessionSelector {
    /// The sessions that live in `dirs`, newest first, each with its place
    /// in that order.
    pub fn new(dirs: Vec<String>) -> (selector: SessionSelector)
        ensures
            selector.sessions@.len() == dirs@.len(),
            is_newest_first(dirs_of(selector.sessions@)),
            dirs_of(selector.sessions@).to_multiset() == dirs@.to_multiset(),
            forall|i: int|
                0 <= i < selector.sessions@.len() ==> (#[trigger] selector.sessions@[i]).0
                    == SessionIdentifier(i as usize),
    {
        let manager: SessionManager = SessionManager::new(dirs);
        let sessions: Vec<(SessionIdentifier, String)> = manager.iter_relative_paths_with_indices();
        proof {
            assert(dirs_of(sessions@) =~= manager.dirs@);
        }
        SessionSelector { sessions }
    }
}

} // verus!
