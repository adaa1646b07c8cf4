//! Widget markers for the terminal surface. The drawing itself lives
//! with the embedding layer's renderer; these types name the panes it
//! composes: the terminal pane showing a scrollback buffer over the
//! command line, and the user list beside it.

use vstd::prelude::*;

verus! {

/// The terminal pane: a scrollback view stacked over the command
/// line.
pub struct Terminal;

impl Terminal {
    /// A terminal pane marker.
    pub fn new() -> (r: Terminal)
        ensures
            r == (Terminal {}),
    {
        Terminal {}
    }
}

/// The pane listing the users of the focused channel.
pub struct UserList {}

impl Default for UserList {
    /// An empty user list pane marker.
    fn default() -> (r: UserList)
        ensures
            r == (UserList {}),
    {
        UserList {}
    }
}

} // verus!
