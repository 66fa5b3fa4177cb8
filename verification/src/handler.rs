//! The user-supplied handler collaborator: one callback per inbound
//! message, invoked by the runtime whenever the dispatcher says so. What
//! the callback does with a message (here: write it to the operator's
//! console) is the runtime's business and stays outside this crate.

use vstd::prelude::*;

verus! {

/// Handle for the user's message callback.
#[derive(Clone, Copy, Debug, PartialEq, Eq, Structural)]
pub struct MessageHandler;

impl MessageHandler {
    /// Creates a new instance of MessageHandler.
    pub fn new() -> (r: MessageHandler)
        ensures
            r == MessageHandler,
    {
        MessageHandler
    }
}

} // verus!
