//! Messages of the web API and of the browser's socket.

use vstd::prelude::*;

verus! {

/// Query of the signals list: paging and filters, each optional.
#[derive(Debug)]
pub struct SignalsQueryParams {
    pub limit: Option<u32>,
    pub offset: Option<u32>,
    pub signal_type: Option<String>,
    pub direction: Option<String>,
    pub outcome: Option<String>,
}

/// Query of the sessions list.
#[derive(Debug, Clone, Copy, PartialEq, Eq, Structural)]
pub struct SessionsQueryParams {
    pub limit: Option<u32>,
}

/// A message from the browser: an action, with the arguments it needs.
#[derive(Debug)]
pub struct ClientMessage {
    pub action: String,
    pub symbol: Option<String>,
    pub min_size: Option<u32>,
}

impl ClientMessage {
    /// The new minimum bubble size that the message asks for: its `min_size` when the
    /// action is `set_min_size`; no change otherwise.
    pub fn min_size_update(&self) -> (r: Option<u32>)
        ensures
            r == (if self.action@ == "set_min_size"@ { self.min_size } else { None }),
    {
        let wanted = "set_min_size".to_owned();
        if self.action == wanted {
            self.min_size
        } else {
            None
        }
    }
}

} // verus!
