//! Request builders for the phy dump command. The transport layer that
//! sends the built message and streams the replies lives outside this
//! library; these builders decide only what is sent.

use vstd::prelude::*;
use crate::attr::SpecAttr;
use crate::message::{Nl80211Message, NL80211_CMD_GET_WIPHY};

verus! {

/// A prepared phy dump request: it carries the exact message to send.
#[derive(Debug, PartialEq, Eq, Clone)]
pub struct Nl80211PhyGetRequest {
    pub message: Nl80211Message,
}

impl Nl80211PhyGetRequest {
    pub(crate) fn new() -> (r: Self)
        ensures
            r.message.cmd == NL80211_CMD_GET_WIPHY,
            r.message.attributes.deep_view() =~= Seq::<SpecAttr>::empty(),
    {
        Nl80211PhyGetRequest { message: Nl80211Message::new_phy_get() }
    }

    /// The protocol message this request sends: the phy dump command with
    /// no attributes. The transport layer frames it and awaits the
    /// replies.
    pub fn message(self) -> (m: Nl80211Message)
        ensures
            m == self.message,
    {
        self.message
    }
}

/// Handle to the phy family of commands.
#[derive(Debug, PartialEq, Eq, Clone)]
pub struct Nl80211PhyHandle {}

impl Nl80211PhyHandle {
    pub fn new() -> (h: Self) {
        Nl80211PhyHandle {  }
    }

    /// Retrieve the wireless phys (equivalent to `iw phy`).
    pub fn get(&mut self) -> (r: Nl80211PhyGetRequest)
        ensures
            r.message.cmd == NL80211_CMD_GET_WIPHY,
            r.message.attributes.deep_view() =~= Seq::<SpecAttr>::empty(),
    {
        Nl80211PhyGetRequest::new()
    }
}

} // verus!
