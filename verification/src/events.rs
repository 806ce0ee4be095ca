//! Events that the control plane tells its subscribers.

use crate::error::EpsilonError;
use crate::group::{Group, GroupView};
use vstd::prelude::*;

verus! {

/// How many events the bus holds for a subscriber that lags.
pub const EVENT_BUS_CAPACITY: usize = 1024;

/// Something that subscribers are told.
#[derive(Debug)]
pub enum EpsilonEvent {
    /// The group is to be sent to the instance of that name.
    SendToServer(Group, String),
    /// The instance of that name was cleared away.
    ClearServer(String),
}

/// An event as plain values.
pub enum EventView {
    SendToServer(GroupView, Seq<char>),
    ClearServer(Seq<char>),
}

impl View for EpsilonEvent {
    type V = EventView;

    open spec fn view(&self) -> EventView {
        match self {
            EpsilonEvent::SendToServer(group, server) => EventView::SendToServer(group@, server@),
            EpsilonEvent::ClearServer(server) => EventView::ClearServer(server@),
        }
    }
}

impl EpsilonEvent {
    /// The name of the event's kind.
    pub open spec fn kind(self) -> Seq<char> {
        match self {
            EpsilonEvent::SendToServer(_, _) => "SendToServer"@,
            EpsilonEvent::ClearServer(_) => "ClearServer"@,
        }
    }

    /// The error that tells that the event could not be sent: it names the
    /// event's kind.
    pub fn send_error(&self) -> (e: EpsilonError)
        ensures
            e matches EpsilonError::SendEventError(kind) && kind@ == self.kind(),
    {
        EpsilonError::SendEventError(self.to_string())
    }

    /// The name of the event's kind.
    pub fn to_string(&self) -> (name: String)
        ensures
            name@ == self.kind(),
    {
        match self {
            EpsilonEvent::SendToServer(_, _) => String::from_str("SendToServer"),
            EpsilonEvent::ClearServer(_) => String::from_str("ClearServer"),
        }
    }
}

} // verus!
