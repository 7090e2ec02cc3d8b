//! The status texts that the control operations answer with.
use vstd::prelude::*;
use crate::relay::{ConnectStatus, SendStatus};

verus! {

/// The answer of a control operation.
#[derive(Clone, Copy, Debug, PartialEq, Eq)]
pub enum Reply {
    /// The device was opened.
    Connected,
    /// The device could not be opened, or a write to it failed.
    Failed,
    /// A command was written to the device.
    Sent,
    /// A command found no open handle.
    NoSerial,
    /// The handle was dropped.
    Disconnected,
    /// The store was reset.
    Cleared,
}

impl Reply {
    /// The text of the answer.
    pub open spec fn text_of(self) -> Seq<char> {
        match self {
            Reply::Connected => "Connected"@,
            Reply::Failed => "Failed"@,
            Reply::Sent => "Sent"@,
            Reply::NoSerial => "No Serial"@,
            Reply::Disconnected => "Disconnected"@,
            Reply::Cleared => "Cleared"@,
        }
    }

    /// The text of the answer.
    pub fn text(&self) -> (text: &'static str)
        ensures
            text@ == self.text_of(),
    {
        match self {
            Reply::Connected => "Connected",
            Reply::Failed => "Failed",
            Reply::Sent => "Sent",
            Reply::NoSerial => "No Serial",
            Reply::Disconnected => "Disconnected",
            Reply::Cleared => "Cleared",
        }
    }
}

/// The answer to a connect that ended with `status`.
pub open spec fn reply_of_connect(status: ConnectStatus) -> Reply {
    match status {
        ConnectStatus::Connected => Reply::Connected,
        ConnectStatus::Failed => Reply::Failed,
    }
}

/// The answer to a start or stop that ended with `status`. A send that found
/// no handle has an answer of its own, apart from that of a failed write.
pub open spec fn reply_of_send(status: SendStatus) -> Reply {
    match status {
        SendStatus::Sent => Reply::Sent,
        SendStatus::NotConnected => Reply::NoSerial,
        SendStatus::Failed => Reply::Failed,
    }
}

impl ConnectStatus {
    /// The answer to the connect.
    pub fn reply(&self) -> (reply: Reply)
        ensures
            reply == reply_of_connect(*self),
    {
        match self {
            ConnectStatus::Connected => Reply::Connected,
            ConnectStatus::Failed => Reply::Failed,
        }
    }
}

impl SendStatus {
    /// The answer to the start or stop.
    pub fn reply(&self) -> (reply: Reply)
        ensures
            reply == reply_of_send(*self),
    {
        match self {
            SendStatus::Sent => Reply::Sent,
            SendStatus::NotConnected => Reply::NoSerial,
            SendStatus::Failed => Reply::Failed,
        }
    }
}

} // verus!
