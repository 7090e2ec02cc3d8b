//! The command relay: at most one handle to the device, and what a command
//! does with it.
//!
//! Opening the device and writing to it are the caller's business. The relay
//! keeps the handle and decides: what becomes of the handle when an attempt to
//! open ends, and whether a command has anything to be written to.
use vstd::prelude::*;
use vstd::string::StrSliceExecFns;
use vstd::utf8::{encode_utf8, is_ascii_chars, is_ascii_chars_encode_utf8};

verus! {

/// The baud rate at which the device is opened.
pub const BAUD_RATE: u32 = 9600;

/// A command for the device.
#[derive(Clone, Copy, Debug, PartialEq, Eq)]
pub enum Command {
    /// Start sampling.
    Start,
    /// Stop sampling.
    Stop,
}

impl Command {
    /// The token that stands for the command on the serial line.
    pub open spec fn token_text(self) -> Seq<char> {
        match self {
            Command::Start => "START_SAMPLING"@,
            Command::Stop => "STOP_SAMPLING"@,
        }
    }

    /// What is written to the device for the command: the bytes of its token,
    /// then a line feed.
    pub open spec fn payload_bytes(self) -> Seq<u8> {
        self.token_text().map_values(|c: char| c as u8).push(0x0a)
    }

    /// The token that stands for the command on the serial line.
    pub fn token(&self) -> (token: &'static str)
        ensures
            token@ == self.token_text(),
            is_ascii_chars(token@),
    {
        proof {
            reveal_strlit("START_SAMPLING");
            reveal_strlit("STOP_SAMPLING");
        }
        match self {
            Command::Start => "START_SAMPLING",
            Command::Stop => "STOP_SAMPLING",
        }
    }

    /// The whole payload of one send: the token followed by a line feed.
    pub fn payload(&self) -> (bytes: Vec<u8>)
        ensures
            bytes@ == self.payload_bytes(),
    {
        let token = self.token();
        let mut bytes = token.as_bytes_vec();
        proof {
            is_ascii_chars_encode_utf8(token@);
            assert(bytes@ =~= token@.map_values(|c: char| c as u8));
        }
        bytes.push(0x0a);
        bytes
    }
}

/// How an attempt to connect ended.
#[derive(Clone, Copy, Debug, PartialEq, Eq)]
pub enum ConnectStatus {
    /// The device was opened and its handle is now the relay's.
    Connected,
    /// The device could not be opened; the relay is as it was.
    Failed,
}

/// How a send ended.
#[derive(Clone, Copy, Debug, PartialEq, Eq)]
pub enum SendStatus {
    /// The payload was written to the device.
    Sent,
    /// No handle was open; nothing was written.
    NotConnected,
    /// A handle was open and the write failed.
    Failed,
}

impl SendStatus {
    /// The status of a send whose write has ended; `written` says whether the
    /// write succeeded.
    pub fn of_write(written: bool) -> (status: SendStatus)
        ensures
            status == if written {
                SendStatus::Sent
            } else {
                SendStatus::Failed
            },
    {
        if written {
            SendStatus::Sent
        } else {
            SendStatus::Failed
        }
    }
}

/// What a send has to do.
pub enum SendPlan<'a, H> {
    /// Write `payload` to `port`.
    Write { port: &'a H, payload: Vec<u8> },
    /// Write nothing: no handle is open.
    NotConnected,
}

/// What a send has to do, as mathematics.
pub enum PlanView<H> {
    Write { port: H, payload: Seq<u8> },
    NotConnected,
}

impl<'a, H> View for SendPlan<'a, H> {
    type V = PlanView<H>;

    open spec fn view(&self) -> PlanView<H> {
        match self {
            SendPlan::Write { port, payload } => PlanView::Write { port: **port, payload: payload@ },
            SendPlan::NotConnected => PlanView::NotConnected,
        }
    }
}

/// The state of the relay, as mathematics: the one handle, or none.
pub struct RelayView<H> {
    pub handle: Option<H>,
}

impl<H> RelayView<H> {
    /// The relay with no handle.
    pub open spec fn disconnected() -> Self {
        RelayView { handle: None }
    }

    /// Whether a handle is open.
    pub open spec fn is_connected(self) -> bool {
        self.handle is Some
    }

    /// The relay after an attempt to open the device ended with `opened`: a
    /// new handle takes the place of any earlier one, a failure changes
    /// nothing.
    pub open spec fn connect<E>(self, opened: Result<H, E>) -> Self {
        match opened {
            Ok(handle) => RelayView { handle: Some(handle) },
            Err(_) => self,
        }
    }

    /// The relay after a disconnect.
    pub open spec fn disconnect(self) -> Self {
        Self::disconnected()
    }

    /// What a send of `command` has to do.
    pub open spec fn plan(self, command: Command) -> PlanView<H> {
        match self.handle {
            Some(port) => PlanView::Write { port, payload: command.payload_bytes() },
            None => PlanView::NotConnected,
        }
    }
}

/// How an attempt to connect that ended with `opened` is reported.
pub open spec fn status_of_connect<H, E>(opened: Result<H, E>) -> ConnectStatus {
    match opened {
        Ok(_) => ConnectStatus::Connected,
        Err(_) => ConnectStatus::Failed,
    }
}

/// The owner of the handle to the device. It holds one handle or none.
pub struct CommandRelay<H> {
    handle: Option<H>,
}

impl<H> View for CommandRelay<H> {
    type V = RelayView<H>;

    closed spec fn view(&self) -> RelayView<H> {
        RelayView { handle: self.handle }
    }
}

impl<H> CommandRelay<H> {
    /// A relay with no handle.
    pub fn new() -> (relay: Self)
        ensures
            relay@ == RelayView::<H>::disconnected(),
    {
        CommandRelay { handle: None }
    }

    /// Whether a handle is open.
    pub fn is_connected(&self) -> (connected: bool)
        ensures
            connected == self@.is_connected(),
    {
        self.handle.is_some()
    }

    /// Takes in the outcome of an attempt to open the device.
    ///
    /// A handle becomes the relay's one handle, and any earlier handle is
    /// dropped. A failure leaves the relay as it was.
    pub fn connect<E>(&mut self, opened: Result<H, E>) -> (status: ConnectStatus)
        ensures
            final(self)@ == old(self)@.connect(opened),
            status == status_of_connect(opened),
    {
        match opened {
            Ok(handle) => {
                self.handle = Some(handle);
                ConnectStatus::Connected
            },
            Err(_) => ConnectStatus::Failed,
        }
    }

    /// Drops the handle, if there is one.
    pub fn disconnect(&mut self)
        ensures
            final(self)@ == old(self)@.disconnect(),
    {
        self.handle = None;
    }

    /// Decides what a send of `command` has to do: write the command's payload
    /// to the open handle, or nothing where no handle is open.
    pub fn plan_send(&self, command: Command) -> (plan: SendPlan<'_, H>)
        ensures
            plan@ == self@.plan(command),
    {
        match &self.handle {
            Some(port) => SendPlan::Write { port, payload: command.payload() },
            None => SendPlan::NotConnected,
        }
    }
}

/// A send before any connect writes nothing and finds the relay not connected.
pub proof fn lemma_send_before_connect<H>(command: Command)
    ensures
        RelayView::<H>::disconnected().plan(command) == PlanView::<H>::NotConnected,
{
}

/// A failed attempt to connect leaves the handle that was there; a successful
/// one leaves exactly the new handle.
pub proof fn lemma_connect_replaces_or_keeps<H, E>(relay: RelayView<H>, opened: Result<H, E>)
    ensures
        opened is Err ==> relay.connect(opened) == relay,
        opened matches Ok(handle) ==> relay.connect(opened).handle == Some(handle),
{
}

/// Disconnecting twice is disconnecting once, and after it a send finds the
/// relay not connected.
pub proof fn lemma_disconnect_is_idempotent<H>(relay: RelayView<H>, command: Command)
    ensures
        relay.disconnect().disconnect() == relay.disconnect(),
        relay.disconnect().plan(command) == PlanView::<H>::NotConnected,
{
}

} // verus!
