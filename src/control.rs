//! The control engine: the node's connection to the coordination server.
use vstd::prelude::*;

use ring_channel::RingReceiver;

use crate::engine::{new_unit_ring_channel, unit_capacity, unit_pending, DATA_CHANNEL_CAPACITY};

verus! {

/// Seconds between two keepalive pings.
pub const PING_INTERVAL_SECS: u64 = 5;

/// Seconds to wait before connecting again after a failed iteration.
pub const RETRY_DELAY_SECS: u64 = 1;

/// The identifier of this node, sent once when a connection opens.
#[derive(Clone, Copy, Debug, PartialEq, Eq, Structural)]
pub struct BotId(pub u64);

/// The state of the connection to the server.
#[derive(Clone, Copy, Debug, PartialEq, Eq, Structural)]
pub enum BotnodeStatus {
    Connecting,
    Online,
    Offline,
}

/// What the driver of the connection observed.
#[derive(Clone, Copy, Debug, PartialEq, Eq, Structural)]
pub enum ControlEvent {
    /// A loop iteration began; whether a shutdown token was granted.
    IterationStarted { token_granted: bool },
    /// The connection to the server opened.
    Connected,
    /// The connection to the server could not be opened.
    ConnectFailed,
    /// A frame from the server decoded.
    FrameReceived,
    /// Reading, decoding or sending a frame failed.
    TransportError,
    /// The server closed the connection.
    PeerClosed,
    /// The keepalive interval elapsed.
    PingDue,
    /// Shutdown was triggered.
    ShutdownTriggered,
}

/// What the driver does next.
#[derive(Clone, Copy, Debug, PartialEq, Eq, Structural)]
pub enum ControlAction {
    /// Open a connection to the server address.
    Dial,
    /// Send the `Hello` message with the node's identifier.
    SendHello,
    /// Keep waiting for a frame, the ping timer or shutdown.
    Listen,
    /// Send a `Ping`.
    SendPing,
    /// The iteration failed: wait this many seconds, then begin the next.
    RetryAfter(u64),
    /// Shutdown was observed: stop with success.
    Finish,
}

/// The status after an event, and the action it calls for.
pub open spec fn control_step(status: BotnodeStatus, event: ControlEvent) -> (BotnodeStatus, ControlAction) {
    match event {
        ControlEvent::IterationStarted { token_granted } => if token_granted {
            (BotnodeStatus::Connecting, ControlAction::Dial)
        } else {
            (status, ControlAction::RetryAfter(RETRY_DELAY_SECS))
        },
        ControlEvent::Connected => (status, ControlAction::SendHello),
        ControlEvent::FrameReceived => (BotnodeStatus::Online, ControlAction::Listen),
        ControlEvent::ConnectFailed | ControlEvent::TransportError | ControlEvent::PeerClosed => (
            BotnodeStatus::Offline,
            ControlAction::RetryAfter(RETRY_DELAY_SECS),
        ),
        ControlEvent::PingDue => (status, ControlAction::SendPing),
        ControlEvent::ShutdownTriggered => (status, ControlAction::Finish),
    }
}

/// The control engine: maintains the connection to the server.
#[derive(Debug)]
pub struct ControlEngine {
    pub bot_id: BotId,
    pub server_addr: String,
    pub status: BotnodeStatus,
    pub ping_interval_secs: u64,
}

impl ControlEngine {
    /// An engine that is offline, for node `bot_id` and server
    /// `server_addr`.
    pub fn new(bot_id: BotId, server_addr: &str) -> (r: ControlEngine)
        ensures
            r.bot_id == bot_id,
            r.server_addr@ == server_addr@,
            r.status == BotnodeStatus::Offline,
            r.ping_interval_secs == PING_INTERVAL_SECS,
    {
        ControlEngine {
            bot_id,
            server_addr: String::from_str(server_addr),
            status: BotnodeStatus::Offline,
            ping_interval_secs: PING_INTERVAL_SECS,
        }
    }

    /// Takes in one event and returns the action it calls for.
    pub fn handle_event(&mut self, event: ControlEvent) -> (r: ControlAction)
        ensures
            (final(self).status, r) == control_step(old(self).status, event),
            final(self).bot_id == old(self).bot_id,
            final(self).server_addr == old(self).server_addr,
            final(self).ping_interval_secs == old(self).ping_interval_secs,
    {
        match event {
            ControlEvent::IterationStarted { token_granted } => {
                if token_granted {
                    self.status = BotnodeStatus::Connecting;
                    ControlAction::Dial
                } else {
                    ControlAction::RetryAfter(RETRY_DELAY_SECS)
                }
            },
            ControlEvent::Connected => ControlAction::SendHello,
            ControlEvent::FrameReceived => {
                match self.status {
                    BotnodeStatus::Offline | BotnodeStatus::Connecting => {
                        self.status = BotnodeStatus::Online;
                    },
                    BotnodeStatus::Online => {},
                }
                ControlAction::Listen
            },
            ControlEvent::ConnectFailed | ControlEvent::TransportError | ControlEvent::PeerClosed => {
                self.status = BotnodeStatus::Offline;
                ControlAction::RetryAfter(RETRY_DELAY_SECS)
            },
            ControlEvent::PingDue => ControlAction::SendPing,
            ControlEvent::ShutdownTriggered => ControlAction::Finish,
        }
    }

    /// The state of the connection.
    pub fn status(&self) -> (r: BotnodeStatus)
        ensures
            r == self.status,
    {
        self.status
    }

    /// The engine's name.
    pub fn to_string(&self) -> (r: String)
        ensures
            r@ == "control-engine"@,
    {
        String::from_str("control-engine")
    }

    /// A reader of the engine's output; this engine publishes nothing, so
    /// the reader is of a fresh channel of `DATA_CHANNEL_CAPACITY` slots
    /// with nothing pending.
    pub fn data_rx(&self) -> (r: RingReceiver<()>)
        ensures
            unit_capacity(r) == DATA_CHANNEL_CAPACITY,
            unit_pending(r) == Seq::<()>::empty(),
    {
        let (_data_tx, data_rx) = new_unit_ring_channel(DATA_CHANNEL_CAPACITY);
        data_rx
    }
}

/// From any status, a connect and a first frame bring the engine online; a
/// transport error then takes it offline and calls for exactly one retry
/// after the fixed delay, which dials again.
pub proof fn lemma_connect_then_fail(status: BotnodeStatus)
    ensures
        ({
            let (s1, a1) = control_step(status, ControlEvent::IterationStarted { token_granted: true });
            let (s2, a2) = control_step(s1, ControlEvent::Connected);
            let (s3, a3) = control_step(s2, ControlEvent::FrameReceived);
            let (s4, a4) = control_step(s3, ControlEvent::TransportError);
            let (s5, a5) = control_step(s4, ControlEvent::IterationStarted { token_granted: true });
            &&& s1 == BotnodeStatus::Connecting && a1 == ControlAction::Dial
            &&& s2 == BotnodeStatus::Connecting && a2 == ControlAction::SendHello
            &&& s3 == BotnodeStatus::Online && a3 == ControlAction::Listen
            &&& s4 == BotnodeStatus::Offline && a4 == ControlAction::RetryAfter(RETRY_DELAY_SECS)
            &&& s5 == BotnodeStatus::Connecting && a5 == ControlAction::Dial
        }),
{
}

/// Whatever the status, a failure of the connection leaves the engine
/// offline and calls for a retry after the fixed delay, and shutdown ends
/// the engine.
pub proof fn lemma_failures_retry(status: BotnodeStatus, event: ControlEvent)
    ensures
        event == ControlEvent::ConnectFailed || event == ControlEvent::TransportError || event == ControlEvent::PeerClosed
            ==> control_step(status, event) == (BotnodeStatus::Offline, ControlAction::RetryAfter(RETRY_DELAY_SECS)),
        event == ControlEvent::ShutdownTriggered ==> control_step(status, event).1 == ControlAction::Finish,
{
}

} // verus!
