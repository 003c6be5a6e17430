//! Engines: independently scheduled units of work, and their output
//! channels.
use vstd::prelude::*;

use ring_channel::{RingReceiver, RingSender};

verus! {

#[verifier::external_type_specification]
#[verifier::external_body]
#[verifier::reject_recursive_types(T)]
pub struct ExRingSender<T>(RingSender<T>);

#[verifier::external_type_specification]
#[verifier::external_body]
#[verifier::reject_recursive_types(T)]
pub struct ExRingReceiver<T>(RingReceiver<T>);

/// The number of slots of an engine's output channel.
pub const DATA_CHANNEL_CAPACITY: usize = 1024;

/// The messages that a reader of a unit channel has yet to receive, oldest
/// first.
pub uninterp spec fn unit_pending(r: RingReceiver<()>) -> Seq<()>;

/// The number of slots of the channel that a unit reader reads.
pub uninterp spec fn unit_capacity(r: RingReceiver<()>) -> nat;

/// Relies on ring_channel::ring_channel: a new channel with `capacity`
/// slots and nothing sent yet; it panics only on a capacity of zero.
#[verifier::external_body]
pub(crate) fn new_unit_ring_channel(capacity: usize) -> (r: (RingSender<()>, RingReceiver<()>))
    requires
        capacity > 0,
    ensures
        unit_capacity(r.1) == capacity,
        unit_pending(r.1) == Seq::<()>::empty(),
{
    ring_channel::ring_channel(std::num::NonZeroUsize::new(capacity).unwrap())
}

/// Handle to a launched engine.
#[derive(Debug)]
pub struct EngineHandle {}

/// The kinds of engine a node runs.
#[derive(Clone, Copy, Debug, PartialEq, Eq, Structural)]
pub enum EngineType {
    AuditEngine,
    ControlEngine,
    MarketDataEngine,
}

impl EngineType {
    /// The label of this kind of engine.
    pub fn name(&self) -> (r: String)
        ensures
            r@ == match self {
                EngineType::AuditEngine => "audit-engine"@,
                EngineType::ControlEngine => "control-engine"@,
                EngineType::MarketDataEngine => "market-data-engine"@,
            },
    {
        match self {
            EngineType::AuditEngine => String::from_str("audit-engine"),
            EngineType::ControlEngine => String::from_str("control-engine"),
            EngineType::MarketDataEngine => String::from_str("market-data-engine"),
        }
    }
}

/// An engine iteration failed: transport, decode, or no shutdown token.
#[derive(Clone, Copy, Debug, PartialEq, Eq, Structural)]
pub struct EngineError {}

} // verus!
