//! The delay policy: which messages are held back, and for how long.

use vstd::prelude::*;
use crate::message::{MessageView, ProtocolMessage};

verus! {

/// The configuration of the artificial delay. It is fixed for the lifetime of
/// a filter.
#[derive(Clone, Copy, Debug, PartialEq, Eq)]
pub struct DelayPolicy {
    /// Whether adverse network conditions are simulated at all.
    pub ddos_simulation_enabled: bool,
    /// The delay, in milliseconds, applied to block proposals while the
    /// simulation is enabled.
    pub delay_millis: u64,
}

impl DelayPolicy {
    /// The suspension that the policy prescribes for a message: `Some(d)` for
    /// a suspension of `d` milliseconds, `None` for no suspension at all.
    ///
    /// Only a block proposal is ever suspended, and only while the simulation
    /// is enabled.
    pub open spec fn suspension_of(self, message: MessageView) -> Option<u64> {
        if message.is_propose() && self.ddos_simulation_enabled {
            Some(self.delay_millis)
        } else {
            None
        }
    }

    /// Builds a policy from its two options.
    pub fn new(ddos_simulation_enabled: bool, delay_millis: u64) -> (policy: DelayPolicy)
        ensures
            policy == (DelayPolicy { ddos_simulation_enabled, delay_millis }),
    {
        DelayPolicy { ddos_simulation_enabled, delay_millis }
    }

    /// Decides the suspension of a message.
    pub fn suspension(&self, message: &ProtocolMessage) -> (wait: Option<u64>)
        ensures
            wait == self.suspension_of(message@),
            wait is Some <==> message@.is_propose() && self.ddos_simulation_enabled,
            wait is Some ==> wait == Some(self.delay_millis),
    {
        if message.is_propose() && self.ddos_simulation_enabled {
            Some(self.delay_millis)
        } else {
            None
        }
    }
}

} // verus!
