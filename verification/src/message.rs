//! The values that flow through the filter: addresses, protocol messages and
//! the pairing of a message with its destinations.

use vstd::prelude::*;

verus! {

/// A socket address of a peer, held as plain numbers.
#[derive(Clone, Copy, Debug, PartialEq, Eq)]
pub enum Address {
    /// An IPv4 address and a port.
    V4 { octets: [u8; 4], port: u16 },
    /// An IPv6 address, a port, and the flow and scope identifiers.
    V6 { segments: [u16; 8], port: u16, flowinfo: u32, scope_id: u32 },
}

/// One of the two dispatch paths of the filter. They are alike in structure
/// and share no state.
#[derive(Clone, Copy, Debug, PartialEq, Eq)]
pub enum Pipeline {
    /// The path of the primary protocol.
    Primary,
    /// The path of the fallback protocol.
    Fallback,
}

/// The variant number of a block proposal, the one kind of message that the
/// filter may hold back.
pub const PROPOSE: u32 = 0;

/// A message of the consensus protocol as the filter sees it: the number of
/// its variant and the encoded fields of that variant.
#[derive(Debug, PartialEq, Eq)]
pub struct ProtocolMessage {
    pub variant: u32,
    pub body: Vec<u8>,
}

/// The mathematical value of a [`ProtocolMessage`].
pub struct MessageView {
    pub variant: u32,
    pub body: Seq<u8>,
}

impl View for ProtocolMessage {
    type V = MessageView;

    open spec fn view(&self) -> MessageView {
        MessageView { variant: self.variant, body: self.body@ }
    }
}

impl MessageView {
    /// Whether the message is a block proposal.
    pub open spec fn is_propose(self) -> bool {
        self.variant == PROPOSE
    }
}

impl Clone for ProtocolMessage {
    fn clone(&self) -> (copy: ProtocolMessage)
        ensures
            copy@ == self@,
    {
        let body = self.body.clone();
        assert(body@ =~= self.body@);
        ProtocolMessage { variant: self.variant, body }
    }
}

impl ProtocolMessage {
    /// Builds a message from its variant number and its encoded fields.
    pub fn new(variant: u32, body: Vec<u8>) -> (message: ProtocolMessage)
        ensures
            message@ == (MessageView { variant, body: body@ }),
    {
        ProtocolMessage { variant, body }
    }

    /// Builds a block proposal with the given encoded fields.
    pub fn propose(body: Vec<u8>) -> (message: ProtocolMessage)
        ensures
            message@ == (MessageView { variant: PROPOSE, body: body@ }),
            message@.is_propose(),
    {
        ProtocolMessage { variant: PROPOSE, body }
    }

    /// Classifies the message: `true` exactly for a block proposal.
    pub fn is_propose(&self) -> (propose: bool)
        ensures
            propose == self@.is_propose(),
    {
        self.variant == PROPOSE
    }
}

/// The unit of work of the filter: a message and the ordered sequence of
/// addresses it must be sent to.
#[derive(Debug, PartialEq, Eq)]
pub struct DispatchItem {
    pub message: ProtocolMessage,
    pub destinations: Vec<Address>,
}

/// The mathematical value of a [`DispatchItem`].
pub struct ItemView {
    pub message: MessageView,
    pub destinations: Seq<Address>,
}

impl View for DispatchItem {
    type V = ItemView;

    open spec fn view(&self) -> ItemView {
        ItemView { message: self.message@, destinations: self.destinations@ }
    }
}

impl Clone for DispatchItem {
    fn clone(&self) -> (copy: DispatchItem)
        ensures
            copy@ == self@,
    {
        let destinations = self.destinations.clone();
        assert(destinations@ =~= self.destinations@);
        DispatchItem { message: self.message.clone(), destinations }
    }
}

impl DispatchItem {
    /// Pairs a message with its destinations.
    pub fn new(message: ProtocolMessage, destinations: Vec<Address>) -> (item: DispatchItem)
        ensures
            item@ == (ItemView { message: message@, destinations: destinations@ }),
    {
        DispatchItem { message, destinations }
    }
}

} // verus!
