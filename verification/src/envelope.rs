//! The transmitter: a ready item becomes a transport envelope, the serialized
//! message together with its destinations.

use vstd::prelude::*;
use crate::dispatch::Filter;
use crate::message::{Address, DispatchItem, ItemView, MessageView};

verus! {

/// `bincode::ErrorKind`, the error of a failed serialization. It is carried,
/// never looked into.
#[verifier::external_type_specification]
#[verifier::external_body]
pub struct ExErrorKind(bincode::ErrorKind);

/// `bytes::Bytes`, the buffer that holds a payload. What it holds is
/// [`buffer_content`].
#[verifier::external_type_specification]
#[verifier::external_body]
pub struct ExBytes(bytes::Bytes);

/// What `bincode::serialize` returns for the pair of a variant number and a
/// byte vector: the encoding, or `None` where it reports an error.
pub uninterp spec fn bincode_encoding(variant: u32, body: Seq<u8>) -> Option<Seq<u8>>;

/// The bytes that a `bytes::Bytes` buffer holds, in order.
pub uninterp spec fn buffer_content(buffer: bytes::Bytes) -> Seq<u8>;

/// Whether a body is short enough to be serialized. The encoding takes the
/// body and twelve bytes more, four for the variant number and eight for the
/// length of the body, and a vector holds at most `isize::MAX` bytes, half
/// the address space.
pub open spec fn fits_encoding(body: Seq<u8>) -> bool {
    body.len() + 12 <= usize::MAX / 2
}

/// Calls `bincode::serialize` on the pair of the variant number and the body.
///
/// Trusted: the outcome depends on the two arguments alone, so it is the
/// value that [`bincode_encoding`] names for them. Nothing is claimed about
/// which bytes come out, nor about when the call succeeds. The call measures
/// the encoding and allocates it at once, which panics where it would be
/// longer than a vector can be: the precondition leaves such bodies out.
#[verifier::external_body]
fn bincode_serialize(variant: u32, body: &Vec<u8>) -> (encoded: Result<Vec<u8>, Box<bincode::ErrorKind>>)
    requires
        fits_encoding(body@),
    ensures
        match encoded {
            Ok(bytes) => bincode_encoding(variant, body@) == Some(bytes@),
            Err(_) => bincode_encoding(variant, body@) is None,
        },
{
    bincode::serialize(&(variant, body))
}

/// Calls `bytes::Bytes::from` on a vector.
///
/// Trusted: the buffer holds the bytes of the vector, in the same order.
#[verifier::external_body]
fn buffer_from_vec(data: Vec<u8>) -> (buffer: bytes::Bytes)
    ensures
        buffer_content(buffer) == data@,
{
    bytes::Bytes::from(data)
}

/// Copies a `bytes::Bytes` buffer out through its `Deref` to a byte slice.
///
/// Trusted: the vector holds the bytes of the buffer, in the same order.
#[verifier::external_body]
fn buffer_to_vec(buffer: &bytes::Bytes) -> (data: Vec<u8>)
    ensures
        data@ == buffer_content(*buffer),
{
    buffer.to_vec()
}

/// Why a ready item could not be turned into an envelope.
///
/// A failure here is fatal to the node: the item is neither retried nor
/// requeued.
#[derive(Clone, Copy, Debug, PartialEq, Eq)]
pub enum TransmitError {
    /// The message could not be encoded.
    Serialization,
}

impl TransmitError {
    /// The diagnostic that accompanies the failure.
    pub fn diagnostic(&self) -> (text: &'static str)
        ensures
            text@ == "Failed to serialize core message"@,
    {
        match self {
            TransmitError::Serialization => "Failed to serialize core message",
        }
    }
}

/// The unit handed to the network transport: the serialized message and the
/// addresses it goes to.
#[derive(Debug, PartialEq, Eq)]
pub struct TransportEnvelope {
    pub payload: bytes::Bytes,
    pub destinations: Vec<Address>,
}

/// The mathematical value of a [`TransportEnvelope`].
pub struct EnvelopeView {
    pub payload: Seq<u8>,
    pub destinations: Seq<Address>,
}

impl View for TransportEnvelope {
    type V = EnvelopeView;

    open spec fn view(&self) -> EnvelopeView {
        EnvelopeView { payload: buffer_content(self.payload), destinations: self.destinations@ }
    }
}

/// The encoding of a message on the wire, or `None` where the message cannot
/// be encoded: its body is too long, or `bincode` reports an error.
pub open spec fn encoding_of(message: MessageView) -> Option<Seq<u8>> {
    if fits_encoding(message.body) {
        bincode_encoding(message.variant, message.body)
    } else {
        None
    }
}

/// The envelope made of an encoding outcome and a destination sequence: none
/// without an encoding, else the encoding with the destinations unchanged.
pub open spec fn sealed(encoded: Option<Seq<u8>>, destinations: Seq<Address>) -> Option<
    EnvelopeView,
> {
    match encoded {
        Some(payload) => Some(EnvelopeView { payload, destinations }),
        None => None,
    }
}

/// The envelope that carries an item, or `None` where its message cannot be
/// encoded.
pub open spec fn envelope_of(item: ItemView) -> Option<EnvelopeView> {
    sealed(encoding_of(item.message), item.destinations)
}

impl TransportEnvelope {
    /// Builds the envelope from the outcome of serializing a message and the
    /// destinations of that message.
    ///
    /// With an encoding, the envelope holds exactly these bytes and exactly
    /// these destinations, in order. Without one, the failure is reported as
    /// [`TransmitError::Serialization`].
    pub fn seal(
        encoded: Result<Vec<u8>, Box<bincode::ErrorKind>>,
        destinations: Vec<Address>,
    ) -> (envelope: Result<TransportEnvelope, TransmitError>)
        ensures
            match encoded {
                Ok(bytes) => envelope matches Ok(e) && sealed(Some(bytes@), destinations@) == Some(
                    e@,
                ),
                Err(_) => envelope == Err::<TransportEnvelope, TransmitError>(
                    TransmitError::Serialization,
                ),
            },
    {
        match encoded {
            Ok(bytes) => Ok(TransportEnvelope { payload: buffer_from_vec(bytes), destinations }),
            Err(_) => Err(TransmitError::Serialization),
        }
    }

    /// A copy of the serialized message.
    pub fn payload_bytes(&self) -> (bytes: Vec<u8>)
        ensures
            bytes@ == self@.payload,
    {
        buffer_to_vec(&self.payload)
    }
}

impl Filter {
    /// Turns a ready item into the envelope for the transport.
    ///
    /// Succeeds exactly when the message can be encoded; the envelope then
    /// holds that encoding and the item's destinations, unchanged and in
    /// order. A message that cannot be encoded, because its body is too long
    /// or because `bincode` reports an error, gives
    /// [`TransmitError::Serialization`].
    pub fn transmit(input: DispatchItem) -> (envelope: Result<TransportEnvelope, TransmitError>)
        ensures
            match envelope {
                Ok(e) => envelope_of(input@) == Some(e@),
                Err(error) => envelope_of(input@) is None && error
                    == TransmitError::Serialization,
            },
    {
        if input.message.body.len() > usize::MAX / 2 - 12 {
            return Err(TransmitError::Serialization);
        }
        let encoded = bincode_serialize(input.message.variant, &input.message.body);
        TransportEnvelope::seal(encoded, input.destinations)
    }
}

} // verus!
