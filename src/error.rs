use vstd::prelude::*;

verus! {

/// Every way a request can be refused.
#[derive(Clone, Copy, Debug, PartialEq, Eq, Structural)]
pub enum EchoError {
    /// The request bytes do not decode to an operation.
    InvalidRequestEncoding,
    /// A plain echo targeted a buffer of capacity zero.
    EmptyBuffer,
    /// The payload does not fit in the writable part of the buffer.
    PayloadTooLarge,
    /// The claimed authority is not the buffer's recorded owner.
    OwnerMismatch,
    /// The target address is not the one derived for the operation.
    AddressMismatch,
    /// No uniqueness token yields an unassignable address.
    DerivationExhausted,
    /// The buffer cannot hold the metadata header.
    HeaderTruncated,
}

} // verus!
