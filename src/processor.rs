use crate::address::{derive_address, derived, Address};
use crate::error::EchoError;
use crate::state::{AuthorizedBufferHeader, AUTH_BUFFER_HEADER_SIZE};
use vstd::prelude::*;

verus! {

/// The evidence weighed for each operation.
#[derive(Clone, Copy, Debug)]
pub enum AccessRequest {
    /// A plain echo into a buffer of the given capacity.
    Echo { capacity: usize },
    /// Creating an authorized buffer at `target`, whose derived address is `derived`.
    InitializeAuthorizedEcho {
        authority: Address,
        recorded_owner: Address,
        target: Address,
        derived: Address,
    },
    /// Writing into an authorized buffer.
    AuthorizedEcho { authority: Address, recorded_owner: Address },
    /// Creating a gated buffer at `target`, whose derived address is `derived`.
    InitializeVendingMachine { target: Address, derived: Address },
}

/// The access policy: `Ok` allows the operation, `Err` names the reason it
/// is denied.
pub open spec fn access_decision(req: AccessRequest) -> Result<(), EchoError> {
    match req {
        AccessRequest::Echo { capacity } => if capacity == 0 {
            Err(EchoError::EmptyBuffer)
        } else {
            Ok(())
        },
        AccessRequest::InitializeAuthorizedEcho { authority, recorded_owner, target, derived } => {
            if authority@ != recorded_owner@ {
                Err(EchoError::OwnerMismatch)
            } else if target@ != derived@ {
                Err(EchoError::AddressMismatch)
            } else {
                Ok(())
            }
        },
        AccessRequest::AuthorizedEcho { authority, recorded_owner } => if authority@
            != recorded_owner@ {
            Err(EchoError::OwnerMismatch)
        } else {
            Ok(())
        },
        AccessRequest::InitializeVendingMachine { target, derived } => if target@ != derived@ {
            Err(EchoError::AddressMismatch)
        } else {
            Ok(())
        },
    }
}

/// Whoever claims a buffer recorded for another authority is refused.
pub proof fn lemma_foreign_authority_denied(a: Address, b: Address)
    requires
        a@ != b@,
    ensures
        access_decision(AccessRequest::AuthorizedEcho { authority: b, recorded_owner: a })
            == Err::<(), EchoError>(EchoError::OwnerMismatch),
{
}

/// The namespace tag of authorized buffers: "authority".
pub open spec fn authority_tag() -> Seq<u8> {
    seq![97u8, 117u8, 116u8, 104u8, 111u8, 114u8, 105u8, 116u8, 121u8]
}

/// The namespace tag of gated buffers: "vending".
pub open spec fn vending_tag() -> Seq<u8> {
    seq![118u8, 101u8, 110u8, 100u8, 105u8, 110u8, 103u8]
}

/// What creating an authorized buffer decides: the header to write, or why
/// it is refused.
pub open spec fn authorized_init_outcome(
    program_id: Seq<u8>,
    target: Address,
    recorded_owner: Address,
    authority: Address,
    salt: u64,
    buffer_size: usize,
) -> Result<AuthorizedBufferHeader, EchoError> {
    match derived(authority_tag(), authority@, salt, program_id) {
        None => Err(EchoError::DerivationExhausted),
        Some((a, t)) => if authority@ != recorded_owner@ {
            Err(EchoError::OwnerMismatch)
        } else if target@ != a {
            Err(EchoError::AddressMismatch)
        } else if buffer_size < 9 {
            Err(EchoError::HeaderTruncated)
        } else {
            Ok(AuthorizedBufferHeader { bump_seed: t, buffer_seed: salt })
        },
    }
}

/// What creating a gated buffer decides: the uniqueness token to sign the
/// allocation with, or why it is refused.
pub open spec fn vending_init_outcome(
    program_id: Seq<u8>,
    target: Address,
    mint: Address,
    price: u64,
) -> Result<u8, EchoError> {
    match derived(vending_tag(), mint@, price, program_id) {
        None => Err(EchoError::DerivationExhausted),
        Some((a, t)) => if target@ != a {
            Err(EchoError::AddressMismatch)
        } else {
            Ok(t)
        },
    }
}

/// The operation handlers' decisions; the ledger environment carries them out.
pub struct Processor {}

impl Processor {
    /// Applies the access policy.
    pub fn authorize(req: &AccessRequest) -> (r: Result<(), EchoError>)
        ensures
            r == access_decision(*req),
    {
        match req {
            AccessRequest::Echo { capacity } => {
                if *capacity == 0 {
                    Err(EchoError::EmptyBuffer)
                } else {
                    Ok(())
                }
            },
            AccessRequest::InitializeAuthorizedEcho { authority, recorded_owner, target, derived } => {
                if !authority.same(recorded_owner) {
                    Err(EchoError::OwnerMismatch)
                } else if !target.same(derived) {
                    Err(EchoError::AddressMismatch)
                } else {
                    Ok(())
                }
            },
            AccessRequest::AuthorizedEcho { authority, recorded_owner } => {
                if !authority.same(recorded_owner) {
                    Err(EchoError::OwnerMismatch)
                } else {
                    Ok(())
                }
            },
            AccessRequest::InitializeVendingMachine { target, derived } => {
                if !target.same(derived) {
                    Err(EchoError::AddressMismatch)
                } else {
                    Ok(())
                }
            },
        }
    }

    /// The bytes of the tag "authority".
    pub fn authority_namespace() -> (r: Vec<u8>)
        ensures
            r@ == authority_tag(),
    {
        let r: Vec<u8> = vec![97u8, 117u8, 116u8, 104u8, 111u8, 114u8, 105u8, 116u8, 121u8];
        assert(r@ =~= authority_tag());
        r
    }

    /// The bytes of the tag "vending".
    pub fn vending_namespace() -> (r: Vec<u8>)
        ensures
            r@ == vending_tag(),
    {
        let r: Vec<u8> = vec![118u8, 101u8, 110u8, 100u8, 105u8, 110u8, 103u8];
        assert(r@ =~= vending_tag());
        r
    }

    /// Decides whether `authority` may create an authorized buffer of
    /// `buffer_size` bytes at `target` with salt `buffer_seed`. On success it
    /// returns the header that the new buffer must start with; the token in it
    /// is the signing capability for the allocation.
    pub fn initialize_authorized_echo(
        program_id: &Address,
        target: &Address,
        recorded_owner: &Address,
        authority: &Address,
        buffer_seed: u64,
        buffer_size: usize,
    ) -> (r: Result<AuthorizedBufferHeader, EchoError>)
        ensures
            r == authorized_init_outcome(
                program_id@,
                *target,
                *recorded_owner,
                *authority,
                buffer_seed,
                buffer_size,
            ),
    {
        let tag = Processor::authority_namespace();
        let (address, token) = match derive_address(tag.as_slice(), authority, buffer_seed, program_id) {
            Ok(found) => found,
            Err(e) => {
                return Err(e);
            },
        };
        let decision = Processor::authorize(
            &AccessRequest::InitializeAuthorizedEcho {
                authority: *authority,
                recorded_owner: *recorded_owner,
                target: *target,
                derived: address,
            },
        );
        if let Err(e) = decision {
            return Err(e);
        }
        if buffer_size < AUTH_BUFFER_HEADER_SIZE {
            return Err(EchoError::HeaderTruncated);
        }
        Ok(AuthorizedBufferHeader { bump_seed: token, buffer_seed })
    }

    /// Decides whether a gated buffer for holders of `mint`, sold at `price`,
    /// may be created at `target`. Who submits the request plays no part. On
    /// success it returns the uniqueness token that signs the allocation.
    pub fn initialize_vending_machine(
        program_id: &Address,
        target: &Address,
        mint: &Address,
        price: u64,
    ) -> (r: Result<u8, EchoError>)
        ensures
            r == vending_init_outcome(program_id@, *target, *mint, price),
    {
        let tag = Processor::vending_namespace();
        let (address, token) = match derive_address(tag.as_slice(), mint, price, program_id) {
            Ok(found) => found,
            Err(e) => {
                return Err(e);
            },
        };
        let decision = Processor::authorize(
            &AccessRequest::InitializeVendingMachine { target: *target, derived: address },
        );
        if let Err(e) = decision {
            return Err(e);
        }
        Ok(token)
    }
}

} // verus!
