//! A capability-gated storage service: buffers addressed by derived
//! addresses, a fixed metadata header, and the access policy of each
//! operation, with their contracts proved.

mod address;
mod bytes;
mod error;
mod instruction;
mod processor;
mod state;

pub use address::{
    derivation_matches, derive_address, derived, lemma_derivation_deterministic, program_address_of, search_bump, seed_list, seed_prefix, seed_views,
    Address,
};
pub use bytes::{le_bytes, le_bytes32, le_u32, le_u64, lemma_le32_round_trip, lemma_le_round_trip};
pub use error::EchoError;
pub use instruction::{
    lemma_request_round_trip, parse_request, request_bytes, request_encodable, EchoInstruction,
    InstructionView,
};
pub use processor::{
    access_decision, authority_tag, authorized_init_outcome, lemma_foreign_authority_denied,
    vending_init_outcome, vending_tag, AccessRequest, Processor,
};
pub use state::{
    authorized_echo_outcome, echoed, echoed_after_header, header_bytes, header_of,
    lemma_authorized_echo_capacity, lemma_echo_full_payload, lemma_header_round_trip, AuthorizedBufferHeader, EchoBuffer, AUTH_BUFFER_HEADER_SIZE,
};
