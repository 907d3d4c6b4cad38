//! Account identities, as the host runtime's `Pubkey`.
//!
//! Verus sees a `Pubkey` as an opaque value. What this library needs of one
//! is the 32 bytes it holds, and those are stated here without proof.

use solana_program::pubkey::Pubkey;
use vstd::prelude::*;

verus! {

/// Width of an identity on the wire.
pub const IDENTITY_LEN: usize = 32;

/// The runtime's `Pubkey`, declared as a type that nothing is known of.
#[verifier::external_type_specification]
#[verifier::external_body]
pub struct ExPubkey(solana_program::pubkey::Pubkey);

/// The 32 bytes that a `Pubkey` holds.
pub uninterp spec fn key_bytes(key: Pubkey) -> Seq<u8>;

/// `Pubkey::new_from_array` stores the array it is given, unchanged: the
/// key's bytes are the array's.
pub assume_specification[ Pubkey::new_from_array ](address_array: [u8; 32]) -> (key: Pubkey)
    ensures
        key_bytes(key) == address_array@,
;

/// `Pubkey::to_bytes` returns a copy of the array that the key holds.
pub assume_specification[ Pubkey::to_bytes ](key: &Pubkey) -> (bytes: [u8; 32])
    ensures
        bytes@ == key_bytes(*key),
;

} // verus!
