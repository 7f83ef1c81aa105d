//! The SDK types that the library carries through without reading them.

use vstd::prelude::*;

verus! {

/// `solana_sdk::pubkey::Pubkey`, the 32-byte account id. Opaque to the
/// verifier: contracts only ever compare two ids for equality.
#[verifier::external_type_specification]
#[verifier::external_body]
pub struct ExPubkey(solana_sdk::pubkey::Pubkey);

/// `solana_sdk::hash::Hash`, the 32-byte digest of an account's content.
/// Opaque to the verifier in the same way.
#[verifier::external_type_specification]
#[verifier::external_body]
pub struct ExHash(solana_sdk::hash::Hash);

} // verus!
