//! A storage segment as the planner sees it: a fixed capacity and the number
//! of bytes already appended. The records that a segment hands out are
//! borrowed views; nothing here copies account data.

use solana_sdk::clock::Epoch;
use solana_sdk::pubkey::Pubkey;
use vstd::prelude::*;

verus! {

/// Largest file size a segment may have: 16 GiB.
pub const MAXIMUM_APPEND_VEC_FILE_SIZE: u64 = 16 * 1024 * 1024 * 1024;

/// What is stored in front of an account's data.
#[derive(Debug, PartialEq, Eq)]
pub struct StoredMeta {
    /// global write version
    pub write_version: u64,
    /// key for the account
    pub pubkey: Pubkey,
    /// logical length of the account's data
    pub data_len: u64,
}

/// The account's own metadata.
#[derive(Debug, PartialEq, Eq)]
pub struct AccountMeta {
    pub lamports: u64,
    pub owner: Pubkey,
    pub executable: bool,
    pub rent_epoch: Epoch,
}

/// One account as it lies in a segment. Every part is borrowed from the
/// segment that holds it.
#[derive(Debug, PartialEq, Eq)]
pub struct StoredAccountMeta<'a> {
    pub meta: &'a StoredMeta,
    pub account_meta: &'a AccountMeta,
    pub data: &'a [u8],
    /// byte offset of the record in its segment
    pub offset: usize,
    /// bytes the record occupies in its segment
    pub stored_size: usize,
    pub hash: &'a solana_sdk::hash::Hash,
}

/// An append-only segment, reduced to its byte accounting.
#[derive(Debug)]
pub struct AppendVec {
    file_size: u64,
    current_len: u64,
}

impl AppendVec {
    #[verifier::type_invariant]
    spec fn fill_within_capacity(&self) -> bool {
        self.current_len <= self.file_size
    }

    /// The segment's fixed capacity in bytes.
    pub closed spec fn spec_capacity(&self) -> u64 {
        self.file_size
    }

    /// Bytes appended so far.
    pub closed spec fn spec_len(&self) -> u64 {
        self.current_len
    }

    /// Bytes still free: capacity less what was appended.
    pub open spec fn spec_remaining_bytes(&self) -> u64 {
        (self.spec_capacity() - self.spec_len()) as u64
    }

    /// An empty segment of `size` bytes.
    pub fn new(size: u64) -> (segment: Self)
        ensures
            segment.spec_capacity() == size,
            segment.spec_len() == 0,
    {
        AppendVec { file_size: size, current_len: 0 }
    }

    #[verifier::when_used_as_spec(spec_capacity)]
    pub fn capacity(&self) -> (bytes: u64)
        ensures
            bytes == self.spec_capacity(),
    {
        self.file_size
    }

    #[verifier::when_used_as_spec(spec_len)]
    pub fn len(&self) -> (bytes: u64)
        ensures
            bytes == self.spec_len(),
    {
        self.current_len
    }

    #[verifier::when_used_as_spec(spec_remaining_bytes)]
    pub fn remaining_bytes(&self) -> (bytes: u64)
        ensures
            bytes == self.spec_remaining_bytes(),
            bytes + self.spec_len() == self.spec_capacity(),
    {
        proof {
            use_type_invariant(self);
        }
        self.file_size - self.current_len
    }

    /// Takes the next `len` bytes of the segment for a record and returns
    /// the offset at which they start. Where fewer than `len` bytes are
    /// free, nothing is taken. The capacity never changes.
    pub fn append_bytes(&mut self, len: u64) -> (offset: Option<u64>)
        ensures
            final(self).spec_capacity() == old(self).spec_capacity(),
            len <= old(self).spec_remaining_bytes() ==> offset == Some(old(self).spec_len())
                && final(self).spec_len() == old(self).spec_len() + len,
            len > old(self).spec_remaining_bytes() ==> offset.is_none() && final(self).spec_len()
                == old(self).spec_len(),
    {
        proof {
            use_type_invariant(&*self);
        }
        if len <= self.file_size - self.current_len {
            let offset = self.current_len;
            self.current_len = offset + len;
            Some(offset)
        } else {
            None
        }
    }
}

} // verus!
