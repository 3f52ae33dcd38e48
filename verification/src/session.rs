//! Decisions of a dump session that the Java side drives: which partition an
//! index names, the block size in force, and the error each task left.
use vstd::prelude::*;
use std::collections::HashMap;
use crate::constants::BLOCK_SIZE;
use crate::manifest::{PartManifest, UpdateInfo};

verus! {

broadcast use vstd::std_specs::hash::group_hash_axioms;

/// Why a session request failed.
#[derive(Clone, Copy, Debug, PartialEq, Eq)]
pub enum SessionError {
    /// The manifest has no partition at this index.
    NoPartition(i32),
}

/// The partition that index `partition_id` names in `manifest`.
pub fn partition_at(manifest: &PartManifest, partition_id: i32) -> (r: Result<&UpdateInfo, SessionError>)
    ensures
        0 <= partition_id < manifest.partitions@.len() ==> (r matches Ok(u) && *u
            == manifest.partitions@[partition_id as int]),
        !(0 <= partition_id < manifest.partitions@.len()) ==> r == Err::<&UpdateInfo, SessionError>(
            SessionError::NoPartition(partition_id),
        ),
{
    if partition_id < 0 || partition_id as usize >= manifest.partitions.len() {
        return Err(SessionError::NoPartition(partition_id));
    }
    Ok(&manifest.partitions[partition_id as usize])
}

/// The block size of the manifest, or the default when it names none.
pub fn effective_block_size(manifest: &PartManifest) -> (n: u64)
    ensures
        n == match manifest.block_size {
            Some(b) => b,
            None => BLOCK_SIZE,
        },
{
    match manifest.block_size {
        Some(b) => b as u64,
        None => BLOCK_SIZE as u64,
    }
}

/// The error messages that dump tasks left, by task id.
pub struct ErrorLog {
    errors: HashMap<u8, String>,
}

impl ErrorLog {
    /// The messages, by task id.
    pub closed spec fn messages(&self) -> Map<u8, Seq<char>> {
        self.errors@.map_values(|s: String| s@)
    }

    /// A log with no messages.
    pub fn new() -> (l: Self)
        ensures
            l.messages() == Map::<u8, Seq<char>>::empty(),
    {
        let l = ErrorLog { errors: HashMap::new() };
        proof {
            assert(l.messages() =~= Map::<u8, Seq<char>>::empty());
        }
        l
    }

    /// Records the message of task `partition_id`, whose id the log keeps
    /// as its low byte; it replaces an earlier one of that id.
    pub fn record(&mut self, partition_id: i32, error: String)
        ensures
            final(self).messages() == old(self).messages().insert(partition_id as u8, error@),
    {
        self.errors.insert(partition_id as u8, error);
        proof {
            assert(final(self).messages() =~= old(self).messages().insert(partition_id as u8, error@));
        }
    }

    /// The message of task `id`, whose id the log takes as its low byte; the
    /// empty text when the task left none.
    pub fn message(&self, id: i32) -> (s: String)
        ensures
            self.messages().contains_key(id as u8) ==> s@ == self.messages()[id as u8],
            !self.messages().contains_key(id as u8) ==> s@ == Seq::<char>::empty(),
    {
        match self.errors.get(&(id as u8)) {
            Some(e) => e.clone(),
            None => String::new(),
        }
    }
}

/// A message recorded for a task is what the log then gives for it.
pub proof fn lemma_record_then_message(log: ErrorLog, next: ErrorLog, id: i32, msg: Seq<char>)
    requires
        next.messages() == log.messages().insert(id as u8, msg),
    ensures
        next.messages().contains_key(id as u8),
        next.messages()[id as u8] == msg,
{
}

} // verus!
