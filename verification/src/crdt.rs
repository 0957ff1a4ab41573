//! The `cola` replica that follows a shared text buffer.
//!
//! A `cola::Replica` records, for every position of the visible text, which
//! replica inserted it; it is modelled here by that sequence of replica ids
//! and by the replica's own id.
use vstd::prelude::*;

verus! {

#[verifier::external_type_specification]
#[verifier::external_body]
pub struct ExReplica(cola::Replica);

#[verifier::external_type_specification]
#[verifier::external_body]
pub struct ExInsertion(cola::Insertion);

#[verifier::external_type_specification]
#[verifier::external_body]
pub struct ExDeletion(cola::Deletion);

/// For every position of the text a replica follows, the id of the replica
/// that inserted it (the `inserted_by` of the run holding it).
pub uninterp spec fn replica_contents(r: cola::Replica) -> Seq<u64>;

/// The id of a replica (what `Replica::id` returns).
pub uninterp spec fn replica_id(r: cola::Replica) -> u64;

/// `n` positions inserted by `id`.
pub open spec fn run_of(id: u64, n: nat) -> Seq<u64> {
    Seq::new(n, |i: int| id)
}

/// Wraps `cola::Replica::new`, which panics for the id 0 and otherwise
/// starts a replica `id` for a text of `len` positions, all attributed to
/// `id`.
#[verifier::external_body]
pub fn replica_new(id: u64, len: usize) -> (r: cola::Replica)
    requires
        id != 0,
    ensures
        replica_contents(r) == run_of(id, len as nat),
        replica_id(r) == id,
{
    cola::Replica::new(id, len)
}

/// Wraps `cola::Replica::fork`, which panics for the id 0 and otherwise
/// copies the replica's text under the new id.
#[verifier::external_body]
pub fn replica_fork(r: &cola::Replica, new_id: u64) -> (f: cola::Replica)
    requires
        new_id != 0,
    ensures
        replica_contents(f) == replica_contents(*r),
        replica_id(f) == new_id,
{
    r.fork(new_id)
}

/// Wraps `cola::Replica::inserted`, which panics for an offset past the end
/// and otherwise records `len` positions inserted by this replica at `at`.
#[verifier::external_body]
pub fn replica_inserted(r: &mut cola::Replica, at: usize, len: usize) -> (ins: cola::Insertion)
    requires
        at <= replica_contents(*old(r)).len(),
    ensures
        replica_id(*final(r)) == replica_id(*old(r)),
        replica_contents(*final(r)) == replica_contents(*old(r)).take(at as int) + run_of(
            replica_id(*old(r)),
            len as nat,
        ) + replica_contents(*old(r)).skip(at as int),
{
    r.inserted(at, len)
}

/// Wraps `cola::Replica::deleted`, which panics for a reversed range or one
/// reaching past the end and otherwise removes the positions `start..end`.
#[verifier::external_body]
pub fn replica_deleted(r: &mut cola::Replica, start: usize, end: usize) -> (del: cola::Deletion)
    requires
        start <= end <= replica_contents(*old(r)).len(),
    ensures
        replica_id(*final(r)) == replica_id(*old(r)),
        replica_contents(*final(r)) == replica_contents(*old(r)).take(start as int)
            + replica_contents(*old(r)).skip(end as int),
{
    r.deleted(start..end)
}

} // verus!
