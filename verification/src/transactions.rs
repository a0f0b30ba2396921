//! Deduplication of homeserver transactions.
//!
//! The homeserver retries a transaction until it is acknowledged, so the
//! bridge remembers the IDs it has processed, in arrival order, and forgets
//! the oldest ones beyond a limit.
use vstd::prelude::*;
use vstd::string::*;

verus! {

/// How many transaction IDs are remembered.
pub const MAX_PROCESSED_TXNS: usize = 10_000;

#[verifier::external_type_specification]
#[verifier::external_body]
#[verifier::reject_recursive_types(T)]
#[verifier::reject_recursive_types(S)]
pub struct ExIndexSet<T, S>(indexmap::IndexSet<T, S>);

/// The IDs in a set of processed transaction IDs, in insertion order.
pub uninterp spec fn txn_ids_view(s: indexmap::IndexSet<String>) -> Seq<Seq<char>>;

/// An empty set (`IndexSet::new`).
#[verifier::external_body]
pub fn new_txn_set() -> (r: indexmap::IndexSet<String>)
    ensures
        txn_ids_view(r) == Seq::<Seq<char>>::empty(),
{
    indexmap::IndexSet::new()
}

/// Whether the set holds the ID (`IndexSet::contains`).
#[verifier::external_body]
fn txn_set_contains(s: &indexmap::IndexSet<String>, id: &str) -> (r: bool)
    ensures
        r == txn_ids_view(*s).contains(id@),
{
    s.contains(id)
}

/// Adds an ID (`IndexSet::insert`). As the crate documents, a new ID goes
/// last and `true` is returned; an ID already present leaves the set and
/// its order unchanged and `false` is returned.
#[verifier::external_body]
fn txn_set_insert(s: &mut indexmap::IndexSet<String>, id: String) -> (r: bool)
    ensures
        r == !txn_ids_view(*old(s)).contains(id@),
        r ==> txn_ids_view(*final(s)) == txn_ids_view(*old(s)).push(id@),
        !r ==> txn_ids_view(*final(s)) == txn_ids_view(*old(s)),
{
    s.insert(id)
}

/// The number of IDs (`IndexSet::len`).
#[verifier::external_body]
fn txn_set_len(s: &indexmap::IndexSet<String>) -> (r: usize)
    ensures
        r == txn_ids_view(*s).len(),
{
    s.len()
}

/// Removes the oldest ID (`IndexSet::shift_remove_index(0)`), keeping the
/// order of the others, as the crate documents.
#[verifier::external_body]
fn txn_set_remove_oldest(s: &mut indexmap::IndexSet<String>)
    requires
        txn_ids_view(*old(s)).len() > 0,
    ensures
        txn_ids_view(*final(s)) == txn_ids_view(*old(s)).drop_first(),
{
    s.shift_remove_index(0);
}

/// The remembered IDs after a new one arrives: the new one last, the
/// oldest dropped so that at most `max` remain.
pub open spec fn spec_after_record(ids: Seq<Seq<char>>, id: Seq<char>, max: nat) -> Seq<Seq<char>> {
    let all = ids.push(id);
    if all.len() > max {
        all.skip(all.len() - max)
    } else {
        all
    }
}

/// Records a transaction ID. Returns `false`, leaving the set unchanged,
/// when the ID was already processed; otherwise adds it last, forgets the
/// oldest IDs beyond `max`, and returns `true`.
pub fn record_transaction(processed: &mut indexmap::IndexSet<String>, txn_id: &str, max: usize) -> (r: bool)
    ensures
        r == !txn_ids_view(*old(processed)).contains(txn_id@),
        !r ==> txn_ids_view(*final(processed)) == txn_ids_view(*old(processed)),
        r ==> txn_ids_view(*final(processed)) == spec_after_record(
            txn_ids_view(*old(processed)),
            txn_id@,
            max as nat,
        ),
{
    if txn_set_contains(processed, txn_id) {
        return false;
    }
    txn_set_insert(processed, txn_id.to_string());
    let ghost all = txn_ids_view(*old(processed)).push(txn_id@);
    while txn_set_len(processed) > max
        invariant
            all.len() > max ==> txn_ids_view(*processed).len() >= max,
            all.len() <= max ==> txn_ids_view(*processed).len() == all.len(),
            all.len() >= txn_ids_view(*processed).len(),
            txn_ids_view(*processed) == all.skip(all.len() - txn_ids_view(*processed).len()),
        decreases txn_ids_view(*processed).len(),
    {
        let ghost before = txn_ids_view(*processed);
        txn_set_remove_oldest(processed);
        assert(all.skip(all.len() - before.len()).drop_first() =~= all.skip(
            all.len() - before.len() + 1,
        ));
    }
    proof {
        let n = txn_ids_view(*processed).len();
        if all.len() <= max {
            assert(n == all.len());
            assert(all.skip(0) =~= all);
        } else {
            assert(n == max);
        }
    }
    true
}

/// A transaction is processed at most once: right after its ID was
/// recorded, recording it again reports a duplicate (when at least one ID
/// is remembered).
pub proof fn recorded_transaction_is_duplicate(ids: Seq<Seq<char>>, id: Seq<char>, max: nat)
    requires
        max >= 1,
    ensures
        spec_after_record(ids, id, max).contains(id),
{
    let all = ids.push(id);
    let after = spec_after_record(ids, id, max);
    assert(after.last() == id);
    assert(after[after.len() - 1] == id);
}

} // verus!
