//! The existence-gated write policy: a node is inserted only when the store
//! holds no node with the same `system_id`; otherwise the write is a no-op
//! success. Every write goes through this policy.
use vstd::prelude::*;
use crate::record::ErrorKind;

verus! {

/// What a unit does after the existence check of its `system_id`.
#[derive(Clone, Copy, Debug, PartialEq, Eq, Structural)]
pub enum WriteStep {
    /// No node has the identifier: create one.
    Insert,
    /// A node already has the identifier: nothing to write, the unit succeeds.
    Skip,
    /// The existence check failed: the unit fails with this error.
    Fail(ErrorKind),
}

/// The count that the existence check reported says that a node exists. A
/// check that returned no row, or no readable count, reports none.
pub open spec fn count_shows_node(count: Option<i64>) -> bool {
    match count {
        Some(c) => c > 0,
        None => false,
    }
}

/// The step that follows an existence check with the given result.
pub open spec fn write_step_of(checked: Result<Option<i64>, ErrorKind>) -> WriteStep {
    match checked {
        Err(e) => WriteStep::Fail(e),
        Ok(count) => if count_shows_node(count) {
            WriteStep::Skip
        } else {
            WriteStep::Insert
        },
    }
}

/// Decides whether a count returned by the existence check means that a node
/// with the identifier is stored.
pub fn count_means_exists(count: Option<i64>) -> (r: bool)
    ensures
        r == count_shows_node(count),
{
    match count {
        Some(c) => c > 0,
        None => false,
    }
}

/// Decides the write of a unit from the result of its existence check.
pub fn after_existence_check(checked: Result<Option<i64>, ErrorKind>) -> (r: WriteStep)
    ensures
        r == write_step_of(checked),
{
    match checked {
        Err(e) => WriteStep::Fail(e),
        Ok(count) => if count_means_exists(count) {
            WriteStep::Skip
        } else {
            WriteStep::Insert
        },
    }
}

/// The outcome of a unit whose write took the given step; `inserted` is the
/// result of the insert query, which is only issued on `Insert`.
pub fn write_outcome(step: WriteStep, inserted: Result<(), ErrorKind>) -> (r: Result<(), ErrorKind>)
    ensures
        step == WriteStep::Skip ==> r is Ok,
        step is Fail ==> r == Err::<(), ErrorKind>(step->Fail_0),
        step == WriteStep::Insert ==> r == inserted,
{
    match step {
        WriteStep::Skip => Ok(()),
        WriteStep::Fail(e) => Err(e),
        WriteStep::Insert => inserted,
    }
}

/// The number of nodes in a store, modelled as the sequence of the
/// `system_id`s of its nodes, that carry `id`.
pub open spec fn node_count(store: Seq<i64>, id: i64) -> nat
    decreases store.len(),
{
    if store.len() == 0 {
        0
    } else {
        node_count(store.drop_last(), id) + if store.last() == id {
            1nat
        } else {
            0nat
        }
    }
}

/// The store after a write of a node with identifier `id` that took `step`.
pub open spec fn store_after(store: Seq<i64>, step: WriteStep, id: i64) -> Seq<i64> {
    if step == WriteStep::Insert {
        store.push(id)
    } else {
        store
    }
}

/// One write of `id` under the policy: check the count, then take the step.
pub open spec fn gated_write(store: Seq<i64>, id: i64) -> Seq<i64> {
    store_after(store, write_step_of(Ok(Some(node_count(store, id) as i64))), id)
}

proof fn lemma_node_count_push(store: Seq<i64>, x: i64, id: i64)
    ensures
        node_count(store.push(x), id) == node_count(store, id) + if x == id {
            1nat
        } else {
            0nat
        },
{
    assert(store.push(x).drop_last() == store);
}

proof fn lemma_node_count_bound(store: Seq<i64>, id: i64)
    ensures
        node_count(store, id) <= store.len(),
    decreases store.len(),
{
    if store.len() > 0 {
        lemma_node_count_bound(store.drop_last(), id);
    }
}

/// Writing the same `system_id` twice under the existence-gated policy leaves
/// exactly one node with it in a store that held none, and in general the
/// second write changes nothing: the write is idempotent.
pub proof fn lemma_gated_write_idempotent(store: Seq<i64>, id: i64)
    requires
        store.len() < i64::MAX,
    ensures
        gated_write(gated_write(store, id), id) == gated_write(store, id),
        node_count(store, id) == 0 ==> node_count(gated_write(gated_write(store, id), id), id)
            == 1,
        node_count(store, id) > 0 ==> gated_write(store, id) == store,
{
    lemma_node_count_bound(store, id);
    let s1 = gated_write(store, id);
    if node_count(store, id) == 0 {
        assert(s1 == store.push(id));
        lemma_node_count_push(store, id, id);
        assert(node_count(s1, id) == 1);
    } else {
        assert(s1 == store);
    }
}

} // verus!
