//! Operations: the recorded edits that a replica commits.
use vstd::prelude::*;

verus! {

/// One recorded edit of the replica.
pub struct Operation {
    pub inner: taskchampion::Operation,
}

/// The underlying edits of a list of operations.
pub open spec fn inner_ops(ops: Seq<Operation>) -> Seq<taskchampion::Operation> {
    ops.map_values(|o: Operation| o.inner)
}

/// An empty list of operations.
pub fn new_operations() -> (r: Vec<Operation>)
    ensures
        r@.len() == 0,
{
    Vec::new()
}

/// The underlying edits of a list of operations, in order, ready to be
/// committed.
pub fn to_tc_operations(ops: Vec<Operation>) -> (r: Vec<taskchampion::Operation>)
    ensures
        r@ == inner_ops(ops@),
{
    let ghost all = ops@;
    let mut r: Vec<taskchampion::Operation> = Vec::new();
    for o in it: ops.into_iter()
        invariant
            all == it.seq(),
            r@ == inner_ops(it.seq().take(it.index() as int)),
    {
        let ghost i = it.index();
        assert(it.seq().take(i + 1) =~= it.seq().take(i).push(o));
        r.push(o.inner);
        assert(r@ =~= inner_ops(it.seq().take(i + 1)));
    }
    assert(all.take(all.len() as int) =~= all);
    r
}

} // verus!
