//! The worker pool's join point: the private buffers of the workers become
//! one sequence.

use vstd::prelude::*;

use crate::model::{subdomain_views, Subdomain, SubdomainView};

verus! {

/// The views of the workers' buffers, worker by worker.
pub open spec fn buffer_views(buffers: Seq<Vec<Subdomain>>) -> Seq<Seq<SubdomainView>> {
    buffers.map_values(|buffer: Vec<Subdomain>| subdomain_views(buffer@))
}

/// Flattens the workers' buffers into one sequence: the items of the first
/// buffer, then those of the second, and so on, each buffer in its own order.
/// Nothing is added and nothing is dropped.
pub fn merge_buffers(buffers: Vec<Vec<Subdomain>>) -> (merged: Vec<Subdomain>)
    ensures
        subdomain_views(merged@) == buffer_views(buffers@).flatten(),
{
    let mut merged: Vec<Subdomain> = Vec::new();
    assert(subdomain_views(merged@) =~= buffer_views(buffers@.take(0)).flatten());
    for buffer in it: buffers
        invariant
            it.seq() == buffers@,
            subdomain_views(merged@) == buffer_views(buffers@.take(it.index() as int)).flatten(),
    {
        let ghost done = buffers@.take(it.index() as int);
        let ghost before = subdomain_views(merged@);
        let mut buffer = buffer;
        merged.append(&mut buffer);
        proof {
            let views = subdomain_views(buffers@[it.index() as int]@);
            assert(subdomain_views(merged@) =~= before + views);
            assert(buffers@.take(it.index() + 1) =~= done.push(buffers@[it.index() as int]));
            assert(buffer_views(done.push(buffers@[it.index() as int])) =~= buffer_views(done).push(
                views,
            ));
            buffer_views(done).lemma_flatten_push(views);
        }
    }
    assert(buffers@.take(buffers@.len() as int) =~= buffers@);
    merged
}

} // verus!
