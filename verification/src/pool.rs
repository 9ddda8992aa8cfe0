use vstd::prelude::*;

verus! {

/// Number of workers dispatched for a queue: the configured thread amount,
/// capped by the queue length so no worker starts without a possible claim.
pub fn worker_count(thread_amount: usize, queue_len: usize) -> (n: usize)
    ensures
        n == if thread_amount <= queue_len { thread_amount } else { queue_len },
{
    if thread_amount <= queue_len {
        thread_amount
    } else {
        queue_len
    }
}

/// Model of the worker pool over a queue of `queue_len` entries: `claimed` is
/// the shared claim record, `cursors[w]` is worker `w`'s next scan position,
/// and `emitted` lists, in the order they were claimed, the queue positions
/// handed to workers for processing.
pub struct PoolModel {
    pub queue_len: int,
    pub claimed: Seq<bool>,
    pub cursors: Seq<int>,
    pub emitted: Seq<int>,
}

/// The pool as dispatched: nothing claimed, nothing processed, each of the
/// `workers` workers starting its scan at its own distinct offset.
pub open spec fn pool_init(s: PoolModel, queue_len: int, workers: int) -> bool {
    &&& queue_len >= 0
    &&& workers >= 0
    &&& s.queue_len == queue_len
    &&& s.claimed == Seq::new(queue_len as nat, |i: int| false)
    &&& s.cursors == Seq::new(workers as nat, |w: int| w)
    &&& s.emitted == Seq::<int>::empty()
}

/// Worker `w` claims position `i`: holding the exclusive section, it scans
/// from its cursor, finds every earlier position already claimed and `i`
/// unclaimed, records the claim and moves its cursor past `i`. Position `i`
/// is thereby handed out for processing exactly once.
pub open spec fn claim_step(pre: PoolModel, post: PoolModel, w: int, i: int) -> bool {
    &&& 0 <= w < pre.cursors.len()
    &&& 0 <= pre.cursors[w] <= i < pre.queue_len
    &&& i < pre.claimed.len()
    &&& !pre.claimed[i]
    &&& forall|j: int| pre.cursors[w] <= j < i ==> pre.claimed[j]
    &&& post.queue_len == pre.queue_len
    &&& post.claimed == pre.claimed.update(i, true)
    &&& post.cursors == pre.cursors.update(w, i + 1)
    &&& post.emitted == pre.emitted.push(i)
}

/// Some worker makes a claim; claims are the only transitions that matter,
/// since processing happens outside the exclusive section.
pub open spec fn pool_step(pre: PoolModel, post: PoolModel) -> bool {
    exists|w: int, i: int| #[trigger] claim_step(pre, post, w, i)
}

/// Worker `w` observes that every position from its cursor to the end of the
/// queue is claimed, and stops.
pub open spec fn worker_done(s: PoolModel, w: int) -> bool {
    &&& 0 <= w < s.cursors.len()
    &&& forall|j: int| s.cursors[w] <= j < s.queue_len ==> 0 <= j < s.claimed.len() && s.claimed[j]
}

/// An execution of the pool: the initial state followed by any interleaving
/// of claim steps by any workers.
pub open spec fn pool_run(tr: Seq<PoolModel>, queue_len: int, workers: int) -> bool {
    &&& tr.len() >= 1
    &&& pool_init(tr[0], queue_len, workers)
    &&& forall|k: int| 0 <= k < tr.len() - 1 ==> pool_step(tr[k], #[trigger] tr[k + 1])
}

/// What holds of every reachable pool state: claims match the queue, every
/// position below a worker's cursor (from its offset on) is claimed, and the
/// emitted positions are exactly the claimed ones, each emitted once.
pub open spec fn pool_inv(s: PoolModel) -> bool {
    &&& s.queue_len >= 0
    &&& s.claimed.len() == s.queue_len
    &&& forall|w: int, j: int|
        #![trigger s.cursors[w], s.claimed[j]]
        0 <= w < s.cursors.len() && w <= j < s.cursors[w] && 0 <= j < s.queue_len ==> s.claimed[j]
    &&& forall|w: int| 0 <= w < s.cursors.len() ==> w <= #[trigger] s.cursors[w]
    &&& forall|k: int|
        0 <= k < s.emitted.len() ==> 0 <= #[trigger] s.emitted[k] < s.queue_len && s.claimed[
            s.emitted[k]
        ]
    &&& forall|i: int| 0 <= i < s.queue_len && #[trigger] s.claimed[i] ==> s.emitted.contains(i)
    &&& s.emitted.no_duplicates()
}

pub proof fn lemma_pool_init_inv(s: PoolModel, queue_len: int, workers: int)
    requires
        pool_init(s, queue_len, workers),
    ensures
        pool_inv(s),
{
}

pub proof fn lemma_pool_step_inv(pre: PoolModel, post: PoolModel)
    requires
        pool_inv(pre),
        pool_step(pre, post),
    ensures
        pool_inv(post),
{
    let (w, i) = choose|w: int, i: int| #[trigger] claim_step(pre, post, w, i);
    assert(claim_step(pre, post, w, i));
    assert(!pre.emitted.contains(i)) by {
        if pre.emitted.contains(i) {
            let k = choose|k: int| 0 <= k < pre.emitted.len() && pre.emitted[k] == i;
            assert(pre.claimed[pre.emitted[k]]);
        }
    }
    assert forall|k: int| 0 <= k < post.emitted.len() implies 0 <= #[trigger] post.emitted[k]
        < post.queue_len && post.claimed[post.emitted[k]] by {
        if k < pre.emitted.len() {
            assert(pre.claimed[pre.emitted[k]]);
        }
    }
    assert forall|x: int|
        0 <= x < post.queue_len && #[trigger] post.claimed[x] implies post.emitted.contains(x) by {
        if x == i {
            assert(post.emitted[post.emitted.len() - 1] == i);
        } else {
            assert(pre.claimed[x]);
            let k = choose|k: int| 0 <= k < pre.emitted.len() && pre.emitted[k] == x;
            assert(post.emitted[k] == x);
        }
    }
    assert(post.emitted.no_duplicates()) by {
        assert forall|k1: int, k2: int|
            0 <= k1 < post.emitted.len() && 0 <= k2 < post.emitted.len() && k1 != k2
            implies post.emitted[k1] != post.emitted[k2] by {
            if k2 == post.emitted.len() - 1 {
                assert(post.emitted[k1] == pre.emitted[k1]);
                assert(!pre.emitted.contains(i));
            } else if k1 == post.emitted.len() - 1 {
                assert(post.emitted[k2] == pre.emitted[k2]);
                assert(!pre.emitted.contains(i));
            }
        }
    }
    assert forall|w2: int, j: int|
        #![trigger post.cursors[w2], post.claimed[j]]
        0 <= w2 < post.cursors.len() && w2 <= j < post.cursors[w2] && 0 <= j < post.queue_len
        implies post.claimed[j] by {
        if w2 == w {
            if j < pre.cursors[w] {
                assert(pre.claimed[j]);
            } else if j < i {
                assert(pre.claimed[j]);
            }
        } else {
            assert(post.cursors[w2] == pre.cursors[w2]);
            assert(pre.claimed[j]);
        }
    }
}

pub proof fn lemma_pool_run_inv(tr: Seq<PoolModel>, queue_len: int, workers: int, k: int)
    requires
        pool_run(tr, queue_len, workers),
        0 <= k < tr.len(),
    ensures
        pool_inv(tr[k]),
    decreases k,
{
    if k == 0 {
        lemma_pool_init_inv(tr[0], queue_len, workers);
    } else {
        lemma_pool_run_inv(tr, queue_len, workers, k - 1);
        assert(pool_step(tr[k - 1], tr[k - 1 + 1]));
        lemma_pool_step_inv(tr[k - 1], tr[k]);
    }
}

/// Claim exclusivity: however the workers interleave, no queue position is
/// ever handed out to two workers — at every point of every execution the
/// emitted positions are pairwise distinct.
pub proof fn lemma_claim_exclusivity(tr: Seq<PoolModel>, queue_len: int, workers: int, k: int)
    requires
        pool_run(tr, queue_len, workers),
        0 <= k < tr.len(),
    ensures
        tr[k].emitted.no_duplicates(),
{
    lemma_pool_run_inv(tr, queue_len, workers, k);
}

/// Coverage: once any worker that started at offset zero has observed that
/// nothing is left to claim, every queue position has been handed out, and
/// exactly once — whatever the worker count and however the claims
/// interleaved.
pub proof fn lemma_coverage(tr: Seq<PoolModel>, queue_len: int, workers: int, k: int)
    requires
        pool_run(tr, queue_len, workers),
        0 <= k < tr.len(),
        workers >= 1,
        worker_done(tr[k], 0),
    ensures
        forall|i: int| 0 <= i < queue_len ==> tr[k].emitted.contains(i),
        tr[k].emitted.no_duplicates(),
        forall|j: int| 0 <= j < tr[k].emitted.len() ==> 0 <= #[trigger] tr[k].emitted[j] < queue_len,
        tr[k].emitted.len() == queue_len,
{
    lemma_pool_run_inv(tr, queue_len, workers, k);
    let s = tr[k];
    assert(s.queue_len == queue_len) by {
        lemma_queue_len_constant(tr, queue_len, workers, k);
    }
    assert forall|i: int| 0 <= i < queue_len implies s.emitted.contains(i) by {
        if i < s.cursors[0] {
            assert(s.claimed[i]);
        } else {
            assert(s.claimed[i]);
        }
    }
    s.emitted.unique_seq_to_set();
    assert(s.emitted.to_set() =~= vstd::set_lib::set_int_range(0, queue_len));
    vstd::set_lib::lemma_int_range(0, queue_len);
}

pub proof fn lemma_queue_len_constant(tr: Seq<PoolModel>, queue_len: int, workers: int, k: int)
    requires
        pool_run(tr, queue_len, workers),
        0 <= k < tr.len(),
    ensures
        tr[k].queue_len == queue_len,
    decreases k,
{
    if k > 0 {
        lemma_queue_len_constant(tr, queue_len, workers, k - 1);
        assert(pool_step(tr[k - 1], tr[k - 1 + 1]));
        let (w, i) = choose|w: int, i: int| #[trigger] claim_step(tr[k - 1], tr[k], w, i);
        assert(claim_step(tr[k - 1], tr[k], w, i));
    }
}

/// A successful `ClaimSet::claim_next` call, made by worker `w` from its own
/// cursor with the claim record equal to `pre.claimed`, is exactly a claim
/// step of the pool model.
pub proof fn lemma_claim_next_refines(pre: PoolModel, post: PoolModel, w: int, i: int)
    requires
        0 <= w < pre.cursors.len(),
        pre.claimed.len() == pre.queue_len,
        0 <= pre.cursors[w] <= i < pre.queue_len,
        !pre.claimed[i],
        forall|j: int| pre.cursors[w] <= j < i ==> pre.claimed[j],
        post.queue_len == pre.queue_len,
        post.claimed == pre.claimed.update(i, true),
        post.cursors == pre.cursors.update(w, i + 1),
        post.emitted == pre.emitted.push(i),
    ensures
        claim_step(pre, post, w, i),
        pool_step(pre, post),
{
    assert(claim_step(pre, post, w, i));
}

} // verus!
