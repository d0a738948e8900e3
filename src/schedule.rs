use vstd::prelude::*;

verus! {

/// A contiguous range of particle indices handed to one worker for one tick:
/// `start .. start + len`.
#[derive(Clone, Copy, Debug, PartialEq, Eq, Structural)]
pub struct JobChunk {
    pub start: usize,
    pub len: usize,
}

/// First index of chunk `k`.
pub open spec fn chunk_start(n: nat, w: nat, k: nat) -> nat {
    k * (n / w)
}

/// Length of chunk `k`: the last chunk also takes the remainder.
pub open spec fn chunk_len(n: nat, w: nat, k: nat) -> nat {
    if k + 1 == w {
        n / w + n % w
    } else {
        n / w
    }
}

/// Whether chunk `k` holds index `i`.
pub open spec fn chunk_holds(n: nat, w: nat, k: nat, i: nat) -> bool {
    chunk_start(n, w, k) <= i < chunk_start(n, w, k) + chunk_len(n, w, k)
}

/// The chunk that holds index `i`.
pub open spec fn owner_of(n: nat, w: nat, i: nat) -> nat {
    if n / w == 0 || i / (n / w) >= w {
        (w - 1) as nat
    } else {
        i / (n / w)
    }
}

/// Whether `c` is chunk `k` of the split of `n` indices among `w` workers.
pub open spec fn is_chunk(c: JobChunk, n: nat, w: nat, k: nat) -> bool {
    c.start == chunk_start(n, w, k) && c.len == chunk_len(n, w, k)
}

/// The plan that `plan_jobs(n, w)` returns: chunk `k` starts at `k * (n / w)`.
pub open spec fn is_plan(plan: Seq<JobChunk>, n: nat, w: nat) -> bool {
    &&& plan.len() == w
    &&& forall|k: int| 0 <= k < w ==> is_chunk(#[trigger] plan[k], n, w, k as nat)
}

/// Consecutive chunks are contiguous: each ends where the next starts, the
/// first starts at 0 and the last ends at `n`.
pub proof fn lemma_chunks_contiguous(n: nat, w: nat, k: nat)
    requires
        w >= 1,
        k < w,
    ensures
        chunk_start(n, w, 0) == 0,
        chunk_start(n, w, k) + chunk_len(n, w, k) <= n,
        k + 1 < w ==> chunk_start(n, w, k) + chunk_len(n, w, k) == chunk_start(n, w, k + 1),
        k + 1 == w ==> chunk_start(n, w, k) + chunk_len(n, w, k) == n,
{
    let q = n / w;
    let r = n % w;
    assert(n == w * q + r) by (nonlinear_arith)
        requires
            w >= 1,
            q == n / w,
            r == n % w,
    ;
    assert(k * q + q == (k + 1) * q) by (nonlinear_arith);
    assert((k + 1) * q <= w * q) by (nonlinear_arith)
        requires
            k + 1 <= w,
    ;
    if k + 1 == w {
        assert(k * q + q == w * q) by (nonlinear_arith)
            requires
                k + 1 == w,
        ;
    }
}

/// The chunks partition `0..n`: each index below `n` lies in exactly one
/// chunk, the one that `owner_of` names, and no chunk reaches past `n`.
pub proof fn lemma_chunks_partition(n: nat, w: nat, i: nat)
    requires
        w >= 1,
        i < n,
    ensures
        owner_of(n, w, i) < w,
        chunk_holds(n, w, owner_of(n, w, i), i),
        forall|k: nat| k < w && #[trigger] chunk_holds(n, w, k, i) ==> k == owner_of(n, w, i),
{
    let q = n / w;
    let o = owner_of(n, w, i);
    assert(n == w * q + n % w) by (nonlinear_arith)
        requires
            w >= 1,
            q == n / w,
    ;
    if q == 0 {
        assert(chunk_start(n, w, o) == 0) by (nonlinear_arith)
            requires
                q == 0,
                chunk_start(n, w, o) == o * q,
        ;
        assert forall|k: nat| k < w && #[trigger] chunk_holds(n, w, k, i) implies k == o by {
            assert(k * q == 0) by (nonlinear_arith)
                requires
                    q == 0,
            ;
        }
    } else {
        lemma_chunks_contiguous(n, w, o);
        assert(i / q * q <= i && i < i / q * q + q) by (nonlinear_arith)
            requires
                q > 0,
        ;
        if i / q >= w {
            assert(o == w - 1);
            assert(w * q <= (i / q) * q) by (nonlinear_arith)
                requires
                    i / q >= w,
            ;
            assert(o * q + q == w * q) by (nonlinear_arith)
                requires
                    o + 1 == w,
            ;
        } else {
            assert(o == i / q);
        }
        assert(chunk_holds(n, w, o, i));
        assert forall|k: nat| k < w && #[trigger] chunk_holds(n, w, k, i) implies k == o by {
            if k < o {
                assert(k * q + q <= o * q) by (nonlinear_arith)
                    requires
                        k < o,
                ;
                assert(k + 1 != w);
            } else if k > o {
                assert(o * q + q <= k * q) by (nonlinear_arith)
                    requires
                        k > o,
                ;
            }
        }
    }
}

/// Splits `particle_count` indices into `total_jobs` contiguous chunks, in
/// order. Every chunk has `particle_count / total_jobs` indices but the last,
/// which also takes the remainder.
pub fn plan_jobs(particle_count: usize, total_jobs: usize) -> (r: Vec<JobChunk>)
    requires
        total_jobs >= 1,
    ensures
        is_plan(r@, particle_count as nat, total_jobs as nat),
{
    let common = particle_count / total_jobs;
    let remainder = particle_count % total_jobs;
    let mut plan: Vec<JobChunk> = Vec::new();
    let mut k: usize = 0;
    while k < total_jobs
        invariant
            k <= total_jobs,
            total_jobs >= 1,
            common == particle_count as nat / total_jobs as nat,
            remainder == particle_count as nat % total_jobs as nat,
            plan@.len() == k,
            forall|j: int| 0 <= j < k ==> is_chunk(#[trigger] plan@[j], particle_count as nat, total_jobs as nat, j as nat),
        decreases total_jobs - k,
    {
        proof {
            lemma_chunks_contiguous(particle_count as nat, total_jobs as nat, k as nat);
        }
        let len = if k == total_jobs - 1 {
            common + remainder
        } else {
            common
        };
        let chunk = JobChunk { start: k * common, len };
        assert(is_chunk(chunk, particle_count as nat, total_jobs as nat, k as nat));
        plan.push(chunk);
        k = k + 1;
    }
    plan
}

/// The worker pool of the `threadpool` crate, carried through opaquely.
#[verifier::external_type_specification]
#[verifier::external_body]
pub struct ExThreadPool(threadpool::ThreadPool);

/// Relies on threadpool's `ThreadPool::max_count`: the number of workers of
/// the pool, which the pool's constructors only accept when it is at least 1.
pub assume_specification[ threadpool::ThreadPool::max_count ](pool: &threadpool::ThreadPool) -> (r: usize)
    ensures
        r >= 1,
;

/// The plan for one tick on `pool`: the number of workers of the pool, read
/// once, and one chunk for each of them.
pub fn plan_for_pool(pool: &threadpool::ThreadPool, particle_count: usize) -> (r: (usize, Vec<JobChunk>))
    ensures
        r.0 >= 1,
        is_plan(r.1@, particle_count as nat, r.0 as nat),
{
    let workers = pool.max_count();
    (workers, plan_jobs(particle_count, workers))
}

/// The accumulation rule: nothing plus something is that thing, and two
/// values are combined with `combine`; `r` is what `acc ⊕ next` gives.
pub open spec fn accumulated<A, G: Fn(A, A) -> A>(acc: Option<A>, next: Option<A>, combine: G, r: Option<A>) -> bool {
    match acc {
        None => r == next,
        Some(x) => match next {
            None => r == acc,
            Some(y) => r.is_some() && combine.ensures((x, y), r.unwrap()),
        },
    }
}

/// `nexts` and `sums` are a run of the fold for particle `t`: `nexts[o]` is a
/// result of `pair(t, o)`, `sums[0]` is `None`, and `sums[o + 1]` is
/// `sums[o] ⊕ nexts[o]`.
pub open spec fn is_fold_run<A, F: Fn(usize, usize) -> Option<A>, G: Fn(A, A) -> A>(
    pair: F,
    combine: G,
    t: usize,
    nexts: Seq<Option<A>>,
    sums: Seq<Option<A>>,
) -> bool {
    &&& sums.len() == nexts.len() + 1
    &&& sums[0].is_none()
    &&& forall|o: int| 0 <= o < nexts.len() ==> {
        &&& pair.ensures((t, o as usize), #[trigger] nexts[o])
        &&& accumulated(sums[o], nexts[o], combine, sums[o + 1])
    }
}

/// `r` is the sum, under the accumulation rule and starting from `None`, of
/// `pair(t, o)` for `o` in `0..j`, in that order.
pub open spec fn folds_to<A, F: Fn(usize, usize) -> Option<A>, G: Fn(A, A) -> A>(
    pair: F,
    combine: G,
    t: usize,
    j: nat,
    r: Option<A>,
) -> bool {
    exists|nexts: Seq<Option<A>>, sums: Seq<Option<A>>|
        nexts.len() == j && #[trigger] is_fold_run(pair, combine, t, nexts, sums) && sums[j as int] == r
}

proof fn lemma_runs_agree<A, F: Fn(usize, usize) -> Option<A>, G: Fn(A, A) -> A>(
    pair: F,
    combine: G,
    t: usize,
    nexts1: Seq<Option<A>>,
    sums1: Seq<Option<A>>,
    nexts2: Seq<Option<A>>,
    sums2: Seq<Option<A>>,
    k: nat,
)
    requires
        forall|a: usize, b: usize, x: Option<A>, y: Option<A>|
            #[trigger] pair.ensures((a, b), x) && #[trigger] pair.ensures((a, b), y) ==> x == y,
        forall|a: A, b: A, x: A, y: A|
            #[trigger] combine.ensures((a, b), x) && #[trigger] combine.ensures((a, b), y) ==> x == y,
        is_fold_run(pair, combine, t, nexts1, sums1),
        is_fold_run(pair, combine, t, nexts2, sums2),
        nexts1.len() == nexts2.len(),
        k <= nexts1.len(),
    ensures
        sums1[k as int] == sums2[k as int],
    decreases k,
{
    if k > 0 {
        let o = k - 1;
        lemma_runs_agree(pair, combine, t, nexts1, sums1, nexts2, sums2, o as nat);
        assert(pair.ensures((t, o as usize), nexts1[o]));
        assert(pair.ensures((t, o as usize), nexts2[o]));
        assert(accumulated(sums1[o], nexts1[o], combine, sums1[o + 1]));
        assert(accumulated(sums2[o], nexts2[o], combine, sums2[o + 1]));
    }
}

/// When `pair` and `combine` give one result for each argument, the sum of
/// the first `j` pair results is unique: equal inputs give equal sums.
pub proof fn lemma_fold_unique<A, F: Fn(usize, usize) -> Option<A>, G: Fn(A, A) -> A>(
    pair: F,
    combine: G,
    t: usize,
    j: nat,
    r1: Option<A>,
    r2: Option<A>,
)
    requires
        forall|a: usize, b: usize, x: Option<A>, y: Option<A>|
            #[trigger] pair.ensures((a, b), x) && #[trigger] pair.ensures((a, b), y) ==> x == y,
        forall|a: A, b: A, x: A, y: A|
            #[trigger] combine.ensures((a, b), x) && #[trigger] combine.ensures((a, b), y) ==> x == y,
        folds_to(pair, combine, t, j, r1),
        folds_to(pair, combine, t, j, r2),
    ensures
        r1 == r2,
{
    let (n1, s1) = choose|nexts: Seq<Option<A>>, sums: Seq<Option<A>>|
        nexts.len() == j && #[trigger] is_fold_run(pair, combine, t, nexts, sums) && sums[j as int] == r1;
    let (n2, s2) = choose|nexts: Seq<Option<A>>, sums: Seq<Option<A>>|
        nexts.len() == j && #[trigger] is_fold_run(pair, combine, t, nexts, sums) && sums[j as int] == r2;
    lemma_runs_agree(pair, combine, t, n1, s1, n2, s2, j);
}

/// Folds one more pairwise acceleration into a particle's running sum by the
/// accumulation rule. No sum is built until some pair has produced a force.
pub fn accumulate<A, F: Fn(A, A) -> A>(acc: Option<A>, next: Option<A>, combine: &F) -> (r: Option<A>)
    requires
        forall|x: A, y: A| #[trigger] combine.requires((x, y)),
    ensures
        accumulated(acc, next, *combine, r),
{
    match acc {
        None => next,
        Some(x) => match next {
            None => Some(x),
            Some(y) => Some(combine(x, y)),
        },
    }
}

/// The work of one job: entry `i` is the sum, under the accumulation rule, of
/// the accelerations that `pair(chunk.start + i, other)` gives for every
/// `other` below `particle_count`, those outside the chunk included. An entry
/// is `None` only when every pair gave `None`.
pub fn chunk_accelerations<A, F, G>(chunk: JobChunk, particle_count: usize, pair: &F, combine: &G) -> (r: Vec<Option<A>>)
    where
        F: Fn(usize, usize) -> Option<A>,
        G: Fn(A, A) -> A,
    requires
        chunk.start + chunk.len <= particle_count,
        forall|t: usize, o: usize| #[trigger] pair.requires((t, o)),
        forall|x: A, y: A| #[trigger] combine.requires((x, y)),
    ensures
        r@.len() == chunk.len,
        forall|i: int| 0 <= i < chunk.len
            ==> folds_to(*pair, *combine, (chunk.start + i) as usize, particle_count as nat, #[trigger] r@[i]),
{
    let mut result: Vec<Option<A>> = Vec::new();
    let mut i: usize = 0;
    while i < chunk.len
        invariant
            i <= chunk.len,
            chunk.start + chunk.len <= particle_count,
            forall|t: usize, o: usize| #[trigger] pair.requires((t, o)),
            forall|x: A, y: A| #[trigger] combine.requires((x, y)),
            result@.len() == i,
            forall|k: int| 0 <= k < i
                ==> folds_to(*pair, *combine, (chunk.start + k) as usize, particle_count as nat, #[trigger] result@[k]),
        decreases chunk.len - i,
    {
        let target = chunk.start + i;
        let mut acc: Option<A> = None;
        let mut j: usize = 0;
        let ghost mut nexts: Seq<Option<A>> = Seq::empty();
        let ghost mut sums: Seq<Option<A>> = seq![None];
        while j < particle_count
            invariant
                j <= particle_count,
                target == chunk.start + i,
                forall|t: usize, o: usize| #[trigger] pair.requires((t, o)),
                forall|x: A, y: A| #[trigger] combine.requires((x, y)),
                nexts.len() == j,
                is_fold_run(*pair, *combine, target, nexts, sums),
                sums[j as int] == acc,
            decreases particle_count - j,
        {
            let next = pair(target, j);
            let ghost g_next = next;
            let ghost prev = acc;
            acc = accumulate(acc, next, combine);
            proof {
                let n0 = nexts;
                let s0 = sums;
                nexts = nexts.push(g_next);
                sums = sums.push(acc);
                assert forall|o: int| 0 <= o < nexts.len() implies {
                    &&& pair.ensures((target, o as usize), #[trigger] nexts[o])
                    &&& accumulated(sums[o], nexts[o], *combine, sums[o + 1])
                } by {
                    if o < j {
                        assert(nexts[o] == n0[o]);
                        assert(sums[o] == s0[o] && sums[o + 1] == s0[o + 1]);
                    } else {
                        assert(o == j);
                        assert(nexts[o] == g_next);
                        assert(sums[o] == prev && sums[o + 1] == acc);
                    }
                }
            }
            j = j + 1;
        }
        proof {
            assert(is_fold_run(*pair, *combine, target, nexts, sums));
        }
        let ghost before = result@;
        result.push(acc);
        proof {
            assert forall|k: int| 0 <= k < i + 1
                implies folds_to(*pair, *combine, (chunk.start + k) as usize, particle_count as nat, #[trigger] result@[k]) by {
                if k < i {
                    assert(result@[k] == before[k]);
                } else {
                    assert(result@[k] == acc);
                }
            }
        }
        i = i + 1;
    }
    result
}

/// Merges one job's result into the live velocities: for each entry
/// `Some(a)` the velocity at `chunk_start + i` becomes `apply(velocity, a)`.
/// `None` entries and every velocity outside the chunk are left as they were.
pub fn merge_chunk<V: Copy, A: Copy, F: Fn(V, A) -> V>(
    velocities: &mut Vec<V>,
    chunk_start: usize,
    accelerations: &Vec<Option<A>>,
    apply: &F,
)
    requires
        chunk_start + accelerations@.len() <= old(velocities)@.len(),
        forall|v: V, a: A| #[trigger] apply.requires((v, a)),
    ensures
        final(velocities)@.len() == old(velocities)@.len(),
        forall|k: int| 0 <= k < old(velocities)@.len() && !(chunk_start <= k < chunk_start + accelerations@.len())
            ==> #[trigger] final(velocities)@[k] == old(velocities)@[k],
        forall|i: int| 0 <= i < accelerations@.len() && (#[trigger] accelerations@[i]).is_none()
            ==> final(velocities)@[chunk_start + i] == old(velocities)@[chunk_start + i],
        forall|i: int| 0 <= i < accelerations@.len() && (#[trigger] accelerations@[i]).is_some()
            ==> apply.ensures((old(velocities)@[chunk_start + i], accelerations@[i].unwrap()), final(velocities)@[chunk_start + i]),
{
    let ghost start = old(velocities)@;
    let mut i: usize = 0;
    while i < accelerations.len()
        invariant
            i <= accelerations@.len(),
            chunk_start + accelerations@.len() <= start.len(),
            forall|v: V, a: A| #[trigger] apply.requires((v, a)),
            velocities@.len() == start.len(),
            forall|k: int| 0 <= k < start.len() && !(chunk_start <= k < chunk_start + i)
                ==> #[trigger] velocities@[k] == start[k],
            forall|m: int| 0 <= m < i && (#[trigger] accelerations@[m]).is_none()
                ==> velocities@[chunk_start + m] == start[chunk_start + m],
            forall|m: int| 0 <= m < i && (#[trigger] accelerations@[m]).is_some()
                ==> apply.ensures((start[chunk_start + m], accelerations@[m].unwrap()), velocities@[chunk_start + m]),
        decreases accelerations@.len() - i,
    {
        let n = velocities.len();
        assert(chunk_start + i < n);
        let k = chunk_start + i;
        match accelerations[i] {
            Some(a) => {
                let v = apply(velocities[k], a);
                velocities.set(k, v);
            },
            None => {},
        }
        proof {
            assert forall|m: int| 0 <= m < i + 1 && (#[trigger] accelerations@[m]).is_none()
                implies velocities@[chunk_start + m] == start[chunk_start + m] by {
                assert(!(chunk_start <= chunk_start + m < chunk_start + i) || m < i);
            }
        }
        i = i + 1;
    }
}

} // verus!
