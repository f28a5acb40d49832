//! Orphan detection: which files of a resolved universe are owned by no
//! team at all.
//!
//! The ownership test is read-only and independent per file, over one
//! immutable manifest, so the filter may run serially or be dispatched
//! across a worker pool; both strategies yield the same result, and a
//! fixed threshold on the universe's size picks between them.

use rayon::iter::IntoParallelRefIterator;
use rayon::iter::ParallelIterator;
use vstd::prelude::*;

use crate::codeowners::CodeOwners;
use crate::resolver::ResolvedFile;

verus! {

/// Files below this count are filtered serially: thread-pool setup would
/// dominate such a workload.
pub const PARALLEL_THRESHOLD: usize = 1000;

/// The unowned files among `files[i..]`, in input order.
pub open spec fn orphans_from(co: CodeOwners, files: Seq<ResolvedFile>, i: int) -> Seq<
    ResolvedFile,
>
    decreases files.len() - i,
{
    if i < 0 || i >= files.len() {
        Seq::empty()
    } else {
        (if !co.spec_is_owned(files[i].path_view()) {
            seq![files[i]]
        } else {
            Seq::empty()
        }) + orphans_from(co, files, i + 1)
    }
}

/// The unowned files of the universe, in input order.
pub open spec fn spec_orphans(co: CodeOwners, files: Seq<ResolvedFile>) -> Seq<ResolvedFile> {
    orphans_from(co, files, 0)
}

/// Relies on `rayon::current_num_threads`: the parallelism available at
/// this moment. The value is environment-dependent, so nothing is assumed
/// of it; [`worker_count`] handles every value.
#[verifier::external_body]
fn current_parallelism() -> usize {
    rayon::current_num_threads()
}

/// The worker-pool size: half the available parallelism, at least one
/// worker — a resource-fairness heuristic, not a correctness requirement.
fn worker_count(parallelism: usize) -> (r: usize)
    ensures
        r == if parallelism / 2 >= 1 {
            parallelism / 2
        } else {
            1usize
        },
        r >= 1,
{
    let half = parallelism / 2;
    if half >= 1 {
        half
    } else {
        1
    }
}

/// Relies on rayon's `par_iter`, `filter`, `cloned` and `collect` for
/// `Vec`, and on `ThreadPoolBuilder::build` / `ThreadPool::install`:
/// `collect` into a `Vec` preserves the order of the underlying iterator,
/// so the parallel filter returns exactly what the serial one would,
/// whatever the worker count. The closure only calls the verified
/// [`CodeOwners::is_owned`]; if no pool can be built, the filter runs on
/// the global one.
#[verifier::external_body]
fn par_filter_unowned(
    codeowners: &CodeOwners,
    files: &Vec<ResolvedFile>,
    workers: usize,
) -> (r: Vec<ResolvedFile>)
    requires
        codeowners.wf(),
    ensures
        r@ == spec_orphans(*codeowners, files@),
{
    let run = || {
        files.par_iter().filter(|f| !codeowners.is_owned(f.path().as_str())).cloned().collect()
    };
    match rayon::ThreadPoolBuilder::new().num_threads(workers).build() {
        Ok(pool) => pool.install(run),
        Err(_) => run(),
    }
}

/// The unowned files of the universe, serially.
fn filter_unowned(codeowners: &CodeOwners, files: &Vec<ResolvedFile>) -> (r: Vec<ResolvedFile>)
    requires
        codeowners.wf(),
    ensures
        r@ == spec_orphans(*codeowners, files@),
{
    let mut out: Vec<ResolvedFile> = Vec::new();
    let mut i: usize = 0;
    proof {
        assert(Seq::<ResolvedFile>::empty() + orphans_from(*codeowners, files@, 0) =~= orphans_from(
            *codeowners,
            files@,
            0,
        ));
    }
    while i < files.len()
        invariant
            codeowners.wf(),
            i <= files@.len(),
            out@ + orphans_from(*codeowners, files@, i as int) == spec_orphans(
                *codeowners,
                files@,
            ),
        decreases files@.len() - i,
    {
        let ghost out0 = out@;
        if !codeowners.is_owned(files[i].path().as_str()) {
            out.push(files[i].clone());
            proof {
                assert(out@ =~= out0.push(files@[i as int]));
                assert(out0.push(files@[i as int]) + orphans_from(
                    *codeowners,
                    files@,
                    i + 1 as int,
                ) =~= out0 + orphans_from(*codeowners, files@, i as int));
            }
        } else {
            proof {
                assert(Seq::<ResolvedFile>::empty() + orphans_from(
                    *codeowners,
                    files@,
                    i + 1 as int,
                ) =~= orphans_from(*codeowners, files@, i + 1 as int));
            }
        }
        i = i + 1;
    }
    proof {
        assert(out@ + Seq::<ResolvedFile>::empty() =~= out@);
    }
    out
}

/// The unowned files of the universe, in input order, choosing the serial
/// strategy below the given threshold and the concurrent one at or above
/// it. The threshold changes only the strategy, never the result.
pub fn find_orphans_with_threshold(
    files: Vec<ResolvedFile>,
    codeowners: &CodeOwners,
    threshold: usize,
) -> (r: Vec<ResolvedFile>)
    requires
        codeowners.wf(),
    ensures
        r@ == spec_orphans(*codeowners, files@),
{
    if files.len() < threshold {
        filter_unowned(codeowners, &files)
    } else {
        let workers = worker_count(current_parallelism());
        par_filter_unowned(codeowners, &files, workers)
    }
}

/// The unowned files of the universe, with the standard strategy
/// threshold.
pub fn find_orphans(files: Vec<ResolvedFile>, codeowners: &CodeOwners) -> (r: Vec<ResolvedFile>)
    requires
        codeowners.wf(),
    ensures
        r@ == spec_orphans(*codeowners, files@),
{
    find_orphans_with_threshold(files, codeowners, PARALLEL_THRESHOLD)
}

/// Orphan completeness: the result of the orphan filter holds a file
/// exactly when the universe holds it and no team owns it.
pub proof fn lemma_orphans_exact(co: CodeOwners, files: Seq<ResolvedFile>, f: ResolvedFile)
    ensures
        spec_orphans(co, files).contains(f) <==> (files.contains(f) && !co.spec_is_owned(
            f.path_view(),
        )),
{
    lemma_orphans_from_exact(co, files, 0, f);
}

proof fn lemma_orphans_from_exact(co: CodeOwners, files: Seq<ResolvedFile>, i: int, f: ResolvedFile)
    requires
        0 <= i <= files.len(),
    ensures
        orphans_from(co, files, i).contains(f) <==> ((exists|k: int|
            i <= k < files.len() && files[k] == f) && !co.spec_is_owned(f.path_view())),
    decreases files.len() - i,
{
    if i < files.len() {
        lemma_orphans_from_exact(co, files, i + 1, f);
        let head: Seq<ResolvedFile> = if !co.spec_is_owned(files[i].path_view()) {
            seq![files[i]]
        } else {
            Seq::empty()
        };
        let tail = orphans_from(co, files, i + 1);
        assert(orphans_from(co, files, i) == head + tail);
        if (head + tail).contains(f) {
            let k = choose|k: int| 0 <= k < (head + tail).len() && (head + tail)[k] == f;
            if k < head.len() {
                assert(f == files[i]);
            } else {
                assert(tail[k - head.len()] == f);
                assert(tail.contains(f));
            }
        }
        if (exists|k: int| i <= k < files.len() && files[k] == f) && !co.spec_is_owned(
            f.path_view(),
        ) {
            let k = choose|k: int| i <= k < files.len() && files[k] == f;
            if k == i {
                assert((head + tail)[0] == f);
            } else {
                assert(tail.contains(f));
                let l = choose|l: int| 0 <= l < tail.len() && tail[l] == f;
                assert((head + tail)[head.len() + l] == f);
            }
        }
    }
}

/// Strategy agnosticism: any two outcomes of the orphan filter over the
/// same universe and the same manifest are equal, whichever strategy
/// (serial or concurrent) produced each.
pub proof fn lemma_orphans_strategy_agnostic(
    co: CodeOwners,
    files: Seq<ResolvedFile>,
    r1: Seq<ResolvedFile>,
    r2: Seq<ResolvedFile>,
)
    requires
        r1 == spec_orphans(co, files),
        r2 == spec_orphans(co, files),
    ensures
        r1 == r2,
{
}

} // verus!
