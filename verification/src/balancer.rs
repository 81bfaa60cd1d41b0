//! The workload balancer: spreading files over a fixed worker pool by
//! accumulated byte size, so that checksum work — the dominant cost —
//! is divided near-evenly.

use vstd::prelude::*;

verus! {

/// One worker's assignment: its index, the total bytes assigned to it,
/// and the paths of its pending entries.
#[derive(Debug)]
pub struct Work {
    pub thread: usize,
    pub size: u64,
    pub entries: Vec<String>,
}

impl Work {
    /// Adds one entry to this assignment.
    pub fn update(&mut self, path: String, size: u64)
        requires
            old(self).size + size <= u64::MAX,
        ensures
            final (self).thread == old(self).thread,
            final (self).size == old(self).size + size,
            final (self).entries@ == old(self).entries@.push(path),
    {
        self.size = self.size + size;
        self.entries.push(path);
    }
}

/// One file to be assigned: its path and its size in bytes.
#[derive(Debug)]
pub struct WorkUnit {
    pub path: String,
    pub size: u64,
}

/// The total bytes assigned over all workers.
pub open spec fn total_assigned(works: Seq<Work>) -> int
    decreases works.len(),
{
    if works.len() == 0 {
        0
    } else {
        total_assigned(works.drop_last()) + works.last().size
    }
}

/// The total bytes of a list of files.
pub open spec fn total_unit_size(units: Seq<WorkUnit>) -> int
    decreases units.len(),
{
    if units.len() == 0 {
        0
    } else {
        total_unit_size(units.drop_last()) + units.last().size
    }
}

/// The largest single file size in a list.
pub open spec fn max_unit_size(units: Seq<WorkUnit>) -> int
    decreases units.len(),
{
    if units.len() == 0 {
        0
    } else if units.last().size >= max_unit_size(units.drop_last()) {
        units.last().size as int
    } else {
        max_unit_size(units.drop_last())
    }
}

/// The total assigned is the sum of every worker's size; each worker's
/// share is at most the total.
pub proof fn lemma_bucket_le_total(works: Seq<Work>, i: int)
    requires
        0 <= i < works.len(),
    ensures
        works[i].size <= total_assigned(works),
        total_assigned(works) >= 0,
    decreases works.len(),
{
    lemma_total_nonneg(works.drop_last());
    if i == works.len() - 1 {
    } else {
        lemma_bucket_le_total(works.drop_last(), i);
    }
}

/// The total assigned is never negative.
pub proof fn lemma_total_nonneg(works: Seq<Work>)
    ensures
        total_assigned(works) >= 0,
    decreases works.len(),
{
    if works.len() > 0 {
        lemma_total_nonneg(works.drop_last());
    }
}

/// Growing one worker's size grows the total by the same amount.
pub proof fn lemma_total_update(works: Seq<Work>, m: int, w: Work)
    requires
        0 <= m < works.len(),
    ensures
        total_assigned(works.update(m, w)) == total_assigned(works) - works[m].size + w.size,
    decreases works.len(),
{
    let upd = works.update(m, w);
    if m == works.len() - 1 {
        assert(upd.drop_last() =~= works.drop_last());
        assert(upd.last() == w);
    } else {
        assert(upd.drop_last() =~= works.drop_last().update(m, w));
        assert(upd.last() == works.last());
        lemma_total_update(works.drop_last(), m, w);
    }
}

/// Finds the first worker with the least accumulated size.
pub fn least_loaded(workload: &Vec<Work>) -> (m: usize)
    requires
        workload@.len() > 0,
    ensures
        m < workload@.len(),
        forall|j: int| 0 <= j < workload@.len() ==> workload@[m as int].size <= (
        #[trigger] workload@[j]).size,
        forall|j: int| 0 <= j < m ==> (#[trigger] workload@[j]).size > workload@[m as int].size,
{
    let mut m: usize = 0;
    let mut j: usize = 1;
    while j < workload.len()
        invariant
            m < j <= workload@.len(),
            workload@.len() > 0,
            forall|k: int| 0 <= k < j ==> workload@[m as int].size <= (#[trigger] workload@[k]).size,
            forall|k: int| 0 <= k < m ==> (#[trigger] workload@[k]).size > workload@[m as int].size,
        decreases workload@.len() - j,
    {
        if workload[j].size < workload[m].size {
            m = j;
        }
        j = j + 1;
    }
    m
}

/// Every pair of workers differs by at most `bound` in assigned bytes.
pub open spec fn balanced_within(works: Seq<Work>, bound: int) -> bool {
    forall|i: int, j: int|
        0 <= i < works.len() && 0 <= j < works.len() ==> (#[trigger] works[i]).size <= (
        #[trigger] works[j]).size + bound
}

/// The one worker at `m` gained the entry `path` with `size` bytes;
/// every other worker stands unchanged.
pub open spec fn assigned_at(
    before: Seq<Work>,
    after: Seq<Work>,
    m: int,
    path: String,
    size: u64,
) -> bool {
    &&& after.len() == before.len()
    &&& (forall|j: int| 0 <= j < before.len() && j != m ==> after[j] == (#[trigger] before[j]))
    &&& after[m].thread == before[m].thread
    &&& after[m].size == before[m].size + size
    &&& after[m].entries@ == before[m].entries@.push(path)
}

/// Assigns one file to the first least-loaded worker: that worker gains
/// the entry and its size, every other worker stands unchanged.
pub fn assign_entry(workload: &mut Vec<Work>, path: String, size: u64)
    requires
        old(workload)@.len() > 0,
        total_assigned(old(workload)@) + size <= u64::MAX,
    ensures
        exists|m: int|
            {
                &&& 0 <= m < old(workload)@.len()
                &&& (forall|j: int|
                    0 <= j < old(workload)@.len() ==> old(workload)@[m].size <= (#[trigger] old(
                        workload,
                    )@[j]).size)
                &&& (forall|j: int| 0 <= j < m ==> (#[trigger] old(workload)@[j]).size > old(
                    workload,
                )@[m].size)
                &&& assigned_at(old(workload)@, final (workload)@, m, path, size)
            },
        total_assigned(final (workload)@) == total_assigned(old(workload)@) + size,
{
    let m = least_loaded(workload);
    proof {
        lemma_bucket_le_total(workload@, m as int);
    }
    let ghost before = workload@;
    let ghost path_snap = path;
    let mut w = workload.remove(m);
    w.update(path, size);
    workload.insert(m, w);
    proof {
        assert(workload@ =~= before.remove(m as int).insert(m as int, workload@[m as int]));
        assert forall|j: int|
            0 <= j < before.len() && j != m implies workload@[j] == (#[trigger] before[j]) by {
            if j < m {
                assert(workload@[j] == before.remove(m as int)[j]);
            } else {
                assert(workload@[j] == before.remove(m as int)[j - 1]);
            }
        }
        assert(assigned_at(before, workload@, m as int, path_snap, size));
        assert(workload@ =~= before.update(m as int, workload@[m as int]));
        lemma_total_update(before, m as int, workload@[m as int]);
        assert(total_assigned(workload@) == total_assigned(before) + size);
    }
}

/// Splits a list of files into `cpu_count` near-balanced assignments:
/// each file goes, in order, to the worker with the least bytes so far.
/// The total bytes spread over the workers equal the total bytes of the
/// files, and no two workers differ by more than the largest single
/// file.
#[verifier::rlimit(100)]
pub fn split_workload(files: Vec<WorkUnit>, cpu_count: usize) -> (r: Vec<Work>)
    requires
        cpu_count >= 1,
        total_unit_size(files@) <= u64::MAX,
    ensures
        r@.len() == cpu_count,
        forall|i: int| 0 <= i < r@.len() ==> (#[trigger] r@[i]).thread == i,
        total_assigned(r@) == total_unit_size(files@),
        balanced_within(r@, max_unit_size(files@)),
{
    let ghost units = files@;
    let n_files = files.len();
    let mut workload: Vec<Work> = Vec::new();
    let mut t: usize = 0;
    while t < cpu_count
        invariant
            t <= cpu_count,
            workload@.len() == t,
            forall|i: int| 0 <= i < t ==> (#[trigger] workload@[i]).thread == i,
            forall|i: int| 0 <= i < t ==> (#[trigger] workload@[i]).size == 0,
            total_assigned(workload@) == 0,
        decreases cpu_count - t,
    {
        let ghost prev = workload@;
        workload.push(Work { thread: t, size: 0, entries: Vec::new() });
        proof {
            assert(workload@.drop_last() =~= prev);
        }
        t = t + 1;
    }
    let mut k: usize = 0;
    let mut rest = files;
    proof {
        assert(units.take(0) =~= Seq::<WorkUnit>::empty());
        lemma_max_unit_monotone(units, 0);
        lemma_total_unit_take_bound(units, 0);
    }
    while rest.len() > 0
        invariant
            n_files == units.len(),
            total_unit_size(units) <= u64::MAX,
            k + rest@.len() == units.len(),
            k <= n_files,
            rest@ =~= units.skip(k as int),
            workload@.len() == cpu_count,
            cpu_count >= 1,
            forall|i: int| 0 <= i < cpu_count ==> (#[trigger] workload@[i]).thread == i,
            total_assigned(workload@) == total_unit_size(units.take(k as int)),
            total_unit_size(units.take(k as int)) <= total_unit_size(units),
            balanced_within(workload@, max_unit_size(units.take(k as int))),
            max_unit_size(units.take(k as int)) <= max_unit_size(units),
        decreases rest@.len(),
    {
        proof {
            assert(rest@[0] == units[k as int]);
        }
        let unit = rest.remove(0);
        proof {
            assert(rest@ =~= units.skip(k as int + 1));
            assert(units.take(k as int + 1).drop_last() =~= units.take(k as int));
            assert(units.take(k as int + 1).last() == units[k as int]);
            lemma_total_unit_take_bound(units, k as int + 1);
            assert(0 <= k < units.len());
            assert(units.take(k as int + 1).len() == k + 1);
            assert(total_unit_size(units.take(k as int + 1)) == total_unit_size(
                units.take(k as int + 1).drop_last(),
            ) + units.take(k as int + 1).last().size);
            assert(total_unit_size(units.take(k as int + 1)) == total_unit_size(
                units.take(k as int),
            ) + units[k as int].size);
            assert(total_assigned(workload@) + unit.size <= u64::MAX);
        }
        let ghost before = workload@;
        let ghost old_max = max_unit_size(units.take(k as int));
        let ghost upath = unit.path;
        assign_entry(&mut workload, unit.path, unit.size);
        proof {
            let new_max = max_unit_size(units.take(k as int + 1));
            assert(new_max >= old_max && new_max >= units[k as int].size);
            let m = choose|m: int|
                {
                    &&& 0 <= m < before.len()
                    &&& (forall|j: int|
                        0 <= j < before.len() ==> before[m].size <= (#[trigger] before[j]).size)
                    &&& (forall|j: int| 0 <= j < m ==> (#[trigger] before[j]).size > before[
                        m].size)
                    &&& assigned_at(before, workload@, m, upath, units[k as int].size)
                };
            assert forall|i: int|
                0 <= i < cpu_count implies (#[trigger] workload@[i]).thread == i by {
                if i != m {
                    assert(workload@[i] == before[i]);
                }
            }
            assert forall|i: int, j: int|
                0 <= i < workload@.len() && 0 <= j < workload@.len() implies (
            #[trigger] workload@[i]).size <= (#[trigger] workload@[j]).size + new_max by {
                if i == m {
                    assert(before[m].size <= before[j].size);
                    assert(workload@[j].size >= before[j].size);
                } else if j == m {
                    assert(workload@[i].size == before[i].size);
                    assert(workload@[j].size >= before[j].size);
                    assert(before[i].size <= before[j].size + old_max);
                } else {
                    assert(workload@[i].size == before[i].size);
                    assert(workload@[j].size == before[j].size);
                    assert(before[i].size <= before[j].size + old_max);
                }
            }
            lemma_max_unit_monotone(units, k as int + 1);
        }
        k = k + 1;
    }
    proof {
        assert(units.take(units.len() as int) =~= units);
    }
    workload
}

/// The largest size in a prefix never exceeds the largest in the whole
/// list.
proof fn lemma_max_unit_monotone(units: Seq<WorkUnit>, k: int)
    requires
        0 <= k <= units.len(),
    ensures
        max_unit_size(units.take(k)) <= max_unit_size(units),
        max_unit_size(units) >= 0,
    decreases units.len() - k,
{
    if k == units.len() {
        assert(units.take(k) =~= units);
        lemma_max_unit_nonneg(units);
    } else {
        lemma_max_unit_monotone(units, k + 1);
        assert(units.take(k + 1).drop_last() =~= units.take(k));
    }
}

/// The largest size is never negative.
proof fn lemma_max_unit_nonneg(units: Seq<WorkUnit>)
    ensures
        max_unit_size(units) >= 0,
    decreases units.len(),
{
    if units.len() > 0 {
        lemma_max_unit_nonneg(units.drop_last());
    }
}

/// A prefix's total never exceeds the whole list's total.
proof fn lemma_total_unit_take_bound(units: Seq<WorkUnit>, k: int)
    requires
        0 <= k <= units.len(),
    ensures
        total_unit_size(units.take(k)) <= total_unit_size(units),
    decreases units.len() - k,
{
    if k == units.len() {
        assert(units.take(k) =~= units);
    } else {
        lemma_total_unit_take_bound(units, k + 1);
        assert(units.take(k + 1).drop_last() =~= units.take(k));
        assert(units.take(k + 1).last() == units[k]);
    }
}

} // verus!
