//! Virtual path pools: records filtered to a set of roots, keyed by
//! virtual path and kept in segment-wise path order.

use vstd::prelude::*;
use crate::apperror::AppError;
use crate::fs_node::FsNode;
use crate::paths::root_matches;
use crate::paths::root_matches_exec;
use crate::paths::virtual_path_of;
use crate::paths::virtual_path_exec;
use crate::paths::path_lt;
use crate::paths::path_lt_exec;
use crate::paths::str_chars_eq;
use crate::paths::lemma_path_le_total;
use crate::paths::lemma_path_lt_trans;
use crate::paths::lemma_virtual_path_nonempty;

verus! {

/// The record carries a real entry name: non-empty and not ending in a
/// separator, as a leaf name of an absolute path does (the record's
/// absolute path is its parent directory joined with this name).
pub open spec fn wf_entry_name(n: FsNode) -> bool {
    n.name@.len() > 0 && n.name@[n.name@.len() - 1] != '/'
}

/// Every listed root is a non-empty directory prefix.
pub open spec fn wf_roots(roots: Seq<String>) -> bool {
    forall|j: int| 0 <= j < roots.len() ==> (#[trigger] roots[j])@.len() > 0
}

/// One record mapped into a pool's namespace: the configured root it was
/// discovered under, and its absolute path with that root stripped. The
/// virtual path is the comparison key.
#[derive(Debug)]
pub struct VirtualFsNode {
    /// The configured root prefix this entry fell under.
    pub root: String,
    /// The entry's absolute path, minus the root.
    pub virtual_path: String,
    /// The underlying record.
    pub fs_node: FsNode,
}

impl VirtualFsNode {
    /// The derived strings agree with the record: the root matches the
    /// record's parent directory and the virtual path is the stripped
    /// absolute path.
    pub open spec fn wf(self) -> bool {
        &&& root_matches(self.fs_node.parent_path@, self.root@)
        &&& self.virtual_path@ == virtual_path_of(
            self.root@,
            self.fs_node.parent_path@,
            self.fs_node.name@,
        )
        &&& self.root@.len() > 0
        &&& self.virtual_path@.len() > 0
    }

    /// Maps one record under the given root.
    pub fn new(root: String, fs_node: &FsNode) -> (r: VirtualFsNode)
        requires
            root_matches(fs_node.parent_path@, root@),
            root@.len() > 0,
            wf_entry_name(*fs_node),
        ensures
            r.wf(),
            r.root@ == root@,
            r.fs_node == *fs_node,
    {
        proof {
            lemma_virtual_path_nonempty(root@, fs_node.parent_path@, fs_node.name@);
        }
        let virtual_path = virtual_path_exec(
            root.as_str(),
            fs_node.parent_path.as_str(),
            fs_node.name.as_str(),
        );
        VirtualFsNode { root, virtual_path, fs_node: fs_node.clone() }
    }
}

/// A pool: the uniquely-keyed, path-ordered collection of virtual-path
/// entries for one snapshot.
#[derive(Debug)]
pub struct Pool {
    pub nodes: Vec<VirtualFsNode>,
}

impl Pool {
    /// Every entry is well formed and the keys ascend strictly in
    /// segment-wise path order; in particular every key is unique.
    pub open spec fn wf(self) -> bool {
        &&& (forall|i: int| 0 <= i < self.nodes@.len() ==> (#[trigger] self.nodes@[i]).wf())
        &&& (forall|i: int, j: int|
            0 <= i < j < self.nodes@.len() ==> path_lt(
                #[trigger] self.nodes@[i].virtual_path@,
                #[trigger] self.nodes@[j].virtual_path@,
            ))
    }

    /// The pool's keys, in order.
    pub open spec fn keys(self) -> Seq<Seq<char>> {
        self.nodes@.map_values(|n: VirtualFsNode| n.virtual_path@)
    }

    /// Whether some entry carries the given key.
    pub open spec fn has_key(self, k: Seq<char>) -> bool {
        exists|i: int| 0 <= i < self.nodes@.len() && (#[trigger] self.nodes@[i]).virtual_path@ == k
    }

    /// The pool's keys as a set.
    pub open spec fn key_set(self) -> Set<Seq<char>> {
        Set::new(|k: Seq<char>| self.has_key(k))
    }

    /// The position of the entry carrying the given key.
    pub open spec fn index_of(self, k: Seq<char>) -> int {
        choose|i: int|
            0 <= i < self.nodes@.len() && (#[trigger] self.nodes@[i]).virtual_path@ == k
    }

    /// The entry carrying the given key.
    pub open spec fn entry_at(self, k: Seq<char>) -> VirtualFsNode {
        self.nodes@[self.index_of(k)]
    }

    /// In a well-formed pool the entry at position `i` is the one its
    /// key finds: keys are unique.
    pub proof fn lemma_entry_at(self, i: int)
        requires
            self.wf(),
            0 <= i < self.nodes@.len(),
        ensures
            self.entry_at(self.nodes@[i].virtual_path@) == self.nodes@[i],
    {
        let k = self.nodes@[i].virtual_path@;
        assert(self.has_key(k));
        let i2 = self.index_of(k);
        if i2 != i {
            if i2 < i {
                assert(path_lt(self.nodes@[i2].virtual_path@, self.nodes@[i].virtual_path@));
            } else {
                assert(path_lt(self.nodes@[i].virtual_path@, self.nodes@[i2].virtual_path@));
            }
        }
    }

    /// The number of entries.
    pub fn len(&self) -> (r: usize)
        ensures
            r == self.nodes@.len(),
    {
        self.nodes.len()
    }
}

/// `j` is the first of the listed roots that matches the parent path.
pub open spec fn is_first_root(roots: Seq<String>, parent: Seq<char>, j: int) -> bool {
    &&& 0 <= j < roots.len()
    &&& root_matches(parent, roots[j]@)
    &&& forall|k: int| 0 <= k < j ==> !root_matches(parent, #[trigger] roots[k]@)
}

/// At most one root index is the first match.
pub proof fn lemma_first_root_unique(roots: Seq<String>, parent: Seq<char>, j1: int, j2: int)
    requires
        is_first_root(roots, parent, j1),
        is_first_root(roots, parent, j2),
    ensures
        j1 == j2,
{
}

/// The record at `i` falls under some listed root.
pub open spec fn record_selected(records: Seq<FsNode>, roots: Seq<String>, i: int) -> bool {
    &&& 0 <= i < records.len()
    &&& exists|j: int| is_first_root(roots, records[i].parent_path@, j)
}

/// The root index a selected record binds to: the first listed match.
pub open spec fn record_root_idx(records: Seq<FsNode>, roots: Seq<String>, i: int) -> int {
    choose|j: int| is_first_root(roots, records[i].parent_path@, j)
}

/// The virtual path a selected record maps to.
pub open spec fn record_vp(records: Seq<FsNode>, roots: Seq<String>, i: int) -> Seq<char> {
    virtual_path_of(
        roots[record_root_idx(records, roots, i)]@,
        records[i].parent_path@,
        records[i].name@,
    )
}

/// Among the first `n` records, no two selected ones map to the same
/// virtual path.
pub open spec fn no_dup_vp_before(records: Seq<FsNode>, roots: Seq<String>, n: int) -> bool {
    forall|i1: int, i2: int|
        0 <= i1 < i2 < n && record_selected(records, roots, i1) && record_selected(
            records,
            roots,
            i2,
        ) ==> #[trigger] record_vp(records, roots, i1) != #[trigger] record_vp(records, roots, i2)
}

/// The text of the error a duplicate virtual path raises.
pub open spec fn dup_vp_message(vp: Seq<char>) -> Seq<char> {
    "duplicate virtual path for the given roots: '"@ + vp + "'"@
}

/// Finds the first listed root that the record's parent path falls
/// under, if any.
pub fn find_root(fs_node: &FsNode, roots: &Vec<String>) -> (r: Option<usize>)
    ensures
        (match r {
            Some(j) => is_first_root(roots@, fs_node.parent_path@, j as int),
            None => forall|k: int|
                0 <= k < roots@.len() ==> !root_matches(fs_node.parent_path@, #[trigger] roots@[k]@),
        }),
{
    let mut j: usize = 0;
    while j < roots.len()
        invariant
            j <= roots@.len(),
            forall|k: int|
                0 <= k < j ==> !root_matches(fs_node.parent_path@, #[trigger] roots@[k]@),
        decreases roots@.len() - j,
    {
        if root_matches_exec(fs_node.parent_path.as_str(), roots[j].as_str()) {
            return Some(j);
        }
        j = j + 1;
    }
    None
}

/// Every entry of `out` is the image of some selected record.
pub open spec fn entries_from_records(
    records: Seq<FsNode>,
    roots: Seq<String>,
    out: Seq<VirtualFsNode>,
) -> bool {
    forall|k: int|
        0 <= k < out.len() ==> exists|i: int|
            record_selected(records, roots, i) && (#[trigger] out[k]).fs_node == records[i]
                && out[k].virtual_path@ == record_vp(records, roots, i)
}

/// Every selected record among the first `n` has an image in `out`.
pub open spec fn records_covered(
    records: Seq<FsNode>,
    roots: Seq<String>,
    out: Seq<VirtualFsNode>,
    n: int,
) -> bool {
    forall|i: int|
        0 <= i < n && record_selected(records, roots, i) ==> exists|k: int|
            0 <= k < out.len() && (#[trigger] out[k]).fs_node == records[i]
                && out[k].virtual_path@ == record_vp(records, roots, i)
}

/// Maps each record that falls under one of the roots into a
/// virtual-path entry, binding it to the first listed root that matches;
/// records matching no root are dropped.
#[verifier::rlimit(100)]
pub fn filter_by_roots(fs_nodes: &Vec<FsNode>, roots: &Vec<String>) -> (r: Vec<VirtualFsNode>)
    requires
        wf_roots(roots@),
        forall|i: int| 0 <= i < fs_nodes@.len() ==> wf_entry_name(#[trigger] fs_nodes@[i]),
    ensures
        forall|k: int| 0 <= k < r@.len() ==> (#[trigger] r@[k]).wf(),
        entries_from_records(fs_nodes@, roots@, r@),
        records_covered(fs_nodes@, roots@, r@, fs_nodes@.len() as int),
{
    let mut out: Vec<VirtualFsNode> = Vec::new();
    let mut idx: usize = 0;
    while idx < fs_nodes.len()
        invariant
            idx <= fs_nodes@.len(),
            wf_roots(roots@),
            forall|i: int| 0 <= i < fs_nodes@.len() ==> wf_entry_name(#[trigger] fs_nodes@[i]),
            forall|k: int| 0 <= k < out@.len() ==> (#[trigger] out@[k]).wf(),
            entries_from_records(fs_nodes@, roots@, out@),
            records_covered(fs_nodes@, roots@, out@, idx as int),
        decreases fs_nodes@.len() - idx,
    {
        match find_root(&fs_nodes[idx], roots) {
            Some(j) => {
                let vnode = VirtualFsNode::new(roots[j].clone(), &fs_nodes[idx]);
                proof {
                    let jc = record_root_idx(fs_nodes@, roots@, idx as int);
                    lemma_first_root_unique(roots@, fs_nodes@[idx as int].parent_path@, j as int, jc);
                }
                let ghost prev = out@;
                out.push(vnode);
                assert(entries_from_records(fs_nodes@, roots@, out@)) by {
                    assert forall|k: int|
                        0 <= k < out@.len() implies exists|i: int|
                        record_selected(fs_nodes@, roots@, i) && (#[trigger] out@[k]).fs_node
                            == fs_nodes@[i] && out@[k].virtual_path@ == record_vp(
                            fs_nodes@,
                            roots@,
                            i,
                        ) by {
                        if k < out@.len() - 1 {
                            assert(out@[k] == prev[k]);
                            let i0 = choose|i: int|
                                record_selected(fs_nodes@, roots@, i) && (#[trigger] prev[k]).fs_node
                                    == fs_nodes@[i] && prev[k].virtual_path@ == record_vp(
                                    fs_nodes@,
                                    roots@,
                                    i,
                                );
                            assert(record_selected(fs_nodes@, roots@, i0) && out@[k].fs_node
                                == fs_nodes@[i0] && out@[k].virtual_path@ == record_vp(
                                fs_nodes@,
                                roots@,
                                i0,
                            ));
                        } else {
                            assert(record_selected(fs_nodes@, roots@, idx as int) && out@[k].fs_node
                                == fs_nodes@[idx as int] && out@[k].virtual_path@ == record_vp(
                                fs_nodes@,
                                roots@,
                                idx as int,
                            ));
                        }
                    }
                }
                assert(records_covered(fs_nodes@, roots@, out@, idx as int + 1)) by {
                    assert forall|i: int|
                        0 <= i < idx + 1 && record_selected(fs_nodes@, roots@, i) implies exists|
                        k: int,
                    |
                        0 <= k < out@.len() && (#[trigger] out@[k]).fs_node == fs_nodes@[i]
                            && out@[k].virtual_path@ == record_vp(fs_nodes@, roots@, i) by {
                        if i < idx {
                            let k = choose|k: int|
                                0 <= k < prev.len() && (#[trigger] prev[k]).fs_node == fs_nodes@[i]
                                    && prev[k].virtual_path@ == record_vp(fs_nodes@, roots@, i);
                            assert(out@[k].fs_node == fs_nodes@[i]);
                        } else {
                            assert(out@[out@.len() - 1].fs_node == fs_nodes@[i]);
                        }
                    }
                }
            },
            None => {
                proof {
                    if record_selected(fs_nodes@, roots@, idx as int) {
                        let j = choose|j: int|
                            is_first_root(roots@, fs_nodes@[idx as int].parent_path@, j);
                        assert(root_matches(fs_nodes@[idx as int].parent_path@, roots@[j]@));
                    }
                }
            },
        }
        idx = idx + 1;
    }
    out
}

/// Inserts one entry into the ordered pool body unless its key is
/// already present; reports which.
#[verifier::rlimit(100)]
fn insert_sorted(nodes: &mut Vec<VirtualFsNode>, vnode: VirtualFsNode) -> (r: bool)
    requires
        vnode.wf(),
        forall|i: int| 0 <= i < old(nodes)@.len() ==> (#[trigger] old(nodes)@[i]).wf(),
        forall|i: int, j: int|
            0 <= i < j < old(nodes)@.len() ==> path_lt(
                #[trigger] old(nodes)@[i].virtual_path@,
                #[trigger] old(nodes)@[j].virtual_path@,
            ),
    ensures
        r == !(exists|i: int|
            0 <= i < old(nodes)@.len() && (#[trigger] old(nodes)@[i]).virtual_path@
                == vnode.virtual_path@),
        !r ==> final (nodes)@ == old(nodes)@,
        r ==> exists|p: int|
            0 <= p <= old(nodes)@.len() && final (nodes)@ == old(nodes)@.insert(p, vnode),
        forall|i: int| 0 <= i < final (nodes)@.len() ==> (#[trigger] final (nodes)@[i]).wf(),
        forall|i: int, j: int|
            0 <= i < j < final (nodes)@.len() ==> path_lt(
                #[trigger] final (nodes)@[i].virtual_path@,
                #[trigger] final (nodes)@[j].virtual_path@,
            ),
{
    let mut pos: usize = 0;
    loop
        invariant
            pos <= nodes@.len(),
            nodes@ == old(nodes)@,
            forall|k: int|
                0 <= k < pos ==> path_lt(
                    (#[trigger] nodes@[k]).virtual_path@,
                    vnode.virtual_path@,
                ),
        ensures
            pos <= nodes@.len(),
            nodes@ == old(nodes)@,
            forall|k: int|
                0 <= k < pos ==> path_lt(
                    (#[trigger] nodes@[k]).virtual_path@,
                    vnode.virtual_path@,
                ),
            pos < nodes@.len() ==> !path_lt(nodes@[pos as int].virtual_path@, vnode.virtual_path@),
        decreases nodes@.len() - pos,
    {
        if pos == nodes.len() {
            break;
        }
        if !path_lt_exec(nodes[pos].virtual_path.as_str(), vnode.virtual_path.as_str()) {
            break;
        }
        pos = pos + 1;
    }
    if pos < nodes.len() && str_chars_eq(nodes[pos].virtual_path.as_str(), vnode.virtual_path.as_str()) {
        proof {
            assert(nodes@[pos as int].virtual_path@ == vnode.virtual_path@);
        }
        return false;
    }
    proof {
        // No entry carries the key: those before `pos` are strictly
        // below it, those from `pos` on are strictly above it.
        assert forall|i: int|
            pos <= i < nodes@.len() implies path_lt(
            vnode.virtual_path@,
            (#[trigger] nodes@[i]).virtual_path@,
        ) by {
            lemma_path_le_total(vnode.virtual_path@, nodes@[pos as int].virtual_path@);
            if i > pos {
                assert(path_lt(nodes@[pos as int].virtual_path@, nodes@[i].virtual_path@));
                lemma_path_lt_trans(
                    vnode.virtual_path@,
                    nodes@[pos as int].virtual_path@,
                    nodes@[i].virtual_path@,
                );
            }
        }
    }
    let ghost prev = nodes@;
    nodes.insert(pos, vnode);
    proof {
        assert forall|i: int, j: int|
            0 <= i < j < nodes@.len() implies path_lt(
            (#[trigger] nodes@[i]).virtual_path@,
            (#[trigger] nodes@[j]).virtual_path@,
        ) by {
            if j < pos {
                assert(nodes@[i] == prev[i] && nodes@[j] == prev[j]);
            } else if i < pos && j == pos {
                assert(nodes@[i] == prev[i]);
            } else if i < pos && j > pos {
                assert(nodes@[i] == prev[i] && nodes@[j] == prev[j - 1]);
            } else if i == pos {
                assert(nodes@[j] == prev[j - 1]);
            } else {
                assert(nodes@[i] == prev[i - 1] && nodes@[j] == prev[j - 1]);
            }
        }
        assert(forall|i: int| 0 <= i < nodes@.len() ==> (#[trigger] nodes@[i]).wf());
    }
    true
}

/// One successful insertion keeps the pool's bookkeeping: every entry
/// still comes from a selected record, every selected record up to and
/// including the new one has its entry, and the virtual paths of the
/// selected records stay pairwise distinct.
#[verifier::rlimit(100)]
proof fn lemma_pool_step(
    records: Seq<FsNode>,
    roots: Seq<String>,
    prev: Seq<VirtualFsNode>,
    cur: Seq<VirtualFsNode>,
    vnode: VirtualFsNode,
    p: int,
    idx: int,
)
    requires
        0 <= idx < records.len(),
        record_selected(records, roots, idx),
        vnode.virtual_path@ == record_vp(records, roots, idx),
        vnode.fs_node == records[idx],
        vnode.root@ == roots[record_root_idx(records, roots, idx)]@,
        0 <= p <= prev.len(),
        cur == prev.insert(p, vnode),
        forall|k: int|
            0 <= k < prev.len() ==> exists|i: int|
                0 <= i < idx && record_selected(records, roots, i) && (#[trigger] prev[k]).fs_node
                    == records[i] && prev[k].virtual_path@ == record_vp(records, roots, i)
                    && prev[k].root@ == roots[record_root_idx(records, roots, i)]@,
        forall|i: int|
            0 <= i < idx && record_selected(records, roots, i) ==> exists|k: int|
                0 <= k < prev.len() && (#[trigger] prev[k]).virtual_path@ == record_vp(
                    records,
                    roots,
                    i,
                ),
        no_dup_vp_before(records, roots, idx),
        !(exists|k: int|
            0 <= k < prev.len() && (#[trigger] prev[k]).virtual_path@ == vnode.virtual_path@),
    ensures
        forall|k: int|
            0 <= k < cur.len() ==> exists|i: int|
                0 <= i < idx + 1 && record_selected(records, roots, i) && (
                #[trigger] cur[k]).fs_node == records[i] && cur[k].virtual_path@ == record_vp(
                    records,
                    roots,
                    i,
                ) && cur[k].root@ == roots[record_root_idx(records, roots, i)]@,
        forall|i: int|
            0 <= i < idx + 1 && record_selected(records, roots, i) ==> exists|k: int|
                0 <= k < cur.len() && (#[trigger] cur[k]).virtual_path@ == record_vp(
                    records,
                    roots,
                    i,
                ),
        no_dup_vp_before(records, roots, idx + 1),
{
    assert forall|k: int|
        0 <= k < cur.len() implies exists|i: int|
        0 <= i < idx + 1 && record_selected(records, roots, i) && (#[trigger] cur[k]).fs_node
            == records[i] && cur[k].virtual_path@ == record_vp(records, roots, i) && cur[k].root@
            == roots[record_root_idx(records, roots, i)]@ by {
        if k < p {
            assert(cur[k] == prev[k]);
        } else if k == p {
            assert(cur[k] == vnode);
        } else {
            assert(cur[k] == prev[k - 1]);
        }
    }
    assert forall|i: int|
        0 <= i < idx + 1 && record_selected(records, roots, i) implies exists|k: int|
        0 <= k < cur.len() && (#[trigger] cur[k]).virtual_path@ == record_vp(records, roots, i) by {
        if i < idx {
            let k0 = choose|k: int|
                0 <= k < prev.len() && (#[trigger] prev[k]).virtual_path@ == record_vp(
                    records,
                    roots,
                    i,
                );
            if k0 < p {
                assert(cur[k0].virtual_path@ == record_vp(records, roots, i));
            } else {
                assert(cur[k0 + 1].virtual_path@ == record_vp(records, roots, i));
            }
        } else {
            assert(cur[p].virtual_path@ == record_vp(records, roots, i));
        }
    }
    assert forall|i1: int, i2: int|
        0 <= i1 < i2 < idx + 1 && record_selected(records, roots, i1) && record_selected(
            records,
            roots,
            i2,
        ) implies #[trigger] record_vp(records, roots, i1) != #[trigger] record_vp(
        records,
        roots,
        i2,
    ) by {
        if i2 == idx {
            let k0 = choose|k: int|
                0 <= k < prev.len() && (#[trigger] prev[k]).virtual_path@ == record_vp(
                    records,
                    roots,
                    i1,
                );
            assert(!(exists|k: int|
                0 <= k < prev.len() && (#[trigger] prev[k]).virtual_path@
                    == vnode.virtual_path@));
        }
    }
}

/// Builds the pool for one snapshot: filters the records to the listed
/// roots (binding each to the first root that matches), maps each
/// survivor to its virtual path, and orders the entries by key.
///
/// Succeeds exactly when no two selected records map to the same virtual
/// path; otherwise the build stops at the first record whose path was
/// already taken and names that path in the error.
#[verifier::rlimit(100)]
pub fn make_pool(fs_nodes: &Vec<FsNode>, roots: Vec<String>) -> (r: Result<Pool, AppError>)
    requires
        wf_roots(roots@),
        forall|i: int| 0 <= i < fs_nodes@.len() ==> wf_entry_name(#[trigger] fs_nodes@[i]),
    ensures
        (r matches Ok(p)) <==> no_dup_vp_before(fs_nodes@, roots@, fs_nodes@.len() as int),
        (match r {
            Ok(pool) => {
                &&& pool.wf()
                &&& forall|i: int|
                    record_selected(fs_nodes@, roots@, i) ==> pool.has_key(
                        #[trigger] record_vp(fs_nodes@, roots@, i),
                    )
                &&& forall|k: int|
                    0 <= k < pool.nodes@.len() ==> exists|i: int|
                        record_selected(fs_nodes@, roots@, i) && (#[trigger] pool.nodes@[k]).fs_node
                            == fs_nodes@[i] && pool.nodes@[k].virtual_path@ == record_vp(
                            fs_nodes@,
                            roots@,
                            i,
                        ) && pool.nodes@[k].root@ == roots@[record_root_idx(fs_nodes@, roots@, i)]@
            },
            Err(e) => exists|i2: int|
                {
                    &&& record_selected(fs_nodes@, roots@, i2)
                    &&& exists|i1: int|
                        0 <= i1 < i2 && record_selected(fs_nodes@, roots@, i1) && record_vp(
                            fs_nodes@,
                            roots@,
                            i1,
                        ) == record_vp(fs_nodes@, roots@, i2)
                    &&& no_dup_vp_before(fs_nodes@, roots@, i2)
                    &&& (e matches AppError::WithMessage(m) && m@ == dup_vp_message(
                        #[trigger] record_vp(fs_nodes@, roots@, i2),
                    ))
                },
        }),
{
    let mut nodes: Vec<VirtualFsNode> = Vec::new();
    let mut idx: usize = 0;
    while idx < fs_nodes.len()
        invariant
            idx <= fs_nodes@.len(),
            wf_roots(roots@),
            forall|i: int| 0 <= i < fs_nodes@.len() ==> wf_entry_name(#[trigger] fs_nodes@[i]),
            forall|i: int| 0 <= i < nodes@.len() ==> (#[trigger] nodes@[i]).wf(),
            forall|i: int, j: int|
                0 <= i < j < nodes@.len() ==> path_lt(
                    #[trigger] nodes@[i].virtual_path@,
                    #[trigger] nodes@[j].virtual_path@,
                ),
            forall|i: int|
                0 <= i < idx && record_selected(fs_nodes@, roots@, i) ==> exists|k: int|
                    0 <= k < nodes@.len() && (#[trigger] nodes@[k]).virtual_path@ == record_vp(
                        fs_nodes@,
                        roots@,
                        i,
                    ),
            forall|k: int|
                0 <= k < nodes@.len() ==> exists|i: int|
                    0 <= i < idx && record_selected(fs_nodes@, roots@, i) && (
                    #[trigger] nodes@[k]).fs_node == fs_nodes@[i] && nodes@[k].virtual_path@
                        == record_vp(fs_nodes@, roots@, i) && nodes@[k].root@ == roots@[
                        record_root_idx(fs_nodes@, roots@, i)]@,
            no_dup_vp_before(fs_nodes@, roots@, idx as int),
        decreases fs_nodes@.len() - idx,
    {
        match find_root(&fs_nodes[idx], &roots) {
            Some(j) => {
                let vnode = VirtualFsNode::new(roots[j].clone(), &fs_nodes[idx]);
                proof {
                    assert(is_first_root(roots@, fs_nodes@[idx as int].parent_path@, j as int));
                    let jc = record_root_idx(fs_nodes@, roots@, idx as int);
                    assert(is_first_root(roots@, fs_nodes@[idx as int].parent_path@, jc));
                    lemma_first_root_unique(
                        roots@,
                        fs_nodes@[idx as int].parent_path@,
                        j as int,
                        jc,
                    );
                    assert(vnode.virtual_path@ == record_vp(fs_nodes@, roots@, idx as int));
                }
                let ghost prev = nodes@;
                let ghost vp_new = vnode.virtual_path@;
                let vp_string = vnode.virtual_path.clone();
                let inserted = insert_sorted(&mut nodes, vnode);
                if !inserted {
                    // The key was already present: some earlier selected
                    // record maps to the same virtual path.
                    proof {
                        let k = choose|k: int|
                            0 <= k < prev.len() && (#[trigger] prev[k]).virtual_path@ == vp_new;
                        let i1 = choose|i: int|
                            0 <= i < idx && record_selected(fs_nodes@, roots@, i) && (
                            #[trigger] prev[k]).fs_node == fs_nodes@[i] && prev[k].virtual_path@
                                == record_vp(fs_nodes@, roots@, i) && prev[k].root@ == roots@[
                                record_root_idx(fs_nodes@, roots@, i)]@;
                        assert(record_vp(fs_nodes@, roots@, i1) == record_vp(
                            fs_nodes@,
                            roots@,
                            idx as int,
                        ));
                        assert(!no_dup_vp_before(fs_nodes@, roots@, fs_nodes@.len() as int)) by {
                            assert(0 <= i1 && i1 < idx as int && (idx as int) < fs_nodes@.len());
                            assert(record_vp(fs_nodes@, roots@, i1) == record_vp(
                                fs_nodes@,
                                roots@,
                                idx as int,
                            ));
                        }
                    }
                    let mut msg = String::from_str("duplicate virtual path for the given roots: '");
                    msg.append(vp_string.as_str());
                    msg.append("'");
                    proof {
                        assert(msg@ =~= dup_vp_message(vp_new));
                    }
                    return Err(AppError::WithMessage(msg));
                }
                proof {
                    let p = choose|p: int|
                        0 <= p <= prev.len() && nodes@ == prev.insert(p, vnode);
                    lemma_pool_step(fs_nodes@, roots@, prev, nodes@, vnode, p, idx as int);
                }
            },
            None => {
                proof {
                    if record_selected(fs_nodes@, roots@, idx as int) {
                        let j = choose|j: int|
                            is_first_root(roots@, fs_nodes@[idx as int].parent_path@, j);
                        assert(root_matches(fs_nodes@[idx as int].parent_path@, roots@[j]@));
                    }
                    assert(no_dup_vp_before(fs_nodes@, roots@, idx as int + 1));
                }
            },
        }
        idx = idx + 1;
    }
    Ok(Pool { nodes })
}

/// Two roots conflict when one is a path-prefix of the other (equal
/// roots conflict too): nesting would make the owning root of an entry
/// ambiguous and let one physical file appear under two virtual paths.
pub open spec fn roots_conflict(x: Seq<char>, y: Seq<char>) -> bool {
    root_matches(x, y) || root_matches(y, x)
}

/// The root at `i` conflicts with some other listed root.
pub open spec fn root_in_conflict(roots: Seq<String>, i: int) -> bool {
    exists|j: int| 0 <= j < roots.len() && j != i && roots_conflict(roots[i]@, #[trigger] roots[j]@)
}

/// Whether the root at `i` conflicts with some other listed root.
fn has_conflict(roots: &Vec<String>, i: usize) -> (r: bool)
    requires
        i < roots@.len(),
    ensures
        r == root_in_conflict(roots@, i as int),
{
    let mut j: usize = 0;
    while j < roots.len()
        invariant
            j <= roots@.len(),
            i < roots@.len(),
            forall|j0: int|
                0 <= j0 < j && j0 != i ==> !roots_conflict(roots@[i as int]@, #[trigger] roots@[j0]@),
        decreases roots@.len() - j,
    {
        if j != i {
            let fwd = root_matches_exec(roots[i].as_str(), roots[j].as_str());
            let bwd = root_matches_exec(roots[j].as_str(), roots[i].as_str());
            if fwd || bwd {
                return true;
            }
        }
        j = j + 1;
    }
    false
}

/// Whether some string of the vector holds the same characters as `s`.
fn contains_string(v: &Vec<String>, s: &str) -> (r: bool)
    ensures
        r == exists|k: int| 0 <= k < v@.len() && (#[trigger] v@[k])@ == s@,
{
    let mut k: usize = 0;
    while k < v.len()
        invariant
            k <= v@.len(),
            forall|k0: int| 0 <= k0 < k ==> (#[trigger] v@[k0])@ != s@,
        decreases v@.len() - k,
    {
        if str_chars_eq(v[k].as_str(), s) {
            return true;
        }
        k = k + 1;
    }
    false
}

/// Every collected string is one of the listed roots and that root is
/// in conflict.
pub open spec fn conflicts_collected(roots: Seq<String>, out: Seq<String>) -> bool {
    forall|k: int|
        0 <= k < out.len() ==> exists|i0: int|
            0 <= i0 < roots.len() && (#[trigger] out[k])@ == roots[i0]@ && root_in_conflict(
                roots,
                i0,
            )
}

/// Every conflicting root among the first `n` is collected.
pub open spec fn conflicts_covered(roots: Seq<String>, out: Seq<String>, n: int) -> bool {
    forall|i0: int|
        0 <= i0 < n && root_in_conflict(roots, i0) ==> exists|k: int|
            0 <= k < out.len() && (#[trigger] out[k])@ == (#[trigger] roots[i0])@
}

/// No two collected strings hold the same characters.
pub open spec fn distinct_views(out: Seq<String>) -> bool {
    forall|k1: int, k2: int| 0 <= k1 < k2 < out.len() ==> (#[trigger] out[k1])@ != (
    #[trigger] out[k2])@
}

/// Collecting a newly found conflicting root keeps the bookkeeping: the
/// vector still holds exactly the conflicting roots seen so far, each
/// once.
#[verifier::rlimit(100)]
proof fn lemma_validate_push(roots: Seq<String>, prev: Seq<String>, cur: Seq<String>, i: int)
    requires
        0 <= i < roots.len(),
        conflicts_collected(roots, prev),
        conflicts_covered(roots, prev, i),
        distinct_views(prev),
        cur == prev.push(roots[i]),
        root_in_conflict(roots, i),
        !(exists|k: int| 0 <= k < prev.len() && (#[trigger] prev[k])@ == roots[i]@),
    ensures
        conflicts_collected(roots, cur),
        conflicts_covered(roots, cur, i + 1),
        distinct_views(cur),
{
    assert forall|k: int|
        0 <= k < cur.len() implies exists|i0: int|
        0 <= i0 < roots.len() && (#[trigger] cur[k])@ == roots[i0]@ && root_in_conflict(
            roots,
            i0,
        ) by {
        if k < prev.len() {
            assert(cur[k] == prev[k]);
            let i0 = choose|i0: int|
                0 <= i0 < roots.len() && (#[trigger] prev[k])@ == roots[i0]@ && root_in_conflict(
                    roots,
                    i0,
                );
            assert(0 <= i0 < roots.len() && cur[k]@ == roots[i0]@ && root_in_conflict(roots, i0));
        } else {
            assert(cur[k] == roots[i]);
        }
    }
    assert forall|i0: int|
        0 <= i0 < i + 1 && root_in_conflict(roots, i0) implies exists|k: int|
        0 <= k < cur.len() && (#[trigger] cur[k])@ == (#[trigger] roots[i0])@ by {
        if i0 < i {
            let k = choose|k: int| 0 <= k < prev.len() && (#[trigger] prev[k])@ == roots[i0]@;
            assert(cur[k]@ == roots[i0]@);
        } else {
            assert(cur[cur.len() - 1]@ == roots[i0]@);
        }
    }
    assert forall|k1: int, k2: int|
        0 <= k1 < k2 < cur.len() implies (#[trigger] cur[k1])@ != (#[trigger] cur[k2])@ by {
        if k2 < prev.len() {
            assert(cur[k1] == prev[k1] && cur[k2] == prev[k2]);
        } else {
            assert(cur[k1] == prev[k1] && cur[k2] == roots[i]);
        }
    }
}

/// Passing over a root (not in conflict, or already collected) keeps the
/// bookkeeping.
#[verifier::rlimit(100)]
proof fn lemma_validate_skip(roots: Seq<String>, cur: Seq<String>, i: int)
    requires
        0 <= i < roots.len(),
        conflicts_covered(roots, cur, i),
        root_in_conflict(roots, i) ==> exists|k: int|
            0 <= k < cur.len() && (#[trigger] cur[k])@ == roots[i]@,
    ensures
        conflicts_covered(roots, cur, i + 1),
{
    assert forall|i0: int|
        0 <= i0 < i + 1 && root_in_conflict(roots, i0) implies exists|k: int|
        0 <= k < cur.len() && (#[trigger] cur[k])@ == (#[trigger] roots[i0])@ by {
        if i0 == i {
            let k = choose|k: int| 0 <= k < cur.len() && (#[trigger] cur[k])@ == roots[i]@;
            assert(cur[k]@ == roots[i0]@);
        }
    }
}

/// Checks that no listed root is a path-prefix of another. Succeeds
/// exactly when no two roots conflict; otherwise returns the set of
/// conflicting roots — every root involved in some conflict, each
/// exactly once.
#[verifier::rlimit(100)]
pub fn validate_roots(roots: &Vec<String>) -> (r: Result<(), Vec<String>>)
    requires
        wf_roots(roots@),
    ensures
        (r matches Ok(u)) <==> (forall|i: int, j: int|
            0 <= i < j < roots@.len() ==> !roots_conflict(
                (#[trigger] roots@[i])@,
                (#[trigger] roots@[j])@,
            )),
        (r matches Err(v) ==> {
            &&& conflicts_collected(roots@, v@)
            &&& conflicts_covered(roots@, v@, roots@.len() as int)
            &&& distinct_views(v@)
        }),
{
    let mut invalid: Vec<String> = Vec::new();
    let mut i: usize = 0;
    while i < roots.len()
        invariant
            i <= roots@.len(),
            conflicts_collected(roots@, invalid@),
            conflicts_covered(roots@, invalid@, i as int),
            distinct_views(invalid@),
        decreases roots@.len() - i,
    {
        let ghost prev = invalid@;
        let conflict = has_conflict(roots, i);
        if conflict {
            if !contains_string(&invalid, roots[i].as_str()) {
                invalid.push(roots[i].clone());
                proof {
                    lemma_validate_push(roots@, prev, invalid@, i as int);
                }
            } else {
                proof {
                    lemma_validate_skip(roots@, invalid@, i as int);
                }
            }
        } else {
            proof {
                lemma_validate_skip(roots@, invalid@, i as int);
            }
        }
        i = i + 1;
    }
    if invalid.len() == 0 {
        proof {
            assert forall|i0: int, j0: int|
                0 <= i0 < j0 < roots@.len() implies !roots_conflict(
                (#[trigger] roots@[i0])@,
                (#[trigger] roots@[j0])@,
            ) by {
                if roots_conflict(roots@[i0]@, roots@[j0]@) {
                    assert(root_in_conflict(roots@, i0));
                    assert(false);
                }
            }
        }
        Ok(())
    } else {
        proof {
            assert(invalid@.len() > 0);
            let i0 = choose|i0: int|
                0 <= i0 < roots@.len() && (#[trigger] invalid@[0])@ == roots@[i0]@
                    && root_in_conflict(roots@, i0);
            let j0 = choose|j: int|
                0 <= j < roots@.len() && j != i0 && roots_conflict(
                    roots@[i0]@,
                    #[trigger] roots@[j]@,
                );
            if i0 < j0 {
                assert(roots_conflict(roots@[i0]@, roots@[j0]@));
            } else {
                assert(roots_conflict(roots@[j0]@, roots@[i0]@));
            }
        }
        Err(invalid)
    }
}

} // verus!
