//! The report assembler: filtering and collapsing the classified delta
//! sequence for presentation.
//!
//! Both passes are pure: rendering the result (HTML or otherwise) is an
//! outside collaborator's job, fed by the stable per-delta tuple that
//! the [`crate::delta::Delta`] accessors provide.

use vstd::prelude::*;
use crate::delta::Delta;
use crate::fs_node::NodeType;
use crate::paths::path_lt;
use crate::paths::path_lt_exec;
use crate::paths::strict_descendant;
use crate::paths::strict_descendant_exec;
use crate::paths::str_chars_eq;
use crate::paths::lemma_path_lt_trans;

verus! {

/// The deltas ascend strictly in segment-wise path order — the order in
/// which the delta engine emits them.
pub open spec fn deltas_in_path_order(ds: Seq<Delta>) -> bool {
    forall|i: int, j: int|
        0 <= i < j < ds.len() ==> path_lt(
            (#[trigger] ds[i]).spec_virtual_path(),
            (#[trigger] ds[j]).spec_virtual_path(),
        )
}

/// Adjacent strict order extends to all pairs.
proof fn lemma_adjacent_order_is_total(ds: Seq<Delta>, p: int, q: int)
    requires
        forall|k: int|
            0 <= k < ds.len() - 1 ==> path_lt(
                (#[trigger] ds[k]).spec_virtual_path(),
                ds[k + 1].spec_virtual_path(),
            ),
        0 <= p < q < ds.len(),
    ensures
        path_lt(ds[p].spec_virtual_path(), ds[q].spec_virtual_path()),
    decreases q - p,
{
    if q == p + 1 {
        assert(path_lt(ds[p].spec_virtual_path(), ds[p + 1].spec_virtual_path()));
    } else {
        lemma_adjacent_order_is_total(ds, p, q - 1);
        assert(path_lt(ds[q - 1].spec_virtual_path(), ds[q].spec_virtual_path()));
        lemma_path_lt_trans(
            ds[p].spec_virtual_path(),
            ds[q - 1].spec_virtual_path(),
            ds[q].spec_virtual_path(),
        );
    }
}

/// Decides whether a delta sequence is in strict path order, so an
/// unverified caller can reject unsorted input before collapsing
/// instead of silently assuming it.
pub fn deltas_in_order(deltas: &Vec<Delta>) -> (r: bool)
    requires
        forall|i: int| 0 <= i < deltas@.len() ==> (#[trigger] deltas@[i]).wf(),
    ensures
        r == deltas_in_path_order(deltas@),
{
    let n = deltas.len();
    if n == 0 {
        return true;
    }
    let mut i: usize = 0;
    while i < n - 1
        invariant
            n == deltas@.len(),
            0 < n,
            i <= n - 1,
            forall|k: int| 0 <= k < deltas@.len() ==> (#[trigger] deltas@[k]).wf(),
            forall|k: int|
                0 <= k < i ==> path_lt(
                    (#[trigger] deltas@[k]).spec_virtual_path(),
                    deltas@[k + 1].spec_virtual_path(),
                ),
        decreases deltas@.len() - i,
    {
        if !path_lt_exec(deltas[i].virtual_path_str(), deltas[i + 1].virtual_path_str()) {
            return false;
        }
        i = i + 1;
    }
    proof {
        assert forall|p: int, q: int|
            0 <= p < q < deltas@.len() implies path_lt(
            (#[trigger] deltas@[p]).spec_virtual_path(),
            (#[trigger] deltas@[q]).spec_virtual_path(),
        ) by {
            lemma_adjacent_order_is_total(deltas@, p, q);
        }
    }
    true
}

/// Keeps a delta in the default reporting mode exactly when it shows
/// drift.
pub open spec fn shows_drift(d: Delta) -> bool {
    !(d.spec_delta_type() is NoChange)
}

/// Drops the unchanged deltas unless the caller asked to keep them: the
/// default reporting mode shows only drift.
pub fn process_unchanged(deltas: Vec<Delta>, keep_unchanged: bool) -> (r: Vec<Delta>)
    ensures
        keep_unchanged ==> r@ == deltas@,
        !keep_unchanged ==> r@ == deltas@.filter(|d: Delta| shows_drift(d)),
{
    if keep_unchanged {
        return deltas;
    }
    let ghost ds0 = deltas@;
    let n0 = deltas.len();
    let mut out: Vec<Delta> = Vec::new();
    let mut i: usize = 0;
    let mut rest = deltas;
    proof {
        reveal(Seq::filter);
        assert(ds0.take(0).filter(|d: Delta| shows_drift(d)) =~= Seq::<Delta>::empty());
    }
    while rest.len() > 0
        invariant
            n0 == ds0.len(),
            i + rest@.len() == ds0.len(),
            i <= n0,
            rest@ =~= ds0.skip(i as int),
            out@ == ds0.take(i as int).filter(|d: Delta| shows_drift(d)),
        decreases rest@.len(),
    {
        proof {
            assert(rest@[0] == ds0[i as int]);
        }
        let d = rest.remove(0);
        proof {
            assert(rest@ =~= ds0.skip(i as int + 1));
        }
        let keep = !d.delta_type().is_unchanged();
        let ghost prev = out@;
        if keep {
            out.push(d);
        }
        proof {
            reveal(Seq::filter);
            let pred = |d: Delta| shows_drift(d);
            let t = ds0.take(i as int + 1);
            assert(t.drop_last() =~= ds0.take(i as int));
            assert(t.last() == ds0[i as int]);
            assert(t.len() > 0);
            assert(t.filter(pred) == if pred(t.last()) {
                t.drop_last().filter(pred).push(t.last())
            } else {
                t.drop_last().filter(pred)
            });
            assert(keep == pred(ds0[i as int]));
            if keep {
                assert(out@ =~= prev.push(ds0[i as int]));
            }
            assert(out@ =~= t.filter(pred));
        }
        i = i + 1;
    }
    proof {
        assert(ds0.take(ds0.len() as int) =~= ds0);
    }
    out
}

/// The view of an optional parent path.
pub open spec fn view_opt(o: Option<String>) -> Option<Seq<char>> {
    match o {
        None => None,
        Some(p) => Some(p@),
    }
}

/// The collapsing parent after seeing one delta: a created or deleted
/// directory becomes the current parent unless it already lies at or
/// under it; everything else leaves the parent as it stands.
pub open spec fn collapse_parent_after(parent: Option<Seq<char>>, d: Delta) -> Option<Seq<char>> {
    if d.spec_delta_type() is Creation || d.spec_delta_type() is Deletion {
        if d.spec_file_type() == NodeType::Directory {
            match parent {
                None => Some(d.spec_virtual_path()),
                Some(p) => if d.spec_virtual_path() == p || strict_descendant(
                    d.spec_virtual_path(),
                    p,
                ) {
                    parent
                } else {
                    Some(d.spec_virtual_path())
                },
            }
        } else {
            parent
        }
    } else {
        parent
    }
}

/// Whether one delta stays in the collapsed output: a created or
/// deleted entry lying strictly under the current parent is suppressed.
pub open spec fn collapse_keeps(parent: Option<Seq<char>>, d: Delta) -> bool {
    if d.spec_delta_type() is Creation || d.spec_delta_type() is Deletion {
        match collapse_parent_after(parent, d) {
            None => true,
            Some(p) => !strict_descendant(d.spec_virtual_path(), p),
        }
    } else {
        true
    }
}

/// The single left-to-right collapsing pass of the report assembler,
/// from position `i` with the given current parent.
pub open spec fn spec_collapse_from(ds: Seq<Delta>, i: int, parent: Option<Seq<char>>) -> Seq<
    Delta,
>
    decreases ds.len() - i,
{
    if i < 0 || i >= ds.len() {
        Seq::<Delta>::empty()
    } else {
        let p2 = collapse_parent_after(parent, ds[i]);
        let tail = spec_collapse_from(ds, i + 1, p2);
        if collapse_keeps(parent, ds[i]) {
            seq![ds[i]] + tail
        } else {
            tail
        }
    }
}

/// What the collapsing pass produces: the input itself when collapsing
/// was not asked for.
pub open spec fn spec_collapse(ds: Seq<Delta>, collapse: bool) -> Seq<Delta> {
    if collapse {
        spec_collapse_from(ds, 0, None)
    } else {
        ds
    }
}

/// Collapses wholly created or deleted subtrees to their top directory:
/// one left-to-right pass in which a created or deleted directory
/// becomes the current parent and every subsequent created or deleted
/// delta lying strictly under it (by path segments, not raw characters)
/// is suppressed. The input must already be in path order — the order
/// the delta engine emits — since the pass reads parenthood off
/// adjacency; `deltas_in_order` lets an unverified caller check that
/// and reject unsorted input instead of assuming.
pub fn process_collapse(deltas: Vec<Delta>, collapse: bool) -> (r: Vec<Delta>)
    requires
        forall|i: int| 0 <= i < deltas@.len() ==> (#[trigger] deltas@[i]).wf(),
        collapse ==> deltas_in_path_order(deltas@),
    ensures
        r@ == spec_collapse(deltas@, collapse),
{
    if !collapse {
        return deltas;
    }
    let ghost ds0 = deltas@;
    let n0 = deltas.len();
    let mut out: Vec<Delta> = Vec::new();
    let mut current_parent: Option<String> = None;
    let mut i: usize = 0;
    let mut rest = deltas;
    while rest.len() > 0
        invariant
            n0 == ds0.len(),
            i + rest@.len() == ds0.len(),
            i <= n0,
            rest@ =~= ds0.skip(i as int),
            forall|k: int| 0 <= k < ds0.len() ==> (#[trigger] ds0[k]).wf(),
            spec_collapse_from(ds0, 0, None) == out@ + spec_collapse_from(
                ds0,
                i as int,
                view_opt(current_parent),
            ),
        decreases rest@.len(),
    {
        proof {
            assert(rest@[0] == ds0[i as int]);
        }
        let d = rest.remove(0);
        proof {
            assert(rest@ =~= ds0.skip(i as int + 1));
        }
        let ghost parent_view = view_opt(current_parent);
        let is_cd = d.delta_type().is_created_or_deleted();
        if is_cd {
            let is_dir = d.file_type().is_dir();
            if is_dir {
                let replace = match &current_parent {
                    None => true,
                    Some(p) => {
                        let vp = d.virtual_path_str();
                        let same = str_chars_eq(vp, p.as_str());
                        let below = strict_descendant_exec(vp, p.as_str());
                        !(same || below)
                    },
                };
                if replace {
                    current_parent = Some(d.virtual_path_str().to_owned());
                }
            }
        }
        proof {
            assert(view_opt(current_parent) == collapse_parent_after(
                parent_view,
                ds0[i as int],
            ));
        }
        let keep = if is_cd {
            match &current_parent {
                None => true,
                Some(p) => !strict_descendant_exec(d.virtual_path_str(), p.as_str()),
            }
        } else {
            true
        };
        let ghost prev = out@;
        if keep {
            out.push(d);
        }
        proof {
            let p2 = collapse_parent_after(parent_view, ds0[i as int]);
            assert(keep == collapse_keeps(parent_view, ds0[i as int]));
            assert(spec_collapse_from(ds0, i as int, parent_view) == (if keep {
                seq![ds0[i as int]]
            } else {
                Seq::<Delta>::empty()
            }) + spec_collapse_from(ds0, i as int + 1, p2));
            if keep {
                assert(out@ =~= prev + seq![ds0[i as int]]);
            }
            assert(prev + spec_collapse_from(ds0, i as int, parent_view) =~= out@
                + spec_collapse_from(ds0, i as int + 1, p2));
        }
        i = i + 1;
    }
    proof {
        assert(spec_collapse_from(ds0, i as int, view_opt(current_parent)) =~= Seq::<
            Delta,
        >::empty());
        assert(out@ =~= spec_collapse_from(ds0, 0, None));
    }
    out
}

} // verus!
