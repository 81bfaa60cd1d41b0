//! The delta engine: comparing two pools over the shared virtual-path
//! namespace.
//!
//! The two pools' key sets split the union of keys into three disjoint
//! parts — deletions (present only before), creations (present only
//! after) and the intersection — and the engine emits one classified
//! delta per key of the union, in ascending segment-wise path order.

use vstd::prelude::*;
use crate::attrs::AttributeSet;
use crate::delta::any_changed;
use crate::delta::Delta;
use crate::delta::DeltaType;
use crate::paths::path_lt;
use crate::paths::path_lt_exec;
use crate::paths::str_chars_eq;
use crate::paths::lemma_path_le_total;
use crate::paths::lemma_path_lt_trans;
use crate::pool::Pool;
use crate::pool::VirtualFsNode;

verus! {

/// The delta's sides are exactly the two pools' entries at its key: a
/// side is present exactly when the key is in that pool, and then holds
/// that pool's entry.
pub open spec fn delta_sides_ok(pa: Pool, pb: Pool, d: Delta) -> bool {
    let key = d.spec_virtual_path();
    &&& (pa.has_key(key) ==> d.spec_a() == Some(pa.entry_at(key)))
    &&& (!pa.has_key(key) ==> d.spec_a() is None)
    &&& (pb.has_key(key) ==> d.spec_b() == Some(pb.entry_at(key)))
    &&& (!pb.has_key(key) ==> d.spec_b() is None)
    &&& (pa.has_key(key) || pb.has_key(key))
}

/// The delta's classification matches which pools hold its key: deleted
/// when only the old pool does, created when only the new one does,
/// modified or unchanged when both do — unchanged exactly when no
/// selected attribute differs between the two entries.
pub open spec fn delta_class_ok(pa: Pool, pb: Pool, attrs: AttributeSet, d: Delta) -> bool {
    let key = d.spec_virtual_path();
    &&& (d.spec_delta_type() is Deletion <==> (pa.has_key(key) && !pb.has_key(key)))
    &&& (d.spec_delta_type() is Creation <==> (!pa.has_key(key) && pb.has_key(key)))
    &&& ((d.spec_delta_type() is Modification || d.spec_delta_type() is NoChange) <==> (
    pa.has_key(key) && pb.has_key(key)))
    &&& (d.spec_delta_type() is NoChange <==> (pa.has_key(key) && pb.has_key(key) && !any_changed(
        pa.entry_at(key).fs_node,
        pb.entry_at(key).fs_node,
        attrs,
    )))
}

/// Compares the two pools. `pool_a` is the old snapshot, `pool_b` the
/// new one. Emits one delta per virtual path of the union of the two key
/// sets, in ascending segment-wise path order, each classified under
/// `attr_types`.
#[verifier::rlimit(100)]
pub fn compare(pool_a: Pool, pool_b: Pool, attr_types: &AttributeSet) -> (r: Vec<Delta>)
    requires
        pool_a.wf(),
        pool_b.wf(),
    ensures
        forall|k: int|
            0 <= k < r@.len() ==> (#[trigger] r@[k]).wf() && r@[k].spec_attrs() == *attr_types,
        forall|k1: int, k2: int|
            0 <= k1 < k2 < r@.len() ==> path_lt(
                (#[trigger] r@[k1]).spec_virtual_path(),
                (#[trigger] r@[k2]).spec_virtual_path(),
            ),
        forall|k: int| 0 <= k < r@.len() ==> delta_sides_ok(pool_a, pool_b, #[trigger] r@[k]),
        forall|k: int|
            0 <= k < r@.len() ==> delta_class_ok(pool_a, pool_b, *attr_types, #[trigger] r@[k]),
        forall|i: int|
            0 <= i < pool_a.nodes@.len() ==> exists|k: int|
                0 <= k < r@.len() && (#[trigger] r@[k]).spec_virtual_path() == (
                #[trigger] pool_a.nodes@[i]).virtual_path@,
        forall|j: int|
            0 <= j < pool_b.nodes@.len() ==> exists|k: int|
                0 <= k < r@.len() && (#[trigger] r@[k]).spec_virtual_path() == (
                #[trigger] pool_b.nodes@[j]).virtual_path@,
{
    let ghost pa = pool_a;
    let ghost pb = pool_b;
    let mut an = pool_a.nodes;
    let mut bn = pool_b.nodes;
    let ghost ga = pa.nodes@;
    let ghost gb = pb.nodes@;
    let ghost mut ia: int = 0;
    let ghost mut jb: int = 0;
    let mut out: Vec<Delta> = Vec::new();
    while an.len() > 0 || bn.len() > 0
        invariant
            pa.wf(),
            pb.wf(),
            ga == pa.nodes@,
            gb == pb.nodes@,
            0 <= ia <= ga.len(),
            0 <= jb <= gb.len(),
            an@ == ga.skip(ia),
            bn@ == gb.skip(jb),
            forall|k: int|
                0 <= k < out@.len() ==> (#[trigger] out@[k]).wf() && out@[k].spec_attrs()
                    == *attr_types,
            forall|k1: int, k2: int|
                0 <= k1 < k2 < out@.len() ==> path_lt(
                    (#[trigger] out@[k1]).spec_virtual_path(),
                    (#[trigger] out@[k2]).spec_virtual_path(),
                ),
            forall|k: int|
                0 <= k < out@.len() && ia < ga.len() ==> path_lt(
                    (#[trigger] out@[k]).spec_virtual_path(),
                    ga[ia].virtual_path@,
                ),
            forall|k: int|
                0 <= k < out@.len() && jb < gb.len() ==> path_lt(
                    (#[trigger] out@[k]).spec_virtual_path(),
                    gb[jb].virtual_path@,
                ),
            forall|k: int| 0 <= k < out@.len() ==> delta_sides_ok(pa, pb, #[trigger] out@[k]),
            forall|i: int|
                0 <= i < ia ==> exists|k: int|
                    0 <= k < out@.len() && (#[trigger] out@[k]).spec_virtual_path() == (
                    #[trigger] ga[i]).virtual_path@,
            forall|j: int|
                0 <= j < jb ==> exists|k: int|
                    0 <= k < out@.len() && (#[trigger] out@[k]).spec_virtual_path() == (
                    #[trigger] gb[j]).virtual_path@,
        decreases an@.len() + bn@.len(),
    {
        let take_a: bool;
        let take_b: bool;
        if an.len() == 0 {
            take_a = false;
            take_b = true;
        } else if bn.len() == 0 {
            take_a = true;
            take_b = false;
        } else {
            proof {
                assert(an@[0] == ga[ia]);
                assert(bn@[0] == gb[jb]);
            }
            let a_lt = path_lt_exec(
                an[0].virtual_path.as_str(),
                bn[0].virtual_path.as_str(),
            );
            if a_lt {
                take_a = true;
                take_b = false;
            } else {
                let eq = str_chars_eq(an[0].virtual_path.as_str(), bn[0].virtual_path.as_str());
                if eq {
                    take_a = true;
                    take_b = true;
                } else {
                    proof {
                        lemma_path_le_total(an@[0].virtual_path@, bn@[0].virtual_path@);
                        assert(path_lt(gb[jb].virtual_path@, ga[ia].virtual_path@));
                    }
                    take_a = false;
                    take_b = true;
                }
            }
        }
        let va_opt: Option<VirtualFsNode> = if take_a {
            proof {
                assert(an@[0] == ga[ia]);
            }
            let va = an.remove(0);
            proof {
                assert(an@ =~= ga.skip(ia + 1));
            }
            Some(va)
        } else {
            None
        };
        let vb_opt: Option<VirtualFsNode> = if take_b {
            proof {
                assert(bn@[0] == gb[jb]);
            }
            let vb = bn.remove(0);
            proof {
                assert(bn@ =~= gb.skip(jb + 1));
            }
            Some(vb)
        } else {
            None
        };
        let ghost key = if take_a {
            ga[ia].virtual_path@
        } else {
            gb[jb].virtual_path@
        };
        proof {
            // The key taken from one side is absent from the other side
            // unless both were taken: everything already emitted from the
            // other side lies strictly below it, everything not yet
            // emitted lies strictly above it.
            if take_a && !take_b {
                assert(ia < ga.len());
                assert(key == ga[ia].virtual_path@);
                assert(!pb.has_key(key)) by {
                    if pb.has_key(key) {
                        let j = choose|j: int|
                            0 <= j < gb.len() && (#[trigger] gb[j]).virtual_path@ == key;
                        if j < jb {
                            let k = choose|k: int|
                                0 <= k < out@.len() && (#[trigger] out@[k]).spec_virtual_path()
                                    == gb[j].virtual_path@;
                            assert(path_lt(out@[k].spec_virtual_path(), ga[ia].virtual_path@));
                            assert(false);
                        } else {
                            assert(jb < gb.len());
                            assert(path_lt(key, gb[jb].virtual_path@));
                            if j == jb {
                                assert(false);
                            } else {
                                assert(path_lt(gb[jb].virtual_path@, gb[j].virtual_path@));
                                lemma_path_lt_trans(
                                    key,
                                    gb[jb].virtual_path@,
                                    gb[j].virtual_path@,
                                );
                                assert(false);
                            }
                        }
                    }
                }
                assert(pa.has_key(key));
                pa.lemma_entry_at(ia);
            }
            if take_b && !take_a {
                assert(jb < gb.len());
                assert(key == gb[jb].virtual_path@);
                assert(!pa.has_key(key)) by {
                    if pa.has_key(key) {
                        let i = choose|i: int|
                            0 <= i < ga.len() && (#[trigger] ga[i]).virtual_path@ == key;
                        if i < ia {
                            let k = choose|k: int|
                                0 <= k < out@.len() && (#[trigger] out@[k]).spec_virtual_path()
                                    == ga[i].virtual_path@;
                            assert(path_lt(out@[k].spec_virtual_path(), gb[jb].virtual_path@));
                            assert(false);
                        } else {
                            assert(ia < ga.len());
                            assert(path_lt(key, ga[ia].virtual_path@));
                            if i == ia {
                                assert(false);
                            } else {
                                assert(path_lt(ga[ia].virtual_path@, ga[i].virtual_path@));
                                lemma_path_lt_trans(
                                    key,
                                    ga[ia].virtual_path@,
                                    ga[i].virtual_path@,
                                );
                                assert(false);
                            }
                        }
                    }
                }
                assert(pb.has_key(key));
                pb.lemma_entry_at(jb);
            }
            if take_a && take_b {
                assert(pa.has_key(key));
                assert(pb.has_key(key));
                pa.lemma_entry_at(ia);
                pb.lemma_entry_at(jb);
            }
        }
        let ghost prev_out = out@;
        let delta = Delta::new(va_opt, vb_opt, attr_types);
        out.push(delta);
        proof {
            assert(out@[out@.len() - 1].spec_virtual_path() == key);
            let old_ia = ia;
            let old_jb = jb;
            if take_a {
                ia = ia + 1;
            }
            if take_b {
                jb = jb + 1;
            }
            // Order: the new delta's key lies strictly above every key
            // already emitted, and strictly below both frontiers.
            assert forall|k: int|
                0 <= k < out@.len() - 1 implies path_lt(
                (#[trigger] out@[k]).spec_virtual_path(),
                key,
            ) by {
                assert(out@[k] == prev_out[k]);
                if take_a {
                    assert(path_lt(out@[k].spec_virtual_path(), ga[old_ia].virtual_path@));
                } else {
                    assert(path_lt(out@[k].spec_virtual_path(), gb[old_jb].virtual_path@));
                }
            }
            assert forall|k: int|
                0 <= k < out@.len() && ia < ga.len() implies path_lt(
                (#[trigger] out@[k]).spec_virtual_path(),
                ga[ia].virtual_path@,
            ) by {
                if take_a {
                    assert(path_lt(ga[old_ia].virtual_path@, ga[ia].virtual_path@));
                }
                if k < out@.len() - 1 {
                    assert(out@[k] == prev_out[k]);
                    assert(path_lt(out@[k].spec_virtual_path(), key));
                    if take_a {
                        lemma_path_lt_trans(
                            out@[k].spec_virtual_path(),
                            key,
                            ga[ia].virtual_path@,
                        );
                    } else {
                        assert(path_lt(key, ga[ia].virtual_path@));
                        lemma_path_lt_trans(
                            out@[k].spec_virtual_path(),
                            key,
                            ga[ia].virtual_path@,
                        );
                    }
                } else {
                    if !take_a {
                        assert(path_lt(key, ga[ia].virtual_path@));
                    }
                }
            }
            assert forall|k: int|
                0 <= k < out@.len() && jb < gb.len() implies path_lt(
                (#[trigger] out@[k]).spec_virtual_path(),
                gb[jb].virtual_path@,
            ) by {
                if take_b {
                    assert(path_lt(gb[old_jb].virtual_path@, gb[jb].virtual_path@));
                }
                if k < out@.len() - 1 {
                    assert(out@[k] == prev_out[k]);
                    assert(path_lt(out@[k].spec_virtual_path(), key));
                    if take_b {
                        lemma_path_lt_trans(
                            out@[k].spec_virtual_path(),
                            key,
                            gb[jb].virtual_path@,
                        );
                    } else {
                        assert(path_lt(key, gb[jb].virtual_path@));
                        lemma_path_lt_trans(
                            out@[k].spec_virtual_path(),
                            key,
                            gb[jb].virtual_path@,
                        );
                    }
                } else {
                    if !take_b {
                        assert(path_lt(key, gb[jb].virtual_path@));
                    }
                }
            }
            assert forall|k1: int, k2: int|
                0 <= k1 < k2 < out@.len() implies path_lt(
                (#[trigger] out@[k1]).spec_virtual_path(),
                (#[trigger] out@[k2]).spec_virtual_path(),
            ) by {
                if k2 < out@.len() - 1 {
                    assert(out@[k1] == prev_out[k1] && out@[k2] == prev_out[k2]);
                } else {
                    assert(path_lt(out@[k1].spec_virtual_path(), key));
                }
            }
            assert forall|k: int|
                0 <= k < out@.len() implies delta_sides_ok(pa, pb, #[trigger] out@[k]) by {
                if k < out@.len() - 1 {
                    assert(out@[k] == prev_out[k]);
                }
            }
            assert forall|i: int|
                0 <= i < ia implies exists|k: int|
                0 <= k < out@.len() && (#[trigger] out@[k]).spec_virtual_path() == (
                #[trigger] ga[i]).virtual_path@ by {
                if i < old_ia {
                    let k = choose|k: int|
                        0 <= k < prev_out.len() && (#[trigger] prev_out[k]).spec_virtual_path()
                            == ga[i].virtual_path@;
                    assert(out@[k].spec_virtual_path() == ga[i].virtual_path@);
                } else {
                    assert(out@[out@.len() - 1].spec_virtual_path() == ga[i].virtual_path@);
                }
            }
            assert forall|j: int|
                0 <= j < jb implies exists|k: int|
                0 <= k < out@.len() && (#[trigger] out@[k]).spec_virtual_path() == (
                #[trigger] gb[j]).virtual_path@ by {
                if j < old_jb {
                    let k = choose|k: int|
                        0 <= k < prev_out.len() && (#[trigger] prev_out[k]).spec_virtual_path()
                            == gb[j].virtual_path@;
                    assert(out@[k].spec_virtual_path() == gb[j].virtual_path@);
                } else {
                    assert(out@[out@.len() - 1].spec_virtual_path() == gb[j].virtual_path@);
                }
            }
        }
    }
    proof {
        assert(ia == ga.len() && jb == gb.len());
        assert forall|k: int|
            0 <= k < out@.len() implies delta_class_ok(pa, pb, *attr_types, #[trigger] out@[k]) by {
            let d = out@[k];
            let key = d.spec_virtual_path();
            assert(delta_sides_ok(pa, pb, d));
            assert(d.wf());
        }
    }
    out
}

/// Two finite disjoint sets unite into one of the combined size.
proof fn lemma_len_disjoint_union<A>(s1: Set<A>, s2: Set<A>)
    requires
        s1.finite(),
        s2.finite(),
        s1.disjoint(s2),
    ensures
        s1.union(s2).finite(),
        s1.union(s2).len() == s1.len() + s2.len(),
    decreases s1.len(),
{
    if s1.is_empty() {
        assert(s1.union(s2) =~= s2);
    } else {
        let a = s1.choose();
        assert(s1.remove(a).disjoint(s2));
        lemma_len_disjoint_union(s1.remove(a), s2);
        assert(s1.remove(a).union(s2) =~= s1.union(s2).remove(a));
        assert(s1.union(s2).contains(a));
        assert(s1.union(s2).remove(a).insert(a) =~= s1.union(s2));
    }
}

/// A well-formed pool's key set is finite and has exactly one key per
/// entry.
pub proof fn lemma_pool_key_set(p: Pool)
    requires
        p.wf(),
    ensures
        p.key_set().finite(),
        p.key_set().len() == p.nodes@.len(),
{
    broadcast use vstd::seq_lib::seq_to_set_is_finite;

    assert(p.key_set() =~= p.keys().to_set()) by {
        assert forall|k: Seq<char>| p.key_set().contains(k) implies p.keys().to_set().contains(
            k,
        ) by {
            let i = choose|i: int|
                0 <= i < p.nodes@.len() && (#[trigger] p.nodes@[i]).virtual_path@ == k;
            assert(p.keys()[i] == k);
        }
        assert forall|k: Seq<char>| p.keys().to_set().contains(k) implies p.key_set().contains(
            k,
        ) by {
            let i = choose|i: int| 0 <= i < p.keys().len() && p.keys()[i] == k;
            assert(p.nodes@[i].virtual_path@ == k);
        }
    }
    assert(p.keys().no_duplicates()) by {
        assert forall|i: int, j: int|
            0 <= i < p.keys().len() && 0 <= j < p.keys().len() && i != j implies p.keys()[i]
            != p.keys()[j] by {
            if i < j {
                assert(path_lt(p.nodes@[i].virtual_path@, p.nodes@[j].virtual_path@));
            } else {
                assert(path_lt(p.nodes@[j].virtual_path@, p.nodes@[i].virtual_path@));
            }
        }
    }
    p.keys().unique_seq_to_set();
}

/// LAW: for any two pools' key sets, the deletions (keys only in the old
/// pool), the creations (keys only in the new pool) and the intersection
/// are pairwise disjoint, together cover exactly the union of the key
/// sets, and their sizes add up to the union's size.
pub proof fn lemma_delta_partition(ka: Set<Seq<char>>, kb: Set<Seq<char>>)
    requires
        ka.finite(),
        kb.finite(),
    ensures
        ka.difference(kb).disjoint(kb.difference(ka)),
        ka.difference(kb).disjoint(ka.intersect(kb)),
        kb.difference(ka).disjoint(ka.intersect(kb)),
        ka.difference(kb).union(kb.difference(ka)).union(ka.intersect(kb)) == ka.union(kb),
        ka.difference(kb).len() + kb.difference(ka).len() + ka.intersect(kb).len() == ka.union(
            kb,
        ).len(),
{
    let d = ka.difference(kb);
    let c = kb.difference(ka);
    let i = ka.intersect(kb);
    assert(d.union(c).union(i) =~= ka.union(kb));
    vstd::set_lib::lemma_len_subset(d, ka);
    vstd::set_lib::lemma_len_subset(c, kb);
    vstd::set_lib::lemma_len_subset(i, ka);
    lemma_len_disjoint_union(d, c);
    assert(d.union(c).disjoint(i));
    lemma_len_disjoint_union(d.union(c), i);
}

/// LAW: comparing a snapshot against itself finds no drift. Whenever
/// every delta of a comparison carries the same entry on both sides —
/// as `compare`'s contract guarantees when both arguments are the same
/// pool — every delta is classified `NoChange`, under any attribute set.
pub proof fn lemma_compare_self_unchanged(attrs: AttributeSet, r: Seq<Delta>)
    requires
        forall|k: int| 0 <= k < r.len() ==> (#[trigger] r[k]).wf(),
        forall|k: int| 0 <= k < r.len() ==> (#[trigger] r[k]).spec_a() == r[k].spec_b(),
    ensures
        forall|k: int| 0 <= k < r.len() ==> (#[trigger] r[k]).spec_delta_type() is NoChange,
{
    assert forall|k: int| 0 <= k < r.len() implies (#[trigger] r[k]).spec_delta_type()
        is NoChange by {
        let d = r[k];
        match (d.spec_a(), d.spec_b()) {
            (Some(va), Some(vb)) => {
                assert(va == vb);
                assert(!any_changed(va.fs_node, vb.fs_node, d.spec_attrs()));
            },
            _ => {},
        }
    }
}

} // verus!
