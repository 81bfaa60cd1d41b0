//! Path-segment ordering, prefix tests and virtual-path computation.
//!
//! Virtual paths are compared segment-wise, not as raw strings: the
//! separator ranks below every other character, so `"/foo"` sorts before
//! `"/foo/bar"`, which sorts before `"/foo-bar"`. Under this order the
//! descendants of a directory form one contiguous run right after it,
//! which the report assembler's collapsing pass relies on.

use vstd::prelude::*;

verus! {

/// Rank of one character for path comparison: the separator sorts below
/// every other character.
pub open spec fn path_char_rank(c: char) -> int {
    if c == '/' {
        0
    } else {
        c as int + 1
    }
}

/// Segment-wise "less or equal" on paths: plain lexicographic order over
/// character ranks, where the separator ranks lowest.
pub open spec fn path_le(a: Seq<char>, b: Seq<char>) -> bool
    decreases a.len(),
{
    if a.len() == 0 {
        true
    } else if b.len() == 0 {
        false
    } else if path_char_rank(a[0]) < path_char_rank(b[0]) {
        true
    } else if path_char_rank(a[0]) > path_char_rank(b[0]) {
        false
    } else {
        path_le(a.skip(1), b.skip(1))
    }
}

/// Strict segment-wise order on paths.
pub open spec fn path_lt(a: Seq<char>, b: Seq<char>) -> bool {
    path_le(a, b) && a != b
}

/// Every path compares less-or-equal to itself.
pub proof fn lemma_path_le_refl(a: Seq<char>)
    ensures
        path_le(a, a),
    decreases a.len(),
{
    if a.len() > 0 {
        lemma_path_le_refl(a.skip(1));
    }
}

/// `path_le` is total: of two paths, one compares less-or-equal to the other.
pub proof fn lemma_path_le_total(a: Seq<char>, b: Seq<char>)
    ensures
        path_le(a, b) || path_le(b, a),
    decreases a.len(),
{
    if a.len() > 0 && b.len() > 0 && path_char_rank(a[0]) == path_char_rank(b[0]) {
        lemma_path_le_total(a.skip(1), b.skip(1));
    }
}

/// Distinct characters have distinct ranks.
pub proof fn lemma_path_char_rank_injective(x: char, y: char)
    requires
        path_char_rank(x) == path_char_rank(y),
    ensures
        x == y,
{
    if x == '/' {
        assert(y as int >= 0);
    } else if y == '/' {
        assert(x as int >= 0);
    } else {
        assert(x as int == y as int);
    }
}

/// `path_le` is antisymmetric: mutual less-or-equal means equality.
pub proof fn lemma_path_le_antisym(a: Seq<char>, b: Seq<char>)
    requires
        path_le(a, b),
        path_le(b, a),
    ensures
        a == b,
    decreases a.len(),
{
    if a.len() == 0 {
        assert(b.len() == 0);
        assert(a =~= b);
    } else {
        assert(path_char_rank(a[0]) == path_char_rank(b[0]));
        lemma_path_char_rank_injective(a[0], b[0]);
        lemma_path_le_antisym(a.skip(1), b.skip(1));
        assert forall|k: int| 0 <= k < a.len() implies a[k] == b[k] by {
            if k > 0 {
                assert(a.skip(1)[k - 1] == b.skip(1)[k - 1]);
            }
        }
        assert(a =~= b);
    }
}

/// `path_le` is transitive.
pub proof fn lemma_path_le_trans(a: Seq<char>, b: Seq<char>, c: Seq<char>)
    requires
        path_le(a, b),
        path_le(b, c),
    ensures
        path_le(a, c),
    decreases a.len(),
{
    if a.len() > 0 && b.len() > 0 && c.len() > 0 {
        if path_char_rank(a[0]) == path_char_rank(b[0]) && path_char_rank(b[0])
            == path_char_rank(c[0]) {
            lemma_path_le_trans(a.skip(1), b.skip(1), c.skip(1));
        }
    }
}

/// Strict order is transitive.
pub proof fn lemma_path_lt_trans(a: Seq<char>, b: Seq<char>, c: Seq<char>)
    requires
        path_lt(a, b),
        path_lt(b, c),
    ensures
        path_lt(a, c),
{
    lemma_path_le_trans(a, b, c);
    if a == c {
        lemma_path_le_antisym(b, c);
    }
}

/// Appending to both sides of an equal prefix does not change the order.
pub proof fn lemma_path_le_skip_prefix(a: Seq<char>, b: Seq<char>, i: int)
    requires
        0 <= i <= a.len(),
        0 <= i <= b.len(),
        forall|j: int| 0 <= j < i ==> a[j] == b[j],
    ensures
        path_le(a, b) == path_le(a.skip(i), b.skip(i)),
    decreases i,
{
    if i == 0 {
        assert(a.skip(0) =~= a);
        assert(b.skip(0) =~= b);
    } else {
        assert(a.len() > 0 && b.len() > 0);
        assert(a[0] == b[0]);
        assert(forall|j: int| 0 <= j < i - 1 ==> a.skip(1)[j] == b.skip(1)[j]);
        lemma_path_le_skip_prefix(a.skip(1), b.skip(1), i - 1);
        assert(a.skip(1).skip(i - 1) =~= a.skip(i));
        assert(b.skip(1).skip(i - 1) =~= b.skip(i));
    }
}

/// The rank of one character, executable.
fn path_char_rank_exec(c: char) -> (r: u32)
    ensures
        r == path_char_rank(c),
{
    if c == '/' {
        0
    } else {
        (c as u32) + 1
    }
}

/// Decides the segment-wise path order on two strings.
pub fn path_le_exec(a: &str, b: &str) -> (r: bool)
    ensures
        r == path_le(a@, b@),
{
    let a_len = a.unicode_len();
    let b_len = b.unicode_len();
    let min_len = if a_len < b_len {
        a_len
    } else {
        b_len
    };
    let mut i: usize = 0;
    while i < min_len
        invariant
            i <= min_len,
            min_len <= a_len,
            min_len <= b_len,
            min_len == a_len || min_len == b_len,
            a_len == a@.len(),
            b_len == b@.len(),
            forall|j: int| 0 <= j < i ==> a@[j] == b@[j],
        decreases min_len - i,
    {
        let ca = a.get_char(i);
        let cb = b.get_char(i);
        let ra = path_char_rank_exec(ca);
        let rb = path_char_rank_exec(cb);
        if ra < rb {
            proof {
                lemma_path_le_skip_prefix(a@, b@, i as int);
            }
            return true;
        }
        if ra > rb {
            proof {
                lemma_path_le_skip_prefix(a@, b@, i as int);
            }
            return false;
        }
        assert(ca == cb);
        i = i + 1;
    }
    proof {
        lemma_path_le_skip_prefix(a@, b@, i as int);
        if a_len <= b_len {
            assert(i == a_len);
            assert(a@.skip(i as int).len() == 0);
            assert(path_le(a@.skip(i as int), b@.skip(i as int)));
        } else {
            assert(i == b_len);
            assert(b@.skip(i as int).len() == 0);
            assert(a@.skip(i as int).len() > 0);
            assert(!path_le(a@.skip(i as int), b@.skip(i as int)));
        }
    }
    a_len <= b_len
}

/// Decides whether two strings hold the same characters.
pub fn str_chars_eq(a: &str, b: &str) -> (r: bool)
    ensures
        r == (a@ == b@),
{
    let a_len = a.unicode_len();
    let b_len = b.unicode_len();
    if a_len != b_len {
        return false;
    }
    let mut i: usize = 0;
    while i < a_len
        invariant
            i <= a_len,
            a_len == a@.len(),
            a_len == b@.len(),
            forall|j: int| 0 <= j < i ==> a@[j] == b@[j],
        decreases a_len - i,
    {
        if a.get_char(i) != b.get_char(i) {
            return false;
        }
        i = i + 1;
    }
    assert(a@ =~= b@);
    true
}

/// Decides the strict segment-wise path order on two strings.
pub fn path_lt_exec(a: &str, b: &str) -> (r: bool)
    ensures
        r == path_lt(a@, b@),
{
    let le = path_le_exec(a, b);
    if le {
        let eq = str_chars_eq(a, b);
        !eq
    } else {
        false
    }
}

/// `c` lies strictly below `p` in the tree: `p` is a proper
/// segment-wise prefix of `c`. The empty path is an ancestor of every
/// non-empty path.
pub open spec fn strict_descendant(c: Seq<char>, p: Seq<char>) -> bool {
    if p.len() == 0 {
        c.len() > 0
    } else {
        c.len() > p.len() && c.subrange(0, p.len() as int) == p && c[p.len() as int] == '/'
    }
}

/// Decides [`strict_descendant`] on two strings.
pub fn strict_descendant_exec(c: &str, p: &str) -> (r: bool)
    ensures
        r == strict_descendant(c@, p@),
{
    let c_len = c.unicode_len();
    let p_len = p.unicode_len();
    if p_len == 0 {
        return c_len > 0;
    }
    if c_len <= p_len {
        assert(!strict_descendant(c@, p@));
        return false;
    }
    let mut i: usize = 0;
    while i < p_len
        invariant
            i <= p_len,
            p_len == p@.len(),
            c_len == c@.len(),
            c_len > p_len,
            p_len > 0,
            forall|j: int| 0 <= j < i ==> c@[j] == p@[j],
        decreases p_len - i,
    {
        if c.get_char(i) != p.get_char(i) {
            assert(c@.subrange(0, p@.len() as int)[i as int] != p@[i as int]);
            return false;
        }
        i = i + 1;
    }
    assert(c@.subrange(0, p@.len() as int) =~= p@);
    let sep = c.get_char(p_len);
    sep == '/'
}

/// The record with parent directory `parent` falls under the configured
/// root `root`: the parent equals the root or lies below it. An empty
/// root matches everything, and a root with a trailing separator matches
/// exactly what it matches without one.
#[verifier::opaque]
pub open spec fn root_matches(parent: Seq<char>, root: Seq<char>) -> bool {
    ||| parent == root
    ||| root.len() == 0
    ||| (parent.len() > root.len() && parent.subrange(0, root.len() as int) == root && (root[
        root.len() - 1] == '/' || parent[root.len() as int] == '/'))
}

/// Decides [`root_matches`] on two strings.
pub fn root_matches_exec(parent: &str, root: &str) -> (r: bool)
    ensures
        r == root_matches(parent@, root@),
{
    proof {
        reveal(root_matches);
    }
    let root_len = root.unicode_len();
    if root_len == 0 {
        return true;
    }
    let parent_len = parent.unicode_len();
    if parent_len < root_len {
        assert(parent@ != root@);
        return false;
    }
    let mut i: usize = 0;
    while i < root_len
        invariant
            i <= root_len,
            root_len == root@.len(),
            parent_len == parent@.len(),
            parent_len >= root_len,
            root_len > 0,
            forall|j: int| 0 <= j < i ==> parent@[j] == root@[j],
        decreases root_len - i,
    {
        if parent.get_char(i) != root.get_char(i) {
            proof {
                reveal(root_matches);
                assert(parent@ != root@) by {
                    assert(parent@[i as int] != root@[i as int]);
                }
                assert(parent@.subrange(0, root@.len() as int)[i as int] != root@[i as int]);
            }
            return false;
        }
        i = i + 1;
    }
    if parent_len == root_len {
        assert(parent@ =~= root@);
        return true;
    }
    assert(parent@.subrange(0, root@.len() as int) =~= root@);
    let last = root.get_char(root_len - 1);
    if last == '/' {
        return true;
    }
    let sep = parent.get_char(root_len);
    if sep == '/' {
        return true;
    }
    assert(parent@ != root@);
    false
}

/// Joins a directory path and an entry name with a single separator,
/// adding none when the directory is empty or already ends in one.
pub open spec fn path_join(parent: Seq<char>, name: Seq<char>) -> Seq<char> {
    if parent.len() == 0 {
        name
    } else if parent[parent.len() - 1] == '/' {
        parent + name
    } else {
        parent + seq!['/'] + name
    }
}

/// Joins two path fragments, executable counterpart of [`path_join`].
pub fn path_join_exec(parent: &str, name: &str) -> (r: String)
    ensures
        r@ == path_join(parent@, name@),
{
    let parent_len = parent.unicode_len();
    if parent_len == 0 {
        return name.to_owned();
    }
    let last = parent.get_char(parent_len - 1);
    let mut out = parent.to_owned();
    if last != '/' {
        out.append("/");
        proof {
            reveal_strlit("/");
            assert(out@ =~= parent@ + seq!['/']);
        }
        out.append(name);
        proof {
            assert(out@ =~= parent@ + seq!['/'] + name@);
        }
        out
    } else {
        out.append(name);
        out
    }
}

/// Strips every leading separator from a path.
pub open spec fn chop_slashes(s: Seq<char>) -> Seq<char>
    decreases s.len(),
{
    if s.len() > 0 && s[0] == '/' {
        chop_slashes(s.skip(1))
    } else {
        s
    }
}

/// The virtual path of an entry: its absolute path with the root prefix
/// and the separator after it stripped.
#[verifier::opaque]
pub open spec fn virtual_path_of(root: Seq<char>, parent: Seq<char>, name: Seq<char>) -> Seq<
    char,
> {
    chop_slashes(path_join(parent, name).skip(root.len() as int))
}

/// Computes the virtual path of the entry `name` under directory
/// `parent`, relative to `root`.
pub fn virtual_path_exec(root: &str, parent: &str, name: &str) -> (r: String)
    requires
        root_matches(parent@, root@),
    ensures
        r@ == virtual_path_of(root@, parent@, name@),
{
    proof {
        reveal(virtual_path_of);
    }
    let full = path_join_exec(parent, name);
    let full_len = full.as_str().unicode_len();
    let root_len = root.unicode_len();
    proof {
        lemma_root_join_len(root@, parent@, name@);
    }
    let mut i: usize = root_len;
    while i < full_len && full.as_str().get_char(i) == '/'
        invariant
            root_len <= i <= full_len,
            full_len == full@.len(),
            root@.len() == root_len,
            chop_slashes(full@.skip(root_len as int)) == chop_slashes(full@.skip(i as int)),
        decreases full_len - i,
    {
        assert(full@.skip(i as int)[0] == '/');
        assert(full@.skip(i as int).skip(1) =~= full@.skip(i as int + 1));
        i = i + 1;
    }
    let rest = full.as_str().substring_char(i, full_len);
    proof {
        assert(rest@ =~= full@.skip(i as int));
        if i < full_len {
            assert(chop_slashes(full@.skip(i as int)) == full@.skip(i as int));
        } else {
            assert(full@.skip(i as int) =~= Seq::<char>::empty());
        }
    }
    rest.to_owned()
}

/// Stripping leading separators keeps a sequence whose last character
/// is no separator non-empty.
proof fn lemma_chop_keeps_tail(s: Seq<char>)
    requires
        s.len() > 0,
        s[s.len() - 1] != '/',
    ensures
        chop_slashes(s).len() > 0,
        chop_slashes(s)[chop_slashes(s).len() - 1] == s[s.len() - 1],
    decreases s.len(),
{
    if s[0] == '/' {
        assert(s.len() > 1);
        assert(s.skip(1)[s.skip(1).len() - 1] == s[s.len() - 1]);
        lemma_chop_keeps_tail(s.skip(1));
    }
}

/// An entry with a real name — non-empty, not ending in a separator —
/// never maps to an empty virtual path.
pub proof fn lemma_virtual_path_nonempty(root: Seq<char>, parent: Seq<char>, name: Seq<char>)
    requires
        root_matches(parent, root),
        name.len() > 0,
        name[name.len() - 1] != '/',
    ensures
        virtual_path_of(root, parent, name).len() > 0,
{
    reveal(root_matches);
    reveal(virtual_path_of);
    let full = path_join(parent, name);
    assert(full.len() > root.len() && full[full.len() - 1] == name[name.len() - 1]) by {
        if parent.len() == 0 {
            assert(full == name);
        } else if parent[parent.len() - 1] == '/' {
            assert(full == parent + name);
            assert(full[full.len() - 1] == name[name.len() - 1]);
        } else {
            assert(full == parent + seq!['/'] + name);
            assert(full[full.len() - 1] == name[name.len() - 1]);
        }
    }
    let rem = full.skip(root.len() as int);
    assert(rem.len() > 0);
    assert(rem[rem.len() - 1] == full[full.len() - 1]);
    lemma_chop_keeps_tail(rem);
}

/// Stripping leading separators from a sequence that starts with one
/// separator followed by none removes exactly that one.
proof fn lemma_chop_one(s: Seq<char>)
    requires
        s.len() > 0,
        s[0] == '/',
        s.len() == 1 || s[1] != '/',
    ensures
        chop_slashes(s) == s.skip(1),
{
    assert(chop_slashes(s) == chop_slashes(s.skip(1)));
    if s.len() == 1 {
        assert(s.skip(1) =~= Seq::<char>::empty());
        assert(chop_slashes(s.skip(1)) == s.skip(1));
    } else {
        assert(s.skip(1)[0] == s[1]);
        assert(chop_slashes(s.skip(1)) == s.skip(1));
    }
}

/// LAW: the virtual path round-trips. Re-joining a root with the
/// virtual path computed under it reproduces the entry's absolute path:
/// `root + "/" + virtual_path == parent + "/" + name`, modulo separator
/// normalization. This holds for paths in normal form: a root without a
/// trailing separator, a name without a leading one, and no doubled
/// separator where the parent continues past the root.
pub proof fn lemma_virtual_path_round_trip(root: Seq<char>, parent: Seq<char>, name: Seq<char>)
    requires
        root_matches(parent, root),
        root.len() > 0,
        root[root.len() - 1] != '/',
        name.len() == 0 || name[0] != '/',
        parent.len() > root.len() + 1 ==> parent[root.len() as int + 1] != '/',
    ensures
        path_join(root, virtual_path_of(root, parent, name)) == path_join(parent, name),
{
    reveal(root_matches);
    reveal(virtual_path_of);
    let rl = root.len() as int;
    let full = path_join(parent, name);
    let stripped = full.skip(rl);
    if parent == root {
        // The parent is the root itself: the full path is
        // root + '/' + name and the virtual path is the bare name.
        assert(full == parent + seq!['/'] + name);
        assert(stripped =~= seq!['/'] + name);
        assert(stripped.skip(1) =~= name);
        lemma_chop_one(stripped);
        assert(virtual_path_of(root, parent, name) == name);
        assert(path_join(root, name) =~= full);
    } else {
        assert(parent.len() > root.len());
        assert(parent.subrange(0, rl) == root);
        assert(parent[rl] == '/');
        if parent.len() == root.len() + 1 {
            // The parent is the root with one trailing separator.
            assert(parent =~= root + seq!['/']);
            assert(full == parent + name);
            assert(stripped =~= seq!['/'] + name);
            assert(stripped.skip(1) =~= name);
            lemma_chop_one(stripped);
            assert(path_join(root, name) =~= full);
        } else {
            // The parent continues below the root: the virtual path is
            // everything after the root's separator.
            assert(parent[rl + 1] != '/');
            if parent[parent.len() - 1] == '/' {
                assert(full == parent + name);
            } else {
                assert(full == parent + seq!['/'] + name);
            }
            assert(stripped[0] == parent[rl]);
            assert(stripped[1] == parent[rl + 1]);
            lemma_chop_one(stripped);
            let vp = stripped.skip(1);
            assert(virtual_path_of(root, parent, name) == vp);
            assert(vp.len() > 0 && vp[0] == parent[rl + 1]);
            assert(path_join(root, vp) == root + seq!['/'] + vp);
            assert(root + seq!['/'] + vp =~= full) by {
                assert forall|k: int| 0 <= k < full.len() implies (root + seq!['/'] + vp)[k]
                    == full[k] by {
                    if k < rl {
                        assert(full[k] == parent[k]);
                        assert(parent[k] == parent.subrange(0, rl)[k]);
                    } else if k == rl {
                        assert(full[k] == parent[rl]);
                    } else {
                        assert(vp[k - rl - 1] == stripped[k - rl] == full[k]);
                    }
                }
            }
        }
    }
}

/// A matching root never reaches past the joined path.
proof fn lemma_root_join_len(root: Seq<char>, parent: Seq<char>, name: Seq<char>)
    requires
        root_matches(parent, root),
    ensures
        root.len() <= path_join(parent, name).len(),
{
    reveal(root_matches);
}

} // verus!
