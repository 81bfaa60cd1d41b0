//! Classified differences at one virtual path, and the change
//! descriptions attached to a modification.

use vstd::prelude::*;
use crate::attrs::AttributeSet;
use crate::fs_node::FsNode;
use crate::perms::spec_perm_string;
use crate::perms::Permission;
use crate::pool::VirtualFsNode;
use crate::strutil::i64_to_string;
use crate::strutil::u32_to_string;
use crate::strutil::spec_int_string;
use crate::strutil::spec_dec_string;
use crate::strutil::spec_join;
use crate::strutil::join_strings;
use chrono::TimeZone;

verus! {

/// The classification of one virtual path across the two snapshots:
/// present only after, only before, in both with listed field changes,
/// or in both unchanged.
#[derive(Debug, PartialEq, Eq)]
pub enum DeltaType {
    Creation,
    Deletion,
    Modification(Vec<String>),
    NoChange,
}

impl DeltaType {
    /// The classification tag a report row is styled with.
    pub open spec fn spec_css_class(self) -> Seq<char> {
        match self {
            DeltaType::Creation => "creation"@,
            DeltaType::Deletion => "deletion"@,
            DeltaType::Modification(_) => "modification"@,
            DeltaType::NoChange => "no-change"@,
        }
    }

    /// The classification tag a report row is styled with.
    pub fn css_class(&self) -> (r: &'static str)
        ensures
            r@ == self.spec_css_class(),
    {
        match self {
            DeltaType::Creation => "creation",
            DeltaType::Deletion => "deletion",
            DeltaType::Modification(_) => "modification",
            DeltaType::NoChange => "no-change",
        }
    }

    /// True exactly for `Creation` and `Deletion`.
    pub fn is_created_or_deleted(&self) -> (r: bool)
        ensures
            r == (self is Creation || self is Deletion),
    {
        match self {
            DeltaType::Creation | DeltaType::Deletion => true,
            _ => false,
        }
    }

    /// True exactly for `NoChange`.
    pub fn is_unchanged(&self) -> (r: bool)
        ensures
            r == (self is NoChange),
    {
        match self {
            DeltaType::NoChange => true,
            _ => false,
        }
    }
}

/// The views of a sequence of strings.
pub open spec fn string_views(v: Seq<String>) -> Seq<Seq<char>> {
    v.map_values(|s: String| s@)
}

/// Some field selected by `t` differs between the two records.
pub open spec fn any_changed(a: FsNode, b: FsNode, t: AttributeSet) -> bool {
    ||| (t.size && a.size != b.size)
    ||| (t.node_type && a.node_type != b.node_type)
    ||| (t.user && a.uid != b.uid)
    ||| (t.group && a.gid != b.gid)
    ||| (t.permissions && a.permissions != b.permissions)
    ||| (t.creation_date && a.creation_date != b.creation_date)
    ||| (t.modified_date && a.modified_date != b.modified_date)
    ||| (t.links_to && a.links_to@ != b.links_to@)
    ||| (t.checksum && a.sha1_checksum@ != b.sha1_checksum@)
    ||| (t.inode && a.inode != b.inode)
    ||| (t.nlinks && a.nlinks != b.nlinks)
}

/// One change line when the condition holds, nothing otherwise.
pub open spec fn opt_line(cond: bool, line: Seq<char>) -> Seq<Seq<char>> {
    if cond {
        seq![line]
    } else {
        Seq::<Seq<char>>::empty()
    }
}

/// An `old -> new` change line under the given label.
pub open spec fn change_line(label: Seq<char>, old_v: Seq<char>, new_v: Seq<char>) -> Seq<char> {
    label + old_v + " -> "@ + new_v
}

/// The first five change lines: size, type, owner, group, permissions.
pub open spec fn mod_descs_front(a: FsNode, b: FsNode, t: AttributeSet) -> Seq<Seq<char>> {
    opt_line(
        t.size && a.size != b.size,
        change_line("size: "@, spec_int_string(a.size as int), spec_int_string(b.size as int)),
    ) + opt_line(
        t.node_type && a.node_type != b.node_type,
        change_line("type: "@, a.node_type.spec_display_name(), b.node_type.spec_display_name()),
    ) + opt_line(
        t.user && a.uid != b.uid,
        change_line("uid: "@, spec_dec_string(a.uid as int), spec_dec_string(b.uid as int)),
    ) + opt_line(
        t.group && a.gid != b.gid,
        change_line("gid: "@, spec_dec_string(a.gid as int), spec_dec_string(b.gid as int)),
    ) + opt_line(
        t.permissions && a.permissions != b.permissions,
        change_line("perms: "@, spec_perm_string(a.permissions), spec_perm_string(b.permissions)),
    )
}

/// The two date change lines, over the rendered local times.
pub open spec fn mod_descs_dates(
    a: FsNode,
    b: FsNode,
    t: AttributeSet,
    ca: Seq<char>,
    cb: Seq<char>,
    ma: Seq<char>,
    mb: Seq<char>,
) -> Seq<Seq<char>> {
    opt_line(
        t.creation_date && a.creation_date != b.creation_date,
        change_line("date created: "@, ca, cb),
    ) + opt_line(
        t.modified_date && a.modified_date != b.modified_date,
        change_line("date modified: "@, ma, mb),
    )
}

/// The last four change lines: symlink target, checksum, inode,
/// hard-link count.
pub open spec fn mod_descs_back(a: FsNode, b: FsNode, t: AttributeSet) -> Seq<Seq<char>> {
    opt_line(
        t.links_to && a.links_to@ != b.links_to@,
        change_line("symlink to: "@, a.links_to@, b.links_to@),
    ) + opt_line(
        t.checksum && a.sha1_checksum@ != b.sha1_checksum@,
        change_line("sha1: "@, a.sha1_checksum@, b.sha1_checksum@),
    ) + opt_line(
        t.inode && a.inode != b.inode,
        change_line("inode: "@, spec_int_string(a.inode as int), spec_int_string(b.inode as int)),
    ) + opt_line(
        t.nlinks && a.nlinks != b.nlinks,
        change_line(
            "hardlink count: "@,
            spec_int_string(a.nlinks as int),
            spec_int_string(b.nlinks as int),
        ),
    )
}

/// The ordered change descriptions between two records under an
/// attribute set: one `old -> new` line per selected field that differs,
/// in the fixed field order. The rendered local times of the two
/// creation dates (`ca`, `cb`) and modification dates (`ma`, `mb`) are
/// passed in, since rendering them depends on the machine's time zone.
pub open spec fn mod_descs(
    a: FsNode,
    b: FsNode,
    t: AttributeSet,
    ca: Seq<char>,
    cb: Seq<char>,
    ma: Seq<char>,
    mb: Seq<char>,
) -> Seq<Seq<char>> {
    mod_descs_front(a, b, t) + mod_descs_dates(a, b, t, ca, cb, ma, mb) + mod_descs_back(a, b, t)
}

/// The change descriptions do not depend on the rendered times when no
/// selected date field differs.
pub proof fn lemma_mod_descs_time_independent(
    a: FsNode,
    b: FsNode,
    t: AttributeSet,
    ca1: Seq<char>,
    cb1: Seq<char>,
    ma1: Seq<char>,
    mb1: Seq<char>,
    ca2: Seq<char>,
    cb2: Seq<char>,
    ma2: Seq<char>,
    mb2: Seq<char>,
)
    requires
        !(t.creation_date && a.creation_date != b.creation_date),
        !(t.modified_date && a.modified_date != b.modified_date),
    ensures
        mod_descs(a, b, t, ca1, cb1, ma1, mb1) == mod_descs(a, b, t, ca2, cb2, ma2, mb2),
{
    assert(mod_descs(a, b, t, ca1, cb1, ma1, mb1) =~= mod_descs(a, b, t, ca2, cb2, ma2, mb2));
}

/// Builds an `old -> new` change line under the given label.
fn change_line_exec(label: &str, old_v: &str, new_v: &str) -> (r: String)
    ensures
        r@ == change_line(label@, old_v@, new_v@),
{
    let mut s = String::from_str(label);
    s.append(old_v);
    s.append(" -> ");
    s.append(new_v);
    assert(s@ =~= change_line(label@, old_v@, new_v@));
    s
}

/// Relies on `chrono::TimeZone::timestamp_opt` on `chrono::Local`, and
/// on the `Display` of `chrono::DateTime`: renders the timestamp in the
/// machine's local time zone (empty when the timestamp is out of
/// chrono's range). The result depends on the machine's time zone, so
/// nothing is promised of it.
#[verifier::external_body]
fn local_time_string(secs: i64) -> String {
    match chrono::Local.timestamp_opt(secs, 0) {
        chrono::LocalResult::Single(dt) => dt.to_string(),
        chrono::LocalResult::Ambiguous(dt, _) => dt.to_string(),
        chrono::LocalResult::None => String::new(),
    }
}

/// Computes the ordered change descriptions between two records, taking
/// the four rendered date strings as arguments: exact for every input.
/// Computes the first five change lines.
fn modifications_front(a: &FsNode, b: &FsNode, t: &AttributeSet) -> (r: Vec<String>)
    ensures
        string_views(r@) == mod_descs_front(*a, *b, *t),
{
    let mut out: Vec<String> = Vec::new();
    let ghost mut acc: Seq<Seq<char>> = Seq::<Seq<char>>::empty();
    assert(string_views(out@) =~= acc);
    if t.size && a.size != b.size {
        let line = change_line_exec(
            "size: ",
            i64_to_string(a.size).as_str(),
            i64_to_string(b.size).as_str(),
        );
        out.push(line);
    }
    proof {
        acc = acc + opt_line(
            t.size && a.size != b.size,
            change_line("size: "@, spec_int_string(a.size as int), spec_int_string(b.size as int)),
        );
        assert(string_views(out@) =~= acc);
    }
    if t.node_type && a.node_type != b.node_type {
        let line = change_line_exec("type: ", a.node_type.display_name(), b.node_type.display_name());
        out.push(line);
    }
    proof {
        acc = acc + opt_line(
            t.node_type && a.node_type != b.node_type,
            change_line("type: "@, a.node_type.spec_display_name(), b.node_type.spec_display_name()),
        );
        assert(string_views(out@) =~= acc);
    }
    if t.user && a.uid != b.uid {
        let line = change_line_exec(
            "uid: ",
            u32_to_string(a.uid).as_str(),
            u32_to_string(b.uid).as_str(),
        );
        out.push(line);
    }
    proof {
        acc = acc + opt_line(
            t.user && a.uid != b.uid,
            change_line("uid: "@, spec_dec_string(a.uid as int), spec_dec_string(b.uid as int)),
        );
        assert(string_views(out@) =~= acc);
    }
    if t.group && a.gid != b.gid {
        let line = change_line_exec(
            "gid: ",
            u32_to_string(a.gid).as_str(),
            u32_to_string(b.gid).as_str(),
        );
        out.push(line);
    }
    proof {
        acc = acc + opt_line(
            t.group && a.gid != b.gid,
            change_line("gid: "@, spec_dec_string(a.gid as int), spec_dec_string(b.gid as int)),
        );
        assert(string_views(out@) =~= acc);
    }
    if t.permissions && a.permissions != b.permissions {
        let line = change_line_exec(
            "perms: ",
            Permission::from_val(a.permissions).as_str(),
            Permission::from_val(b.permissions).as_str(),
        );
        out.push(line);
    }
    proof {
        acc = acc + opt_line(
            t.permissions && a.permissions != b.permissions,
            change_line("perms: "@, spec_perm_string(a.permissions), spec_perm_string(b.permissions)),
        );
        assert(string_views(out@) =~= acc);
        assert(acc == mod_descs_front(*a, *b, *t));
    }
    out
}

/// Computes the two date change lines from the rendered local times.
fn modifications_dates(
    a: &FsNode,
    b: &FsNode,
    t: &AttributeSet,
    ca: &str,
    cb: &str,
    ma: &str,
    mb: &str,
) -> (r: Vec<String>)
    ensures
        string_views(r@) == mod_descs_dates(*a, *b, *t, ca@, cb@, ma@, mb@),
{
    let mut out: Vec<String> = Vec::new();
    let ghost mut acc: Seq<Seq<char>> = Seq::<Seq<char>>::empty();
    assert(string_views(out@) =~= acc);
    if t.creation_date && a.creation_date != b.creation_date {
        let line = change_line_exec("date created: ", ca, cb);
        out.push(line);
    }
    proof {
        acc = acc + opt_line(
            t.creation_date && a.creation_date != b.creation_date,
            change_line("date created: "@, ca@, cb@),
        );
        assert(string_views(out@) =~= acc);
    }
    if t.modified_date && a.modified_date != b.modified_date {
        let line = change_line_exec("date modified: ", ma, mb);
        out.push(line);
    }
    proof {
        acc = acc + opt_line(
            t.modified_date && a.modified_date != b.modified_date,
            change_line("date modified: "@, ma@, mb@),
        );
        assert(string_views(out@) =~= acc);
        assert(acc == mod_descs_dates(*a, *b, *t, ca@, cb@, ma@, mb@));
    }
    out
}

/// Computes the last four change lines.
fn modifications_back(a: &FsNode, b: &FsNode, t: &AttributeSet) -> (r: Vec<String>)
    ensures
        string_views(r@) == mod_descs_back(*a, *b, *t),
{
    let mut out: Vec<String> = Vec::new();
    let ghost mut acc: Seq<Seq<char>> = Seq::<Seq<char>>::empty();
    assert(string_views(out@) =~= acc);
    if t.links_to && !str_eq_strings(&a.links_to, &b.links_to) {
        let line = change_line_exec("symlink to: ", a.links_to.as_str(), b.links_to.as_str());
        out.push(line);
    }
    proof {
        acc = acc + opt_line(
            t.links_to && a.links_to@ != b.links_to@,
            change_line("symlink to: "@, a.links_to@, b.links_to@),
        );
        assert(string_views(out@) =~= acc);
    }
    if t.checksum && !str_eq_strings(&a.sha1_checksum, &b.sha1_checksum) {
        let line = change_line_exec("sha1: ", a.sha1_checksum.as_str(), b.sha1_checksum.as_str());
        out.push(line);
    }
    proof {
        acc = acc + opt_line(
            t.checksum && a.sha1_checksum@ != b.sha1_checksum@,
            change_line("sha1: "@, a.sha1_checksum@, b.sha1_checksum@),
        );
        assert(string_views(out@) =~= acc);
    }
    if t.inode && a.inode != b.inode {
        let line = change_line_exec(
            "inode: ",
            i64_to_string(a.inode).as_str(),
            i64_to_string(b.inode).as_str(),
        );
        out.push(line);
    }
    proof {
        acc = acc + opt_line(
            t.inode && a.inode != b.inode,
            change_line("inode: "@, spec_int_string(a.inode as int), spec_int_string(b.inode as int)),
        );
        assert(string_views(out@) =~= acc);
    }
    if t.nlinks && a.nlinks != b.nlinks {
        let line = change_line_exec(
            "hardlink count: ",
            i64_to_string(a.nlinks).as_str(),
            i64_to_string(b.nlinks).as_str(),
        );
        out.push(line);
    }
    proof {
        acc = acc + opt_line(
            t.nlinks && a.nlinks != b.nlinks,
            change_line(
                "hardlink count: "@,
                spec_int_string(a.nlinks as int),
                spec_int_string(b.nlinks as int),
            ),
        );
        assert(string_views(out@) =~= acc);
        assert(acc == mod_descs_back(*a, *b, *t));
    }
    out
}

/// Computes the ordered change descriptions between two records, taking
/// the four rendered date strings as arguments: exact for every input.
pub fn modifications_with(
    a: &FsNode,
    b: &FsNode,
    t: &AttributeSet,
    ca: &str,
    cb: &str,
    ma: &str,
    mb: &str,
) -> (r: Vec<String>)
    ensures
        string_views(r@) == mod_descs(*a, *b, *t, ca@, cb@, ma@, mb@),
        (r@.len() == 0) == !any_changed(*a, *b, *t),
{
    let mut out = modifications_front(a, b, t);
    let mut dates = modifications_dates(a, b, t, ca, cb, ma, mb);
    let mut back = modifications_back(a, b, t);
    let ghost front_views = string_views(out@);
    let ghost date_views = string_views(dates@);
    let ghost back_views = string_views(back@);
    out.append(&mut dates);
    out.append(&mut back);
    proof {
        assert(string_views(out@) =~= front_views + date_views + back_views);
        assert(mod_descs_front(*a, *b, *t).len() == 0 ==> !(t.size && a.size != b.size));
        assert((string_views(out@).len() == 0) == !any_changed(*a, *b, *t));
    }
    out
}

/// Decides whether two strings hold the same characters.
fn str_eq_strings(a: &String, b: &String) -> (r: bool)
    ensures
        r == (a@ == b@),
{
    a.eq(b)
}

/// The result of comparing one virtual path across the two snapshots:
/// the side present before (`a`), the side present after (`b`) — at most
/// one absent — and the classification.
#[derive(Debug)]
pub struct Delta {
    delta_type: DeltaType,
    delta_trigger_attrs: AttributeSet,
    a: Option<VirtualFsNode>,
    b: Option<VirtualFsNode>,
}

impl Delta {
    /// The side present before, if any.
    pub closed spec fn spec_a(self) -> Option<VirtualFsNode> {
        self.a
    }

    /// The side present after, if any.
    pub closed spec fn spec_b(self) -> Option<VirtualFsNode> {
        self.b
    }

    /// The classification.
    pub closed spec fn spec_delta_type(self) -> DeltaType {
        self.delta_type
    }

    /// The attribute set the classification was made under.
    pub closed spec fn spec_attrs(self) -> AttributeSet {
        self.delta_trigger_attrs
    }

    /// The virtual path this delta speaks of, the newer (`b`) side
    /// preferred when both exist.
    pub open spec fn spec_virtual_path(self) -> Seq<char> {
        match self.spec_b() {
            Some(vb) => vb.virtual_path@,
            None => self.spec_a().unwrap().virtual_path@,
        }
    }

    /// The root this delta's entry was discovered under, the newer (`b`)
    /// side preferred when both exist.
    pub open spec fn spec_root(self) -> Seq<char> {
        match self.spec_b() {
            Some(vb) => vb.root@,
            None => self.spec_a().unwrap().root@,
        }
    }

    /// The classification agrees with which sides are present and, for
    /// the both-present case, with the attribute comparison: deleted
    /// when only the old side exists, created when only the new side
    /// exists, modified (with the exact change lines, up to the rendered
    /// dates) or unchanged otherwise.
    pub open spec fn classified(self) -> bool {
        match (self.spec_a(), self.spec_b()) {
            (Some(va), None) => self.spec_delta_type() is Deletion,
            (None, Some(vb)) => self.spec_delta_type() is Creation,
            (Some(va), Some(vb)) => {
                if any_changed(va.fs_node, vb.fs_node, self.spec_attrs()) {
                    &&& self.spec_delta_type() matches DeltaType::Modification(l)
                    &&& l@.len() > 0
                    &&& exists|ca: Seq<char>, cb: Seq<char>, ma: Seq<char>, mb: Seq<char>|
                        string_views(l@) == mod_descs(
                            va.fs_node,
                            vb.fs_node,
                            self.spec_attrs(),
                            ca,
                            cb,
                            ma,
                            mb,
                        )
                } else {
                    self.spec_delta_type() is NoChange
                }
            },
            (None, None) => false,
        }
    }

    /// At least one side present, both sides well formed, and the
    /// classification made.
    pub open spec fn wf(self) -> bool {
        &&& (self.spec_a() is Some || self.spec_b() is Some)
        &&& (self.spec_a() matches Some(va) ==> va.wf())
        &&& (self.spec_b() matches Some(vb) ==> vb.wf())
        &&& self.classified()
    }

    /// Classifies one virtual path from its two sides; `a` is the old
    /// snapshot's side, `b` the new one's, at most one of them absent.
    /// `delta_trigger_attrs` selects which field changes count as a
    /// modification.
    pub fn new(
        a: Option<VirtualFsNode>,
        b: Option<VirtualFsNode>,
        delta_trigger_attrs: &AttributeSet,
    ) -> (r: Delta)
        requires
            a is Some || b is Some,
            (a matches Some(va) ==> va.wf()),
            (b matches Some(vb) ==> vb.wf()),
        ensures
            r.spec_a() == a,
            r.spec_b() == b,
            r.spec_attrs() == *delta_trigger_attrs,
            r.wf(),
    {
        let delta_type = match (&a, &b) {
            (Some(_), None) => DeltaType::Deletion,
            (None, Some(_)) => DeltaType::Creation,
            (Some(va), Some(vb)) => {
                let descs = modifications_inner(&va.fs_node, &vb.fs_node, delta_trigger_attrs);
                if descs.len() == 0 {
                    DeltaType::NoChange
                } else {
                    DeltaType::Modification(descs)
                }
            },
            (None, None) => unreached(),
        };
        Delta { delta_type, delta_trigger_attrs: *delta_trigger_attrs, a, b }
    }

    /// The classification.
    pub fn delta_type(&self) -> (r: &DeltaType)
        ensures
            r == self.spec_delta_type(),
    {
        &self.delta_type
    }

    /// The root this delta's entry was discovered under: never empty,
    /// since every pool root is a non-empty prefix.
    pub fn root_path_str(&self) -> (r: &str)
        requires
            self.wf(),
        ensures
            r@ == self.spec_root(),
            r@.len() > 0,
    {
        match &self.b {
            Some(vb) => vb.root.as_str(),
            None => match &self.a {
                Some(va) => va.root.as_str(),
                None => unreached(),
            },
        }
    }

    /// The virtual path this delta speaks of: never empty, since every
    /// pool key is the non-empty stripped path of a real entry.
    pub fn virtual_path_str(&self) -> (r: &str)
        requires
            self.wf(),
        ensures
            r@ == self.spec_virtual_path(),
            r@.len() > 0,
    {
        match &self.b {
            Some(vb) => vb.virtual_path.as_str(),
            None => match &self.a {
                Some(va) => va.virtual_path.as_str(),
                None => unreached(),
            },
        }
    }

    /// The kind of the underlying entry: the new side's for a creation,
    /// the old side's otherwise.
    pub open spec fn spec_file_type(self) -> crate::fs_node::NodeType {
        match self.spec_delta_type() {
            DeltaType::Creation => self.spec_b().unwrap().fs_node.node_type,
            _ => self.spec_a().unwrap().fs_node.node_type,
        }
    }

    /// The kind of the underlying entry: the new side's for a creation,
    /// the old side's otherwise.
    pub fn file_type(&self) -> (r: crate::fs_node::NodeType)
        requires
            self.wf(),
        ensures
            r == self.spec_file_type(),
    {
        match &self.delta_type {
            DeltaType::Creation => {
                match &self.b {
                    Some(vb) => vb.fs_node.node_type,
                    None => unreached(),
                }
            },
            _ => {
                match &self.a {
                    Some(va) => va.fs_node.node_type,
                    None => unreached(),
                }
            },
        }
    }

    /// The stable one-line summary of this delta: empty for no change, a
    /// fixed marker for a creation or deletion, the joined change lines
    /// for a modification.
    pub open spec fn spec_delta_info(self) -> Seq<char> {
        match self.spec_delta_type() {
            DeltaType::NoChange => Seq::<char>::empty(),
            DeltaType::Creation => "[creation]"@,
            DeltaType::Deletion => "[deletion]"@,
            DeltaType::Modification(changes) => spec_join(string_views(changes@), ", "@),
        }
    }

    /// The stable one-line summary of this delta.
    pub fn delta_info(&self) -> (r: String)
        ensures
            r@ == self.spec_delta_info(),
    {
        match &self.delta_type {
            DeltaType::NoChange => String::new(),
            DeltaType::Creation => String::from_str("[creation]"),
            DeltaType::Deletion => String::from_str("[deletion]"),
            DeltaType::Modification(changes) => join_strings(changes, ", "),
        }
    }

    /// The change lines between the two sides, both of which must be
    /// present: exact up to the rendered local times of the date fields.
    pub fn modifications(&self) -> (r: Vec<String>)
        requires
            self.spec_a() is Some,
            self.spec_b() is Some,
        ensures
            exists|ca: Seq<char>, cb: Seq<char>, ma: Seq<char>, mb: Seq<char>|
                string_views(r@) == mod_descs(
                    self.spec_a().unwrap().fs_node,
                    self.spec_b().unwrap().fs_node,
                    self.spec_attrs(),
                    ca,
                    cb,
                    ma,
                    mb,
                ),
            (r@.len() == 0) == !any_changed(
                self.spec_a().unwrap().fs_node,
                self.spec_b().unwrap().fs_node,
                self.spec_attrs(),
            ),
    {
        match (&self.a, &self.b) {
            (Some(va), Some(vb)) => {
                let r = modifications_inner(&va.fs_node, &vb.fs_node, &self.delta_trigger_attrs);
                proof {
                    let (ca, cb, ma, mb) = choose|
                        ca: Seq<char>,
                        cb: Seq<char>,
                        ma: Seq<char>,
                        mb: Seq<char>,
                    |
                        string_views(r@) == mod_descs(
                            va.fs_node,
                            vb.fs_node,
                            self.delta_trigger_attrs,
                            ca,
                            cb,
                            ma,
                            mb,
                        );
                    assert(string_views(r@) == mod_descs(
                        self.spec_a().unwrap().fs_node,
                        self.spec_b().unwrap().fs_node,
                        self.spec_attrs(),
                        ca,
                        cb,
                        ma,
                        mb,
                    ));
                }
                r
            },
            _ => unreached(),
        }
    }
}

/// Renders the date strings and computes the change lines between two
/// records.
fn modifications_inner(a: &FsNode, b: &FsNode, t: &AttributeSet) -> (r: Vec<String>)
    ensures
        exists|ca: Seq<char>, cb: Seq<char>, ma: Seq<char>, mb: Seq<char>|
            string_views(r@) == mod_descs(*a, *b, *t, ca, cb, ma, mb),
        (r@.len() == 0) == !any_changed(*a, *b, *t),
{
    let ca = local_time_string(a.creation_date);
    let cb = local_time_string(b.creation_date);
    let ma = local_time_string(a.modified_date);
    let mb = local_time_string(b.modified_date);
    let r = modifications_with(a, b, t, ca.as_str(), cb.as_str(), ma.as_str(), mb.as_str());
    proof {
        assert(string_views(r@) == mod_descs(*a, *b, *t, ca@, cb@, ma@, mb@));
    }
    r
}

} // verus!
