//! POSIX mode bits and their symbolic `ls`-style rendering.

use vstd::prelude::*;
use crate::strutil::push_char;

verus! {

/// One bit (or file-type field value) of a POSIX mode word.
#[derive(Debug, Clone, Copy, PartialEq, Eq, Structural)]
pub enum Permission {
    Socket,
    Symlink,
    File,
    BlkDev,
    Dir,
    CharDev,
    Fifo,
    SetUid,
    SetGid,
    Sticky,
    UserRead,
    UserWrite,
    UserExecute,
    GroupRead,
    GroupWrite,
    GroupExecute,
    OtherRead,
    OtherWrite,
    OtherExecute,
}

impl Permission {
    /// The numeric mask of this bit in a raw mode word.
    pub open spec fn spec_bit(self) -> u32 {
        match self {
            Permission::Socket => 0o140000,
            Permission::Symlink => 0o120000,
            Permission::File => 0o100000,
            Permission::BlkDev => 0o060000,
            Permission::Dir => 0o040000,
            Permission::CharDev => 0o020000,
            Permission::Fifo => 0o010000,
            Permission::SetUid => 0o4000,
            Permission::SetGid => 0o2000,
            Permission::Sticky => 0o1000,
            Permission::UserRead => 0o0400,
            Permission::UserWrite => 0o0200,
            Permission::UserExecute => 0o0100,
            Permission::GroupRead => 0o0040,
            Permission::GroupWrite => 0o0020,
            Permission::GroupExecute => 0o0010,
            Permission::OtherRead => 0o0004,
            Permission::OtherWrite => 0o0002,
            Permission::OtherExecute => 0o0001,
        }
    }

    /// The numeric mask of this bit in a raw mode word.
    pub fn bit(&self) -> (r: u32)
        ensures
            r == self.spec_bit(),
    {
        match self {
            Permission::Socket => 0o140000,
            Permission::Symlink => 0o120000,
            Permission::File => 0o100000,
            Permission::BlkDev => 0o060000,
            Permission::Dir => 0o040000,
            Permission::CharDev => 0o020000,
            Permission::Fifo => 0o010000,
            Permission::SetUid => 0o4000,
            Permission::SetGid => 0o2000,
            Permission::Sticky => 0o1000,
            Permission::UserRead => 0o0400,
            Permission::UserWrite => 0o0200,
            Permission::UserExecute => 0o0100,
            Permission::GroupRead => 0o0040,
            Permission::GroupWrite => 0o0020,
            Permission::GroupExecute => 0o0010,
            Permission::OtherRead => 0o0004,
            Permission::OtherWrite => 0o0002,
            Permission::OtherExecute => 0o0001,
        }
    }

    /// Position and character of this bit in the ten-character symbolic
    /// form, position zero being the leftmost (file-type) column. The
    /// special bits show an upper-case letter here; rendering lowers it
    /// when the matching execute bit is also set.
    pub open spec fn spec_repr(self) -> (int, char) {
        match self {
            Permission::Socket => (0, 's'),
            Permission::Symlink => (0, 'l'),
            Permission::File => (0, '-'),
            Permission::BlkDev => (0, 'b'),
            Permission::Dir => (0, 'd'),
            Permission::CharDev => (0, 'c'),
            Permission::Fifo => (0, 'p'),
            Permission::SetUid => (3, 'S'),
            Permission::SetGid => (6, 'S'),
            Permission::Sticky => (9, 'T'),
            Permission::UserRead => (1, 'r'),
            Permission::UserWrite => (2, 'w'),
            Permission::UserExecute => (3, 'x'),
            Permission::GroupRead => (4, 'r'),
            Permission::GroupWrite => (5, 'w'),
            Permission::GroupExecute => (6, 'x'),
            Permission::OtherRead => (7, 'r'),
            Permission::OtherWrite => (8, 'w'),
            Permission::OtherExecute => (9, 'x'),
        }
    }

    /// Position and character of this bit in the ten-character symbolic
    /// form.
    pub fn repr(&self) -> (r: (usize, char))
        ensures
            r.0 as int == self.spec_repr().0,
            r.1 == self.spec_repr().1,
    {
        match self {
            Permission::Socket => (0, 's'),
            Permission::Symlink => (0, 'l'),
            Permission::File => (0, '-'),
            Permission::BlkDev => (0, 'b'),
            Permission::Dir => (0, 'd'),
            Permission::CharDev => (0, 'c'),
            Permission::Fifo => (0, 'p'),
            Permission::SetUid => (3, 'S'),
            Permission::SetGid => (6, 'S'),
            Permission::Sticky => (9, 'T'),
            Permission::UserRead => (1, 'r'),
            Permission::UserWrite => (2, 'w'),
            Permission::UserExecute => (3, 'x'),
            Permission::GroupRead => (4, 'r'),
            Permission::GroupWrite => (5, 'w'),
            Permission::GroupExecute => (6, 'x'),
            Permission::OtherRead => (7, 'r'),
            Permission::OtherWrite => (8, 'w'),
            Permission::OtherExecute => (9, 'x'),
        }
    }

    /// This bit overlaps the given raw mode word. Note that the
    /// file-type field values overlap each other, so e.g. the `Socket`
    /// value (which has the `File` and `Dir` bits inside it) reads as
    /// set on a plain file's mode word; rendering applies the file-type
    /// marks from `Socket` down to `Fifo` so the last overlapping one
    /// wins.
    pub open spec fn spec_is_set(self, permbits: u32) -> bool {
        self.spec_bit() & permbits > 0
    }

    /// This bit overlaps the given raw mode word.
    pub fn is_set(&self, permbits: u32) -> (r: bool)
        ensures
            r == self.spec_is_set(permbits),
    {
        self.bit() & permbits > 0
    }

    /// Renders a raw mode word in the ten-character symbolic form.
    pub fn from_val(permbits: u32) -> (r: String)
        ensures
            r@ == spec_perm_string(permbits),
    {
        let x = mark_basic_perms(permbits);
        let x = mark_special_bits(x, permbits);
        mark_file_type(x, permbits)
    }
}

/// The sequence with the character at `idx` replaced; out-of-range
/// indices leave the sequence unchanged.
pub open spec fn spec_replace_at(s: Seq<char>, idx: int, c: char) -> Seq<char> {
    if 0 <= idx < s.len() {
        s.update(idx, c)
    } else {
        s
    }
}

/// Returns the string with the character at `idx` replaced; an
/// out-of-range index returns the string unchanged.
pub fn replace_char_at(s: String, idx: usize, r: char) -> (out: String)
    ensures
        out@ == spec_replace_at(s@, idx as int, r),
{
    let len = s.as_str().unicode_len();
    let mut out = String::new();
    let mut i: usize = 0;
    while i < len
        invariant
            i <= len,
            len == s@.len(),
            out@ == spec_replace_at(s@, idx as int, r).take(i as int),
        decreases len - i,
    {
        let c = if i == idx {
            r
        } else {
            s.as_str().get_char(i)
        };
        push_char(&mut out, c);
        assert(out@ =~= spec_replace_at(s@, idx as int, r).take(i as int + 1));
        i = i + 1;
    }
    proof {
        assert(spec_replace_at(s@, idx as int, r).take(len as int) =~= spec_replace_at(
            s@,
            idx as int,
            r,
        ));
    }
    out
}

/// The string after marking one permission: unchanged unless the bit is
/// set, in which case its character is written at its position.
pub open spec fn spec_mark(s: Seq<char>, p: Permission, permbits: u32) -> Seq<char> {
    if p.spec_is_set(permbits) {
        spec_replace_at(s, p.spec_repr().0, p.spec_repr().1)
    } else {
        s
    }
}

/// The string after marking one special (set-uid, set-gid, sticky) bit:
/// as `spec_mark`, but lower-case when the matching execute bit is also
/// set.
pub open spec fn spec_mark_special(
    s: Seq<char>,
    p: Permission,
    exec_p: Permission,
    lower: char,
    permbits: u32,
) -> Seq<char> {
    if p.spec_is_set(permbits) {
        if exec_p.spec_is_set(permbits) {
            spec_replace_at(s, p.spec_repr().0, lower)
        } else {
            spec_replace_at(s, p.spec_repr().0, p.spec_repr().1)
        }
    } else {
        s
    }
}

/// The character in the file-type column: of the overlapping file-type
/// field values, the one the rendering applies last wins.
pub open spec fn spec_type_char(permbits: u32) -> char {
    if Permission::Fifo.spec_is_set(permbits) {
        'p'
    } else if Permission::CharDev.spec_is_set(permbits) {
        'c'
    } else if Permission::Dir.spec_is_set(permbits) {
        'd'
    } else if Permission::BlkDev.spec_is_set(permbits) {
        'b'
    } else if Permission::File.spec_is_set(permbits) {
        '-'
    } else if Permission::Symlink.spec_is_set(permbits) {
        'l'
    } else if Permission::Socket.spec_is_set(permbits) {
        's'
    } else {
        '-'
    }
}

/// The character of one read or write column: the mark when the bit is
/// set, a dash otherwise.
pub open spec fn spec_rw_char(p: Permission, permbits: u32) -> char {
    if p.spec_is_set(permbits) {
        p.spec_repr().1
    } else {
        '-'
    }
}

/// The character of one execute column, which also carries a special
/// bit: the special bit shows lower-case beside a set execute bit and
/// upper-case alone; without it the column shows the plain execute
/// mark or a dash.
pub open spec fn spec_exec_char(
    special: Permission,
    exec_p: Permission,
    lower: char,
    permbits: u32,
) -> char {
    if special.spec_is_set(permbits) {
        if exec_p.spec_is_set(permbits) {
            lower
        } else {
            special.spec_repr().1
        }
    } else if exec_p.spec_is_set(permbits) {
        exec_p.spec_repr().1
    } else {
        '-'
    }
}

/// The character at one position of the ten-character symbolic form:
/// the file-type column, then read/write/execute for owner, group and
/// others, the execute columns doubling for set-uid, set-gid and the
/// sticky bit.
pub open spec fn spec_perm_char(pos: int, permbits: u32) -> char {
    if pos == 0 {
        spec_type_char(permbits)
    } else if pos == 1 {
        spec_rw_char(Permission::UserRead, permbits)
    } else if pos == 2 {
        spec_rw_char(Permission::UserWrite, permbits)
    } else if pos == 3 {
        spec_exec_char(Permission::SetUid, Permission::UserExecute, 's', permbits)
    } else if pos == 4 {
        spec_rw_char(Permission::GroupRead, permbits)
    } else if pos == 5 {
        spec_rw_char(Permission::GroupWrite, permbits)
    } else if pos == 6 {
        spec_exec_char(Permission::SetGid, Permission::GroupExecute, 's', permbits)
    } else if pos == 7 {
        spec_rw_char(Permission::OtherRead, permbits)
    } else if pos == 8 {
        spec_rw_char(Permission::OtherWrite, permbits)
    } else {
        spec_exec_char(Permission::Sticky, Permission::OtherExecute, 't', permbits)
    }
}

/// The ten-character symbolic form of a raw mode word, position by
/// position.
pub open spec fn spec_perm_string(permbits: u32) -> Seq<char> {
    Seq::new(10, |pos: int| spec_perm_char(pos, permbits))
}

/// The row after the nine basic permission marks: read, write and
/// execute for owner, group and others, over a dash background.
spec fn spec_basic_row(permbits: u32) -> Seq<char> {
    Seq::new(
        10,
        |pos: int|
            if pos == 1 {
                spec_rw_char(Permission::UserRead, permbits)
            } else if pos == 2 {
                spec_rw_char(Permission::UserWrite, permbits)
            } else if pos == 3 {
                spec_rw_char(Permission::UserExecute, permbits)
            } else if pos == 4 {
                spec_rw_char(Permission::GroupRead, permbits)
            } else if pos == 5 {
                spec_rw_char(Permission::GroupWrite, permbits)
            } else if pos == 6 {
                spec_rw_char(Permission::GroupExecute, permbits)
            } else if pos == 7 {
                spec_rw_char(Permission::OtherRead, permbits)
            } else if pos == 8 {
                spec_rw_char(Permission::OtherWrite, permbits)
            } else if pos == 9 {
                spec_rw_char(Permission::OtherExecute, permbits)
            } else {
                '-'
            },
    )
}

/// The row after the three special bits overwrote the execute columns.
spec fn spec_special_row(permbits: u32) -> Seq<char> {
    Seq::new(
        10,
        |pos: int|
            if pos == 0 {
                '-'
            } else {
                spec_perm_char(pos, permbits)
            },
    )
}

/// Marks one permission in the rendered string when its bit is set./// Marks one permission in the rendered string when its bit is set.
fn replace_for(s: String, p: Permission, permbits: u32) -> (r: String)
    ensures
        r@ == spec_mark(s@, p, permbits),
{
    if p.is_set(permbits) {
        let (i, c) = p.repr();
        replace_char_at(s, i, c)
    } else {
        s
    }
}

/// Marks one special bit, lower-cased when the matching execute bit is
/// also set.
fn replace_special(s: String, p: Permission, exec_p: Permission, lower: char, permbits: u32) -> (r:
    String)
    ensures
        r@ == spec_mark_special(s@, p, exec_p, lower, permbits),
{
    if p.is_set(permbits) {
        let (i, c) = p.repr();
        if exec_p.is_set(permbits) {
            replace_char_at(s, i, lower)
        } else {
            replace_char_at(s, i, c)
        }
    } else {
        s
    }
}

/// Marks the nine basic permission bits over a dash background.
#[verifier::rlimit(100)]
fn mark_basic_perms(permbits: u32) -> (r: String)
    ensures
        r@ == spec_basic_row(permbits),
{
    let mut x = replace_for(String::from_str("----------"), Permission::OtherRead, permbits);
    x = replace_for(x, Permission::OtherWrite, permbits);
    x = replace_for(x, Permission::OtherExecute, permbits);
    x = replace_for(x, Permission::GroupRead, permbits);
    x = replace_for(x, Permission::GroupWrite, permbits);
    x = replace_for(x, Permission::GroupExecute, permbits);
    x = replace_for(x, Permission::UserRead, permbits);
    x = replace_for(x, Permission::UserWrite, permbits);
    x = replace_for(x, Permission::UserExecute, permbits);
    proof {
        reveal_strlit("----------");
        assert(x@ =~= spec_basic_row(permbits));
    }
    x
}

/// Overwrites the execute columns with the set-uid, set-gid and sticky
/// marks where those bits are set.
#[verifier::rlimit(100)]
fn mark_special_bits(x: String, permbits: u32) -> (r: String)
    requires
        x@ == spec_basic_row(permbits),
    ensures
        r@ == spec_special_row(permbits),
{
    let mut x = replace_special(x, Permission::Sticky, Permission::OtherExecute, 't', permbits);
    x = replace_special(x, Permission::SetGid, Permission::GroupExecute, 's', permbits);
    x = replace_special(x, Permission::SetUid, Permission::UserExecute, 's', permbits);
    proof {
        assert(x@ =~= spec_special_row(permbits));
    }
    x
}

/// Writes the file-type column, the last overlapping file-type value
/// winning.
#[verifier::rlimit(100)]
fn mark_file_type(x: String, permbits: u32) -> (r: String)
    requires
        x@ == spec_special_row(permbits),
    ensures
        r@ == spec_perm_string(permbits),
{
    let mut x = replace_for(x, Permission::Socket, permbits);
    x = replace_for(x, Permission::Symlink, permbits);
    x = replace_for(x, Permission::File, permbits);
    x = replace_for(x, Permission::BlkDev, permbits);
    x = replace_for(x, Permission::Dir, permbits);
    x = replace_for(x, Permission::CharDev, permbits);
    x = replace_for(x, Permission::Fifo, permbits);
    proof {
        assert(x@ =~= spec_perm_string(permbits));
    }
    x
}

} // verus!
