//! Assembling one walker record from plainly-read metadata.
//!
//! The walker itself performs the directory and file reads; every
//! decision it takes — how an entry is classified, which fields a
//! record carries, and the sentinel policies when a read failed — is
//! made here, over plain values.

use vstd::prelude::*;
use crate::fs_node::FsNode;
use crate::fs_node::NodeType;

verus! {

/// The kind of an entry from its file-type flags: unreadable metadata
/// marks it `Error`; otherwise directory, regular file and symlink are
/// told apart in that order, and anything else is `Other`.
pub open spec fn spec_node_kind(
    type_known: bool,
    is_dir: bool,
    is_file: bool,
    is_symlink: bool,
) -> NodeType {
    if !type_known {
        NodeType::Error
    } else if is_dir {
        NodeType::Directory
    } else if is_file {
        NodeType::File
    } else if is_symlink {
        NodeType::Symlink
    } else {
        NodeType::Other
    }
}

/// Classifies one entry from its file-type flags.
pub fn node_kind(type_known: bool, is_dir: bool, is_file: bool, is_symlink: bool) -> (r: NodeType)
    ensures
        r == spec_node_kind(type_known, is_dir, is_file, is_symlink),
{
    if !type_known {
        NodeType::Error
    } else if is_dir {
        NodeType::Directory
    } else if is_file {
        NodeType::File
    } else if is_symlink {
        NodeType::Symlink
    } else {
        NodeType::Other
    }
}

/// The recorded symlink target: only a symlink carries one, and a
/// failed resolution leaves it empty.
pub open spec fn spec_links_to(kind: NodeType, link_target: Option<String>) -> Seq<char> {
    if kind == NodeType::Symlink {
        match link_target {
            Some(t) => t@,
            None => Seq::<char>::empty(),
        }
    } else {
        Seq::<char>::empty()
    }
}

/// The recorded content digest: only a regular file carries one, and an
/// unreadable file gets the sentinel in place of a digest.
pub open spec fn spec_checksum_field(kind: NodeType, digest: Option<String>) -> Seq<char> {
    if kind == NodeType::File {
        match digest {
            Some(d) => d@,
            None => "[ERR]"@,
        }
    } else {
        Seq::<char>::empty()
    }
}

/// Builds the record for one visited entry from plainly-read metadata.
///
/// The file-type flags classify the entry (`type_known` false marks a
/// metadata read failure as `Error`); timestamps arrive as seconds since
/// the epoch with zero for an unreadable date; `link_target` is the
/// resolved symlink target, if the entry is a symlink and resolution
/// succeeded; `digest` is the content digest of a regular file, absent
/// when the file could not be read — the record then carries a sentinel
/// rather than losing the entry. The numeric identity is left at zero:
/// it is assigned at persistence.
pub fn build_record(
    parent_path: String,
    name: String,
    type_known: bool,
    is_dir: bool,
    is_file: bool,
    is_symlink: bool,
    size: i64,
    uid: u32,
    gid: u32,
    mode: u32,
    created: i64,
    modified: i64,
    inode: i64,
    nlinks: i64,
    link_target: Option<String>,
    digest: Option<String>,
) -> (r: FsNode)
    ensures
        r.id == 0,
        r.node_type == spec_node_kind(type_known, is_dir, is_file, is_symlink),
        r.parent_path@ == parent_path@,
        r.name@ == name@,
        r.size == size,
        r.uid == uid,
        r.gid == gid,
        r.permissions == mode,
        r.creation_date == created,
        r.modified_date == modified,
        r.inode == inode,
        r.nlinks == nlinks,
        r.links_to@ == spec_links_to(r.node_type, link_target),
        r.sha1_checksum@ == spec_checksum_field(r.node_type, digest),
{
    let kind = node_kind(type_known, is_dir, is_file, is_symlink);
    let links_to = if matches!(kind, NodeType::Symlink) {
        match link_target {
            Some(t) => t,
            None => String::new(),
        }
    } else {
        String::new()
    };
    let sha1_checksum = if matches!(kind, NodeType::File) {
        match digest {
            Some(d) => d,
            None => String::from_str("[ERR]"),
        }
    } else {
        String::new()
    };
    FsNode {
        id: 0,
        node_type: kind,
        sha1_checksum,
        parent_path,
        name,
        size,
        uid,
        gid,
        permissions: mode,
        creation_date: created,
        modified_date: modified,
        links_to,
        inode,
        nlinks,
    }
}

} // verus!
