//! The passive data model: one filesystem entry as captured at index time.

use vstd::prelude::*;

verus! {

/// The closed set of entry kinds an index distinguishes.
///
/// `Other` covers non-standard entries (sockets, devices, ...);
/// `Error` marks an entry whose metadata could not be read.
#[derive(Debug, Clone, Copy, PartialEq, Eq, Structural)]
pub enum NodeType {
    File,
    Directory,
    Symlink,
    Other,
    Error,
}

impl NodeType {
    /// Decodes the persisted numeric tag back into a kind.
    pub fn from(value: u32) -> (r: Option<NodeType>)
        ensures
            r == spec_node_type_from(value),
    {
        match value {
            0u32 => Some(NodeType::File),
            1u32 => Some(NodeType::Directory),
            2u32 => Some(NodeType::Symlink),
            3u32 => Some(NodeType::Other),
            4u32 => Some(NodeType::Error),
            _ => None,
        }
    }

    /// The numeric tag under which a kind is persisted.
    pub fn value(&self) -> (r: u32)
        ensures
            r == self.spec_value(),
            spec_node_type_from(r) == Some(*self),
    {
        match self {
            NodeType::File => 0,
            NodeType::Directory => 1,
            NodeType::Symlink => 2,
            NodeType::Other => 3,
            NodeType::Error => 4,
        }
    }

    /// The numeric tag, as a spec-level function.
    pub open spec fn spec_value(self) -> u32 {
        match self {
            NodeType::File => 0,
            NodeType::Directory => 1,
            NodeType::Symlink => 2,
            NodeType::Other => 3,
            NodeType::Error => 4,
        }
    }

    /// The one-letter symbol shown in a report row.
    pub fn to_str(&self) -> (r: &'static str)
        ensures
            r@ == self.spec_symbol(),
    {
        match self {
            NodeType::File => "",
            NodeType::Directory => "D",
            NodeType::Symlink => "L",
            NodeType::Other => "-",
            NodeType::Error => "ERR",
        }
    }

    /// The symbol `to_str` returns, as a spec-level function.
    pub open spec fn spec_symbol(self) -> Seq<char> {
        match self {
            NodeType::File => ""@,
            NodeType::Directory => "D"@,
            NodeType::Symlink => "L"@,
            NodeType::Other => "-"@,
            NodeType::Error => "ERR"@,
        }
    }

    /// The long, human-readable name of a kind, used in change descriptions.
    pub fn display_name(&self) -> (r: &'static str)
        ensures
            r@ == self.spec_display_name(),
    {
        match self {
            NodeType::File => "file",
            NodeType::Directory => "dir",
            NodeType::Symlink => "symlink",
            NodeType::Other => "(other)",
            NodeType::Error => "(none (read error))",
        }
    }

    /// The name `display_name` returns, as a spec-level function.
    pub open spec fn spec_display_name(self) -> Seq<char> {
        match self {
            NodeType::File => "file"@,
            NodeType::Directory => "dir"@,
            NodeType::Symlink => "symlink"@,
            NodeType::Other => "(other)"@,
            NodeType::Error => "(none (read error))"@,
        }
    }

    /// True exactly for `Directory`.
    pub fn is_dir(&self) -> (r: bool)
        ensures
            r == (*self == NodeType::Directory),
    {
        matches!(self, NodeType::Directory)
    }
}

/// Decodes a persisted numeric tag: the spec-level counterpart of
/// [`NodeType::from`].
pub open spec fn spec_node_type_from(value: u32) -> Option<NodeType> {
    if value == 0 {
        Some(NodeType::File)
    } else if value == 1 {
        Some(NodeType::Directory)
    } else if value == 2 {
        Some(NodeType::Symlink)
    } else if value == 3 {
        Some(NodeType::Other)
    } else if value == 4 {
        Some(NodeType::Error)
    } else {
        None
    }
}

impl Default for NodeType {
    /// An entry is assumed to be a plain file until classified.
    fn default() -> (r: Self)
        ensures
            r == NodeType::File,
    {
        NodeType::File
    }
}

/// One filesystem entry at index time.
///
/// `parent_path` joined with `name` is the entry's absolute path and is
/// unique within one index. Records are created once by the walker and
/// never mutated afterwards; an index is a flat, unordered collection of
/// them, with the hierarchy reconstructed from the path strings.
///
/// `sha1_checksum` is the 40-character hex digest of the file's content,
/// empty for non-files; `links_to` is populated only for symlinks.
/// Sizes and dates use `i64` to match the persisted column types.
#[derive(Debug)]
pub struct FsNode {
    pub id: i64,
    pub node_type: NodeType,
    pub sha1_checksum: String,
    pub parent_path: String,
    pub name: String,
    pub size: i64,
    pub uid: u32,
    pub gid: u32,
    pub permissions: u32,
    pub creation_date: i64,
    pub modified_date: i64,
    pub links_to: String,
    pub inode: i64,
    pub nlinks: i64,
}

/// Every numeric field zero, every string empty, kind `File`.
pub open spec fn is_blank_record(r: FsNode) -> bool {
    &&& r.id == 0
    &&& r.node_type == NodeType::File
    &&& r.sha1_checksum@ == Seq::<char>::empty()
    &&& r.parent_path@ == Seq::<char>::empty()
    &&& r.name@ == Seq::<char>::empty()
    &&& r.size == 0
    &&& r.uid == 0
    &&& r.gid == 0
    &&& r.permissions == 0
    &&& r.creation_date == 0
    &&& r.modified_date == 0
    &&& r.links_to@ == Seq::<char>::empty()
    &&& r.inode == 0
    &&& r.nlinks == 0
}

impl FsNode {
    /// A blank record: every field zero or empty, kind `File`.
    pub fn new() -> (r: FsNode)
        ensures
            is_blank_record(r),
    {
        FsNode::default()
    }
}

impl Default for FsNode {
    fn default() -> (r: Self)
        ensures
            is_blank_record(r),
    {
        FsNode {
            id: 0,
            node_type: NodeType::File,
            sha1_checksum: String::new(),
            parent_path: String::new(),
            name: String::new(),
            size: 0,
            uid: 0,
            gid: 0,
            permissions: 0,
            creation_date: 0,
            modified_date: 0,
            links_to: String::new(),
            inode: 0,
            nlinks: 0,
        }
    }
}

impl Clone for FsNode {
    /// A field-for-field copy.
    fn clone(&self) -> (r: Self)
        ensures
            r == *self,
    {
        FsNode {
            id: self.id,
            node_type: self.node_type,
            sha1_checksum: self.sha1_checksum.clone(),
            parent_path: self.parent_path.clone(),
            name: self.name.clone(),
            size: self.size,
            uid: self.uid,
            gid: self.gid,
            permissions: self.permissions,
            creation_date: self.creation_date,
            modified_date: self.modified_date,
            links_to: self.links_to.clone(),
            inode: self.inode,
            nlinks: self.nlinks,
        }
    }
}

} // verus!
