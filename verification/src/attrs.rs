//! The closed set of comparable record fields and sets of them.

use vstd::prelude::*;
use crate::apperror::AppError;

verus! {

/// One comparable field of a record. A set of these parametrizes what
/// counts as a modification when two snapshots are compared.
#[derive(Debug, Clone, Copy, PartialEq, Eq, Hash, Structural)]
pub enum Attribute {
    NodeType,
    Checksum,
    Size,
    User,
    Group,
    Permissions,
    CreationDate,
    ModifiedDate,
    LinksTo,
    Inode,
    NLinks,
}

/// A set of comparable fields, one flag per field.
#[derive(Debug, Clone, Copy, PartialEq, Eq, Structural)]
pub struct AttributeSet {
    pub node_type: bool,
    pub checksum: bool,
    pub size: bool,
    pub user: bool,
    pub group: bool,
    pub permissions: bool,
    pub creation_date: bool,
    pub modified_date: bool,
    pub links_to: bool,
    pub inode: bool,
    pub nlinks: bool,
}

impl AttributeSet {
    /// Membership, as a spec-level function.
    pub open spec fn spec_contains(self, a: Attribute) -> bool {
        match a {
            Attribute::NodeType => self.node_type,
            Attribute::Checksum => self.checksum,
            Attribute::Size => self.size,
            Attribute::User => self.user,
            Attribute::Group => self.group,
            Attribute::Permissions => self.permissions,
            Attribute::CreationDate => self.creation_date,
            Attribute::ModifiedDate => self.modified_date,
            Attribute::LinksTo => self.links_to,
            Attribute::Inode => self.inode,
            Attribute::NLinks => self.nlinks,
        }
    }

    /// The set with no field selected.
    pub fn empty() -> (r: AttributeSet)
        ensures
            forall|a: Attribute| !r.spec_contains(a),
    {
        AttributeSet {
            node_type: false,
            checksum: false,
            size: false,
            user: false,
            group: false,
            permissions: false,
            creation_date: false,
            modified_date: false,
            links_to: false,
            inode: false,
            nlinks: false,
        }
    }

    /// Whether the given field is selected.
    pub fn contains(&self, a: Attribute) -> (r: bool)
        ensures
            r == self.spec_contains(a),
    {
        match a {
            Attribute::NodeType => self.node_type,
            Attribute::Checksum => self.checksum,
            Attribute::Size => self.size,
            Attribute::User => self.user,
            Attribute::Group => self.group,
            Attribute::Permissions => self.permissions,
            Attribute::CreationDate => self.creation_date,
            Attribute::ModifiedDate => self.modified_date,
            Attribute::LinksTo => self.links_to,
            Attribute::Inode => self.inode,
            Attribute::NLinks => self.nlinks,
        }
    }

    /// Selects one more field.
    pub fn insert(&mut self, a: Attribute)
        ensures
            forall|x: Attribute| final (self).spec_contains(x) == (x == a || old(
                self,
            ).spec_contains(x)),
    {
        match a {
            Attribute::NodeType => self.node_type = true,
            Attribute::Checksum => self.checksum = true,
            Attribute::Size => self.size = true,
            Attribute::User => self.user = true,
            Attribute::Group => self.group = true,
            Attribute::Permissions => self.permissions = true,
            Attribute::CreationDate => self.creation_date = true,
            Attribute::ModifiedDate => self.modified_date = true,
            Attribute::LinksTo => self.links_to = true,
            Attribute::Inode => self.inode = true,
            Attribute::NLinks => self.nlinks = true,
        }
        assert forall|x: Attribute|
            final (self).spec_contains(x) == (x == a || old(self).spec_contains(x)) by {
            match x {
                Attribute::NodeType => {},
                Attribute::Checksum => {},
                Attribute::Size => {},
                Attribute::User => {},
                Attribute::Group => {},
                Attribute::Permissions => {},
                Attribute::CreationDate => {},
                Attribute::ModifiedDate => {},
                Attribute::LinksTo => {},
                Attribute::Inode => {},
                Attribute::NLinks => {},
            }
        }
    }
}

/// The preset with every field selected.
pub open spec fn spec_attrs_all() -> AttributeSet {
    AttributeSet {
        node_type: true,
        checksum: true,
        size: true,
        user: true,
        group: true,
        permissions: true,
        creation_date: true,
        modified_date: true,
        links_to: true,
        inode: true,
        nlinks: true,
    }
}

/// The default preset: checksum, size, owner, group, permissions and
/// modification time.
pub open spec fn spec_attrs_medium() -> AttributeSet {
    AttributeSet {
        node_type: false,
        checksum: true,
        size: true,
        user: true,
        group: true,
        permissions: true,
        creation_date: false,
        modified_date: true,
        links_to: false,
        inode: false,
        nlinks: false,
    }
}

/// The minimal preset: checksum, size and modification time.
pub open spec fn spec_attrs_minimum() -> AttributeSet {
    AttributeSet {
        node_type: false,
        checksum: true,
        size: true,
        user: false,
        group: false,
        permissions: false,
        creation_date: false,
        modified_date: true,
        links_to: false,
        inode: false,
        nlinks: false,
    }
}

/// The field selected by one option character, if any.
pub open spec fn spec_attr_from_char(c: char) -> Option<Attribute> {
    if c == 't' {
        Some(Attribute::NodeType)
    } else if c == 'c' {
        Some(Attribute::Checksum)
    } else if c == 's' {
        Some(Attribute::Size)
    } else if c == 'u' {
        Some(Attribute::User)
    } else if c == 'g' {
        Some(Attribute::Group)
    } else if c == 'p' {
        Some(Attribute::Permissions)
    } else if c == 'b' {
        Some(Attribute::CreationDate)
    } else if c == 'm' {
        Some(Attribute::ModifiedDate)
    } else if c == 'l' {
        Some(Attribute::LinksTo)
    } else if c == 'i' {
        Some(Attribute::Inode)
    } else if c == 'n' {
        Some(Attribute::NLinks)
    } else {
        None
    }
}

impl Attribute {
    /// The preset with every field selected.
    pub fn all() -> (r: AttributeSet)
        ensures
            r == spec_attrs_all(),
    {
        AttributeSet {
            node_type: true,
            checksum: true,
            size: true,
            user: true,
            group: true,
            permissions: true,
            creation_date: true,
            modified_date: true,
            links_to: true,
            inode: true,
            nlinks: true,
        }
    }

    /// The default preset: checksum, size, owner, group, permissions and
    /// modification time.
    pub fn medium() -> (r: AttributeSet)
        ensures
            r == spec_attrs_medium(),
    {
        AttributeSet {
            node_type: false,
            checksum: true,
            size: true,
            user: true,
            group: true,
            permissions: true,
            creation_date: false,
            modified_date: true,
            links_to: false,
            inode: false,
            nlinks: false,
        }
    }

    /// The minimal preset: checksum, size and modification time.
    pub fn minimum() -> (r: AttributeSet)
        ensures
            r == spec_attrs_minimum(),
    {
        AttributeSet {
            node_type: false,
            checksum: true,
            size: true,
            user: false,
            group: false,
            permissions: false,
            creation_date: false,
            modified_date: true,
            links_to: false,
            inode: false,
            nlinks: false,
        }
    }

    /// The field selected by one option character; any character outside
    /// the option alphabet is rejected.
    pub fn from_char(c: char) -> (r: Result<Attribute, AppError>)
        ensures
            (match spec_attr_from_char(c) {
                Some(a) => r == Ok::<Attribute, AppError>(a),
                None => (r matches Err(e) && e matches AppError::WithMessage(m) && m@
                    == invalid_attr_option_message()),
            }),
    {
        match c {
            't' => Ok(Attribute::NodeType),
            'c' => Ok(Attribute::Checksum),
            's' => Ok(Attribute::Size),
            'u' => Ok(Attribute::User),
            'g' => Ok(Attribute::Group),
            'p' => Ok(Attribute::Permissions),
            'b' => Ok(Attribute::CreationDate),
            'm' => Ok(Attribute::ModifiedDate),
            'l' => Ok(Attribute::LinksTo),
            'i' => Ok(Attribute::Inode),
            'n' => Ok(Attribute::NLinks),
            _ => Err(
                AppError::WithMessage(
                    String::from_str("'{}' is not a valid attribute change option."),
                ),
            ),
        }
    }

    /// Builds a custom set from a compact option string: one character
    /// per field. Succeeds exactly when every character is a valid
    /// option; the set then holds exactly the fields the string names.
    pub fn from_arg(arg: &str) -> (r: Result<AttributeSet, AppError>)
        ensures
            (r matches Ok(s)) <==> (forall|j: int|
                0 <= j < arg@.len() ==> spec_attr_from_char(arg@[j]) is Some),
            (r matches Ok(s) ==> forall|a: Attribute|
                #![auto]
                s.spec_contains(a) == exists|j: int|
                    0 <= j < arg@.len() && spec_attr_from_char(arg@[j]) == Some(a)),
            (r matches Err(e) ==> e matches AppError::WithMessage(m) && m@
                == invalid_attr_option_message()),
    {
        let mut set = AttributeSet::empty();
        let len = arg.unicode_len();
        let mut k: usize = 0;
        while k < len
            invariant
                k <= len,
                len == arg@.len(),
                forall|j: int| 0 <= j < k ==> spec_attr_from_char(arg@[j]) is Some,
                forall|a: Attribute|
                    #![auto]
                    set.spec_contains(a) == exists|j: int|
                        0 <= j < k && spec_attr_from_char(arg@[j]) == Some(a),
            decreases len - k,
        {
            let c = arg.get_char(k);
            match Attribute::from_char(c) {
                Ok(attr) => {
                    set.insert(attr);
                    assert forall|a: Attribute|
                        set.spec_contains(a) == exists|j: int|
                            0 <= j < k + 1 && spec_attr_from_char(arg@[j]) == Some(a) by {
                        if set.spec_contains(a) {
                            if a == attr {
                                assert(spec_attr_from_char(arg@[k as int]) == Some(a));
                            }
                        }
                    }
                },
                Err(e) => {
                    return Err(e);
                },
            }
            k = k + 1;
        }
        Ok(set)
    }
}

/// The text of the error that an invalid option character raises.
pub open spec fn invalid_attr_option_message() -> Seq<char> {
    "'{}' is not a valid attribute change option."@
}

} // verus!
