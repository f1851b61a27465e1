//! The policy that the daemon applies to every path it is told about.

use vstd::prelude::*;

verus! {

/// One policy for the whole watched tree. It is read once and never changed.
#[derive(Clone, Debug)]
pub struct Settings {
    /// Root of the watched tree, an absolute path.
    pub base_dir: String,
    /// Give a path the owner of its parent directory.
    pub inherit_owner: bool,
    /// Give a path the group of its parent directory.
    pub inherit_group: bool,
    /// Give a path the mode of its parent directory, cut down by
    /// `permission_mask`; otherwise one of the two fixed modes.
    pub inherit_permissions: bool,
    /// User name to force where the owner is not inherited. Absent or empty
    /// means that the owner is left alone.
    pub fixed_owner: Option<String>,
    /// Group name to force where the group is not inherited. Absent or empty
    /// means that the group is left alone.
    pub fixed_group: Option<String>,
    /// Octal mode of plain files where permissions are not inherited.
    pub fixed_file_permission: String,
    /// Octal mode of directories where permissions are not inherited.
    pub fixed_directory_permission: String,
    /// Octal mask applied to the parent's mode where permissions are inherited.
    pub permission_mask: String,
    /// Log level, such as `info` or `debug`.
    pub log_level: Option<String>,
}

/// The configuration file: one section of settings.
#[derive(Clone, Debug)]
pub struct Config {
    pub settings: Settings,
}

/// The name in a `fixed_owner` or `fixed_group` field, if the field holds one:
/// an absent field and an empty string both hold none.
pub open spec fn fixed_name(field: Option<String>) -> Option<Seq<char>> {
    match field {
        Some(name) => if name@.len() > 0 {
            Some(name@)
        } else {
            None
        },
        None => None,
    }
}

/// The name that a field holds, if it holds one.
fn name_in(field: &Option<String>) -> (r: Option<&str>)
    ensures
        match r {
            Some(name) => fixed_name(*field) == Some(name@),
            None => fixed_name(*field) is None,
        },
{
    match field {
        Some(name) => {
            let name: &str = name.as_str();
            if name.is_empty() {
                None
            } else {
                Some(name)
            }
        },
        None => None,
    }
}

impl Settings {
    /// The user name that has to be resolved to a numeric id before the
    /// attributes of a path can be computed, if there is one.
    pub open spec fn owner_to_resolve(&self) -> Option<Seq<char>> {
        if self.inherit_owner {
            None
        } else {
            fixed_name(self.fixed_owner)
        }
    }

    /// The group name that has to be resolved to a numeric id before the
    /// attributes of a path can be computed, if there is one.
    pub open spec fn group_to_resolve(&self) -> Option<Seq<char>> {
        if self.inherit_group {
            None
        } else {
            fixed_name(self.fixed_group)
        }
    }

    /// The user name to resolve for `PathFacts::fixed_owner_id`: the fixed
    /// owner, where the owner is not inherited and a name is configured.
    pub fn owner_name(&self) -> (r: Option<&str>)
        ensures
            match r {
                Some(name) => self.owner_to_resolve() == Some(name@),
                None => self.owner_to_resolve() is None,
            },
    {
        if self.inherit_owner {
            None
        } else {
            name_in(&self.fixed_owner)
        }
    }

    /// The group name to resolve for `PathFacts::fixed_group_id`: the fixed
    /// group, where the group is not inherited and a name is configured.
    pub fn group_name(&self) -> (r: Option<&str>)
        ensures
            match r {
                Some(name) => self.group_to_resolve() == Some(name@),
                None => self.group_to_resolve() is None,
            },
    {
        if self.inherit_group {
            None
        } else {
            name_in(&self.fixed_group)
        }
    }
}

} // verus!
