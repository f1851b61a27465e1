//! Which owner, group and mode a path should get.

use crate::config::{fixed_name, Settings};
use crate::utils::{parse_octal, parse_octal_spec};
use nix::sys::stat::Mode;
use vstd::prelude::*;

verus! {

/// The bits of a file mode that are permissions: read, write and execute for
/// owner, group and others, set-user-id, set-group-id and the sticky bit.
pub const PERMISSION_BITS: u32 = 0o7777;

/// The set-group-id bit. On a directory it makes new entries take the
/// directory's group.
pub const SET_GROUP_ID: u32 = 0o2000;

/// What the surrounding program has found out about a path before its
/// attributes are computed.
#[derive(Clone, Copy, Debug)]
pub struct PathFacts {
    /// Owner of the parent directory.
    pub parent_uid: u32,
    /// Group of the parent directory.
    pub parent_gid: u32,
    /// Mode of the parent directory as `stat` reports it, file type included.
    pub parent_mode: u32,
    /// Whether the path itself is a directory.
    pub is_dir: bool,
    /// The id that `Settings::owner_to_resolve` resolved to. `None` where
    /// there was no name to resolve or the system knows no such user.
    pub fixed_owner_id: Option<u32>,
    /// The id that `Settings::group_to_resolve` resolved to. `None` where
    /// there was no name to resolve or the system knows no such group.
    pub fixed_group_id: Option<u32>,
}

/// Why no mode could be computed.
#[derive(Clone, Copy, Debug, PartialEq, Eq, Structural)]
pub enum PermissionError {
    /// `permission_mask` is not an octal number.
    InvalidPermissionMask,
    /// The parent's mode under the mask has bits that are no permissions.
    InvalidInheritedMode,
    /// The fixed permission for files, or the one for directories, whichever
    /// applies to the path, is not an octal number.
    InvalidFixedPermission,
    /// The fixed permission has bits that are no permissions.
    InvalidModeBits,
}

impl PermissionError {
    /// The words for the error.
    pub open spec fn message_spec(&self) -> Seq<char> {
        match self {
            PermissionError::InvalidPermissionMask => "Invalid permission_mask"@,
            PermissionError::InvalidInheritedMode => "Invalid inherited mode"@,
            PermissionError::InvalidFixedPermission => "Invalid fixed permission value"@,
            PermissionError::InvalidModeBits => "Invalid mode bits"@,
        }
    }

    /// Says in words what is wrong.
    pub fn message(&self) -> (text: &'static str)
        ensures
            text@ == self.message_spec(),
    {
        match self {
            PermissionError::InvalidPermissionMask => "Invalid permission_mask",
            PermissionError::InvalidInheritedMode => "Invalid inherited mode",
            PermissionError::InvalidFixedPermission => "Invalid fixed permission value",
            PermissionError::InvalidModeBits => "Invalid mode bits",
        }
    }
}

/// `bits` holds permission bits only.
pub open spec fn is_permission_bits(bits: u32) -> bool {
    bits & !PERMISSION_BITS == 0
}

/// The owner to set: the parent's where the owner is inherited, else the id
/// of the fixed owner where one is named and known, else none.
pub open spec fn owner_spec(settings: &Settings, facts: &PathFacts) -> Option<u32> {
    if settings.inherit_owner {
        Some(facts.parent_uid)
    } else if settings.owner_to_resolve() is Some {
        facts.fixed_owner_id
    } else {
        None
    }
}

/// The group to set, by the same rule as the owner.
pub open spec fn group_spec(settings: &Settings, facts: &PathFacts) -> Option<u32> {
    if settings.inherit_group {
        Some(facts.parent_gid)
    } else if settings.group_to_resolve() is Some {
        facts.fixed_group_id
    } else {
        None
    }
}

/// The mode to set. Inherited: the parent's mode under the mask, as it is.
/// Fixed: the mode configured for files or for directories, and on a
/// directory the set-group-id bit on top of it.
pub open spec fn mode_spec(settings: &Settings, facts: &PathFacts) -> Result<u32, PermissionError> {
    if settings.inherit_permissions {
        match parse_octal_spec(settings.permission_mask@) {
            None => Err(PermissionError::InvalidPermissionMask),
            Some(mask) => if is_permission_bits(facts.parent_mode & mask) {
                Ok(facts.parent_mode & mask)
            } else {
                Err(PermissionError::InvalidInheritedMode)
            },
        }
    } else {
        let text = if facts.is_dir {
            settings.fixed_directory_permission@
        } else {
            settings.fixed_file_permission@
        };
        match parse_octal_spec(text) {
            None => Err(PermissionError::InvalidFixedPermission),
            Some(bits) => if !is_permission_bits(bits) {
                Err(PermissionError::InvalidModeBits)
            } else if facts.is_dir {
                Ok(bits | SET_GROUP_ID)
            } else {
                Ok(bits)
            },
        }
    }
}

/// Owner, group and mode for a path, or the reason why there is no mode.
pub open spec fn attributes_spec(settings: &Settings, facts: &PathFacts) -> Result<
    (Option<u32>, Option<u32>, u32),
    PermissionError,
> {
    match mode_spec(settings, facts) {
        Ok(mode) => Ok((owner_spec(settings, facts), group_spec(settings, facts), mode)),
        Err(e) => Err(e),
    }
}

/// `nix::sys::stat::Mode::from_bits`, with the mode it accepts read back
/// through `Mode::bits`. `Mode` names the twelve permission bits and no
/// other, and `from_bits` accepts a value exactly when it has none but these.
#[verifier::external_body]
fn checked_mode_bits(bits: u32) -> (r: Option<u32>)
    ensures
        r == (if is_permission_bits(bits) {
            Some(bits)
        } else {
            None
        }),
{
    match Mode::from_bits(bits) {
        Some(mode) => Some(mode.bits()),
        None => None,
    }
}

/// Forcing the set-group-id bit keeps a mode within the permission bits, sets
/// the bit, and changes nothing where the bit was set.
proof fn lemma_set_group_id(mode: u32)
    by (bit_vector)
    requires
        mode & !0o7777u32 == 0,
    ensures
        (mode | 0o2000u32) & !0o7777u32 == 0,
        (mode | 0o2000u32) & 0o2000u32 == 0o2000u32,
        mode & 0o2000u32 != 0 ==> mode | 0o2000u32 == mode,
{
}

/// The id to set for owner or group.
fn pick_id(inherit: bool, parent_id: u32, fixed: &Option<String>, fixed_id: Option<u32>) -> (r:
    Option<u32>)
    ensures
        r == (if inherit {
            Some(parent_id)
        } else if fixed_name(*fixed) is Some {
            fixed_id
        } else {
            None
        }),
{
    if inherit {
        Some(parent_id)
    } else {
        match fixed {
            Some(name) => if name.as_str().is_empty() {
                None
            } else {
                fixed_id
            },
            None => None,
        }
    }
}

/// Computes owner, group and mode for a path from the policy and from what is
/// known about the path. Owner and group may come out unset, which asks for
/// no change; a mode always comes with them.
pub fn compute_new_attributes(settings: &Settings, facts: &PathFacts) -> (r: Result<
    (Option<u32>, Option<u32>, u32),
    PermissionError,
>)
    ensures
        r == attributes_spec(settings, facts),
        r matches Ok(t) ==> is_permission_bits(t.2),
        !settings.inherit_permissions && facts.is_dir ==> (r matches Ok(t) ==> t.2 & SET_GROUP_ID
            == SET_GROUP_ID),
        !settings.inherit_owner && fixed_name(settings.fixed_owner) is None ==> (
        r matches Ok(t) ==> t.0 is None),
        !settings.inherit_group && fixed_name(settings.fixed_group) is None ==> (
        r matches Ok(t) ==> t.1 is None),
{
    let new_uid = pick_id(
        settings.inherit_owner,
        facts.parent_uid,
        &settings.fixed_owner,
        facts.fixed_owner_id,
    );
    let new_gid = pick_id(
        settings.inherit_group,
        facts.parent_gid,
        &settings.fixed_group,
        facts.fixed_group_id,
    );
    let mode: u32 = if settings.inherit_permissions {
        let mask: u32 = match parse_octal(settings.permission_mask.as_str()) {
            Some(mask) => mask,
            None => { return Err(PermissionError::InvalidPermissionMask); },
        };
        match checked_mode_bits(facts.parent_mode & mask) {
            Some(mode) => mode,
            None => { return Err(PermissionError::InvalidInheritedMode); },
        }
    } else {
        let text = if facts.is_dir {
            &settings.fixed_directory_permission
        } else {
            &settings.fixed_file_permission
        };
        let fixed: u32 = match parse_octal(text.as_str()) {
            Some(fixed) => fixed,
            None => { return Err(PermissionError::InvalidFixedPermission); },
        };
        let mode: u32 = match checked_mode_bits(fixed) {
            Some(mode) => mode,
            None => { return Err(PermissionError::InvalidModeBits); },
        };
        proof {
            lemma_set_group_id(mode);
        }
        if facts.is_dir && (mode & SET_GROUP_ID == 0) {
            mode | SET_GROUP_ID
        } else {
            mode
        }
    };
    Ok((new_uid, new_gid, mode))
}

/// How far the fixup of a path has got.
#[derive(Clone, Copy, Debug, PartialEq, Eq, Structural)]
pub enum FixProgress {
    /// No system call has been made.
    Start,
    /// Owner and group have been changed.
    ChownDone,
    /// The change of owner and group failed and left this error number.
    ChownFailed { errno: i32 },
    /// The mode has been changed.
    ChmodDone,
    /// The change of mode failed and left this error number.
    ChmodFailed { errno: i32 },
}

/// What to do next to a path.
#[derive(Clone, Copy, Debug, PartialEq, Eq, Structural)]
pub enum FixStep {
    /// Change owner and group. One that is unset is to be left as it is.
    Chown { owner: Option<u32>, group: Option<u32> },
    /// Change the mode.
    Chmod { mode: u32 },
    /// The path has been fixed and has this mode now.
    Done { mode: u32 },
}

/// Why the fixup of a path ended early.
#[derive(Clone, Copy, Debug, PartialEq, Eq, Structural)]
pub enum FixError {
    /// No attributes could be computed.
    Attributes(PermissionError),
    /// The change of owner and group failed. Nothing has been changed.
    Chown { errno: i32 },
    /// The change of mode failed. Owner and group have been changed.
    Chmod { errno: i32 },
}

/// The step that follows `progress` on the way to the attributes `target`:
/// owner and group first, then the mode. A system call that failed ends the
/// fixup, and the steps after it are not taken.
pub open spec fn fix_step_spec(target: (Option<u32>, Option<u32>, u32), progress: FixProgress) -> Result<
    FixStep,
    FixError,
> {
    match progress {
        FixProgress::Start => Ok(FixStep::Chown { owner: target.0, group: target.1 }),
        FixProgress::ChownDone => Ok(FixStep::Chmod { mode: target.2 }),
        FixProgress::ChownFailed { errno } => Err(FixError::Chown { errno }),
        FixProgress::ChmodDone => Ok(FixStep::Done { mode: target.2 }),
        FixProgress::ChmodFailed { errno } => Err(FixError::Chmod { errno }),
    }
}

/// The next step of the fixup of a path, or the reason why it ends early.
pub open spec fn fix_permissions_spec(
    settings: &Settings,
    facts: &PathFacts,
    progress: FixProgress,
) -> Result<FixStep, FixError> {
    match attributes_spec(settings, facts) {
        Ok(target) => fix_step_spec(target, progress),
        Err(e) => Err(FixError::Attributes(e)),
    }
}

/// Leads the surrounding program through the fixup of one path. It is called
/// with `FixProgress::Start` first, and after each system call with what the
/// call returned, until it answers `FixStep::Done` or an error.
pub fn fix_permissions(settings: &Settings, facts: &PathFacts, progress: FixProgress) -> (r: Result<
    FixStep,
    FixError,
>)
    ensures
        r == fix_permissions_spec(settings, facts, progress),
{
    let (owner, group, mode) = match compute_new_attributes(settings, facts) {
        Ok(target) => target,
        Err(e) => { return Err(FixError::Attributes(e)); },
    };
    match progress {
        FixProgress::Start => Ok(FixStep::Chown { owner, group }),
        FixProgress::ChownDone => Ok(FixStep::Chmod { mode }),
        FixProgress::ChownFailed { errno } => Err(FixError::Chown { errno }),
        FixProgress::ChmodDone => Ok(FixStep::Done { mode }),
        FixProgress::ChmodFailed { errno } => Err(FixError::Chmod { errno }),
    }
}

} // verus!
