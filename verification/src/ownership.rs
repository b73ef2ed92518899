//! What is read of a filesystem entry, and what is decided about it.

use vstd::prelude::*;

verus! {

/// The device and inode of a filesystem object: every path of one object has
/// the same identity.
#[derive(Clone, Copy, Debug, PartialEq, Eq, Hash, Structural)]
pub struct FileIdentity {
    pub device_id: u64,
    pub inode_number: u64,
}

/// The ownership of one entry as it was read, without following symbolic links.
#[derive(Clone, Copy, Debug, PartialEq, Eq, Structural)]
pub struct OwnershipSnapshot {
    pub uid: u32,
    pub gid: u32,
    pub link_count: u64,
    pub device_id: u64,
    pub inode_number: u64,
    pub is_symlink: bool,
}

impl OwnershipSnapshot {
    pub open spec fn spec_identity(&self) -> FileIdentity {
        FileIdentity { device_id: self.device_id, inode_number: self.inode_number }
    }

    /// The identity of the object that the entry names.
    #[verifier::when_used_as_spec(spec_identity)]
    pub fn identity(&self) -> (identity: FileIdentity)
        ensures
            identity == self.spec_identity(),
    {
        FileIdentity { device_id: self.device_id, inode_number: self.inode_number }
    }
}

/// The owner and group to set on an entry; `None` leaves the value as it is.
#[derive(Clone, Copy, Debug, PartialEq, Eq, Structural)]
pub struct RemapOutcome {
    pub new_uid: Option<u32>,
    pub new_gid: Option<u32>,
}

impl RemapOutcome {
    pub open spec fn spec_changes_ownership(&self) -> bool {
        self.new_uid is Some || self.new_gid is Some
    }

    /// Whether at least one of owner and group is to be set.
    #[verifier::when_used_as_spec(spec_changes_ownership)]
    pub fn changes_ownership(&self) -> (changes: bool)
        ensures
            changes == self.spec_changes_ownership(),
    {
        self.new_uid.is_some() || self.new_gid.is_some()
    }

    pub open spec fn spec_resulting_uid(&self, current: u32) -> u32 {
        match self.new_uid {
            Some(uid) => uid,
            None => current,
        }
    }

    /// The owner of an entry once the outcome is applied to it.
    #[verifier::when_used_as_spec(spec_resulting_uid)]
    pub fn resulting_uid(&self, current: u32) -> (uid: u32)
        ensures
            uid == self.spec_resulting_uid(current),
    {
        match self.new_uid {
            Some(uid) => uid,
            None => current,
        }
    }

    pub open spec fn spec_resulting_gid(&self, current: u32) -> u32 {
        match self.new_gid {
            Some(gid) => gid,
            None => current,
        }
    }

    /// The group of an entry once the outcome is applied to it.
    #[verifier::when_used_as_spec(spec_resulting_gid)]
    pub fn resulting_gid(&self, current: u32) -> (gid: u32)
        ensures
            gid == self.spec_resulting_gid(current),
    {
        match self.new_gid {
            Some(gid) => gid,
            None => current,
        }
    }
}

} // verus!
