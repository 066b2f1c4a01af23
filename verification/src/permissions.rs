use vstd::prelude::*;

verus! {

/// Access permissions of a page mapping.
#[derive(Debug, Clone, Copy, PartialEq, Eq, Structural)]
pub struct PtePermissions {
    pub read: bool,
    pub write: bool,
    pub execute: bool,
    pub user: bool,
    pub cow: bool,
}

impl PtePermissions {
    /// Permissions from their five raw bits.
    pub fn from_raw_bits(read: bool, write: bool, execute: bool, user: bool, cow: bool) -> (r: Self)
        ensures
            r == (PtePermissions { read, write, execute, user, cow }),
    {
        PtePermissions { read, write, execute, user, cow }
    }

    /// Read/write, not executable.
    pub fn rw(user: bool) -> (r: Self)
        ensures
            r == (PtePermissions { read: true, write: true, execute: false, user, cow: false }),
    {
        PtePermissions { read: true, write: true, execute: false, user, cow: false }
    }

    /// Read/execute, not writable.
    pub fn rx(user: bool) -> (r: Self)
        ensures
            r == (PtePermissions { read: true, write: false, execute: true, user, cow: false }),
    {
        PtePermissions { read: true, write: false, execute: true, user, cow: false }
    }

    /// Read, write and execute.
    pub fn rwx(user: bool) -> (r: Self)
        ensures
            r == (PtePermissions { read: true, write: true, execute: true, user, cow: false }),
    {
        PtePermissions { read: true, write: true, execute: true, user, cow: false }
    }

    pub fn is_read(&self) -> (r: bool)
        ensures
            r == self.read,
    {
        self.read
    }

    pub fn is_write(&self) -> (r: bool)
        ensures
            r == self.write,
    {
        self.write
    }

    pub fn is_execute(&self) -> (r: bool)
        ensures
            r == self.execute,
    {
        self.execute
    }

    pub fn is_user(&self) -> (r: bool)
        ensures
            r == self.user,
    {
        self.user
    }

    pub fn is_cow(&self) -> (r: bool)
        ensures
            r == self.cow,
    {
        self.cow
    }

    /// The permissions an x86_64 descriptor can carry: any present
    /// mapping is readable, the other four bits are kept.
    pub open spec fn effective(self) -> PtePermissions {
        PtePermissions { read: true, ..self }
    }
}

} // verus!
