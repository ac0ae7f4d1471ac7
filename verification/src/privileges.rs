//! What an identity may do to a resource.

use vstd::prelude::*;

verus! {

/// One capability on a resource.
#[derive(Clone, Copy, Debug, PartialEq, Eq, Structural)]
pub enum UserPrivilege {
    Read,
    Write,
}

/// The capabilities that an identity holds on one resource.
#[derive(Clone, Copy, Debug, PartialEq, Eq, Structural)]
pub struct UserPrivilegeSet {
    pub read: bool,
    pub write: bool,
}

impl View for UserPrivilegeSet {
    type V = Set<UserPrivilege>;

    open spec fn view(&self) -> Set<UserPrivilege> {
        Set::new(
            |p: UserPrivilege|
                match p {
                    UserPrivilege::Read => self.read,
                    UserPrivilege::Write => self.write,
                },
        )
    }
}

impl UserPrivilegeSet {
    /// Every capability.
    pub fn all() -> (set: UserPrivilegeSet)
        ensures
            forall|p: UserPrivilege| set@.contains(p),
    {
        UserPrivilegeSet { read: true, write: true }
    }

    /// No capability at all.
    pub fn none() -> (set: UserPrivilegeSet)
        ensures
            set@ == Set::<UserPrivilege>::empty(),
    {
        let set = UserPrivilegeSet { read: false, write: false };
        assert(set@ =~= Set::<UserPrivilege>::empty());
        set
    }

    /// Reading only.
    pub fn read_only() -> (set: UserPrivilegeSet)
        ensures
            set@ == Set::<UserPrivilege>::empty().insert(UserPrivilege::Read),
    {
        let set = UserPrivilegeSet { read: true, write: false };
        assert(set@ =~= Set::<UserPrivilege>::empty().insert(UserPrivilege::Read));
        set
    }

    /// Every capability for the owner of a resource, none for anybody else.
    pub fn owner_only(is_owner: bool) -> (set: UserPrivilegeSet)
        ensures
            set.read == is_owner,
            set.write == is_owner,
            forall|p: UserPrivilege| set@.contains(p) == is_owner,
    {
        UserPrivilegeSet { read: is_owner, write: is_owner }
    }

    /// Whether the set holds a capability.
    pub fn has(&self, privilege: &UserPrivilege) -> (held: bool)
        ensures
            held == self@.contains(*privilege),
    {
        match privilege {
            UserPrivilege::Read => self.read,
            UserPrivilege::Write => self.write,
        }
    }
}

} // verus!
