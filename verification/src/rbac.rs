//! Role-based access control: every account holds at most one role, one
//! account is the SuperAdmin, and admins grant and revoke the other roles.
//!
//! Accounts are identified by `u64` ids. Signature checks (`require_auth`)
//! are made by the contract host before these functions are called.
use crate::vecmap::{lemma_key_index, seq_keys_distinct, seq_to_map, VecMap};
use vstd::prelude::*;

verus! {

/// The roles of the platform.
#[derive(Clone, Copy, Debug, PartialEq, Eq, Structural)]
pub enum RoleType {
    /// Controls platform parameters and can add or remove verifiers.
    SuperAdmin,
    /// Agricultural oracles that verify real-world data.
    Verifier,
    /// Participants who can trade carbon credits.
    Trader,
    /// Administrators who may grant and revoke roles.
    Admin,
}

/// Why a role operation was refused.
#[derive(Clone, Copy, Debug, PartialEq, Eq, Structural)]
pub enum Error {
    AlreadyInitialized,
    Unauthorized,
    AddressHasDifferentRole,
    RoleAlreadyAssigned,
    CannotRemoveSuperAdmin,
    RoleNotAssigned,
}

/// The role named by a role string of the public interface.
pub open spec fn role_named(name: Seq<char>) -> Option<RoleType> {
    if name == "Admin"@ {
        Some(RoleType::Admin)
    } else if name == "Verifier"@ {
        Some(RoleType::Verifier)
    } else if name == "Trader"@ {
        Some(RoleType::Trader)
    } else if name == "SuperAdmin"@ {
        Some(RoleType::SuperAdmin)
    } else {
        None
    }
}

/// The number by which `get_role` reports a role (255: no role).
pub open spec fn role_code(r: Option<RoleType>) -> u32 {
    match r {
        Some(RoleType::SuperAdmin) => 0,
        Some(RoleType::Verifier) => 1,
        Some(RoleType::Trader) => 2,
        Some(RoleType::Admin) => 3,
        None => 255,
    }
}

/// The role of `a` in the role map `roles`.
pub open spec fn role_in(roles: Map<u64, RoleType>, a: u64) -> Option<RoleType> {
    if roles.contains_key(a) {
        Some(roles[a])
    } else {
        None
    }
}

/// `a` may administer roles: it holds the Admin or the SuperAdmin role.
pub open spec fn admin_in(roles: Map<u64, RoleType>, a: u64) -> bool {
    role_in(roles, a) == Some(RoleType::Admin) || role_in(roles, a) == Some(RoleType::SuperAdmin)
}

/// The refusal, if any, of giving `role` to `account`: an account that
/// already holds a role cannot be given another one.
pub open spec fn assignment_refusal(roles: Map<u64, RoleType>, account: u64, role: RoleType) -> Option<
    Error,
> {
    match role_in(roles, account) {
        Some(existing) => if existing == role {
            Some(Error::RoleAlreadyAssigned)
        } else {
            Some(Error::AddressHasDifferentRole)
        },
        None => None,
    }
}

/// The state of the role registry.
pub struct RbacContract {
    initialized: bool,
    super_admin: Option<u64>,
    roles: VecMap<u64, RoleType>,
}

impl RbacContract {
    /// Whether `initialize` has succeeded.
    pub closed spec fn initialized_spec(&self) -> bool {
        self.initialized
    }

    /// The recorded SuperAdmin.
    pub closed spec fn super_admin_spec(&self) -> Option<u64> {
        self.super_admin
    }

    /// The role of each account that holds one.
    pub closed spec fn role_map(&self) -> Map<u64, RoleType> {
        self.roles@
    }

    /// The registry's invariant: nothing is recorded before initialization,
    /// a recorded SuperAdmin exists once initialized, and whoever holds the
    /// SuperAdmin role is the recorded SuperAdmin (so at most one account
    /// holds it).
    pub closed spec fn wf(&self) -> bool {
        &&& self.roles.wf()
        &&& !self.initialized ==> self.roles@ == Map::<u64, RoleType>::empty() && self.super_admin
            is None
        &&& self.initialized ==> self.super_admin is Some
        &&& forall|a: u64|
            #[trigger] self.roles@.contains_key(a) && self.roles@[a] == RoleType::SuperAdmin
                ==> self.super_admin == Some(a)
    }

    proof fn lemma_super_admin_holder(&self, a: u64)
        requires
            self.wf(),
            role_in(self.role_map(), a) == Some(RoleType::SuperAdmin),
        ensures
            self.super_admin_spec() == Some(a),
    {
        assert(self.roles@.contains_key(a));
    }

    /// `self` differs from `old` only in its role map, which is `roles`.
    pub open spec fn only_roles_changed(&self, old: &Self, roles: Map<u64, RoleType>) -> bool {
        &&& self.initialized_spec() == old.initialized_spec()
        &&& self.super_admin_spec() == old.super_admin_spec()
        &&& self.role_map() == roles
    }

    /// Whether `initialize` has succeeded.
    pub fn is_initialized(&self) -> (b: bool)
        ensures
            b == self.initialized_spec(),
    {
        self.initialized
    }

    /// An empty, uninitialized registry.
    pub fn new() -> (s: Self)
        ensures
            s.wf(),
            !s.initialized_spec(),
            s.super_admin_spec() is None,
            s.role_map() == Map::<u64, RoleType>::empty(),
    {
        RbacContract { initialized: false, super_admin: None, roles: VecMap::new() }
    }

    /// The role of `account`, if it holds one.
    pub fn read_role(&self, account: u64) -> (r: Option<RoleType>)
        requires
            self.wf(),
        ensures
            r == role_in(self.role_map(), account),
    {
        match self.roles.get(&account) {
            Some(r) => Some(*r),
            None => None,
        }
    }

    fn write_role(&mut self, account: u64, role: RoleType)
        requires
            old(self).roles.wf(),
        ensures
            final(self).roles.wf(),
            final(self).only_roles_changed(old(self), old(self).role_map().insert(account, role)),
    {
        self.roles.insert(account, role);
    }

    fn remove_role(&mut self, account: u64)
        requires
            old(self).roles.wf(),
        ensures
            final(self).roles.wf(),
            final(self).only_roles_changed(old(self), old(self).role_map().remove(account)),
    {
        self.roles.remove(&account);
    }

    /// Makes `admin` the SuperAdmin of a fresh registry.
    pub fn initialize(&mut self, admin: u64) -> (r: Result<(), Error>)
        requires
            old(self).wf(),
        ensures
            final(self).wf(),
            old(self).initialized_spec() ==> r == Err::<(), Error>(Error::AlreadyInitialized) && *final(self) == *old(self),
            !old(self).initialized_spec() ==> {
                &&& r is Ok
                &&& final(self).initialized_spec()
                &&& final(self).super_admin_spec() == Some(admin)
                &&& final(self).role_map() == Map::<u64, RoleType>::empty().insert(
                    admin,
                    RoleType::SuperAdmin,
                )
            },
    {
        if self.initialized {
            return Err(Error::AlreadyInitialized);
        }
        self.initialized = true;
        self.super_admin = Some(admin);
        self.write_role(admin, RoleType::SuperAdmin);
        Ok(())
    }

    /// Whether `account` may administer roles.
    pub fn is_admin(&self, account: u64) -> (b: bool)
        requires
            self.wf(),
        ensures
            b == admin_in(self.role_map(), account),
    {
        match self.read_role(account) {
            Some(RoleType::Admin) => true,
            Some(RoleType::SuperAdmin) => true,
            _ => false,
        }
    }

    /// Whether `account` holds the SuperAdmin role.
    pub fn is_super_admin(&self, account: u64) -> (b: bool)
        requires
            self.wf(),
        ensures
            b == (role_in(self.role_map(), account) == Some(RoleType::SuperAdmin)),
    {
        match self.read_role(account) {
            Some(RoleType::SuperAdmin) => true,
            _ => false,
        }
    }

    /// Whether `account` holds the Verifier role.
    pub fn is_verifier(&self, account: u64) -> (b: bool)
        requires
            self.wf(),
        ensures
            b == (role_in(self.role_map(), account) == Some(RoleType::Verifier)),
    {
        match self.read_role(account) {
            Some(RoleType::Verifier) => true,
            _ => false,
        }
    }

    /// Whether `account` holds the Trader role.
    pub fn is_trader(&self, account: u64) -> (b: bool)
        requires
            self.wf(),
        ensures
            b == (role_in(self.role_map(), account) == Some(RoleType::Trader)),
    {
        match self.read_role(account) {
            Some(RoleType::Trader) => true,
            _ => false,
        }
    }

    /// Gives `role` to `account` unless it already holds a role.
    fn assign(&mut self, account: u64, role: RoleType) -> (r: Result<(), Error>)
        requires
            old(self).wf(),
            old(self).initialized_spec(),
            role != RoleType::SuperAdmin,
        ensures
            final(self).wf(),
            role_in(old(self).role_map(), account) is Some ==> r is Err && *final(self) == *old(self),
            r is Ok ==> role_in(old(self).role_map(), account) is None && role_in(
                final(self).role_map(),
                account,
            ) == Some(role),
            match assignment_refusal(old(self).role_map(), account, role) {
                Some(e) => r == Err::<(), Error>(e) && *final(self) == *old(self),
                None => r is Ok && final(self).only_roles_changed(
                    old(self),
                    old(self).role_map().insert(account, role),
                ),
            },
    {
        match self.read_role(account) {
            Some(existing) => {
                if existing != role {
                    Err(Error::AddressHasDifferentRole)
                } else {
                    Err(Error::RoleAlreadyAssigned)
                }
            },
            None => {
                self.write_role(account, role);
                Ok(())
            },
        }
    }

    /// Takes away `role` from `account` if it holds exactly that role.
    fn unassign(&mut self, account: u64, role: RoleType) -> (r: Result<(), Error>)
        requires
            old(self).wf(),
            role != RoleType::SuperAdmin,
        ensures
            final(self).wf(),
            role_in(old(self).role_map(), account) != Some(role) ==> r == Err::<(), Error>(
                Error::RoleNotAssigned,
            ) && *final(self) == *old(self),
            role_in(old(self).role_map(), account) == Some(role) ==> r is Ok
                && final(self).only_roles_changed(old(self), old(self).role_map().remove(account)),
    {
        match self.read_role(account) {
            Some(existing) => {
                if existing == role {
                    self.remove_role(account);
                    Ok(())
                } else {
                    Err(Error::RoleNotAssigned)
                }
            },
            None => Err(Error::RoleNotAssigned),
        }
    }

    /// `admin` makes `account` an Admin.
    pub fn grant_admin(&mut self, admin: u64, account: u64) -> (r: Result<(), Error>)
        requires
            old(self).wf(),
        ensures
            final(self).wf(),
            role_in(old(self).role_map(), account) is Some ==> r is Err && *final(self) == *old(self),
            r is Ok ==> role_in(old(self).role_map(), account) is None && role_in(
                final(self).role_map(),
                account,
            ) == Some(RoleType::Admin),
            !admin_in(old(self).role_map(), admin) ==> r == Err::<(), Error>(Error::Unauthorized)
                && *final(self) == *old(self),
            admin_in(old(self).role_map(), admin) ==> match assignment_refusal(
                old(self).role_map(),
                account,
                RoleType::Admin,
            ) {
                Some(e) => r == Err::<(), Error>(e) && *final(self) == *old(self),
                None => r is Ok && final(self).only_roles_changed(
                    old(self),
                    old(self).role_map().insert(account, RoleType::Admin),
                ),
            },
    {
        if !self.is_admin(admin) {
            return Err(Error::Unauthorized);
        }
        self.assign(account, RoleType::Admin)
    }

    /// `admin` makes `account` a Verifier.
    pub fn grant_verifier(&mut self, admin: u64, account: u64) -> (r: Result<(), Error>)
        requires
            old(self).wf(),
        ensures
            final(self).wf(),
            role_in(old(self).role_map(), account) is Some ==> r is Err && *final(self) == *old(self),
            r is Ok ==> role_in(old(self).role_map(), account) is None && role_in(
                final(self).role_map(),
                account,
            ) == Some(RoleType::Verifier),
            !admin_in(old(self).role_map(), admin) ==> r == Err::<(), Error>(Error::Unauthorized)
                && *final(self) == *old(self),
            admin_in(old(self).role_map(), admin) ==> match assignment_refusal(
                old(self).role_map(),
                account,
                RoleType::Verifier,
            ) {
                Some(e) => r == Err::<(), Error>(e) && *final(self) == *old(self),
                None => r is Ok && final(self).only_roles_changed(
                    old(self),
                    old(self).role_map().insert(account, RoleType::Verifier),
                ),
            },
    {
        if !self.is_admin(admin) {
            return Err(Error::Unauthorized);
        }
        self.assign(account, RoleType::Verifier)
    }

    /// `admin` makes `account` a Trader.
    pub fn grant_trader(&mut self, admin: u64, account: u64) -> (r: Result<(), Error>)
        requires
            old(self).wf(),
        ensures
            final(self).wf(),
            role_in(old(self).role_map(), account) is Some ==> r is Err && *final(self) == *old(self),
            r is Ok ==> role_in(old(self).role_map(), account) is None && role_in(
                final(self).role_map(),
                account,
            ) == Some(RoleType::Trader),
            !admin_in(old(self).role_map(), admin) ==> r == Err::<(), Error>(Error::Unauthorized)
                && *final(self) == *old(self),
            admin_in(old(self).role_map(), admin) ==> match assignment_refusal(
                old(self).role_map(),
                account,
                RoleType::Trader,
            ) {
                Some(e) => r == Err::<(), Error>(e) && *final(self) == *old(self),
                None => r is Ok && final(self).only_roles_changed(
                    old(self),
                    old(self).role_map().insert(account, RoleType::Trader),
                ),
            },
    {
        if !self.is_admin(admin) {
            return Err(Error::Unauthorized);
        }
        self.assign(account, RoleType::Trader)
    }

    /// `admin` takes away the role of `account`; the SuperAdmin role cannot
    /// be taken away.
    pub fn revoke_role(&mut self, admin: u64, account: u64) -> (r: Result<(), Error>)
        requires
            old(self).wf(),
        ensures
            final(self).wf(),
            !admin_in(old(self).role_map(), admin) ==> r == Err::<(), Error>(Error::Unauthorized)
                && *final(self) == *old(self),
            admin_in(old(self).role_map(), admin) ==> match role_in(old(self).role_map(), account) {
                Some(RoleType::SuperAdmin) => r == Err::<(), Error>(Error::CannotRemoveSuperAdmin)
                    && *final(self) == *old(self),
                Some(_) => r is Ok && final(self).only_roles_changed(
                    old(self),
                    old(self).role_map().remove(account),
                ),
                None => r == Err::<(), Error>(Error::RoleNotAssigned) && *final(self) == *old(self),
            },
    {
        if !self.is_admin(admin) {
            return Err(Error::Unauthorized);
        }
        if self.is_super_admin(account) {
            return Err(Error::CannotRemoveSuperAdmin);
        }
        match self.read_role(account) {
            Some(RoleType::Admin) => {
                self.remove_role(account);
                Ok(())
            },
            Some(RoleType::Verifier) => {
                self.remove_role(account);
                Ok(())
            },
            Some(RoleType::Trader) => {
                self.remove_role(account);
                Ok(())
            },
            Some(RoleType::SuperAdmin) => Err(Error::CannotRemoveSuperAdmin),
            None => Err(Error::RoleNotAssigned),
        }
    }

    /// The SuperAdmin makes `account` a Verifier.
    pub fn add_verifier(&mut self, account: u64) -> (r: Result<(), Error>)
        requires
            old(self).wf(),
            old(self).initialized_spec(),
        ensures
            final(self).wf(),
            role_in(old(self).role_map(), account) is Some ==> r is Err && *final(self) == *old(self),
            r is Ok ==> role_in(old(self).role_map(), account) is None && role_in(
                final(self).role_map(),
                account,
            ) == Some(RoleType::Verifier),
            match assignment_refusal(old(self).role_map(), account, RoleType::Verifier) {
                Some(e) => r == Err::<(), Error>(e) && *final(self) == *old(self),
                None => r is Ok && final(self).only_roles_changed(
                    old(self),
                    old(self).role_map().insert(account, RoleType::Verifier),
                ),
            },
    {
        self.assign(account, RoleType::Verifier)
    }

    /// The SuperAdmin makes `account` a Trader.
    pub fn add_trader(&mut self, account: u64) -> (r: Result<(), Error>)
        requires
            old(self).wf(),
            old(self).initialized_spec(),
        ensures
            final(self).wf(),
            role_in(old(self).role_map(), account) is Some ==> r is Err && *final(self) == *old(self),
            r is Ok ==> role_in(old(self).role_map(), account) is None && role_in(
                final(self).role_map(),
                account,
            ) == Some(RoleType::Trader),
            match assignment_refusal(old(self).role_map(), account, RoleType::Trader) {
                Some(e) => r == Err::<(), Error>(e) && *final(self) == *old(self),
                None => r is Ok && final(self).only_roles_changed(
                    old(self),
                    old(self).role_map().insert(account, RoleType::Trader),
                ),
            },
    {
        self.assign(account, RoleType::Trader)
    }

    /// The SuperAdmin takes away the Verifier role of `account`.
    pub fn remove_verifier(&mut self, account: u64) -> (r: Result<(), Error>)
        requires
            old(self).wf(),
            old(self).initialized_spec(),
        ensures
            final(self).wf(),
            role_in(old(self).role_map(), account) != Some(RoleType::Verifier) ==> r == Err::<
                (),
                Error,
            >(Error::RoleNotAssigned) && *final(self) == *old(self),
            role_in(old(self).role_map(), account) == Some(RoleType::Verifier) ==> r is Ok
                && final(self).only_roles_changed(old(self), old(self).role_map().remove(account)),
    {
        self.unassign(account, RoleType::Verifier)
    }

    /// The SuperAdmin takes away the Trader role of `account`.
    pub fn remove_trader(&mut self, account: u64) -> (r: Result<(), Error>)
        requires
            old(self).wf(),
            old(self).initialized_spec(),
        ensures
            final(self).wf(),
            role_in(old(self).role_map(), account) != Some(RoleType::Trader) ==> r == Err::<
                (),
                Error,
            >(Error::RoleNotAssigned) && *final(self) == *old(self),
            role_in(old(self).role_map(), account) == Some(RoleType::Trader) ==> r is Ok
                && final(self).only_roles_changed(old(self), old(self).role_map().remove(account)),
    {
        self.unassign(account, RoleType::Trader)
    }

    /// Whether `account` holds the role named `role`. "Admin" is held by
    /// every account that may administer roles (Admins and the SuperAdmin);
    /// an unknown role name is held by nobody.
    pub fn has_role(&self, account: u64, role: &String) -> (b: bool)
        requires
            self.wf(),
        ensures
            b == match role_named(role@) {
                Some(RoleType::Admin) => admin_in(self.role_map(), account),
                Some(named) => role_in(self.role_map(), account) == Some(named),
                None => false,
            },
            role@ == "Admin"@ ==> (b <==> admin_in(self.role_map(), account)),
            role@ == "Verifier"@ ==> (b <==> role_in(self.role_map(), account) == Some(
                RoleType::Verifier,
            )),
            role@ == "Trader"@ ==> (b <==> role_in(self.role_map(), account) == Some(
                RoleType::Trader,
            )),
            role@ == "SuperAdmin"@ ==> (b <==> role_in(self.role_map(), account) == Some(
                RoleType::SuperAdmin,
            )),
    {
        proof {
            law_role_names_name_their_roles();
        }
        if *role == String::from_str("Admin") {
            self.is_admin(account)
        } else if *role == String::from_str("Verifier") {
            self.is_verifier(account)
        } else if *role == String::from_str("Trader") {
            self.is_trader(account)
        } else if *role == String::from_str("SuperAdmin") {
            self.is_super_admin(account)
        } else {
            false
        }
    }

    /// The recorded SuperAdmin.
    pub fn get_super_admin(&self) -> (a: u64)
        requires
            self.wf(),
            self.initialized_spec(),
        ensures
            self.super_admin_spec() == Some(a),
    {
        match self.super_admin {
            Some(a) => a,
            None => 0,
        }
    }

    /// The number of the role of `account`: 0 SuperAdmin, 1 Verifier,
    /// 2 Trader, 3 Admin, 255 none.
    pub fn get_role(&self, account: u64) -> (n: u32)
        requires
            self.wf(),
        ensures
            n == role_code(role_in(self.role_map(), account)),
    {
        match self.read_role(account) {
            Some(RoleType::SuperAdmin) => 0,
            Some(RoleType::Verifier) => 1,
            Some(RoleType::Trader) => 2,
            Some(RoleType::Admin) => 3,
            None => 255,
        }
    }

    /// The SuperAdmin `old_admin` hands the SuperAdmin role to `new_admin`,
    /// whose earlier role is replaced, and loses its own role.
    pub fn transfer_admin(&mut self, old_admin: u64, new_admin: u64) -> (r: Result<(), Error>)
        requires
            old(self).wf(),
        ensures
            final(self).wf(),
            role_in(old(self).role_map(), old_admin) != Some(RoleType::SuperAdmin) ==> r == Err::<
                (),
                Error,
            >(Error::Unauthorized) && *final(self) == *old(self),
            role_in(old(self).role_map(), old_admin) == Some(RoleType::SuperAdmin) ==> {
                &&& r is Ok
                &&& final(self).initialized_spec() == old(self).initialized_spec()
                &&& final(self).super_admin_spec() == Some(new_admin)
                &&& final(self).role_map() == old(self).role_map().insert(
                    new_admin,
                    RoleType::SuperAdmin,
                ).remove(old_admin)
            },
    {
        if !self.is_super_admin(old_admin) {
            return Err(Error::Unauthorized);
        }
        self.super_admin = Some(new_admin);
        self.write_role(new_admin, RoleType::SuperAdmin);
        self.remove_role(old_admin);
        Ok(())
    }
}

/// A grant never replaces a role: giving any role to an account that
/// already holds one is refused, and only an account with no role can be
/// given one.
pub proof fn law_grant_never_replaces_a_role(roles: Map<u64, RoleType>, account: u64, role: RoleType)
    ensures
        assignment_refusal(roles, account, role) is Some <==> role_in(roles, account) is Some,
        role_in(roles, account) == Some(role) ==> assignment_refusal(roles, account, role) == Some(
            Error::RoleAlreadyAssigned,
        ),
        role_in(roles, account) is Some && role_in(roles, account) != Some(role)
            ==> assignment_refusal(roles, account, role) == Some(Error::AddressHasDifferentRole),
{
}

/// Each of the four role names of the public interface names its own role,
/// and no two of them name the same one; every other string names none.
pub proof fn law_role_names_name_their_roles()
    ensures
        role_named("Admin"@) == Some(RoleType::Admin),
        role_named("Verifier"@) == Some(RoleType::Verifier),
        role_named("Trader"@) == Some(RoleType::Trader),
        role_named("SuperAdmin"@) == Some(RoleType::SuperAdmin),
        forall|name: Seq<char>|
            name != "Admin"@ && name != "Verifier"@ && name != "Trader"@ && name != "SuperAdmin"@
                ==> #[trigger] role_named(name) is None,
{
    reveal_strlit("Admin");
    reveal_strlit("Verifier");
    reveal_strlit("Trader");
    reveal_strlit("SuperAdmin");
    // The four names have different lengths, so no two are equal.
    assert("Admin"@.len() == 5 && "Verifier"@.len() == 8 && "Trader"@.len() == 6
        && "SuperAdmin"@.len() == 10);
}

/// At most one account holds the SuperAdmin role, and it is the recorded
/// SuperAdmin.
pub proof fn law_single_super_admin(s: &RbacContract, a: u64, b: u64)
    requires
        s.wf(),
        role_in(s.role_map(), a) == Some(RoleType::SuperAdmin),
        role_in(s.role_map(), b) == Some(RoleType::SuperAdmin),
    ensures
        a == b,
        s.super_admin_spec() == Some(a),
{
    s.lemma_super_admin_holder(a);
    s.lemma_super_admin_holder(b);
}

/// Adding a verifier that held no role and then removing it leaves the
/// roles as they were.
pub proof fn law_add_then_remove_verifier(
    s0: &RbacContract,
    s1: &RbacContract,
    s2: &RbacContract,
    account: u64,
)
    requires
        role_in(s0.role_map(), account) is None,
        s1.only_roles_changed(s0, s0.role_map().insert(account, RoleType::Verifier)),
        s2.only_roles_changed(s1, s1.role_map().remove(account)),
    ensures
        s2.role_map() == s0.role_map(),
        s2.super_admin_spec() == s0.super_admin_spec(),
        s2.initialized_spec() == s0.initialized_spec(),
{
    assert(s2.role_map() =~= s0.role_map());
}

/// Revoking the Verifier role of an account (what `remove_verifier` does
/// to a verifier) leaves that account with no role at all, so that it is
/// neither a verifier, a trader nor the SuperAdmin, and leaves the role of
/// every other account as it was.
pub proof fn law_revoked_verifier_holds_no_role(
    s0: &RbacContract,
    s1: &RbacContract,
    account: u64,
    other: u64,
)
    requires
        role_in(s0.role_map(), account) == Some(RoleType::Verifier),
        s1.only_roles_changed(s0, s0.role_map().remove(account)),
        other != account,
    ensures
        role_in(s1.role_map(), account) is None,
        role_in(s1.role_map(), account) != Some(RoleType::Verifier),
        role_in(s1.role_map(), account) != Some(RoleType::Trader),
        role_in(s1.role_map(), account) != Some(RoleType::SuperAdmin),
        role_in(s1.role_map(), other) == role_in(s0.role_map(), other),
{
}

/// The state of the role registry as plain values, for keeping it in
/// contract storage between calls.
pub struct RbacParts {
    pub initialized: bool,
    pub super_admin: Option<u64>,
    pub roles: Vec<(u64, RoleType)>,
}

/// Plain values that make up a well-formed role registry.
pub open spec fn rbac_parts_valid(
    initialized: bool,
    super_admin: Option<u64>,
    roles: Seq<(u64, RoleType)>,
) -> bool {
    &&& seq_keys_distinct(roles)
    &&& !initialized ==> roles.len() == 0 && super_admin is None
    &&& initialized ==> super_admin is Some
    &&& forall|i: int|
        0 <= i < roles.len() && (#[trigger] roles[i]).1 == RoleType::SuperAdmin ==> super_admin
            == Some(roles[i].0)
}

/// Whether every holder of the SuperAdmin role among `roles` is
/// `super_admin`.
fn super_admin_holders_ok(roles: &Vec<(u64, RoleType)>, super_admin: Option<u64>) -> (b: bool)
    ensures
        b == forall|i: int|
            0 <= i < roles@.len() && (#[trigger] roles@[i]).1 == RoleType::SuperAdmin ==> super_admin
                == Some(roles@[i].0),
{
    let mut i: usize = 0;
    while i < roles.len()
        invariant
            i <= roles@.len(),
            forall|j: int|
                0 <= j < i && (#[trigger] roles@[j]).1 == RoleType::SuperAdmin ==> super_admin
                    == Some(roles@[j].0),
        decreases roles@.len() - i,
    {
        let (account, role) = roles[i];
        if role == RoleType::SuperAdmin {
            let holds = match super_admin {
                Some(a) => a == account,
                None => false,
            };
            if !holds {
                assert(roles@[i as int].1 == RoleType::SuperAdmin && super_admin != Some(
                    roles@[i as int].0,
                ));
                return false;
            }
        }
        i = i + 1;
    }
    true
}

impl RbacContract {
    /// The registry as plain values.
    pub fn into_parts(self) -> (p: RbacParts)
        requires
            self.wf(),
        ensures
            rbac_parts_valid(p.initialized, p.super_admin, p.roles@),
            p.initialized == self.initialized_spec(),
            p.super_admin == self.super_admin_spec(),
            seq_to_map(p.roles@) == self.role_map(),
    {
        proof {
            self.roles.lemma_entries();
            let s = self.roles.entry_seq();
            if s.len() > 0 {
                lemma_key_index(s, 0);
                assert(self.roles@.contains_key(s[0].0));
            }
            assert forall|i: int|
                0 <= i < s.len() && (#[trigger] s[i]).1 == RoleType::SuperAdmin implies self.super_admin
                    == Some(s[i].0) by {
                lemma_key_index(s, i);
                assert(self.roles@.contains_key(s[i].0));
            }
        }
        RbacParts {
            initialized: self.initialized,
            super_admin: self.super_admin,
            roles: self.roles.into_entries(),
        }
    }

    /// The registry made of `p`, if `p` describes a well-formed one.
    pub fn from_parts(p: RbacParts) -> (r: Option<Self>)
        ensures
            r is Some <==> rbac_parts_valid(p.initialized, p.super_admin, p.roles@),
            r matches Some(s) ==> {
                &&& s.wf()
                &&& s.initialized_spec() == p.initialized
                &&& s.super_admin_spec() == p.super_admin
                &&& s.role_map() == seq_to_map(p.roles@)
            },
    {
        let RbacParts { initialized, super_admin, roles } = p;
        if !initialized && (roles.len() > 0 || super_admin.is_some()) {
            return None;
        }
        if initialized && super_admin.is_none() {
            return None;
        }
        if !super_admin_holders_ok(&roles, super_admin) {
            return None;
        }
        let ghost seq = roles@;
        let map = match VecMap::from_entries(roles) {
            Some(m) => m,
            None => return None,
        };
        let s = RbacContract { initialized, super_admin, roles: map };
        proof {
            assert forall|a: u64|
                #[trigger] s.roles@.contains_key(a) && s.roles@[a] == RoleType::SuperAdmin
                    implies s.super_admin == Some(a) by {
                let k = crate::vecmap::seq_key_index(seq, a);
                assert(seq[k].0 == a);
            }
            if !initialized {
                assert(s.roles@ =~= Map::<u64, RoleType>::empty());
            }
        }
        Some(s)
    }
}

} // verus!
