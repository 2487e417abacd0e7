//! The admin policy: who administers the registry, which names are
//! reserved, and who may register short names.

use crate::collections::{with_member, without_member, KeySet};
use crate::identity::Identity;
use crate::names::{byte_length, name_length, SHORT_NAME_LIMIT};
use vstd::prelude::*;

verus! {

/// Who may register a name shorter than five bytes, administrators aside.
#[derive(Clone, Copy, Debug, PartialEq, Eq, Structural)]
pub enum RegistrationMode {
    /// Everyone.
    Open,
    /// The approved identities only.
    WhitelistOnly,
    /// Nobody.
    Closed,
}

/// Why an administrative change was refused.
#[derive(Clone, Copy, Debug, PartialEq, Eq, Structural)]
pub enum AdminError {
    /// The caller is not an administrator.
    NotAdmin,
    /// The last administrator cannot be removed.
    LastAdmin,
}

/// The mathematical value of an [`AdminPolicy`].
pub struct PolicyView {
    pub admins: Seq<Seq<u8>>,
    pub approved_short_users: Seq<Seq<u8>>,
    pub reserved_names: Seq<Seq<char>>,
    pub short_name_mode: RegistrationMode,
}

/// The names that are reserved from the start.
pub open spec fn initial_reserved_names() -> Seq<Seq<char>> {
    seq![
        "icp"@,
        "api"@,
        "www"@,
        "admin"@,
        "root"@,
        "system"@,
        "registry"@,
        "canister"@,
        "dfinity"@,
        "ic"@,
    ]
}

/// The policy of a fresh registry with one administrator.
pub open spec fn initial_policy(admin: Seq<u8>) -> PolicyView {
    PolicyView {
        admins: seq![admin],
        approved_short_users: Seq::empty(),
        reserved_names: initial_reserved_names(),
        short_name_mode: RegistrationMode::WhitelistOnly,
    }
}

/// The invariant of the policy: no member is listed twice, and there is an
/// administrator.
pub open spec fn policy_wf(p: PolicyView) -> bool {
    &&& p.admins.no_duplicates()
    &&& p.admins.len() >= 1
    &&& p.approved_short_users.no_duplicates()
    &&& p.reserved_names.no_duplicates()
}

/// Whether `caller` may register `name` as far as its length goes: a name of
/// five bytes or more is open to all, a shorter one to administrators and
/// otherwise as the short-name mode says.
pub open spec fn short_name_allowed(p: PolicyView, name: Seq<char>, caller: Seq<u8>) -> bool {
    name_length(name) >= SHORT_NAME_LIMIT || p.admins.contains(caller) || match p.short_name_mode {
        RegistrationMode::Open => true,
        RegistrationMode::WhitelistOnly => p.approved_short_users.contains(caller),
        RegistrationMode::Closed => false,
    }
}

/// The first characters and lengths of the initially reserved names tell
/// them apart.
proof fn lemma_initial_reserved_names()
    ensures
        initial_reserved_names().no_duplicates(),
        initial_reserved_names() == with_member(
            with_member(
                with_member(
                    with_member(
                        with_member(
                            with_member(
                                with_member(
                                    with_member(
                                        with_member(
                                            with_member(Seq::<Seq<char>>::empty(), "icp"@),
                                            "api"@,
                                        ),
                                        "www"@,
                                    ),
                                    "admin"@,
                                ),
                                "root"@,
                            ),
                            "system"@,
                        ),
                        "registry"@,
                    ),
                    "canister"@,
                ),
                "dfinity"@,
            ),
            "ic"@,
        ),
{
    reveal_strlit("icp");
    reveal_strlit("api");
    reveal_strlit("www");
    reveal_strlit("admin");
    reveal_strlit("root");
    reveal_strlit("system");
    reveal_strlit("registry");
    reveal_strlit("canister");
    reveal_strlit("dfinity");
    reveal_strlit("ic");
    let names = initial_reserved_names();
    let mark = |s: Seq<char>| (s.len(), s[0]);
    assert(mark(names[0]) == (3nat, 'i'));
    assert(mark(names[1]) == (3nat, 'a'));
    assert(mark(names[2]) == (3nat, 'w'));
    assert(mark(names[3]) == (5nat, 'a'));
    assert(mark(names[4]) == (4nat, 'r'));
    assert(mark(names[5]) == (6nat, 's'));
    assert(mark(names[6]) == (8nat, 'r'));
    assert(mark(names[7]) == (8nat, 'c'));
    assert(mark(names[8]) == (7nat, 'd'));
    assert(mark(names[9]) == (2nat, 'i'));
    assert forall|i: int, j: int| 0 <= i < names.len() && 0 <= j < names.len() && i != j implies names[i]
        != names[j] by {
        assert(mark(names[i]) != mark(names[j]));
    }
    let s0 = Seq::<Seq<char>>::empty();
    let s1 = with_member(s0, names[0]);
    assert(s1 =~= names.take(1));
    let s2 = with_member(s1, names[1]);
    assert(!s1.contains(names[1]));
    assert(s2 =~= names.take(2));
    let s3 = with_member(s2, names[2]);
    assert(!s2.contains(names[2]));
    assert(s3 =~= names.take(3));
    let s4 = with_member(s3, names[3]);
    assert(!s3.contains(names[3]));
    assert(s4 =~= names.take(4));
    let s5 = with_member(s4, names[4]);
    assert(!s4.contains(names[4]));
    assert(s5 =~= names.take(5));
    let s6 = with_member(s5, names[5]);
    assert(!s5.contains(names[5]));
    assert(s6 =~= names.take(6));
    let s7 = with_member(s6, names[6]);
    assert(!s6.contains(names[6]));
    assert(s7 =~= names.take(7));
    let s8 = with_member(s7, names[7]);
    assert(!s7.contains(names[7]));
    assert(s8 =~= names.take(8));
    let s9 = with_member(s8, names[8]);
    assert(!s8.contains(names[8]));
    assert(s9 =~= names.take(9));
    let s10 = with_member(s9, names[9]);
    assert(!s9.contains(names[9]));
    assert(s10 =~= names);
}

/// The policy of a fresh registry is well-formed.
pub proof fn lemma_initial_policy_is_wf(admin: Seq<u8>)
    ensures
        policy_wf(initial_policy(admin)),
{
    lemma_initial_reserved_names();
}

/// The administrators, the reserved names and the short-name rules.
pub struct AdminPolicy {
    admins: KeySet<Identity>,
    approved: KeySet<Identity>,
    reserved: KeySet<String>,
    mode: RegistrationMode,
}

impl View for AdminPolicy {
    type V = PolicyView;

    closed spec fn view(&self) -> PolicyView {
        PolicyView {
            admins: self.admins@,
            approved_short_users: self.approved@,
            reserved_names: self.reserved@,
            short_name_mode: self.mode,
        }
    }
}

impl AdminPolicy {
    /// The invariant of the policy.
    pub open spec fn wf(&self) -> bool {
        policy_wf(self@)
    }

    /// The policy of a fresh registry: `admin` administers it, the fixed
    /// list of names is reserved, and short names go to approved identities
    /// only, of which there are none yet.
    pub fn new(admin: Identity) -> (r: Self)
        ensures
            r.wf(),
            r@ == initial_policy(admin@),
    {
        let ghost admin_view = admin@;
        let mut admins: KeySet<Identity> = KeySet::new();
        admins.insert(admin);
        assert(admins@ =~= seq![admin_view]);
        let mut reserved: KeySet<String> = KeySet::new();
        reserved.insert("icp".to_owned());
        reserved.insert("api".to_owned());
        reserved.insert("www".to_owned());
        reserved.insert("admin".to_owned());
        reserved.insert("root".to_owned());
        reserved.insert("system".to_owned());
        reserved.insert("registry".to_owned());
        reserved.insert("canister".to_owned());
        reserved.insert("dfinity".to_owned());
        reserved.insert("ic".to_owned());
        proof {
            lemma_initial_reserved_names();
        }
        AdminPolicy {
            admins,
            approved: KeySet::new(),
            reserved,
            mode: RegistrationMode::WhitelistOnly,
        }
    }

    /// Whether `who` is an administrator.
    pub fn is_admin(&self, who: &Identity) -> (r: bool)
        ensures
            r == self@.admins.contains(who@),
    {
        self.admins.contains(who)
    }

    /// Whether `name` is reserved.
    pub fn is_reserved_name(&self, name: &str) -> (r: bool)
        ensures
            r == self@.reserved_names.contains(name@),
    {
        let owned = name.to_owned();
        self.reserved.contains(&owned)
    }

    /// Whether `caller` may register `name` as far as its length goes.
    pub fn can_register_short_domain(&self, name: &str, caller: &Identity) -> (r: bool)
        ensures
            r == short_name_allowed(self@, name@, caller@),
    {
        if byte_length(name) >= SHORT_NAME_LIMIT {
            return true;
        }
        if self.is_admin(caller) {
            return true;
        }
        match self.mode {
            RegistrationMode::Open => true,
            RegistrationMode::WhitelistOnly => self.approved.contains(caller),
            RegistrationMode::Closed => false,
        }
    }

    /// Makes `new_admin` an administrator. Only an administrator may.
    pub fn add_admin(&mut self, new_admin: Identity, caller: &Identity) -> (r: Result<
        (),
        AdminError,
    >)
        requires
            old(self).wf(),
        ensures
            final(self).wf(),
            old(self)@.admins.contains(caller@) ==> r is Ok && final(self)@ == (PolicyView {
                admins: with_member(old(self)@.admins, new_admin@),
                ..old(self)@
            }),
            !old(self)@.admins.contains(caller@) ==> r == Err::<(), AdminError>(
                AdminError::NotAdmin,
            ) && final(self)@ == old(self)@,
    {
        if !self.is_admin(caller) {
            return Err(AdminError::NotAdmin);
        }
        self.admins.insert(new_admin);
        Ok(())
    }

    /// Removes `admin` from the administrators. Only an administrator may,
    /// and not while there is but one administrator.
    pub fn remove_admin(&mut self, admin: &Identity, caller: &Identity) -> (r: Result<
        (),
        AdminError,
    >)
        requires
            old(self).wf(),
        ensures
            final(self).wf(),
            !old(self)@.admins.contains(caller@) ==> r == Err::<(), AdminError>(
                AdminError::NotAdmin,
            ) && final(self)@ == old(self)@,
            old(self)@.admins.contains(caller@) && old(self)@.admins.len() <= 1 ==> r == Err::<
                (),
                AdminError,
            >(AdminError::LastAdmin) && final(self)@ == old(self)@,
            old(self)@.admins.contains(caller@) && old(self)@.admins.len() > 1 ==> r is Ok
                && final(self)@ == (PolicyView {
                admins: without_member(old(self)@.admins, admin@),
                ..old(self)@
            }),
    {
        if !self.is_admin(caller) {
            return Err(AdminError::NotAdmin);
        }
        if self.admins.len() <= 1 {
            return Err(AdminError::LastAdmin);
        }
        self.admins.remove(admin);
        proof {
            crate::collections::lemma_without_member(old(self)@.admins, admin@);
        }
        Ok(())
    }

    /// Reserves `name`. Only an administrator may.
    pub fn add_reserved_name(&mut self, name: String, caller: &Identity) -> (r: Result<
        (),
        AdminError,
    >)
        requires
            old(self).wf(),
        ensures
            final(self).wf(),
            old(self)@.admins.contains(caller@) ==> r is Ok && final(self)@ == (PolicyView {
                reserved_names: with_member(old(self)@.reserved_names, name@),
                ..old(self)@
            }),
            !old(self)@.admins.contains(caller@) ==> r == Err::<(), AdminError>(
                AdminError::NotAdmin,
            ) && final(self)@ == old(self)@,
    {
        if !self.is_admin(caller) {
            return Err(AdminError::NotAdmin);
        }
        self.reserved.insert(name);
        Ok(())
    }

    /// Approves `user` for short names. Only an administrator may.
    pub fn approve_user_for_short_names(&mut self, user: Identity, caller: &Identity) -> (r:
        Result<(), AdminError>)
        requires
            old(self).wf(),
        ensures
            final(self).wf(),
            old(self)@.admins.contains(caller@) ==> r is Ok && final(self)@ == (PolicyView {
                approved_short_users: with_member(old(self)@.approved_short_users, user@),
                ..old(self)@
            }),
            !old(self)@.admins.contains(caller@) ==> r == Err::<(), AdminError>(
                AdminError::NotAdmin,
            ) && final(self)@ == old(self)@,
    {
        if !self.is_admin(caller) {
            return Err(AdminError::NotAdmin);
        }
        self.approved.insert(user);
        Ok(())
    }

    /// Withdraws the approval of `user` for short names. Only an
    /// administrator may.
    pub fn revoke_short_name_approval(&mut self, user: &Identity, caller: &Identity) -> (r:
        Result<(), AdminError>)
        requires
            old(self).wf(),
        ensures
            final(self).wf(),
            old(self)@.admins.contains(caller@) ==> r is Ok && final(self)@ == (PolicyView {
                approved_short_users: without_member(old(self)@.approved_short_users, user@),
                ..old(self)@
            }),
            !old(self)@.admins.contains(caller@) ==> r == Err::<(), AdminError>(
                AdminError::NotAdmin,
            ) && final(self)@ == old(self)@,
    {
        if !self.is_admin(caller) {
            return Err(AdminError::NotAdmin);
        }
        self.approved.remove(user);
        Ok(())
    }

    /// Sets the short-name mode. Only an administrator may.
    pub fn set_short_name_mode(&mut self, mode: RegistrationMode, caller: &Identity) -> (r:
        Result<(), AdminError>)
        requires
            old(self).wf(),
        ensures
            final(self).wf(),
            old(self)@.admins.contains(caller@) ==> r is Ok && final(self)@ == (PolicyView {
                short_name_mode: mode,
                ..old(self)@
            }),
            !old(self)@.admins.contains(caller@) ==> r == Err::<(), AdminError>(
                AdminError::NotAdmin,
            ) && final(self)@ == old(self)@,
    {
        if !self.is_admin(caller) {
            return Err(AdminError::NotAdmin);
        }
        self.mode = mode;
        Ok(())
    }

    /// The administrators, in the order in which they were added.
    pub fn get_admins(&self) -> (r: Vec<Identity>)
        ensures
            r@.map_values(|k: Identity| k@) == self@.admins,
    {
        self.admins.to_vec()
    }

    /// The identities approved for short names, in the order in which they
    /// were approved.
    pub fn get_approved_short_users(&self) -> (r: Vec<Identity>)
        ensures
            r@.map_values(|k: Identity| k@) == self@.approved_short_users,
    {
        self.approved.to_vec()
    }

    /// The reserved names, in the order in which they were reserved.
    pub fn get_reserved_names(&self) -> (r: Vec<String>)
        ensures
            r@.map_values(|k: String| k@) == self@.reserved_names,
    {
        self.reserved.to_vec()
    }

    /// The short-name mode.
    pub fn get_short_name_mode(&self) -> (r: RegistrationMode)
        ensures
            r == self@.short_name_mode,
    {
        self.mode
    }
}

} // verus!
