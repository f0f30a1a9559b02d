//! What the rest of the vault keeps for an account: its memberships in
//! organizations, and the ciphers, folders and devices that it owns. Only
//! what the removal of an account needs of them is kept here.

use vstd::prelude::*;
use crate::error::Error;
use crate::store::{Store, StoreView};
use crate::table::{contents, discard, except, put, replaced, select, Row};
use crate::text::same;

verus! {

/// The roles that a member of an organization can hold.
#[derive(Clone, Copy, Debug, PartialEq, Eq, Structural)]
pub enum UserOrgType {
    Owner,
    Admin,
    User,
    Manager,
}

impl UserOrgType {
    pub open spec fn code_of(self) -> i32 {
        match self {
            UserOrgType::Owner => 0,
            UserOrgType::Admin => 1,
            UserOrgType::User => 2,
            UserOrgType::Manager => 3,
        }
    }

    /// The number under which the role is stored.
    pub fn code(&self) -> (n: i32)
        ensures
            n == self.code_of(),
    {
        match self {
            UserOrgType::Owner => 0,
            UserOrgType::Admin => 1,
            UserOrgType::User => 2,
            UserOrgType::Manager => 3,
        }
    }
}

/// The membership of one account in one organization.
#[derive(Debug)]
pub struct UserOrganization {
    pub uuid: String,
    pub user_uuid: String,
    pub org_uuid: String,
    pub atype: i32,
}

pub struct UserOrganizationView {
    pub uuid: Seq<char>,
    pub user_uuid: Seq<char>,
    pub org_uuid: Seq<char>,
    pub atype: i32,
}

impl View for UserOrganization {
    type V = UserOrganizationView;

    open spec fn view(&self) -> UserOrganizationView {
        UserOrganizationView {
            uuid: self.uuid@,
            user_uuid: self.user_uuid@,
            org_uuid: self.org_uuid@,
            atype: self.atype,
        }
    }
}

impl Row for UserOrganization {
    open spec fn key_of(v: UserOrganizationView) -> Seq<char> {
        v.uuid
    }

    fn key(&self) -> (k: &str) {
        self.uuid.as_str()
    }

    fn duplicate(&self) -> (r: Self) {
        UserOrganization {
            uuid: self.uuid.clone(),
            user_uuid: self.user_uuid.clone(),
            org_uuid: self.org_uuid.clone(),
            atype: self.atype,
        }
    }
}

impl UserOrganization {
    pub fn new(uuid: String, user_uuid: String, org_uuid: String, atype: UserOrgType) -> (m: Self)
        ensures
            m@ == (UserOrganizationView {
                uuid: uuid@,
                user_uuid: user_uuid@,
                org_uuid: org_uuid@,
                atype: atype.code_of(),
            }),
    {
        UserOrganization { uuid, user_uuid, org_uuid, atype: atype.code() }
    }
}

/// The memberships of one account.
pub open spec fn member_is(user_uuid: Seq<char>) -> spec_fn(UserOrganizationView) -> bool {
    |m: UserOrganizationView| m.user_uuid == user_uuid
}

/// The memberships in one organization under one role.
pub open spec fn in_org_as(org_uuid: Seq<char>, atype: i32) -> spec_fn(UserOrganizationView) -> bool {
    |m: UserOrganizationView| m.org_uuid == org_uuid && m.atype == atype
}

/// What a membership does in the store.
impl UserOrganization {
    /// Writes the membership over whatever stood under its identifier.
    pub fn save(&self, store: &mut Store) -> (r: Result<(), Error>)
        requires
            old(store).wf(),
        ensures
            r is Ok,
            final(store).wf(),
            final(store)@ == (StoreView {
                memberships: replaced::<UserOrganization>(old(store)@.memberships, self@),
                ..old(store)@
            }),
    {
        put(&mut store.memberships, self.duplicate());
        Ok(())
    }

    /// The memberships of the account, in table order.
    pub fn find_by_user(user_uuid: &str, store: &Store) -> (found: Vec<Self>)
        ensures
            contents(found@) == store@.memberships.filter(member_is(user_uuid@)),
    {
        let ghost wanted = member_is(user_uuid@);
        let keep = |m: &UserOrganization| -> (b: bool)
            ensures
                b == wanted(m@),
            { same(m.user_uuid.as_str(), user_uuid) };
        select(&store.memberships, keep, Ghost(wanted))
    }

    /// The memberships in the organization under the role, in table order.
    pub fn find_by_org_and_type(org_uuid: &str, atype: i32, store: &Store) -> (found: Vec<Self>)
        ensures
            contents(found@) == store@.memberships.filter(in_org_as(org_uuid@, atype)),
    {
        let ghost wanted = in_org_as(org_uuid@, atype);
        let keep = |m: &UserOrganization| -> (b: bool)
            ensures
                b == wanted(m@),
            { same(m.org_uuid.as_str(), org_uuid) && m.atype == atype };
        select(&store.memberships, keep, Ghost(wanted))
    }

    /// Removes every membership of the account.
    pub fn delete_all_by_user(user_uuid: &str, store: &mut Store) -> (r: Result<(), Error>)
        requires
            old(store).wf(),
        ensures
            r is Ok,
            final(store).wf(),
            final(store)@ == (StoreView {
                memberships: old(store)@.memberships.filter(except(member_is(user_uuid@))),
                ..old(store)@
            }),
    {
        let ghost theirs = member_is(user_uuid@);
        let taken = |m: &UserOrganization| -> (b: bool)
            ensures
                b == theirs(m@),
            { same(m.user_uuid.as_str(), user_uuid) };
        discard(&mut store.memberships, taken, Ghost(theirs));
        Ok(())
    }
}

/// A record of another part of the vault that belongs to one account: a
/// cipher, a folder or a device. Only its owner matters here.
#[derive(Debug)]
pub struct Owned {
    pub uuid: String,
    pub user_uuid: String,
}

pub struct OwnedView {
    pub uuid: Seq<char>,
    pub user_uuid: Seq<char>,
}

impl View for Owned {
    type V = OwnedView;

    open spec fn view(&self) -> OwnedView {
        OwnedView { uuid: self.uuid@, user_uuid: self.user_uuid@ }
    }
}

impl Row for Owned {
    open spec fn key_of(v: OwnedView) -> Seq<char> {
        v.uuid
    }

    fn key(&self) -> (k: &str) {
        self.uuid.as_str()
    }

    fn duplicate(&self) -> (r: Self) {
        Owned { uuid: self.uuid.clone(), user_uuid: self.user_uuid.clone() }
    }
}

impl Owned {
    pub fn new(uuid: String, user_uuid: String) -> (rec: Self)
        ensures
            rec@ == (OwnedView { uuid: uuid@, user_uuid: user_uuid@ }),
    {
        Owned { uuid, user_uuid }
    }
}

/// The records that one account owns.
pub open spec fn owned_by(user_uuid: Seq<char>) -> spec_fn(OwnedView) -> bool {
    |rec: OwnedView| rec.user_uuid == user_uuid
}

/// The three kinds of record that an account owns outright.
#[derive(Clone, Copy, Debug, PartialEq, Eq, Structural)]
pub enum Holding {
    Cipher,
    Folder,
    Device,
}

impl StoreView {
    /// The table of one kind of owned record.
    pub open spec fn holdings(self, kind: Holding) -> Seq<OwnedView> {
        match kind {
            Holding::Cipher => self.ciphers,
            Holding::Folder => self.folders,
            Holding::Device => self.devices,
        }
    }

    /// The store with another table of one kind of owned record.
    pub open spec fn with_holdings(self, kind: Holding, rows: Seq<OwnedView>) -> StoreView {
        match kind {
            Holding::Cipher => StoreView { ciphers: rows, ..self },
            Holding::Folder => StoreView { folders: rows, ..self },
            Holding::Device => StoreView { devices: rows, ..self },
        }
    }
}

/// What an owned record does in the store.
impl Owned {
    /// Writes the record into the table of its kind, over whatever stood
    /// under its identifier.
    pub fn save(&self, kind: Holding, store: &mut Store) -> (r: Result<(), Error>)
        requires
            old(store).wf(),
        ensures
            r is Ok,
            final(store).wf(),
            final(store)@ == old(store)@.with_holdings(
                kind,
                replaced::<Owned>(old(store)@.holdings(kind), self@),
            ),
    {
        match kind {
            Holding::Cipher => put(&mut store.ciphers, self.duplicate()),
            Holding::Folder => put(&mut store.folders, self.duplicate()),
            Holding::Device => put(&mut store.devices, self.duplicate()),
        }
        Ok(())
    }

    /// The records of one kind that the account owns, in table order.
    pub fn find_by_user(kind: Holding, user_uuid: &str, store: &Store) -> (found: Vec<Self>)
        ensures
            contents(found@) == store@.holdings(kind).filter(owned_by(user_uuid@)),
    {
        let ghost wanted = owned_by(user_uuid@);
        let keep = |rec: &Owned| -> (b: bool)
            ensures
                b == wanted(rec@),
            { same(rec.user_uuid.as_str(), user_uuid) };
        match kind {
            Holding::Cipher => select(&store.ciphers, keep, Ghost(wanted)),
            Holding::Folder => select(&store.folders, keep, Ghost(wanted)),
            Holding::Device => select(&store.devices, keep, Ghost(wanted)),
        }
    }

    /// Removes every record of one kind that the account owns.
    pub fn delete_all_by_user(kind: Holding, user_uuid: &str, store: &mut Store) -> (r: Result<(), Error>)
        requires
            old(store).wf(),
        ensures
            r is Ok,
            final(store).wf(),
            final(store)@ == old(store)@.with_holdings(
                kind,
                old(store)@.holdings(kind).filter(except(owned_by(user_uuid@))),
            ),
    {
        let ghost theirs = owned_by(user_uuid@);
        let taken = |rec: &Owned| -> (b: bool)
            ensures
                b == theirs(rec@),
            { same(rec.user_uuid.as_str(), user_uuid) };
        match kind {
            Holding::Cipher => discard(&mut store.ciphers, taken, Ghost(theirs)),
            Holding::Folder => discard(&mut store.folders, taken, Ghost(theirs)),
            Holding::Device => discard(&mut store.devices, taken, Ghost(theirs)),
        }
        Ok(())
    }
}

} // verus!
