//! The tables, and the rules that every table keeps.

use vstd::prelude::*;
use crate::related::{Owned, OwnedView, UserOrganization, UserOrganizationView};
use crate::table::{contents, copy_all, distinct, keys_distinct};
use crate::text::{blank, is_blank};
use crate::two_factor::{TwoFactor, TwoFactorView};
use crate::user::{Invitation, InvitationView, User, UserView};

verus! {

/// The tables that the records live in. Each table holds its rows in the
/// order in which they were last written, one row under each primary key.
pub struct Store {
    pub(crate) users: Vec<User>,
    pub(crate) invitations: Vec<Invitation>,
    pub(crate) twofactors: Vec<TwoFactor>,
    pub(crate) memberships: Vec<UserOrganization>,
    pub(crate) ciphers: Vec<Owned>,
    pub(crate) folders: Vec<Owned>,
    pub(crate) devices: Vec<Owned>,
}

/// What the tables hold.
pub struct StoreView {
    pub users: Seq<UserView>,
    pub invitations: Seq<InvitationView>,
    pub twofactors: Seq<TwoFactorView>,
    pub memberships: Seq<UserOrganizationView>,
    pub ciphers: Seq<OwnedView>,
    pub folders: Seq<OwnedView>,
    pub devices: Seq<OwnedView>,
}

impl View for Store {
    type V = StoreView;

    open(crate) spec fn view(&self) -> StoreView {
        StoreView {
            users: contents(self.users@),
            invitations: contents(self.invitations@),
            twofactors: contents(self.twofactors@),
            memberships: contents(self.memberships@),
            ciphers: contents(self.ciphers@),
            folders: contents(self.folders@),
            devices: contents(self.devices@),
        }
    }
}

impl StoreView {
    /// The store in which nothing was written yet.
    pub open spec fn empty() -> StoreView {
        StoreView {
            users: Seq::empty(),
            invitations: Seq::empty(),
            twofactors: Seq::empty(),
            memberships: Seq::empty(),
            ciphers: Seq::empty(),
            folders: Seq::empty(),
            devices: Seq::empty(),
        }
    }

    /// Every table has one row under each primary key, and no stored
    /// account or invitation has a blank email.
    pub open spec fn wf(self) -> bool {
        &&& distinct::<User>(self.users)
        &&& distinct::<Invitation>(self.invitations)
        &&& distinct::<TwoFactor>(self.twofactors)
        &&& distinct::<UserOrganization>(self.memberships)
        &&& distinct::<Owned>(self.ciphers)
        &&& distinct::<Owned>(self.folders)
        &&& distinct::<Owned>(self.devices)
        &&& forall|i: int| 0 <= i < self.users.len() ==> !is_blank(#[trigger] self.users[i].email)
        &&& forall|i: int|
            0 <= i < self.invitations.len() ==> !is_blank(#[trigger] self.invitations[i].email)
    }
}

/// The rows of every table, as they are read from or written to a place
/// that outlives the store.
pub struct Tables {
    pub users: Vec<User>,
    pub invitations: Vec<Invitation>,
    pub twofactors: Vec<TwoFactor>,
    pub memberships: Vec<UserOrganization>,
    pub ciphers: Vec<Owned>,
    pub folders: Vec<Owned>,
    pub devices: Vec<Owned>,
}

impl View for Tables {
    type V = StoreView;

    open spec fn view(&self) -> StoreView {
        StoreView {
            users: contents(self.users@),
            invitations: contents(self.invitations@),
            twofactors: contents(self.twofactors@),
            memberships: contents(self.memberships@),
            ciphers: contents(self.ciphers@),
            folders: contents(self.folders@),
            devices: contents(self.devices@),
        }
    }
}

fn users_have_emails(users: &Vec<User>) -> (r: bool)
    ensures
        r == forall|i: int| 0 <= i < users@.len() ==> !is_blank(#[trigger] contents(users@)[i].email),
{
    let mut i: usize = 0;
    while i < users.len()
        invariant
            0 <= i <= users.len(),
            forall|k: int| 0 <= k < i ==> !is_blank(#[trigger] contents(users@)[k].email),
        decreases users.len() - i,
    {
        if blank(users[i].email.as_str()) {
            assert(is_blank(contents(users@)[i as int].email));
            return false;
        }
        i += 1;
    }
    true
}

fn invitations_have_emails(invitations: &Vec<Invitation>) -> (r: bool)
    ensures
        r == forall|i: int|
            0 <= i < invitations@.len() ==> !is_blank(#[trigger] contents(invitations@)[i].email),
{
    let mut i: usize = 0;
    while i < invitations.len()
        invariant
            0 <= i <= invitations.len(),
            forall|k: int| 0 <= k < i ==> !is_blank(#[trigger] contents(invitations@)[k].email),
        decreases invitations.len() - i,
    {
        if blank(invitations[i].email.as_str()) {
            assert(is_blank(contents(invitations@)[i as int].email));
            return false;
        }
        i += 1;
    }
    true
}

impl Store {
    pub open spec fn wf(&self) -> bool {
        self@.wf()
    }

    /// Opens a store on rows that were kept elsewhere. Rows that break the
    /// rules of the tables are refused as a whole.
    pub fn from_tables(tables: Tables) -> (opened: Option<Store>)
        ensures
            opened is Some <==> tables@.wf(),
            opened matches Some(store) ==> store.wf() && store@ == tables@,
    {
        if keys_distinct(&tables.users) && keys_distinct(&tables.invitations) && keys_distinct(
            &tables.twofactors,
        ) && keys_distinct(&tables.memberships) && keys_distinct(&tables.ciphers) && keys_distinct(
            &tables.folders,
        ) && keys_distinct(&tables.devices) && users_have_emails(&tables.users)
            && invitations_have_emails(&tables.invitations) {
            Some(
                Store {
                    users: tables.users,
                    invitations: tables.invitations,
                    twofactors: tables.twofactors,
                    memberships: tables.memberships,
                    ciphers: tables.ciphers,
                    folders: tables.folders,
                    devices: tables.devices,
                },
            )
        } else {
            None
        }
    }

    /// Copies out the rows of every table.
    pub fn to_tables(&self) -> (tables: Tables)
        ensures
            tables@ == self@,
    {
        Tables {
            users: copy_all(&self.users),
            invitations: copy_all(&self.invitations),
            twofactors: copy_all(&self.twofactors),
            memberships: copy_all(&self.memberships),
            ciphers: copy_all(&self.ciphers),
            folders: copy_all(&self.folders),
            devices: copy_all(&self.devices),
        }
    }

    pub fn new() -> (store: Store)
        ensures
            store.wf(),
            store@ == StoreView::empty(),
    {
        let store = Store {
            users: Vec::new(),
            invitations: Vec::new(),
            twofactors: Vec::new(),
            memberships: Vec::new(),
            ciphers: Vec::new(),
            folders: Vec::new(),
            devices: Vec::new(),
        };
        proof {
            let empty = StoreView::empty();
            assert(store@.users =~= empty.users);
            assert(store@.invitations =~= empty.invitations);
            assert(store@.twofactors =~= empty.twofactors);
            assert(store@.memberships =~= empty.memberships);
            assert(store@.ciphers =~= empty.ciphers);
            assert(store@.folders =~= empty.folders);
            assert(store@.devices =~= empty.devices);
        }
        store
    }
}

} // verus!
