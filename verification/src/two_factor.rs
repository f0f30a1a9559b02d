//! The second factors of an account, and the challenges in flight for it.

use vstd::prelude::*;
use crate::error::Error;
use crate::ident::{get_uuid, is_uuid_text};
use crate::json::{doc_of, json_bool, json_int, json_object, json_text, members_insert, members_new, no_members, JsonDoc};
use crate::store::{Store, StoreView};
use crate::table::{contents, discard, except, find_first, first_where, has_key, keyed, lemma_filter_members, lemma_first_where, put, replaced, select, Row};
use crate::text::same;

verus! {

/// The type code from which on a record is an internal challenge marker
/// and no provider that a user enrolled.
pub const INTERNAL_TYPES_START: i32 = 1000;

/// One second factor of an account, or a challenge in flight for it.
#[derive(Debug)]
pub struct TwoFactor {
    pub uuid: String,
    pub user_uuid: String,
    pub atype: i32,
    pub enabled: bool,
    pub data: String,
}

pub struct TwoFactorView {
    pub uuid: Seq<char>,
    pub user_uuid: Seq<char>,
    pub atype: i32,
    pub enabled: bool,
    pub data: Seq<char>,
}

impl View for TwoFactor {
    type V = TwoFactorView;

    open spec fn view(&self) -> TwoFactorView {
        TwoFactorView {
            uuid: self.uuid@,
            user_uuid: self.user_uuid@,
            atype: self.atype,
            enabled: self.enabled,
            data: self.data@,
        }
    }
}

impl Row for TwoFactor {
    open spec fn key_of(v: TwoFactorView) -> Seq<char> {
        v.uuid
    }

    fn key(&self) -> (k: &str) {
        self.uuid.as_str()
    }

    fn duplicate(&self) -> (r: Self) {
        TwoFactor {
            uuid: self.uuid.clone(),
            user_uuid: self.user_uuid.clone(),
            atype: self.atype,
            enabled: self.enabled,
            data: self.data.clone(),
        }
    }
}

/// The kinds of two-factor record.
#[derive(Clone, Copy, Debug, PartialEq, Eq, Structural)]
pub enum TwoFactorType {
    Authenticator,
    Email,
    Duo,
    YubiKey,
    U2f,
    Remember,
    OrganizationDuo,
    // Markers of a challenge in flight; never shown to the user.
    U2fRegisterChallenge,
    U2fLoginChallenge,
    EmailVerificationChallenge,
}

impl TwoFactorType {
    pub open spec fn code_of(self) -> i32 {
        match self {
            TwoFactorType::Authenticator => 0,
            TwoFactorType::Email => 1,
            TwoFactorType::Duo => 2,
            TwoFactorType::YubiKey => 3,
            TwoFactorType::U2f => 4,
            TwoFactorType::Remember => 5,
            TwoFactorType::OrganizationDuo => 6,
            TwoFactorType::U2fRegisterChallenge => 1000,
            TwoFactorType::U2fLoginChallenge => 1001,
            TwoFactorType::EmailVerificationChallenge => 1002,
        }
    }

    /// The number under which the kind is stored.
    pub fn code(&self) -> (n: i32)
        ensures
            n == self.code_of(),
    {
        match self {
            TwoFactorType::Authenticator => 0,
            TwoFactorType::Email => 1,
            TwoFactorType::Duo => 2,
            TwoFactorType::YubiKey => 3,
            TwoFactorType::U2f => 4,
            TwoFactorType::Remember => 5,
            TwoFactorType::OrganizationDuo => 6,
            TwoFactorType::U2fRegisterChallenge => 1000,
            TwoFactorType::U2fLoginChallenge => 1001,
            TwoFactorType::EmailVerificationChallenge => 1002,
        }
    }

    /// The kind stored under a number, if the number stands for one.
    pub fn from_code(n: i32) -> (kind: Option<TwoFactorType>)
        ensures
            match kind {
                Some(k) => k.code_of() == n,
                None => forall|k: TwoFactorType| k.code_of() != n,
            },
    {
        match n {
            0 => Some(TwoFactorType::Authenticator),
            1 => Some(TwoFactorType::Email),
            2 => Some(TwoFactorType::Duo),
            3 => Some(TwoFactorType::YubiKey),
            4 => Some(TwoFactorType::U2f),
            5 => Some(TwoFactorType::Remember),
            6 => Some(TwoFactorType::OrganizationDuo),
            1000 => Some(TwoFactorType::U2fRegisterChallenge),
            1001 => Some(TwoFactorType::U2fLoginChallenge),
            1002 => Some(TwoFactorType::EmailVerificationChallenge),
            _ => None,
        }
    }

    /// Whether records of this kind are shown to the user.
    pub fn is_user_visible(&self) -> (visible: bool)
        ensures
            visible == is_public_type(self.code_of()),
    {
        self.code() < INTERNAL_TYPES_START
    }
}

/// The records of one account.
pub open spec fn of_user(user_uuid: Seq<char>) -> spec_fn(TwoFactorView) -> bool {
    |t: TwoFactorView| t.user_uuid == user_uuid
}

/// The providers that one account enrolled: its records without the
/// internal challenge markers.
pub open spec fn public_of_user(user_uuid: Seq<char>) -> spec_fn(TwoFactorView) -> bool {
    |t: TwoFactorView| t.user_uuid == user_uuid && is_public_type(t.atype)
}

/// The records of one account under one type code, internal or not.
pub open spec fn of_user_and_type(user_uuid: Seq<char>, atype: i32) -> spec_fn(
    TwoFactorView,
) -> bool {
    |t: TwoFactorView| t.user_uuid == user_uuid && t.atype == atype
}

/// Whether a type code stands for a provider that users see.
pub open spec fn is_public_type(atype: i32) -> bool {
    atype < INTERNAL_TYPES_START
}

impl TwoFactorView {
    /// What is shown of one provider: whether it is on, an empty key in
    /// place of the secret, and the tag of the shape.
    pub open spec fn detail(self) -> JsonDoc {
        JsonDoc::Object(
            no_members().insert("Enabled"@, JsonDoc::Bool(self.enabled)).insert(
                "Key"@,
                JsonDoc::Text(""@),
            ).insert("Object"@, JsonDoc::Text("twoFactorAuthenticator"@)),
        )
    }

    /// What is shown of a provider in the list of providers.
    pub open spec fn list_entry(self) -> JsonDoc {
        JsonDoc::Object(
            no_members().insert("Enabled"@, JsonDoc::Bool(self.enabled)).insert(
                "Type"@,
                JsonDoc::Int(self.atype as int),
            ).insert("Object"@, JsonDoc::Text("twoFactorProvider"@)),
        )
    }
}

/// What a record does by itself.
impl TwoFactor {
    pub fn new(user_uuid: String, atype: TwoFactorType, data: String) -> (rec: Self)
        ensures
            is_uuid_text(rec.uuid@),
            rec.user_uuid@ == user_uuid@,
            rec.atype == atype.code_of(),
            rec.enabled,
            rec.data@ == data@,
    {
        TwoFactor { uuid: get_uuid(), user_uuid, atype: atype.code(), enabled: true, data }
    }

    pub fn to_json(&self) -> (v: serde_json::Value)
        ensures
            doc_of(v) == self@.detail(),
    {
        let mut m = members_new();
        members_insert(&mut m, "Enabled", json_bool(self.enabled));
        members_insert(&mut m, "Key", json_text(""));
        members_insert(&mut m, "Object", json_text("twoFactorAuthenticator"));
        json_object(m)
    }

    pub fn to_json_list(&self) -> (v: serde_json::Value)
        ensures
            doc_of(v) == self@.list_entry(),
    {
        let mut m = members_new();
        members_insert(&mut m, "Enabled", json_bool(self.enabled));
        members_insert(&mut m, "Type", json_int(self.atype));
        members_insert(&mut m, "Object", json_text("twoFactorProvider"));
        json_object(m)
    }
}

impl StoreView {
    /// Whether the account has a record under the type code.
    pub open spec fn has_two_factor(self, user_uuid: Seq<char>, atype: i32) -> bool {
        exists|i: int|
            0 <= i < self.twofactors.len() && self.twofactors[i].user_uuid == user_uuid
                && self.twofactors[i].atype == atype
    }
}

/// What a record does in the store.
impl TwoFactor {
    /// Writes the record over whatever stood under its identifier.
    pub fn save(&self, store: &mut Store) -> (r: Result<(), Error>)
        requires
            old(store).wf(),
        ensures
            r is Ok,
            final(store).wf(),
            final(store)@ == (StoreView {
                twofactors: replaced::<TwoFactor>(old(store)@.twofactors, self@),
                ..old(store)@
            }),
    {
        put(&mut store.twofactors, self.duplicate());
        Ok(())
    }

    /// Removes the record.
    pub fn delete(self, store: &mut Store) -> (r: Result<(), Error>)
        requires
            old(store).wf(),
        ensures
            r is Ok,
            final(store).wf(),
            final(store)@ == (StoreView {
                twofactors: old(store)@.twofactors.filter(except(keyed::<TwoFactor>(self.uuid@))),
                ..old(store)@
            }),
    {
        let ghost under = keyed::<TwoFactor>(self.uuid@);
        let taken = |t: &TwoFactor| -> (b: bool)
            ensures
                b == under(t@),
            { has_key(t, self.uuid.as_str()) };
        discard(&mut store.twofactors, taken, Ghost(under));
        Ok(())
    }

    /// The providers that the account enrolled, in table order. Internal
    /// challenge markers are never among them.
    pub fn find_by_user(user_uuid: &str, store: &Store) -> (found: Vec<Self>)
        ensures
            contents(found@) == store@.twofactors.filter(public_of_user(user_uuid@)),
            forall|i: int|
                0 <= i < found@.len() ==> is_public_type(#[trigger] found@[i].atype)
                    && found@[i].user_uuid@ == user_uuid@,
    {
        let ghost wanted = public_of_user(user_uuid@);
        let keep = |t: &TwoFactor| -> (b: bool)
            ensures
                b == wanted(t@),
            { same(t.user_uuid.as_str(), user_uuid) && t.atype < INTERNAL_TYPES_START };
        let found = select(&store.twofactors, keep, Ghost(wanted));
        proof {
            lemma_filter_members(store@.twofactors, wanted);
            assert forall|i: int| 0 <= i < found@.len() implies is_public_type(
                #[trigger] found@[i].atype,
            ) && found@[i].user_uuid@ == user_uuid@ by {
                assert(contents(found@)[i] == found@[i]@);
                assert(wanted(store@.twofactors.filter(wanted)[i]));
            }
        }
        found
    }

    /// The first record of the account under the type code, which may be an
    /// internal one. A record is found whenever the account has one under
    /// that code.
    pub fn find_by_user_and_type(user_uuid: &str, atype: i32, store: &Store) -> (found: Option<Self>)
        ensures
            match found {
                Some(t) => first_where(store@.twofactors, of_user_and_type(user_uuid@, atype)) == Some(t@),
                None => first_where(store@.twofactors, of_user_and_type(user_uuid@, atype)) is None,
            },
            found is Some <==> store@.has_two_factor(user_uuid@, atype),
            found matches Some(t) ==> t.user_uuid@ == user_uuid@ && t.atype == atype,
    {
        let ghost wanted = of_user_and_type(user_uuid@, atype);
        let hit = |t: &TwoFactor| -> (b: bool)
            ensures
                b == wanted(t@),
            { same(t.user_uuid.as_str(), user_uuid) && t.atype == atype };
        let found = find_first(&store.twofactors, hit, Ghost(wanted));
        proof {
            lemma_first_where(store@.twofactors, wanted);
        }
        found
    }

    /// Removes every record of the account.
    pub fn delete_all_by_user(user_uuid: &str, store: &mut Store) -> (r: Result<(), Error>)
        requires
            old(store).wf(),
        ensures
            r is Ok,
            final(store).wf(),
            final(store)@ == (StoreView {
                twofactors: old(store)@.twofactors.filter(except(of_user(user_uuid@))),
                ..old(store)@
            }),
    {
        let ghost theirs = of_user(user_uuid@);
        let taken = |t: &TwoFactor| -> (b: bool)
            ensures
                b == theirs(t@),
            { same(t.user_uuid.as_str(), user_uuid) };
        discard(&mut store.twofactors, taken, Ghost(theirs));
        Ok(())
    }
}

} // verus!
