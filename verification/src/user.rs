//! Accounts and invitations.

use vstd::prelude::*;
use vstd::utf8::encode_utf8;
use crate::clock::now;
use crate::config::Config;
use crate::crypto::{ct_eq, derivable, derives_to, get_random_64, hash_password, pbkdf2_hmac_sha256, verify_password_hash, OUTPUT_LEN, SALT_LEN};
use crate::error::Error;
use crate::ident::{get_uuid, is_uuid_text};
use crate::json::{doc_of, docs_of, json_array, json_bool, json_int, json_null, json_object, json_text, members_insert, members_new, no_members, JsonDoc};
use crate::related::{member_is, owned_by, Holding, Owned, UserOrgType, UserOrganization, UserOrganizationView};
use crate::store::{Store, StoreView};
use crate::two_factor::{is_public_type, of_user, TwoFactor, TwoFactorView, INTERNAL_TYPES_START};
use crate::table::{contents, copy_all, discard, except, find_first, first_where, has_key, keyed, lemma_filter_keeps, lemma_filter_members, lemma_filter_origin, lemma_filter_take_len, lemma_first_where, lemma_replaced_keeps, put, replaced, Row};
use crate::text::{blank, copy_bytes, copy_opt, is_blank, lowercase, opt_text, same, to_lowercase};

verus! {

/// An account: who it is, how it signs in, and the keys it keeps.
#[derive(Debug)]
pub struct User {
    pub uuid: String,
    pub created_at: chrono::NaiveDateTime,
    pub updated_at: chrono::NaiveDateTime,
    pub email: String,
    pub name: String,
    pub password_hash: Vec<u8>,
    pub salt: Vec<u8>,
    pub password_iterations: i32,
    pub password_hint: Option<String>,
    pub akey: String,
    pub private_key: Option<String>,
    pub public_key: Option<String>,
    pub totp_secret: Option<String>,
    pub totp_recover: Option<String>,
    pub security_stamp: String,
    pub equivalent_domains: String,
    pub excluded_globals: String,
    pub client_kdf_type: i32,
    pub client_kdf_iter: i32,
}

pub struct UserView {
    pub uuid: Seq<char>,
    pub created_at: chrono::NaiveDateTime,
    pub updated_at: chrono::NaiveDateTime,
    pub email: Seq<char>,
    pub name: Seq<char>,
    pub password_hash: Seq<u8>,
    pub salt: Seq<u8>,
    pub password_iterations: i32,
    pub password_hint: Option<Seq<char>>,
    pub akey: Seq<char>,
    pub private_key: Option<Seq<char>>,
    pub public_key: Option<Seq<char>>,
    pub totp_secret: Option<Seq<char>>,
    pub totp_recover: Option<Seq<char>>,
    pub security_stamp: Seq<char>,
    pub equivalent_domains: Seq<char>,
    pub excluded_globals: Seq<char>,
    pub client_kdf_type: i32,
    pub client_kdf_iter: i32,
}

impl View for User {
    type V = UserView;

    open spec fn view(&self) -> UserView {
        UserView {
            uuid: self.uuid@,
            created_at: self.created_at,
            updated_at: self.updated_at,
            email: self.email@,
            name: self.name@,
            password_hash: self.password_hash@,
            salt: self.salt@,
            password_iterations: self.password_iterations,
            password_hint: opt_text(self.password_hint),
            akey: self.akey@,
            private_key: opt_text(self.private_key),
            public_key: opt_text(self.public_key),
            totp_secret: opt_text(self.totp_secret),
            totp_recover: opt_text(self.totp_recover),
            security_stamp: self.security_stamp@,
            equivalent_domains: self.equivalent_domains@,
            excluded_globals: self.excluded_globals@,
            client_kdf_type: self.client_kdf_type,
            client_kdf_iter: self.client_kdf_iter,
        }
    }
}

impl Row for User {
    open spec fn key_of(v: UserView) -> Seq<char> {
        v.uuid
    }

    fn key(&self) -> (k: &str) {
        self.uuid.as_str()
    }

    fn duplicate(&self) -> (r: Self) {
        User {
            uuid: self.uuid.clone(),
            created_at: self.created_at,
            updated_at: self.updated_at,
            email: self.email.clone(),
            name: self.name.clone(),
            password_hash: copy_bytes(&self.password_hash),
            salt: copy_bytes(&self.salt),
            password_iterations: self.password_iterations,
            password_hint: copy_opt(&self.password_hint),
            akey: self.akey.clone(),
            private_key: copy_opt(&self.private_key),
            public_key: copy_opt(&self.public_key),
            totp_secret: copy_opt(&self.totp_secret),
            totp_recover: copy_opt(&self.totp_recover),
            security_stamp: self.security_stamp.clone(),
            equivalent_domains: self.equivalent_domains.clone(),
            excluded_globals: self.excluded_globals.clone(),
            client_kdf_type: self.client_kdf_type,
            client_kdf_iter: self.client_kdf_iter,
        }
    }
}

/// Whether an account has finished signing up.
#[derive(Clone, Copy, Debug, PartialEq, Eq, Structural)]
pub enum UserStatus {
    Enabled,
    Invited,
    Disabled,
}

impl UserStatus {
    pub open spec fn code_of(self) -> i32 {
        match self {
            UserStatus::Enabled => 0,
            UserStatus::Invited => 1,
            UserStatus::Disabled => 2,
        }
    }

    /// The number shown for the status.
    pub fn code(&self) -> (n: i32)
        ensures
            n == self.code_of(),
    {
        match self {
            UserStatus::Enabled => 0,
            UserStatus::Invited => 1,
            UserStatus::Disabled => 2,
        }
    }
}

impl UserView {
    /// The status is read off the password hash: an account without one has
    /// been invited and has not signed up yet.
    pub open spec fn status(self) -> UserStatus {
        if self.password_hash.len() == 0 {
            UserStatus::Invited
        } else {
            UserStatus::Enabled
        }
    }

    /// The iteration count as the key derivation takes it.
    pub open spec fn rounds(self) -> u32 {
        self.password_iterations as u32
    }

    /// Whether a new hash can be derived for `password`.
    pub open spec fn can_hash(self, password: Seq<char>) -> bool {
        derivable(encode_utf8(password), self.salt, self.rounds(), OUTPUT_LEN as nat)
    }

    /// Whether `password` can be held against the stored hash.
    pub open spec fn can_check(self, password: Seq<char>) -> bool {
        derivable(encode_utf8(password), self.salt, self.rounds(), self.password_hash.len())
    }

    /// Whether `password` gives the stored hash.
    pub open spec fn accepts_password(self, password: Seq<char>) -> bool {
        derives_to(encode_utf8(password), self.salt, self.rounds(), self.password_hash)
    }

    /// Whether `code` is the stored recovery code, letter case aside.
    pub open spec fn accepts_recovery_code(self, code: Seq<char>) -> bool {
        match self.totp_recover {
            Some(stored) => lowercase(code) == lowercase(stored),
            None => false,
        }
    }

    /// The account with the hash of `password` in place of its hash.
    pub open spec fn with_password(self, password: Seq<char>) -> UserView {
        UserView {
            password_hash: pbkdf2_hmac_sha256(
                encode_utf8(password),
                self.salt,
                self.rounds(),
                OUTPUT_LEN as nat,
            ),
            ..self
        }
    }
}

/// Without a stored recovery code nothing is accepted as one.
pub proof fn no_recovery_code_accepts_nothing(user: UserView, code: Seq<char>)
    requires
        user.totp_recover is None,
    ensures
        !user.accepts_recovery_code(code),
{
}

/// The recovery code is compared without regard to letter case: two
/// candidates that differ in letter case only fare alike, two accounts
/// whose stored codes differ in letter case only accept the same
/// candidates, and the stored code itself is accepted.
pub proof fn recovery_code_ignores_case(user: UserView, other: UserView, code: Seq<char>, variant: Seq<char>)
    ensures
        lowercase(code) == lowercase(variant) ==> user.accepts_recovery_code(code)
            == user.accepts_recovery_code(variant),
        (user.totp_recover matches Some(stored) && other.totp_recover matches Some(kept)
            && lowercase(stored) == lowercase(kept)) ==> user.accepts_recovery_code(code)
            == other.accepts_recovery_code(code),
        user.totp_recover matches Some(stored) ==> user.accepts_recovery_code(stored),
{
}

/// The names of the members of an account's projection.
pub open spec fn profile_names() -> Set<Seq<char>> {
    set![
        "_Status"@,
        "Id"@,
        "Name"@,
        "Email"@,
        "EmailVerified"@,
        "Premium"@,
        "MasterPasswordHint"@,
        "Culture"@,
        "TwoFactorEnabled"@,
        "Key"@,
        "PrivateKey"@,
        "SecurityStamp"@,
        "Organizations"@,
        "Object"@,
    ]
}

/// The projection of an account gives away no credential: it has the
/// fourteen members of `profile_names` and no other, and two accounts that
/// differ in their password hashes (both set, or both unset), salts,
/// iteration counts, TOTP secrets and recovery codes have the same
/// projection.
pub proof fn profile_hides_credentials(user: UserView, other: UserView, two_factor_enabled: bool, organizations: Seq<JsonDoc>)
    requires
        (user.password_hash.len() == 0) == (other.password_hash.len() == 0),
        other == (UserView {
            password_hash: other.password_hash,
            salt: other.salt,
            password_iterations: other.password_iterations,
            totp_secret: other.totp_secret,
            totp_recover: other.totp_recover,
            ..user
        }),
    ensures
        user.profile(two_factor_enabled, organizations) == other.profile(
            two_factor_enabled,
            organizations,
        ),
        user.profile(two_factor_enabled, organizations) matches JsonDoc::Object(members)
            && members.dom() == profile_names(),
{
    let members = user.profile(two_factor_enabled, organizations)->Object_0;
    assert(members.dom() =~= profile_names());
}

/// What an account does by itself.
impl User {
    pub const CLIENT_KDF_TYPE_DEFAULT: i32 = 0;

    pub const CLIENT_KDF_ITER_DEFAULT: i32 = 100_000;

    /// A new account for the email in lowercase, with an identifier, a
    /// security stamp and a salt of its own, and without a password.
    pub fn new(mail: String, config: &Config) -> (user: Self)
        ensures
            is_uuid_text(user.uuid@),
            is_uuid_text(user.security_stamp@),
            user.email@ == lowercase(mail@),
            user.name@ == user.email@,
            user.created_at == user.updated_at,
            user.password_hash@.len() == 0,
            user.salt@.len() == SALT_LEN,
            user.password_iterations == config.password_iterations,
            user.password_hint is None,
            user.akey@.len() == 0,
            user.private_key is None,
            user.public_key is None,
            user.totp_secret is None,
            user.totp_recover is None,
            user.equivalent_domains@ == "[]"@,
            user.excluded_globals@ == "[]"@,
            user.client_kdf_type == 0,
            user.client_kdf_iter == 100_000,
    {
        let now = now();
        let email = to_lowercase(mail.as_str());
        User {
            uuid: get_uuid(),
            created_at: now,
            updated_at: now,
            name: email.clone(),
            email,
            akey: String::new(),
            password_hash: Vec::new(),
            salt: get_random_64(),
            password_iterations: config.password_iterations(),
            security_stamp: get_uuid(),
            password_hint: None,
            private_key: None,
            public_key: None,
            totp_secret: None,
            totp_recover: None,
            equivalent_domains: "[]".to_owned(),
            excluded_globals: "[]".to_owned(),
            client_kdf_type: Self::CLIENT_KDF_TYPE_DEFAULT,
            client_kdf_iter: Self::CLIENT_KDF_ITER_DEFAULT,
        }
    }

    /// Whether the key derivation can run for the account and `password`:
    /// the iteration count is not zero, and neither the password nor the
    /// salt nor the stored hash is longer than the derivation takes.
    pub fn can_derive(&self, password: &str) -> (ok: bool)
        ensures
            ok == (self@.can_hash(password@) && self@.can_check(password@)),
    {
        let iterations = self.password_iterations;
        assert((iterations as u32 != 0) == (iterations != 0)) by (bit_vector);
        let longest: u64 = 0x1000_0000_0000_0000;
        iterations != 0 && password.as_bytes().len() as u64 <= longest && self.salt.len() as u64
            <= longest
            && self.password_hash.len() as u64 <= 0xFFFF_FFFF
    }

    /// Whether `password` is the password of the account.
    pub fn check_valid_password(&self, password: &str) -> (ok: bool)
        requires
            self@.can_check(password@),
        ensures
            ok == self@.accepts_password(password@),
    {
        verify_password_hash(
            password.as_bytes(),
            self.salt.as_slice(),
            self.password_hash.as_slice(),
            self.password_iterations as u32,
        )
    }

    /// Whether `recovery_code` is the recovery code of the account, letter
    /// case aside. The two are compared in time that does not depend on
    /// where they differ.
    pub fn check_valid_recovery_code(&self, recovery_code: &str) -> (ok: bool)
        ensures
            ok == self@.accepts_recovery_code(recovery_code@),
    {
        match &self.totp_recover {
            Some(totp_recover) => {
                let given = to_lowercase(recovery_code);
                let stored = to_lowercase(totp_recover.as_str());
                ct_eq(given.as_str(), stored.as_str())
            },
            None => false,
        }
    }

    /// Puts the hash of `password` in place of the stored hash. The salt,
    /// the iteration count and the security stamp stay as they are.
    /// Afterwards the account has a password, and it accepts `password`.
    pub fn set_password(&mut self, password: &str)
        requires
            old(self)@.can_hash(password@),
        ensures
            final(self)@ == old(self)@.with_password(password@),
            final(self)@.password_hash.len() == OUTPUT_LEN,
            final(self)@.accepts_password(password@),
            final(self)@.status() == UserStatus::Enabled,
    {
        let rounds = self.password_iterations as u32;
        self.password_hash = hash_password(password.as_bytes(), self.salt.as_slice(), rounds);
    }

    /// Puts a newly drawn identifier in place of the security stamp.
    /// Nothing else changes.
    pub fn reset_security_stamp(&mut self)
        ensures
            is_uuid_text(final(self)@.security_stamp),
            final(self)@ == (UserView { security_stamp: final(self)@.security_stamp, ..old(self)@ }),
    {
        self.security_stamp = get_uuid();
    }
}

/// Whether no two accounts share an email.
pub open spec fn emails_unique(users: Seq<UserView>) -> bool {
    forall|i: int, j: int| 0 <= i < j < users.len() ==> users[i].email != users[j].email
}

/// Writing an account keeps the emails of the stored accounts apart, as
/// long as its email is that of no other account.
pub proof fn saving_keeps_emails_unique(users: Seq<UserView>, user: UserView)
    requires
        emails_unique(users),
        forall|i: int| 0 <= i < users.len() && users[i].email == user.email ==> users[i].uuid == user.uuid,
    ensures
        emails_unique(replaced::<User>(users, user)),
{
    let others = except(keyed::<User>(user.uuid));
    let kept = users.filter(others);
    let after = replaced::<User>(users, user);
    assert forall|i: int, j: int| 0 <= i < j < after.len() implies after[i].email
        != after[j].email by {
        let a = lemma_filter_origin(users, others, i);
        if j < kept.len() {
            let b = lemma_filter_origin(users, others, j);
            if a >= b {
                lemma_filter_take_len(users, others, b, a);
            }
            assert(a < b);
        }
    }
}

/// The enrolled providers of one account that are switched on.
pub open spec fn active_provider_of(user_uuid: Seq<char>) -> spec_fn(TwoFactorView) -> bool {
    |t: TwoFactorView| t.user_uuid == user_uuid && is_public_type(t.atype) && t.enabled
}

/// The accounts under one email, letter for letter.
pub open spec fn with_email(email: Seq<char>) -> spec_fn(UserView) -> bool {
    |u: UserView| u.email == email
}

/// An account whose email is not blank.
pub open spec fn user_has_email() -> spec_fn(UserView) -> bool {
    |u: UserView| !is_blank(u.email)
}

/// What a JSON member holds for an optional text: the text, or null.
pub open spec fn opt_doc(o: Option<Seq<char>>) -> JsonDoc {
    match o {
        Some(s) => JsonDoc::Text(s),
        None => JsonDoc::Null,
    }
}

impl UserView {
    /// What is shown of the account. The password hash, the salt, the TOTP
    /// secret and the recovery code are no part of it.
    pub open spec fn profile(self, two_factor_enabled: bool, organizations: Seq<JsonDoc>) -> JsonDoc {
        JsonDoc::Object(
            no_members().insert("_Status"@, JsonDoc::Int(self.status().code_of() as int)).insert(
                "Id"@,
                JsonDoc::Text(self.uuid),
            ).insert("Name"@, JsonDoc::Text(self.name)).insert(
                "Email"@,
                JsonDoc::Text(self.email),
            ).insert("EmailVerified"@, JsonDoc::Bool(true)).insert(
                "Premium"@,
                JsonDoc::Bool(true),
            ).insert("MasterPasswordHint"@, opt_doc(self.password_hint)).insert(
                "Culture"@,
                JsonDoc::Text("en-US"@),
            ).insert("TwoFactorEnabled"@, JsonDoc::Bool(two_factor_enabled)).insert(
                "Key"@,
                JsonDoc::Text(self.akey),
            ).insert("PrivateKey"@, opt_doc(self.private_key)).insert(
                "SecurityStamp"@,
                JsonDoc::Text(self.security_stamp),
            ).insert("Organizations"@, JsonDoc::Array(organizations)).insert(
                "Object"@,
                JsonDoc::Text("profile"@),
            ),
        )
    }
}

impl StoreView {
    /// Whether the account has an enrolled provider that is switched on.
    pub open spec fn two_factor_enabled(self, user_uuid: Seq<char>) -> bool {
        exists|i: int|
            0 <= i < self.twofactors.len() && self.twofactors[i].user_uuid == user_uuid
                && is_public_type(self.twofactors[i].atype) && self.twofactors[i].enabled
    }
}

fn json_opt(o: &Option<String>) -> (v: serde_json::Value)
    ensures
        doc_of(v) == opt_doc(opt_text(*o)),
{
    match o {
        Some(s) => json_text(s.as_str()),
        None => json_null(),
    }
}

/// What an account does in the store.
impl User {
    /// The account as it is shown, with the projections of its
    /// organizations as the caller made them.
    pub fn to_json(&self, store: &Store, organizations: Vec<serde_json::Value>) -> (v: serde_json::Value)
        ensures
            doc_of(v) == self@.profile(
                store@.two_factor_enabled(self.uuid@),
                docs_of(organizations@),
            ),
    {
        let ghost wanted = active_provider_of(self.uuid@);
        let hit = |t: &TwoFactor| -> (b: bool)
            ensures
                b == wanted(t@),
            { same(t.user_uuid.as_str(), self.uuid.as_str()) && t.atype < INTERNAL_TYPES_START && t.enabled };
        let twofactor_enabled = find_first(&store.twofactors, hit, Ghost(wanted)).is_some();
        proof {
            lemma_first_where(store@.twofactors, wanted);
        }
        let status = if self.password_hash.len() == 0 {
            UserStatus::Invited
        } else {
            UserStatus::Enabled
        };
        let mut m = members_new();
        members_insert(&mut m, "_Status", json_int(status.code()));
        members_insert(&mut m, "Id", json_text(self.uuid.as_str()));
        members_insert(&mut m, "Name", json_text(self.name.as_str()));
        members_insert(&mut m, "Email", json_text(self.email.as_str()));
        members_insert(&mut m, "EmailVerified", json_bool(true));
        members_insert(&mut m, "Premium", json_bool(true));
        members_insert(&mut m, "MasterPasswordHint", json_opt(&self.password_hint));
        members_insert(&mut m, "Culture", json_text("en-US"));
        members_insert(&mut m, "TwoFactorEnabled", json_bool(twofactor_enabled));
        members_insert(&mut m, "Key", json_text(self.akey.as_str()));
        members_insert(&mut m, "PrivateKey", json_opt(&self.private_key));
        members_insert(&mut m, "SecurityStamp", json_text(self.security_stamp.as_str()));
        members_insert(&mut m, "Organizations", json_array(organizations));
        members_insert(&mut m, "Object", json_text("profile"));
        json_object(m)
    }

    /// Stamps the account and writes it over whatever stood under its
    /// identifier, unless its email is blank.
    pub fn save(&mut self, store: &mut Store) -> (r: Result<(), Error>)
        requires
            old(store).wf(),
        ensures
            final(store).wf(),
            is_blank(old(self).email@) ==> r == Err::<(), Error>(Error::EmptyUserEmail)
                && final(self)@ == old(self)@ && final(store)@ == old(store)@,
            !is_blank(old(self).email@) ==> r is Ok && final(self)@ == (UserView {
                updated_at: final(self).updated_at,
                ..old(self)@
            }) && final(store)@ == (StoreView {
                users: replaced::<User>(old(store)@.users, final(self)@),
                ..old(store)@
            }),
    {
        if blank(self.email.as_str()) {
            return Err(Error::EmptyUserEmail);
        }
        self.updated_at = now();
        proof {
            lemma_replaced_keeps::<User>(store@.users, self@, user_has_email());
        }
        put(&mut store.users, self.duplicate());
        Ok(())
    }

    /// The first account under the email in lowercase.
    pub fn find_by_mail(mail: &str, store: &Store) -> (found: Option<Self>)
        ensures
            match found {
                Some(user) => first_where(store@.users, with_email(lowercase(mail@))) == Some(user@),
                None => first_where(store@.users, with_email(lowercase(mail@))) is None,
            },
    {
        let lower_mail = to_lowercase(mail);
        let ghost wanted = with_email(lower_mail@);
        let hit = |u: &User| -> (b: bool)
            ensures
                b == wanted(u@),
            { same(u.email.as_str(), lower_mail.as_str()) };
        find_first(&store.users, hit, Ghost(wanted))
    }

    /// The account under the identifier.
    pub fn find_by_uuid(uuid: &str, store: &Store) -> (found: Option<Self>)
        ensures
            match found {
                Some(user) => first_where(store@.users, keyed::<User>(uuid@)) == Some(user@),
                None => first_where(store@.users, keyed::<User>(uuid@)) is None,
            },
    {
        let ghost wanted = keyed::<User>(uuid@);
        let hit = |u: &User| -> (b: bool)
            ensures
                b == wanted(u@),
            { has_key(u, uuid) };
        find_first(&store.users, hit, Ghost(wanted))
    }

    /// Every account, in table order.
    pub fn get_all(store: &Store) -> (all: Vec<Self>)
        ensures
            contents(all@) == store@.users,
    {
        copy_all(&store.users)
    }

    /// Removes the account and everything that hangs on it, unless that
    /// would leave an organization without an owner: then nothing is
    /// removed at all. The memberships go first, then the ciphers, folders
    /// and devices, the two-factor records and the invitation for the
    /// account's email, which stays while invitations are switched off.
    /// The account's own row goes last.
    pub fn delete(self, store: &mut Store, config: &Config) -> (r: Result<(), Error>)
        requires
            old(store).wf(),
        ensures
            final(store).wf(),
            old(store)@.sole_owner(self.uuid@) ==> r == Err::<(), Error>(Error::LastOwner)
                && final(store)@ == old(store)@,
            !old(store)@.sole_owner(self.uuid@) ==> r is Ok && final(store)@ == old(
                store,
            )@.without_account(self.uuid@, lowercase(self.email@), config.invitations_allowed),
            r is Ok ==> final(store)@.holds_nothing_of(self.uuid@),
            r is Ok && config.invitations_allowed ==> !final(store)@.invites(lowercase(self.email@)),
    {
        if is_sole_owner(self.uuid.as_str(), store) {
            return Err(Error::LastOwner);
        }
        UserOrganization::delete_all_by_user(self.uuid.as_str(), store)?;
        Owned::delete_all_by_user(Holding::Cipher, self.uuid.as_str(), store)?;
        Owned::delete_all_by_user(Holding::Folder, self.uuid.as_str(), store)?;
        Owned::delete_all_by_user(Holding::Device, self.uuid.as_str(), store)?;
        TwoFactor::delete_all_by_user(self.uuid.as_str(), store)?;
        Invitation::take(self.email.as_str(), store, config);

        let ghost under = keyed::<User>(self.uuid@);
        let taken = |u: &User| -> (b: bool)
            ensures
                b == under(u@),
            { has_key(u, self.uuid.as_str()) };
        proof {
            lemma_filter_keeps(store@.users, except(under), user_has_email());
        }
        discard(&mut store.users, taken, Ghost(under));
        proof {
            removed_account_leaves_nothing(
                old(store)@,
                self.uuid@,
                lowercase(self.email@),
                config.invitations_allowed,
            );
        }
        Ok(())
    }

    /// Stamps the stored account under the identifier with the time of the
    /// call. The tables here take every write at the first attempt; against
    /// a store that can be busy, `retry` bounds the attempts and `settle`
    /// passes over a failure that outlasts them.
    pub fn update_uuid_revision(uuid: &str, store: &mut Store)
        requires
            old(store).wf(),
        ensures
            final(store).wf(),
            exists|at: chrono::NaiveDateTime|
                final(store)@ == old(store)@.revised(keyed::<User>(uuid@), at),
    {
        let at = now();
        let _ = Self::_update_revision(uuid, &at, store);
    }

    /// Stamps every stored account with the time of the call, all with the
    /// same. Against a store that can be busy, `retry` bounds the attempts
    /// and `settle` hands a failure that outlasts them to the caller.
    pub fn update_all_revisions(store: &mut Store) -> (r: Result<(), Error>)
        requires
            old(store).wf(),
        ensures
            r is Ok,
            final(store).wf(),
            exists|at: chrono::NaiveDateTime| final(store)@ == old(store)@.revised(everyone(), at),
    {
        let updated_at = now();
        let all = |u: &User| -> (b: bool)
            ensures
                b,
            { true };
        stamp(store, all, Ghost(everyone()), updated_at);
        Ok(())
    }

    /// Stamps the account with the time of the call, and the stored
    /// account under its identifier with the same.
    pub fn update_revision(&mut self, store: &mut Store) -> (r: Result<(), Error>)
        requires
            old(store).wf(),
        ensures
            r is Ok,
            final(store).wf(),
            final(self)@ == (UserView { updated_at: final(self).updated_at, ..old(self)@ }),
            final(store)@ == old(store)@.revised(
                keyed::<User>(old(self).uuid@),
                final(self).updated_at,
            ),
    {
        self.updated_at = now();
        Self::_update_revision(self.uuid.as_str(), &self.updated_at, store)
    }

    fn _update_revision(uuid: &str, date: &chrono::NaiveDateTime, store: &mut Store) -> (r: Result<(), Error>)
        requires
            old(store).wf(),
        ensures
            r is Ok,
            final(store).wf(),
            final(store)@ == old(store)@.revised(keyed::<User>(uuid@), *date),
    {
        let ghost under = keyed::<User>(uuid@);
        let hit = |u: &User| -> (b: bool)
            ensures
                b == under(u@),
            { has_key(u, uuid) };
        stamp(store, hit, Ghost(under), *date);
        Ok(())
    }
}

/// Every account.
pub open spec fn everyone() -> spec_fn(UserView) -> bool {
    |u: UserView| true
}

/// The accounts with the revision date `at` on those that `who` accepts.
pub open spec fn stamped(rows: Seq<UserView>, who: spec_fn(UserView) -> bool, at: chrono::NaiveDateTime) -> Seq<UserView> {
    Seq::new(
        rows.len(),
        |i: int|
            if who(rows[i]) {
                UserView { updated_at: at, ..rows[i] }
            } else {
                rows[i]
            },
    )
}

/// The owners of an organization other than one account.
pub open spec fn other_owner_of(org_uuid: Seq<char>, user_uuid: Seq<char>) -> spec_fn(
    UserOrganizationView,
) -> bool {
    |m: UserOrganizationView|
        m.org_uuid == org_uuid && m.atype == UserOrgType::Owner.code_of() && m.user_uuid
            != user_uuid
}

impl StoreView {
    /// The store with the revision date `at` on the accounts that `who`
    /// accepts.
    pub open spec fn revised(self, who: spec_fn(UserView) -> bool, at: chrono::NaiveDateTime) -> StoreView {
        StoreView { users: stamped(self.users, who, at), ..self }
    }

    /// Whether the organization has an owner besides the account.
    pub open spec fn has_other_owner(self, org_uuid: Seq<char>, user_uuid: Seq<char>) -> bool {
        exists|i: int|
            0 <= i < self.memberships.len() && other_owner_of(org_uuid, user_uuid)(
                self.memberships[i],
            )
    }

    /// Whether the membership at `i` makes the account the only owner of
    /// an organization.
    pub open spec fn owns_alone_at(self, user_uuid: Seq<char>, i: int) -> bool {
        &&& self.memberships[i].user_uuid == user_uuid
        &&& self.memberships[i].atype == UserOrgType::Owner.code_of()
        &&& !self.has_other_owner(self.memberships[i].org_uuid, user_uuid)
    }

    /// Whether the account is the only owner of some organization.
    pub open spec fn sole_owner(self, user_uuid: Seq<char>) -> bool {
        exists|i: int| 0 <= i < self.memberships.len() && self.owns_alone_at(user_uuid, i)
    }

    /// Whether no row of any table belongs to the account.
    pub open spec fn holds_nothing_of(self, uuid: Seq<char>) -> bool {
        &&& forall|i: int| 0 <= i < self.users.len() ==> (#[trigger] self.users[i]).uuid != uuid
        &&& forall|i: int|
            0 <= i < self.twofactors.len() ==> (#[trigger] self.twofactors[i]).user_uuid != uuid
        &&& forall|i: int|
            0 <= i < self.memberships.len() ==> (#[trigger] self.memberships[i]).user_uuid != uuid
        &&& forall|i: int|
            0 <= i < self.ciphers.len() ==> (#[trigger] self.ciphers[i]).user_uuid != uuid
        &&& forall|i: int|
            0 <= i < self.folders.len() ==> (#[trigger] self.folders[i]).user_uuid != uuid
        &&& forall|i: int|
            0 <= i < self.devices.len() ==> (#[trigger] self.devices[i]).user_uuid != uuid
    }

    /// The store once the account and all that hangs on it are gone. The
    /// invitation for its email goes only while invitations are switched on.
    pub open spec fn without_account(self, uuid: Seq<char>, email: Seq<char>, invitations_allowed: bool) -> StoreView {
        StoreView {
            users: self.users.filter(except(keyed::<User>(uuid))),
            invitations: self.after_take(email, invitations_allowed).invitations,
            twofactors: self.twofactors.filter(except(of_user(uuid))),
            memberships: self.memberships.filter(except(member_is(uuid))),
            ciphers: self.ciphers.filter(except(owned_by(uuid))),
            folders: self.folders.filter(except(owned_by(uuid))),
            devices: self.devices.filter(except(owned_by(uuid))),
        }
    }
}

/// Once an account is removed, no table holds a row of it: no two-factor
/// record, no membership, no cipher, folder or device, and no account row.
/// While invitations are switched on, the invitation for its email is gone
/// as well.
pub proof fn removed_account_leaves_nothing(store: StoreView, uuid: Seq<char>, email: Seq<char>, invitations_allowed: bool)
    ensures
        store.without_account(uuid, email, invitations_allowed).holds_nothing_of(uuid),
        invitations_allowed ==> !store.without_account(uuid, email, invitations_allowed).invites(
            email,
        ),
{
    let after = store.without_account(uuid, email, invitations_allowed);
    lemma_filter_members(store.users, except(keyed::<User>(uuid)));
    lemma_filter_members(store.twofactors, except(of_user(uuid)));
    lemma_filter_members(store.memberships, except(member_is(uuid)));
    lemma_filter_members(store.ciphers, except(owned_by(uuid)));
    lemma_filter_members(store.folders, except(owned_by(uuid)));
    lemma_filter_members(store.devices, except(owned_by(uuid)));
    if invitations_allowed && store.invites(email) {
        lemma_filter_members(store.invitations, except(keyed::<Invitation>(email)));
    }
}

/// Whether the organization has an owner besides the account.
fn has_other_owner(org_uuid: &str, user_uuid: &str, store: &Store) -> (r: bool)
    ensures
        r == store@.has_other_owner(org_uuid@, user_uuid@),
{
    let ghost wanted = other_owner_of(org_uuid@, user_uuid@);
    let hit = |m: &UserOrganization| -> (b: bool)
        ensures
            b == wanted(m@),
        { same(m.org_uuid.as_str(), org_uuid) && m.atype == UserOrgType::Owner.code() && !same(m.user_uuid.as_str(), user_uuid) };
    let found = find_first(&store.memberships, hit, Ghost(wanted));
    proof {
        lemma_first_where(store@.memberships, wanted);
    }
    found.is_some()
}

/// Whether the account is the only owner of some organization.
fn is_sole_owner(user_uuid: &str, store: &Store) -> (r: bool)
    ensures
        r == store@.sole_owner(user_uuid@),
{
    let mut i: usize = 0;
    while i < store.memberships.len()
        invariant
            0 <= i <= store.memberships.len(),
            forall|j: int| 0 <= j < i ==> !store@.owns_alone_at(user_uuid@, j),
        decreases store.memberships.len() - i,
    {
        let m = &store.memberships[i];
        if same(m.user_uuid.as_str(), user_uuid) && m.atype == UserOrgType::Owner.code()
            && !has_other_owner(m.org_uuid.as_str(), user_uuid, store) {
            assert(store@.owns_alone_at(user_uuid@, i as int));
            return true;
        }
        i += 1;
    }
    false
}

/// Puts the revision date `at` on the stored accounts that `touch` accepts.
fn stamp<F: Fn(&User) -> bool>(store: &mut Store, touch: F, Ghost(who): Ghost<spec_fn(UserView) -> bool>, at: chrono::NaiveDateTime)
    requires
        old(store).wf(),
        forall|u: &User| call_requires(touch, (u,)),
        forall|u: &User, b: bool| call_ensures(touch, (u,), b) ==> b == who(u@),
    ensures
        final(store).wf(),
        final(store)@ == old(store)@.revised(who, at),
{
    let ghost before = store@.users;
    let mut out: Vec<User> = Vec::new();
    let mut i: usize = 0;
    while i < store.users.len()
        invariant
            0 <= i <= store.users.len(),
            before == contents(store.users@),
            forall|u: &User| call_requires(touch, (u,)),
            forall|u: &User, b: bool| call_ensures(touch, (u,), b) ==> b == who(u@),
            contents(out@) == stamped(before, who, at).take(i as int),
        decreases store.users.len() - i,
    {
        let ghost so_far = out@;
        let mut copy = store.users[i].duplicate();
        if touch(&store.users[i]) {
            copy.updated_at = at;
        }
        out.push(copy);
        assert(contents(out@) == contents(so_far).push(copy@));
        assert(stamped(before, who, at).take(i + 1) == stamped(before, who, at).take(i as int).push(
            copy@,
        ));
        i += 1;
    }
    assert(stamped(before, who, at).take(before.len() as int) == stamped(before, who, at));
    store.users = out;
}

/// The mark that an email address may sign up.
#[derive(Debug)]
pub struct Invitation {
    pub email: String,
}

pub struct InvitationView {
    pub email: Seq<char>,
}

impl View for Invitation {
    type V = InvitationView;

    open spec fn view(&self) -> InvitationView {
        InvitationView { email: self.email@ }
    }
}

impl Row for Invitation {
    open spec fn key_of(v: InvitationView) -> Seq<char> {
        v.email
    }

    fn key(&self) -> (k: &str) {
        self.email.as_str()
    }

    fn duplicate(&self) -> (r: Self) {
        Invitation { email: self.email.clone() }
    }
}

impl StoreView {
    /// Whether an invitation is pending for the email, letter for letter.
    pub open spec fn invites(self, email: Seq<char>) -> bool {
        exists|i: int| 0 <= i < self.invitations.len() && self.invitations[i].email == email
    }

    /// The store without the invitation for the email.
    pub open spec fn without_invitation(self, email: Seq<char>) -> StoreView {
        StoreView {
            invitations: self.invitations.filter(except(keyed::<Invitation>(email))),
            ..self
        }
    }

    /// The store after `take` was asked for the email in lowercase: with
    /// invitations switched on the invitation is gone, else nothing moved.
    pub open spec fn after_take(self, email: Seq<char>, allowed: bool) -> StoreView {
        if allowed && self.invites(email) {
            self.without_invitation(email)
        } else {
            self
        }
    }
}

/// An invitation whose email is not blank.
pub open spec fn invitation_has_email() -> spec_fn(InvitationView) -> bool {
    |v: InvitationView| !is_blank(v.email)
}

impl Invitation {
    pub fn new(email: String) -> (invitation: Self)
        ensures
            invitation.email@ == email@,
    {
        Invitation { email }
    }

    /// Writes the invitation, unless its email is blank.
    pub fn save(&self, store: &mut Store) -> (r: Result<(), Error>)
        requires
            old(store).wf(),
        ensures
            final(store).wf(),
            is_blank(self.email@) ==> r == Err::<(), Error>(Error::EmptyInvitationEmail)
                && final(store)@ == old(store)@,
            !is_blank(self.email@) ==> r is Ok && final(store)@ == (StoreView {
                invitations: replaced::<Invitation>(old(store)@.invitations, self@),
                ..old(store)@
            }),
    {
        if blank(self.email.as_str()) {
            return Err(Error::EmptyInvitationEmail);
        }
        proof {
            lemma_replaced_keeps::<Invitation>(store@.invitations, self@, invitation_has_email());
        }
        put(&mut store.invitations, self.duplicate());
        Ok(())
    }

    /// Removes the invitation.
    pub fn delete(self, store: &mut Store) -> (r: Result<(), Error>)
        requires
            old(store).wf(),
        ensures
            r is Ok,
            final(store).wf(),
            final(store)@ == old(store)@.without_invitation(self.email@),
    {
        let ghost under = keyed::<Invitation>(self.email@);
        let taken = |t: &Invitation| -> (b: bool)
            ensures
                b == under(t@),
            { has_key(t, self.email.as_str()) };
        proof {
            lemma_filter_keeps(store@.invitations, except(under), invitation_has_email());
        }
        discard(&mut store.invitations, taken, Ghost(under));
        Ok(())
    }

    /// The invitation for the email in lowercase, if one is pending.
    pub fn find_by_mail(mail: &str, store: &Store) -> (found: Option<Self>)
        ensures
            found is Some <==> store@.invites(lowercase(mail@)),
            found matches Some(invitation) ==> invitation.email@ == lowercase(mail@),
    {
        let lower_mail = to_lowercase(mail);
        let ghost under = keyed::<Invitation>(lower_mail@);
        let hit = |t: &Invitation| -> (b: bool)
            ensures
                b == under(t@),
            { has_key(t, lower_mail.as_str()) };
        let found = find_first(&store.invitations, hit, Ghost(under));
        proof {
            lemma_first_where(store@.invitations, under);
        }
        found
    }

    /// Takes the invitation for the email in lowercase: removes it and says
    /// so. Nothing is taken while invitations are switched off.
    pub fn take(mail: &str, store: &mut Store, config: &Config) -> (taken: bool)
        requires
            old(store).wf(),
        ensures
            final(store).wf(),
            taken == (config.invitations_allowed && old(store)@.invites(lowercase(mail@))),
            final(store)@ == old(store)@.after_take(lowercase(mail@), config.invitations_allowed),
            !config.invitations_allowed ==> !taken && final(store)@ == old(store)@,
            taken ==> !final(store)@.invites(lowercase(mail@)),
    {
        proof {
            lemma_filter_members(
                store@.invitations,
                except(keyed::<Invitation>(lowercase(mail@))),
            );
        }
        config.invitations_allowed() && match Self::find_by_mail(mail, store) {
            Some(invitation) => invitation.delete(store).is_ok(),
            None => false,
        }
    }
}

} // verus!
