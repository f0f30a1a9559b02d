use identity_store::user::User;
use identity_store::{
    Config, Error, ErrorKind, Holding, Invitation, Owned, Store, TwoFactor, TwoFactorType,
    UserOrgType, UserOrganization,
};

fn config() -> Config {
    Config::new(1000, true)
}

fn saved(store: &mut Store, email: &str) -> User {
    let mut user = User::new(email.to_string(), &config());
    user.save(store).unwrap();
    user
}

fn member(store: &mut Store, id: &str, user: &User, org: &str, role: UserOrgType) {
    UserOrganization::new(id.to_string(), user.uuid.clone(), org.to_string(), role)
        .save(store)
        .unwrap();
}

fn holding(store: &mut Store, kind: Holding, id: &str, user: &User) {
    Owned::new(id.to_string(), user.uuid.clone()).save(kind, store).unwrap();
}

fn count_all(store: &Store) -> [usize; 7] {
    let t = store.to_tables();
    [
        t.users.len(),
        t.invitations.len(),
        t.twofactors.len(),
        t.memberships.len(),
        t.ciphers.len(),
        t.folders.len(),
        t.devices.len(),
    ]
}

#[test]
fn a_blank_email_is_refused_and_nothing_is_written() {
    for email in ["", " ", "   ", "\t\n", "\u{3000}\u{a0} \u{2003}"] {
        let mut store = Store::new();
        let mut user = User::new("placeholder@example.com".to_string(), &config());
        user.email = email.to_string();
        let stamped = user.updated_at;
        let r = user.save(&mut store);
        assert_eq!(r, Err(Error::EmptyUserEmail));
        assert_eq!(r.unwrap_err().kind(), ErrorKind::Validation);
        assert_eq!(user.updated_at, stamped);
        assert!(User::get_all(&store).is_empty());
        assert_eq!(count_all(&store), [0; 7]);
    }
}

#[test]
fn a_blank_email_does_not_overwrite_the_stored_account() {
    let mut store = Store::new();
    let mut user = saved(&mut store, "alice@example.com");
    user.email = "  ".to_string();
    assert_eq!(user.save(&mut store), Err(Error::EmptyUserEmail));
    let kept = User::find_by_uuid(&user.uuid, &store).unwrap();
    assert_eq!(kept.email, "alice@example.com");
}

#[test]
fn an_email_with_a_letter_in_it_is_not_blank() {
    let mut store = Store::new();
    let mut user = User::new("x".to_string(), &config());
    user.email = "  x  ".to_string();
    assert_eq!(user.save(&mut store), Ok(()));
    assert_eq!(User::get_all(&store).len(), 1);
}

#[test]
fn a_saved_account_is_found_again() {
    let mut store = Store::new();
    let mut user = User::new("Alice@Example.com".to_string(), &config());
    user.set_password("pw");
    user.password_hint = Some("hint".to_string());
    assert_eq!(user.save(&mut store), Ok(()));

    let by_id = User::find_by_uuid(&user.uuid, &store).unwrap();
    assert_eq!(by_id.uuid, user.uuid);
    assert_eq!(by_id.email, "alice@example.com");
    assert_eq!(by_id.password_hash, user.password_hash);
    assert_eq!(by_id.salt, user.salt);
    assert_eq!(by_id.password_hint, Some("hint".to_string()));
    assert_eq!(by_id.security_stamp, user.security_stamp);
    assert_eq!(by_id.updated_at, user.updated_at);
    assert_eq!(by_id.created_at, user.created_at);
    assert!(by_id.check_valid_password("pw"));

    let by_mail = User::find_by_mail("ALICE@example.COM", &store).unwrap();
    assert_eq!(by_mail.uuid, user.uuid);
}

#[test]
fn what_is_not_stored_is_not_found() {
    let mut store = Store::new();
    assert!(User::find_by_uuid("nobody", &store).is_none());
    assert!(User::find_by_mail("nobody@example.com", &store).is_none());
    let user = saved(&mut store, "alice@example.com");
    assert!(User::find_by_uuid("nobody", &store).is_none());
    assert!(User::find_by_mail("alice@example.org", &store).is_none());
    assert!(User::find_by_mail(&user.uuid, &store).is_none());
}

#[test]
fn saving_again_overwrites_the_whole_record() {
    let mut store = Store::new();
    let mut user = saved(&mut store, "alice@example.com");
    let other = saved(&mut store, "bob@example.com");
    user.name = "Alice".to_string();
    user.email = "alice@example.org".to_string();
    assert_eq!(user.save(&mut store), Ok(()));
    assert_eq!(user.save(&mut store), Ok(()));

    let all = User::get_all(&store);
    assert_eq!(all.len(), 2);
    assert_eq!(all[0].uuid, other.uuid);
    assert_eq!(all[1].uuid, user.uuid);
    assert_eq!(all[1].name, "Alice");
    assert!(User::find_by_mail("alice@example.com", &store).is_none());
    assert_eq!(User::find_by_mail("alice@example.org", &store).unwrap().uuid, user.uuid);
}

#[test]
fn saving_stamps_the_account() {
    let mut store = Store::new();
    let mut user = User::new("alice@example.com".to_string(), &config());
    let created = user.created_at;
    let before = user.updated_at;
    user.save(&mut store).unwrap();
    assert_eq!(user.created_at, created);
    assert!(user.updated_at >= before);
    assert_eq!(User::find_by_uuid(&user.uuid, &store).unwrap().updated_at, user.updated_at);
}

#[test]
fn the_first_account_under_an_email_is_found() {
    let mut store = Store::new();
    let first = saved(&mut store, "twin@example.com");
    let second = saved(&mut store, "twin@example.com");
    assert_ne!(first.uuid, second.uuid);
    assert_eq!(User::find_by_mail("twin@example.com", &store).unwrap().uuid, first.uuid);
}

#[test]
fn touching_one_account_stamps_it_and_no_other() {
    let mut store = Store::new();
    let alice = saved(&mut store, "alice@example.com");
    let bob = saved(&mut store, "bob@example.com");
    User::update_uuid_revision(&alice.uuid, &mut store);
    let a = User::find_by_uuid(&alice.uuid, &store).unwrap();
    let b = User::find_by_uuid(&bob.uuid, &store).unwrap();
    assert!(a.updated_at >= alice.updated_at);
    assert_eq!(a.created_at, alice.created_at);
    assert_eq!(a.email, alice.email);
    assert_eq!(a.security_stamp, alice.security_stamp);
    assert_eq!(b.updated_at, bob.updated_at);
    let all = User::get_all(&store);
    assert_eq!(all.len(), 2);
    assert_eq!(all[0].uuid, alice.uuid);
    assert_eq!(all[1].uuid, bob.uuid);
}

#[test]
fn touching_an_unknown_account_changes_nothing() {
    let mut store = Store::new();
    let alice = saved(&mut store, "alice@example.com");
    User::update_uuid_revision("nobody", &mut store);
    let all = User::get_all(&store);
    assert_eq!(all.len(), 1);
    assert_eq!(all[0].updated_at, alice.updated_at);
}

#[test]
fn touching_all_accounts_gives_them_one_stamp() {
    let mut store = Store::new();
    let alice = saved(&mut store, "alice@example.com");
    let bob = saved(&mut store, "bob@example.com");
    assert_eq!(User::update_all_revisions(&mut store), Ok(()));
    let all = User::get_all(&store);
    assert_eq!(all.len(), 2);
    assert_eq!(all[0].updated_at, all[1].updated_at);
    assert!(all[0].updated_at >= alice.updated_at);
    assert!(all[1].updated_at >= bob.updated_at);
    assert_eq!(all[0].uuid, alice.uuid);
    assert_eq!(all[1].email, "bob@example.com");
    assert_eq!(User::update_all_revisions(&mut Store::new()), Ok(()));
}

#[test]
fn an_account_touches_itself_and_its_stored_row_alike() {
    let mut store = Store::new();
    let mut alice = saved(&mut store, "alice@example.com");
    let before = alice.updated_at;
    alice.name = "not written".to_string();
    assert_eq!(alice.update_revision(&mut store), Ok(()));
    assert!(alice.updated_at >= before);
    let stored = User::find_by_uuid(&alice.uuid, &store).unwrap();
    assert_eq!(stored.updated_at, alice.updated_at);
    assert_eq!(stored.name, "alice@example.com");
}

#[test]
fn the_only_owner_of_an_organization_cannot_be_deleted() {
    let mut store = Store::new();
    let alice = saved(&mut store, "alice@example.com");
    let bob = saved(&mut store, "bob@example.com");
    member(&mut store, "m1", &alice, "org", UserOrgType::Owner);
    member(&mut store, "m2", &bob, "org", UserOrgType::Admin);
    member(&mut store, "m3", &bob, "other-org", UserOrgType::Owner);
    TwoFactor::new(alice.uuid.clone(), TwoFactorType::Authenticator, "s".to_string())
        .save(&mut store)
        .unwrap();
    holding(&mut store, Holding::Cipher, "c1", &alice);
    holding(&mut store, Holding::Folder, "f1", &alice);
    holding(&mut store, Holding::Device, "d1", &alice);
    Invitation::new("alice@example.com".to_string()).save(&mut store).unwrap();
    let before = count_all(&store);

    let id = alice.uuid.clone();
    let r = alice.delete(&mut store, &config());
    assert_eq!(r, Err(Error::LastOwner));
    assert_eq!(r.unwrap_err().kind(), ErrorKind::Integrity);
    assert_eq!(count_all(&store), before);
    assert_eq!(before, [2, 1, 1, 3, 1, 1, 1]);
    assert!(User::find_by_uuid(&id, &store).is_some());
    assert_eq!(UserOrganization::find_by_user(&id, &store).len(), 1);
    assert_eq!(TwoFactor::find_by_user(&id, &store).len(), 1);
    assert!(Invitation::find_by_mail("alice@example.com", &store).is_some());
}

#[test]
fn a_second_membership_of_the_same_account_is_no_other_owner() {
    let mut store = Store::new();
    let alice = saved(&mut store, "alice@example.com");
    member(&mut store, "m1", &alice, "org", UserOrgType::Owner);
    member(&mut store, "m2", &alice, "org", UserOrgType::Owner);
    assert_eq!(alice.delete(&mut store, &config()), Err(Error::LastOwner));
    assert_eq!(count_all(&store)[3], 2);
}

#[test]
fn a_co_owner_is_deleted_with_all_that_hangs_on_it() {
    let mut store = Store::new();
    let alice = saved(&mut store, "alice@example.com");
    let bob = saved(&mut store, "bob@example.com");
    member(&mut store, "m1", &alice, "org", UserOrgType::Owner);
    member(&mut store, "m2", &bob, "org", UserOrgType::Owner);
    member(&mut store, "m3", &alice, "club", UserOrgType::User);
    for (id, kind) in [("t1", TwoFactorType::Authenticator), ("t2", TwoFactorType::U2fLoginChallenge)] {
        let mut t = TwoFactor::new(alice.uuid.clone(), kind, "s".to_string());
        t.uuid = id.to_string();
        t.save(&mut store).unwrap();
    }
    TwoFactor::new(bob.uuid.clone(), TwoFactorType::Email, "s".to_string()).save(&mut store).unwrap();
    holding(&mut store, Holding::Cipher, "c1", &alice);
    holding(&mut store, Holding::Cipher, "c2", &alice);
    holding(&mut store, Holding::Cipher, "c3", &bob);
    holding(&mut store, Holding::Folder, "f1", &alice);
    holding(&mut store, Holding::Folder, "f2", &bob);
    holding(&mut store, Holding::Device, "d1", &alice);
    holding(&mut store, Holding::Device, "d2", &bob);
    Invitation::new("alice@example.com".to_string()).save(&mut store).unwrap();
    Invitation::new("carol@example.com".to_string()).save(&mut store).unwrap();
    assert_eq!(count_all(&store), [2, 2, 3, 3, 3, 2, 2]);

    let id = alice.uuid.clone();
    assert_eq!(alice.delete(&mut store, &config()), Ok(()));

    assert!(User::find_by_uuid(&id, &store).is_none());
    assert!(User::find_by_mail("alice@example.com", &store).is_none());
    assert!(TwoFactor::find_by_user(&id, &store).is_empty());
    assert!(TwoFactor::find_by_user_and_type(&id, 1001, &store).is_none());
    assert!(UserOrganization::find_by_user(&id, &store).is_empty());
    assert!(Owned::find_by_user(Holding::Cipher, &id, &store).is_empty());
    assert!(Owned::find_by_user(Holding::Folder, &id, &store).is_empty());
    assert!(Owned::find_by_user(Holding::Device, &id, &store).is_empty());
    assert!(Invitation::find_by_mail("alice@example.com", &store).is_none());

    assert_eq!(count_all(&store), [1, 1, 1, 1, 1, 1, 1]);
    assert!(User::find_by_uuid(&bob.uuid, &store).is_some());
    assert_eq!(TwoFactor::find_by_user(&bob.uuid, &store).len(), 1);
    assert_eq!(UserOrganization::find_by_org_and_type("org", 0, &store).len(), 1);
    assert_eq!(Owned::find_by_user(Holding::Cipher, &bob.uuid, &store)[0].uuid, "c3");
    assert!(Invitation::find_by_mail("carol@example.com", &store).is_some());
}

#[test]
fn deleting_leaves_the_invitation_while_invitations_are_off() {
    let mut store = Store::new();
    let alice = saved(&mut store, "alice@example.com");
    Invitation::new("alice@example.com".to_string()).save(&mut store).unwrap();
    assert_eq!(alice.delete(&mut store, &Config::new(1000, false)), Ok(()));
    assert!(User::get_all(&store).is_empty());
    assert!(Invitation::find_by_mail("alice@example.com", &store).is_some());
}

#[test]
fn an_account_without_memberships_is_deleted() {
    let mut store = Store::new();
    let alice = saved(&mut store, "alice@example.com");
    let bob = saved(&mut store, "bob@example.com");
    member(&mut store, "m1", &bob, "org", UserOrgType::Owner);
    assert_eq!(alice.delete(&mut store, &config()), Ok(()));
    assert_eq!(count_all(&store), [1, 0, 0, 1, 0, 0, 0]);
}

#[test]
fn a_member_who_is_no_owner_is_deleted() {
    let mut store = Store::new();
    let alice = saved(&mut store, "alice@example.com");
    member(&mut store, "m1", &alice, "org", UserOrgType::Admin);
    member(&mut store, "m2", &alice, "club", UserOrgType::Manager);
    assert_eq!(alice.delete(&mut store, &config()), Ok(()));
    assert_eq!(count_all(&store), [0; 7]);
}

#[test]
fn deleting_an_account_that_was_never_saved_still_clears_its_records() {
    let mut store = Store::new();
    let ghost = User::new("ghost@example.com".to_string(), &config());
    holding(&mut store, Holding::Device, "d1", &ghost);
    assert_eq!(ghost.delete(&mut store, &config()), Ok(()));
    assert_eq!(count_all(&store), [0; 7]);
}

#[test]
fn membership_roles_have_their_codes() {
    assert_eq!(UserOrgType::Owner.code(), 0);
    assert_eq!(UserOrgType::Admin.code(), 1);
    assert_eq!(UserOrgType::User.code(), 2);
    assert_eq!(UserOrgType::Manager.code(), 3);
    let m = UserOrganization::new("m".to_string(), "u".to_string(), "o".to_string(), UserOrgType::Manager);
    assert_eq!((m.uuid.as_str(), m.user_uuid.as_str(), m.org_uuid.as_str(), m.atype), ("m", "u", "o", 3));
}

#[test]
fn memberships_are_listed_by_account_and_by_role() {
    let mut store = Store::new();
    let alice = saved(&mut store, "alice@example.com");
    let bob = saved(&mut store, "bob@example.com");
    member(&mut store, "m1", &alice, "org", UserOrgType::Owner);
    member(&mut store, "m2", &bob, "org", UserOrgType::Owner);
    member(&mut store, "m3", &bob, "org", UserOrgType::User);
    member(&mut store, "m1", &alice, "org", UserOrgType::Admin);
    let of_bob: Vec<String> =
        UserOrganization::find_by_user(&bob.uuid, &store).into_iter().map(|m| m.uuid).collect();
    assert_eq!(of_bob, vec!["m2".to_string(), "m3".to_string()]);
    let owners = UserOrganization::find_by_org_and_type("org", 0, &store);
    assert_eq!(owners.len(), 1);
    assert_eq!(owners[0].user_uuid, bob.uuid);
    let of_alice = UserOrganization::find_by_user(&alice.uuid, &store);
    assert_eq!(of_alice.len(), 1);
    assert_eq!(of_alice[0].atype, 1);
    assert_eq!(UserOrganization::delete_all_by_user(&bob.uuid, &mut store), Ok(()));
    assert_eq!(count_all(&store)[3], 1);
}

#[test]
fn owned_records_keep_to_their_kind() {
    let mut store = Store::new();
    let alice = saved(&mut store, "alice@example.com");
    holding(&mut store, Holding::Cipher, "x", &alice);
    holding(&mut store, Holding::Folder, "x", &alice);
    holding(&mut store, Holding::Cipher, "x", &alice);
    assert_eq!(count_all(&store), [1, 0, 0, 0, 1, 1, 0]);
    assert_eq!(Owned::delete_all_by_user(Holding::Cipher, &alice.uuid, &mut store), Ok(()));
    assert_eq!(count_all(&store), [1, 0, 0, 0, 0, 1, 0]);
    assert_eq!(Owned::delete_all_by_user(Holding::Device, &alice.uuid, &mut store), Ok(()));
    assert_eq!(Owned::find_by_user(Holding::Folder, &alice.uuid, &store).len(), 1);
}
