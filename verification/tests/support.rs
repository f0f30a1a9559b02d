use identity_store::crypto::{ct_eq, get_random_64, hash_password, verify_password_hash};
use identity_store::retry::{retry, settle, Exhausted, Next, Retry, MAX_TRIES};
use identity_store::text::{blank, char_is_space, same};
use identity_store::user::User;
use identity_store::{Config, Error, ErrorKind, Invitation, Owned, Store, Tables, TwoFactor, UserOrgType, UserOrganization};
use std::cell::Cell;

fn tables() -> Tables {
    Tables {
        users: Vec::new(),
        invitations: Vec::new(),
        twofactors: Vec::new(),
        memberships: Vec::new(),
        ciphers: Vec::new(),
        folders: Vec::new(),
        devices: Vec::new(),
    }
}

fn user(id: &str, email: &str) -> User {
    let mut u = User::new(email.to_string(), &Config::new(1000, true));
    u.uuid = id.to_string();
    u
}

fn two_factor(id: &str) -> TwoFactor {
    TwoFactor { uuid: id.to_string(), user_uuid: "u".to_string(), atype: 0, enabled: true, data: String::new() }
}

#[test]
fn white_space_is_what_unicode_says() {
    for c in ['\t', '\n', '\u{b}', '\u{c}', '\r', ' ', '\u{85}', '\u{a0}', '\u{1680}', '\u{2000}', '\u{2005}',
        '\u{200a}', '\u{2028}', '\u{2029}', '\u{202f}', '\u{205f}', '\u{3000}']
    {
        assert!(char_is_space(c));
    }
    for c in ['a', '0', '\u{8}', '\u{e}', '\u{1f}', '!', '\u{84}', '\u{86}', '\u{9f}', '\u{a1}', '\u{167f}', '\u{180e}',
        '\u{1fff}', '\u{200b}', '\u{2027}', '\u{202a}', '\u{2060}', '\u{2fff}', '\u{3001}', '\u{feff}']
    {
        assert!(!char_is_space(c));
    }
    let mut n: u32 = 0;
    while n <= 0x3100 {
        if let Some(c) = char::from_u32(n) {
            assert_eq!(char_is_space(c), c.is_whitespace());
        }
        n += 1;
    }
}

#[test]
fn a_text_is_blank_when_trimming_leaves_nothing() {
    for s in ["", " ", "\t \n", "a", " a ", "\u{3000}", "\u{200b}", " . ", "\u{a0}\u{2009}"] {
        assert_eq!(blank(s), s.trim().is_empty());
    }
}

#[test]
fn texts_are_compared_letter_for_letter() {
    assert!(same("", ""));
    assert!(same("abc", "abc"));
    assert!(!same("abc", "abd"));
    assert!(!same("abc", "ab"));
    assert!(!same("abc", "ABC"));
    assert!(ct_eq("", ""));
    assert!(ct_eq("recovery", "recovery"));
    assert!(!ct_eq("recovery", "recoverY"));
    assert!(!ct_eq("recovery", "recover"));
    assert!(!ct_eq("", "x"));
    assert!(ct_eq("né", "né"));
    assert!(!ct_eq("né", "ne"));
}

#[test]
fn a_salt_has_sixty_four_fresh_bytes() {
    let a = get_random_64();
    let b = get_random_64();
    assert_eq!(a.len(), 64);
    assert_eq!(b.len(), 64);
    assert_ne!(a, b);
}

#[test]
fn a_hash_verifies_against_its_own_inputs_only() {
    let hash = hash_password(b"secret", b"salt", 3);
    assert_eq!(hash.len(), 32);
    assert_ne!(hash, b"secret".to_vec());
    assert_eq!(hash, hash_password(b"secret", b"salt", 3));
    assert!(verify_password_hash(b"secret", b"salt", &hash, 3));
    assert!(!verify_password_hash(b"secres", b"salt", &hash, 3));
    assert!(!verify_password_hash(b"secret", b"salT", &hash, 3));
    assert!(!verify_password_hash(b"secret", b"salt", &hash, 4));
    assert!(!verify_password_hash(b"secret", b"salt", &[], 3));
    let mut longer = hash.clone();
    longer.push(0);
    assert!(!verify_password_hash(b"secret", b"salt", &longer, 3));
    assert!(verify_password_hash(b"secret", b"salt", &hash[..1], 3));
}

#[test]
fn the_tenth_failure_is_the_last() {
    assert_eq!(MAX_TRIES, 10);
    let mut state = Retry::new(MAX_TRIES);
    for _ in 0..9 {
        assert_eq!(state.record(false), Next::Again);
    }
    assert_eq!(state.record(false), Next::Stop);
}

#[test]
fn a_success_ends_the_attempts() {
    let mut state = Retry::new(10);
    assert_eq!(state.record(true), Next::Stop);
    let mut state = Retry::new(10);
    assert_eq!(state.record(false), Next::Again);
    assert_eq!(state.record(false), Next::Again);
    assert_eq!(state.record(true), Next::Stop);
    assert_eq!(state.record(false), Next::Again);
}

#[test]
fn a_ceiling_below_two_allows_one_attempt() {
    for ceiling in [1, 0, -3, i32::MIN] {
        assert_eq!(Retry::new(ceiling).record(false), Next::Stop);
        assert_eq!(Retry::new(ceiling).record(true), Next::Stop);
    }
    let mut two = Retry::new(2);
    assert_eq!(two.record(false), Next::Again);
    assert_eq!(two.record(false), Next::Stop);
}

#[test]
fn retry_gives_up_after_the_ceiling() {
    let attempts = Cell::new(0);
    let pauses = Cell::new(0);
    let r: Result<u8, i32> = retry(
        || {
            attempts.set(attempts.get() + 1);
            Err(attempts.get())
        },
        || pauses.set(pauses.get() + 1),
        MAX_TRIES,
    );
    assert_eq!(r, Err(10));
    assert_eq!(attempts.get(), 10);
    assert_eq!(pauses.get(), 9);
}

#[test]
fn retry_stops_at_the_first_success() {
    let attempts = Cell::new(0);
    let pauses = Cell::new(0);
    let r: Result<i32, &str> = retry(
        || {
            attempts.set(attempts.get() + 1);
            if attempts.get() < 3 {
                Err("busy")
            } else {
                Ok(attempts.get() * 7)
            }
        },
        || pauses.set(pauses.get() + 1),
        10,
    );
    assert_eq!(r, Ok(21));
    assert_eq!(attempts.get(), 3);
    assert_eq!(pauses.get(), 2);
}

#[test]
fn retry_always_tries_once() {
    for ceiling in [1, 0, -1] {
        let attempts = Cell::new(0);
        let pauses = Cell::new(0);
        let r: Result<(), ()> = retry(
            || {
                attempts.set(attempts.get() + 1);
                Err(())
            },
            || pauses.set(pauses.get() + 1),
            ceiling,
        );
        assert_eq!(r, Err(()));
        assert_eq!(attempts.get(), 1);
        assert_eq!(pauses.get(), 0);
    }
}

#[test]
fn a_lasting_failure_is_swallowed_for_one_account_and_reported_for_all() {
    assert_eq!(settle(Exhausted::Swallowed, true), Ok(()));
    assert_eq!(settle(Exhausted::Swallowed, false), Ok(()));
    assert_eq!(settle(Exhausted::Reported, true), Ok(()));
    assert_eq!(settle(Exhausted::Reported, false), Err(Error::RevisionNotUpdated));
    assert_eq!(Error::RevisionNotUpdated.kind(), ErrorKind::Transient);
}

#[test]
fn every_failure_has_its_kind_and_words() {
    assert_eq!(Error::EmptyUserEmail.kind(), ErrorKind::Validation);
    assert_eq!(Error::EmptyInvitationEmail.kind(), ErrorKind::Validation);
    assert_eq!(Error::LastOwner.kind(), ErrorKind::Integrity);
    assert_eq!(Error::RevisionNotUpdated.kind(), ErrorKind::Transient);
    assert_eq!(Error::EmptyUserEmail.message(), "User email can't be empty");
    assert_eq!(Error::EmptyInvitationEmail.message(), "Invitation email can't be empty");
    assert_eq!(Error::LastOwner.message(), "Can't delete last owner");
    assert_eq!(Error::RevisionNotUpdated.message(), "Error updating revision date for all users");
}

#[test]
fn a_new_store_is_empty() {
    let t = Store::new().to_tables();
    assert!(t.users.is_empty() && t.invitations.is_empty() && t.twofactors.is_empty());
    assert!(t.memberships.is_empty() && t.ciphers.is_empty() && t.folders.is_empty() && t.devices.is_empty());
}

#[test]
fn a_store_opens_on_its_own_rows() {
    let mut store = Store::new();
    let mut alice = user("u1", "alice@example.com");
    alice.save(&mut store).unwrap();
    two_factor("t1").save(&mut store).unwrap();
    Invitation::new("carol@example.com".to_string()).save(&mut store).unwrap();
    UserOrganization::new("m1".to_string(), "u1".to_string(), "o".to_string(), UserOrgType::Owner)
        .save(&mut store)
        .unwrap();
    Owned::new("c1".to_string(), "u1".to_string()).save(identity_store::Holding::Cipher, &mut store).unwrap();
    let reopened = Store::from_tables(store.to_tables()).unwrap();
    let t = reopened.to_tables();
    assert_eq!(t.users.len(), 1);
    assert_eq!(t.users[0].uuid, "u1");
    assert_eq!(t.users[0].updated_at, alice.updated_at);
    assert_eq!(t.users[0].salt, alice.salt);
    assert_eq!(t.twofactors[0].uuid, "t1");
    assert_eq!(t.invitations[0].email, "carol@example.com");
    assert_eq!(t.memberships[0].uuid, "m1");
    assert_eq!(t.ciphers[0].uuid, "c1");
    assert!(t.folders.is_empty() && t.devices.is_empty());
    assert!(User::find_by_mail("alice@example.com", &reopened).is_some());
}

#[test]
fn rows_that_share_a_key_are_refused() {
    let mut t = tables();
    t.users = vec![user("u1", "a@example.com"), user("u2", "b@example.com"), user("u1", "c@example.com")];
    assert!(Store::from_tables(t).is_none());
    let mut t = tables();
    t.twofactors = vec![two_factor("t1"), two_factor("t1")];
    assert!(Store::from_tables(t).is_none());
    let mut t = tables();
    t.invitations = vec![Invitation::new("a@b".to_string()), Invitation::new("a@b".to_string())];
    assert!(Store::from_tables(t).is_none());
    let mut t = tables();
    t.devices = vec![Owned::new("d".to_string(), "u".to_string()), Owned::new("d".to_string(), "v".to_string())];
    assert!(Store::from_tables(t).is_none());
    let mut t = tables();
    t.ciphers = vec![Owned::new("d".to_string(), "u".to_string())];
    t.folders = vec![Owned::new("d".to_string(), "u".to_string())];
    t.users = vec![user("u1", "a@example.com"), user("u2", "a@example.com")];
    assert!(Store::from_tables(t).is_some());
}

#[test]
fn rows_with_a_blank_email_are_refused() {
    let mut t = tables();
    let mut blank_user = user("u1", "a@example.com");
    blank_user.email = " ".to_string();
    t.users = vec![user("u0", "a@example.com"), blank_user];
    assert!(Store::from_tables(t).is_none());
    let mut t = tables();
    t.invitations = vec![Invitation::new("".to_string())];
    assert!(Store::from_tables(t).is_none());
    assert!(Store::from_tables(tables()).is_some());
}
