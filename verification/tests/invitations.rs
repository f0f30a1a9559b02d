use identity_store::{Config, Error, ErrorKind, Invitation, Store};

fn emails(store: &Store) -> Vec<String> {
    store.to_tables().invitations.into_iter().map(|i| i.email).collect()
}

#[test]
fn an_invitation_keeps_the_email_it_was_made_with() {
    let invitation = Invitation::new("Carol@Example.com".to_string());
    assert_eq!(invitation.email, "Carol@Example.com");
}

#[test]
fn a_blank_invitation_is_refused() {
    for email in ["", "  ", "\n\t "] {
        let mut store = Store::new();
        let r = Invitation::new(email.to_string()).save(&mut store);
        assert_eq!(r, Err(Error::EmptyInvitationEmail));
        assert_eq!(r.unwrap_err().kind(), ErrorKind::Validation);
        assert!(emails(&store).is_empty());
    }
}

#[test]
fn one_invitation_waits_under_an_email() {
    let mut store = Store::new();
    assert_eq!(Invitation::new("carol@example.com".to_string()).save(&mut store), Ok(()));
    assert_eq!(Invitation::new("dave@example.com".to_string()).save(&mut store), Ok(()));
    assert_eq!(Invitation::new("carol@example.com".to_string()).save(&mut store), Ok(()));
    assert_eq!(emails(&store), vec!["dave@example.com".to_string(), "carol@example.com".to_string()]);
}

#[test]
fn an_invitation_is_looked_up_in_lowercase() {
    let mut store = Store::new();
    Invitation::new("carol@example.com".to_string()).save(&mut store).unwrap();
    assert_eq!(Invitation::find_by_mail("Carol@EXAMPLE.com", &store).unwrap().email, "carol@example.com");
    assert_eq!(Invitation::find_by_mail("carol@example.com", &store).unwrap().email, "carol@example.com");
    assert!(Invitation::find_by_mail("dave@example.com", &store).is_none());
}

#[test]
fn an_invitation_stored_with_capitals_is_never_found() {
    let mut store = Store::new();
    Invitation::new("Carol@example.com".to_string()).save(&mut store).unwrap();
    assert!(Invitation::find_by_mail("Carol@example.com", &store).is_none());
    assert!(!Invitation::take("Carol@example.com", &mut store, &Config::new(1, true)));
    assert_eq!(emails(&store).len(), 1);
}

#[test]
fn an_invitation_is_taken_once() {
    let mut store = Store::new();
    let config = Config::new(1000, true);
    Invitation::new("carol@example.com".to_string()).save(&mut store).unwrap();
    Invitation::new("dave@example.com".to_string()).save(&mut store).unwrap();
    assert!(Invitation::take("CAROL@example.com", &mut store, &config));
    assert_eq!(emails(&store), vec!["dave@example.com".to_string()]);
    assert!(!Invitation::take("carol@example.com", &mut store, &config));
    assert_eq!(emails(&store), vec!["dave@example.com".to_string()]);
}

#[test]
fn nothing_is_taken_while_invitations_are_off() {
    let mut store = Store::new();
    let config = Config::new(1000, false);
    Invitation::new("carol@example.com".to_string()).save(&mut store).unwrap();
    assert!(!Invitation::take("carol@example.com", &mut store, &config));
    assert_eq!(emails(&store), vec!["carol@example.com".to_string()]);
    assert!(Invitation::find_by_mail("carol@example.com", &store).is_some());
    assert!(!Invitation::take("nobody@example.com", &mut store, &config));
    assert_eq!(emails(&store).len(), 1);
}

#[test]
fn taking_what_is_not_there_gives_false() {
    let mut store = Store::new();
    assert!(!Invitation::take("carol@example.com", &mut store, &Config::new(1000, true)));
    assert!(emails(&store).is_empty());
}

#[test]
fn a_deleted_invitation_is_gone() {
    let mut store = Store::new();
    Invitation::new("carol@example.com".to_string()).save(&mut store).unwrap();
    Invitation::new("dave@example.com".to_string()).save(&mut store).unwrap();
    assert_eq!(Invitation::new("carol@example.com".to_string()).delete(&mut store), Ok(()));
    assert_eq!(emails(&store), vec!["dave@example.com".to_string()]);
    assert_eq!(Invitation::new("nobody@example.com".to_string()).delete(&mut store), Ok(()));
    assert_eq!(emails(&store).len(), 1);
}

#[test]
fn the_settings_are_read_back() {
    let config = Config::new(250_000, false);
    assert_eq!(config.password_iterations(), 250_000);
    assert!(!config.invitations_allowed());
    assert!(Config::new(1, true).invitations_allowed());
}
