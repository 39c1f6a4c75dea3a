use unifiedpush_gotify::{GotifyApplication, LoginFile};
use unifiedpush_gotify::registration::{
    RegisterOutcome, make_endpoint, register_finish, register_reply, register_start, unregister,
};
use unifiedpush_gotify::store::{RegistrationStore, get_all_connections};

fn login() -> LoginFile {
    LoginFile {
        gotify_base_url: "https://push.example.com".to_string(),
        gotify_device_token: "devtok".to_string(),
    }
}

#[test]
fn endpoint_embeds_the_upstream_token() {
    let url = make_endpoint("https://push.example.com", "Axyz");
    assert_eq!(url, "https://push.example.com/UP?token=Axyz");
}

#[test]
fn register_new_subscription_stores_one_row() {
    // Scenario: registering ("chat", "tok1") against an empty store asks for
    // exactly one upstream create, stores one row, and announces the endpoint
    // that embeds the issued upstream token.
    let mut store = RegistrationStore::new();
    let login = login();

    let existing = register_start(&store, &login, "chat", "tok1");
    assert!(existing.is_none());

    let created = Some(GotifyApplication {
        id: 11,
        name: "chat".to_string(),
        token: "Axyz".to_string(),
    });
    let outcome = register_finish(&mut store, &login, "chat", "tok1", &created, true);
    match &outcome {
        RegisterOutcome::NewEndpoint { endpoint } => {
            assert_eq!(endpoint, "https://push.example.com/UP?token=Axyz");
        }
        _ => panic!("expected a new endpoint"),
    }
    let reply = register_reply(&outcome);
    assert_eq!(reply.0, "NEW_ENDPOINT");
    assert_eq!(reply.1, "");

    let rows = get_all_connections(&store);
    assert_eq!(rows.len(), 1);
    assert_eq!(rows[0].appid, "chat");
    assert_eq!(rows[0].token, "tok1");
    assert_eq!(rows[0].gotify_id, 11);
    assert_eq!(rows[0].gotify_token, "Axyz");
}

#[test]
fn register_twice_returns_same_endpoint_without_second_create() {
    let mut store = RegistrationStore::new();
    let login = login();
    assert!(register_start(&store, &login, "chat", "tok1").is_none());
    let created = Some(GotifyApplication {
        id: 11,
        name: "chat".to_string(),
        token: "Axyz".to_string(),
    });
    let outcome = register_finish(&mut store, &login, "chat", "tok1", &created, true);
    let first_endpoint = match outcome {
        RegisterOutcome::NewEndpoint { endpoint } => endpoint,
        _ => panic!("expected a new endpoint"),
    };

    // The repeated register is answered from the store: no upstream create.
    let again = register_start(&store, &login, "chat", "tok1");
    assert_eq!(again, Some(first_endpoint));
    assert_eq!(get_all_connections(&store).len(), 1);

    // A different subscription still needs its own upstream application.
    assert!(register_start(&store, &login, "chat", "tok2").is_none());
    assert!(register_start(&store, &login, "mail", "tok1").is_none());
}

#[test]
fn register_upstream_failure_changes_nothing() {
    let mut store = RegistrationStore::new();
    let login = login();
    let outcome = register_finish(&mut store, &login, "chat", "tok1", &None, false);
    assert!(matches!(outcome, RegisterOutcome::UpstreamFailed));
    let reply = register_reply(&outcome);
    assert_eq!(reply.0, "REGISTRATION_FAILED");
    assert_eq!(reply.1, "Gotify server error");
    assert_eq!(get_all_connections(&store).len(), 0);
}

#[test]
fn register_store_failure_names_the_orphaned_application() {
    let mut store = RegistrationStore::new();
    let login = login();
    let created = Some(GotifyApplication {
        id: 42,
        name: "chat".to_string(),
        token: "Axyz".to_string(),
    });
    let outcome = register_finish(&mut store, &login, "chat", "tok1", &created, false);
    match &outcome {
        RegisterOutcome::StoreFailed { orphaned_gotify_id } => {
            assert_eq!(*orphaned_gotify_id, 42);
        }
        _ => panic!("expected a store failure"),
    }
    let reply = register_reply(&outcome);
    assert_eq!(reply.0, "REGISTRATION_FAILED");
    assert_eq!(reply.1, "Distributor database error");
    assert_eq!(get_all_connections(&store).len(), 0);
}

#[test]
fn unregister_removes_local_rows_whatever_upstream_does() {
    // The upstream deletes are best effort: the local rows go away even if
    // every one of them fails, which this test models by never performing
    // them.
    let mut store = RegistrationStore::new();
    store.insert_connection(unifiedpush_gotify::DbUpConnection {
        appid: "chat".to_string(),
        token: "tok1".to_string(),
        gotify_id: 1,
        gotify_token: "g1".to_string(),
    });
    store.insert_connection(unifiedpush_gotify::DbUpConnection {
        appid: "mail".to_string(),
        token: "tok2".to_string(),
        gotify_id: 2,
        gotify_token: "g2".to_string(),
    });
    store.insert_connection(unifiedpush_gotify::DbUpConnection {
        appid: "chat2".to_string(),
        token: "tok1".to_string(),
        gotify_id: 3,
        gotify_token: "g3".to_string(),
    });
    store.update_last_seen(9);

    let targets = unregister(&mut store, "tok1");
    assert_eq!(targets, vec![1, 3]);
    let rows = get_all_connections(&store);
    assert_eq!(rows.len(), 1);
    assert_eq!(rows[0].token, "tok2");
    assert_eq!(store.get_last_seen(), Some(9));

    let none = unregister(&mut store, "tok1");
    assert_eq!(none.len(), 0);
}
