use unifiedpush_gotify::DbUpConnection;
use unifiedpush_gotify::store::{
    RegistrationStore, find_connection_for_app, find_registration_row, get_all_connections,
    get_connection, get_connections_with_token,
};

fn row(appid: &str, token: &str, gotify_id: i32, gotify_token: &str) -> DbUpConnection {
    DbUpConnection {
        appid: appid.to_string(),
        token: token.to_string(),
        gotify_id,
        gotify_token: gotify_token.to_string(),
    }
}

#[test]
fn watermark_starts_absent_and_never_decreases() {
    let mut store = RegistrationStore::new();
    assert_eq!(store.get_last_seen(), None);
    store.update_last_seen(5);
    assert_eq!(store.get_last_seen(), Some(5));
    store.update_last_seen(3);
    assert_eq!(store.get_last_seen(), Some(5));
    store.update_last_seen(7);
    assert_eq!(store.get_last_seen(), Some(7));
    store.update_last_seen(7);
    assert_eq!(store.get_last_seen(), Some(7));
}

#[test]
fn connections_filtered_by_token() {
    let mut store = RegistrationStore::new();
    store.insert_connection(row("chat", "tok1", 1, "g1"));
    store.insert_connection(row("mail", "tok2", 2, "g2"));
    store.insert_connection(row("chat2", "tok1", 3, "g3"));

    let all = get_all_connections(&store);
    assert_eq!(all.len(), 3);
    assert_eq!(all[0].appid, "chat");
    assert_eq!(all[2].gotify_id, 3);

    let with_tok1 = get_connections_with_token(&store, "tok1");
    assert_eq!(with_tok1.len(), 2);
    assert_eq!(with_tok1[0].gotify_id, 1);
    assert_eq!(with_tok1[1].gotify_id, 3);

    let with_other = get_connections_with_token(&store, "nope");
    assert_eq!(with_other.len(), 0);
}

#[test]
fn get_connection_returns_first_matching_appid() {
    let mut store = RegistrationStore::new();
    assert!(get_connection(&store, "tok1").is_none());
    store.insert_connection(row("chat", "tok1", 1, "g1"));
    store.insert_connection(row("chat2", "tok1", 3, "g3"));
    assert_eq!(get_connection(&store, "tok1"), Some("chat".to_string()));
    assert_eq!(get_connection(&store, "tok9"), None);
}

#[test]
fn lookups_by_registration_and_app_id() {
    let mut store = RegistrationStore::new();
    store.insert_connection(row("chat", "tok1", 1, "g1"));
    store.insert_connection(row("mail", "tok2", 2, "g2"));

    let found = find_registration_row(&store, "mail", "tok2").unwrap();
    assert_eq!(found.gotify_id, 2);
    assert_eq!(found.gotify_token, "g2");
    assert!(find_registration_row(&store, "mail", "tok1").is_none());
    assert!(find_registration_row(&store, "chat", "tok2").is_none());

    let owner = find_connection_for_app(&store, 1).unwrap();
    assert_eq!(owner.appid, "chat");
    assert!(find_connection_for_app(&store, 9).is_none());
}

#[test]
fn delete_connections_removes_every_row_for_token() {
    let mut store = RegistrationStore::new();
    store.insert_connection(row("chat", "tok1", 1, "g1"));
    store.insert_connection(row("mail", "tok2", 2, "g2"));
    store.insert_connection(row("chat2", "tok1", 3, "g3"));
    store.update_last_seen(4);
    store.delete_connections_with_token("tok1");
    let all = get_all_connections(&store);
    assert_eq!(all.len(), 1);
    assert_eq!(all[0].appid, "mail");
    assert_eq!(store.get_last_seen(), Some(4));
}

#[test]
fn from_parts_restores_persisted_state() {
    let rows = vec![row("chat", "tok1", 1, "g1")];
    let store = RegistrationStore::from_parts(rows, Some(12));
    assert_eq!(store.get_last_seen(), Some(12));
    let all = get_all_connections(&store);
    assert_eq!(all.len(), 1);
    assert_eq!(all[0].token, "tok1");
}
