use unifiedpush_gotify::{DbUpConnection, GotifyApplication};
use unifiedpush_gotify::reconcile::check_removed_apps;
use unifiedpush_gotify::store::{RegistrationStore, get_all_connections};

fn row(appid: &str, token: &str, gotify_id: i32) -> DbUpConnection {
    DbUpConnection {
        appid: appid.to_string(),
        token: token.to_string(),
        gotify_id,
        gotify_token: format!("g{}", gotify_id),
    }
}

fn app(id: i32, name: &str) -> GotifyApplication {
    GotifyApplication { id, name: name.to_string(), token: format!("A{}", id) }
}

#[test]
fn upstream_deletion_converges_in_one_tick() {
    // Deleting an application upstream removes its local registration and
    // emits exactly one unregister notice for it within one tick.
    let mut store = RegistrationStore::new();
    store.insert_connection(row("chat", "tok1", 1));
    store.insert_connection(row("mail", "tok2", 2));
    store.insert_connection(row("feed", "tok3", 3));
    store.update_last_seen(8);

    let live = vec![app(1, "chat"), app(3, "feed")];
    let removed = check_removed_apps(&mut store, &live);

    assert_eq!(removed.len(), 1);
    assert_eq!(removed[0].gotify_id, 2);
    assert_eq!(removed[0].appid, "mail");
    assert_eq!(removed[0].token, "tok2");

    let left = get_all_connections(&store);
    assert_eq!(left.len(), 2);
    assert_eq!(left[0].gotify_id, 1);
    assert_eq!(left[1].gotify_id, 3);
    assert_eq!(store.get_last_seen(), Some(8));
}

#[test]
fn nothing_removed_while_every_app_is_live() {
    let mut store = RegistrationStore::new();
    store.insert_connection(row("chat", "tok1", 1));
    store.insert_connection(row("mail", "tok2", 2));
    let live = vec![app(2, "mail"), app(1, "chat"), app(9, "unrelated")];
    let removed = check_removed_apps(&mut store, &live);
    assert_eq!(removed.len(), 0);
    assert_eq!(get_all_connections(&store).len(), 2);
}

#[test]
fn empty_upstream_list_removes_everything() {
    let mut store = RegistrationStore::new();
    store.insert_connection(row("chat", "tok1", 1));
    store.insert_connection(row("mail", "tok2", 2));
    let removed = check_removed_apps(&mut store, &Vec::new());
    assert_eq!(removed.len(), 2);
    assert_eq!(get_all_connections(&store).len(), 0);
}
