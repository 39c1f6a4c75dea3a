use unifiedpush_gotify::{DbUpConnection, GotifyMessage};
use unifiedpush_gotify::messages::{
    MessageAction, check_for_missed_messages, handle_message, sort_messages_by_id,
};
use unifiedpush_gotify::store::{RegistrationStore, get_all_connections};

fn msg(id: i32, appid: i32, message: &str) -> GotifyMessage {
    GotifyMessage { id, appid, message: message.to_string() }
}

fn store_with_app(gotify_id: i32) -> RegistrationStore {
    let mut store = RegistrationStore::new();
    store.insert_connection(DbUpConnection {
        appid: "chat".to_string(),
        token: "tok1".to_string(),
        gotify_id,
        gotify_token: "g1".to_string(),
    });
    store
}

#[test]
fn sort_orders_ascending_and_keeps_equal_ids_stable() {
    let sorted = sort_messages_by_id(&vec![
        msg(5, 1, "e"),
        msg(3, 1, "c"),
        msg(4, 1, "first-4"),
        msg(4, 1, "second-4"),
        msg(1, 1, "a"),
    ]);
    let ids: Vec<i32> = sorted.iter().map(|m| m.id).collect();
    assert_eq!(ids, vec![1, 3, 4, 4, 5]);
    assert_eq!(sorted[1].message, "c");
    assert_eq!(sorted[2].message, "first-4");
    assert_eq!(sorted[3].message, "second-4");
}

#[test]
fn delivered_message_advances_watermark() {
    let mut store = store_with_app(7);
    let action = handle_message(&mut store, &msg(5, 7, "hello"));
    match action {
        MessageAction::Deliver { appid, token, payload } => {
            assert_eq!(appid, "chat");
            assert_eq!(token, "tok1");
            assert_eq!(payload, "hello");
        }
        _ => panic!("expected a delivery"),
    }
    assert_eq!(store.get_last_seen(), Some(5));
}

#[test]
fn stale_message_is_discarded() {
    // A message at or below the watermark is never delivered, on any path.
    let mut store = store_with_app(7);
    store.update_last_seen(5);
    assert!(matches!(handle_message(&mut store, &msg(5, 7, "again")), MessageAction::Discard));
    assert!(matches!(handle_message(&mut store, &msg(2, 7, "older")), MessageAction::Discard));
    assert_eq!(store.get_last_seen(), Some(5));
}

#[test]
fn orphan_message_advances_watermark_without_delivery() {
    // Scenario: a message for an appid with no matching registration emits no
    // delivery, but the watermark still moves past its id.
    let mut store = store_with_app(7);
    store.update_last_seen(1);
    let action = handle_message(&mut store, &msg(6, 99, "orphan"));
    assert!(matches!(action, MessageAction::Orphan));
    assert_eq!(store.get_last_seen(), Some(6));
}

#[test]
fn poll_processes_in_ascending_id_order() {
    // Scenario: the poll returns ids 5 and 3 in that order; the engine
    // processes 3 then 5 and the watermark ends at 5.
    let mut store = store_with_app(4);
    store.update_last_seen(1);
    let deliveries = check_for_missed_messages(&mut store, &vec![msg(5, 4, "m5"), msg(3, 4, "m3")]);
    assert_eq!(deliveries.len(), 2);
    assert_eq!(deliveries[0].id, 3);
    assert_eq!(deliveries[0].payload, "m3");
    assert_eq!(deliveries[0].appid, "chat");
    assert_eq!(deliveries[0].token, "tok1");
    assert_eq!(deliveries[1].id, 5);
    assert_eq!(deliveries[1].payload, "m5");
    assert_eq!(store.get_last_seen(), Some(5));
}

#[test]
fn poll_skips_when_no_watermark_yet() {
    // With no watermark there is nothing to catch up on: the first message
    // ever seen must come from the stream and seed it.
    let mut store = store_with_app(4);
    let deliveries = check_for_missed_messages(&mut store, &vec![msg(5, 4, "m5")]);
    assert_eq!(deliveries.len(), 0);
    assert_eq!(store.get_last_seen(), None);
}

#[test]
fn poll_suppresses_already_processed_ids() {
    let mut store = store_with_app(4);
    store.update_last_seen(4);
    let deliveries = check_for_missed_messages(
        &mut store,
        &vec![msg(3, 4, "old"), msg(4, 4, "seen"), msg(6, 4, "new")],
    );
    assert_eq!(deliveries.len(), 1);
    assert_eq!(deliveries[0].id, 6);
    assert_eq!(store.get_last_seen(), Some(6));
}

#[test]
fn poll_leaves_rows_untouched_and_mixes_orphans() {
    let mut store = store_with_app(4);
    store.update_last_seen(0);
    let deliveries = check_for_missed_messages(
        &mut store,
        &vec![msg(2, 9, "orphan"), msg(1, 4, "mine")],
    );
    // The orphan advances the watermark but is not delivered.
    assert_eq!(deliveries.len(), 1);
    assert_eq!(deliveries[0].id, 1);
    assert_eq!(store.get_last_seen(), Some(2));
    assert_eq!(get_all_connections(&store).len(), 1);
}
