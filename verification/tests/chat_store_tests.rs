use rusty_lib::chat_model::{DtkChat, DtkChatMessage, DtkChatUser};
use rusty_lib::chat_store::{ChatStore, ChatStoreError};

fn user(id: &str, name: &str, email: &str) -> DtkChatUser {
    DtkChatUser { id: id.to_string(), name: name.to_string(), email: email.to_string() }
}

fn message(sender_id: &str, date: &str, body: &str) -> DtkChatMessage {
    DtkChatMessage {
        sender_id: sender_id.to_string(),
        date: date.to_string(),
        message: body.to_string(),
    }
}

fn conversation(channel_id: &str, last_update: &str) -> DtkChat {
    DtkChat {
        channel_id: channel_id.to_string(),
        last_update: last_update.to_string(),
        users: Vec::new(),
        messages: Vec::new(),
    }
}

#[test]
fn append_rejects_empty_channel_id() {
    let mut store = ChatStore::new();
    let mut delta = conversation("", "t1");
    delta.users.push(user("1", "User 1", "bl@"));
    assert_eq!(store.append(&delta), Err(ChatStoreError::InvalidConversation));
}

#[test]
fn append_rejects_empty_participants() {
    let mut store = ChatStore::new();
    let delta = conversation("c1", "t1");
    assert_eq!(store.append(&delta), Err(ChatStoreError::InvalidConversation));
}

#[test]
fn merge_idempotence_for_participants() {
    let mut store = ChatStore::new();
    let mut delta = conversation("c1", "t1");
    delta.users.push(user("1", "User 1", "bl@"));
    store.append(&delta).unwrap();
    store.append(&delta).unwrap();
    let fetched = store.fetch_for_participant("1").unwrap();
    assert_eq!(fetched.len(), 1);
    let entries: Vec<&DtkChatUser> = fetched[0].users.iter().filter(|u| u.id == "1").collect();
    assert_eq!(entries.len(), 1);
}

#[test]
fn merge_additivity_for_dated_messages() {
    let mut store = ChatStore::new();
    let mut first = conversation("c1", "t1");
    first.users.push(user("1", "User 1", "bl@"));
    first.messages.push(message("1", "2023-01-01 10:00:00", "same body"));
    store.append(&first).unwrap();

    let mut second = conversation("c1", "t2");
    second.users.push(user("1", "User 1", "bl@"));
    second.messages.push(message("1", "2023-01-01 10:00:01", "same body"));
    store.append(&second).unwrap();

    let fetched = store.fetch_for_participant("1").unwrap();
    assert_eq!(fetched.len(), 1);
    assert_eq!(fetched[0].messages.len(), 2);
    assert_eq!(fetched[0].messages[0].message, "same body");
    assert_eq!(fetched[0].messages[1].message, "same body");
    assert_ne!(fetched[0].messages[0].date, fetched[0].messages[1].date);
}

#[test]
fn replayed_message_is_deduplicated() {
    let mut store = ChatStore::new();
    let mut delta = conversation("c1", "t1");
    delta.users.push(user("1", "User 1", "bl@"));
    delta.messages.push(message("1", "2023-01-01 10:00:00", "hello"));
    store.append(&delta).unwrap();
    store.append(&delta).unwrap();
    let fetched = store.fetch_for_participant("1").unwrap();
    assert_eq!(fetched.len(), 1);
    assert_eq!(fetched[0].messages.len(), 1);
}

#[test]
fn append_updates_last_update() {
    let mut store = ChatStore::new();
    let mut delta = conversation("c1", "t1");
    delta.users.push(user("1", "User 1", "bl@"));
    store.append(&delta).unwrap();
    let mut newer = conversation("c1", "t9");
    newer.users.push(user("1", "User 1", "bl@"));
    store.append(&newer).unwrap();
    let fetched = store.fetch_for_participant("1").unwrap();
    assert_eq!(fetched.len(), 1);
    assert_eq!(fetched[0].last_update, "t9");
}

#[test]
fn fetch_orders_by_last_update_descending() {
    let mut store = ChatStore::new();
    for (channel, stamp) in [("a", "2023-01-02"), ("b", "2023-03-01"), ("c", "2023-01-30")] {
        let mut delta = conversation(channel, stamp);
        delta.users.push(user("1", "User 1", "bl@"));
        store.append(&delta).unwrap();
    }
    let fetched = store.fetch_for_participant("1").unwrap();
    let stamps: Vec<&str> = fetched.iter().map(|c| c.last_update.as_str()).collect();
    assert_eq!(stamps, ["2023-03-01", "2023-01-30", "2023-01-02"]);
}

#[test]
fn fetch_filters_by_participant() {
    let mut store = ChatStore::new();
    let mut one = conversation("c1", "t1");
    one.users.push(user("1", "User 1", "bl@"));
    store.append(&one).unwrap();
    let mut two = conversation("c2", "t2");
    two.users.push(user("2", "User 2", "qw@"));
    store.append(&two).unwrap();
    assert_eq!(store.fetch_for_participant("1").unwrap().len(), 1);
    assert_eq!(store.fetch_for_participant("2").unwrap().len(), 1);
    assert_eq!(store.fetch_for_participant("3").unwrap().len(), 0);
}

#[test]
fn end_to_end_scenario() {
    let mut store = ChatStore::new();
    let mut delta = conversation("u1-u2", "2023-06-01 12:00:00");
    delta.users.push(user("1", "User 1", "bl@"));
    delta.users.push(user("2", "User 2", "qw@"));
    delta.messages.push(message("1", "2023-06-01 12:00:00", "hi"));
    store.append(&delta).unwrap();

    let fetched = store.fetch_for_participant("2").unwrap();
    assert_eq!(fetched.len(), 1);
    assert_eq!(fetched[0].channel_id, "u1-u2");
    assert_eq!(fetched[0].messages.len(), 1);
    assert_eq!(fetched[0].messages[0].message, "hi");
    assert_eq!(fetched[0].messages[0].sender_id, "1");
}

#[test]
fn stored_bodies_are_envelopes() {
    let mut store = ChatStore::new();
    let mut delta = conversation("c1", "t1");
    delta.users.push(user("1", "User 1", "bl@"));
    delta.messages.push(message("1", "t1", "plain text"));
    store.append(&delta).unwrap();
    assert!(store.chats[0].messages[0].message.starts_with("Binary(0x2, "));
    assert!(store.chats[0].messages[0].message.ends_with(')'));
}
