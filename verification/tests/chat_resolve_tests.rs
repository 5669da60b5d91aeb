use rusty_lib::chat_model::{DtkChat, DtkChatMessage, DtkChatUser};
use rusty_lib::chat_resolve::{resolve, resolve_with};
use rusty_lib::chat_store::ChatStore;

fn user(id: &str, name: &str, email: &str) -> DtkChatUser {
    DtkChatUser { id: id.to_string(), name: name.to_string(), email: email.to_string() }
}

#[test]
fn test_chat() {
    let mut chat = DtkChat::new("id1-id2".to_string());
    chat.add_user(DtkChatUser {
        id: "1".to_string(),
        email: "bl@".to_string(),
        name: "User 1".to_string(),
    });
    chat.add_user(DtkChatUser {
        id: "2".to_string(),
        email: "qw@".to_string(),
        name: "User 2".to_string(),
    });
    chat.add_message(DtkChatMessage {
        sender_id: "User 1".to_string(),
        date: chrono::Utc::now().to_string(),
        message: "How are you doing?".to_string(),
    });
    chat.add_message(DtkChatMessage {
        sender_id: "User 2".to_string(),
        date: chrono::Utc::now().to_string(),
        message: "I'm doing well, thanks. How about you?".to_string(),
    });
    println!("Chat: {:#?}", chat);
    assert_eq!(chat.users.len(), 2);
    assert_eq!(chat.messages.len(), 2);
}

#[test]
fn add_user_is_no_op_on_same_id() {
    let mut chat = DtkChat::new("c".to_string());
    chat.add_user(user("1", "User 1", "bl@"));
    chat.add_user(user("1", "Other name", "other@"));
    assert_eq!(chat.users.len(), 1);
    assert_eq!(chat.users[0].name, "User 1");
}

#[test]
fn resolver_creation() {
    let store = ChatStore::new();
    let p = user("7", "User 7", "u7@");
    let result = resolve(&store, p).unwrap();
    assert_eq!(result.len(), 1);
    assert_eq!(result[0].channel_id, "7");
    assert_eq!(result[0].users.len(), 1);
    assert_eq!(result[0].users[0].id, "7");
    assert_eq!(result[0].messages.len(), 0);
}

#[test]
fn resolver_solo_fallback() {
    let mut store = ChatStore::new();
    let mut solo = DtkChat::new("7".to_string());
    solo.add_user(user("7", "User 7", "u7@"));
    store.append(&solo).unwrap();

    let result = resolve(&store, user("7", "User 7", "u7@")).unwrap();
    assert_eq!(result.len(), 2);
    assert_eq!(result[0].channel_id, "7");
    assert_eq!(result[1].channel_id, "7");
    assert_eq!(result[1].users.len(), 1);
    assert_eq!(result[1].messages.len(), 0);
}

#[test]
fn resolver_pass_through() {
    let mut store = ChatStore::new();
    let mut shared = DtkChat::new("7-8".to_string());
    shared.add_user(user("7", "User 7", "u7@"));
    shared.add_user(user("8", "User 8", "u8@"));
    store.append(&shared).unwrap();

    let result = resolve(&store, user("7", "User 7", "u7@")).unwrap();
    assert_eq!(result.len(), 1);
    assert_eq!(result[0].channel_id, "7-8");
    assert_eq!(result[0].users.len(), 2);
}

#[test]
fn resolve_with_keeps_non_solo_list_unchanged() {
    let mut shared = DtkChat::new("7-8".to_string());
    shared.add_user(user("7", "User 7", "u7@"));
    shared.add_user(user("8", "User 8", "u8@"));
    let stamp = shared.last_update.clone();
    let result = resolve_with(vec![shared], user("7", "User 7", "u7@"));
    assert_eq!(result.len(), 1);
    assert_eq!(result[0].channel_id, "7-8");
    assert_eq!(result[0].last_update, stamp);
}
