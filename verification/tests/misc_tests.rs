use std::cell::RefCell;
use std::rc::Rc;

use rusty_lib::chat_model::DtkChatUser;

#[test]
fn multiple_owners() {
    let value = Rc::new(RefCell::new(5));
    let a = Rc::clone(&value);
    let b = Rc::clone(&value);
    *a.borrow_mut() += 1;
    *b.borrow_mut() += 1;
    assert_eq!(*value.borrow(), 7);
}

#[test]
fn simple_combinators() {
    let initial_data = vec!["TEST 0", "test 1", "test 2"];
    let processed_data = initial_data
        .iter()
        .map(|s| s.to_owned())
        .filter(|s| s.to_lowercase().contains("test"))
        .collect::<Vec<_>>();
    assert_eq!(initial_data, processed_data);
}

#[test]
fn arr_addr() {
    let arr1 = [1, 2, 3];
    let arr2 = &arr1;
    assert_eq!(&arr1, arr2);
}

#[test]
fn emoji() {
    assert_eq!('\u{1F600}', '😀');
}

#[test]
fn chat_user_equality_is_by_fields() {
    let a = DtkChatUser { id: "1".to_string(), name: "n".to_string(), email: "e".to_string() };
    let b = DtkChatUser { id: "1".to_string(), name: "n".to_string(), email: "e".to_string() };
    let c = DtkChatUser { id: "1".to_string(), name: "n".to_string(), email: "x".to_string() };
    assert!(a == b);
    assert!(!(a == c));
}
