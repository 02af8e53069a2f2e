use chat_relay::message::{Message, Rejection, ROOM_LIMIT, USERNAME_LIMIT};

fn text(unit: &str, times: usize) -> String {
    unit.repeat(times)
}

#[test]
fn the_limits_are_thirty_and_twenty() {
    assert_eq!(ROOM_LIMIT, 30);
    assert_eq!(USERNAME_LIMIT, 20);
}

#[test]
fn a_message_keeps_its_three_texts() {
    let m = Message::new("lobby".to_string(), "alice".to_string(), "hi".to_string()).unwrap();
    assert_eq!(m.room(), "lobby");
    assert_eq!(m.username(), "alice");
    assert_eq!(m.body(), "hi");
}

#[test]
fn empty_texts_make_a_message() {
    let m = Message::new(String::new(), String::new(), String::new()).unwrap();
    assert_eq!(m.room(), "");
    assert_eq!(m.username(), "");
    assert_eq!(m.body(), "");
}

#[test]
fn a_room_of_thirty_units_is_accepted() {
    let m = Message::new(text("r", 30), "alice".to_string(), "hi".to_string()).unwrap();
    assert_eq!(m.room().len(), 30);
}

#[test]
fn a_room_of_thirty_one_units_is_rejected() {
    let r = Message::new(text("r", 31), "alice".to_string(), "hi".to_string());
    assert_eq!(r, Err(Rejection::RoomTooLong));
}

#[test]
fn a_username_of_twenty_units_is_accepted() {
    let m = Message::new("lobby".to_string(), text("u", 20), "hi".to_string()).unwrap();
    assert_eq!(m.username().len(), 20);
}

#[test]
fn a_username_of_twenty_one_units_is_rejected() {
    let r = Message::new("lobby".to_string(), text("u", 21), "hi".to_string());
    assert_eq!(r, Err(Rejection::UsernameTooLong));
}

#[test]
fn the_room_is_judged_before_the_username() {
    let r = Message::new(text("r", 31), text("u", 21), "hi".to_string());
    assert_eq!(r, Err(Rejection::RoomTooLong));
}

#[test]
fn the_body_has_no_bound() {
    let m = Message::new("lobby".to_string(), "alice".to_string(), text("b", 100_000)).unwrap();
    assert_eq!(m.body().len(), 100_000);
}

#[test]
fn length_is_counted_in_code_units_not_characters() {
    // Sixteen characters of two code units each: thirty-two units.
    let r = Message::new(text("é", 16), "alice".to_string(), "hi".to_string());
    assert_eq!(r, Err(Rejection::RoomTooLong));
    // Fifteen of them are thirty units.
    let m = Message::new(text("é", 15), "alice".to_string(), "hi".to_string()).unwrap();
    assert_eq!(m.room().chars().count(), 15);
    // Seven characters of three code units each: twenty-one units.
    let r = Message::new("lobby".to_string(), text("€", 7), "hi".to_string());
    assert_eq!(r, Err(Rejection::UsernameTooLong));
}

#[test]
fn a_clone_equals_what_it_was_cloned_from() {
    let m = Message::new("lobby".to_string(), "alice".to_string(), "hi".to_string()).unwrap();
    let c = m.clone();
    assert_eq!(c, m);
    assert_eq!(c.room(), "lobby");
    assert_eq!(c.username(), "alice");
    assert_eq!(c.body(), "hi");
}

#[test]
fn messages_differ_when_one_text_differs() {
    let a = Message::new("lobby".to_string(), "alice".to_string(), "hi".to_string()).unwrap();
    let b = Message::new("lobby".to_string(), "alice".to_string(), "ho".to_string()).unwrap();
    assert_ne!(a, b);
}
