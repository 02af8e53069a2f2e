use chat_relay::message::Message;
use chat_relay::wire::{encode, frame, payload, Event};

fn msg(room: &str, username: &str, body: &str) -> Message {
    Message::new(room.to_string(), username.to_string(), body.to_string()).unwrap()
}

fn failure() -> serde_json::Error {
    serde_json::from_str::<u8>("not a number").unwrap_err()
}

fn field<'a>(object: &'a serde_json::Value, key: &str) -> &'a str {
    object.get(key).and_then(|v| v.as_str()).unwrap()
}

#[test]
fn frame_puts_three_fields_into_one_record() {
    assert_eq!(
        frame("\"lobby\"", "\"alice\"", "\"hi\""),
        "{\"room\":\"lobby\",\"username\":\"alice\",\"message\":\"hi\"}"
    );
}

#[test]
fn frame_takes_its_fields_as_they_are() {
    assert_eq!(frame("", "", ""), "{\"room\":,\"username\":,\"message\":}");
    assert_eq!(frame("1", "2", "3"), "{\"room\":1,\"username\":2,\"message\":3}");
}

#[test]
fn payload_of_three_successes_is_the_record() {
    assert_eq!(
        payload(Ok("\"a\"".to_string()), Ok("\"b\"".to_string()), Ok("\"c\"".to_string())),
        "{\"room\":\"a\",\"username\":\"b\",\"message\":\"c\"}"
    );
}

#[test]
fn payload_is_empty_when_any_field_failed() {
    let ok = || Ok("\"x\"".to_string());
    assert_eq!(payload(Err(failure()), ok(), ok()), "");
    assert_eq!(payload(ok(), Err(failure()), ok()), "");
    assert_eq!(payload(ok(), ok(), Err(failure())), "");
    assert_eq!(payload(Err(failure()), Err(failure()), Err(failure())), "");
}

#[test]
fn encode_gives_the_record_of_the_message() {
    assert_eq!(
        encode(&msg("lobby", "alice", "hi")),
        "{\"room\":\"lobby\",\"username\":\"alice\",\"message\":\"hi\"}"
    );
}

#[test]
fn encode_of_empty_texts_has_three_empty_strings() {
    assert_eq!(encode(&msg("", "", "")), "{\"room\":\"\",\"username\":\"\",\"message\":\"\"}");
}

#[test]
fn encode_escapes_what_json_wants_escaped() {
    assert_eq!(
        encode(&msg("a\"b", "c\\d", "line one\nline two\ttab\r\u{8}\u{c}\u{1}")),
        "{\"room\":\"a\\\"b\",\"username\":\"c\\\\d\",\"message\":\"line one\\nline two\\ttab\\r\\b\\f\\u0001\"}"
    );
}

#[test]
fn encode_leaves_other_characters_alone() {
    assert_eq!(
        encode(&msg("café", "zoë", "1 < 2 & 3 > 2 / 'x' €")),
        "{\"room\":\"café\",\"username\":\"zoë\",\"message\":\"1 < 2 & 3 > 2 / 'x' €\"}"
    );
}

#[test]
fn the_payload_reads_back_as_the_three_fields() {
    let data = encode(&msg("lo\"bby", "al\\ice", "hi\nthere {\"room\":\"x\"}"));
    let value: serde_json::Value = serde_json::from_str(&data).unwrap();
    assert_eq!(value.as_object().unwrap().len(), 3);
    assert_eq!(field(&value, "room"), "lo\"bby");
    assert_eq!(field(&value, "username"), "al\\ice");
    assert_eq!(field(&value, "message"), "hi\nthere {\"room\":\"x\"}");
}

#[test]
fn an_event_carries_its_message_and_its_payload() {
    let event = Event::json(msg("lobby", "alice", "hi"));
    assert_eq!(event.message(), &msg("lobby", "alice", "hi"));
    assert_eq!(event.data(), "{\"room\":\"lobby\",\"username\":\"alice\",\"message\":\"hi\"}");
}
