use chat_relay::hub::Hub;
use chat_relay::message::Message;
use chat_relay::session::{Session, Step};
use chat_relay::wire::Event;
use chat_relay::{events, post, rocket, BACKLOG};

fn msg(room: &str, username: &str, body: &str) -> Message {
    Message::new(room.to_string(), username.to_string(), body.to_string()).unwrap()
}

fn numbered(n: u64) -> Message {
    msg("lobby", "alice", &format!("message {}", n))
}

#[test]
fn the_relay_is_launched_with_a_backlog_of_1024() {
    assert_eq!(BACKLOG, 1024);
    let hub = rocket();
    assert_eq!(hub.capacity(), 1024);
    assert_eq!(hub.published(), 0);
    assert_eq!(hub.subscribers(), 0);
    assert!(!hub.is_closed());
}

#[test]
fn post_publishes_one_message() {
    let mut hub = rocket();
    post(numbered(0), &mut hub);
    assert_eq!(hub.published(), 1);
    let mut session = events(&mut hub);
    post(numbered(1), &mut hub);
    assert_eq!(hub.published(), 2);
    assert_eq!(session.poll(&mut hub, false), Step::Emit(Event::json(numbered(1))));
}

#[test]
fn events_opens_a_live_session_at_the_write_head() {
    let mut hub = rocket();
    post(numbered(0), &mut hub);
    let mut session = events(&mut hub);
    assert!(!session.is_ended());
    assert_eq!(hub.subscribers(), 1);
    assert_eq!(session.poll(&mut hub, false), Step::Wait);
}

#[test]
fn one_post_gives_one_event_with_the_three_fields() {
    let mut hub = rocket();
    let mut a = events(&mut hub);
    post(msg("lobby", "alice", "hi"), &mut hub);
    match a.poll(&mut hub, false) {
        Step::Emit(event) => {
            assert_eq!(
                event.data(),
                "{\"room\":\"lobby\",\"username\":\"alice\",\"message\":\"hi\"}"
            );
            assert_eq!(event.message().room(), "lobby");
            assert_eq!(event.message().username(), "alice");
            assert_eq!(event.message().body(), "hi");
        }
        other => panic!("expected an event, got {:?}", other),
    }
    assert_eq!(a.poll(&mut hub, false), Step::Wait);
    assert_eq!(a.poll(&mut hub, false), Step::Wait);
}

#[test]
fn two_thousand_posts_before_the_session_give_it_nothing() {
    let mut hub = rocket();
    for n in 0..2000 {
        post(numbered(n), &mut hub);
    }
    let mut session = events(&mut hub);
    assert_eq!(session.poll(&mut hub, false), Step::Wait);
    post(numbered(2000), &mut hub);
    assert_eq!(session.poll(&mut hub, false), Step::Emit(Event::json(numbered(2000))));
    assert_eq!(session.poll(&mut hub, false), Step::Wait);
}

#[test]
fn a_session_emits_in_publish_order() {
    let mut hub = Hub::new(8);
    let mut session = Session::open(&mut hub);
    for n in 0..8 {
        hub.publish(numbered(n));
    }
    for n in 0..8 {
        assert_eq!(session.poll(&mut hub, false), Step::Emit(Event::json(numbered(n))));
    }
    assert_eq!(session.poll(&mut hub, false), Step::Wait);
}

#[test]
fn a_lagging_session_skips_and_goes_on() {
    let mut hub = Hub::new(3);
    let mut session = Session::open(&mut hub);
    for n in 0..10 {
        hub.publish(numbered(n));
    }
    assert_eq!(session.poll(&mut hub, false), Step::Skip(7));
    assert!(!session.is_ended());
    for n in 7..10 {
        assert_eq!(session.poll(&mut hub, false), Step::Emit(Event::json(numbered(n))));
    }
    assert_eq!(session.poll(&mut hub, false), Step::Wait);
    assert_eq!(hub.subscribers(), 1);
}

#[test]
fn cancelling_a_waiting_session_ends_it_at_once() {
    let mut hub = Hub::new(4);
    let mut session = Session::open(&mut hub);
    assert_eq!(session.poll(&mut hub, false), Step::Wait);
    assert_eq!(session.poll(&mut hub, true), Step::End);
    assert!(session.is_ended());
    assert_eq!(hub.subscribers(), 0);
    assert_eq!(hub.published(), 0);
}

#[test]
fn cancellation_wins_over_a_message_that_is_ready() {
    let mut hub = Hub::new(4);
    let mut session = Session::open(&mut hub);
    hub.publish(numbered(0));
    assert_eq!(session.poll(&mut hub, true), Step::End);
    assert!(session.is_ended());
    assert_eq!(hub.subscribers(), 0);
}

#[test]
fn cancellation_wins_over_a_lag_and_over_a_closed_hub() {
    let mut hub = Hub::new(1);
    let mut lagging = Session::open(&mut hub);
    let mut other = Session::open(&mut hub);
    hub.publish(numbered(0));
    hub.publish(numbered(1));
    assert_eq!(lagging.poll(&mut hub, true), Step::End);
    assert_eq!(hub.subscribers(), 1);
    hub.shutdown();
    assert_eq!(other.poll(&mut hub, true), Step::End);
    assert_eq!(hub.subscribers(), 0);
}

#[test]
fn an_ended_session_stays_ended() {
    let mut hub = Hub::new(4);
    let mut session = Session::open(&mut hub);
    let _other = Session::open(&mut hub);
    assert_eq!(session.poll(&mut hub, true), Step::End);
    assert_eq!(hub.subscribers(), 1);
    hub.publish(numbered(0));
    assert_eq!(session.poll(&mut hub, false), Step::End);
    assert_eq!(session.poll(&mut hub, true), Step::End);
    assert!(session.is_ended());
    assert_eq!(hub.subscribers(), 1);
    assert_eq!(hub.published(), 1);
}

#[test]
fn shutdown_ends_every_waiting_session() {
    let mut hub = Hub::new(4);
    let mut sessions = Vec::new();
    for _ in 0..5 {
        sessions.push(Session::open(&mut hub));
    }
    for session in sessions.iter_mut() {
        assert_eq!(session.poll(&mut hub, false), Step::Wait);
    }
    assert_eq!(hub.subscribers(), 5);
    hub.shutdown();
    for session in sessions.iter_mut() {
        assert_eq!(session.poll(&mut hub, false), Step::End);
        assert!(session.is_ended());
    }
    assert_eq!(hub.subscribers(), 0);
}

#[test]
fn a_session_reads_what_is_left_before_it_ends_on_shutdown() {
    let mut hub = Hub::new(4);
    let mut session = Session::open(&mut hub);
    hub.publish(numbered(0));
    hub.shutdown();
    assert_eq!(session.poll(&mut hub, false), Step::Emit(Event::json(numbered(0))));
    assert_eq!(session.poll(&mut hub, false), Step::End);
    assert!(session.is_ended());
}

#[test]
fn sessions_end_independently() {
    let mut hub = Hub::new(4);
    let mut a = Session::open(&mut hub);
    let mut b = Session::open(&mut hub);
    hub.publish(numbered(0));
    assert_eq!(a.poll(&mut hub, true), Step::End);
    assert_eq!(b.poll(&mut hub, false), Step::Emit(Event::json(numbered(0))));
    assert_eq!(b.poll(&mut hub, false), Step::Wait);
    assert!(!b.is_ended());
}

#[test]
fn producers_and_sessions_interleave_without_reordering() {
    let mut hub = Hub::new(4);
    let mut a = Session::open(&mut hub);
    let mut seen_a = Vec::new();
    let mut seen_b = Vec::new();
    hub.publish(msg("lobby", "alice", "1"));
    hub.publish(msg("lobby", "bob", "2"));
    let mut b = Session::open(&mut hub);
    for round in 3..20u64 {
        let who = if round % 2 == 0 { "alice" } else { "bob" };
        hub.publish(msg("lobby", who, &round.to_string()));
        if round % 3 == 0 {
            while let Step::Emit(event) = a.poll(&mut hub, false) {
                seen_a.push(event.message().body().parse::<u64>().unwrap());
            }
        }
        if round % 7 == 0 {
            loop {
                match b.poll(&mut hub, false) {
                    Step::Emit(event) => {
                        seen_b.push(event.message().body().parse::<u64>().unwrap())
                    }
                    Step::Skip(_) => {}
                    _ => break,
                }
            }
        }
    }
    assert_eq!(seen_a, (1..=18).collect::<Vec<u64>>());
    assert_eq!(seen_b, vec![4, 5, 6, 7, 11, 12, 13, 14]);
}
