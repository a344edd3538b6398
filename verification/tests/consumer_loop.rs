use untracker::compose::ReplyCounter;
use untracker::consumer::{ConsumerAction, StreamConsumer, StreamEvent, RECONNECT_CEILING};
use untracker::dedup::MsgId;

fn id(n: u128) -> MsgId {
    MsgId { hi: n, lo: n.wrapping_mul(7) }
}

#[test]
fn eleven_receive_errors_abort() {
    let mut c = StreamConsumer::new();
    for _ in 0..RECONNECT_CEILING {
        match c.step(StreamEvent::ReceiveFailure) {
            ConsumerAction::Reconnect => {}
            _ => panic!("expected a reconnect below the ceiling"),
        }
    }
    match c.step(StreamEvent::ReceiveFailure) {
        ConsumerAction::Abort => {}
        _ => panic!("expected an abort past the ceiling"),
    }
}

#[test]
fn lag_is_recoverable_and_triggers_no_reconnect() {
    let mut c = StreamConsumer::new();
    match c.step(StreamEvent::Lagged { n: 17 }) {
        ConsumerAction::Ignore => {}
        _ => panic!("lag must be ignored"),
    }
    assert_eq!(c.attempts, 0);
    let act = c.step(StreamEvent::Note {
        id: id(1),
        content: "https://t.co/one?s=1".to_string(),
    });
    match act {
        ConsumerAction::PublicReply { text } => {
            assert!(text.contains("https://t.co/one"));
        }
        _ => panic!("a note with a tracked link must get a public reply"),
    }
    assert_eq!(c.attempts, 0);
}

#[test]
fn duplicate_note_is_ignored() {
    let mut c = StreamConsumer::new();
    let ev = || StreamEvent::Note { id: id(2), content: "https://t.co/one?s=1".to_string() };
    match c.step(ev()) {
        ConsumerAction::PublicReply { .. } => {}
        _ => panic!("first delivery must be answered"),
    }
    match c.step(ev()) {
        ConsumerAction::Ignore => {}
        _ => panic!("second delivery of the same id must be ignored"),
    }
}

#[test]
fn note_without_match_is_recorded_and_ignored() {
    let mut c = StreamConsumer::new();
    let act = c.step(StreamEvent::Note {
        id: id(3),
        content: "https://example.com/?utm_source=x".to_string(),
    });
    match act {
        ConsumerAction::Ignore => {}
        _ => panic!("nothing to clean: no public reply"),
    }
    // recorded nonetheless: a second delivery is ignored for being seen
    let act = c.step(StreamEvent::Note {
        id: id(3),
        content: "https://t.co/one?s=1".to_string(),
    });
    match act {
        ConsumerAction::Ignore => {}
        _ => panic!("the id was recorded on first handling"),
    }
}

#[test]
fn direct_message_always_gets_exactly_one_reply() {
    let mut c = StreamConsumer::new();
    let act = c.step(StreamEvent::DirectMessage {
        id: id(4),
        plaintext: Some("no links in here".to_string()),
    });
    match act {
        ConsumerAction::EncryptedReply { text } => {
            assert_eq!(text, "🤖 No tracking strings detected.");
        }
        _ => panic!("a decrypted direct message always gets a reply"),
    }
    let act = c.step(StreamEvent::DirectMessage {
        id: id(5),
        plaintext: Some("https://youtu.be/3?si=x".to_string()),
    });
    match act {
        ConsumerAction::EncryptedReply { text } => {
            assert!(text.contains("https://youtu.be/3"));
        }
        _ => panic!("a cleaned link must be reported back"),
    }
}

#[test]
fn failed_decryption_is_skipped_and_recorded() {
    let mut c = StreamConsumer::new();
    let act = c.step(StreamEvent::DirectMessage { id: id(6), plaintext: None });
    match act {
        ConsumerAction::Ignore => {}
        _ => panic!("a message that failed to decrypt is skipped"),
    }
    let act = c.step(StreamEvent::DirectMessage {
        id: id(6),
        plaintext: Some("https://t.co/one?s=1".to_string()),
    });
    match act {
        ConsumerAction::Ignore => {}
        _ => panic!("the id was recorded when decryption failed"),
    }
}

#[test]
fn unhandled_kinds_are_ignored() {
    let mut c = StreamConsumer::new();
    match c.step(StreamEvent::OtherKind { id: id(7) }) {
        ConsumerAction::Ignore => {}
        _ => panic!("unhandled kinds are ignored"),
    }
}

#[test]
fn reply_counter_increments_and_resets_atomically() {
    let mut counter = ReplyCounter::new();
    assert_eq!(counter.get(), 0);
    counter.increment();
    counter.increment();
    counter.increment();
    assert_eq!(counter.get(), 3);
    let taken = counter.take_and_reset();
    assert_eq!(taken, 3);
    assert_eq!(counter.get(), 0);
}
