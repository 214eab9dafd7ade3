//! Ids, collapsing and rerouting.

use pake_notification::id::validate_id;
use pake_notification::registry::{dedupe_key, MessageRegistry, DEDUPE_WINDOW};
use pake_notification::time::{Clock, Timestamp};

const MILLISECOND: u128 = 1_000_000;
const SECOND: u128 = 1_000 * MILLISECOND;

fn now() -> Timestamp {
    Clock::start().now()
}

fn after(moment: Timestamp, nanos: u128) -> Timestamp {
    Timestamp {
        nanos: moment.nanos + nanos,
    }
}

/// `record` returns "was suppressed", so `false` means it got delivered.
fn deliver(registry: &mut MessageRegistry, window: &str, id: &str, at: Timestamp) -> bool {
    !registry.record(window, id, dedupe_key("Ann", "hi"), at)
}

#[test]
fn accepts_generated_ids() {
    assert!(validate_id("pake-12-a1b2c3d4").is_ok());
    assert!(validate_id("A_b-9").is_ok());
}

#[test]
fn rejects_ids_that_could_escape_an_eval_literal() {
    for id in ["", "a'b", "a\\b", "a|b", "a b", "a\nb", "a;b"] {
        assert!(validate_id(id).is_err(), "expected {id:?} to be rejected");
    }
    assert!(validate_id(&"a".repeat(65)).is_err());
}

#[test]
fn collapses_the_same_message_from_another_window() {
    let mut registry = MessageRegistry::default();
    let now = now();

    assert!(deliver(&mut registry, "pake", "a", now));
    assert!(!deliver(&mut registry, "pake-1", "b", now));
    assert!(!deliver(&mut registry, "pake-2", "c", now));
}

#[test]
fn keeps_a_message_the_same_window_repeats() {
    let mut registry = MessageRegistry::default();
    let now = now();

    assert!(deliver(&mut registry, "pake", "a", now));
    assert!(deliver(&mut registry, "pake", "b", now));
}

#[test]
fn keeps_a_different_message_from_another_window() {
    let mut registry = MessageRegistry::default();
    let now = now();

    assert!(!registry.record("pake", "a", dedupe_key("Ann", "hi"), now));
    assert!(!registry.record("pake-1", "b", dedupe_key("Bo", "hi"), now));
    assert!(!registry.record("pake-1", "c", dedupe_key("Ann", "bye"), now));
}

#[test]
fn stops_collapsing_once_the_window_has_passed() {
    let mut registry = MessageRegistry::default();
    let now = now();
    let later = after(now, DEDUPE_WINDOW + MILLISECOND);

    assert!(deliver(&mut registry, "pake", "a", now));
    assert!(deliver(&mut registry, "pake-1", "b", later));
}

#[test]
fn separates_title_and_body_so_they_cannot_run_together() {
    assert_ne!(dedupe_key("ab", "c"), dedupe_key("a", "bc"));
}

#[test]
fn reroutes_a_click_to_the_preferred_window() {
    let mut registry = MessageRegistry::default();
    let now = now();
    deliver(&mut registry, "pake-1", "delivered", now);
    deliver(&mut registry, "pake", "suppressed", now);

    // Clicking pake-1's banner hands the click to pake's own notification.
    assert_eq!(
        registry.sibling_in("pake-1", "delivered", "pake"),
        Some(("pake".to_string(), "suppressed".to_string()))
    );
}

#[test]
fn does_not_reroute_when_already_on_the_preferred_window() {
    let mut registry = MessageRegistry::default();
    let now = now();
    deliver(&mut registry, "pake", "delivered", now);
    deliver(&mut registry, "pake-1", "suppressed", now);

    assert_eq!(registry.sibling_in("pake", "delivered", "pake"), None);
}

#[test]
fn does_not_reroute_when_the_preferred_window_missed_the_message() {
    let mut registry = MessageRegistry::default();
    let now = now();
    deliver(&mut registry, "pake-1", "delivered", now);

    // pake-2 opened later and never raised this message.
    assert_eq!(registry.sibling_in("pake-1", "delivered", "pake-2"), None);
}

#[test]
fn keeps_routing_after_the_dedupe_window_expires() {
    let mut registry = MessageRegistry::default();
    let now = now();
    deliver(&mut registry, "pake-1", "delivered", now);
    deliver(&mut registry, "pake", "suppressed", now);

    // Membership must outlive the repeat window: a click can land minutes
    // after the notification was delivered.
    let _ = deliver(
        &mut registry,
        "pake-1",
        "later",
        after(now, DEDUPE_WINDOW + 60 * SECOND),
    );
    assert_eq!(
        registry.sibling_in("pake-1", "delivered", "pake"),
        Some(("pake".to_string(), "suppressed".to_string()))
    );
}

#[test]
fn does_not_confuse_two_messages_with_the_same_text() {
    let mut registry = MessageRegistry::default();
    let now = now();
    deliver(&mut registry, "pake-1", "first-a", now);
    deliver(&mut registry, "pake", "first-b", now);

    let later = after(now, DEDUPE_WINDOW + MILLISECOND);
    deliver(&mut registry, "pake-1", "second-a", later);
    deliver(&mut registry, "pake", "second-b", later);

    assert_eq!(
        registry.sibling_in("pake-1", "second-a", "pake"),
        Some(("pake".to_string(), "second-b".to_string()))
    );
}
