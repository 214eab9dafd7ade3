//! The crate's behaviour on concrete values.

use pake_notification::click::{
    dispatch_click, native_handle, preferred_click_target, WindowState,
};
use pake_notification::id::{click_script, validate_id, MAX_NOTIFICATION_ID_LEN};
use pake_notification::native::{
    deliver, delivered, notification_identifier, remove, removed, split_identifier, withdrawals,
};
use pake_notification::registry::{
    dedupe_key, is_cross_window_repeat, is_cross_window_repeat_at, sibling_in, MessageRegistry,
    DEDUPE_WINDOW, MAX_TRACKED_MESSAGES,
};
use pake_notification::send::{
    after_native, after_native_attempt, after_plugin, close, send, send_at, NotificationOutcome,
    NotificationParams, SendStep,
};
use pake_notification::text::{join_three, same_text, split_last};
use pake_notification::time::{Clock, Timestamp};

const LENGTH: &str = "Notification id must be 1-64 characters";
const CHARACTERS: &str = "Notification id must be alphanumeric, '-' or '_'";

fn at(nanos: u128) -> Timestamp {
    Timestamp { nanos }
}

fn params(id: &str, title: &str, body: &str) -> NotificationParams {
    NotificationParams {
        id: id.to_string(),
        title: title.to_string(),
        body: body.to_string(),
        icon: "icon.png".to_string(),
    }
}

fn pair(window: &str, id: &str) -> Option<(String, String)> {
    Some((window.to_string(), id.to_string()))
}

fn labels(names: &[&str]) -> Vec<String> {
    names.iter().map(|name| name.to_string()).collect()
}

fn window(label: &str, native: Option<usize>, focused: Option<bool>) -> WindowState {
    WindowState {
        label: label.to_string(),
        native,
        focused,
    }
}

// Text.

#[test]
fn text_is_compared_by_its_characters() {
    assert!(same_text("", ""));
    assert!(same_text("grün|", "grün|"));
    assert!(!same_text("pake", "pake-1"));
    assert!(!same_text("pake", "pakf"));
}

#[test]
fn text_is_joined_in_order() {
    assert_eq!(join_three("a", "-", "ü"), "a-ü");
    assert_eq!(join_three("", "", ""), "");
}

#[test]
fn text_is_split_at_the_last_separator() {
    assert_eq!(split_last("ä|b|c", '|'), pair("ä|b", "c"));
    assert_eq!(split_last("|", '|'), pair("", ""));
    assert_eq!(split_last("a|", '|'), pair("a", ""));
    assert_eq!(split_last("abc", '|'), None);
    assert_eq!(split_last("", '|'), None);
}

// Moments.

#[test]
fn time_does_not_run_backwards() {
    assert_eq!(at(7).duration_since(at(3)), 4);
    assert_eq!(at(3).duration_since(at(7)), 0);
    assert_eq!(at(3).duration_since(at(3)), 0);

    let clock = Clock::start();
    let first = clock.now();
    let second = clock.now();
    assert!(second.nanos >= first.nanos);
}

// Ids.

#[test]
fn ids_are_measured_in_bytes() {
    assert_eq!(MAX_NOTIFICATION_ID_LEN, 64);
    assert!(validate_id("a").is_ok());
    assert!(validate_id(&"a".repeat(64)).is_ok());
    assert_eq!(validate_id(&"a".repeat(65)), Err(LENGTH.to_string()));
    assert_eq!(validate_id(""), Err(LENGTH.to_string()));
    // 33 characters, 66 bytes.
    assert_eq!(validate_id(&"ü".repeat(33)), Err(LENGTH.to_string()));
    // 32 characters, 64 bytes.
    assert_eq!(validate_id(&"ü".repeat(32)), Err(CHARACTERS.to_string()));
}

#[test]
fn ids_hold_letters_digits_hyphens_and_underscores() {
    let allowed = "ABCDEFGHIJKLMNOPQRSTUVWXYZabcdefghijklmnopqrstuvwxyz0123456789-_";
    for c in allowed.chars() {
        assert!(validate_id(&c.to_string()).is_ok(), "expected {c:?} to pass");
    }
    for c in ["/", ":", "@", "[", "`", "{", ",", ".", "\u{7f}", "\0", "é"] {
        assert_eq!(validate_id(c), Err(CHARACTERS.to_string()));
    }
}

#[test]
fn click_script_quotes_the_id() {
    let script = click_script("pake-1_a");
    assert_eq!(
        script,
        "window.__pakeNotificationClick && window.__pakeNotificationClick('pake-1_a')"
    );
    assert_eq!(script.matches('\'').count(), 2);
}

// The key of a message.

#[test]
fn key_joins_title_and_body_with_a_unit_separator() {
    assert_eq!(dedupe_key("Ann", "hi"), "Ann\u{1f}hi");
    assert_eq!(dedupe_key("", ""), "\u{1f}");
}

#[test]
fn key_runs_together_only_across_a_unit_separator() {
    assert_eq!(dedupe_key("a\u{1f}b", "c"), dedupe_key("a", "b\u{1f}c"));
    assert_ne!(dedupe_key("a", "b"), dedupe_key("a", "b\u{1f}"));
}

// Collapsing.

#[test]
fn repeat_window_ends_after_exactly_a_second() {
    assert_eq!(DEDUPE_WINDOW, 1_000_000_000);

    let mut registry = MessageRegistry::default();
    assert!(!registry.record("pake", "a", dedupe_key("Ann", "hi"), at(5)));
    let end = 5 + DEDUPE_WINDOW;
    assert!(registry.record("pake-1", "b", dedupe_key("Ann", "hi"), at(end - 1)));
    assert!(!registry.record("pake-2", "c", dedupe_key("Ann", "hi"), at(end)));
}

#[test]
fn copy_that_seems_to_come_earlier_is_a_repeat() {
    let mut registry = MessageRegistry::default();
    assert!(!registry.record("pake", "a", dedupe_key("Ann", "hi"), at(9)));
    assert!(registry.record("pake-1", "b", dedupe_key("Ann", "hi"), at(2)));
}

#[test]
fn message_is_shown_once_for_many_windows() {
    let mut registry = MessageRegistry::default();
    assert!(!registry.record("pake", "a", dedupe_key("Ann", "hi"), at(0)));
    for i in 1..20u128 {
        let label = format!("pake-{i}");
        assert!(registry.record(&label, "b", dedupe_key("Ann", "hi"), at(i)));
    }
}

#[test]
fn message_is_shown_once_with_other_messages_in_between() {
    let mut registry = MessageRegistry::default();
    let key = || dedupe_key("Ann", "hi");
    assert!(!registry.record("pake", "a", key(), at(0)));
    for i in 1..64u128 {
        let title = format!("message {i}");
        assert!(!registry.record("pake", "other", dedupe_key(&title, ""), at(i)));
    }
    // Remembered behind 63 other messages, forgotten behind 64.
    assert!(registry.record("pake-1", "b", key(), at(100)));
    assert!(!registry.record("pake", "other", dedupe_key("message 64", ""), at(101)));
    assert!(!registry.record("pake-2", "c", key(), at(102)));
}

#[test]
fn message_is_shown_as_often_as_the_busiest_window_raised_it() {
    let mut registry = MessageRegistry::default();
    let raises = ["pake", "pake-1", "pake-1", "pake-2", "pake-1", "pake", "pake-2", "pake-3"];
    let mut shown = 0;
    for (i, label) in raises.iter().enumerate() {
        if !registry.record(label, "id", dedupe_key("Ann", "hi"), at(i as u128)) {
            shown += 1;
        }
        assert!(!registry.record("pake", "id", dedupe_key("other", label), at(i as u128)));
    }
    // pake-1 raised it three times, no other window more often.
    assert_eq!(shown, 3);
}

#[test]
fn single_window_gets_every_notification() {
    let mut registry = MessageRegistry::default();
    for _ in 0..200 {
        assert!(!registry.record("pake", "a", dedupe_key("Ann", "hi"), at(1)));
    }
}

#[test]
fn first_of_two_open_messages_takes_a_copy() {
    let mut registry = MessageRegistry::default();
    let key = || dedupe_key("Ann", "hi");
    assert!(!registry.record("pake", "first", key(), at(1)));
    assert!(!registry.record("pake", "second", key(), at(2)));
    assert!(registry.record("pake-1", "copy-1", key(), at(3)));
    assert!(registry.record("pake-1", "copy-2", key(), at(4)));
    assert!(!registry.record("pake-1", "own", key(), at(5)));

    assert_eq!(registry.sibling_in("pake", "first", "pake-1"), pair("pake-1", "copy-1"));
    assert_eq!(registry.sibling_in("pake", "second", "pake-1"), pair("pake-1", "copy-2"));
    assert_eq!(registry.sibling_in("pake-1", "copy-2", "pake"), pair("pake", "second"));
    assert_eq!(registry.sibling_in("pake-1", "own", "pake"), None);
}

#[test]
fn oldest_message_is_forgotten_when_the_registry_is_full() {
    assert_eq!(MAX_TRACKED_MESSAGES, 64);

    let mut registry = MessageRegistry::default();
    assert!(!registry.record("pake-1", "old", dedupe_key("old", ""), at(0)));
    assert!(registry.record("pake", "old-copy", dedupe_key("old", ""), at(0)));
    for i in 1..64 {
        let title = format!("message {i}");
        assert!(!registry.record("pake-1", "new", dedupe_key(&title, ""), at(0)));
    }
    assert_eq!(registry.sibling_in("pake-1", "old", "pake"), pair("pake", "old-copy"));

    // A copy takes no room.
    assert!(registry.record("pake", "new-copy", dedupe_key("message 1", ""), at(0)));
    assert_eq!(registry.sibling_in("pake-1", "old", "pake"), pair("pake", "old-copy"));

    assert!(!registry.record("pake-1", "last", dedupe_key("last", ""), at(0)));
    assert_eq!(registry.sibling_in("pake-1", "old", "pake"), None);
    assert_eq!(registry.sibling_in("pake-1", "new", "pake"), pair("pake", "new-copy"));
    assert!(!registry.record("pake", "again", dedupe_key("old", ""), at(0)));
}

#[test]
fn sibling_of_an_unknown_notification_is_none() {
    let mut registry = MessageRegistry::default();
    assert_eq!(sibling_in(&registry, "pake", "a", "pake-1"), None);
    registry.record("pake", "a", dedupe_key("Ann", "hi"), at(0));
    registry.record("pake-1", "b", dedupe_key("Ann", "hi"), at(0));
    assert_eq!(sibling_in(&registry, "pake", "other", "pake-1"), None);
    assert_eq!(sibling_in(&registry, "pake", "a", "pake-1"), pair("pake-1", "b"));
    assert_eq!(sibling_in(&registry, "pake-1", "b", "pake"), pair("pake", "a"));
}

#[test]
fn cross_window_repeat_goes_by_title_and_body() {
    let mut registry = MessageRegistry::default();
    assert!(!is_cross_window_repeat_at(&mut registry, "pake", "a", "Ann", "hi", at(0)));
    assert!(is_cross_window_repeat_at(&mut registry, "pake-1", "b", "Ann", "hi", at(0)));
    assert!(!is_cross_window_repeat_at(&mut registry, "pake-1", "c", "Ann", "ho", at(0)));
    assert!(!is_cross_window_repeat_at(&mut registry, "pake-1", "d", "An", "nhi", at(0)));
}

#[test]
fn cross_window_repeat_reads_the_clock() {
    let clock = Clock::start();
    let mut registry = MessageRegistry::default();
    assert!(!is_cross_window_repeat(&mut registry, &clock, "pake", "a", "Ann", "hi"));
    assert!(is_cross_window_repeat(&mut registry, &clock, "pake-1", "b", "Ann", "hi"));
    assert!(!is_cross_window_repeat(&mut registry, &clock, "pake", "c", "Ann", "hi"));
}

// Sending.

#[test]
fn refused_notification_is_not_recorded() {
    let mut registry = MessageRegistry::default();
    let refused = send_at(&mut registry, "pake", &params("a|b", "Ann", "hi"), at(0));
    assert_eq!(refused, Err(CHARACTERS.to_string()));
    let refused = send_at(&mut registry, "pake", &params("", "Ann", "hi"), at(0));
    assert_eq!(refused, Err(LENGTH.to_string()));

    let step = send_at(&mut registry, "pake-1", &params("b", "Ann", "hi"), at(0));
    assert_eq!(step, Ok(SendStep::TryNative));
}

#[test]
fn repeat_is_suppressed_without_being_shown() {
    let clock = Clock::start();
    let mut registry = MessageRegistry::default();
    let step = send(&mut registry, &clock, "pake", &params("a", "Ann", "hi"));
    assert_eq!(step, Ok(SendStep::TryNative));
    let step = send(&mut registry, &clock, "pake-1", &params("b", "Ann", "hi"));
    let told = NotificationOutcome {
        native_click: false,
        suppressed: true,
    };
    assert_eq!(step, Ok(SendStep::Done(told)));
    assert_eq!(registry.sibling_in("pake", "a", "pake-1"), pair("pake-1", "b"));
}

#[test]
fn plugin_shows_what_the_native_center_does_not() {
    let native = NotificationOutcome {
        native_click: true,
        suppressed: false,
    };
    let plain = NotificationOutcome {
        native_click: false,
        suppressed: false,
    };
    assert_eq!(after_native(Ok(true)), Ok(SendStep::Done(native)));
    assert_eq!(after_native(Ok(false)), Ok(SendStep::ShowPlugin));
    assert_eq!(after_native_attempt(Some(Ok(()))), Ok(SendStep::Done(native)));
    assert_eq!(after_native_attempt(None), Ok(SendStep::ShowPlugin));
    assert_eq!(after_plugin(Ok(())), Ok(SendStep::Done(plain)));
    assert_eq!(
        after_plugin(Err("denied".to_string())),
        Err("Failed to show notification: denied".to_string())
    );
}

#[test]
fn failed_hand_over_is_answered_and_the_plugin_is_not_tried() {
    assert_eq!(after_native(Err("as it is".to_string())), Err("as it is".to_string()));
    assert_eq!(
        after_native_attempt(Some(Err("gone".to_string()))),
        Err("Failed to dispatch notification: gone".to_string())
    );
}

#[test]
fn native_center_is_handed_the_notification() {
    assert!(deliver(false, "pake", &params("a", "Ann", "hi")).is_none());
    let handed = deliver(true, "pake", &params("a", "Ann", "hi")).unwrap();
    assert_eq!(handed.identifier, "pake|a");
    assert_eq!(handed.title, "Ann");
    assert_eq!(handed.body, "hi");

    assert_eq!(delivered(None), Ok(false));
    assert_eq!(delivered(Some(Ok(()))), Ok(true));
    assert_eq!(
        delivered(Some(Err("gone".to_string()))),
        Err("Failed to dispatch notification: gone".to_string())
    );
}

#[test]
fn close_names_the_notification_to_withdraw() {
    assert_eq!(close(true, "pake", "a"), Ok(Some("pake|a".to_string())));
    assert_eq!(close(false, "pake", "a"), Ok(None));
    assert_eq!(close(true, "pake", "a'b"), Err(CHARACTERS.to_string()));
    assert_eq!(close(false, "pake", ""), Err(LENGTH.to_string()));

    assert_eq!(remove(true, "pake", "a"), Some("pake|a".to_string()));
    assert_eq!(remove(false, "pake", "a"), None);
    assert_eq!(removed(None), Ok(()));
    assert_eq!(removed(Some(Ok(()))), Ok(()));
    assert_eq!(
        removed(Some(Err("gone".to_string()))),
        Err("Failed to dispatch notification removal: gone".to_string())
    );
}

#[test]
fn withdrawing_leaves_other_notifications_alone() {
    let delivered = vec![
        Some("pake|a".to_string()),
        None,
        Some("pake-1|a".to_string()),
        Some("pake|a".to_string()),
        Some("pake|ab".to_string()),
    ];
    assert_eq!(withdrawals(&delivered, "pake|a"), vec![0, 3]);
    assert_eq!(withdrawals(&delivered, "pake|b"), Vec::<usize>::new());
    assert_eq!(withdrawals(&Vec::new(), "pake|a"), Vec::<usize>::new());
}

#[test]
fn identifier_round_trips_with_a_bar_in_the_label() {
    let name = notification_identifier("popup|one", "a-1");
    assert_eq!(name, "popup|one|a-1");
    assert_eq!(split_identifier(&name), pair("popup|one", "a-1"));
    assert_eq!(split_identifier("nothing"), None);
}

// Clicks.

fn shared_message() -> MessageRegistry {
    let mut registry = MessageRegistry::default();
    registry.record("pake-1", "delivered", dedupe_key("Ann", "hi"), at(0));
    registry.record("pake", "suppressed", dedupe_key("Ann", "hi"), at(0));
    registry
}

#[test]
fn click_follows_the_user_to_the_visible_window() {
    let registry = shared_message();
    let open = labels(&["pake", "pake-1", "pake-2"]);
    assert_eq!(
        dispatch_click(&registry, "pake-1", "delivered", Some("pake"), &open),
        pair("pake", "suppressed")
    );
}

#[test]
fn click_leaves_a_visible_window_that_missed_the_message() {
    let registry = shared_message();
    let open = labels(&["pake", "pake-1", "pake-2"]);
    assert_eq!(
        dispatch_click(&registry, "pake-1", "delivered", Some("pake-2"), &open),
        None
    );
}

#[test]
fn click_stays_when_no_other_window_is_in_front() {
    let registry = shared_message();
    let open = labels(&["pake", "pake-1"]);
    for visible in [None, Some("pake-1"), Some("closed")] {
        assert_eq!(
            dispatch_click(&registry, "pake-1", "delivered", visible, &open),
            pair("pake-1", "delivered")
        );
    }
    // The window in front raised the message too but is gone by now.
    assert_eq!(
        dispatch_click(&registry, "pake-1", "delivered", Some("pake"), &labels(&["pake-1"])),
        pair("pake-1", "delivered")
    );
}

#[test]
fn click_for_a_closed_window_goes_nowhere() {
    let registry = shared_message();
    assert_eq!(
        dispatch_click(&registry, "pake-1", "delivered", None, &labels(&["pake"])),
        None
    );
    // The window in front has its own copy, whether or not the other is open.
    assert_eq!(
        dispatch_click(&registry, "pake-1", "delivered", Some("pake"), &labels(&["pake"])),
        pair("pake", "suppressed")
    );
}

#[test]
fn visible_window_is_the_selected_tab() {
    let windows = vec![
        window("pake", Some(10), Some(true)),
        window("pake-1", Some(11), Some(false)),
    ];
    assert_eq!(native_handle(&windows, "pake-1"), Some(11));
    assert_eq!(
        preferred_click_target(true, &windows, "pake", Some(11)),
        Some("pake-1".to_string())
    );
    // The tab on screen is no window of ours.
    assert_eq!(preferred_click_target(true, &windows, "pake", Some(12)), None);
}

#[test]
fn visible_window_holds_focus_outside_a_tab_group() {
    let windows = vec![
        window("pake", Some(10), None),
        window("pake-1", None, Some(true)),
        window("pake-2", Some(12), Some(false)),
    ];
    assert_eq!(
        preferred_click_target(true, &windows, "pake", None),
        Some("pake-1".to_string())
    );
    let unfocused = vec![window("pake", Some(10), Some(false))];
    assert_eq!(preferred_click_target(true, &unfocused, "pake", None), None);
}

#[test]
fn visible_window_is_unknown_where_it_cannot_be_asked() {
    let windows = vec![
        window("pake", Some(10), Some(true)),
        window("pake-1", None, Some(false)),
    ];
    assert_eq!(native_handle(&windows, "pake-1"), None);
    assert_eq!(native_handle(&windows, "gone"), None);
    assert_eq!(preferred_click_target(false, &windows, "pake", Some(10)), None);
    assert_eq!(preferred_click_target(true, &windows, "gone", Some(10)), None);
    assert_eq!(preferred_click_target(true, &windows, "pake-1", None), None);
}
