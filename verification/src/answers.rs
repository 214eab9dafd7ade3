//! What the functions answer, said of their arguments and results alone.
//!
//! `call_ensures(f, arguments, result)` reads: a call of `f` with these
//! arguments may give this result.

use crate::click;
use crate::id;
use crate::laws;
use crate::native;
use crate::native::NativeNotification;
use crate::registry;
use crate::registry::{GroupModel, MessageRegistry};
use crate::search;
use crate::send;
use crate::send::{NotificationOutcome, NotificationParams, SendStep};
use crate::text;
use crate::time::Timestamp;
use vstd::prelude::*;
use vstd::string::*;
use vstd::utf8::*;

verus! {

// ---- Moments ----

/// The time between two moments is their difference, at every moment.
pub proof fn law_duration_is_the_difference(later: Timestamp, earlier: Timestamp, nanos: u128)
    requires
        call_ensures(Timestamp::duration_since, (later, earlier), nanos),
    ensures
        earlier.nanos <= later.nanos ==> nanos + earlier.nanos == later.nanos,
        later.nanos < earlier.nanos ==> nanos == 0,
{
}

// ---- Recording ----

/// A notification is suppressed exactly where a remembered message has its
/// text, was first seen less than a second before, and has no notification of
/// its window. `now` and the messages' moments are nanoseconds on one clock.
pub proof fn law_record_suppresses_within_a_second(
    groups: Seq<GroupModel>,
    window: Seq<char>,
    id: Seq<char>,
    key: Seq<char>,
    now: Timestamp,
)
    ensures
        registry::recorded(groups, window, id, key, now@).1 <==> exists|i: int|
            0 <= i < groups.len() && (#[trigger] groups[i]).key == key && now.nanos - groups[i].at
                < 1_000_000_000 && forall|m: int|
                0 <= m < groups[i].members.len() ==> (#[trigger] groups[i].members[m]).0 != window,
{
    laws::law_suppressed_exactly_as_a_repeat(groups, window, id, key, now@);
    if registry::recorded(groups, window, id, key, now@).1 {
        let i = choose|i: int|
            0 <= i < groups.len() && (#[trigger] groups[i]).absorbs(window, key, now@);
        assert(groups[i].key == key);
    }
    if exists|i: int|
        0 <= i < groups.len() && (#[trigger] groups[i]).key == key && now.nanos - groups[i].at
            < 1_000_000_000 && forall|m: int|
            0 <= m < groups[i].members.len() ==> (#[trigger] groups[i].members[m]).0 != window {
        let i = choose|i: int|
            0 <= i < groups.len() && (#[trigger] groups[i]).key == key && now.nanos - groups[i].at
                < 1_000_000_000 && forall|m: int|
                0 <= m < groups[i].members.len() ==> (#[trigger] groups[i].members[m]).0 != window;
        assert(groups[i].absorbs(window, key, now@));
    }
}

/// A suppressed notification is entered, behind those already there, into the
/// first message of which it is a repeat, and nothing else changes.
pub proof fn law_record_enters_a_repeat(
    groups: Seq<GroupModel>,
    window: Seq<char>,
    id: Seq<char>,
    key: Seq<char>,
    now: Timestamp,
    i: int,
)
    requires
        0 <= i < groups.len(),
        groups[i].key == key,
        now.nanos - groups[i].at < 1_000_000_000,
        forall|m: int|
            0 <= m < groups[i].members.len() ==> (#[trigger] groups[i].members[m]).0 != window,
        forall|j: int|
            0 <= j < i ==> {
                ||| (#[trigger] groups[j]).key != key
                ||| now.nanos - groups[j].at >= 1_000_000_000
                ||| exists|m: int|
                    0 <= m < groups[j].members.len() && (#[trigger] groups[j].members[m]).0
                        == window
            },
    ensures
        registry::recorded(groups, window, id, key, now@) == (
            groups.update(
                i,
                GroupModel {
                    key: groups[i].key,
                    at: groups[i].at,
                    members: groups[i].members.push((window, id)),
                },
            ),
            true,
        ),
{
    let p = registry::absorber(window, key, now@);
    assert(groups[i].absorbs(window, key, now@));
    assert forall|j: int| 0 <= j < i implies !p(#[trigger] groups[j]) by {
        if groups[j].key == key && now.nanos - groups[j].at < 1_000_000_000 {
            let m = choose|m: int|
                0 <= m < groups[j].members.len() && (#[trigger] groups[j].members[m]).0 == window;
            assert(groups[j].raised_by(window));
        }
    }
    search::lemma_first_index_is(groups, p, i);
}

/// A notification that is not suppressed becomes the newest message, with its
/// text and its moment. The messages before it stay as they are, without the
/// oldest where there were already 64.
pub proof fn law_record_starts_a_message(
    groups: Seq<GroupModel>,
    window: Seq<char>,
    id: Seq<char>,
    key: Seq<char>,
    now: Timestamp,
)
    requires
        !registry::recorded(groups, window, id, key, now@).1,
    ensures
        registry::recorded(groups, window, id, key, now@).0 == (if groups.len() >= 64 {
            groups.subrange(1, groups.len() as int)
        } else {
            groups
        }).push(GroupModel { key, at: now.nanos as nat, members: seq![(window, id)] }),
{
}

// ---- Siblings ----

/// From a notification in a message, asking for another window's copy gives
/// the first notification of that window in the first message that holds the
/// one asked about.
pub proof fn law_sibling_is_found(
    groups: Seq<GroupModel>,
    window: Seq<char>,
    id: Seq<char>,
    preferred: Seq<char>,
    at: int,
    held: int,
    found: int,
)
    requires
        window != preferred,
        0 <= at < groups.len(),
        0 <= held < groups[at].members.len(),
        groups[at].members[held] == (window, id),
        forall|k: int, l: int|
            0 <= k < at && 0 <= l < groups[k].members.len() ==> #[trigger] groups[k].members[l] != (
                window,
                id,
            ),
        0 <= found < groups[at].members.len(),
        groups[at].members[found].0 == preferred,
        forall|l: int| 0 <= l < found ==> (#[trigger] groups[at].members[l]).0 != preferred,
    ensures
        registry::sibling(groups, window, id, preferred) == Some(groups[at].members[found]),
{
    lemma_first_holder(groups, window, id, at, held);
    search::lemma_first_index_is(groups[at].members, registry::from_window(preferred), found);
}

/// Where the other window has no notification in that message, there is no
/// copy to give.
pub proof fn law_sibling_is_missing(
    groups: Seq<GroupModel>,
    window: Seq<char>,
    id: Seq<char>,
    preferred: Seq<char>,
    at: int,
    held: int,
)
    requires
        0 <= at < groups.len(),
        0 <= held < groups[at].members.len(),
        groups[at].members[held] == (window, id),
        forall|k: int, l: int|
            0 <= k < at && 0 <= l < groups[k].members.len() ==> #[trigger] groups[k].members[l] != (
                window,
                id,
            ),
        forall|l: int|
            0 <= l < groups[at].members.len() ==> (#[trigger] groups[at].members[l]).0 != preferred,
    ensures
        registry::sibling(groups, window, id, preferred) is None,
{
    lemma_first_holder(groups, window, id, at, held);
    search::lemma_first_index_none(groups[at].members, registry::from_window(preferred));
}

/// A notification that no message holds has no copy, nor does one have a copy
/// in its own window.
pub proof fn law_sibling_of_the_unknown(
    groups: Seq<GroupModel>,
    window: Seq<char>,
    id: Seq<char>,
    preferred: Seq<char>,
)
    requires
        window == preferred || forall|k: int, l: int|
            0 <= k < groups.len() && 0 <= l < groups[k].members.len()
                ==> #[trigger] groups[k].members[l] != (window, id),
    ensures
        registry::sibling(groups, window, id, preferred) is None,
{
    if window != preferred {
        search::lemma_first_index_none(groups, registry::holder(window, id));
    }
}

proof fn lemma_first_holder(
    groups: Seq<GroupModel>,
    window: Seq<char>,
    id: Seq<char>,
    at: int,
    held: int,
)
    requires
        0 <= at < groups.len(),
        0 <= held < groups[at].members.len(),
        groups[at].members[held] == (window, id),
        forall|k: int, l: int|
            0 <= k < at && 0 <= l < groups[k].members.len() ==> #[trigger] groups[k].members[l] != (
                window,
                id,
            ),
    ensures
        search::first_index(groups, registry::holder(window, id)) == Some(at),
{
    let p = registry::holder(window, id);
    assert(groups[at].has_member(window, id));
    assert forall|k: int| 0 <= k < at implies !p(#[trigger] groups[k]) by {
        assert(!groups[k].has_member(window, id));
    }
    search::lemma_first_index_is(groups, p, at);
}

/// Both ways to ask for a copy give what the registry holds for it.
pub proof fn law_both_ways_to_ask_agree(
    registry: &MessageRegistry,
    window: &str,
    id: &str,
    preferred: &str,
    found1: Option<(String, String)>,
    found2: Option<(String, String)>,
)
    requires
        call_ensures(MessageRegistry::sibling_in, (registry, window, id, preferred), found1),
        call_ensures(registry::sibling_in, (registry, window, id, preferred), found2),
    ensures
        found1 is Some <==> registry::sibling(registry@, window@, id@, preferred@) is Some,
        found1 matches Some(m) ==> registry::sibling(registry@, window@, id@, preferred@) == Some(
            (m.0@, m.1@),
        ),
        found2 is Some <==> found1 is Some,
        found2 matches Some(m) ==> found1 matches Some(o) && m.0@ == o.0@ && m.1@ == o.1@,
{
}

// ---- Text ----

/// The key of a message is its title, a unit separator and its body.
pub proof fn law_key_in_full(title: &str, body: &str, key: String)
    requires
        call_ensures(registry::dedupe_key, (title, body), key),
    ensures
        key@ == title@ + seq!['\u{1f}'] + body@,
        registry::message_key(title@, body@) == title@ + seq!['\u{1f}'] + body@,
{
}

/// Splitting parts a text at the last separator, and only a text without one
/// cannot be split.
pub proof fn law_split_in_full(text: &str, separator: char, parts: Option<(String, String)>)
    requires
        call_ensures(text::split_last, (text, separator), parts),
    ensures
        match parts {
            Some((before, after)) => text@ == before@ + seq![separator] + after@ && forall|i: int|
                0 <= i < after@.len() ==> #[trigger] after@[i] != separator,
            None => forall|i: int| 0 <= i < text@.len() ==> #[trigger] text@[i] != separator,
        },
{
    match parts {
        Some((before, after)) => {
            assert(before@.push(separator) + after@ =~= before@ + seq![separator] + after@);
            assert forall|i: int| 0 <= i < after@.len() implies #[trigger] after@[i]
                != separator by {
                assert(after@.contains(after@[i]));
            }
        },
        None => {
            assert forall|i: int| 0 <= i < text@.len() implies #[trigger] text@[i] != separator by {
                assert(text@.contains(text@[i]));
            }
        },
    }
}

// ---- Ids ----

/// An id is accepted exactly where it has 1 to 64 characters, each a letter, a
/// digit, a hyphen or an underscore of ASCII. Where its encoding is empty or
/// longer than 64 bytes that is the complaint, otherwise it is its characters.
pub proof fn law_id_in_full(id: &str, result: Result<(), String>)
    requires
        call_ensures(id::validate_id, (id,), result),
    ensures
        result is Ok <==> 1 <= id@.len() <= 64 && forall|i: int|
            0 <= i < id@.len() ==> {
                ||| '0' <= #[trigger] id@[i] <= '9'
                ||| 'A' <= id@[i] <= 'Z'
                ||| 'a' <= id@[i] <= 'z'
                ||| id@[i] == '-'
                ||| id@[i] == '_'
            },
        result matches Err(message) ==> message@ == (if encode_utf8(id@).len() == 0 || encode_utf8(
            id@,
        ).len() > 64 {
            "Notification id must be 1-64 characters"@
        } else {
            "Notification id must be alphanumeric, '-' or '_'"@
        }),
{
    if result is Ok {
        assert forall|i: int| 0 <= i < id@.len() implies {
            ||| '0' <= #[trigger] id@[i] <= '9'
            ||| 'A' <= id@[i] <= 'Z'
            ||| 'a' <= id@[i] <= 'z'
            ||| id@[i] == '-'
            ||| id@[i] == '_'
        } by {
            assert(id::is_id_char(id@[i]));
        }
    }
}

/// The same of any text: what the rest of the crate takes for a well-formed id,
/// and what it answers any other.
pub proof fn law_valid_id_in_full(id: Seq<char>)
    ensures
        id::valid_id(id) <==> 1 <= id.len() <= 64 && forall|i: int|
            0 <= i < id.len() ==> {
                ||| '0' <= #[trigger] id[i] <= '9'
                ||| 'A' <= id[i] <= 'Z'
                ||| 'a' <= id[i] <= 'z'
                ||| id[i] == '-'
                ||| id[i] == '_'
            },
        id::id_refusal(id) == (if encode_utf8(id).len() == 0 || encode_utf8(id).len() > 64 {
            "Notification id must be 1-64 characters"@
        } else {
            "Notification id must be alphanumeric, '-' or '_'"@
        }),
{
    if id::valid_id(id) {
        assert forall|i: int| 0 <= i < id.len() implies {
            ||| '0' <= #[trigger] id[i] <= '9'
            ||| 'A' <= id[i] <= 'Z'
            ||| 'a' <= id[i] <= 'z'
            ||| id[i] == '-'
            ||| id[i] == '_'
        } by {
            assert(id::is_id_char(id[i]));
        }
    }
}

// ---- The native center ----

/// An identifier is the window's label, a bar and the id.
pub proof fn law_identifier_in_full(window: &str, id: &str, name: String)
    requires
        call_ensures(native::notification_identifier, (window, id), name),
    ensures
        name@ == window@ + seq!['|'] + id@,
        native::identifier(window@, id@) == window@ + seq!['|'] + id@,
{
    assert(window@.push('|') + id@ =~= window@ + seq!['|'] + id@);
}

/// What was named for a window and an id without a bar is split into them
/// again.
pub proof fn law_identifier_comes_apart_again(
    window: &str,
    id: &str,
    name: String,
    text: &str,
    parts: Option<(String, String)>,
)
    requires
        forall|i: int| 0 <= i < id@.len() ==> #[trigger] id@[i] != '|',
        call_ensures(native::notification_identifier, (window, id), name),
        text@ == name@,
        call_ensures(native::split_identifier, (text,), parts),
    ensures
        parts matches Some((w, i)) && w@ == window@ && i@ == id@,
{
    law_identifier_in_full(window, id, name);
    assert(name@[window@.len() as int] == '|');
    assert(text@.contains('|'));
    assert(!id@.contains('|'));
    if let Some((w, i)) = parts {
        laws::law_identifier_names_one_notification(window@, id@, w@, i@);
    }
}

/// A delivered notification is withdrawn exactly where its identifier is the
/// one asked for, whatever that is; each once, and in order.
pub proof fn law_withdrawals_in_full(
    delivered: &Vec<Option<String>>,
    name: &str,
    places: Vec<usize>,
    i: usize,
)
    requires
        call_ensures(native::withdrawals, (delivered, name), places),
    ensures
        places@.contains(i) <==> i < delivered@.len() && (delivered@[i as int] matches Some(text)
            && text@ == name@),
        forall|k: int, l: int|
            0 <= k < l < places@.len() ==> (#[trigger] places@[k]) < (#[trigger] places@[l]),
{
}

/// Closing a notification withdraws what was delivered for it, and nothing that
/// was delivered for another window or another id.
pub proof fn law_close_withdraws_what_was_delivered(
    ready: bool,
    window: &str,
    params: &NotificationParams,
    handed: Option<NativeNotification>,
    closing_window: &str,
    id: &str,
    closed: Result<Option<String>, String>,
    delivered: &Vec<Option<String>>,
    name: &str,
    places: Vec<usize>,
    i: usize,
)
    requires
        ready,
        call_ensures(native::deliver, (ready, window, params), handed),
        call_ensures(send::close, (ready, closing_window, id), closed),
        i < delivered@.len(),
        handed matches Some(notification) ==> delivered@[i as int] == Some(notification.identifier),
        closed matches Ok(Some(identifier)) ==> name@ == identifier@,
        call_ensures(native::withdrawals, (delivered, name), places),
        id::valid_id(params.id@),
        id::valid_id(id@),
    ensures
        handed is Some,
        closed matches Ok(Some(_)),
        places@.contains(i) <==> window@ == closing_window@ && params.id@ == id@,
{
    laws::law_valid_id_is_harmless(params.id@);
    laws::law_valid_id_is_harmless(id@);
    laws::law_identifier_names_one_notification(window@, params.id@, closing_window@, id@);
}

/// What the native center is handed is the notification as the page asked for
/// it, under its identifier, where there is a center; and what a close asks to
/// withdraw is that identifier.
pub proof fn law_native_requests_in_full(
    ready: bool,
    window: &str,
    params: &NotificationParams,
    handed: Option<NativeNotification>,
    id: &str,
    named: Option<String>,
    closed: Result<Option<String>, String>,
)
    requires
        call_ensures(native::deliver, (ready, window, params), handed),
        call_ensures(native::remove, (ready, window, id), named),
        call_ensures(send::close, (ready, window, id), closed),
    ensures
        handed is Some <==> ready,
        handed matches Some(notification) ==> {
            &&& notification.identifier@ == window@ + seq!['|'] + params.id@
            &&& notification.title@ == params.title@
            &&& notification.body@ == params.body@
        },
        named is Some <==> ready,
        named matches Some(name) ==> name@ == window@ + seq!['|'] + id@,
        closed matches Ok(answer) ==> {
            &&& id::valid_id(id@)
            &&& answer is Some <==> ready
            &&& answer matches Some(name) ==> name@ == window@ + seq!['|'] + id@
        },
        closed matches Err(message) ==> !id::valid_id(id@) && message@ == id::id_refusal(id@),
{
    assert(window@.push('|') + params.id@ =~= window@ + seq!['|'] + params.id@);
    assert(window@.push('|') + id@ =~= window@ + seq!['|'] + id@);
}

// ---- Sending ----

/// A notification with an id that is not well-formed is refused and leaves the
/// registry as it was. Any other is recorded under its title and body, and the
/// page is told at once that it is suppressed, or the native center is tried.
pub proof fn law_send_in_full(
    before: Seq<GroupModel>,
    after: Seq<GroupModel>,
    window: Seq<char>,
    params: NotificationParams,
    now: nat,
    result: Result<SendStep, String>,
)
    ensures
        send::sends(before, after, window, params, now, result) <==> {
            let (groups, repeat) = registry::recorded(
                before,
                window,
                params.id@,
                params.title@ + seq!['\u{1f}'] + params.body@,
                now,
            );
            if id::valid_id(params.id@) {
                &&& after == groups
                &&& result == Ok::<SendStep, String>(
                    if repeat {
                        SendStep::Done(
                            NotificationOutcome { native_click: false, suppressed: true },
                        )
                    } else {
                        SendStep::TryNative
                    },
                )
            } else {
                &&& after == before
                &&& result matches Err(message)
                &&& message@ == id::id_refusal(params.id@)
            }
        },
{
}

/// Two sends whose readings of the clock lie a second or more apart do not
/// suppress each other: where no older message with its text is younger than a
/// second, the later one is not suppressed.
pub proof fn law_sends_a_second_apart_are_both_shown(
    before: Seq<GroupModel>,
    window1: Seq<char>,
    params1: NotificationParams,
    now1: Timestamp,
    between: Seq<GroupModel>,
    result1: Result<SendStep, String>,
    window2: Seq<char>,
    params2: NotificationParams,
    now2: Timestamp,
    after: Seq<GroupModel>,
    result2: Result<SendStep, String>,
)
    requires
        send::sends(before, between, window1, params1, now1@, result1),
        send::sends(between, after, window2, params2, now2@, result2),
        id::valid_id(params2.id@),
        now2.nanos - now1.nanos >= 1_000_000_000,
        forall|i: int|
            0 <= i < before.len() && (#[trigger] before[i]).key == params2.title@ + seq!['\u{1f}']
                + params2.body@ ==> now2.nanos - before[i].at >= 1_000_000_000,
    ensures
        result2 == Ok::<SendStep, String>(SendStep::TryNative),
{
    let key1 = registry::message_key(params1.title@, params1.body@);
    let key2 = registry::message_key(params2.title@, params2.body@);
    if id::valid_id(params1.id@) {
        let p = registry::absorber(window1, key1, now1@);
        search::lemma_first_index_meaning(before, p);
        assert forall|i: int| 0 <= i < between.len() && (#[trigger] between[i]).key
            == key2 implies now2@ - between[i].at >= 1_000_000_000 by {
            match search::first_index(before, p) {
                Some(k) => {
                    assert(between[i].key == before[i].key && between[i].at == before[i].at);
                },
                None => {
                    if i < registry::make_room(before).len() {
                        registry::lemma_make_room_position(before, i);
                        assert(between[i] == before[i + registry::room_shift(before)]);
                    }
                },
            }
        }
    }
    laws::law_late_repeat_is_delivered(between, window2, params2.id@, key2, now2@);
}

/// Once the native center answered, the page is promised a native click, the
/// plugin shows the notification, or the center's error is passed on as it is.
pub proof fn law_native_answer_in_full(
    answer: Result<bool, String>,
    result: Result<SendStep, String>,
)
    requires
        call_ensures(send::after_native, (answer,), result),
    ensures
        answer == Ok::<bool, String>(true) ==> result == Ok::<SendStep, String>(
            SendStep::Done(NotificationOutcome { native_click: true, suppressed: false }),
        ),
        answer == Ok::<bool, String>(false) ==> result == Ok::<SendStep, String>(
            SendStep::ShowPlugin,
        ),
        answer matches Err(message) ==> result == Err::<SendStep, String>(message),
{
}

/// After an attempt on the native center and after one on the plugin: a success
/// ends the run with what is true of it, a failure is answered with its reason,
/// and where nothing was attempted on the center the plugin is next.
pub proof fn law_attempts_in_full(
    attempt: Option<Result<(), String>>,
    next: Result<SendStep, String>,
    shown: Result<(), String>,
    last: Result<SendStep, String>,
)
    requires
        call_ensures(send::after_native_attempt, (attempt,), next),
        call_ensures(send::after_plugin, (shown,), last),
    ensures
        attempt is None ==> next == Ok::<SendStep, String>(SendStep::ShowPlugin),
        attempt matches Some(Ok(_)) ==> next == Ok::<SendStep, String>(
            SendStep::Done(NotificationOutcome { native_click: true, suppressed: false }),
        ),
        attempt matches Some(Err(error)) ==> next matches Err(message) && message@
            == "Failed to dispatch notification: "@ + error@,
        shown is Ok ==> last == Ok::<SendStep, String>(
            SendStep::Done(NotificationOutcome { native_click: false, suppressed: false }),
        ),
        shown matches Err(error) ==> last matches Err(message) && message@
            == "Failed to show notification: "@ + error@,
{
}

// ---- Clicks ----

/// The handle of a label is that of the first window with the label, at
/// whatever place in the list it stands.
pub proof fn law_handle_is_found(
    windows: &Vec<click::WindowState>,
    label: &str,
    native: Option<usize>,
    at: int,
)
    requires
        call_ensures(click::native_handle, (windows, label), native),
        0 <= at < windows@.len(),
        windows@[at].label@ == label@,
        forall|j: int| 0 <= j < at ==> (#[trigger] windows@[j]).label@ != label@,
    ensures
        native == windows@[at].native,
{
    search::lemma_first_index_is(windows@, click::labelled(label@), at);
}

/// A label that no window has, has no handle.
pub proof fn law_handle_is_missing(
    windows: &Vec<click::WindowState>,
    label: &str,
    native: Option<usize>,
)
    requires
        call_ensures(click::native_handle, (windows, label), native),
        forall|j: int| 0 <= j < windows@.len() ==> (#[trigger] windows@[j]).label@ != label@,
    ensures
        native is None,
{
    search::lemma_first_index_none(windows@, click::labelled(label@));
}

/// On the main thread, for a window of the list that has a native handle, the
/// window the user looks at is the first one with the selected tab's handle; in
/// the absence of a selected tab it is the first one that holds focus; and it is
/// unknown only where there is no such window.
pub proof fn law_visible_window_in_full(
    windows: &Vec<click::WindowState>,
    origin: &str,
    selected: Option<usize>,
    label: Option<String>,
    at: int,
)
    requires
        call_ensures(click::preferred_click_target, (true, windows, origin, selected), label),
        0 <= at < windows@.len(),
        windows@[at].label@ == origin@,
        windows@[at].native is Some,
        forall|j: int| 0 <= j < at ==> (#[trigger] windows@[j]).label@ != origin@,
    ensures
        match label {
            Some(text) => exists|k: int|
                0 <= k < windows@.len() && (#[trigger] windows@[k]).label@ == text@ && (
                match selected {
                    Some(native) => windows@[k].native == Some(native) && forall|j: int|
                        0 <= j < k ==> (#[trigger] windows@[j]).native != Some(native),
                    None => windows@[k].focused == Some(true) && forall|j: int|
                        0 <= j < k ==> (#[trigger] windows@[j]).focused != Some(true),
                }),
            None => forall|j: int|
                0 <= j < windows@.len() ==> match selected {
                    Some(native) => (#[trigger] windows@[j]).native != Some(native),
                    None => windows@[j].focused != Some(true),
                },
        },
{
    search::lemma_first_index_is(windows@, click::labelled(origin@), at);
    match selected {
        Some(native) => {
            let p = click::handled_by(native);
            search::lemma_first_index_meaning(windows@, p);
            match search::first_index(windows@, p) {
                Some(k) => {
                    assert(windows@[k].native == Some(native));
                    assert forall|j: int| 0 <= j < k implies (#[trigger] windows@[j]).native
                        != Some(native) by {
                        assert(!p(windows@[j]));
                    }
                },
                None => {
                    assert forall|j: int| 0 <= j < windows@.len() implies (
                    #[trigger] windows@[j]).native != Some(native) by {
                        assert(!p(windows@[j]));
                    }
                },
            }
        },
        None => {
            let p = click::focused();
            search::lemma_first_index_meaning(windows@, p);
            match search::first_index(windows@, p) {
                Some(k) => {
                    assert(windows@[k].focused == Some(true));
                    assert forall|j: int| 0 <= j < k implies (#[trigger] windows@[j]).focused
                        != Some(true) by {
                        assert(!p(windows@[j]));
                    }
                },
                None => {
                    assert forall|j: int| 0 <= j < windows@.len() implies (
                    #[trigger] windows@[j]).focused != Some(true) by {
                        assert(!p(windows@[j]));
                    }
                },
            }
        },
    }
}

/// Off the main thread, or for a window that is not in the list or has no native
/// handle, no window is preferred.
pub proof fn law_visible_window_is_unknown(
    on_main_thread: bool,
    windows: &Vec<click::WindowState>,
    origin: &str,
    selected: Option<usize>,
    label: Option<String>,
)
    requires
        call_ensures(
            click::preferred_click_target,
            (on_main_thread, windows, origin, selected),
            label,
        ),
        !on_main_thread || forall|j: int|
            0 <= j < windows@.len() && (#[trigger] windows@[j]).label@ == origin@
                ==> windows@[j].native is None,
    ensures
        label is None,
{
    search::lemma_first_index_meaning(windows@, click::labelled(origin@));
}

/// While the user looks at another open window than the one that raised the
/// clicked notification, the click is that window's, with the first notification
/// that it has in the message, however many other windows are in the message or
/// open. Nothing happens only where it has none.
pub proof fn law_click_goes_to_the_visible_window(
    registry: &MessageRegistry,
    window: &str,
    id: &str,
    front: &str,
    open: &Vec<String>,
    target: Option<(String, String)>,
    place: int,
    at: int,
    held: int,
)
    requires
        call_ensures(click::dispatch_click, (registry, window, id, Some(front), open), target),
        front@ != window@,
        0 <= place < open@.len(),
        open@[place]@ == front@,
        0 <= at < registry@.len(),
        0 <= held < registry@[at].members.len(),
        registry@[at].members[held] == (window@, id@),
        forall|k: int, l: int|
            0 <= k < at && 0 <= l < registry@[k].members.len()
                ==> #[trigger] registry@[k].members[l] != (window@, id@),
    ensures
        match target {
            Some(t) => t.0@ == front@ && exists|m: int|
                0 <= m < registry@[at].members.len() && #[trigger] registry@[at].members[m] == (
                    front@,
                    t.1@,
                ) && forall|l: int|
                    0 <= l < m ==> (#[trigger] registry@[at].members[l]).0 != front@,
            None => forall|m: int|
                0 <= m < registry@[at].members.len() ==> (#[trigger] registry@[at].members[m]).0
                    != front@,
        },
{
    let members = registry@[at].members;
    let p = registry::from_window(front@);
    assert(click::is_open(open@, front@));
    lemma_first_holder(registry@, window@, id@, at, held);
    search::lemma_first_index_meaning(members, p);
    match search::first_index(members, p) {
        Some(m) => {
            assert(members[m].0 == front@);
            assert forall|l: int| 0 <= l < m implies (#[trigger] members[l]).0 != front@ by {
                assert(!p(members[l]));
            }
            assert(members[m] == (members[m].0, members[m].1));
        },
        None => {
            assert forall|l: int| 0 <= l < members.len() implies (#[trigger] members[l]).0
                != front@ by {
                assert(!p(members[l]));
            }
        },
    }
}

/// While the user looks at another open window, a click on a notification that
/// no message holds leaves that window in front.
pub proof fn law_click_on_a_forgotten_notification(
    registry: &MessageRegistry,
    window: &str,
    id: &str,
    front: &str,
    open: &Vec<String>,
    target: Option<(String, String)>,
    place: int,
)
    requires
        call_ensures(click::dispatch_click, (registry, window, id, Some(front), open), target),
        front@ != window@,
        0 <= place < open@.len(),
        open@[place]@ == front@,
        forall|k: int, l: int|
            0 <= k < registry@.len() && 0 <= l < registry@[k].members.len()
                ==> #[trigger] registry@[k].members[l] != (window@, id@),
    ensures
        target is None,
{
    assert(click::is_open(open@, front@));
    law_sibling_of_the_unknown(registry@, window@, id@, front@);
}

/// Where the user looks at no window, at the one that raised the notification,
/// or at one that is gone, the click stays with the window that raised it, if
/// that is open, whatever the registry holds.
pub proof fn law_click_stays(
    registry: &MessageRegistry,
    window: &str,
    id: &str,
    visible: Option<&str>,
    open: &Vec<String>,
    target: Option<(String, String)>,
)
    requires
        call_ensures(click::dispatch_click, (registry, window, id, visible, open), target),
        visible matches Some(front) ==> front@ == window@ || forall|k: int|
            0 <= k < open@.len() ==> (#[trigger] open@[k])@ != front@,
    ensures
        target is Some <==> exists|k: int| 0 <= k < open@.len() && (#[trigger] open@[k])@ == window@,
        target matches Some(t) ==> t.0@ == window@ && t.1@ == id@,
{
}

} // verus!
