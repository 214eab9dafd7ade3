//! What holds of the crate as a whole.

use crate::click;
use crate::id;
use crate::native;
use crate::registry;
use crate::registry::GroupModel;
use crate::search;
use crate::send;
use vstd::prelude::*;
use vstd::string::*;

verus! {

// ---- The key of a message ----

/// The second message's title is the first one's, then a unit separator and
/// more, and what is more stands at the front of the first one's body.
pub open spec fn runs_together(
    title1: Seq<char>,
    body1: Seq<char>,
    title2: Seq<char>,
    body2: Seq<char>,
) -> bool {
    exists|more: Seq<char>|
        #![trigger registry::message_key(title1, more)]
        title2 == registry::message_key(title1, more) && body1 == registry::message_key(
            more,
            body2,
        )
}

proof fn lemma_longer_title_runs_together(
    title1: Seq<char>,
    body1: Seq<char>,
    title2: Seq<char>,
    body2: Seq<char>,
)
    requires
        registry::message_key(title1, body1) == registry::message_key(title2, body2),
        title1.len() < title2.len(),
    ensures
        runs_together(title1, body1, title2, body2),
{
    let n = title1.len() as int;
    let key = registry::message_key(title1, body1);
    let more = title2.skip(n + 1);
    assert(key.take(title2.len() as int) =~= title2);
    assert(key.take(n) =~= title1);
    assert(key[n] == '\u{1f}');
    assert(title2[n] == key[n]);
    assert(title2.take(n) =~= title1) by {
        assert(title2.take(n) =~= key.take(n));
    }
    assert(title2 =~= registry::message_key(title1, more));
    assert(key.skip(n + 1) =~= body1);
    assert(registry::message_key(title2, body2).skip(n + 1) =~= registry::message_key(more, body2));
}

proof fn lemma_running_together_collides(
    title1: Seq<char>,
    body1: Seq<char>,
    title2: Seq<char>,
    body2: Seq<char>,
)
    requires
        runs_together(title1, body1, title2, body2),
    ensures
        registry::message_key(title1, body1) == registry::message_key(title2, body2),
{
    let more = choose|more: Seq<char>|
        #![trigger registry::message_key(title1, more)]
        title2 == registry::message_key(title1, more) && body1 == registry::message_key(
            more,
            body2,
        );
    assert(registry::message_key(title1, body1) =~= registry::message_key(title2, body2));
}

/// Two messages have one key exactly where they have the same title and body,
/// or where a unit separator inside a title lets the two run together.
pub proof fn law_key_tells_messages_apart(
    title1: Seq<char>,
    body1: Seq<char>,
    title2: Seq<char>,
    body2: Seq<char>,
)
    ensures
        registry::message_key(title1, body1) == registry::message_key(title2, body2) <==> {
            ||| title1 == title2 && body1 == body2
            ||| runs_together(title1, body1, title2, body2)
            ||| runs_together(title2, body2, title1, body1)
        },
{
    let key1 = registry::message_key(title1, body1);
    let key2 = registry::message_key(title2, body2);
    if key1 == key2 {
        if title1.len() < title2.len() {
            lemma_longer_title_runs_together(title1, body1, title2, body2);
        } else if title2.len() < title1.len() {
            lemma_longer_title_runs_together(title2, body2, title1, body1);
        } else {
            let n = title1.len() as int;
            assert(key1.take(n) =~= title1);
            assert(key2.take(n) =~= title2);
            assert(key1.skip(n + 1) =~= body1);
            assert(key2.skip(n + 1) =~= body2);
        }
    }
    if runs_together(title1, body1, title2, body2) {
        lemma_running_together_collides(title1, body1, title2, body2);
    }
    if runs_together(title2, body2, title1, body1) {
        lemma_running_together_collides(title2, body2, title1, body1);
    }
}

/// Of titles without a unit separator, a title and a body cannot run together:
/// two messages have one key only where they have the same title and body.
pub proof fn law_key_separates_title_and_body(
    title1: Seq<char>,
    body1: Seq<char>,
    title2: Seq<char>,
    body2: Seq<char>,
)
    requires
        !title1.contains('\u{1f}'),
        !title2.contains('\u{1f}'),
    ensures
        registry::message_key(title1, body1) == registry::message_key(title2, body2) <==> title1
            == title2 && body1 == body2,
{
    law_key_tells_messages_apart(title1, body1, title2, body2);
    if runs_together(title1, body1, title2, body2) {
        assert(title2[title1.len() as int] == '\u{1f}');
    }
    if runs_together(title2, body2, title1, body1) {
        assert(title1[title2.len() as int] == '\u{1f}');
    }
}

// ---- Collapsing the copies of a message ----

/// A notification is suppressed exactly where some remembered message has its
/// text, is still within the repeat window, and was not raised by its window.
pub proof fn law_suppressed_exactly_as_a_repeat(
    groups: Seq<GroupModel>,
    window: Seq<char>,
    id: Seq<char>,
    key: Seq<char>,
    now: nat,
)
    ensures
        registry::recorded(groups, window, id, key, now).1 <==> exists|i: int|
            0 <= i < groups.len() && (#[trigger] groups[i]).absorbs(window, key, now),
{
    let p = registry::absorber(window, key, now);
    search::lemma_first_index_meaning(groups, p);
    match search::first_index(groups, p) {
        Some(i) => {
            assert(groups[i].absorbs(window, key, now));
        },
        None => {
            assert forall|i: int| 0 <= i < groups.len() implies !(#[trigger] groups[i]).absorbs(
                window,
                key,
                now,
            ) by {
                assert(!p(groups[i]));
            }
        },
    }
}

/// A suppressed notification repeats one that was delivered to a different
/// window, with the same text and within the repeat window.
pub proof fn law_suppression_needs_another_window(
    groups: Seq<GroupModel>,
    window: Seq<char>,
    id: Seq<char>,
    key: Seq<char>,
    now: nat,
)
    requires
        registry::well_formed(groups),
        registry::recorded(groups, window, id, key, now).1,
    ensures
        exists|i: int|
            0 <= i < groups.len() && (#[trigger] groups[i]).key == key && now - groups[i].at
                < 1_000_000_000 && groups[i].members[0].0 != window,
{
    law_suppressed_exactly_as_a_repeat(groups, window, id, key, now);
    let i = choose|i: int|
        0 <= i < groups.len() && (#[trigger] groups[i]).absorbs(window, key, now);
    assert(groups[i].well_formed());
}

/// All notifications of the registry were raised by `window`.
pub open spec fn only_from(groups: Seq<GroupModel>, window: Seq<char>) -> bool {
    forall|i: int, j: int|
        0 <= i < groups.len() && 0 <= j < groups[i].members.len() ==> (
        #[trigger] groups[i].members[j]).0 == window
}

/// Where a single window raises notifications every one of them is delivered,
/// however often and however quickly it repeats itself.
pub proof fn law_single_window_gets_every_notification(
    groups: Seq<GroupModel>,
    window: Seq<char>,
    id: Seq<char>,
    key: Seq<char>,
    now: nat,
)
    requires
        registry::well_formed(groups),
        only_from(groups, window),
    ensures
        !registry::recorded(groups, window, id, key, now).1,
        registry::well_formed(registry::recorded(groups, window, id, key, now).0),
        only_from(registry::recorded(groups, window, id, key, now).0, window),
{
    registry::lemma_recorded_keeps_invariant(groups, window, id, key, now);
    law_suppressed_exactly_as_a_repeat(groups, window, id, key, now);
    let (after, suppressed) = registry::recorded(groups, window, id, key, now);
    if suppressed {
        law_suppression_needs_another_window(groups, window, id, key, now);
        let i = choose|i: int|
            0 <= i < groups.len() && (#[trigger] groups[i]).key == key && now - groups[i].at
                < 1_000_000_000 && groups[i].members[0].0 != window;
        assert(groups[i].well_formed());
        assert(groups[i].members[0].0 == window);
    }
    let room = registry::make_room(groups);
    assert forall|i: int, j: int|
        0 <= i < after.len() && 0 <= j < after[i].members.len() implies (
    #[trigger] after[i].members[j]).0 == window by {
        if i < room.len() {
            registry::lemma_make_room_position(groups, i);
            let k = i + registry::room_shift(groups);
            assert(after[i] == groups[k]);
            assert(groups[k].members[j].0 == window);
        }
    }
}

/// A message that was delivered to a window and that the same window raises
/// again is delivered again.
pub proof fn law_repeat_in_one_window_is_delivered(
    groups: Seq<GroupModel>,
    window: Seq<char>,
    id1: Seq<char>,
    id2: Seq<char>,
    key: Seq<char>,
    now1: nat,
    now2: nat,
)
    requires
        now1 <= now2,
        !registry::recorded(groups, window, id1, key, now1).1,
    ensures
        !registry::recorded(
            registry::recorded(groups, window, id1, key, now1).0,
            window,
            id2,
            key,
            now2,
        ).1,
{
    let after = registry::recorded(groups, window, id1, key, now1).0;
    law_suppressed_exactly_as_a_repeat(groups, window, id1, key, now1);
    law_suppressed_exactly_as_a_repeat(after, window, id2, key, now2);
    let room = registry::make_room(groups);
    assert forall|i: int| 0 <= i < after.len() implies !(#[trigger] after[i]).absorbs(
        window,
        key,
        now2,
    ) by {
        if i < room.len() {
            registry::lemma_make_room_position(groups, i);
            let k = i + registry::room_shift(groups);
            assert(after[i] == groups[k]);
            assert(!groups[k].absorbs(window, key, now1));
        } else {
            assert(after[i].members[0].0 == window);
        }
    }
}

/// A message that was delivered to one window and that another window raises
/// within the repeat window is suppressed.
pub proof fn law_repeat_in_another_window_is_suppressed(
    groups: Seq<GroupModel>,
    window1: Seq<char>,
    id1: Seq<char>,
    now1: nat,
    window2: Seq<char>,
    id2: Seq<char>,
    now2: nat,
    key: Seq<char>,
)
    requires
        window1 != window2,
        now2 - now1 < 1_000_000_000,
        !registry::recorded(groups, window1, id1, key, now1).1,
    ensures
        registry::recorded(
            registry::recorded(groups, window1, id1, key, now1).0,
            window2,
            id2,
            key,
            now2,
        ).1,
{
    let after = registry::recorded(groups, window1, id1, key, now1).0;
    law_suppressed_exactly_as_a_repeat(after, window2, id2, key, now2);
    let last = after.len() - 1;
    assert(after[last] == registry::new_group(window1, id1, key, now1));
    assert(after[last].absorbs(window2, key, now2));
}

/// Suppressing one window's copy of a message does not use the message up:
/// whatever other window's copy was a repeat before is a repeat still.
pub proof fn law_suppressing_one_copy_leaves_the_others(
    groups: Seq<GroupModel>,
    window1: Seq<char>,
    id1: Seq<char>,
    key1: Seq<char>,
    now1: nat,
    window2: Seq<char>,
    id2: Seq<char>,
    key2: Seq<char>,
    now2: nat,
)
    requires
        window1 != window2,
        registry::recorded(groups, window1, id1, key1, now1).1,
        registry::recorded(groups, window2, id2, key2, now2).1,
    ensures
        registry::recorded(
            registry::recorded(groups, window1, id1, key1, now1).0,
            window2,
            id2,
            key2,
            now2,
        ).1,
{
    let after = registry::recorded(groups, window1, id1, key1, now1).0;
    law_suppressed_exactly_as_a_repeat(groups, window2, id2, key2, now2);
    law_suppressed_exactly_as_a_repeat(after, window2, id2, key2, now2);
    search::lemma_first_index_meaning(groups, registry::absorber(window1, key1, now1));
    let k = search::first_index(groups, registry::absorber(window1, key1, now1))->0;
    let i = choose|i: int|
        0 <= i < groups.len() && (#[trigger] groups[i]).absorbs(window2, key2, now2);
    assert(after[i].absorbs(window2, key2, now2)) by {
        if i == k {
            assert(after[k] == groups[k].joined_by(window1, id1));
            assert forall|j: int| 0 <= j < after[k].members.len() implies (
            #[trigger] after[k].members[j]).0 != window2 by {
                if j < groups[k].members.len() {
                    assert(after[k].members[j] == groups[k].members[j]);
                }
            }
        }
    }
}

/// A message whose text no remembered message has is delivered.
pub proof fn law_different_message_is_delivered(
    groups: Seq<GroupModel>,
    window: Seq<char>,
    id: Seq<char>,
    key: Seq<char>,
    now: nat,
)
    requires
        forall|i: int| 0 <= i < groups.len() ==> (#[trigger] groups[i]).key != key,
    ensures
        !registry::recorded(groups, window, id, key, now).1,
{
    law_suppressed_exactly_as_a_repeat(groups, window, id, key, now);
}

/// Once the repeat window of every message with its text has passed, a
/// notification is delivered.
pub proof fn law_late_repeat_is_delivered(
    groups: Seq<GroupModel>,
    window: Seq<char>,
    id: Seq<char>,
    key: Seq<char>,
    now: nat,
)
    requires
        forall|i: int|
            0 <= i < groups.len() && (#[trigger] groups[i]).key == key ==> now - groups[i].at
                >= 1_000_000_000,
    ensures
        !registry::recorded(groups, window, id, key, now).1,
{
    law_suppressed_exactly_as_a_repeat(groups, window, id, key, now);
}

/// The first notification of a message is the one that was delivered. A
/// delivered notification heads a message of its own, the newest one; a
/// suppressed one joins an older message behind those already in it, and every
/// message keeps its text, its moment and its notifications.
pub proof fn law_first_notification_is_the_delivered_one(
    groups: Seq<GroupModel>,
    window: Seq<char>,
    id: Seq<char>,
    key: Seq<char>,
    now: nat,
)
    requires
        registry::well_formed(groups),
    ensures
        ({
            let (after, suppressed) = registry::recorded(groups, window, id, key, now);
            if suppressed {
                &&& after.len() == groups.len()
                &&& forall|i: int|
                    0 <= i < groups.len() ==> {
                        &&& (#[trigger] after[i]).key == groups[i].key
                        &&& after[i].at == groups[i].at
                        &&& after[i].members[0] == groups[i].members[0]
                        &&& groups[i].members.is_prefix_of(after[i].members)
                    }
                &&& exists|i: int|
                    0 <= i < groups.len() && (#[trigger] after[i]).members.last() == (window, id)
                        && after[i].key == key
            } else {
                &&& after.last().members[0] == (window, id)
                &&& after.last().key == key
                &&& after.last().at == now
                &&& after.drop_last() == registry::make_room(groups)
            }
        }),
{
    let (after, suppressed) = registry::recorded(groups, window, id, key, now);
    let p = registry::absorber(window, key, now);
    search::lemma_first_index_meaning(groups, p);
    if suppressed {
        let k = search::first_index(groups, p)->0;
        assert forall|i: int| 0 <= i < groups.len() implies {
            &&& (#[trigger] after[i]).key == groups[i].key
            &&& after[i].at == groups[i].at
            &&& after[i].members[0] == groups[i].members[0]
            &&& groups[i].members.is_prefix_of(after[i].members)
        } by {
            assert(groups[i].well_formed());
        }
        assert(after[k].members.last() == (window, id));
        assert(groups[k].absorbs(window, key, now));
    } else {
        assert(after.drop_last() =~= registry::make_room(groups));
    }
}

// ---- The notifications of one message ----

/// Where one message alone holds a notification, asking for another window's
/// copy gives that window's notification for this message and no other, and
/// gives one whenever that window raised it.
pub proof fn law_sibling_is_of_the_same_message(
    groups: Seq<GroupModel>,
    at: int,
    window: Seq<char>,
    id: Seq<char>,
    preferred: Seq<char>,
)
    requires
        0 <= at < groups.len(),
        groups[at].has_member(window, id),
        forall|i: int|
            0 <= i < groups.len() && i != at ==> !(#[trigger] groups[i]).has_member(window, id),
        window != preferred,
    ensures
        match registry::sibling(groups, window, id, preferred) {
            Some(member) => member.0 == preferred && groups[at].has_member(member.0, member.1),
            None => !groups[at].raised_by(preferred),
        },
{
    let p = registry::holder(window, id);
    let q = registry::from_window(preferred);
    assert(search::is_first(groups, p, at)) by {
        assert forall|j: int| 0 <= j < at implies !p(#[trigger] groups[j]) by {
            assert(!groups[j].has_member(window, id));
        }
    }
    search::lemma_first_index_is(groups, p, at);
    search::lemma_first_index_meaning(groups[at].members, q);
    match search::first_index(groups[at].members, q) {
        Some(j) => {
            let member = groups[at].members[j];
            assert(member == (member.0, member.1));
        },
        None => {
            assert forall|j: int| 0 <= j < groups[at].members.len() implies (
            #[trigger] groups[at].members[j]).0 != preferred by {
                assert(!q(groups[at].members[j]));
            }
        },
    }
}

/// No notification is rerouted to the window that raised it.
pub proof fn law_no_sibling_in_the_same_window(
    groups: Seq<GroupModel>,
    window: Seq<char>,
    id: Seq<char>,
)
    ensures
        registry::sibling(groups, window, id, window) is None,
{
}

/// A window that raised no copy of a message is given none.
pub proof fn law_no_sibling_in_a_window_that_missed_the_message(
    groups: Seq<GroupModel>,
    window: Seq<char>,
    id: Seq<char>,
    preferred: Seq<char>,
)
    requires
        forall|i: int|
            0 <= i < groups.len() && (#[trigger] groups[i]).has_member(window, id)
                ==> !groups[i].raised_by(preferred),
    ensures
        registry::sibling(groups, window, id, preferred) is None,
{
    registry::lemma_sibling_is_of_preferred(groups, window, id, preferred);
    if let Some(member) = registry::sibling(groups, window, id, preferred) {
        let i = choose|i: int|
            0 <= i < groups.len() && (#[trigger] groups[i]).has_member(window, id)
                && groups[i].has_member(member.0, member.1);
        let j = choose|j: int|
            0 <= j < groups[i].members.len() && #[trigger] groups[i].members[j] == (
                member.0,
                member.1,
            );
        assert(groups[i].members[j].0 == preferred);
    }
}

/// No message holds this notification.
pub open spec fn is_new(groups: Seq<GroupModel>, window: Seq<char>, id: Seq<char>) -> bool {
    forall|i: int| 0 <= i < groups.len() ==> !(#[trigger] groups[i]).has_member(window, id)
}

/// What a delivered notification and a suppressed copy of it leave behind: one
/// message, the newest, with the two of them.
proof fn lemma_copy_joins_the_newest_message(
    groups: Seq<GroupModel>,
    window1: Seq<char>,
    id1: Seq<char>,
    now1: nat,
    window2: Seq<char>,
    id2: Seq<char>,
    now2: nat,
    key: Seq<char>,
)
    requires
        window1 != window2,
        !registry::recorded(groups, window1, id1, key, now1).1,
        !registry::recorded(registry::make_room(groups), window2, id2, key, now2).1,
        now2 - now1 < 1_000_000_000,
    ensures
        ({
            let after = registry::recorded(
                registry::recorded(groups, window1, id1, key, now1).0,
                window2,
                id2,
                key,
                now2,
            ).0;
            let room = registry::make_room(groups);
            &&& after.len() == room.len() + 1
            &&& after.drop_last() == room
            &&& after.last().members == seq![(window1, id1), (window2, id2)]
        }),
{
    let between = registry::recorded(groups, window1, id1, key, now1).0;
    let after = registry::recorded(between, window2, id2, key, now2).0;
    let room = registry::make_room(groups);
    let p = registry::absorber(window2, key, now2);
    let last = room.len() as int;
    law_suppressed_exactly_as_a_repeat(room, window2, id2, key, now2);
    assert(between[last] == registry::new_group(window1, id1, key, now1));
    assert(search::is_first(between, p, last)) by {
        assert forall|j: int| 0 <= j < last implies !p(#[trigger] between[j]) by {
            assert(between[j] == room[j]);
            assert(!room[j].absorbs(window2, key, now2));
        }
    }
    search::lemma_first_index_is(between, p, last);
    assert(after.drop_last() =~= room);
    assert(after.last().members =~= seq![(window1, id1), (window2, id2)]);
}

proof fn lemma_newest_message_holds(
    groups: Seq<GroupModel>,
    window: Seq<char>,
    id: Seq<char>,
)
    requires
        groups.len() > 0,
        is_new(groups.drop_last(), window, id),
        groups.last().has_member(window, id),
    ensures
        search::first_index(groups, registry::holder(window, id)) == Some(groups.len() - 1),
{
    let p = registry::holder(window, id);
    assert(search::is_first(groups, p, groups.len() - 1)) by {
        assert forall|j: int| 0 <= j < groups.len() - 1 implies !p(#[trigger] groups[j]) by {
            assert(groups[j] == groups.drop_last()[j]);
        }
    }
    search::lemma_first_index_is(groups, p, groups.len() - 1);
}

/// A message that is delivered to one window and suppressed in another can be
/// reached from either: from the delivered notification the other window's
/// copy, and from the copy the delivered one. The two notifications are new,
/// and no older message claims the copy first.
pub proof fn law_copies_of_a_message_find_each_other(
    groups: Seq<GroupModel>,
    window1: Seq<char>,
    id1: Seq<char>,
    now1: nat,
    window2: Seq<char>,
    id2: Seq<char>,
    now2: nat,
    key: Seq<char>,
)
    requires
        window1 != window2,
        is_new(registry::make_room(groups), window1, id1),
        is_new(registry::make_room(groups), window2, id2),
        !registry::recorded(groups, window1, id1, key, now1).1,
        !registry::recorded(registry::make_room(groups), window2, id2, key, now2).1,
        now2 - now1 < 1_000_000_000,
    ensures
        ({
            let after = registry::recorded(
                registry::recorded(groups, window1, id1, key, now1).0,
                window2,
                id2,
                key,
                now2,
            ).0;
            &&& registry::sibling(after, window1, id1, window2) == Some((window2, id2))
            &&& registry::sibling(after, window2, id2, window1) == Some((window1, id1))
        }),
{
    let after = registry::recorded(
        registry::recorded(groups, window1, id1, key, now1).0,
        window2,
        id2,
        key,
        now2,
    ).0;
    lemma_copy_joins_the_newest_message(groups, window1, id1, now1, window2, id2, now2, key);
    let members = after.last().members;
    assert(members[0] == (window1, id1));
    assert(members[1] == (window2, id2));
    lemma_newest_message_holds(after, window1, id1);
    lemma_newest_message_holds(after, window2, id2);
    search::lemma_first_index_is(members, registry::from_window(window1), 0);
    search::lemma_first_index_is(members, registry::from_window(window2), 1);
}

/// Membership outlives the repeat window: where a click on a notification is
/// rerouted to, it is rerouted to still after any later notification, at
/// whatever moment. The exceptions are a later notification that drops the
/// message because the registry is full, and one that enters the clicked
/// notification's own window and id a second time, into an older message.
pub proof fn law_routing_outlives_the_repeat_window(
    groups: Seq<GroupModel>,
    window: Seq<char>,
    id: Seq<char>,
    preferred: Seq<char>,
    later_window: Seq<char>,
    later_id: Seq<char>,
    key: Seq<char>,
    now: nat,
)
    requires
        registry::sibling(groups, window, id, preferred) is Some,
        match search::first_index(groups, registry::absorber(later_window, key, now)) {
            Some(k) => (later_window, later_id) == (window, id) ==> search::first_index(
                groups,
                registry::holder(window, id),
            )->0 < k,
            None => groups.len() >= registry::MAX_TRACKED_MESSAGES ==> !groups[0].has_member(
                window,
                id,
            ),
        },
    ensures
        registry::sibling(
            registry::recorded(groups, later_window, later_id, key, now).0,
            window,
            id,
            preferred,
        ) == registry::sibling(groups, window, id, preferred),
{
    let p = registry::holder(window, id);
    let q = registry::from_window(preferred);
    let a = registry::absorber(later_window, key, now);
    let after = registry::recorded(groups, later_window, later_id, key, now).0;
    search::lemma_first_index_meaning(groups, p);
    search::lemma_first_index_meaning(groups, a);
    let i = search::first_index(groups, p)->0;
    let members = groups[i].members;
    search::lemma_first_index_meaning(members, q);
    let j = search::first_index(members, q)->0;
    let w = choose|w: int| 0 <= w < members.len() && #[trigger] members[w] == (window, id);
    match search::first_index(groups, a) {
        Some(k) => {
            assert(after[i].members[w] == members[w]);
            assert forall|l: int| 0 <= l < i implies !p(#[trigger] after[l]) by {
                assert(!p(groups[l]));
                assert forall|m: int| 0 <= m < after[l].members.len() implies
                    #[trigger] after[l].members[m] != (window, id) by {
                    if m < groups[l].members.len() {
                        assert(after[l].members[m] == groups[l].members[m]);
                    }
                }
            }
            assert(search::is_first(after, p, i));
            search::lemma_first_index_is(after, p, i);
            assert forall|l: int| 0 <= l < j implies !q(#[trigger] after[i].members[l]) by {
                assert(after[i].members[l] == members[l]);
            }
            assert(after[i].members[j] == members[j]);
            search::lemma_first_index_is(after[i].members, q, j);
        },
        None => {
            let shift = registry::room_shift(groups);
            let n = i - shift;
            assert(0 <= n);
            assert(after[n] == groups[i]);
            assert forall|l: int| 0 <= l < n implies !p(#[trigger] after[l]) by {
                registry::lemma_make_room_position(groups, l);
                assert(after[l] == groups[l + shift]);
                assert(!p(groups[l + shift]));
            }
            assert(search::is_first(after, p, n));
            search::lemma_first_index_is(after, p, n);
        },
    }
}

// ---- Ids and identifiers ----

/// A well-formed id cannot break out of a quoted script literal or of an
/// identifier: it holds no quote, no backslash, no bar, no line break, no space
/// and no semicolon.
pub proof fn law_valid_id_is_harmless(id: Seq<char>)
    requires
        id::valid_id(id),
    ensures
        !id.contains('\''),
        !id.contains('"'),
        !id.contains('\\'),
        !id.contains('|'),
        !id.contains('\n'),
        !id.contains('\r'),
        !id.contains(' '),
        !id.contains(';'),
{
    assert forall|c: char| id.contains(c) implies id::is_id_char(c) by {
        let i = choose|i: int| 0 <= i < id.len() && id[i] == c;
        assert(id::is_id_char(id[i]));
    }
}

/// An identifier names one notification: of ids without a bar, two
/// notifications have one identifier only where they have the same window and
/// id. Closing one window's notification never withdraws another window's.
pub proof fn law_identifier_names_one_notification(
    window1: Seq<char>,
    id1: Seq<char>,
    window2: Seq<char>,
    id2: Seq<char>,
)
    requires
        !id1.contains('|'),
        !id2.contains('|'),
    ensures
        native::identifier(window1, id1) == native::identifier(window2, id2) <==> window1 == window2
            && id1 == id2,
{
    let name1 = native::identifier(window1, id1);
    let name2 = native::identifier(window2, id2);
    if name1 == name2 {
        let n1 = window1.len() as int;
        let n2 = window2.len() as int;
        assert(name1.len() == n1 + 1 + id1.len());
        assert(name2.len() == n2 + 1 + id2.len());
        assert(name1[n1] == '|' && name2[n2] == '|');
        if n1 < n2 {
            assert(id1[n2 - n1 - 1] == name1[n2]);
        }
        if n2 < n1 {
            assert(id2[n1 - n2 - 1] == name2[n1]);
        }
        assert(name1.take(n1) =~= window1);
        assert(name2.take(n2) =~= window2);
        assert(name1.skip(n1 + 1) =~= id1);
        assert(name2.skip(n2 + 1) =~= id2);
    }
}

/// Splitting the identifier of a notification with a well-formed id gives back
/// its window and its id, whatever the window's label holds.
pub proof fn law_identifier_round_trips(
    window: Seq<char>,
    id: Seq<char>,
    before: Seq<char>,
    after: Seq<char>,
)
    requires
        id::valid_id(id),
    ensures
        native::identifier(window, id).contains('|'),
        native::identifier(window, id) == native::identifier(before, after) && !after.contains('|')
            <==> before == window && after == id,
{
    law_valid_id_is_harmless(id);
    assert(native::identifier(window, id)[window.len() as int] == '|');
    if !after.contains('|') {
        law_identifier_names_one_notification(window, id, before, after);
    }
}

/// In the script for a well-formed id the only quotes are the two around the
/// id, and there is no backslash: the script is the call that it looks like.
pub proof fn law_click_script_keeps_its_shape(id: Seq<char>)
    requires
        id::valid_id(id),
    ensures
        ({
            let head = "window.__pakeNotificationClick && window.__pakeNotificationClick('"@;
            let script = head + id + "')"@;
            forall|k: int|
                0 <= k < script.len() ==> {
                    &&& (#[trigger] script[k]) == '\'' <==> k == head.len() - 1 || k == head.len()
                        + id.len()
                    &&& script[k] != '\\'
                }
        }),
{
    let head = "window.__pakeNotificationClick && window.__pakeNotificationClick('"@;
    let script = head + id + "')"@;
    reveal_strlit("window.__pakeNotificationClick && window.__pakeNotificationClick('");
    reveal_strlit("')");
    assert forall|k: int| 0 <= k < script.len() implies {
        &&& (#[trigger] script[k]) == '\'' <==> k == head.len() - 1 || k == head.len() + id.len()
        &&& script[k] != '\\'
    } by {
        if k >= head.len() && k < head.len() + id.len() {
            assert(id::is_id_char(id[k - head.len()]));
        }
    }
}

// ---- Sending ----

/// All ids of the registry are well-formed.
pub open spec fn ids_valid(groups: Seq<GroupModel>) -> bool {
    forall|i: int, j: int|
        0 <= i < groups.len() && 0 <= j < groups[i].members.len() ==> id::valid_id(
            (#[trigger] groups[i].members[j]).1,
        )
}

/// Sending keeps every id of the registry well-formed, whatever the page asks
/// for.
pub proof fn law_registry_holds_valid_ids(
    before: Seq<GroupModel>,
    after: Seq<GroupModel>,
    window: Seq<char>,
    params: send::NotificationParams,
    now: nat,
    result: Result<send::SendStep, String>,
)
    requires
        ids_valid(before),
        send::sends(before, after, window, params, now, result),
    ensures
        ids_valid(after),
{
    let key = registry::message_key(params.title@, params.body@);
    let p = registry::absorber(window, key, now);
    search::lemma_first_index_meaning(before, p);
    if id::valid_id(params.id@) {
        match search::first_index(before, p) {
            Some(k) => {
                assert forall|i: int, j: int|
                    0 <= i < after.len() && 0 <= j < after[i].members.len() implies id::valid_id(
                    (#[trigger] after[i].members[j]).1,
                ) by {
                    if j < before[i].members.len() {
                        assert(after[i].members[j] == before[i].members[j]);
                    }
                }
            },
            None => {
                let room = registry::make_room(before);
                assert forall|i: int, j: int|
                    0 <= i < after.len() && 0 <= j < after[i].members.len() implies id::valid_id(
                    (#[trigger] after[i].members[j]).1,
                ) by {
                    if i < room.len() {
                        registry::lemma_make_room_position(before, i);
                        let k = i + registry::room_shift(before);
                        assert(after[i] == before[k]);
                        assert(id::valid_id(before[k].members[j].1));
                    }
                }
            },
        }
    }
}

/// What the page is told at the end of a run of steps in which the native
/// center took the notification, or did not and the plugin showed it.
pub open spec fn told(step: send::SendStep, delivered: bool) -> send::NotificationOutcome {
    match step {
        send::SendStep::Done(outcome) => outcome,
        send::SendStep::TryNative => match send::step_after_native(delivered) {
            send::SendStep::Done(outcome) => outcome,
            _ => send::plugin_outcome(),
        },
        send::SendStep::ShowPlugin => send::plugin_outcome(),
    }
}

/// The page is told that its notification was suppressed exactly where another
/// window already raised the message, and is promised a native click exactly
/// where the notification was not suppressed and the native center has it.
pub proof fn law_page_is_told_what_happened(
    before: Seq<GroupModel>,
    after: Seq<GroupModel>,
    window: Seq<char>,
    params: send::NotificationParams,
    now: nat,
    step: send::SendStep,
    delivered: bool,
)
    requires
        send::sends(before, after, window, params, now, Ok(step)),
    ensures
        ({
            let repeat = registry::recorded(
                before,
                window,
                params.id@,
                registry::message_key(params.title@, params.body@),
                now,
            ).1;
            &&& told(step, delivered).suppressed == repeat
            &&& told(step, delivered).native_click == (!repeat && delivered)
        }),
{
}

// ---- Routing a click ----

/// A click only ever brings a window forward that is open.
pub proof fn law_click_target_is_open(
    groups: Seq<GroupModel>,
    window: Seq<char>,
    id: Seq<char>,
    visible: Option<Seq<char>>,
    open: Seq<String>,
)
    ensures
        click::click_route(groups, window, id, visible, open) matches Some(target)
            ==> click::is_open(open, target.0),
{
    if let Some(front) = visible {
        registry::lemma_sibling_is_of_preferred(groups, window, id, front);
    }
}

/// While the user looks at an open window, a click never pulls another window
/// over it.
pub proof fn law_click_never_covers_the_visible_window(
    groups: Seq<GroupModel>,
    window: Seq<char>,
    id: Seq<char>,
    front: Seq<char>,
    open: Seq<String>,
)
    requires
        click::is_open(open, front),
    ensures
        click::click_route(groups, window, id, Some(front), open) matches Some(target) ==> target.0
            == front,
{
    registry::lemma_sibling_is_of_preferred(groups, window, id, front);
}

/// Where no other window is in front, or the one in front is gone, a click
/// stays with the window that raised the notification, if that is open.
pub proof fn law_click_stays_with_its_window(
    groups: Seq<GroupModel>,
    window: Seq<char>,
    id: Seq<char>,
    visible: Option<Seq<char>>,
    open: Seq<String>,
)
    requires
        visible matches Some(front) ==> front == window || !click::is_open(open, front),
    ensures
        click::click_route(groups, window, id, visible, open) == (if click::is_open(open, window) {
            Some((window, id))
        } else {
            None
        }),
{
}

/// A click hands a window a notification of its own: the clicked one, or that
/// window's copy of the same message.
pub proof fn law_click_reaches_the_message(
    groups: Seq<GroupModel>,
    window: Seq<char>,
    id: Seq<char>,
    visible: Option<Seq<char>>,
    open: Seq<String>,
)
    ensures
        click::click_route(groups, window, id, visible, open) matches Some(target) ==> {
            ||| target == (window, id)
            ||| exists|i: int|
                0 <= i < groups.len() && (#[trigger] groups[i]).has_member(window, id)
                    && groups[i].has_member(target.0, target.1)
        },
{
    if let Some(front) = visible {
        registry::lemma_sibling_is_of_preferred(groups, window, id, front);
    }
}

/// A click on a notification with a well-formed id hands over a well-formed id.
pub proof fn law_click_hands_over_a_valid_id(
    groups: Seq<GroupModel>,
    window: Seq<char>,
    id: Seq<char>,
    visible: Option<Seq<char>>,
    open: Seq<String>,
)
    requires
        ids_valid(groups),
        id::valid_id(id),
    ensures
        click::click_route(groups, window, id, visible, open) matches Some(target) ==> id::valid_id(
            target.1,
        ),
{
    law_click_reaches_the_message(groups, window, id, visible, open);
    if let Some(target) = click::click_route(groups, window, id, visible, open) {
        if target != (window, id) {
            let i = choose|i: int|
                0 <= i < groups.len() && (#[trigger] groups[i]).has_member(window, id)
                    && groups[i].has_member(target.0, target.1);
            let j = choose|j: int|
                0 <= j < groups[i].members.len() && #[trigger] groups[i].members[j] == (
                    target.0,
                    target.1,
                );
            assert(id::valid_id(groups[i].members[j].1));
        }
    }
}

/// A message is delivered to one window and suppressed in another. Clicking the
/// banner while the other window is in front brings that window its own copy.
pub proof fn law_click_follows_the_user(
    groups: Seq<GroupModel>,
    window1: Seq<char>,
    id1: Seq<char>,
    now1: nat,
    window2: Seq<char>,
    id2: Seq<char>,
    now2: nat,
    key: Seq<char>,
    open: Seq<String>,
)
    requires
        window1 != window2,
        is_new(registry::make_room(groups), window1, id1),
        is_new(registry::make_room(groups), window2, id2),
        !registry::recorded(groups, window1, id1, key, now1).1,
        !registry::recorded(registry::make_room(groups), window2, id2, key, now2).1,
        now2 - now1 < 1_000_000_000,
        click::is_open(open, window2),
    ensures
        ({
            let after = registry::recorded(
                registry::recorded(groups, window1, id1, key, now1).0,
                window2,
                id2,
                key,
                now2,
            ).0;
            click::click_route(after, window1, id1, Some(window2), open) == Some((window2, id2))
        }),
{
    law_copies_of_a_message_find_each_other(groups, window1, id1, now1, window2, id2, now2, key);
}

/// Where one window alone has the selected tab's handle, that window is the
/// one the user looks at, in whatever order the windows are listed, and wherever
/// in the list the window that raised the notification stands.
pub proof fn law_selected_tab_is_preferred(
    windows: Seq<click::WindowState>,
    origin: Seq<char>,
    from: int,
    native: usize,
    at: int,
)
    requires
        0 <= from < windows.len(),
        windows[from].label@ == origin,
        windows[from].native is Some,
        forall|i: int| 0 <= i < from ==> (#[trigger] windows[i]).label@ != origin,
        0 <= at < windows.len(),
        windows[at].native == Some(native),
        forall|i: int|
            0 <= i < windows.len() && i != at ==> (#[trigger] windows[i]).native != Some(native),
    ensures
        click::click_target(true, windows, origin, Some(native)) == Some(windows[at].label@),
{
    search::lemma_first_index_is(windows, click::labelled(origin), from);
    search::lemma_first_index_is(windows, click::handled_by(native), at);
}

/// Outside a tab group, where one window alone holds focus, that window is the
/// one the user looks at, in whatever order the windows are listed.
pub proof fn law_focused_window_is_preferred(
    windows: Seq<click::WindowState>,
    origin: Seq<char>,
    from: int,
    at: int,
)
    requires
        0 <= from < windows.len(),
        windows[from].label@ == origin,
        windows[from].native is Some,
        forall|i: int| 0 <= i < from ==> (#[trigger] windows[i]).label@ != origin,
        0 <= at < windows.len(),
        windows[at].focused == Some(true),
        forall|i: int|
            0 <= i < windows.len() && i != at ==> (#[trigger] windows[i]).focused != Some(true),
    ensures
        click::click_target(true, windows, origin, None) == Some(windows[at].label@),
{
    search::lemma_first_index_is(windows, click::labelled(origin), from);
    search::lemma_first_index_is(windows, click::focused(), at);
}

} // verus!
