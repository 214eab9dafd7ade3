//! What holds of a run of notifications, one after the other.

use crate::laws;
use crate::registry;
use crate::registry::GroupModel;
use crate::search;
use vstd::prelude::*;

verus! {

/// One notification that is recorded.
pub struct RecordCall {
    pub window: Seq<char>,
    pub id: Seq<char>,
    pub key: Seq<char>,
    pub now: nat,
}

/// The registry after a notification, and whether it is suppressed.
pub open spec fn step(groups: Seq<GroupModel>, call: RecordCall) -> (Seq<GroupModel>, bool) {
    registry::recorded(groups, call.window, call.id, call.key, call.now)
}

/// The registry after these notifications, in turn.
pub open spec fn after_run(groups: Seq<GroupModel>, calls: Seq<RecordCall>) -> Seq<GroupModel>
    decreases calls.len(),
{
    if calls.len() == 0 {
        groups
    } else {
        step(after_run(groups, calls.drop_last()), calls.last()).0
    }
}

/// Whether the notification at place `n` of a run is suppressed.
pub open spec fn suppressed_at(
    groups: Seq<GroupModel>,
    calls: Seq<RecordCall>,
    n: int,
) -> bool {
    step(after_run(groups, calls.take(n)), calls[n]).1
}

/// How many messages a run drops to make room.
pub open spec fn dropped(groups: Seq<GroupModel>, calls: Seq<RecordCall>) -> nat
    decreases calls.len(),
{
    if calls.len() == 0 {
        0
    } else {
        let before = after_run(groups, calls.drop_last());
        dropped(groups, calls.drop_last()) + if !step(before, calls.last()).1 && before.len()
            >= registry::MAX_TRACKED_MESSAGES {
            1nat
        } else {
            0nat
        }
    }
}

/// A run of `n + 1` notifications is one of `n`, then the next.
proof fn lemma_run_unfolds(calls: Seq<RecordCall>, n: int)
    requires
        0 <= n < calls.len(),
    ensures
        calls.take(n + 1).len() == n + 1,
        calls.take(n + 1).drop_last() == calls.take(n),
        calls.take(n + 1).last() == calls[n],
{
    assert(calls.take(n + 1).drop_last() =~= calls.take(n));
}

// ---- A message is shown once ----

/// Where the message stands that was the newest of `start`, and what is in it:
/// its own notification and copies of it from the run.
proof fn lemma_message_stays(
    start: Seq<GroupModel>,
    first: RecordCall,
    calls: Seq<RecordCall>,
    n: int,
)
    requires
        start.len() > 0,
        start.last() == registry::new_group(first.window, first.id, first.key, first.now),
        0 <= n <= calls.len(),
        dropped(start, calls.take(n)) < start.len(),
    ensures
        ({
            let groups = after_run(start, calls.take(n));
            let at = start.len() - 1 - dropped(start, calls.take(n));
            &&& 0 <= at < groups.len()
            &&& groups[at].key == first.key
            &&& groups[at].at == first.now
            &&& forall|m: int|
                0 <= m < groups[at].members.len() ==> {
                    ||| (#[trigger] groups[at].members[m]).0 == first.window
                    ||| exists|j: int|
                        0 <= j < n && (#[trigger] calls[j]).key == first.key && calls[j].window
                            == groups[at].members[m].0
                }
        }),
    decreases n,
{
    if n == 0 {
        assert(calls.take(0).len() == 0);
    } else {
        lemma_run_unfolds(calls, n - 1);
        lemma_message_stays(start, first, calls, n - 1);
        let before = after_run(start, calls.take(n - 1));
        let groups = after_run(start, calls.take(n));
        let was = start.len() - 1 - dropped(start, calls.take(n - 1));
        let at = start.len() - 1 - dropped(start, calls.take(n));
        let call = calls[n - 1];
        let p = registry::absorber(call.window, call.key, call.now);
        search::lemma_first_index_meaning(before, p);
        match search::first_index(before, p) {
            Some(k) => {
                assert forall|m: int| 0 <= m < groups[at].members.len() implies {
                    ||| (#[trigger] groups[at].members[m]).0 == first.window
                    ||| exists|j: int|
                        0 <= j < n && (#[trigger] calls[j]).key == first.key && calls[j].window
                            == groups[at].members[m].0
                } by {
                    if m < before[was].members.len() {
                        assert(groups[at].members[m] == before[was].members[m]);
                    } else {
                        assert(before[k].absorbs(call.window, call.key, call.now));
                        assert(calls[n - 1].window == groups[at].members[m].0);
                    }
                }
            },
            None => {
                registry::lemma_make_room_position(before, at);
                assert(groups[at] == before[was]);
            },
        }
    }
}

/// However many windows raise a message, it is shown once. After it was
/// delivered to one window, and as long as it is remembered, the copy that
/// another window raises within the repeat window is suppressed, whatever other
/// messages and other windows' copies came between.
pub proof fn law_message_is_shown_once(
    groups: Seq<GroupModel>,
    first: RecordCall,
    calls: Seq<RecordCall>,
    n: int,
)
    requires
        !step(groups, first).1,
        0 <= n < calls.len(),
        calls[n].key == first.key,
        calls[n].window != first.window,
        calls[n].now - first.now < 1_000_000_000,
        forall|j: int|
            0 <= j < n && (#[trigger] calls[j]).key == first.key ==> calls[j].window
                != calls[n].window,
        dropped(step(groups, first).0, calls.take(n)) < step(groups, first).0.len(),
    ensures
        suppressed_at(step(groups, first).0, calls, n),
{
    let start = step(groups, first).0;
    let before = after_run(start, calls.take(n));
    let at = start.len() - 1 - dropped(start, calls.take(n));
    let call = calls[n];
    lemma_message_stays(start, first, calls, n);
    assert(before[at].absorbs(call.window, call.key, call.now));
    laws::law_suppressed_exactly_as_a_repeat(before, call.window, call.id, call.key, call.now);
}

proof fn lemma_dropped_bound(start: Seq<GroupModel>, calls: Seq<RecordCall>)
    requires
        start.len() <= registry::MAX_TRACKED_MESSAGES,
    ensures
        ({
            let groups = after_run(start, calls);
            &&& groups.len() <= registry::MAX_TRACKED_MESSAGES
            &&& groups.len() + dropped(start, calls) <= start.len() + calls.len()
            &&& dropped(start, calls) > 0 ==> groups.len() == registry::MAX_TRACKED_MESSAGES
        }),
    decreases calls.len(),
{
    if calls.len() > 0 {
        lemma_dropped_bound(start, calls.drop_last());
        let before = after_run(start, calls.drop_last());
        let call = calls.last();
        search::lemma_first_index_meaning(
            before,
            registry::absorber(call.window, call.key, call.now),
        );
    }
}

/// A delivered message is remembered at least until as many notifications
/// followed it as the registry holds messages.
pub proof fn law_delivered_message_is_remembered(
    groups: Seq<GroupModel>,
    first: RecordCall,
    calls: Seq<RecordCall>,
)
    requires
        registry::well_formed(groups),
        !step(groups, first).1,
        calls.len() < registry::MAX_TRACKED_MESSAGES,
    ensures
        dropped(step(groups, first).0, calls) < step(groups, first).0.len(),
{
    let start = step(groups, first).0;
    registry::lemma_recorded_keeps_invariant(
        groups,
        first.window,
        first.id,
        first.key,
        first.now,
    );
    lemma_dropped_bound(start, calls);
}

// ---- What a suppressed notification repeats ----

/// Message `group` was started by the notification at place `m` of a run from
/// the empty registry, which was delivered.
pub open spec fn started_by(calls: Seq<RecordCall>, group: GroupModel, m: int) -> bool {
    &&& !suppressed_at(Seq::empty(), calls, m)
    &&& calls[m].key == group.key
    &&& calls[m].now == group.at
    &&& group.members.len() > 0
    &&& group.members[0] == (calls[m].window, calls[m].id)
}

/// One of the first `n` notifications started the message.
spec fn was_started(calls: Seq<RecordCall>, group: GroupModel, n: int) -> bool {
    exists|m: int| 0 <= m < n && #[trigger] started_by(calls, group, m)
}

proof fn lemma_messages_were_started(calls: Seq<RecordCall>, n: int)
    requires
        0 <= n <= calls.len(),
    ensures
        forall|i: int|
            0 <= i < after_run(Seq::empty(), calls.take(n)).len() ==> was_started(
                calls,
                #[trigger] after_run(Seq::empty(), calls.take(n))[i],
                n,
            ),
    decreases n,
{
    if n == 0 {
        assert(calls.take(0).len() == 0);
    } else {
        lemma_run_unfolds(calls, n - 1);
        lemma_messages_were_started(calls, n - 1);
        let before = after_run(Seq::empty(), calls.take(n - 1));
        let groups = after_run(Seq::empty(), calls.take(n));
        let call = calls[n - 1];
        let p = registry::absorber(call.window, call.key, call.now);
        search::lemma_first_index_meaning(before, p);
        assert forall|i: int| 0 <= i < groups.len() implies was_started(
            calls,
            #[trigger] groups[i],
            n,
        ) by {
            match search::first_index(before, p) {
                Some(k) => {
                    assert(was_started(calls, before[i], n - 1));
                    let m = choose|m: int|
                        0 <= m < n - 1 && #[trigger] started_by(calls, before[i], m);
                    assert(started_by(calls, groups[i], m));
                },
                None => {
                    if i < registry::make_room(before).len() {
                        registry::lemma_make_room_position(before, i);
                        let l = i + registry::room_shift(before);
                        assert(groups[i] == before[l]);
                        assert(was_started(calls, before[l], n - 1));
                        let m = choose|m: int|
                            0 <= m < n - 1 && #[trigger] started_by(calls, before[l], m);
                        assert(started_by(calls, groups[i], m));
                    } else {
                        assert(started_by(calls, groups[i], n - 1));
                    }
                },
            }
        }
    }
}

/// In a run from the empty registry, a suppressed notification repeats an
/// earlier one that was delivered: with the same text, from another window and
/// less than the repeat window before.
pub proof fn law_suppressed_repeats_a_delivered_one(calls: Seq<RecordCall>, n: int)
    requires
        0 <= n < calls.len(),
        suppressed_at(Seq::empty(), calls, n),
    ensures
        exists|m: int|
            0 <= m < n && !(#[trigger] suppressed_at(Seq::empty(), calls, m)) && calls[m].key
                == calls[n].key && calls[m].window != calls[n].window && calls[n].now
                - calls[m].now < 1_000_000_000,
{
    let groups = after_run(Seq::empty(), calls.take(n));
    let call = calls[n];
    laws::law_suppressed_exactly_as_a_repeat(groups, call.window, call.id, call.key, call.now);
    let i = choose|i: int|
        0 <= i < groups.len() && (#[trigger] groups[i]).absorbs(call.window, call.key, call.now);
    lemma_messages_were_started(calls, n);
    assert(was_started(calls, groups[i], n));
    let m = choose|m: int| 0 <= m < n && #[trigger] started_by(calls, groups[i], m);
    assert(groups[i].members[0].0 == calls[m].window);
    assert(!suppressed_at(Seq::empty(), calls, m));
}

// ---- How often a message is shown ----

/// How often `window` raises the message with this key.
pub open spec fn raised(calls: Seq<RecordCall>, key: Seq<char>, window: Seq<char>) -> nat
    decreases calls.len(),
{
    if calls.len() == 0 {
        0
    } else {
        raised(calls.drop_last(), key, window) + if calls.last().key == key && calls.last().window
            == window {
            1nat
        } else {
            0nat
        }
    }
}

/// How often a run from the empty registry delivers the message with this key.
pub open spec fn delivered(calls: Seq<RecordCall>, key: Seq<char>) -> nat
    decreases calls.len(),
{
    if calls.len() == 0 {
        0
    } else {
        delivered(calls.drop_last(), key) + if calls.last().key == key && !step(
            after_run(Seq::empty(), calls.drop_last()),
            calls.last(),
        ).1 {
            1nat
        } else {
            0nat
        }
    }
}

/// How many of the first `i` messages have this key.
spec fn rank(groups: Seq<GroupModel>, key: Seq<char>, i: int) -> nat
    decreases i,
{
    if i <= 0 {
        0
    } else {
        rank(groups, key, i - 1) + if groups[i - 1].key == key {
            1nat
        } else {
            0nat
        }
    }
}

proof fn lemma_rank_goes_by_keys(
    groups1: Seq<GroupModel>,
    groups2: Seq<GroupModel>,
    key: Seq<char>,
    i: int,
)
    requires
        forall|j: int| 0 <= j < i ==> (#[trigger] groups1[j]).key == groups2[j].key,
    ensures
        rank(groups1, key, i) == rank(groups2, key, i),
    decreases i,
{
    if i > 0 {
        lemma_rank_goes_by_keys(groups1, groups2, key, i - 1);
        assert(groups1[i - 1].key == groups2[i - 1].key);
    }
}

proof fn lemma_rank_grows(groups: Seq<GroupModel>, key: Seq<char>, i: int, j: int)
    requires
        0 <= i < j,
    ensures
        rank(groups, key, i) <= rank(groups, key, j),
        groups[i].key == key ==> rank(groups, key, i) < rank(groups, key, j),
    decreases j,
{
    if i < j - 1 {
        lemma_rank_grows(groups, key, i, j - 1);
    }
}

proof fn lemma_rank_is_taken(groups: Seq<GroupModel>, key: Seq<char>, i: int, r: int) -> (j: int)
    requires
        0 <= r < rank(groups, key, i),
    ensures
        0 <= j < i,
        groups[j].key == key,
        rank(groups, key, j) == r,
    decreases i,
{
    if groups[i - 1].key == key && rank(groups, key, i - 1) == r {
        i - 1
    } else {
        lemma_rank_is_taken(groups, key, i - 1, r)
    }
}

/// What holds after `n` notifications of a run that drops nothing: of the
/// messages with this key, a window is in as many, from the first, as often as
/// it raised it.
spec fn evenly_filled(calls: Seq<RecordCall>, key: Seq<char>, n: int) -> bool {
    let groups = after_run(Seq::empty(), calls.take(n));
    let shown = delivered(calls.take(n), key);
    &&& rank(groups, key, groups.len() as int) == shown
    &&& forall|i: int|
        0 <= i < groups.len() && (#[trigger] groups[i]).key == key ==> exists|m: int|
            0 <= m < n && (#[trigger] calls[m]).key == key && calls[m].now == groups[i].at
    &&& forall|i: int, w: Seq<char>|
        0 <= i < groups.len() && groups[i].key == key ==> (#[trigger] groups[i].raised_by(w)
            <==> rank(groups, key, i) < raised(calls.take(n), key, w))
    &&& forall|w: Seq<char>| #[trigger] raised(calls.take(n), key, w) <= shown
    &&& shown > 0 ==> exists|w: Seq<char>| #[trigger] raised(calls.take(n), key, w) == shown
}

/// A copy joins the first message that its window is not in yet, which comes
/// right behind those that it is in.
proof fn lemma_copy_fills_evenly(calls: Seq<RecordCall>, key: Seq<char>, n: int)
    requires
        0 <= n < calls.len(),
        dropped(Seq::empty(), calls.take(n + 1)) == 0,
        calls[n].key == key,
        forall|i: int, j: int|
            0 <= i < calls.len() && 0 <= j < calls.len() && calls[i].key == key && calls[j].key
                == key ==> (#[trigger] calls[i]).now - (#[trigger] calls[j]).now < 1_000_000_000,
        evenly_filled(calls, key, n),
    ensures
        evenly_filled(calls, key, n + 1),
{
    lemma_run_unfolds(calls, n);
    let call = calls[n];
    let before = after_run(Seq::empty(), calls.take(n));
    let groups = after_run(Seq::empty(), calls.take(n + 1));
    let len = before.len() as int;
    let shown = delivered(calls.take(n), key);
    let r = raised(calls.take(n), key, call.window);
    let p = registry::absorber(call.window, call.key, call.now);
    search::lemma_first_index_meaning(before, p);
    assert forall|i: int| 0 <= i < len && (#[trigger] before[i]).key == key implies (p(before[i])
        <==> rank(before, key, i) >= r) by {
        let m = choose|m: int|
            0 <= m < n && (#[trigger] calls[m]).key == key && calls[m].now == before[i].at;
        assert(calls[n].now - calls[m].now < 1_000_000_000);
        assert(before[i].raised_by(call.window) <==> rank(before, key, i) < r);
    }
    assert forall|w: Seq<char>| w != call.window implies #[trigger] raised(
        calls.take(n + 1),
        key,
        w,
    ) == raised(calls.take(n), key, w) by {}
    assert(raised(calls.take(n + 1), key, call.window) == r + 1);
    match search::first_index(before, p) {
        Some(k) => {
            assert(before[k].absorbs(call.window, call.key, call.now));
            if rank(before, key, k) > r {
                let j = lemma_rank_is_taken(before, key, k, r as int);
                assert(!p(before[j]));
            }
            assert(rank(before, key, k) == r);
            lemma_rank_grows(before, key, k, len);
            assert forall|i: int| 0 <= i <= len implies #[trigger] rank(groups, key, i) == rank(
                before,
                key,
                i,
            ) by {
                lemma_rank_goes_by_keys(groups, before, key, i);
            }
            assert(rank(groups, key, len) == shown);
            assert(delivered(calls.take(n + 1), key) == shown);
            assert forall|i: int|
                0 <= i < groups.len() && (#[trigger] groups[i]).key == key implies exists|m: int|
                0 <= m < n + 1 && (#[trigger] calls[m]).key == key && calls[m].now
                    == groups[i].at by {
                let m = choose|m: int|
                    0 <= m < n && (#[trigger] calls[m]).key == key && calls[m].now == before[i].at;
                assert(calls[m].now == groups[i].at);
            }
            assert forall|i: int, w: Seq<char>|
                0 <= i < groups.len() && groups[i].key == key implies (
            #[trigger] groups[i].raised_by(w) <==> rank(groups, key, i) < raised(
                calls.take(n + 1),
                key,
                w,
            )) by {
                assert(before[i].raised_by(w) <==> rank(before, key, i) < raised(
                    calls.take(n),
                    key,
                    w,
                ));
                assert(rank(groups, key, i) == rank(before, key, i));
                if i == k {
                    let members = before[k].members;
                    assert(groups[k].members == members.push((call.window, call.id)));
                    assert(groups[k].members[members.len() as int].0 == call.window);
                    if before[k].raised_by(w) {
                        let m = choose|m: int|
                            0 <= m < members.len() && (#[trigger] members[m]).0 == w;
                        assert(groups[k].members[m].0 == w);
                    }
                    if groups[k].raised_by(w) && w != call.window {
                        let m = choose|m: int|
                            0 <= m < groups[k].members.len() && (
                            #[trigger] groups[k].members[m]).0 == w;
                        assert(members[m].0 == w);
                    }
                } else if i < k {
                    lemma_rank_grows(before, key, i, k);
                } else {
                    lemma_rank_grows(before, key, k, i);
                }
            }
            assert forall|w: Seq<char>| #[trigger] raised(calls.take(n + 1), key, w) <= shown by {
                assert(raised(calls.take(n), key, w) <= shown);
            }
            let w = choose|w: Seq<char>| #[trigger] raised(calls.take(n), key, w) == shown;
            assert(raised(calls.take(n + 1), key, w) == shown);
        },
        None => {
            if r < shown {
                let j = lemma_rank_is_taken(before, key, len, r as int);
                assert(!p(before[j]));
            }
            assert(raised(calls.take(n), key, call.window) <= shown);
            assert(groups == before.push(
                registry::new_group(call.window, call.id, call.key, call.now),
            ));
            assert forall|i: int| 0 <= i <= len implies #[trigger] rank(groups, key, i) == rank(
                before,
                key,
                i,
            ) by {
                lemma_rank_goes_by_keys(groups, before, key, i);
            }
            assert(groups[len].key == key);
            assert(rank(groups, key, len) == shown);
            assert(rank(groups, key, len + 1) == shown + 1);
            assert(delivered(calls.take(n + 1), key) == shown + 1);
            assert forall|i: int|
                0 <= i < groups.len() && (#[trigger] groups[i]).key == key implies exists|m: int|
                0 <= m < n + 1 && (#[trigger] calls[m]).key == key && calls[m].now
                    == groups[i].at by {
                if i < len {
                    let m = choose|m: int|
                        0 <= m < n && (#[trigger] calls[m]).key == key && calls[m].now
                            == before[i].at;
                    assert(calls[m].now == groups[i].at);
                } else {
                    assert(calls[n].now == groups[i].at);
                }
            }
            assert forall|i: int, w: Seq<char>|
                0 <= i < groups.len() && groups[i].key == key implies (
            #[trigger] groups[i].raised_by(w) <==> rank(groups, key, i) < raised(
                calls.take(n + 1),
                key,
                w,
            )) by {
                assert(raised(calls.take(n), key, w) <= shown);
                if i < len {
                    assert(before[i].raised_by(w) <==> rank(before, key, i) < raised(
                        calls.take(n),
                        key,
                        w,
                    ));
                    lemma_rank_grows(before, key, i, len);
                } else {
                    assert(groups[i].members[0].0 == call.window);
                }
            }
            assert forall|w: Seq<char>| #[trigger]
                raised(calls.take(n + 1), key, w) <= shown + 1 by {
                assert(raised(calls.take(n), key, w) <= shown);
            }
            assert(raised(calls.take(n + 1), key, call.window) == shown + 1);
        },
    }
}

/// Another message leaves the messages with this key as they are.
proof fn lemma_other_message_keeps_filled(calls: Seq<RecordCall>, key: Seq<char>, n: int)
    requires
        0 <= n < calls.len(),
        dropped(Seq::empty(), calls.take(n + 1)) == 0,
        calls[n].key != key,
        evenly_filled(calls, key, n),
    ensures
        evenly_filled(calls, key, n + 1),
{
    lemma_run_unfolds(calls, n);
    let call = calls[n];
    let before = after_run(Seq::empty(), calls.take(n));
    let groups = after_run(Seq::empty(), calls.take(n + 1));
    let len = before.len() as int;
    let shown = delivered(calls.take(n), key);
    let p = registry::absorber(call.window, call.key, call.now);
    search::lemma_first_index_meaning(before, p);
    assert forall|w: Seq<char>| #[trigger] raised(calls.take(n + 1), key, w) == raised(
        calls.take(n),
        key,
        w,
    ) by {}
    assert(delivered(calls.take(n + 1), key) == shown);
    if let Some(k) = search::first_index(before, p) {
        assert(before[k].absorbs(call.window, call.key, call.now));
    }
    assert forall|i: int| 0 <= i < len implies (#[trigger] groups[i]).key == before[i].key && (
    before[i].key == key ==> groups[i] == before[i]) by {}
    assert forall|i: int| 0 <= i <= len implies #[trigger] rank(groups, key, i) == rank(
        before,
        key,
        i,
    ) by {
        lemma_rank_goes_by_keys(groups, before, key, i);
    }
    assert(rank(groups, key, groups.len() as int) == shown) by {
        assert(rank(groups, key, len) == shown);
        if groups.len() > len {
            assert(groups[len].key != key);
        }
    }
    assert forall|i: int|
        0 <= i < groups.len() && (#[trigger] groups[i]).key == key implies exists|m: int|
        0 <= m < n + 1 && (#[trigger] calls[m]).key == key && calls[m].now == groups[i].at by {
        assert(groups[i] == before[i]);
        let m = choose|m: int|
            0 <= m < n && (#[trigger] calls[m]).key == key && calls[m].now == before[i].at;
        assert(calls[m].now == groups[i].at);
    }
    assert forall|i: int, w: Seq<char>|
        0 <= i < groups.len() && groups[i].key == key implies (#[trigger] groups[i].raised_by(w)
        <==> rank(groups, key, i) < raised(calls.take(n + 1), key, w)) by {
        assert(groups[i] == before[i]);
        assert(before[i].raised_by(w) <==> rank(before, key, i) < raised(calls.take(n), key, w));
    }
    assert forall|w: Seq<char>| #[trigger] raised(calls.take(n + 1), key, w) <= shown by {
        assert(raised(calls.take(n), key, w) <= shown);
    }
    if shown > 0 {
        let w = choose|w: Seq<char>| #[trigger] raised(calls.take(n), key, w) == shown;
        assert(raised(calls.take(n + 1), key, w) == shown);
    }
}

proof fn lemma_evenly_filled(calls: Seq<RecordCall>, key: Seq<char>, n: int)
    requires
        0 <= n <= calls.len(),
        dropped(Seq::empty(), calls.take(n)) == 0,
        forall|i: int, j: int|
            0 <= i < calls.len() && 0 <= j < calls.len() && calls[i].key == key && calls[j].key
                == key ==> (#[trigger] calls[i]).now - (#[trigger] calls[j]).now < 1_000_000_000,
    ensures
        evenly_filled(calls, key, n),
    decreases n,
{
    if n == 0 {
        assert(calls.take(0).len() == 0);
    } else {
        lemma_run_unfolds(calls, n - 1);
        lemma_evenly_filled(calls, key, n - 1);
        if calls[n - 1].key == key {
            lemma_copy_fills_evenly(calls, key, n - 1);
        } else {
            lemma_other_message_keeps_filled(calls, key, n - 1);
        }
    }
}

/// A run from the empty registry with no more notifications than the registry
/// holds messages drops nothing.
pub proof fn law_short_run_drops_nothing(calls: Seq<RecordCall>)
    requires
        calls.len() <= registry::MAX_TRACKED_MESSAGES,
    ensures
        dropped(Seq::empty(), calls) == 0,
{
    lemma_dropped_bound(Seq::empty(), calls);
}

/// A message is shown as often as the busiest window raised it. In a run from
/// the empty registry that drops nothing, where all copies of the message fall
/// within the repeat window of each other, no window raised it more often than
/// it was delivered, and some window raised it that often.
pub proof fn law_message_is_shown_as_often_as_the_busiest_window_raised_it(
    calls: Seq<RecordCall>,
    key: Seq<char>,
)
    requires
        dropped(Seq::empty(), calls) == 0,
        forall|i: int, j: int|
            0 <= i < calls.len() && 0 <= j < calls.len() && calls[i].key == key && calls[j].key
                == key ==> (#[trigger] calls[i]).now - (#[trigger] calls[j]).now < 1_000_000_000,
    ensures
        forall|window: Seq<char>| #[trigger]
            raised(calls, key, window) <= delivered(calls, key),
        exists|window: Seq<char>| #[trigger] raised(calls, key, window) == delivered(calls, key),
{
    assert(calls.take(calls.len() as int) =~= calls);
    lemma_evenly_filled(calls, key, calls.len() as int);
    if delivered(calls, key) == 0 {
        assert(raised(calls, key, Seq::empty()) == 0);
    }
}

} // verus!
