//! The messages that were raised, and the windows that raised each of them.

use crate::search;
use crate::text::{join_three, same_text};
use crate::time;
use crate::time::{Clock, Timestamp};
use vstd::prelude::*;
use vstd::string::*;

verus! {

/// How long, in nanoseconds, the same message coming from a different window
/// counts as a repeat. Windows are driven by the same server event, so they
/// fire near-simultaneously; this only needs to absorb ordinary scheduling
/// jitter, and staying tight keeps a genuinely repeated message from being
/// swallowed.
pub const DEDUPE_WINDOW: u128 = 1_000_000_000;

/// How many messages are remembered.
pub const MAX_TRACKED_MESSAGES: usize = 64;

/// A window's label and the id of the notification that it raised.
pub type Member = (Seq<char>, Seq<char>);

/// A message as the contracts see it.
pub struct GroupModel {
    pub key: Seq<char>,
    pub at: nat,
    pub members: Seq<Member>,
}

impl GroupModel {
    /// Whether `window` raised a notification for the message.
    pub open spec fn raised_by(self, window: Seq<char>) -> bool {
        exists|i: int| 0 <= i < self.members.len() && (#[trigger] self.members[i]).0 == window
    }

    /// Whether `window` raised notification `id` for the message.
    pub open spec fn has_member(self, window: Seq<char>, id: Seq<char>) -> bool {
        exists|i: int| 0 <= i < self.members.len() && #[trigger] self.members[i] == (window, id)
    }

    /// Whether a notification with `key`, raised by `window` at `now`, is a
    /// repeat of the message: the same text, within the repeat window, from a
    /// window that has not raised it yet.
    pub open spec fn absorbs(self, window: Seq<char>, key: Seq<char>, now: nat) -> bool {
        &&& self.key == key
        &&& time::elapsed(now, self.at) < DEDUPE_WINDOW
        &&& !self.raised_by(window)
    }

    /// The message with one more notification.
    pub open spec fn joined_by(self, window: Seq<char>, id: Seq<char>) -> GroupModel {
        GroupModel { members: self.members.push((window, id)), ..self }
    }

    /// No message is without a notification, and no window is in it twice.
    pub open spec fn well_formed(self) -> bool {
        &&& self.members.len() > 0
        &&& forall|i: int, j: int|
            0 <= i < j < self.members.len() ==> (#[trigger] self.members[i]).0 != (
            #[trigger] self.members[j]).0
    }
}

/// The invariant of a registry: a bounded number of well-formed messages.
pub open spec fn well_formed(groups: Seq<GroupModel>) -> bool {
    &&& groups.len() <= MAX_TRACKED_MESSAGES
    &&& forall|i: int| 0 <= i < groups.len() ==> (#[trigger] groups[i]).well_formed()
}

/// The messages that absorb such a notification.
pub open spec fn absorber(window: Seq<char>, key: Seq<char>, now: nat) -> spec_fn(
    GroupModel,
) -> bool {
    |group: GroupModel| group.absorbs(window, key, now)
}

/// The messages for which `window` raised notification `id`.
pub open spec fn holder(window: Seq<char>, id: Seq<char>) -> spec_fn(GroupModel) -> bool {
    |group: GroupModel| group.has_member(window, id)
}

/// The notifications that `window` raised.
pub open spec fn from_window(window: Seq<char>) -> spec_fn(Member) -> bool {
    |member: Member| member.0 == window
}

/// The registry without its oldest message, where it is full.
pub open spec fn make_room(groups: Seq<GroupModel>) -> Seq<GroupModel> {
    if groups.len() >= MAX_TRACKED_MESSAGES {
        groups.drop_first()
    } else {
        groups
    }
}

/// By how many places the messages move up when room is made.
pub open spec fn room_shift(groups: Seq<GroupModel>) -> int {
    if groups.len() >= MAX_TRACKED_MESSAGES {
        1
    } else {
        0
    }
}

/// A message that `window` is the first to raise.
pub open spec fn new_group(
    window: Seq<char>,
    id: Seq<char>,
    key: Seq<char>,
    now: nat,
) -> GroupModel {
    GroupModel { key, at: now, members: seq![(window, id)] }
}

/// The registry after a notification, and whether the notification is
/// suppressed. The first message that absorbs it takes it in; where none does
/// it starts a message of its own.
pub open spec fn recorded(
    groups: Seq<GroupModel>,
    window: Seq<char>,
    id: Seq<char>,
    key: Seq<char>,
    now: nat,
) -> (Seq<GroupModel>, bool) {
    match search::first_index(groups, absorber(window, key, now)) {
        Some(i) => (groups.update(i, groups[i].joined_by(window, id)), true),
        None => (make_room(groups).push(new_group(window, id, key, now)), false),
    }
}

/// The notification that `preferred` raised for the message for which `window`
/// raised notification `id`.
pub open spec fn sibling(
    groups: Seq<GroupModel>,
    window: Seq<char>,
    id: Seq<char>,
    preferred: Seq<char>,
) -> Option<Member> {
    if window == preferred {
        None
    } else {
        match search::first_index(groups, holder(window, id)) {
            Some(i) => match search::first_index(groups[i].members, from_window(preferred)) {
                Some(j) => Some(groups[i].members[j]),
                None => None,
            },
            None => None,
        }
    }
}

/// The text by which two notifications are the same message.
pub open spec fn message_key(title: Seq<char>, body: Seq<char>) -> Seq<char> {
    title + seq!['\u{1f}'] + body
}

/// One incoming message, and the notification each window raised for it.
struct MessageGroup {
    key: String,
    /// When the message was first seen, for the repeat window only. Membership
    /// itself outlives that: a click can land minutes after delivery.
    at: Timestamp,
    /// Window label and notification id, in arrival order. The first entry is
    /// the notification that was actually delivered; the rest were suppressed.
    members: Vec<(String, String)>,
}

impl MessageGroup {
    closed spec fn model(self) -> GroupModel {
        GroupModel {
            key: self.key@,
            at: self.at@,
            members: self.members@.map_values(|m: (String, String)| (m.0@, m.1@)),
        }
    }

    /// Whether `window_label` raised a notification for the message.
    fn is_raised_by(&self, window_label: &str) -> (raised: bool)
        ensures
            raised == self.model().raised_by(window_label@),
    {
        let mut i: usize = 0;
        while i < self.members.len()
            invariant
                i <= self.members@.len(),
                forall|j: int|
                    0 <= j < i ==> (#[trigger] self.model().members[j]).0 != window_label@,
            decreases self.members@.len() - i,
        {
            if same_text(self.members[i].0.as_str(), window_label) {
                assert(self.model().members[i as int].0 == window_label@);
                return true;
            }
            i += 1;
        }
        false
    }

    /// Whether `window_label` raised notification `id` for the message.
    fn holds(&self, window_label: &str, id: &str) -> (held: bool)
        ensures
            held == self.model().has_member(window_label@, id@),
    {
        let mut i: usize = 0;
        while i < self.members.len()
            invariant
                i <= self.members@.len(),
                forall|j: int|
                    0 <= j < i ==> #[trigger] self.model().members[j] != (window_label@, id@),
            decreases self.members@.len() - i,
        {
            let member = &self.members[i];
            if same_text(member.0.as_str(), window_label) && same_text(member.1.as_str(), id) {
                assert(self.model().members[i as int] == (window_label@, id@));
                return true;
            }
            i += 1;
        }
        false
    }

    /// The first notification that `window_label` raised for the message.
    fn notification_of(&self, window_label: &str) -> (found: Option<(String, String)>)
        ensures
            match search::first_index(self.model().members, from_window(window_label@)) {
                Some(i) => found matches Some(m) && (m.0@, m.1@) == self.model().members[i],
                None => found is None,
            },
    {
        let ghost members = self.model().members;
        let mut i: usize = 0;
        while i < self.members.len()
            invariant
                i <= self.members@.len(),
                members == self.model().members,
                forall|j: int| 0 <= j < i ==> (#[trigger] members[j]).0 != window_label@,
            decreases self.members@.len() - i,
        {
            let member = &self.members[i];
            if same_text(member.0.as_str(), window_label) {
                proof {
                    assert(members[i as int] == (member.0@, member.1@));
                    search::lemma_first_index_is(members, from_window(window_label@), i as int);
                }
                return Some((member.0.clone(), member.1.clone()));
            }
            i += 1;
        }
        proof {
            search::lemma_first_index_none(members, from_window(window_label@));
        }
        None
    }
}

/// Collapses the copies of one message that several windows produce, and
/// remembers them so a click can be routed to a window of our choosing.
///
/// Every window runs its own instance of the site, so a single incoming
/// message raises one notification per window, all identical and all competing
/// for the same click. Only a *different* window repeating the same title and
/// body counts as a duplicate, so a site legitimately repeating a message
/// within one window still gets every notification.
pub struct MessageRegistry {
    groups: Vec<MessageGroup>,
}

impl View for MessageRegistry {
    type V = Seq<GroupModel>;

    closed spec fn view(&self) -> Seq<GroupModel> {
        self.groups@.map_values(|group: MessageGroup| group.model())
    }
}

impl Default for MessageRegistry {
    /// A registry that remembers nothing.
    fn default() -> (registry: Self)
        ensures
            registry@ == Seq::<GroupModel>::empty(),
            well_formed(registry@),
    {
        let registry = MessageRegistry { groups: Vec::new() };
        assert(registry@ =~= Seq::<GroupModel>::empty());
        registry
    }
}

impl MessageRegistry {
    /// Records a notification and reports whether it should be suppressed
    /// because another window already raised the same message.
    pub fn record(
        &mut self,
        window_label: &str,
        id: &str,
        key: String,
        now: Timestamp,
    ) -> (suppressed: bool)
        ensures
            (final(self)@, suppressed) == recorded(old(self)@, window_label@, id@, key@, now@),
            well_formed(old(self)@) ==> well_formed(final(self)@),
    {
        let ghost groups = self@;
        let ghost p = absorber(window_label@, key@, now@);
        let member = (window_label.to_owned(), id.to_owned());
        proof {
            if well_formed(groups) {
                lemma_recorded_keeps_invariant(groups, window_label@, id@, key@, now@);
            }
        }
        let mut i: usize = 0;
        while i < self.groups.len()
            invariant
                i <= self.groups@.len(),
                groups == self@,
                self == old(self),
                p == absorber(window_label@, key@, now@),
                member.0@ == window_label@,
                member.1@ == id@,
                forall|j: int| 0 <= j < i ==> !p(#[trigger] groups[j]),
                well_formed(groups) ==> well_formed(
                    recorded(groups, window_label@, id@, key@, now@).0,
                ),
            decreases self.groups@.len() - i,
        {
            assert(groups[i as int] == self.groups@[i as int].model());
            if self.groups[i].key == key && now.duration_since(self.groups[i].at) < DEDUPE_WINDOW
                && !self.groups[i].is_raised_by(window_label) {
                proof {
                    search::lemma_first_index_is(groups, p, i as int);
                }
                self.groups[i].members.push(member);
                proof {
                    assert(self.groups@[i as int].model().members =~= groups[i as int].members.push(
                        (window_label@, id@),
                    ));
                    assert(self@ =~= recorded(groups, window_label@, id@, key@, now@).0);
                }
                return true;
            }
            i += 1;
        }
        proof {
            search::lemma_first_index_none(groups, p);
        }
        if self.groups.len() >= MAX_TRACKED_MESSAGES {
            self.groups.remove(0);
        }
        assert(self@ =~= make_room(groups));
        let mut members: Vec<(String, String)> = Vec::new();
        members.push(member);
        let group = MessageGroup { key, at: now, members };
        assert(group.model().members =~= seq![(window_label@, id@)]);
        self.groups.push(group);
        assert(self@ =~= recorded(groups, window_label@, id@, key@, now@).0);
        false
    }

    /// The notification `preferred_label` raised for the same message.
    ///
    /// `None` when that window never raised it: it may have been opened after
    /// the message arrived, or still be loading.
    pub fn sibling_in(
        &self,
        window_label: &str,
        id: &str,
        preferred_label: &str,
    ) -> (found: Option<(String, String)>)
        ensures
            match sibling(self@, window_label@, id@, preferred_label@) {
                Some(member) => found matches Some(m) && (m.0@, m.1@) == member,
                None => found is None,
            },
    {
        if same_text(window_label, preferred_label) {
            return None;
        }
        let ghost groups = self@;
        let ghost p = holder(window_label@, id@);
        let mut i: usize = 0;
        while i < self.groups.len()
            invariant
                i <= self.groups@.len(),
                groups == self@,
                window_label@ != preferred_label@,
                p == holder(window_label@, id@),
                forall|j: int| 0 <= j < i ==> !p(#[trigger] groups[j]),
            decreases self.groups@.len() - i,
        {
            assert(groups[i as int] == self.groups@[i as int].model());
            if self.groups[i].holds(window_label, id) {
                proof {
                    search::lemma_first_index_is(groups, p, i as int);
                }
                return self.groups[i].notification_of(preferred_label);
            }
            i += 1;
        }
        proof {
            search::lemma_first_index_none(groups, p);
        }
        None
    }
}

/// Where a message stood before room was made.
pub proof fn lemma_make_room_position(groups: Seq<GroupModel>, i: int)
    requires
        0 <= i < make_room(groups).len(),
    ensures
        0 <= i + room_shift(groups) < groups.len(),
        make_room(groups)[i] == groups[i + room_shift(groups)],
{
}

/// Recording keeps the registry's invariant.
pub proof fn lemma_recorded_keeps_invariant(
    groups: Seq<GroupModel>,
    window: Seq<char>,
    id: Seq<char>,
    key: Seq<char>,
    now: nat,
)
    requires
        well_formed(groups),
    ensures
        well_formed(recorded(groups, window, id, key, now).0),
{
    let p = absorber(window, key, now);
    search::lemma_first_index_meaning(groups, p);
    let after = recorded(groups, window, id, key, now).0;
    match search::first_index(groups, p) {
        Some(i) => {
            let group = groups[i];
            assert(group.absorbs(window, key, now));
            assert(group.joined_by(window, id).well_formed());
        },
        None => {},
    }
}

/// A sibling is a notification of the preferred window, which is another window
/// than the one asked about, and both were raised for one message.
pub proof fn lemma_sibling_is_of_preferred(
    groups: Seq<GroupModel>,
    window: Seq<char>,
    id: Seq<char>,
    preferred: Seq<char>,
)
    ensures
        sibling(groups, window, id, preferred) matches Some(member) ==> {
            &&& member.0 == preferred
            &&& preferred != window
            &&& exists|i: int|
                0 <= i < groups.len() && (#[trigger] groups[i]).has_member(window, id)
                    && groups[i].has_member(member.0, member.1)
        },
{
    search::lemma_first_index_meaning(groups, holder(window, id));
    if let Some(i) = search::first_index(groups, holder(window, id)) {
        search::lemma_first_index_meaning(groups[i].members, from_window(preferred));
        if let Some(j) = search::first_index(groups[i].members, from_window(preferred)) {
            let member = groups[i].members[j];
            assert(groups[i].has_member(member.0, member.1));
        }
    }
}

/// The text by which a notification is recognised as a repeat. The unit
/// separator keeps a title ending in the body's prefix from colliding.
pub fn dedupe_key(title: &str, body: &str) -> (key: String)
    ensures
        key@ == message_key(title@, body@),
        key@ == title@ + seq!['\u{1f}'] + body@,
{
    proof {
        reveal_strlit("\u{1f}");
    }
    assert("\u{1f}"@ =~= seq!['\u{1f}']);
    join_three(title, "\u{1f}", body)
}

/// Records a notification that was raised at `now` and reports whether another
/// window already raised the same message.
pub fn is_cross_window_repeat_at(
    registry: &mut MessageRegistry,
    window_label: &str,
    id: &str,
    title: &str,
    body: &str,
    now: Timestamp,
) -> (repeat: bool)
    ensures
        (final(registry)@, repeat) == recorded(
            old(registry)@,
            window_label@,
            id@,
            message_key(title@, body@),
            now@,
        ),
        well_formed(old(registry)@) ==> well_formed(final(registry)@),
{
    let key = dedupe_key(title, body);
    registry.record(window_label, id, key, now)
}

/// Records a notification that is raised now and reports whether another
/// window already raised the same message. It is dated by the reading that
/// `clock` gives during the call; what that reads is left open.
pub fn is_cross_window_repeat(
    registry: &mut MessageRegistry,
    clock: &Clock,
    window_label: &str,
    id: &str,
    title: &str,
    body: &str,
) -> (repeat: bool)
    ensures
        exists|now: Timestamp| #[trigger]
            call_ensures(Clock::now, (clock,), now) && (final(registry)@, repeat) == recorded(
                old(registry)@,
                window_label@,
                id@,
                message_key(title@, body@),
                now@,
            ),
        well_formed(old(registry)@) ==> well_formed(final(registry)@),
{
    let now = clock.now();
    is_cross_window_repeat_at(registry, window_label, id, title, body, now)
}

/// The notification `preferred_label` raised for the message for which
/// `window_label` raised notification `id`.
pub fn sibling_in(
    registry: &MessageRegistry,
    window_label: &str,
    id: &str,
    preferred_label: &str,
) -> (found: Option<(String, String)>)
    ensures
        match sibling(registry@, window_label@, id@, preferred_label@) {
            Some(member) => found matches Some(m) && (m.0@, m.1@) == member,
            None => found is None,
        },
{
    registry.sibling_in(window_label, id, preferred_label)
}

} // verus!
