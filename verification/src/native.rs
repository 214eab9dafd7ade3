//! The native notification center, which knows a notification by one
//! identifier made of its window and its id.

use crate::send::NotificationParams;
use crate::text::{join_three, same_text, split_last};
use vstd::prelude::*;
use vstd::string::*;

verus! {

/// The identifier of notification `id` of `window`.
pub open spec fn identifier(window: Seq<char>, id: Seq<char>) -> Seq<char> {
    window.push('|') + id
}

/// What is handed to the native center.
pub struct NativeNotification {
    pub identifier: String,
    pub title: String,
    pub body: String,
}

/// The identifier under which the native center knows a notification.
pub fn notification_identifier(window_label: &str, id: &str) -> (name: String)
    ensures
        name@ == identifier(window_label@, id@),
{
    proof {
        reveal_strlit("|");
    }
    assert(window_label@ + "|"@ =~= window_label@.push('|'));
    join_three(window_label, "|", id)
}

/// The window and the notification that an identifier names, or nothing where
/// it is not of the form that this crate gives out. The last bar parts the
/// two, because a popup window's label comes from the page and may itself hold
/// a bar, while an id never can.
pub fn split_identifier(name: &str) -> (parts: Option<(String, String)>)
    ensures
        parts is Some <==> name@.contains('|'),
        parts matches Some((window_label, id)) ==> name@ == identifier(window_label@, id@)
            && !id@.contains('|'),
{
    split_last(name, '|')
}

/// What to hand to the native center for a notification of `window_label`, or
/// nothing where the center is not there and the plugin has to show it.
pub fn deliver(
    ready: bool,
    window_label: &str,
    params: &NotificationParams,
) -> (handed: Option<NativeNotification>)
    ensures
        handed is Some <==> ready,
        handed matches Some(notification) ==> {
            &&& notification.identifier@ == identifier(window_label@, params.id@)
            &&& notification.title@ == params.title@
            &&& notification.body@ == params.body@
        },
{
    if !ready {
        return None;
    }
    Some(
        NativeNotification {
            identifier: notification_identifier(window_label, params.id.as_str()),
            title: params.title.clone(),
            body: params.body.clone(),
        },
    )
}

/// Whether the native center has the notification, after the attempt to hand
/// it over, where there was anything to hand over.
pub fn delivered(attempt: Option<Result<(), String>>) -> (result: Result<bool, String>)
    ensures
        match attempt {
            None => result == Ok::<bool, String>(false),
            Some(Ok(_)) => result == Ok::<bool, String>(true),
            Some(Err(error)) => result matches Err(message) && message@
                == "Failed to dispatch notification: "@ + error@,
        },
{
    match attempt {
        None => Ok(false),
        Some(Ok(())) => Ok(true),
        Some(Err(error)) => {
            let mut message = "Failed to dispatch notification: ".to_owned();
            message.append(error.as_str());
            Err(message)
        },
    }
}

/// The identifier under which a notification is to be withdrawn, or nothing
/// where the center is not there.
pub fn remove(ready: bool, window_label: &str, id: &str) -> (name: Option<String>)
    ensures
        name is Some <==> ready,
        name matches Some(name) ==> name@ == identifier(window_label@, id@),
{
    if ready {
        Some(notification_identifier(window_label, id))
    } else {
        None
    }
}

/// The answer to a close, after the attempt to have the center withdraw the
/// notification, where there was anything to withdraw.
pub fn removed(attempt: Option<Result<(), String>>) -> (result: Result<(), String>)
    ensures
        match attempt {
            None => result is Ok,
            Some(Ok(_)) => result is Ok,
            Some(Err(error)) => result matches Err(message) && message@
                == "Failed to dispatch notification removal: "@ + error@,
        },
{
    match attempt {
        None => Ok(()),
        Some(Ok(())) => Ok(()),
        Some(Err(error)) => {
            let mut message = "Failed to dispatch notification removal: ".to_owned();
            message.append(error.as_str());
            Err(message)
        },
    }
}

/// Whether a delivered notification, by its identifier where it has one, is
/// the one named `name`.
pub open spec fn is_named(current: Option<String>, name: Seq<char>) -> bool {
    current matches Some(text) && text@ == name
}

/// The places, in order, of the delivered notifications that are named `name`.
/// Matching by identifier keeps one window's close from clearing another
/// window's copy.
pub fn withdrawals(delivered: &Vec<Option<String>>, name: &str) -> (places: Vec<usize>)
    ensures
        forall|k: int|
            0 <= k < places@.len() ==> (#[trigger] places@[k]) < delivered@.len() && is_named(
                delivered@[places@[k] as int],
                name@,
            ),
        forall|k: int, l: int|
            0 <= k < l < places@.len() ==> (#[trigger] places@[k]) < (#[trigger] places@[l]),
        forall|i: usize|
            i < delivered@.len() && is_named(#[trigger] delivered@[i as int], name@)
                ==> places@.contains(i),
        forall|i: usize| #[trigger]
            places@.contains(i) <==> i < delivered@.len() && (delivered@[i as int] matches Some(
                text,
            ) && text@ == name@),
{
    let mut places: Vec<usize> = Vec::new();
    let mut i: usize = 0;
    while i < delivered.len()
        invariant
            i <= delivered@.len(),
            forall|k: int|
                0 <= k < places@.len() ==> (#[trigger] places@[k]) < i && is_named(
                    delivered@[places@[k] as int],
                    name@,
                ),
            forall|k: int, l: int|
                0 <= k < l < places@.len() ==> (#[trigger] places@[k]) < (#[trigger] places@[l]),
            forall|j: usize|
                j < i && is_named(#[trigger] delivered@[j as int], name@) ==> places@.contains(j),
        decreases delivered@.len() - i,
    {
        let matches: bool = match &delivered[i] {
            Some(current) => same_text(current.as_str(), name),
            None => false,
        };
        let ghost before = places@;
        if matches {
            places.push(i);
            proof {
                assert(places@[before.len() as int] == i);
                assert forall|j: usize| before.contains(j) implies places@.contains(j) by {
                    let k = choose|k: int| 0 <= k < before.len() && before[k] == j;
                    assert(places@[k] == j);
                }
            }
        }
        i += 1;
    }
    assert forall|i: usize| #[trigger]
        places@.contains(i) <==> i < delivered@.len() && (delivered@[i as int] matches Some(text)
            && text@ == name@) by {
        if i < delivered@.len() && is_named(delivered@[i as int], name@) {
            assert(places@.contains(i));
        }
        if places@.contains(i) {
            let k = choose|k: int| 0 <= k < places@.len() && places@[k] == i;
            assert(is_named(delivered@[places@[k] as int], name@));
        }
    }
    places
}

} // verus!
