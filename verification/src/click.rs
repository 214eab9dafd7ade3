//! Routing a click on a notification to a window.

use crate::registry;
use crate::registry::{sibling_in, MessageRegistry};
use crate::search;
use crate::text::same_text;
use vstd::prelude::*;
use vstd::string::*;

verus! {

/// What the desktop says of a window.
pub struct WindowState {
    pub label: String,
    /// The address of the window's native handle, where it has one.
    pub native: Option<usize>,
    /// Whether the window holds focus, where that could be asked.
    pub focused: Option<bool>,
}

/// The windows with this label.
pub open spec fn labelled(label: Seq<char>) -> spec_fn(WindowState) -> bool {
    |window: WindowState| window.label@ == label
}

/// The windows with this native handle.
pub open spec fn handled_by(native: usize) -> spec_fn(WindowState) -> bool {
    |window: WindowState| window.native == Some(native)
}

/// The windows known to hold focus.
pub open spec fn focused() -> spec_fn(WindowState) -> bool {
    |window: WindowState| window.focused == Some(true)
}

/// The label of the first of `windows` that satisfies `p`.
pub open spec fn first_label(
    windows: Seq<WindowState>,
    p: spec_fn(WindowState) -> bool,
) -> Option<Seq<char>> {
    match search::first_index(windows, p) {
        Some(i) => Some(windows[i].label@),
        None => None,
    }
}

/// The native handle of the window with this label, where there is such a
/// window and it has one.
pub open spec fn handle_of(windows: Seq<WindowState>, label: Seq<char>) -> Option<usize> {
    match search::first_index(windows, labelled(label)) {
        Some(i) => windows[i].native,
        None => None,
    }
}

/// The label of the window the user is looking at: the tab on screen where the
/// notification's window is in a tab group that shows one, otherwise the window
/// that holds focus. Nothing where the question cannot be asked: off the main
/// thread, or for a window that is gone or has no native handle.
pub open spec fn click_target(
    on_main_thread: bool,
    windows: Seq<WindowState>,
    origin: Seq<char>,
    selected_tab: Option<usize>,
) -> Option<Seq<char>> {
    if !on_main_thread || handle_of(windows, origin) is None {
        None
    } else {
        match selected_tab {
            Some(native) => first_label(windows, handled_by(native)),
            None => first_label(windows, focused()),
        }
    }
}

/// The label of a window, as the contracts see it.
pub open spec fn label_view(label: Option<String>) -> Option<Seq<char>> {
    match label {
        Some(text) => Some(text@),
        None => None,
    }
}

/// The label of the first window with this native handle.
fn label_of(windows: &Vec<WindowState>, native: usize) -> (label: Option<String>)
    ensures
        label_view(label) == first_label(windows@, handled_by(native)),
{
    let mut i: usize = 0;
    while i < windows.len()
        invariant
            i <= windows@.len(),
            forall|j: int| 0 <= j < i ==> !handled_by(native)(#[trigger] windows@[j]),
        decreases windows@.len() - i,
    {
        if let Some(current) = windows[i].native {
            if current == native {
                proof {
                    search::lemma_first_index_is(windows@, handled_by(native), i as int);
                }
                return Some(windows[i].label.clone());
            }
        }
        i += 1;
    }
    proof {
        search::lemma_first_index_none(windows@, handled_by(native));
    }
    None
}

/// The label of the first window known to hold focus.
fn focused_label(windows: &Vec<WindowState>) -> (label: Option<String>)
    ensures
        label_view(label) == first_label(windows@, focused()),
{
    let mut i: usize = 0;
    while i < windows.len()
        invariant
            i <= windows@.len(),
            forall|j: int| 0 <= j < i ==> !focused()(#[trigger] windows@[j]),
        decreases windows@.len() - i,
    {
        if let Some(true) = windows[i].focused {
            proof {
                search::lemma_first_index_is(windows@, focused(), i as int);
            }
            return Some(windows[i].label.clone());
        }
        i += 1;
    }
    proof {
        search::lemma_first_index_none(windows@, focused());
    }
    None
}

/// The native handle of the window with this label, whose tab group is the one
/// to ask.
pub fn native_handle(windows: &Vec<WindowState>, label: &str) -> (native: Option<usize>)
    ensures
        native == handle_of(windows@, label@),
{
    let mut i: usize = 0;
    while i < windows.len()
        invariant
            i <= windows@.len(),
            forall|j: int| 0 <= j < i ==> !labelled(label@)(#[trigger] windows@[j]),
        decreases windows@.len() - i,
    {
        if same_text(windows[i].label.as_str(), label) {
            proof {
                search::lemma_first_index_is(windows@, labelled(label@), i as int);
            }
            return windows[i].native;
        }
        i += 1;
    }
    proof {
        search::lemma_first_index_none(windows@, labelled(label@));
    }
    None
}

/// Label of the window the user is currently looking at.
///
/// `selected_tab` is the native handle of the tab on screen in the tab group of
/// the window `origin_label`, where there is such a group and such a tab.
/// Windows outside a tab group fall back to whichever one holds focus. `None`
/// means that no window is preferred.
pub fn preferred_click_target(
    on_main_thread: bool,
    windows: &Vec<WindowState>,
    origin_label: &str,
    selected_tab: Option<usize>,
) -> (label: Option<String>)
    ensures
        label_view(label) == click_target(on_main_thread, windows@, origin_label@, selected_tab),
{
    if !on_main_thread {
        return None;
    }
    if native_handle(windows, origin_label).is_none() {
        return None;
    }
    match selected_tab {
        Some(native) => label_of(windows, native),
        None => focused_label(windows),
    }
}

/// Whether a window with this label is open.
pub open spec fn is_open(open: Seq<String>, label: Seq<char>) -> bool {
    exists|i: int| 0 <= i < open.len() && (#[trigger] open[i])@ == label
}

/// The window to bring forward for a click, and the notification to hand to
/// it.
///
/// Where the user looks at another window than the one that raised the
/// notification, the click is that window's, if it raised the message too;
/// if it did not, it is left in front and nothing happens. Otherwise, or where
/// the window the user looked at is gone, the click stays with the window that
/// raised the notification.
pub open spec fn click_route(
    groups: Seq<registry::GroupModel>,
    window: Seq<char>,
    id: Seq<char>,
    visible: Option<Seq<char>>,
    open: Seq<String>,
) -> Option<registry::Member> {
    let stay = if is_open(open, window) {
        Some((window, id))
    } else {
        None
    };
    match visible {
        Some(front) => if front == window || !is_open(open, front) {
            stay
        } else {
            registry::sibling(groups, window, id, front)
        },
        None => stay,
    }
}

/// Whether a window with this label is among the open ones.
fn window_is_open(open: &Vec<String>, label: &str) -> (found: bool)
    ensures
        found == is_open(open@, label@),
{
    let mut i: usize = 0;
    while i < open.len()
        invariant
            i <= open@.len(),
            forall|j: int| 0 <= j < i ==> (#[trigger] open@[j])@ != label@,
        decreases open@.len() - i,
    {
        if same_text(open[i].as_str(), label) {
            return true;
        }
        i += 1;
    }
    false
}

/// Hand a notification click to the right window.
///
/// Every window runs its own instance of the site, so the notification could
/// have come from any of them. The click is steered to the tab the user is
/// actually looking at, but only when that tab also raised the message:
/// only the window that created a notification has the conversation to jump to.
///
/// A visible tab with no notification for the message has almost always gone
/// quiet precisely because it is already showing that conversation. The message
/// is then already in front of the user, so pulling a background tab over the
/// one they are working in would be the wrong answer, and this does nothing
/// instead. The cost is that a visible tab which genuinely missed the message
/// makes the click look inert.
///
/// `visible` is the window the user is looking at and `open` the labels of the
/// windows that are there.
pub fn dispatch_click(
    registry: &MessageRegistry,
    window_label: &str,
    id: &str,
    visible: Option<&str>,
    open: &Vec<String>,
) -> (target: Option<(String, String)>)
    ensures
        match click_route(
            registry@,
            window_label@,
            id@,
            match visible {
                Some(front) => Some(front@),
                None => None,
            },
            open@,
        ) {
            Some(member) => target matches Some(t) && (t.0@, t.1@) == member,
            None => target is None,
        },
{
    if let Some(front) = visible {
        if !same_text(front, window_label) {
            proof {
                registry::lemma_sibling_is_of_preferred(registry@, window_label@, id@, front@);
            }
            if let Some((label, sibling_id)) = sibling_in(registry, window_label, id, front) {
                if window_is_open(open, label.as_str()) {
                    return Some((label, sibling_id));
                }
            }
            // Leave the user on the tab they are working in.
            if window_is_open(open, front) {
                return None;
            }
        }
    }
    // Single window, or the notification belongs to the visible tab already.
    if window_is_open(open, window_label) {
        return Some((window_label.to_owned(), id.to_owned()));
    }
    None
}

} // verus!
