//! Raising and closing a notification.
//!
//! Raising one alternates decisions with work on the desktop. A `SendStep`
//! says what is to be done next, and the functions here say which step follows
//! once that is done.

use crate::id;
use crate::id::validate_id;
use crate::native;
use crate::native::{delivered, remove};
use crate::registry;
use crate::registry::{is_cross_window_repeat_at, MessageRegistry};
use crate::time::{Clock, Timestamp};
use vstd::prelude::*;
use vstd::string::*;

verus! {

/// A notification that a page asks for.
pub struct NotificationParams {
    pub id: String,
    pub title: String,
    pub body: String,
    pub icon: String,
}

/// What a page is told of the notification that it asked for.
#[derive(Clone, Copy, Debug, PartialEq, Eq, Structural)]
pub struct NotificationOutcome {
    /// True when this platform reports the click back to the page. The page
    /// keeps its focus-based fallback disabled in that case, so an ordinary app
    /// switch never fires a phantom click on the newest notification.
    pub native_click: bool,
    /// True when another window already raised this exact message, so nothing
    /// was shown here. The page keeps the notification addressable, because a
    /// click on the window that did show it can be rerouted to this one, but
    /// must not report a show event or count it towards the badge, which would
    /// otherwise multiply by the number of windows.
    pub suppressed: bool,
}

/// The next thing to do for a notification.
#[derive(Clone, Copy, Debug, PartialEq, Eq, Structural)]
pub enum SendStep {
    /// Hand it to the native notification center.
    TryNative,
    /// Show it through the notification plugin.
    ShowPlugin,
    /// Nothing: this is what the page is told.
    Done(NotificationOutcome),
}

/// What a page is told of a notification that another window already raised.
pub open spec fn suppressed_outcome() -> NotificationOutcome {
    NotificationOutcome { native_click: false, suppressed: true }
}

/// What a page is told of a notification that the native center shows.
pub open spec fn native_outcome() -> NotificationOutcome {
    NotificationOutcome { native_click: true, suppressed: false }
}

/// What a page is told of a notification that the plugin shows.
pub open spec fn plugin_outcome() -> NotificationOutcome {
    NotificationOutcome { native_click: false, suppressed: false }
}

/// The step after the native center was tried: it took the notification, or
/// the plugin has to show it.
pub open spec fn step_after_native(delivered: bool) -> SendStep {
    if delivered {
        SendStep::Done(native_outcome())
    } else {
        SendStep::ShowPlugin
    }
}

/// The registry and the answer of `send` for a notification raised at `now`: an
/// id that is not well-formed is refused and not recorded, a repeat is
/// suppressed, and anything else goes to the native center first.
pub open spec fn sends(
    before: Seq<registry::GroupModel>,
    after: Seq<registry::GroupModel>,
    window: Seq<char>,
    params: NotificationParams,
    now: nat,
    result: Result<SendStep, String>,
) -> bool {
    let (groups, repeat) = registry::recorded(
        before,
        window,
        params.id@,
        registry::message_key(params.title@, params.body@),
        now,
    );
    if !id::valid_id(params.id@) {
        &&& after == before
        &&& result matches Err(message)
        &&& message@ == id::id_refusal(params.id@)
    } else {
        &&& after == groups
        &&& result == Ok::<SendStep, String>(
            if repeat {
                SendStep::Done(suppressed_outcome())
            } else {
                SendStep::TryNative
            },
        )
    }
}

/// Takes in a notification that `window_label` raised at `now`.
pub fn send_at(
    registry: &mut MessageRegistry,
    window_label: &str,
    params: &NotificationParams,
    now: Timestamp,
) -> (result: Result<SendStep, String>)
    ensures
        sends(old(registry)@, final(registry)@, window_label@, *params, now@, result),
        registry::well_formed(old(registry)@) ==> registry::well_formed(final(registry)@),
{
    match validate_id(params.id.as_str()) {
        Ok(()) => {},
        Err(message) => {
            return Err(message);
        },
    }
    let repeat = is_cross_window_repeat_at(
        registry,
        window_label,
        params.id.as_str(),
        params.title.as_str(),
        params.body.as_str(),
        now,
    );
    if repeat {
        return Ok(SendStep::Done(NotificationOutcome { native_click: false, suppressed: true }));
    }
    Ok(SendStep::TryNative)
}

/// Takes in a notification that `window_label` raises now. It is dated by the
/// reading that `clock` gives during the call; what that reads is left open.
pub fn send(
    registry: &mut MessageRegistry,
    clock: &Clock,
    window_label: &str,
    params: &NotificationParams,
) -> (result: Result<SendStep, String>)
    ensures
        exists|now: Timestamp| #[trigger]
            call_ensures(Clock::now, (clock,), now) && sends(
                old(registry)@,
                final(registry)@,
                window_label@,
                *params,
                now@,
                result,
            ),
        registry::well_formed(old(registry)@) ==> registry::well_formed(final(registry)@),
{
    let now = clock.now();
    send_at(registry, window_label, params, now)
}

/// What follows the native center's answer: the last step where it took the
/// notification, the plugin where it did not, and the center's error as it is,
/// in which case the plugin is not tried.
pub fn after_native(answer: Result<bool, String>) -> (result: Result<SendStep, String>)
    ensures
        match answer {
            Ok(delivered) => result == Ok::<SendStep, String>(step_after_native(delivered)),
            Err(message) => result == Err::<SendStep, String>(message),
        },
{
    match answer {
        Ok(true) => Ok(
            SendStep::Done(NotificationOutcome { native_click: true, suppressed: false }),
        ),
        Ok(false) => Ok(SendStep::ShowPlugin),
        Err(message) => Err(message),
    }
}

/// What follows the attempt to hand a notification to the native center, where
/// there was anything to hand over: without an attempt the plugin shows it, and
/// after a failed one the failure is answered and the plugin is not tried.
pub fn after_native_attempt(attempt: Option<Result<(), String>>) -> (result: Result<
    SendStep,
    String,
>)
    ensures
        match attempt {
            None => result == Ok::<SendStep, String>(SendStep::ShowPlugin),
            Some(Ok(_)) => result == Ok::<SendStep, String>(SendStep::Done(native_outcome())),
            Some(Err(error)) => result matches Err(message) && message@
                == "Failed to dispatch notification: "@ + error@,
        },
{
    after_native(delivered(attempt))
}

/// What follows the plugin's attempt: the last step, or the plugin's error.
pub fn after_plugin(shown: Result<(), String>) -> (result: Result<SendStep, String>)
    ensures
        match shown {
            Ok(_) => result == Ok::<SendStep, String>(SendStep::Done(plugin_outcome())),
            Err(error) => result matches Err(message) && message@
                == "Failed to show notification: "@ + error@,
        },
{
    match shown {
        Ok(()) => Ok(SendStep::Done(NotificationOutcome { native_click: false, suppressed: false })),
        Err(error) => {
            let mut message = "Failed to show notification: ".to_owned();
            message.append(error.as_str());
            Err(message)
        },
    }
}

/// Takes in that a page closed notification `id` itself: the identifier under
/// which the native center is to withdraw it, or nothing where there is no
/// native center.
///
/// Pages close notifications once the user has read the message elsewhere;
/// with several windows every window's copy of the site raises its own
/// notification for the same message, so honouring the close is what clears
/// the duplicates.
pub fn close(native_ready: bool, window_label: &str, id: &str) -> (result: Result<
    Option<String>,
    String,
>)
    ensures
        match result {
            Err(message) => !id::valid_id(id@) && message@ == id::id_refusal(id@),
            Ok(Some(identifier)) => id::valid_id(id@) && native_ready && identifier@
                == native::identifier(window_label@, id@),
            Ok(None) => id::valid_id(id@) && !native_ready,
        },
{
    match validate_id(id) {
        Ok(()) => Ok(remove(native_ready, window_label, id)),
        Err(message) => Err(message),
    }
}

} // verus!
