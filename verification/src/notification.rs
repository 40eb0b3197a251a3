//! The notification model: what a client asked to be shown.

pub use crate::image::{image_from_data, image_from_png};
pub use crate::markup::strip_markup;
use damascene_core::image::Image;
use vstd::prelude::*;

verus! {

/// Freedesktop urgency hint (byte 0, 1 or 2).
#[derive(Debug, Clone, Copy, PartialEq, Eq, Structural)]
pub enum Urgency {
    Low,
    Normal,
    Critical,
}

impl Default for Urgency {
    fn default() -> (urgency: Self)
        ensures
            urgency == Urgency::Normal,
    {
        Urgency::Normal
    }
}

/// One action of the `actions` wire array, a `(key, label)` pair. The conventional `default`
/// action is split out: it has no button, a click on the card body invokes it.
#[derive(Debug, Clone)]
pub struct Action {
    pub key: String,
    pub label: String,
}

/// Why a notification was closed.
#[derive(Debug, Clone, Copy, PartialEq, Eq, Structural)]
pub enum CloseReason {
    Expired,
    Dismissed,
    CloseCall,
}

impl CloseReason {
    /// The reason code of the `NotificationClosed` signal.
    pub open spec fn wire_code(self) -> u32 {
        match self {
            CloseReason::Expired => 1,
            CloseReason::Dismissed => 2,
            CloseReason::CloseCall => 3,
        }
    }

    /// The reason code of the `NotificationClosed` signal.
    pub fn code(self) -> (code: u32)
        ensures
            code == self.wire_code(),
    {
        match self {
            CloseReason::Expired => 1,
            CloseReason::Dismissed => 2,
            CloseReason::CloseCall => 3,
        }
    }
}

/// A notification, ready to be shown.
#[derive(Debug, Clone)]
pub struct Notification {
    pub id: u32,
    pub app_name: String,
    pub summary: String,
    /// Body without markup, entities unescaped.
    pub body: String,
    pub urgency: Urgency,
    /// Button actions, in wire order, `default` left out.
    pub actions: Vec<Action>,
    /// Whether the wire actions had a `default` entry (invoked by a click on the card body).
    pub has_default_action: bool,
    pub image: Option<Image>,
    /// Raw wire value: -1 for the server's default, 0 for never, else milliseconds.
    pub expire_timeout: i32,
}

impl Notification {
    /// The milliseconds after which the notification expires; `None` if it never does. Critical
    /// notifications never do.
    pub open spec fn expiry(self, default_ms: u64) -> Option<u64> {
        if self.urgency == Urgency::Critical || self.expire_timeout == 0 {
            None
        } else if self.expire_timeout > 0 {
            Some(self.expire_timeout as u64)
        } else if default_ms > 0 {
            Some(default_ms)
        } else {
            None
        }
    }

    /// Resolves the wire timeout against the configured default, in milliseconds. `None` if the
    /// notification never expires.
    pub fn timeout(&self, default_ms: u64) -> (timeout: Option<u64>)
        ensures
            timeout == self.expiry(default_ms),
    {
        if self.urgency == Urgency::Critical || self.expire_timeout == 0 {
            None
        } else if self.expire_timeout > 0 {
            Some(self.expire_timeout as u64)
        } else if default_ms > 0 {
            Some(default_ms)
        } else {
            None
        }
    }
}

/// A critical notification never expires, whatever timeout it asks for and whatever the
/// configured default is.
pub proof fn law_critical_never_expires(notification: Notification, default_ms: u64)
    requires
        notification.urgency == Urgency::Critical,
    ensures
        notification.expiry(default_ms) is None,
{
}

/// The `(key, label)` pairs of the wire array; a last key without a label makes none.
pub open spec fn action_pairs(raw: Seq<String>) -> Seq<Action> {
    Seq::new(raw.len() / 2, |i: int| Action { key: raw[2 * i], label: raw[2 * i + 1] })
}

/// Whether an action is the one that a click on the card body invokes.
pub open spec fn is_default(action: Action) -> bool {
    action.key@ == "default"@
}

/// The actions of the wire array that get a button, in order.
pub open spec fn button_actions(raw: Seq<String>) -> Seq<Action> {
    action_pairs(raw).filter(|action: Action| !is_default(action))
}

/// Whether the wire array has a default action.
pub open spec fn has_default(raw: Seq<String>) -> bool {
    exists|i: int| 0 <= i < action_pairs(raw).len() && is_default(#[trigger] action_pairs(raw)[i])
}

/// Splits the flat `[key, label, key, label, ...]` wire array into the actions that get a button
/// and whether there is a default action. A last key without a label is ignored.
pub fn parse_actions(raw: &[String]) -> (parsed: (Vec<Action>, bool))
    ensures
        parsed.0@ == button_actions(raw@),
        parsed.1 == has_default(raw@),
{
    let mut actions: Vec<Action> = Vec::new();
    let mut default: bool = false;
    let len: usize = raw.len();
    let ghost pairs = action_pairs(raw@);
    let ghost wanted = |action: Action| !is_default(action);
    let mut at: usize = 0;
    assert(pairs.take(0).filter(wanted) =~= Seq::empty()) by {
        reveal(Seq::filter);
    }
    while at < len / 2
        invariant
            at <= len / 2,
            len == raw@.len(),
            pairs == action_pairs(raw@),
            wanted == (|action: Action| !is_default(action)),
            actions@ == pairs.take(at as int).filter(wanted),
            default == (exists|i: int| 0 <= i < at && is_default(#[trigger] pairs[i])),
        decreases len / 2 - at,
    {
        let ghost next = pairs.take(at + 1);
        proof {
            reveal(Seq::filter);
            assert(next.drop_last() =~= pairs.take(at as int));
            assert(next.last() == pairs[at as int]);
        }
        let key = &raw[2 * at];
        if *key.as_str() == *"default" {
            default = true;
            assert(is_default(pairs[at as int]));
        } else {
            actions.push(Action { key: key.clone(), label: raw[2 * at + 1].clone() });
        }
        at = at + 1;
    }
    assert(pairs.take(at as int) =~= pairs);
    (actions, default)
}

/// Every button comes from a pair of the wire array, and none of them is the default action;
/// every pair that is not the default action gets a button.
pub proof fn law_buttons_are_the_other_pairs(raw: Seq<String>, action: Action)
    ensures
        button_actions(raw).contains(action) <==> action_pairs(raw).contains(action) && !is_default(
            action,
        ),
        button_actions(raw).len() <= action_pairs(raw).len(),
{
    let wanted = |action: Action| !is_default(action);
    lemma_filter_members(action_pairs(raw), wanted, action);
    action_pairs(raw).lemma_filter_len(wanted);
}

/// A filter keeps the members that are wanted, and no others.
proof fn lemma_filter_members(s: Seq<Action>, wanted: spec_fn(Action) -> bool, action: Action)
    ensures
        s.filter(wanted).contains(action) <==> s.contains(action) && wanted(action),
    decreases s.len(),
{
    reveal(Seq::filter);
    if s.len() > 0 {
        let before = s.drop_last();
        lemma_filter_members(before, wanted, action);
        let kept = before.filter(wanted);
        if kept.contains(action) {
            let i = kept.index_of(action);
            assert(s.filter(wanted)[i] == action);
            let j = before.index_of(action);
            assert(s[j] == action);
        }
        if s.contains(action) {
            let j = s.index_of(action);
            if j < before.len() {
                assert(before[j] == action);
            } else if wanted(action) {
                assert(s.filter(wanted).last() == action);
            }
        }
        if s.filter(wanted).contains(action) && !kept.contains(action) {
            let i = s.filter(wanted).index_of(action);
            assert(i == kept.len());
            assert(s[s.len() - 1] == action);
        }
    }
}

/// A timeout of 0 is never, one above 0 is that many milliseconds, and one below 0 is the default,
/// of which 0 is never.
pub proof fn law_timeout_is_resolved(notification: Notification, default_ms: u64)
    requires
        notification.urgency != Urgency::Critical,
    ensures
        notification.expire_timeout == 0 ==> notification.expiry(default_ms) is None,
        notification.expire_timeout > 0 ==> (notification.expiry(default_ms) matches Some(ms) && ms
            == notification.expire_timeout),
        notification.expire_timeout < 0 && default_ms > 0 ==> notification.expiry(default_ms)
            == Some(default_ms),
        notification.expire_timeout < 0 && default_ms == 0 ==> notification.expiry(
            default_ms,
        ) is None,
{
}

/// The reason codes of the wire: 1 for expired, 2 for dismissed, 3 for a close call.
pub proof fn law_reason_codes(reason: CloseReason)
    ensures
        reason == CloseReason::Expired <==> reason.wire_code() == 1,
        reason == CloseReason::Dismissed <==> reason.wire_code() == 2,
        reason == CloseReason::CloseCall <==> reason.wire_code() == 3,
{
}

/// Actions are read pair by pair: behind whole pairs, a further one adds a button with its key and
/// its label, unless its key is `default`, which tells that there is a default action; a key alone
/// adds nothing.
pub proof fn law_actions_pair_by_pair(raw: Seq<String>, key: String, label: String)
    requires
        raw.len() % 2 == 0,
    ensures
        raw.len() == 0 ==> button_actions(raw).len() == 0 && !has_default(raw),
        button_actions(raw.push(key)) == button_actions(raw),
        has_default(raw.push(key)) == has_default(raw),
        key@ == "default"@ ==> {
            &&& button_actions(raw.push(key).push(label)) == button_actions(raw)
            &&& has_default(raw.push(key).push(label))
        },
        key@ != "default"@ ==> {
            &&& button_actions(raw.push(key).push(label)) == button_actions(raw).push(
                Action { key, label },
            )
            &&& has_default(raw.push(key).push(label)) == has_default(raw)
        },
{
    reveal(Seq::filter);
    let pairs = action_pairs(raw);
    let more = action_pairs(raw.push(key).push(label));
    let action = Action { key, label };
    let wanted = |action: Action| !is_default(action);
    assert(action_pairs(raw.push(key)) =~= pairs);
    assert(more =~= pairs.push(action));
    assert(more.drop_last() =~= pairs);
    assert(more.last() == action);
    assert(more.filter(wanted) == if wanted(action) {
        pairs.filter(wanted).push(action)
    } else {
        pairs.filter(wanted)
    });
    if is_default(action) {
        assert(is_default(more[pairs.len() as int]));
    }
    if has_default(raw) {
        let i = choose|i: int| 0 <= i < pairs.len() && is_default(#[trigger] pairs[i]);
        assert(is_default(more[i]));
    }
    if has_default(raw.push(key).push(label)) && !is_default(action) {
        let i = choose|i: int| 0 <= i < more.len() && is_default(#[trigger] more[i]);
        assert(is_default(pairs[i]));
    }
}

} // verus!
