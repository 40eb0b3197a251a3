//! The `org.freedesktop.Notifications` server (spec 1.2): what its methods answer and what they
//! ask of the main loop.

use crate::hints::{urgency_hint, urgency_of, Hints};
use crate::markup::{plain_text, strip_markup};
use crate::notification::{
    button_actions, has_default, parse_actions, CloseReason, Notification,
};
use damascene_core::image::Image;
use vstd::prelude::*;

verus! {

/// Object path of the server.
pub const PATH: &'static str = "/org/freedesktop/Notifications";

/// Well-known bus name of the server.
pub const NAME: &'static str = "org.freedesktop.Notifications";

/// From the bus to the main loop.
pub enum Event {
    /// New or replacing notification (a replacing one has the id of the one it replaces).
    Notify(Notification),
    /// `CloseNotification` call; close with [`CloseReason::CloseCall`].
    Close(u32),
    /// The bus name now belongs to someone else.
    NameLost,
}

/// From the main loop to the bus.
#[derive(Debug)]
pub enum Signal {
    /// `NotificationClosed`.
    Closed { id: u32, reason: CloseReason },
    /// `ActionInvoked`.
    ActionInvoked { id: u32, key: String },
}

/// What a signal tells.
pub enum SignalView {
    Closed { id: u32, reason: CloseReason },
    ActionInvoked { id: u32, key: Seq<char> },
}

impl View for Signal {
    type V = SignalView;

    open spec fn view(&self) -> SignalView {
        match *self {
            Signal::Closed { id, reason } => SignalView::Closed { id, reason },
            Signal::ActionInvoked { id, key } => SignalView::ActionInvoked { id, key: key@ },
        }
    }
}

/// What a sequence of signals tells.
pub open spec fn signals(sent: Seq<Signal>) -> Seq<SignalView> {
    sent.map_values(|signal: Signal| signal@)
}

/// The id that is handed out `steps` ids after `id`. Ids start anew after the last one.
pub open spec fn id_after(id: u32, steps: nat) -> u32 {
    ((id + steps) % 0x1_0000_0000) as u32
}

/// The server's side of the bus.
#[derive(Debug)]
pub struct Interface {
    /// The id of the next notification that replaces none.
    pub next_id: u32,
}

impl Interface {
    /// A server that has handed out no id yet.
    pub fn new() -> (interface: Interface)
        ensures
            interface.next_id == 1,
    {
        Interface { next_id: 1 }
    }

    /// The id of a notification that wants to replace `replaces_id`: that one, or a fresh one if
    /// it is 0.
    pub open spec fn id_for(self, replaces_id: u32) -> u32 {
        if replaces_id != 0 {
            replaces_id
        } else {
            self.next_id
        }
    }

    /// `Notify`: gives the notification its id and makes it ready to be shown. Returns the id,
    /// for the client, and the event for the main loop. `image` is what was found for it.
    pub fn notify(
        &mut self,
        app_name: String,
        replaces_id: u32,
        summary: String,
        body: &str,
        actions: &[String],
        hints: &Hints,
        image: Option<Image>,
        expire_timeout: i32,
    ) -> (answer: (u32, Event))
        requires
            hints.wf(),
        ensures
            answer.0 == old(self).id_for(replaces_id),
            final(self).next_id == (if replaces_id != 0 {
                old(self).next_id
            } else {
                id_after(old(self).next_id, 1)
            }),
            answer.1 matches Event::Notify(notification) && {
                &&& notification.id == answer.0
                &&& notification.app_name == app_name
                &&& notification.summary == summary
                &&& notification.body@ == plain_text(body@)
                &&& notification.urgency == urgency_of(hints@)
                &&& notification.actions@ == button_actions(actions@)
                &&& notification.has_default_action == has_default(actions@)
                &&& notification.image == image
                &&& notification.expire_timeout == expire_timeout
            },
    {
        let id: u32 = if replaces_id != 0 {
            replaces_id
        } else {
            let fresh: u32 = self.next_id;
            self.next_id = fresh.wrapping_add(1);
            fresh
        };
        let (actions, has_default_action) = parse_actions(actions);
        let notification = Notification {
            id,
            app_name,
            summary,
            body: strip_markup(body),
            urgency: urgency_hint(hints),
            actions,
            has_default_action,
            image,
            expire_timeout,
        };
        (id, Event::Notify(notification))
    }

    /// `CloseNotification`.
    pub fn close_notification(&self, id: u32) -> (event: Event)
        ensures
            event == Event::Close(id),
    {
        Event::Close(id)
    }

    /// `GetCapabilities`. There is no `body-markup`: bodies are shown as plain text, so clients
    /// need not send tags in the first place.
    pub fn get_capabilities(&self) -> (capabilities: Vec<String>)
        ensures
            capabilities@.map_values(|name: String| name@) == seq![
                "body"@,
                "actions"@,
                "icon-static"@,
            ],
    {
        let mut capabilities: Vec<String> = Vec::new();
        capabilities.push("body".to_owned());
        capabilities.push("actions".to_owned());
        capabilities.push("icon-static".to_owned());
        assert(capabilities@.map_values(|name: String| name@) =~= seq![
            "body"@,
            "actions"@,
            "icon-static"@,
        ]);
        capabilities
    }

    /// `GetServerInformation`: name, vendor, version and the version of the specification.
    pub fn get_server_information<'a>(&self, version: &'a str) -> (information: (
        &'a str,
        &'a str,
        &'a str,
        &'a str,
    ))
        ensures
            information.0@ == "prism-notify"@,
            information.1@ == "prism"@,
            information.2 == version,
            information.3@ == "1.2"@,
    {
        ("prism-notify", "prism", version, "1.2")
    }
}

/// Handing out ids one after the other goes through all of them before one comes back.
pub proof fn law_fresh_ids_differ(first: u32, i: nat, j: nat)
    requires
        i < j < i + 0x1_0000_0000,
    ensures
        id_after(first, i) != id_after(first, j),
        id_after(id_after(first, i), 1) == id_after(first, i + 1),
{
}

/// A notification that replaces one has its id; any other has the next id, and the one after it is
/// higher by one, or 0 after the last.
pub proof fn law_ids(interface: Interface, replaces_id: u32)
    ensures
        replaces_id != 0 ==> interface.id_for(replaces_id) == replaces_id,
        replaces_id == 0 ==> interface.id_for(replaces_id) == interface.next_id,
        interface.next_id < u32::MAX ==> id_after(interface.next_id, 1) == interface.next_id + 1,
        interface.next_id == u32::MAX ==> id_after(interface.next_id, 1) == 0,
{
}

/// A signal tells its id and its reason or key; signals are told one for one, in order.
pub proof fn law_signals_tell_their_fields(
    sent: Seq<Signal>,
    id: u32,
    reason: CloseReason,
    key: String,
    i: int,
)
    ensures
        (Signal::Closed { id, reason })@ == (SignalView::Closed { id, reason }),
        (Signal::ActionInvoked { id, key })@ == (SignalView::ActionInvoked { id, key: key@ }),
        signals(sent).len() == sent.len(),
        0 <= i < sent.len() ==> signals(sent)[i] == sent[i]@,
{
}

} // verus!
