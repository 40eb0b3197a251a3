//! The daemon: how its state changes with what happens on the bus, on the screen and with time,
//! and what it asks to be done.
//!
//! Times are nanoseconds since the daemon started.

use crate::config::{Config, ConfigError};
use crate::dbus::{signals, Event, Signal, SignalView};
use crate::notification::{CloseReason, Notification};
use crate::stack::{
    due_ids, has_id, is_at, is_due, law_removed_is_gone, live, notifications,
    popup_of, upserted, without, Popup, Stack,
};
use crate::surface::{anchor, anchor_of, Anchor, NotifySurface, SwapchainAction};
use crate::ui::{
    close_key, distinct_items, law_cross_dismisses, reaction, user_actions, NotifyApp, UiEvent,
    UserAction, UserActionView, SHADOW_GUTTER,
};
use std::rc::Rc;
use vstd::prelude::*;

verus! {

/// The longest time to sleep: an hour.
pub const LONGEST_SLEEP: u64 = 3_600_000_000_000;

/// How long the configuration file must be left alone before it is loaded anew: editors write it
/// in bursts.
pub const RELOAD_DELAY: u64 = 150_000_000;

/// What is to be done to bring the surface in line with the stack.
#[derive(Debug, Clone, Copy, PartialEq, Eq, Structural)]
pub enum SyncStep {
    /// Nothing.
    Idle,
    /// The stack is empty: destroy the surface.
    Destroy,
    /// Measure the stack.
    Measure,
}

/// What is to be done to the surface, now that the stack was measured.
#[derive(Debug, Clone, Copy, PartialEq, Eq, Structural)]
pub enum SurfaceAction {
    /// Create a surface of this logical size.
    Create { width: u32, height: u32 },
    /// Ask the compositor for this logical size.
    Resize { width: u32, height: u32 },
    /// The size is right; draw.
    Redraw,
}

/// How the surface of the stack is to be created.
#[derive(Debug, Clone, Copy, PartialEq, Eq, Structural)]
pub struct SurfaceRequest {
    /// Which of the outputs it is to be on. `None` leaves it to the compositor.
    pub output: Option<usize>,
    /// Whether the configured output is not there.
    pub output_absent: bool,
    pub anchor: Anchor,
    /// Margin off all four screen edges.
    pub margin: i32,
    /// Logical size.
    pub width: u32,
    pub height: u32,
}

/// What is to be done about a new buffer scale.
#[derive(Debug, Clone, Copy, PartialEq, Eq, Structural)]
pub enum ScaleAction {
    Ignore,
    /// Set the scale; then the swapchain may need something.
    Apply(Option<SwapchainAction>),
}

/// A pointer button.
#[derive(Debug, Clone, Copy, PartialEq, Eq, Structural)]
pub enum PointerButton {
    Primary,
    Secondary,
    Middle,
}

/// What the pointer did.
#[derive(Debug, Clone, Copy, PartialEq, Eq, Structural)]
pub enum PointerEventKind {
    Enter,
    Motion,
    Leave,
    /// A button, by its Linux code, went down.
    Press(u32),
    /// A button, by its Linux code, went up.
    Release(u32),
    Axis,
}

/// What is to be told to the toolkit.
#[derive(Debug, Clone, Copy, PartialEq, Eq, Structural)]
pub enum PointerAction {
    Ignore,
    /// Nothing yet, but remember where the pointer is.
    Track,
    /// The pointer moved; remember where it is.
    Move,
    Leave,
    Down(PointerButton),
    Up(PointerButton),
}

/// The button with a Linux code.
pub open spec fn button_of(code: u32) -> Option<PointerButton> {
    if code == 0x110 {
        Some(PointerButton::Primary)
    } else if code == 0x111 {
        Some(PointerButton::Secondary)
    } else if code == 0x112 {
        Some(PointerButton::Middle)
    } else {
        None
    }
}

/// The button with a Linux code: `BTN_LEFT`, `BTN_RIGHT` or `BTN_MIDDLE`.
pub fn linux_button(code: u32) -> (button: Option<PointerButton>)
    ensures
        button == button_of(code),
{
    match code {
        0x110 => Some(PointerButton::Primary),
        0x111 => Some(PointerButton::Secondary),
        0x112 => Some(PointerButton::Middle),
        _ => None,
    }
}

/// The state of the daemon.
pub struct Daemon {
    pub config: Config,
    /// The stack as the user sees it.
    pub app: NotifyApp,
    /// Notification stack, newest first.
    pub stack: Stack,
    /// Whether the surface is to be brought in line with the stack.
    pub stack_changed: bool,
    /// When the configuration is to be loaded anew.
    pub reload_at: Option<u128>,
    pub surface: Option<NotifySurface>,
    /// Whether the daemon is to exit.
    pub exit: bool,
}

/// Whether the user sees the given stack: its newest notifications as cards, and how many there
/// are.
pub open spec fn shows(app: NotifyApp, popups: Seq<Popup>) -> bool {
    let all = notifications(popups);
    &&& app.total == all.len()
    &&& app.items@ == (if all.len() <= app.max_visible {
        all
    } else {
        all.take(app.max_visible as int)
    })
}

/// Whether the stack looks as the configuration says.
pub open spec fn follows(app: NotifyApp, config: Config) -> bool {
    &&& app.corner == config.corner
    &&& app.gap == config.gap
    &&& app.max_visible == config.max_visible
    &&& app.opacity == config.opacity
}

/// The signal that tells of a closed notification; none if there is no such notification.
pub open spec fn closing(popups: Seq<Popup>, id: u32, reason: CloseReason) -> Seq<SignalView> {
    if has_id(popups, id) {
        seq![SignalView::Closed { id, reason }]
    } else {
        Seq::empty()
    }
}

/// The stack after a user action, and the signals that tell of it.
pub open spec fn acted(popups: Seq<Popup>, action: UserActionView) -> (Seq<Popup>, Seq<SignalView>) {
    match action {
        UserActionView::Dismiss(id) => (
            without(popups, id),
            closing(popups, id, CloseReason::Dismissed),
        ),
        UserActionView::Invoke(id, key) => (
            without(popups, id),
            seq![SignalView::ActionInvoked { id, key }] + closing(
                popups,
                id,
                CloseReason::Dismissed,
            ),
        ),
    }
}

/// The stack after several user actions, and the signals that tell of them.
pub open spec fn acted_all(popups: Seq<Popup>, actions: Seq<UserActionView>) -> (
    Seq<Popup>,
    Seq<SignalView>,
)
    decreases actions.len(),
{
    if actions.len() == 0 {
        (popups, Seq::empty())
    } else {
        let before = acted_all(popups, actions.drop_last());
        let last = acted(before.0, actions.last());
        (last.0, before.1 + last.1)
    }
}

/// What several events do to the stack.
pub open spec fn reactions(items: Seq<Rc<Notification>>, events: Seq<UiEvent>) -> Seq<
    UserActionView,
>
    decreases events.len(),
{
    if events.len() == 0 {
        Seq::empty()
    } else {
        reactions(items, events.drop_last()) + (match reaction(items, events.last()) {
            Some(action) => seq![action],
            None => Seq::empty(),
        })
    }
}

/// The time from `now` to a deadline; none if it has passed.
pub open spec fn time_left(deadline: u128, now: u64) -> int {
    if deadline <= now {
        0
    } else {
        deadline - now
    }
}

impl Daemon {
    /// Every id stands in the stack once; a surface is there only while the stack has something to
    /// show; and what the user sees is the stack, except while a change waits to be shown.
    pub open spec fn wf(self) -> bool {
        &&& self.stack.wf()
        &&& self.surface is Some && !self.stack_changed ==> self.stack@.len() > 0
        &&& !self.stack_changed ==> shows(self.app, self.stack@)
        &&& distinct_items(self.app.items@)
        &&& self.app.pending@.len() == 0
        &&& follows(self.app, self.config)
    }

    /// A daemon with an empty stack.
    pub fn new(config: Config) -> (daemon: Daemon)
        ensures
            daemon.wf(),
            daemon.config == config,
            daemon.stack@.len() == 0,
            !daemon.stack_changed,
            daemon.reload_at is None,
            daemon.surface is None,
            !daemon.exit,
    {
        let app = NotifyApp::new(&config);
        let daemon = Daemon {
            config,
            app,
            stack: Stack::new(),
            stack_changed: false,
            reload_at: None,
            surface: None,
            exit: false,
        };
        assert(daemon.app.items@ =~= notifications(daemon.stack@));
        daemon
    }

    /// Does what an event from the bus asks, at `now`. The daemon exits when it loses its bus name:
    /// it would see no more notifications.
    pub fn on_dbus_event(&mut self, event: Event, now: u64) -> (signal: Option<Signal>)
        requires
            old(self).wf(),
        ensures
            final(self).wf(),
            final(self).config == old(self).config,
            final(self).app == old(self).app,
            final(self).reload_at == old(self).reload_at,
            final(self).surface == old(self).surface,
            match event {
                Event::Notify(n) => {
                    &&& signal is None
                    &&& final(self).stack@ == upserted(
                        old(self).stack@,
                        popup_of(n, old(self).config.default_timeout, now),
                    )
                    &&& final(self).stack_changed
                    &&& final(self).exit == old(self).exit
                },
                Event::Close(id) => {
                    &&& opt_signals(signal) == closing(
                        old(self).stack@,
                        id,
                        CloseReason::CloseCall,
                    )
                    &&& final(self).stack@ == without(old(self).stack@, id)
                    &&& final(self).stack_changed == (old(self).stack_changed || has_id(
                        old(self).stack@,
                        id,
                    ))
                    &&& final(self).exit == old(self).exit
                },
                Event::NameLost => {
                    &&& signal is None
                    &&& final(self).stack == old(self).stack
                    &&& final(self).stack_changed == old(self).stack_changed
                    &&& final(self).exit
                },
            },
    {
        match event {
            Event::Notify(n) => {
                self.upsert(n, now);
                None
            },
            Event::Close(id) => self.close(id, CloseReason::CloseCall),
            Event::NameLost => {
                self.exit = true;
                None
            },
        }
    }

    /// Inserts a new notification at the front, or replaces an existing one in place, resetting its
    /// expiry either way.
    pub fn upsert(&mut self, n: Notification, now: u64)
        requires
            old(self).wf(),
        ensures
            final(self).wf(),
            final(self).stack@ == upserted(
                old(self).stack@,
                popup_of(n, old(self).config.default_timeout, now),
            ),
            final(self).stack_changed,
            final(self).config == old(self).config,
            final(self).app == old(self).app,
            final(self).reload_at == old(self).reload_at,
            final(self).surface == old(self).surface,
            final(self).exit == old(self).exit,
    {
        self.stack.upsert(n, self.config.default_timeout, now);
        self.stack_changed = true;
    }

    /// Takes a notification out of the stack, if it is there, and gives the signal to be sent.
    pub fn close(&mut self, id: u32, reason: CloseReason) -> (signal: Option<Signal>)
        requires
            old(self).wf(),
        ensures
            final(self).wf(),
            opt_signals(signal) == closing(old(self).stack@, id, reason),
            final(self).stack@ == without(old(self).stack@, id),
            final(self).stack_changed == (old(self).stack_changed || has_id(old(self).stack@, id)),
            final(self).config == old(self).config,
            final(self).app == old(self).app,
            final(self).reload_at == old(self).reload_at,
            final(self).surface == old(self).surface,
            final(self).exit == old(self).exit,
    {
        proof {
            let other = if id == 0 {
                1u32
            } else {
                0u32
            };
            law_removed_is_gone(self.stack@, id, other);
        }
        if self.stack.remove(id) {
            self.stack_changed = true;
            Some(Signal::Closed { id, reason })
        } else {
            None
        }
    }

    /// Surface width: the configured card width and room for shadows on both sides.
    pub fn surface_width(&self) -> (width: u32)
        requires
            self.config.width + 2 * SHADOW_GUTTER <= u32::MAX,
        ensures
            width == self.config.width + 2 * SHADOW_GUTTER,
    {
        self.config.width + 2 * SHADOW_GUTTER
    }

    /// Starts to bring the surface in line with a stack that has changed: the user gets to see the
    /// stack, and if it is empty the surface goes.
    pub fn sync_surface(&mut self) -> (step: SyncStep)
        requires
            old(self).wf(),
        ensures
            final(self).wf(),
            !final(self).stack_changed,
            !old(self).stack_changed ==> step == SyncStep::Idle && *final(self) == *old(self),
            old(self).stack_changed ==> {
                &&& step == (if old(self).stack@.len() > 0 {
                    SyncStep::Measure
                } else if old(self).surface is Some {
                    SyncStep::Destroy
                } else {
                    SyncStep::Idle
                })
                &&& final(self).surface == (if old(self).stack@.len() > 0 {
                    old(self).surface
                } else {
                    None
                })
                &&& shows(final(self).app, final(self).stack@)
            },
            final(self).stack == old(self).stack,
            final(self).config == old(self).config,
            final(self).reload_at == old(self).reload_at,
            final(self).exit == old(self).exit,
    {
        if !self.stack_changed {
            return SyncStep::Idle;
        }
        self.stack_changed = false;
        let items = self.stack.notifications();
        self.app.set_state(items);
        proof {
            lemma_shown_are_distinct(self.app, self.stack@);
        }
        if self.stack.len() == 0 {
            if self.surface.is_some() {
                self.surface = None;
                SyncStep::Destroy
            } else {
                SyncStep::Idle
            }
        } else {
            SyncStep::Measure
        }
    }

    /// Brings the surface to the measured height of the stack: creates it where there is none yet,
    /// asks for a new size where the height changed, and draws.
    pub fn stack_measured(&mut self, measured: u32) -> (action: SurfaceAction)
        requires
            old(self).wf(),
            !old(self).stack_changed,
            old(self).stack@.len() > 0,
            old(self).config.width + 2 * SHADOW_GUTTER <= u32::MAX,
        ensures
            final(self).wf(),
            ({
                let width = (old(self).config.width + 2 * SHADOW_GUTTER) as u32;
                let height = if measured >= 1 {
                    measured
                } else {
                    1
                };
                match old(self).surface {
                    None => {
                        &&& action == SurfaceAction::Create { width, height }
                        &&& final(self).surface == Some(
                            NotifySurface {
                                width,
                                height,
                                scale: 1,
                                dirty: false,
                                anim_deadline: None,
                                swapchain: None,
                            },
                        )
                    },
                    Some(surface) => {
                        &&& action == (if surface.height != height {
                            SurfaceAction::Resize { width, height }
                        } else {
                            SurfaceAction::Redraw
                        })
                        &&& final(self).surface == Some(
                            NotifySurface { height, dirty: true, ..surface },
                        )
                    },
                }
            }),
            final(self).app == old(self).app,
            final(self).stack == old(self).stack,
            final(self).stack_changed == old(self).stack_changed,
            final(self).config == old(self).config,
            final(self).reload_at == old(self).reload_at,
            final(self).exit == old(self).exit,
    {
        let width: u32 = self.surface_width();
        let height: u32 = if measured >= 1 {
            measured
        } else {
            1
        };
        match self.surface.take() {
            None => {
                self.surface = Some(NotifySurface::new(width, height));
                SurfaceAction::Create { width, height }
            },
            Some(surface) => {
                let action = if surface.height != height {
                    SurfaceAction::Resize { width, height }
                } else {
                    SurfaceAction::Redraw
                };
                let mut surface = surface;
                surface.height = height;
                surface.dirty = true;
                self.surface = Some(surface);
                action
            },
        }
    }

    /// How the surface is to be created, given the names of the outputs that are there: on the
    /// configured output if it is one of them, in the configured corner, with the configured
    /// margin.
    pub fn create_surface(&self, outputs: &[Option<String>], height: u32) -> (request:
        SurfaceRequest)
        requires
            self.config.width + 2 * SHADOW_GUTTER <= u32::MAX,
        ensures
            request.output matches Some(i) ==> {
                &&& i < outputs@.len()
                &&& self.config.wants_output(outputs@[i as int])
                &&& forall|j: int| 0 <= j < i ==> !self.config.wants_output(#[trigger] outputs@[j])
            },
            request.output is None ==> forall|j: int|
                0 <= j < outputs@.len() ==> !self.config.wants_output(#[trigger] outputs@[j]),
            request.output_absent == (self.config.output is Some && request.output is None),
            request.anchor == anchor_of(self.config.corner),
            request.margin == self.config.margin,
            request.width == self.config.width + 2 * SHADOW_GUTTER,
            request.height == height,
    {
        let output = self.config.pick_output(outputs);
        SurfaceRequest {
            output,
            output_absent: self.config.output.is_some() && output.is_none(),
            anchor: anchor(self.config.corner),
            margin: self.config.margin,
            width: self.surface_width(),
            height,
        }
    }

    /// Applies a configuration that was loaded anew. The surface goes, since anything about it may
    /// have changed, and is made anew. Where loading failed, everything stays as it is and the
    /// error is handed back.
    pub fn reload_config(&mut self, loaded: Result<Config, ConfigError>) -> (failure: Option<
        ConfigError,
    >)
        requires
            old(self).wf(),
        ensures
            final(self).wf(),
            match loaded {
                Ok(config) => {
                    &&& failure is None
                    &&& final(self).config == config
                    &&& final(self).app.items@.len() == 0
                    &&& final(self).app.total == 0
                    &&& final(self).surface is None
                    &&& final(self).stack_changed
                    &&& final(self).stack == old(self).stack
                    &&& final(self).reload_at == old(self).reload_at
                    &&& final(self).exit == old(self).exit
                },
                Err(error) => failure == Some(error) && *final(self) == *old(self),
            },
    {
        match loaded {
            Ok(config) => {
                self.app = NotifyApp::new(&config);
                self.config = config;
                self.surface = None;
                self.stack_changed = true;
                None
            },
            Err(error) => Some(error),
        }
    }
}

impl Daemon {
    /// Routes events of the toolkit to the stack and does what the user asked: a dismissed
    /// notification is closed; an invoked action is told to the client, and then its notification
    /// is closed. The signals are to be sent in order. The surface is drawn anew.
    pub fn dispatch_ui_events(&mut self, events: &[UiEvent]) -> (sent: Vec<Signal>)
        requires
            old(self).wf(),
        ensures
            final(self).wf(),
            (final(self).stack@, signals(sent@)) == acted_all(
                old(self).stack@,
                reactions(old(self).app.items@, events@),
            ),
            final(self).stack_changed == (old(self).stack_changed || final(self).stack@.len()
                < old(self).stack@.len()),
            final(self).surface == (match old(self).surface {
                Some(surface) => Some(NotifySurface { dirty: true, ..surface }),
                None => None,
            }),
            final(self).app.items == old(self).app.items,
            final(self).app.total == old(self).app.total,
            final(self).config == old(self).config,
            final(self).reload_at == old(self).reload_at,
            final(self).exit == old(self).exit,
    {
        let ghost items = self.app.items@;
        let ghost popups = self.stack@;
        let mut at: usize = 0;
        assert(events@.take(0) =~= Seq::empty());
        assert(user_actions(self.app.pending@) =~= Seq::empty());
        while at < events.len()
            invariant
                at <= events@.len(),
                items == self.app.items@,
                self.app.items == old(self).app.items,
                self.app.total == old(self).app.total,
                follows(self.app, self.config),
                self.config == old(self).config,
                self.stack == old(self).stack,
                self.stack_changed == old(self).stack_changed,
                self.surface == old(self).surface,
                self.reload_at == old(self).reload_at,
                self.exit == old(self).exit,
                user_actions(self.app.pending@) == reactions(items, events@.take(at as int)),
            decreases events@.len() - at,
        {
            self.app.on_event(&events[at]);
            assert(events@.take(at + 1).drop_last() =~= events@.take(at as int));
            assert(events@.take(at + 1).last() == events@[at as int]);
            at = at + 1;
        }
        assert(events@.take(at as int) =~= events@);
        let actions = self.app.take_actions();
        let ghost asked = user_actions(actions@);
        let mut sent: Vec<Signal> = Vec::new();
        let mut done: usize = 0;
        assert(asked.take(0) =~= Seq::empty());
        assert(signals(sent@) =~= Seq::empty());
        while done < actions.len()
            invariant
                self.wf(),
                done <= actions@.len(),
                asked == user_actions(actions@),
                (self.stack@, signals(sent@)) == acted_all(popups, asked.take(done as int)),
                self.stack@.len() <= popups.len(),
                self.stack_changed == (old(self).stack_changed || self.stack@.len()
                    < popups.len()),
                popups == old(self).stack@,
                self.surface == old(self).surface,
                self.app.items == old(self).app.items,
                self.app.total == old(self).app.total,
                self.config == old(self).config,
                self.reload_at == old(self).reload_at,
                self.exit == old(self).exit,
            decreases actions@.len() - done,
        {
            let ghost before = self.stack@;
            let ghost told = signals(sent@);
            proof {
                assert(asked.take(done + 1).drop_last() =~= asked.take(done as int));
                assert(asked.take(done + 1).last() == actions@[done as int]@);
            }
            let id: u32 = match &actions[done] {
                UserAction::Dismiss(id) => *id,
                UserAction::Invoke(id, key) => {
                    sent.push(Signal::ActionInvoked { id: *id, key: key.clone() });
                    *id
                },
            };
            let ghost invoked = signals(sent@);
            proof {
                let other = if id == 0 {
                    1u32
                } else {
                    0u32
                };
                law_removed_is_gone(before, id, other);
            }
            let closed = self.close(id, CloseReason::Dismissed);
            let ghost closed_view = opt_signals(closed);
            if let Some(signal) = closed {
                sent.push(signal);
            }
            proof {
                assert(signals(sent@) =~= invoked + closed_view);
                match asked.take(done + 1).last() {
                    UserActionView::Dismiss(_) => {
                        assert(invoked =~= told);
                    },
                    UserActionView::Invoke(id, key) => {
                        assert(invoked =~= told + seq![SignalView::ActionInvoked { id, key }]);
                    },
                }
                assert(signals(sent@) =~= told + acted(before, asked.take(done + 1).last()).1);
            }
            done = done + 1;
        }
        assert(asked.take(done as int) =~= asked);
        if let Some(surface) = self.surface.take() {
            let mut surface = surface;
            surface.dirty = true;
            self.surface = Some(surface);
        }
        sent
    }

    /// The compositor closed a surface. If it was that of the stack it goes; a stack that has
    /// something to show gets a new one.
    pub fn closed(&mut self, ours: bool)
        requires
            old(self).wf(),
        ensures
            final(self).wf(),
            *final(self) == (if ours {
                Daemon { surface: None, stack_changed: true, ..*old(self) }
            } else {
                *old(self)
            }),
    {
        if ours {
            self.surface = None;
            self.stack_changed = true;
        }
    }

    /// The compositor configured a surface. If it is that of the stack it takes the size that was
    /// granted (zero leaves a length as it is), and what the swapchain needs is told.
    pub fn configure(&mut self, ours: bool, width: u32, height: u32) -> (action: Option<
        SwapchainAction,
    >)
        requires
            old(self).wf(),
            ours ==> (old(self).surface matches Some(surface) && surface.granted(
                width,
                height,
            ).fits()),
        ensures
            final(self).wf(),
            !ours ==> action is None && *final(self) == *old(self),
            ours ==> {
                let granted = old(self).surface->0.granted(width, height);
                &&& action == Some(granted.swapchain_need())
                &&& *final(self) == (Daemon {
                    surface: Some(NotifySurface { dirty: true, ..granted.with_swapchain() }),
                    ..*old(self)
                })
            },
    {
        if !ours {
            return None;
        }
        match self.surface.take() {
            Some(surface) => {
                let mut surface = surface;
                surface.grant(width, height);
                let action = surface.configure_swapchain();
                surface.dirty = true;
                self.surface = Some(surface);
                Some(action)
            },
            None => None,
        }
    }

    /// The compositor set the buffer scale of a surface. If it is that of the stack, and the scale
    /// is new, it takes it, and so does a swapchain that is there already.
    pub fn scale_factor_changed(&mut self, ours: bool, scale: i32) -> (action: ScaleAction)
        requires
            old(self).wf(),
            ours ==> (old(self).surface matches Some(surface) && (surface.swapchain is Some
                ==> (NotifySurface { scale, ..surface }).fits())),
        ensures
            final(self).wf(),
            !ours || old(self).surface->0.scale == scale ==> {
                &&& action == ScaleAction::Ignore
                &&& *final(self) == *old(self)
            },
            ours && old(self).surface->0.scale != scale ==> {
                let scaled = NotifySurface { scale, ..old(self).surface->0 };
                if scaled.swapchain is Some {
                    &&& action == ScaleAction::Apply(Some(scaled.swapchain_need()))
                    &&& *final(self) == (Daemon {
                        surface: Some(NotifySurface { dirty: true, ..scaled.with_swapchain() }),
                        ..*old(self)
                    })
                } else {
                    &&& action == ScaleAction::Apply(None)
                    &&& *final(self) == (Daemon {
                        surface: Some(NotifySurface { dirty: true, ..scaled }),
                        ..*old(self)
                    })
                }
            },
    {
        if !ours {
            return ScaleAction::Ignore;
        }
        match self.surface.take() {
            Some(surface) => {
                let mut surface = surface;
                if surface.scale == scale {
                    self.surface = Some(surface);
                    ScaleAction::Ignore
                } else {
                    surface.scale = scale;
                    let need = if surface.swapchain.is_some() {
                        Some(surface.configure_swapchain())
                    } else {
                        None
                    };
                    surface.dirty = true;
                    self.surface = Some(surface);
                    ScaleAction::Apply(need)
                }
            },
            None => ScaleAction::Ignore,
        }
    }

    /// An output appeared. If it is the one that the configuration names, and the stack is shown on
    /// another, the surface goes, to be made anew on the right one. Tells whether that is so.
    pub fn new_output(&mut self, name: Option<&str>) -> (moves: bool)
        requires
            old(self).wf(),
        ensures
            final(self).wf(),
            moves == (old(self).surface is Some && old(self).config.output is Some && name is Some
                && name->0@ == old(self).config.output->0@),
            *final(self) == (if moves {
                Daemon { surface: None, stack_changed: true, ..*old(self) }
            } else {
                *old(self)
            }),
    {
        let moves: bool = match (&self.config.output, name) {
            (Some(wanted), Some(name)) => self.surface.is_some() && *wanted.as_str() == *name,
            _ => false,
        };
        if moves {
            self.surface = None;
            self.stack_changed = true;
        }
        moves
    }

    /// What is to be told to the toolkit of a pointer event. Events on other surfaces are ignored,
    /// and so are other buttons than the three that are known. Before there is a swapchain, only
    /// the position of the pointer is of use.
    pub fn pointer_event(&self, ours: bool, kind: PointerEventKind) -> (action: PointerAction)
        ensures
            action == self.pointer_reaction(ours, kind),
    {
        if !ours {
            return PointerAction::Ignore;
        }
        let drawable: bool = match &self.surface {
            Some(surface) => surface.swapchain.is_some(),
            None => false,
        };
        match kind {
            PointerEventKind::Enter | PointerEventKind::Motion => if drawable {
                PointerAction::Move
            } else {
                PointerAction::Track
            },
            PointerEventKind::Leave => if drawable {
                PointerAction::Leave
            } else {
                PointerAction::Ignore
            },
            PointerEventKind::Press(code) => match linux_button(code) {
                Some(button) => if drawable {
                    PointerAction::Down(button)
                } else {
                    PointerAction::Ignore
                },
                None => PointerAction::Ignore,
            },
            PointerEventKind::Release(code) => match linux_button(code) {
                Some(button) => if drawable {
                    PointerAction::Up(button)
                } else {
                    PointerAction::Ignore
                },
                None => PointerAction::Ignore,
            },
            PointerEventKind::Axis => PointerAction::Ignore,
        }
    }

    /// What is to be told to the toolkit of a pointer event.
    pub open spec fn pointer_reaction(self, ours: bool, kind: PointerEventKind) -> PointerAction {
        let drawable = self.surface matches Some(surface) && surface.swapchain is Some;
        if !ours {
            PointerAction::Ignore
        } else {
            match kind {
                PointerEventKind::Enter | PointerEventKind::Motion => if drawable {
                    PointerAction::Move
                } else {
                    PointerAction::Track
                },
                PointerEventKind::Leave if drawable => PointerAction::Leave,
                PointerEventKind::Press(code) if drawable && button_of(code) is Some =>
                    PointerAction::Down(button_of(code)->0),
                PointerEventKind::Release(code) if drawable && button_of(code) is Some =>
                    PointerAction::Up(button_of(code)->0),
                _ => PointerAction::Ignore,
            }
        }
    }

    /// Something happened at `now` to a file in the directory of the configuration file. If it is
    /// the configuration file, it is to be loaded anew once it is left alone.
    pub fn config_touched(&mut self, touched: Option<&[u8]>, file_name: &[u8], now: u64)
        requires
            old(self).wf(),
        ensures
            final(self).wf(),
            *final(self) == (if touched is Some && touched->0@ == file_name@ {
                Daemon { reload_at: Some((now + RELOAD_DELAY) as u128), ..*old(self) }
            } else {
                *old(self)
            }),
    {
        let matches: bool = match touched {
            Some(name) => same_bytes(name, file_name),
            None => false,
        };
        if matches {
            self.reload_at = Some(now as u128 + RELOAD_DELAY as u128);
        }
    }

    /// Tells whether the configuration is to be loaded anew at `now`, and takes it as done.
    pub fn take_due_reload(&mut self, now: u64) -> (due: bool)
        requires
            old(self).wf(),
        ensures
            final(self).wf(),
            due == (old(self).reload_at matches Some(at) && at <= now),
            *final(self) == (if due {
                Daemon { reload_at: None, ..*old(self) }
            } else {
                *old(self)
            }),
    {
        if let Some(at) = self.reload_at {
            if at <= now as u128 {
                self.reload_at = None;
                return true;
            }
        }
        false
    }

    /// Closes the notifications that have expired at `now`, and gives the signals to be sent.
    pub fn expire(&mut self, now: u64) -> (sent: Vec<Signal>)
        requires
            old(self).wf(),
        ensures
            final(self).wf(),
            final(self).stack@ == live(old(self).stack@, now),
            signals(sent@) == due_ids(old(self).stack@, now).map_values(
                |id: u32| SignalView::Closed { id, reason: CloseReason::Expired },
            ),
            final(self).stack_changed == (old(self).stack_changed || sent@.len() > 0),
            final(self).config == old(self).config,
            final(self).app == old(self).app,
            final(self).reload_at == old(self).reload_at,
            final(self).surface == old(self).surface,
            final(self).exit == old(self).exit,
    {
        let ghost popups = self.stack@;
        let ids = self.stack.expire(now);
        let mut sent: Vec<Signal> = Vec::new();
        let mut at: usize = 0;
        while at < ids.len()
            invariant
                at <= ids@.len(),
                sent@.len() == at,
                forall|i: int|
                    0 <= i < at ==> sent@[i] == (Signal::Closed {
                        id: ids@[i],
                        reason: CloseReason::Expired,
                    }),
            decreases ids@.len() - at,
        {
            sent.push(Signal::Closed { id: ids[at], reason: CloseReason::Expired });
            at = at + 1;
        }
        if ids.len() > 0 {
            self.stack_changed = true;
        } else {
            proof {
                lemma_nothing_due(popups, now);
            }
        }
        assert(signals(sent@) =~= due_ids(popups, now).map_values(
            |id: u32| SignalView::Closed { id, reason: CloseReason::Expired },
        ));
        sent
    }

    /// Makes the surface dirty if an animation frame is due at `now`.
    pub fn tick(&mut self, now: u64)
        requires
            old(self).wf(),
        ensures
            final(self).wf(),
            *final(self) == (match old(self).surface {
                Some(surface) => if surface.anim_deadline matches Some(deadline) && deadline
                    <= now {
                    Daemon {
                        surface: Some(
                            NotifySurface { anim_deadline: None, dirty: true, ..surface },
                        ),
                        ..*old(self)
                    }
                } else {
                    *old(self)
                },
                None => *old(self),
            }),
    {
        if let Some(surface) = self.surface.take() {
            let mut surface = surface;
            surface.tick(now);
            self.surface = Some(surface);
        }
    }

    /// Whether the surface is to be drawn.
    pub fn wants_draw(&self) -> (wanted: bool)
        ensures
            wanted == (self.surface matches Some(surface) && surface.dirty),
    {
        match &self.surface {
            Some(surface) => surface.dirty,
            None => false,
        }
    }

    /// Whether something is to happen after `wait` nanoseconds: a notification expires, an
    /// animation frame is due, the configuration is loaded anew, or the longest sleep is over.
    pub open spec fn happens_after(self, now: u64, wait: int) -> bool {
        ||| wait == LONGEST_SLEEP
        ||| exists|i: int|
            0 <= i < self.stack@.len() && ((#[trigger] self.stack@[i]).deadline matches Some(
                deadline,
            ) && wait == time_left(deadline, now))
        ||| self.surface matches Some(surface) && surface.anim_deadline matches Some(deadline)
            && wait == time_left(deadline, now)
        ||| self.reload_at matches Some(at) && wait == time_left(at, now)
    }

    /// How long to sleep from `now` on, in nanoseconds: until the first thing that is to happen.
    pub fn sleep(&self, now: u64) -> (wait: u64)
        ensures
            self.happens_after(now, wait as int),
            forall|other: int| self.happens_after(now, other) ==> wait <= other,
    {
        let mut wait: u64 = LONGEST_SLEEP;
        let mut at: usize = 0;
        while at < self.stack.len()
            invariant
                at <= self.stack@.len(),
                wait <= LONGEST_SLEEP,
                self.happens_after(now, wait as int),
                forall|i: int|
                    0 <= i < at ==> ((#[trigger] self.stack@[i]).deadline matches Some(deadline)
                        ==> wait <= time_left(deadline, now)),
            decreases self.stack@.len() - at,
        {
            if let Some(deadline) = self.stack.get(at).deadline {
                wait = sooner(wait, deadline, now);
            }
            at = at + 1;
        }
        if let Some(surface) = &self.surface {
            if let Some(deadline) = surface.anim_deadline {
                wait = sooner(wait, deadline, now);
            }
        }
        if let Some(deadline) = self.reload_at {
            wait = sooner(wait, deadline, now);
        }
        wait
    }
}

/// The shorter of a time to wait and the time to a deadline.
fn sooner(wait: u64, deadline: u128, now: u64) -> (shorter: u64)
    ensures
        shorter == (if time_left(deadline, now) < wait {
            time_left(deadline, now)
        } else {
            wait as int
        }),
{
    if deadline <= now as u128 {
        0
    } else if deadline - (now as u128) < wait as u128 {
        (deadline - (now as u128)) as u64
    } else {
        wait
    }
}

/// Whether two byte strings are the same.
fn same_bytes(a: &[u8], b: &[u8]) -> (same: bool)
    ensures
        same == (a@ == b@),
{
    if a.len() != b.len() {
        return false;
    }
    let mut at: usize = 0;
    while at < a.len()
        invariant
            at <= a@.len() == b@.len(),
            forall|i: int| 0 <= i < at ==> a@[i] == b@[i],
        decreases a@.len() - at,
    {
        if a[at] != b[at] {
            return false;
        }
        at = at + 1;
    }
    assert(a@ =~= b@);
    true
}

/// Where nothing has expired the stack stays as it is.
proof fn lemma_nothing_due(popups: Seq<Popup>, now: u64)
    requires
        due_ids(popups, now).len() == 0,
    ensures
        live(popups, now) == popups,
    decreases popups.len(),
{
    reveal(Seq::filter);
    if popups.len() > 0 {
        let before = popups.drop_last();
        lemma_nothing_due(before, now);
        assert(!is_due(popups.last(), now));
        assert(before.push(popups.last()) =~= popups);
    } else {
        assert(live(popups, now) =~= popups);
    }
}

/// What an optional signal tells.
pub open spec fn opt_signals(signal: Option<Signal>) -> Seq<SignalView> {
    match signal {
        Some(signal) => seq![signal@],
        None => Seq::empty(),
    }
}

/// The notifications that the user sees have ids of their own.
proof fn lemma_shown_are_distinct(app: NotifyApp, popups: Seq<Popup>)
    requires
        crate::stack::distinct_ids(popups),
        shows(app, popups),
    ensures
        distinct_items(app.items@),
{
    let all = notifications(popups);
    assert forall|i: int, j: int|
        #![trigger app.items@[i], app.items@[j]]
        0 <= i < j < app.items@.len() implies app.items@[i].id != app.items@[j].id by {
        assert(app.items@[i] == all[i] && app.items@[j] == all[j]);
        assert(popups[i].notif.id != popups[j].notif.id);
    }
}

/// There is a surface only while the stack has something to show: once every change is shown, an
/// empty stack has none.
pub proof fn law_no_surface_for_an_empty_stack(daemon: Daemon)
    requires
        daemon.wf(),
        !daemon.stack_changed,
        daemon.stack@.len() == 0,
    ensures
        daemon.surface is None,
{
}

/// A notification is closed once: closing it again tells nothing and changes nothing.
pub proof fn law_closed_once(
    popups: Seq<Popup>,
    id: u32,
    first: CloseReason,
    second: CloseReason,
)
    requires
        crate::stack::distinct_ids(popups),
        has_id(popups, id),
    ensures
        closing(popups, id, first) == seq![SignalView::Closed { id, reason: first }],
        closing(without(popups, id), id, second) == Seq::<SignalView>::empty(),
        without(without(popups, id), id) == without(popups, id),
{
    let other = if id == 0 {
        1u32
    } else {
        0u32
    };
    law_removed_is_gone(popups, id, other);
    law_removed_is_gone(without(popups, id), id, other);
}

/// An invoked action is told to the client before its notification is closed.
pub proof fn law_invoked_then_closed(popups: Seq<Popup>, id: u32, key: Seq<char>)
    requires
        has_id(popups, id),
    ensures
        acted(popups, UserActionView::Invoke(id, key)).1 == seq![
            SignalView::ActionInvoked { id, key },
            SignalView::Closed { id, reason: CloseReason::Dismissed },
        ],
{
    assert(acted(popups, UserActionView::Invoke(id, key)).1 =~= seq![
        SignalView::ActionInvoked { id, key },
        SignalView::Closed { id, reason: CloseReason::Dismissed },
    ]);
}

/// A click on the cross of a card that is shown closes its notification as dismissed, and tells
/// nothing else.
pub proof fn law_cross_closes(daemon: Daemon, event: UiEvent, at: int)
    requires
        daemon.wf(),
        !daemon.stack_changed,
        0 <= at < daemon.app.items@.len(),
        event.target() == Some(close_key(daemon.app.items@[at].id)),
    ensures
        ({
            let id = daemon.app.items@[at].id;
            acted_all(daemon.stack@, reactions(daemon.app.items@, seq![event])) == (
                without(daemon.stack@, id),
                seq![SignalView::Closed { id, reason: CloseReason::Dismissed }],
            )
        }),
{
    let items = daemon.app.items@;
    let id = items[at].id;
    law_cross_dismisses(items, at);
    let events = seq![event];
    assert(events.drop_last() =~= Seq::empty());
    let actions = reactions(items, events);
    assert(reactions(items, events.drop_last()) =~= Seq::empty());
    assert(actions =~= seq![UserActionView::Dismiss(id)]);
    assert(actions.drop_last() =~= Seq::empty());
    assert(notifications(daemon.stack@)[at] == items[at]);
    assert(is_at(daemon.stack@, at, id));
    assert(acted_all(daemon.stack@, actions.drop_last()) == (
        daemon.stack@,
        Seq::<SignalView>::empty(),
    ));
    assert(acted_all(daemon.stack@, actions).1 =~= seq![
        SignalView::Closed { id, reason: CloseReason::Dismissed },
    ]);
}

/// The daemon does not sleep past the time at which a notification expires.
pub proof fn law_sleep_ends_by_every_deadline(daemon: Daemon, now: u64, wait: u64, at: int)
    requires
        forall|other: int| daemon.happens_after(now, other) ==> wait <= other,
        0 <= at < daemon.stack@.len(),
        daemon.stack@[at].deadline is Some,
    ensures
        is_due(daemon.stack@[at], now) ==> wait == 0,
        !is_due(daemon.stack@[at], now) ==> now + wait <= daemon.stack@[at].deadline->0,
{
    let deadline = daemon.stack@[at].deadline->0;
    assert(daemon.happens_after(now, time_left(deadline, now)));
}

/// The configuration is loaded anew once its file was left alone long enough after it was last
/// touched, at `last`, and not before.
pub proof fn law_reload_waits_for_quiet(reload_at: Option<u128>, last: u64, now: u64)
    requires
        reload_at == Some((last + RELOAD_DELAY) as u128),
    ensures
        (reload_at matches Some(at) && at <= now) <==> now - last >= RELOAD_DELAY,
{
}

/// The newest notification has the first card: once a new notification is shown, it stands in
/// front of the cards that were in the stack before it.
pub proof fn law_newest_is_shown_first(app: NotifyApp, popups: Seq<Popup>, popup: Popup, at: int)
    requires
        !has_id(popups, popup.notif.id),
        shows(app, upserted(popups, popup)),
        app.max_visible > 0,
    ensures
        app.total == popups.len() + 1,
        app.items@.len() > 0,
        app.items@[0] == popup.notif,
        0 <= at < popups.len() && at + 1 < app.max_visible ==> app.items@[at + 1]
            == popups[at].notif,
{
    let all = notifications(upserted(popups, popup));
    assert(all[0] == popup.notif);
    if 0 <= at < popups.len() {
        assert(all[at + 1] == popups[at].notif);
    }
}

/// The buttons by their Linux codes; no other code is a button.
pub proof fn law_button_codes(code: u32)
    ensures
        button_of(code) == Some(PointerButton::Primary) <==> code == 0x110,
        button_of(code) == Some(PointerButton::Secondary) <==> code == 0x111,
        button_of(code) == Some(PointerButton::Middle) <==> code == 0x112,
        button_of(code) is None <==> code != 0x110 && code != 0x111 && code != 0x112,
{
}

/// Closing a notification that is there tells its id and the reason, once; closing one that is not
/// tells nothing.
pub proof fn law_closing_is_told(popups: Seq<Popup>, id: u32, reason: CloseReason)
    ensures
        (exists|i: int| 0 <= i < popups.len() && (#[trigger] popups[i]).notif.id == id) ==> closing(
            popups,
            id,
            reason,
        ) == seq![SignalView::Closed { id, reason }],
        (forall|i: int| 0 <= i < popups.len() ==> (#[trigger] popups[i]).notif.id != id) ==> closing(
            popups,
            id,
            reason,
        ) == Seq::<SignalView>::empty(),
{
    crate::stack::law_ids_are_those_of_entries(popups, id);
}

/// A user action takes its notification out of the stack. A dismissal tells that it is closed; an
/// invoked action is told first, by its key.
pub proof fn law_user_actions_are_told(popups: Seq<Popup>, id: u32, key: Seq<char>)
    ensures
        acted(popups, UserActionView::Dismiss(id)).0 == without(popups, id),
        acted(popups, UserActionView::Dismiss(id)).1 == closing(
            popups,
            id,
            CloseReason::Dismissed,
        ),
        acted(popups, UserActionView::Invoke(id, key)).0 == without(popups, id),
        acted(popups, UserActionView::Invoke(id, key)).1 == seq![
            SignalView::ActionInvoked { id, key },
        ] + closing(popups, id, CloseReason::Dismissed),
{
}

/// User actions are done one after the other, each on the stack that the ones before it left, and
/// told in that order.
pub proof fn law_actions_one_by_one(
    popups: Seq<Popup>,
    actions: Seq<UserActionView>,
    action: UserActionView,
)
    ensures
        acted_all(popups, Seq::empty()) == (popups, Seq::<SignalView>::empty()),
        acted_all(popups, actions.push(action)).0 == acted(
            acted_all(popups, actions).0,
            action,
        ).0,
        acted_all(popups, actions.push(action)).1 == acted_all(popups, actions).1 + acted(
            acted_all(popups, actions).0,
            action,
        ).1,
{
    assert(actions.push(action).drop_last() =~= actions);
}

/// Events are looked at one after the other; each adds what it asks for, if it asks for something.
pub proof fn law_events_one_by_one(
    items: Seq<Rc<Notification>>,
    events: Seq<UiEvent>,
    event: UiEvent,
)
    ensures
        reactions(items, Seq::empty()).len() == 0,
        reaction(items, event) matches Some(action) ==> reactions(items, events.push(event))
            == reactions(items, events).push(action),
        reaction(items, event) is None ==> reactions(items, events.push(event)) == reactions(
            items,
            events,
        ),
{
    assert(events.push(event).drop_last() =~= events);
    if let Some(action) = reaction(items, event) {
        assert(reactions(items, events) + seq![action] =~= reactions(items, events).push(action));
    } else {
        assert(reactions(items, events) + Seq::empty() =~= reactions(items, events));
    }
}

/// What the user sees of a stack: all of it is counted, and the newest entries have cards, in order,
/// as many as may be shown.
pub proof fn law_newest_have_cards(app: NotifyApp, popups: Seq<Popup>, i: int)
    requires
        shows(app, popups),
    ensures
        app.total == popups.len(),
        popups.len() <= app.max_visible ==> app.items@.len() == popups.len(),
        popups.len() > app.max_visible ==> app.items@.len() == app.max_visible,
        0 <= i < popups.len() && i < app.max_visible ==> app.items@[i] == popups[i].notif,
{
    if 0 <= i < popups.len() {
        assert(notifications(popups)[i] == popups[i].notif);
    }
}

/// The stack looks as configured exactly if its corner, gap, number of cards and opacity do.
pub proof fn law_looks_as_configured(app: NotifyApp, config: Config)
    ensures
        follows(app, config) <==> app.corner == config.corner && app.gap == config.gap
            && app.max_visible == config.max_visible && app.opacity == config.opacity,
{
}

/// A daemon is in order exactly if ids stand once, what the user sees is the stack unless a change
/// waits, a surface without a change waiting has something to show, and nothing the user did waits.
pub proof fn law_daemon_in_order(daemon: Daemon)
    ensures
        daemon.wf() <==> {
            &&& crate::stack::distinct_ids(daemon.stack@)
            &&& daemon.stack_changed || daemon.surface is None || daemon.stack@.len() > 0
            &&& daemon.stack_changed || shows(daemon.app, daemon.stack@)
            &&& distinct_items(daemon.app.items@)
            &&& daemon.app.pending@.len() == 0
            &&& follows(daemon.app, daemon.config)
        },
{
}

/// Something happens after a time exactly if the hour is over, a notification expires, an animation
/// frame is due or the configuration is loaded anew; what is late happens at once.
pub proof fn law_what_happens_when(daemon: Daemon, now: u64, wait: int)
    ensures
        daemon.happens_after(now, wait) <==> {
            ||| wait == 3_600_000_000_000
            ||| exists|i: int|
                0 <= i < daemon.stack@.len() && ((#[trigger] daemon.stack@[i]).deadline matches Some(
                    deadline,
                ) && wait == (if deadline <= now {
                    0
                } else {
                    deadline - now
                }))
            ||| daemon.surface is Some && (daemon.surface->0.anim_deadline matches Some(deadline)
                && wait == (if deadline <= now {
                0
            } else {
                deadline - now
            }))
            ||| daemon.reload_at matches Some(deadline) && wait == (if deadline <= now {
                0
            } else {
                deadline - now
            })
        },
{
}

/// The configuration file must be left alone for 150 milliseconds.
pub proof fn law_reload_delay()
    ensures
        RELOAD_DELAY == 150_000_000,
{
}

/// What a pointer event on a surface comes to: nothing on other surfaces; a motion is tracked, and
/// told once there is a swapchain; leaving and the known buttons are told once there is one; nothing
/// else is.
pub proof fn law_pointer_events_are_told(daemon: Daemon, kind: PointerEventKind, code: u32)
    ensures
        daemon.pointer_reaction(false, kind) == PointerAction::Ignore,
        ({
            let drawable = daemon.surface is Some && daemon.surface->0.swapchain is Some;
            &&& drawable ==> {
                &&& daemon.pointer_reaction(true, PointerEventKind::Enter) == PointerAction::Move
                &&& daemon.pointer_reaction(true, PointerEventKind::Motion) == PointerAction::Move
                &&& daemon.pointer_reaction(true, PointerEventKind::Leave) == PointerAction::Leave
                &&& button_of(code) matches Some(button) ==> {
                    &&& daemon.pointer_reaction(true, PointerEventKind::Press(code))
                        == PointerAction::Down(button)
                    &&& daemon.pointer_reaction(true, PointerEventKind::Release(code))
                        == PointerAction::Up(button)
                }
            }
            &&& !drawable ==> {
                &&& daemon.pointer_reaction(true, PointerEventKind::Enter) == PointerAction::Track
                &&& daemon.pointer_reaction(true, PointerEventKind::Motion) == PointerAction::Track
                &&& daemon.pointer_reaction(true, PointerEventKind::Leave) == PointerAction::Ignore
            }
            &&& !drawable || button_of(code) is None ==> {
                &&& daemon.pointer_reaction(true, PointerEventKind::Press(code))
                    == PointerAction::Ignore
                &&& daemon.pointer_reaction(true, PointerEventKind::Release(code))
                    == PointerAction::Ignore
            }
            &&& daemon.pointer_reaction(true, PointerEventKind::Axis) == PointerAction::Ignore
        }),
{
}

/// An optional signal is told exactly if it is there.
pub proof fn law_optional_signal(signal: Option<Signal>)
    ensures
        signal is None ==> opt_signals(signal).len() == 0,
        signal matches Some(own) ==> opt_signals(signal) == seq![own@],
{
}

} // verus!
