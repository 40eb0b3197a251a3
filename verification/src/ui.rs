//! The notification stack as the user sees it: which cards there are, what they hold, and what a
//! click on them means.

use crate::config::{Config, Corner, Opacity, OPAQUE_BITS};
use crate::notification::{Notification, Urgency};
use crate::text::{
    decimal, is_digit, lemma_decimal_digits, lemma_decimal_injective, push_decimal,
};
use damascene_core::image::Image;
use std::rc::Rc;
use vstd::prelude::*;

verus! {

/// Key of the stack column, read back to measure it.
pub const STACK_KEY: &'static str = "stack";

/// Room around the stack for the shadows of the cards, logical pixels. The surface is sized to the
/// stack with this padding, so that shadows are not cut off at its edge.
pub const SHADOW_GUTTER: u32 = 16;

/// What the user did to a notification.
#[derive(Debug)]
pub enum UserAction {
    /// Close (the cross of the card, or a click on the body without a default action).
    Dismiss(u32),
    /// An action was invoked: tell the client, then close.
    Invoke(u32, String),
}

/// What a user action says.
pub enum UserActionView {
    Dismiss(u32),
    Invoke(u32, Seq<char>),
}

impl View for UserAction {
    type V = UserActionView;

    open spec fn view(&self) -> UserActionView {
        match *self {
            UserAction::Dismiss(id) => UserActionView::Dismiss(id),
            UserAction::Invoke(id, key) => UserActionView::Invoke(id, key@),
        }
    }
}

/// What a sequence of user actions says.
pub open spec fn user_actions(actions: Seq<UserAction>) -> Seq<UserActionView> {
    actions.map_values(|action: UserAction| action@)
}

/// The key of a card.
pub open spec fn card_key(id: u32) -> Seq<char> {
    "n-"@ + decimal(id as nat)
}

/// The key of the cross of a card.
pub open spec fn close_key(id: u32) -> Seq<char> {
    card_key(id) + "-close"@
}

/// The key of the button of an action.
pub open spec fn action_key(id: u32, key: Seq<char>) -> Seq<char> {
    card_key(id) + "-act-"@ + key
}

/// The key of a card.
fn make_card_key(id: u32) -> (key: String)
    ensures
        key@ == card_key(id),
{
    let mut key = "n-".to_owned();
    push_decimal(&mut key, id as u64);
    key
}

/// The key of the cross of a card.
fn make_close_key(id: u32) -> (key: String)
    ensures
        key@ == close_key(id),
{
    let mut key = make_card_key(id);
    key.append("-close");
    key
}

/// The key of the button of an action.
fn make_action_key(id: u32, action: &str) -> (key: String)
    ensures
        key@ == action_key(id, action@),
{
    let mut key = make_card_key(id);
    key.append("-act-");
    key.append(action);
    key
}

/// An action button of a card.
pub struct Button<'a> {
    pub key: String,
    pub label: &'a str,
}

/// What a button says.
pub struct ButtonView {
    pub key: Seq<char>,
    pub label: Seq<char>,
}

impl<'a> View for Button<'a> {
    type V = ButtonView;

    open spec fn view(&self) -> ButtonView {
        ButtonView { key: self.key@, label: self.label@ }
    }
}

/// A card: a strip with the application's name and the cross, the message with an optional image
/// beside it, and the action buttons.
pub struct Card<'a> {
    pub key: String,
    pub close_key: String,
    pub app_name: &'a str,
    /// Whether the strip and the outline have the colour of destructive actions.
    pub critical: bool,
    /// Whether the whole card is a little more translucent.
    pub dimmed: bool,
    /// Opacity of the card and its strip.
    pub opacity: Opacity,
    pub title: Option<&'a str>,
    pub description: Option<&'a str>,
    pub image: Option<&'a Image>,
    pub buttons: Vec<Button<'a>>,
}

/// What a card shows.
pub struct CardView {
    pub key: Seq<char>,
    pub close_key: Seq<char>,
    pub app_name: Seq<char>,
    pub critical: bool,
    pub dimmed: bool,
    pub opacity: Opacity,
    pub title: Option<Seq<char>>,
    pub description: Option<Seq<char>>,
    pub image: Option<Image>,
    pub buttons: Seq<ButtonView>,
}

/// The characters of an optional text.
pub open spec fn opt_str(text: Option<&str>) -> Option<Seq<char>> {
    match text {
        Some(text) => Some(text@),
        None => None,
    }
}

impl<'a> View for Card<'a> {
    type V = CardView;

    open spec fn view(&self) -> CardView {
        CardView {
            key: self.key@,
            close_key: self.close_key@,
            app_name: self.app_name@,
            critical: self.critical,
            dimmed: self.dimmed,
            opacity: self.opacity,
            title: opt_str(self.title),
            description: opt_str(self.description),
            image: match self.image {
                Some(image) => Some(*image),
                None => None,
            },
            buttons: self.buttons@.map_values(|button: Button<'a>| button@),
        }
    }
}

/// A text line of a card; an empty text makes none.
pub open spec fn line(text: Seq<char>) -> Option<Seq<char>> {
    if text.len() == 0 {
        None
    } else {
        Some(text)
    }
}

/// The card of a notification. A critical one is opaque and stands out; the others have the
/// configured opacity, and one of low urgency is dimmed on top.
pub open spec fn card_of(n: Notification, opacity: Opacity) -> CardView {
    CardView {
        key: card_key(n.id),
        close_key: close_key(n.id),
        app_name: n.app_name@,
        critical: n.urgency == Urgency::Critical,
        dimmed: n.urgency == Urgency::Low,
        opacity: if n.urgency == Urgency::Critical {
            Opacity { bits: OPAQUE_BITS }
        } else {
            opacity
        },
        title: line(n.summary@),
        description: line(n.body@),
        image: n.image,
        buttons: Seq::new(
            n.actions@.len(),
            |i: int|
                ButtonView {
                    key: action_key(n.id, n.actions@[i].key@),
                    label: n.actions@[i].label@,
                },
        ),
    }
}

/// A row of the stack.
pub enum Row<'a> {
    Card(Card<'a>),
    /// The line that stands for the cards that are not shown.
    More(String),
}

/// What a row shows.
pub enum RowView {
    Card(CardView),
    More(Seq<char>),
}

impl<'a> View for Row<'a> {
    type V = RowView;

    open spec fn view(&self) -> RowView {
        match *self {
            Row::Card(card) => RowView::Card(card@),
            Row::More(label) => RowView::More(label@),
        }
    }
}

/// The stack, ready to be drawn: its rows from top to bottom, the gap between them and the padding
/// around them.
pub struct StackTree<'a> {
    pub rows: Vec<Row<'a>>,
    pub gap: u32,
    pub padding: u32,
}

/// What a sequence of rows shows.
pub open spec fn row_views<'a>(rows: Seq<Row<'a>>) -> Seq<RowView> {
    rows.map_values(|row: Row<'a>| row@)
}

/// The line that stands for `hidden` cards.
pub open spec fn more_label(hidden: nat) -> Seq<char> {
    "+"@ + decimal(hidden) + " more"@
}

/// The kinds of events that are told apart.
#[derive(Debug, Clone, Copy, PartialEq, Eq, Structural)]
pub enum UiEventKind {
    /// A primary click.
    Click,
    /// Keyboard activation.
    Activate,
    /// Any other event.
    Other,
}

/// An event of the toolkit: its kind, and the key of the element it is routed to.
#[derive(Debug)]
pub struct UiEvent {
    pub kind: UiEventKind,
    pub key: Option<String>,
}

impl UiEvent {
    /// The key of the element that was clicked or activated, if the event is that.
    pub open spec fn target(self) -> Option<Seq<char>> {
        match self.key {
            Some(key) => if self.kind == UiEventKind::Click || self.kind == UiEventKind::Activate {
                Some(key@)
            } else {
                None
            },
            None => None,
        }
    }

    /// Whether the event is a primary click or a keyboard activation of `key`.
    pub fn is_click_or_activate(&self, key: &str) -> (hit: bool)
        ensures
            hit == (self.target() == Some(key@)),
    {
        match &self.key {
            Some(own) => (self.kind == UiEventKind::Click || self.kind == UiEventKind::Activate)
                && *own.as_str() == *key,
            None => false,
        }
    }
}

/// The stack as the user sees it, and what the user did to it.
pub struct NotifyApp {
    /// Notifications with a card, newest first.
    pub items: Vec<Rc<Notification>>,
    /// How many notifications there are, those without a card included.
    pub total: usize,
    pub corner: Corner,
    pub gap: u32,
    pub max_visible: usize,
    /// Card translucency from the configuration.
    pub opacity: Opacity,
    pub pending: Vec<UserAction>,
}

impl NotifyApp {
    /// The rows of the stack: a card for each item, then the line for those that have none. In a
    /// bottom corner they stand in reverse, so that the newest card is nearest the corner.
    pub open spec fn rows(self) -> Seq<RowView> {
        let cards = Seq::new(
            self.items@.len(),
            |i: int| RowView::Card(card_of(*self.items@[i], self.opacity)),
        );
        let all = if self.total > self.items@.len() {
            cards.push(RowView::More(more_label((self.total - self.items@.len()) as nat)))
        } else {
            cards
        };
        if self.corner == Corner::BottomRight || self.corner == Corner::BottomLeft {
            all.reverse()
        } else {
            all
        }
    }

    /// An empty stack that looks as the configuration says.
    pub fn new(config: &Config) -> (app: NotifyApp)
        ensures
            app.items@.len() == 0,
            app.total == 0,
            app.corner == config.corner,
            app.gap == config.gap,
            app.max_visible == config.max_visible,
            app.opacity == config.opacity,
            app.pending@.len() == 0,
    {
        NotifyApp {
            items: Vec::new(),
            total: 0,
            corner: config.corner,
            gap: config.gap,
            max_visible: config.max_visible,
            opacity: config.opacity,
            pending: Vec::new(),
        }
    }

    /// Sets the notifications, newest first. The first `max_visible` of them get a card.
    pub fn set_state(&mut self, items: Vec<Rc<Notification>>)
        ensures
            final(self).total == items@.len(),
            final(self).items@ == (if items@.len() <= old(self).max_visible {
                items@
            } else {
                items@.take(old(self).max_visible as int)
            }),
            final(self).corner == old(self).corner,
            final(self).gap == old(self).gap,
            final(self).max_visible == old(self).max_visible,
            final(self).opacity == old(self).opacity,
            final(self).pending == old(self).pending,
    {
        let max_visible: usize = self.max_visible;
        self.total = items.len();
        self.items = items;
        self.items.truncate(max_visible);
        assert(items@.subrange(0, items@.len() as int) =~= items@);
    }

    /// Hands out what the user did since the last time.
    pub fn take_actions(&mut self) -> (actions: Vec<UserAction>)
        ensures
            actions == old(self).pending,
            final(self).pending@.len() == 0,
            final(self).items == old(self).items,
            final(self).total == old(self).total,
            final(self).corner == old(self).corner,
            final(self).gap == old(self).gap,
            final(self).max_visible == old(self).max_visible,
            final(self).opacity == old(self).opacity,
    {
        let mut actions: Vec<UserAction> = Vec::new();
        std::mem::swap(&mut actions, &mut self.pending);
        actions
    }

    /// The card of a notification.
    fn card<'a>(&self, n: &'a Notification) -> (card: Card<'a>)
        ensures
            card@ == card_of(*n, self.opacity),
    {
        let critical = n.urgency == Urgency::Critical;
        let mut buttons: Vec<Button<'a>> = Vec::new();
        let mut at: usize = 0;
        while at < n.actions.len()
            invariant
                at <= n.actions@.len(),
                buttons@.len() == at,
                forall|i: int|
                    0 <= i < at ==> (#[trigger] buttons@[i])@ == (ButtonView {
                        key: action_key(n.id, n.actions@[i].key@),
                        label: n.actions@[i].label@,
                    }),
            decreases n.actions@.len() - at,
        {
            let action = &n.actions[at];
            buttons.push(
                Button {
                    key: make_action_key(n.id, action.key.as_str()),
                    label: action.label.as_str(),
                },
            );
            at = at + 1;
        }
        let summary = n.summary.as_str();
        let body = n.body.as_str();
        let card = Card {
            key: make_card_key(n.id),
            close_key: make_close_key(n.id),
            app_name: n.app_name.as_str(),
            critical,
            dimmed: n.urgency == Urgency::Low,
            opacity: if critical {
                Opacity::opaque()
            } else {
                self.opacity
            },
            title: if summary.is_empty() {
                None
            } else {
                Some(summary)
            },
            description: if body.is_empty() {
                None
            } else {
                Some(body)
            },
            image: n.image.as_ref(),
            buttons,
        };
        assert(card@.buttons =~= card_of(*n, self.opacity).buttons);
        assert(card@ == card_of(*n, self.opacity));
        card
    }

    /// The stack, ready to be drawn.
    pub fn build(&self) -> (tree: StackTree<'_>)
        ensures
            row_views(tree.rows@) == self.rows(),
            tree.gap == self.gap,
            tree.padding == SHADOW_GUTTER,
    {
        let mut rows: Vec<Row<'_>> = Vec::new();
        let mut at: usize = 0;
        while at < self.items.len()
            invariant
                at <= self.items@.len(),
                rows@.len() == at,
                forall|i: int|
                    0 <= i < at ==> (#[trigger] rows@[i])@ == RowView::Card(
                        card_of(*self.items@[i], self.opacity),
                    ),
            decreases self.items@.len() - at,
        {
            rows.push(Row::Card(self.card(&self.items[at])));
            at = at + 1;
        }
        let hidden: usize = self.total.saturating_sub(self.items.len());
        if hidden > 0 {
            let mut label = "+".to_owned();
            push_decimal(&mut label, hidden as u64);
            label.append(" more");
            rows.push(Row::More(label));
        }
        if self.corner.is_bottom() {
            let ghost forward = rows@;
            let mut reversed: Vec<Row<'_>> = Vec::new();
            while rows.len() > 0
                invariant
                    rows@.len() + reversed@.len() == forward.len(),
                    rows@ == forward.take(rows@.len() as int),
                    forall|i: int|
                        0 <= i < reversed@.len() ==> reversed@[i] == forward[forward.len() - 1 - i],
                decreases rows@.len(),
            {
                if let Some(row) = rows.pop() {
                    reversed.push(row);
                }
            }
            assert(row_views(reversed@) =~= self.rows());
            StackTree { rows: reversed, gap: self.gap, padding: SHADOW_GUTTER }
        } else {
            assert(row_views(rows@) =~= self.rows());
            StackTree { rows, gap: self.gap, padding: SHADOW_GUTTER }
        }
    }
}

/// Whether a notification has an action with the given key.
pub open spec fn offers(n: Notification, key: Seq<char>) -> bool {
    exists|i: int| 0 <= i < n.actions@.len() && (#[trigger] n.actions@[i]).key@ == key
}

/// What a click on the element with the given key does to a notification, if it belongs to its
/// card: the cross dismisses it, a button invokes its action, and the body invokes the default
/// action or dismisses it if there is none.
pub open spec fn click_on(n: Notification, key: Seq<char>) -> Option<UserActionView> {
    let prefix = action_key(n.id, Seq::empty());
    if key == close_key(n.id) {
        Some(UserActionView::Dismiss(n.id))
    } else if prefix.is_prefix_of(key) && offers(n, key.skip(prefix.len() as int)) {
        Some(UserActionView::Invoke(n.id, key.skip(prefix.len() as int)))
    } else if key == card_key(n.id) {
        if n.has_default_action {
            Some(UserActionView::Invoke(n.id, "default"@))
        } else {
            Some(UserActionView::Dismiss(n.id))
        }
    } else {
        None
    }
}

/// What a click on the element with the given key does to the stack.
pub open spec fn click(items: Seq<Rc<Notification>>, key: Seq<char>) -> Option<UserActionView>
    decreases items.len(),
{
    if items.len() == 0 {
        None
    } else {
        match click_on(*items[0], key) {
            Some(action) => Some(action),
            None => click(items.skip(1), key),
        }
    }
}

/// What an event does to the stack.
pub open spec fn reaction(items: Seq<Rc<Notification>>, event: UiEvent) -> Option<UserActionView> {
    match event.target() {
        Some(key) => click(items, key),
        None => None,
    }
}

/// The action that an event asks of a notification, if it is a click on its card.
fn action_for(n: &Notification, event: &UiEvent) -> (action: Option<UserAction>)
    ensures
        (match action {
            Some(action) => Some(action@),
            None => None,
        }) == (match event.target() {
            Some(key) => click_on(*n, key),
            None => None,
        }),
{
    let ghost prefix = action_key(n.id, Seq::empty());
    if event.is_click_or_activate(make_close_key(n.id).as_str()) {
        return Some(UserAction::Dismiss(n.id));
    }
    let mut at: usize = 0;
    while at < n.actions.len()
        invariant
            at <= n.actions@.len(),
            prefix == action_key(n.id, Seq::empty()),
            event.target() != Some(close_key(n.id)),
            forall|i: int|
                0 <= i < at ==> event.target() != Some(
                    action_key(n.id, (#[trigger] n.actions@[i]).key@),
                ),
        decreases n.actions@.len() - at,
    {
        let key = &n.actions[at].key;
        if event.is_click_or_activate(make_action_key(n.id, key.as_str()).as_str()) {
            proof {
                lemma_action_key_suffix(n.id, key@);
                assert(n.actions@[at as int].key@ == key@);
            }
            return Some(UserAction::Invoke(n.id, key.clone()));
        }
        at = at + 1;
    }
    proof {
        if let Some(target) = event.target() {
            if prefix.is_prefix_of(target) {
                let own = target.skip(prefix.len() as int);
                assert(target =~= action_key(n.id, own)) by {
                    assert(prefix =~= card_key(n.id) + "-act-"@);
                    assert(target =~= prefix + own);
                }
                assert(!offers(*n, own));
            }
        }
    }
    if event.is_click_or_activate(make_card_key(n.id).as_str()) {
        if n.has_default_action {
            Some(UserAction::Invoke(n.id, "default".to_owned()))
        } else {
            Some(UserAction::Dismiss(n.id))
        }
    } else {
        None
    }
}

/// The key of a button ends with that of its action.
proof fn lemma_action_key_suffix(id: u32, key: Seq<char>)
    ensures
        ({
            let prefix = action_key(id, Seq::empty());
            &&& prefix.is_prefix_of(action_key(id, key))
            &&& action_key(id, key).skip(prefix.len() as int) == key
        }),
{
    let prefix = action_key(id, Seq::empty());
    assert(prefix =~= card_key(id) + "-act-"@);
    assert(action_key(id, key) =~= prefix + key);
    assert((prefix + key).skip(prefix.len() as int) =~= key);
}

impl NotifyApp {
    /// Takes note of what an event does to the stack.
    pub fn on_event(&mut self, event: &UiEvent)
        ensures
            user_actions(final(self).pending@) == user_actions(old(self).pending@) + (match reaction(
                old(self).items@,
                *event,
            ) {
                Some(action) => seq![action],
                None => Seq::empty(),
            }),
            final(self).items == old(self).items,
            final(self).total == old(self).total,
            final(self).corner == old(self).corner,
            final(self).gap == old(self).gap,
            final(self).max_visible == old(self).max_visible,
            final(self).opacity == old(self).opacity,
    {
        let ghost items = self.items@;
        let ghost pending = self.pending@;
        let mut at: usize = 0;
        assert(items.skip(0) =~= items);
        while at < self.items.len()
            invariant
                at <= items.len(),
                *self == *old(self),
                items == self.items@,
                pending == self.pending@,
                reaction(items, *event) == reaction(items.skip(at as int), *event),
            decreases items.len() - at,
        {
            assert(items.skip(at as int).skip(1) =~= items.skip(at + 1));
            if let Some(action) = action_for(&self.items[at], event) {
                self.pending.push(action);
                assert(user_actions(self.pending@) =~= user_actions(pending) + seq![action@]);
                return;
            }
            at = at + 1;
        }
        assert(user_actions(pending) =~= user_actions(pending) + Seq::<UserActionView>::empty());
    }
}

/// Whether every notification of the stack has an id of its own.
pub open spec fn distinct_items(items: Seq<Rc<Notification>>) -> bool {
    forall|i: int, j: int|
        #![trigger items[i], items[j]]
        0 <= i < j < items.len() ==> items[i].id != items[j].id
}

/// The key of a card with something behind it that does not start with a digit tells the id.
proof fn lemma_key_tells_id(a: u32, b: u32, behind_a: Seq<char>, behind_b: Seq<char>)
    requires
        card_key(a) + behind_a == card_key(b) + behind_b,
        behind_a.len() > 0 ==> !is_digit(behind_a[0]),
        behind_b.len() > 0 ==> !is_digit(behind_b[0]),
    ensures
        a == b,
        behind_a == behind_b,
{
    let da = decimal(a as nat);
    let db = decimal(b as nat);
    let head = "n-"@;
    let s = card_key(a) + behind_a;
    let t = card_key(b) + behind_b;
    lemma_decimal_digits(a as nat);
    lemma_decimal_digits(b as nat);
    if da.len() < db.len() {
        let at = (head.len() + da.len()) as int;
        assert(t[at] == db[da.len() as int]);
        assert(behind_a.len() > 0 && s[at] == behind_a[0]);
        assert(false);
    }
    if db.len() < da.len() {
        let at = (head.len() + db.len()) as int;
        assert(s[at] == da[db.len() as int]);
        assert(behind_b.len() > 0 && t[at] == behind_b[0]);
        assert(false);
    }
    assert(da =~= db) by {
        assert forall|i: int| 0 <= i < da.len() implies da[i] == db[i] by {
            assert(s[head.len() + i] == da[i]);
            assert(t[head.len() + i] == db[i]);
        }
    }
    lemma_decimal_injective(a as nat, b as nat);
    assert(behind_a =~= behind_b) by {
        assert(s.len() == t.len());
        assert forall|i: int| 0 <= i < behind_a.len() implies behind_a[i] == behind_b[i] by {
            assert(s[card_key(a).len() + i] == behind_a[i]);
            assert(t[card_key(b).len() + i] == behind_b[i]);
        }
    }
}

/// An element of a card belongs to no other card.
proof fn lemma_key_of_one_card(n: Notification, id: u32, behind: Seq<char>)
    requires
        n.id != id,
        behind.len() > 0 ==> !is_digit(behind[0]),
    ensures
        click_on(n, card_key(id) + behind) is None,
{
    reveal_strlit("-close");
    reveal_strlit("-act-");
    let key = card_key(id) + behind;
    if key == close_key(n.id) {
        lemma_key_tells_id(id, n.id, behind, "-close"@);
    }
    let prefix = action_key(n.id, Seq::empty());
    if prefix.is_prefix_of(key) {
        let own = key.skip(prefix.len() as int);
        let rest = "-act-"@ + own;
        assert(rest[0] == '-');
        assert(prefix =~= card_key(n.id) + "-act-"@);
        assert(key =~= prefix + own);
        assert(key =~= card_key(n.id) + rest);
        lemma_key_tells_id(id, n.id, behind, rest);
    }
    if key == card_key(n.id) {
        assert(card_key(n.id) =~= card_key(n.id) + Seq::<char>::empty());
        lemma_key_tells_id(id, n.id, behind, Seq::empty());
    }
}

/// A click on an element of a card is one on the notification of the card.
proof fn lemma_click_finds_card(items: Seq<Rc<Notification>>, at: int, behind: Seq<char>)
    requires
        distinct_items(items),
        0 <= at < items.len(),
        behind.len() > 0 ==> !is_digit(behind[0]),
        click_on(*items[at], card_key(items[at].id) + behind) is Some,
    ensures
        click(items, card_key(items[at].id) + behind) == click_on(
            *items[at],
            card_key(items[at].id) + behind,
        ),
    decreases items.len(),
{
    if at > 0 {
        assert(items[0].id != items[at].id);
        let first = *items[0];
        lemma_key_of_one_card(first, items[at].id, behind);
        let rest = items.skip(1);
        assert(rest[at - 1] == items[at]);
        assert(distinct_items(rest)) by {
            assert forall|i: int, j: int|
                #![trigger rest[i], rest[j]]
                0 <= i < j < rest.len() implies rest[i].id != rest[j].id by {
                assert(rest[i] == items[i + 1] && rest[j] == items[j + 1]);
            }
        }
        lemma_click_finds_card(rest, at - 1, behind);
    }
}

/// A click on the cross of a card dismisses its notification, and no other.
pub proof fn law_cross_dismisses(items: Seq<Rc<Notification>>, at: int)
    requires
        distinct_items(items),
        0 <= at < items.len(),
    ensures
        click(items, close_key(items[at].id)) == Some(UserActionView::Dismiss(items[at].id)),
{
    reveal_strlit("-close");
    lemma_click_finds_card(items, at, "-close"@);
}

/// A click on a button of a card invokes the action of that button.
pub proof fn law_button_invokes_its_action(items: Seq<Rc<Notification>>, at: int, action: int)
    requires
        distinct_items(items),
        0 <= at < items.len(),
        0 <= action < items[at].actions@.len(),
    ensures
        click(items, action_key(items[at].id, items[at].actions@[action].key@)) == Some(
            UserActionView::Invoke(items[at].id, items[at].actions@[action].key@),
        ),
{
    reveal_strlit("-close");
    reveal_strlit("-act-");
    let n = *items[at];
    let own = n.actions@[action].key@;
    let behind = "-act-"@ + own;
    assert(behind[0] == '-' && behind[1] == 'a');
    assert(action_key(n.id, own) =~= card_key(n.id) + behind);
    lemma_action_key_suffix(n.id, own);
    if action_key(n.id, own) == close_key(n.id) {
        lemma_key_tells_id(n.id, n.id, behind, "-close"@);
        assert("-close"@[1] == 'c');
    }
    assert(offers(n, own));
    lemma_click_finds_card(items, at, behind);
}

/// A click on the body of a card invokes the default action, and dismisses the notification if it
/// has none.
pub proof fn law_body_invokes_default_or_dismisses(items: Seq<Rc<Notification>>, at: int)
    requires
        distinct_items(items),
        0 <= at < items.len(),
    ensures
        click(items, card_key(items[at].id)) == Some(
            if items[at].has_default_action {
                UserActionView::Invoke(items[at].id, "default"@)
            } else {
                UserActionView::Dismiss(items[at].id)
            },
        ),
{
    reveal_strlit("-close");
    reveal_strlit("-act-");
    let n = *items[at];
    let key = card_key(n.id);
    let prefix = action_key(n.id, Seq::empty());
    assert(key =~= key + Seq::<char>::empty());
    assert(key.len() < close_key(n.id).len());
    assert(key.len() < prefix.len());
    lemma_click_finds_card(items, at, Seq::empty());
}

/// A critical card stands out and lets nothing shine through, whatever the configuration says; one
/// of low urgency is more translucent than the configuration says; any other is as configured.
pub proof fn law_urgency_shows(n: Notification, opacity: Opacity)
    ensures
        n.urgency == Urgency::Critical ==> {
            let card = card_of(n, opacity);
            card.critical && !card.dimmed && card.opacity == (Opacity { bits: OPAQUE_BITS })
        },
        n.urgency == Urgency::Low ==> {
            let card = card_of(n, opacity);
            !card.critical && card.dimmed && card.opacity == opacity
        },
        n.urgency == Urgency::Normal ==> {
            let card = card_of(n, opacity);
            !card.critical && !card.dimmed && card.opacity == opacity
        },
{
}

/// As many cards are shown as fit, the newest ones, and a line counts the others: no notification
/// is shown twice or goes uncounted.
pub proof fn law_overflow_is_counted(app: NotifyApp, stack: Seq<Rc<Notification>>)
    requires
        app.total == stack.len(),
        app.items@ == (if stack.len() <= app.max_visible {
            stack
        } else {
            stack.take(app.max_visible as int)
        }),
        app.corner == Corner::TopRight || app.corner == Corner::TopLeft,
    ensures
        stack.len() <= app.max_visible ==> app.rows().len() == stack.len(),
        stack.len() > app.max_visible ==> {
            &&& app.rows().len() == app.max_visible + 1
            &&& app.rows().last() == RowView::More(
                more_label((stack.len() - app.max_visible) as nat),
            )
        },
        forall|i: int|
            0 <= i < stack.len() && i < app.max_visible ==> #[trigger] app.rows()[i]
                == RowView::Card(card_of(*stack[i], app.opacity)),
{
}

/// In a bottom corner the stack is that of a top corner from bottom to top.
pub proof fn law_bottom_corner_reverses_rows(top: NotifyApp, bottom: NotifyApp)
    requires
        top.corner == Corner::TopRight || top.corner == Corner::TopLeft,
        bottom.corner == Corner::BottomRight || bottom.corner == Corner::BottomLeft,
        top.items == bottom.items,
        top.total == bottom.total,
        top.opacity == bottom.opacity,
    ensures
        bottom.rows() == top.rows().reverse(),
{
}

/// The notification that a user action concerns.
pub open spec fn concerned(action: UserActionView) -> u32 {
    match action {
        UserActionView::Dismiss(id) => id,
        UserActionView::Invoke(id, _) => id,
    }
}

/// A click only ever concerns a notification that has a card.
pub proof fn law_clicks_concern_shown_cards(items: Seq<Rc<Notification>>, key: Seq<char>)
    requires
        click(items, key) is Some,
    ensures
        exists|i: int|
            0 <= i < items.len() && (#[trigger] items[i]).id == concerned(click(items, key)->0),
    decreases items.len(),
{
    let first = *items[0];
    if click_on(first, key) is Some {
        assert(items[0].id == concerned(click(items, key)->0));
    } else {
        let rest = items.skip(1);
        law_clicks_concern_shown_cards(rest, key);
        let i = choose|i: int|
            0 <= i < rest.len() && (#[trigger] rest[i]).id == concerned(click(rest, key)->0);
        assert(items[i + 1] == rest[i]);
    }
}

/// Whatever its urgency and the configuration, the card of a notification shows it: its name, its
/// texts where they are not empty, its image, and a button for each action with its label, in
/// order. Its elements have the keys that clicks on it are told by.
pub proof fn law_card_shows_its_notification(n: Notification, opacity: Opacity, i: int)
    ensures
        ({
            let card = card_of(n, opacity);
            &&& card.app_name == n.app_name@
            &&& n.summary@.len() > 0 ==> card.title == Some(n.summary@)
            &&& n.summary@.len() == 0 ==> card.title is None
            &&& n.body@.len() > 0 ==> card.description == Some(n.body@)
            &&& n.body@.len() == 0 ==> card.description is None
            &&& card.image == n.image
            &&& card.buttons.len() == n.actions@.len()
            &&& 0 <= i < n.actions@.len() ==> {
                &&& card.buttons[i].label == n.actions@[i].label@
                &&& card.buttons[i].key == action_key(n.id, n.actions@[i].key@)
            }
            &&& card.key == card_key(n.id)
            &&& card.close_key == close_key(n.id)
            &&& card.critical <==> n.urgency == Urgency::Critical
            &&& card.dimmed <==> n.urgency == Urgency::Low
            &&& n.urgency == Urgency::Critical ==> card.opacity.bits == 0x3f80_0000
            &&& n.urgency != Urgency::Critical ==> card.opacity == opacity
        }),
{
}

/// The keys of the elements of a card: the id in decimal notation tells the card.
pub proof fn law_keys_tell_the_card(id: u32, key: Seq<char>)
    ensures
        card_key(id) == "n-"@ + decimal(id as nat),
        close_key(id) == "n-"@ + decimal(id as nat) + "-close"@,
        action_key(id, key) == "n-"@ + decimal(id as nat) + "-act-"@ + key,
{
}

/// The rows from the corner outward: the cards of the items, in order, and behind them a line that
/// counts the notifications without a card, if there are any. At the top that is downward, at the
/// bottom upward.
pub proof fn law_rows_from_the_corner(app: NotifyApp, i: int)
    ensures
        ({
            let rows = app.rows();
            let shown = app.items@.len();
            let at = if app.corner == Corner::TopRight || app.corner == Corner::TopLeft {
                i
            } else {
                rows.len() - 1 - i
            };
            &&& app.total > shown ==> rows.len() == shown + 1
            &&& app.total <= shown ==> rows.len() == shown
            &&& 0 <= i < shown ==> rows[at] == RowView::Card(card_of(*app.items@[i], app.opacity))
            &&& i == shown && app.total > shown ==> rows[at] == RowView::More(
                "+"@ + decimal((app.total - shown) as nat) + " more"@,
            )
        }),
{
}

/// Only a click or a keyboard activation of an element is told, by the key of the element.
pub proof fn law_events_that_are_told(event: UiEvent, items: Seq<Rc<Notification>>)
    ensures
        event.kind == UiEventKind::Other || event.key is None ==> event.target() is None
            && reaction(items, event) is None,
        event.kind != UiEventKind::Other && event.key is Some ==> event.target() == Some(
            event.key->0@,
        ) && reaction(items, event) == click(items, event.key->0@),
{
}

/// A click on what is no element of a card does nothing.
pub proof fn law_other_clicks_do_nothing(items: Seq<Rc<Notification>>, key: Seq<char>)
    requires
        forall|i: int|
            0 <= i < items.len() ==> {
                let n = *#[trigger] items[i];
                &&& key != close_key(n.id)
                &&& key != card_key(n.id)
                &&& forall|j: int|
                    0 <= j < n.actions@.len() ==> key != action_key(
                        n.id,
                        (#[trigger] n.actions@[j]).key@,
                    )
            },
    ensures
        click(items, key) is None,
    decreases items.len(),
{
    if items.len() > 0 {
        let n = *items[0];
        let prefix = action_key(n.id, Seq::empty());
        if prefix.is_prefix_of(key) && offers(n, key.skip(prefix.len() as int)) {
            let own = key.skip(prefix.len() as int);
            let j = choose|j: int|
                0 <= j < n.actions@.len() && (#[trigger] n.actions@[j]).key@ == own;
            assert(prefix =~= card_key(n.id) + "-act-"@);
            assert(key =~= prefix + own);
            assert(key =~= action_key(n.id, n.actions@[j].key@));
            assert(false);
        }
        let rest = items.skip(1);
        assert forall|i: int| 0 <= i < rest.len() implies {
            let n = *#[trigger] rest[i];
            &&& key != close_key(n.id)
            &&& key != card_key(n.id)
            &&& forall|j: int|
                0 <= j < n.actions@.len() ==> key != action_key(
                    n.id,
                    (#[trigger] n.actions@[j]).key@,
                )
        } by {
            assert(rest[i] == items[i + 1]);
        }
        law_other_clicks_do_nothing(rest, key);
    }
}

/// Items are distinct exactly if no two of them share an id.
pub proof fn law_distinct_items(items: Seq<Rc<Notification>>)
    ensures
        distinct_items(items) <==> forall|i: int, j: int|
            #![trigger items[i], items[j]]
            0 <= i < items.len() && 0 <= j < items.len() && items[i].id == items[j].id ==> i == j,
{
}

/// A card shows what its fields say, its buttons one for one and in order.
pub proof fn law_cards_show_their_fields(card: Card<'_>, i: int)
    ensures
        card@.key == card.key@ && card@.close_key == card.close_key@,
        card@.app_name == card.app_name@,
        card@.critical == card.critical && card@.dimmed == card.dimmed,
        card@.opacity == card.opacity,
        card@.title is Some <==> card.title is Some,
        card.title matches Some(title) ==> card@.title == Some(title@),
        card@.description is Some <==> card.description is Some,
        card.description matches Some(description) ==> card@.description == Some(description@),
        card@.image is Some <==> card.image is Some,
        card.image matches Some(image) ==> card@.image == Some(*image),
        card@.buttons.len() == card.buttons@.len(),
        0 <= i < card.buttons@.len() ==> card@.buttons[i].key == card.buttons@[i].key@
            && card@.buttons[i].label == card.buttons@[i].label@,
{
}

/// A row shows its card or its line; rows and user actions are told one for one and in order.
pub proof fn law_rows_show_their_fields(
    rows: Seq<Row<'_>>,
    actions: Seq<UserAction>,
    label: String,
    id: u32,
    i: int,
)
    ensures
        row_views(rows).len() == rows.len(),
        0 <= i < rows.len() ==> row_views(rows)[i] == rows[i]@,
        0 <= i < rows.len() ==> (rows[i] matches Row::Card(card) ==> rows[i]@ == RowView::Card(
            card@,
        )),
        Row::More(label)@ == RowView::More(label@),
        user_actions(actions).len() == actions.len(),
        0 <= i < actions.len() ==> user_actions(actions)[i] == actions[i]@,
        UserAction::Dismiss(id)@ == UserActionView::Dismiss(id),
        UserAction::Invoke(id, label)@ == UserActionView::Invoke(id, label@),
{
}

/// A click goes to the first card that it is one on, whatever the other cards are.
pub proof fn law_first_card_answers(items: Seq<Rc<Notification>>, key: Seq<char>)
    requires
        items.len() > 0,
    ensures
        click(seq![items[0]], key) is Some ==> click(items, key) == click(seq![items[0]], key),
        click(seq![items[0]], key) is None ==> click(items, key) == click(items.skip(1), key),
        click(Seq::empty(), key) is None,
{
    let one = seq![items[0]];
    assert(one.skip(1) =~= Seq::empty());
    assert(click(one.skip(1), key) is None);
    assert(one[0] == items[0]);
}

} // verus!
