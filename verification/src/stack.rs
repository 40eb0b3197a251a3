//! The notification stack: newest first, one entry for each id, with the time at which each entry
//! expires.
//!
//! Times are nanoseconds since the daemon started.

use crate::notification::{Notification, Urgency};
use std::rc::Rc;
use vstd::prelude::*;

verus! {

/// Nanoseconds in a millisecond.
pub const NANOS_PER_MS: u128 = 1_000_000;

/// One notification with the time at which it expires.
pub struct Popup {
    pub notif: Rc<Notification>,
    /// `None` for a notification that stays (critical, or a timeout of 0).
    pub deadline: Option<u128>,
}

/// The entry of a notification that arrives at `now`.
pub open spec fn popup_of(n: Notification, default_ms: u64, now: u64) -> Popup {
    Popup {
        notif: Rc::new(n),
        deadline: match n.expiry(default_ms) {
            Some(ms) => Some((now + ms * NANOS_PER_MS) as u128),
            None => None,
        },
    }
}

/// Whether entry `i` is the notification with the given id.
pub open spec fn is_at(popups: Seq<Popup>, i: int, id: u32) -> bool {
    0 <= i < popups.len() && popups[i].notif.id == id
}

/// Whether the stack has a notification with the given id.
pub open spec fn has_id(popups: Seq<Popup>, id: u32) -> bool {
    exists|i: int| is_at(popups, i, id)
}

/// Where the notification with the given id stands.
pub open spec fn index_of_id(popups: Seq<Popup>, id: u32) -> int {
    choose|i: int| is_at(popups, i, id)
}

/// Every entry has an id of its own.
pub open spec fn distinct_ids(popups: Seq<Popup>) -> bool {
    forall|i: int, j: int|
        #![trigger popups[i], popups[j]]
        0 <= i < j < popups.len() ==> popups[i].notif.id != popups[j].notif.id
}

/// The stack with an entry put into it: in the place of the one with the same id, or in front of
/// all others.
pub open spec fn upserted(popups: Seq<Popup>, popup: Popup) -> Seq<Popup> {
    if has_id(popups, popup.notif.id) {
        popups.update(index_of_id(popups, popup.notif.id), popup)
    } else {
        seq![popup] + popups
    }
}

/// The stack without the notification with the given id.
pub open spec fn without(popups: Seq<Popup>, id: u32) -> Seq<Popup> {
    popups.filter(|popup: Popup| popup.notif.id != id)
}

/// Whether an entry has expired at `now`.
pub open spec fn is_due(popup: Popup, now: u64) -> bool {
    popup.deadline matches Some(deadline) && deadline <= now
}

/// The entries that have not expired at `now`.
pub open spec fn live(popups: Seq<Popup>, now: u64) -> Seq<Popup> {
    popups.filter(|popup: Popup| !is_due(popup, now))
}

/// The ids of the entries that have expired at `now`, in the order of the stack.
pub open spec fn due_ids(popups: Seq<Popup>, now: u64) -> Seq<u32> {
    popups.filter(|popup: Popup| is_due(popup, now)).map_values(|popup: Popup| popup.notif.id)
}

/// The notifications of the stack.
pub open spec fn notifications(popups: Seq<Popup>) -> Seq<Rc<Notification>> {
    popups.map_values(|popup: Popup| popup.notif)
}

/// The notification stack.
pub struct Stack {
    popups: Vec<Popup>,
}

impl View for Stack {
    type V = Seq<Popup>;

    closed spec fn view(&self) -> Seq<Popup> {
        self.popups@
    }
}

/// `Rc::clone` of std: it gives one more pointer to the same notification.
#[verifier::external_body]
fn share(notif: &Rc<Notification>) -> (shared: Rc<Notification>)
    ensures
        shared == *notif,
{
    Rc::clone(notif)
}

impl Stack {
    /// Every entry has an id of its own.
    pub open spec fn wf(self) -> bool {
        distinct_ids(self@)
    }

    /// An empty stack.
    pub fn new() -> (stack: Stack)
        ensures
            stack.wf(),
            stack@ == Seq::<Popup>::empty(),
    {
        Stack { popups: Vec::new() }
    }

    /// How many notifications there are.
    pub fn len(&self) -> (len: usize)
        ensures
            len == self@.len(),
    {
        self.popups.len()
    }

    /// Entry `i` of the stack, counted from the newest.
    pub fn get(&self, i: usize) -> (popup: &Popup)
        requires
            i < self@.len(),
        ensures
            *popup == self@[i as int],
    {
        &self.popups[i]
    }

    /// Where the notification with the given id stands.
    fn position(&self, id: u32) -> (position: Option<usize>)
        ensures
            position is Some <==> has_id(self@, id),
            position matches Some(i) ==> is_at(self@, i as int, id),
    {
        let mut at: usize = 0;
        while at < self.popups.len()
            invariant
                at <= self@.len(),
                forall|i: int| 0 <= i < at ==> !is_at(self@, i, id),
            decreases self@.len() - at,
        {
            if self.popups[at].notif.id == id {
                assert(is_at(self@, at as int, id));
                return Some(at);
            }
            at = at + 1;
        }
        None
    }

    /// Puts a notification that arrives at `now` into the stack: it takes the place of the one with
    /// the same id, or stands in front of all others. Its time to expire starts either way.
    pub fn upsert(&mut self, n: Notification, default_ms: u64, now: u64)
        requires
            old(self).wf(),
        ensures
            final(self).wf(),
            final(self)@ == upserted(old(self)@, popup_of(n, default_ms, now)),
    {
        let ghost popups = self@;
        let ghost id = n.id;
        assert(u64::MAX + u64::MAX * NANOS_PER_MS <= u128::MAX);
        let deadline: Option<u128> = match n.timeout(default_ms) {
            Some(ms) => Some(now as u128 + ms as u128 * NANOS_PER_MS),
            None => None,
        };
        let popup = Popup { notif: Rc::new(n), deadline };
        match self.position(popup.notif.id) {
            Some(at) => {
                proof {
                    lemma_one_index(popups, at as int, id);
                }
                self.popups[at] = popup;
            },
            None => {
                self.popups.insert(0, popup);
                assert(self@ =~= seq![popup] + popups);
                assert forall|i: int, j: int|
                    #![trigger self@[i], self@[j]]
                    0 <= i < j < self@.len() implies self@[i].notif.id != self@[j].notif.id by {
                    assert(!is_at(popups, j - 1, id));
                }
            },
        }
    }

    /// Takes the notification with the given id out of the stack, and tells whether there was one.
    pub fn remove(&mut self, id: u32) -> (removed: bool)
        requires
            old(self).wf(),
        ensures
            final(self).wf(),
            removed == has_id(old(self)@, id),
            final(self)@ == without(old(self)@, id),
    {
        let ghost popups = self@;
        match self.position(id) {
            Some(at) => {
                let _ = self.popups.remove(at);
                proof {
                    lemma_without_present(popups, at as int, id);
                    lemma_filter_keeps_distinct(popups, |popup: Popup| popup.notif.id != id);
                }
                true
            },
            None => {
                proof {
                    lemma_without_absent(popups, id);
                }
                false
            },
        }
    }

    /// Takes the notifications that have expired at `now` out of the stack, and gives their ids.
    pub fn expire(&mut self, now: u64) -> (ids: Vec<u32>)
        requires
            old(self).wf(),
        ensures
            final(self).wf(),
            final(self)@ == live(old(self)@, now),
            ids@ == due_ids(old(self)@, now),
    {
        let ghost popups = self@;
        let ghost stays = |popup: Popup| !is_due(popup, now);
        let ghost goes = |popup: Popup| is_due(popup, now);
        let mut ids: Vec<u32> = Vec::new();
        let mut at: usize = 0;
        let ghost mut seen: int = 0;
        proof {
            reveal(Seq::filter);
            assert(popups.take(0).filter(stays) =~= Seq::empty());
            assert(ids@ =~= popups.take(0).filter(goes).map_values(|popup: Popup| popup.notif.id));
            assert(popups.skip(0) =~= popups);
            assert(self@ =~= popups.take(0).filter(stays) + popups.skip(0));
        }
        while at < self.popups.len()
            invariant
                0 <= seen <= popups.len(),
                stays == (|popup: Popup| !is_due(popup, now)),
                goes == (|popup: Popup| is_due(popup, now)),
                at == popups.take(seen).filter(stays).len(),
                self@ == popups.take(seen).filter(stays) + popups.skip(seen),
                ids@ == popups.take(seen).filter(goes).map_values(|popup: Popup| popup.notif.id),
            decreases self@.len() - at,
        {
            let ghost kept = popups.take(seen).filter(stays);
            let ghost gone = popups.take(seen).filter(goes);
            let popup = &self.popups[at];
            proof {
                reveal(Seq::filter);
                assert(*popup == popups[seen]);
                assert(popups.take(seen + 1).drop_last() =~= popups.take(seen));
                assert(popups.take(seen + 1).last() == popups[seen]);
            }
            let due: bool = match popup.deadline {
                Some(deadline) => deadline <= now as u128,
                None => false,
            };
            if due {
                ids.push(popup.notif.id);
                let _ = self.popups.remove(at);
                proof {
                    assert(self@ =~= kept + popups.skip(seen + 1));
                    assert(ids@ =~= gone.push(popups[seen]).map_values(
                        |popup: Popup| popup.notif.id,
                    ));
                }
            } else {
                proof {
                    assert(self@ =~= kept.push(popups[seen]) + popups.skip(seen + 1));
                }
                at = at + 1;
            }
            proof {
                seen = seen + 1;
            }
        }
        proof {
            assert(seen == popups.len());
            assert(popups.take(seen) =~= popups);
            assert(self@ =~= popups.filter(stays));
            lemma_filter_keeps_distinct(popups, stays);
        }
        ids
    }

    /// The notifications of the stack, newest first.
    pub fn notifications(&self) -> (items: Vec<Rc<Notification>>)
        ensures
            items@ == notifications(self@),
    {
        let mut items: Vec<Rc<Notification>> = Vec::new();
        let mut at: usize = 0;
        while at < self.popups.len()
            invariant
                at <= self@.len(),
                items@.len() == at,
                forall|i: int| 0 <= i < at ==> items@[i] == self@[i].notif,
            decreases self@.len() - at,
        {
            items.push(share(&self.popups[at].notif));
            at = at + 1;
        }
        assert(items@ =~= notifications(self@));
        items
    }
}

/// There is only one place for an id.
proof fn lemma_one_index(popups: Seq<Popup>, i: int, id: u32)
    requires
        distinct_ids(popups),
        is_at(popups, i, id),
    ensures
        has_id(popups, id),
        index_of_id(popups, id) == i,
{
    let j = index_of_id(popups, id);
    assert(is_at(popups, j, id));
    if i < j {
        assert(popups[i].notif.id != popups[j].notif.id);
    } else if j < i {
        assert(popups[j].notif.id != popups[i].notif.id);
    }
}

/// A filter keeps ids apart.
proof fn lemma_filter_keeps_distinct(popups: Seq<Popup>, wanted: spec_fn(Popup) -> bool)
    requires
        distinct_ids(popups),
    ensures
        distinct_ids(popups.filter(wanted)),
        forall|id: u32| #[trigger] has_id(popups.filter(wanted), id) ==> has_id(popups, id),
    decreases popups.len(),
{
    reveal(Seq::filter);
    if popups.len() > 0 {
        let before = popups.drop_last();
        assert(distinct_ids(before)) by {
            assert forall|i: int, j: int|
                #![trigger before[i], before[j]]
                0 <= i < j < before.len() implies before[i].notif.id != before[j].notif.id by {
                assert(before[i] == popups[i] && before[j] == popups[j]);
            }
        }
        lemma_filter_keeps_distinct(before, wanted);
        let kept = before.filter(wanted);
        let all = popups.filter(wanted);
        let last = popups.last();
        assert forall|id: u32| #[trigger] has_id(all, id) implies has_id(popups, id) by {
            let i = index_of_id(all, id);
            assert(is_at(all, i, id));
            if i < kept.len() {
                assert(is_at(kept, i, id));
                assert(has_id(kept, id));
                let j = index_of_id(before, id);
                assert(is_at(before, j, id));
                assert(is_at(popups, j, id));
            } else {
                assert(is_at(popups, popups.len() - 1, id));
            }
        }
        assert forall|i: int, j: int|
            #![trigger all[i], all[j]]
            0 <= i < j < all.len() implies all[i].notif.id != all[j].notif.id by {
            if j < kept.len() {
                assert(all[i] == kept[i] && all[j] == kept[j]);
            } else {
                let id = kept[i].notif.id;
                assert(is_at(kept, i, id));
                assert(has_id(kept, id));
                let k = index_of_id(before, id);
                assert(is_at(before, k, id));
                assert(popups[k].notif.id != popups[popups.len() - 1].notif.id);
            }
        }
    }
}

/// Taking out a notification that is not there changes nothing.
proof fn lemma_without_absent(popups: Seq<Popup>, id: u32)
    requires
        !has_id(popups, id),
    ensures
        without(popups, id) == popups,
    decreases popups.len(),
{
    reveal(Seq::filter);
    if popups.len() > 0 {
        let before = popups.drop_last();
        assert forall|i: int| !is_at(before, i, id) by {
            assert(!is_at(popups, i, id));
        }
        lemma_without_absent(before, id);
        assert(!is_at(popups, popups.len() - 1, id));
        assert(before.push(popups.last()) =~= popups);
    } else {
        assert(without(popups, id) =~= popups);
    }
}

/// Taking out a notification that is there takes out its entry and keeps the others in order.
proof fn lemma_without_present(popups: Seq<Popup>, at: int, id: u32)
    requires
        distinct_ids(popups),
        is_at(popups, at, id),
    ensures
        without(popups, id) == popups.remove(at),
        !has_id(without(popups, id), id),
    decreases popups.len(),
{
    reveal(Seq::filter);
    let before = popups.drop_last();
    let last = popups.len() - 1;
    if at == last {
        assert forall|i: int| !is_at(before, i, id) by {
            if is_at(before, i, id) {
                assert(popups[i].notif.id != popups[last].notif.id);
            }
        }
        lemma_without_absent(before, id);
        assert(before =~= popups.remove(at));
    } else {
        assert(distinct_ids(before)) by {
            assert forall|i: int, j: int|
                #![trigger before[i], before[j]]
                0 <= i < j < before.len() implies before[i].notif.id != before[j].notif.id by {
                assert(before[i] == popups[i] && before[j] == popups[j]);
            }
        }
        assert(is_at(before, at, id));
        lemma_without_present(before, at, id);
        assert(popups[at].notif.id != popups[last].notif.id);
        assert(before.remove(at).push(popups[last]) =~= popups.remove(at));
    }
    assert forall|i: int| !is_at(popups.remove(at), i, id) by {
        if 0 <= i < at {
            assert(popups[i].notif.id != popups[at].notif.id);
        } else if at <= i < last {
            assert(popups[at].notif.id != popups[i + 1].notif.id);
        }
    }
}

/// A new notification stands in front of all others, which keep their order.
pub proof fn law_new_notification_comes_first(popups: Seq<Popup>, popup: Popup)
    requires
        !has_id(popups, popup.notif.id),
    ensures
        upserted(popups, popup).len() == popups.len() + 1,
        upserted(popups, popup)[0] == popup,
        upserted(popups, popup).skip(1) == popups,
{
    assert(upserted(popups, popup).skip(1) =~= popups);
}

/// A replacing notification takes the place of the one it replaces, with a time to expire of its
/// own, and leaves all others as they are.
pub proof fn law_replacement_keeps_the_place(popups: Seq<Popup>, popup: Popup, at: int)
    requires
        distinct_ids(popups),
        is_at(popups, at, popup.notif.id),
    ensures
        upserted(popups, popup).len() == popups.len(),
        upserted(popups, popup)[at] == popup,
        forall|i: int| 0 <= i < popups.len() && i != at ==> upserted(popups, popup)[i] == popups[i],
{
    lemma_one_index(popups, at, popup.notif.id);
}

/// Each id stands in the stack at most once, whatever is put in.
pub proof fn law_upsert_keeps_ids_distinct(popups: Seq<Popup>, popup: Popup)
    requires
        distinct_ids(popups),
    ensures
        distinct_ids(upserted(popups, popup)),
        has_id(upserted(popups, popup), popup.notif.id),
{
    let id = popup.notif.id;
    let all = upserted(popups, popup);
    if has_id(popups, id) {
        let at = index_of_id(popups, id);
        lemma_one_index(popups, at, id);
        assert(is_at(all, at, id));
    } else {
        assert(is_at(all, 0, id));
        assert forall|i: int, j: int|
            #![trigger all[i], all[j]]
            0 <= i < j < all.len() implies all[i].notif.id != all[j].notif.id by {
            assert(!is_at(popups, j - 1, id));
            if i > 0 {
                assert(popups[i - 1].notif.id != popups[j - 1].notif.id);
            }
        }
    }
}

/// A notification that was taken out is gone; every other one is still there.
pub proof fn law_removed_is_gone(popups: Seq<Popup>, id: u32, other: u32)
    requires
        distinct_ids(popups),
        other != id,
    ensures
        !has_id(without(popups, id), id),
        has_id(without(popups, id), other) == has_id(popups, other),
        !has_id(popups, id) ==> without(popups, id) == popups,
        has_id(popups, id) ==> without(popups, id).len() == popups.len() - 1,
        distinct_ids(without(popups, id)),
{
    lemma_filter_keeps_distinct(popups, |popup: Popup| popup.notif.id != id);
    if has_id(popups, id) {
        let at = index_of_id(popups, id);
        lemma_without_present(popups, at, id);
        if has_id(popups, other) {
            let i = index_of_id(popups, other);
            assert(is_at(popups, i, other));
            if i < at {
                assert(is_at(popups.remove(at), i, other));
            } else {
                assert(is_at(popups.remove(at), i - 1, other));
            }
        }
    } else {
        lemma_without_absent(popups, id);
    }
}

/// What has expired is taken out, and nothing else is: an entry is still there exactly if it is
/// not due.
pub proof fn law_only_the_expired_go(popups: Seq<Popup>, now: u64, popup: Popup)
    ensures
        live(popups, now).contains(popup) <==> popups.contains(popup) && !is_due(popup, now),
{
    let stays = |popup: Popup| !is_due(popup, now);
    lemma_filter_members(popups, stays, popup);
}

/// A filter keeps the members that are wanted, and no others.
proof fn lemma_filter_members(popups: Seq<Popup>, wanted: spec_fn(Popup) -> bool, popup: Popup)
    ensures
        popups.filter(wanted).contains(popup) <==> popups.contains(popup) && wanted(popup),
    decreases popups.len(),
{
    reveal(Seq::filter);
    if popups.len() > 0 {
        let before = popups.drop_last();
        let kept = before.filter(wanted);
        let all = popups.filter(wanted);
        lemma_filter_members(before, wanted, popup);
        if kept.contains(popup) {
            assert(all[kept.index_of(popup)] == popup);
            assert(popups[before.index_of(popup)] == popup);
        }
        if popups.contains(popup) {
            let at = popups.index_of(popup);
            if at < before.len() {
                assert(before[at] == popup);
            } else if wanted(popup) {
                assert(all.last() == popup);
            }
        }
        if all.contains(popup) && !kept.contains(popup) {
            assert(all.index_of(popup) == kept.len());
            assert(popups[popups.len() - 1] == popup);
        }
    }
}

/// A change to the stack.
pub enum Change {
    /// A notification is put in ([`Stack::upsert`]).
    Put(Popup),
    /// The notification with this id is taken out ([`Stack::remove`]).
    Take(u32),
    /// What has expired at this time is taken out ([`Stack::expire`]).
    Expire(u64),
}

/// The stack after a history of changes to an empty one.
pub open spec fn after(history: Seq<Change>) -> Seq<Popup>
    decreases history.len(),
{
    if history.len() == 0 {
        Seq::empty()
    } else {
        let before = after(history.drop_last());
        match history.last() {
            Change::Put(popup) => upserted(before, popup),
            Change::Take(id) => without(before, id),
            Change::Expire(now) => live(before, now),
        }
    }
}

/// When an id last came into the stack anew: the number of the change that put it in while it was
/// not there. Replacing a notification is no such change. -1 if it never came.
pub open spec fn arrival(history: Seq<Change>, id: u32) -> int
    decreases history.len(),
{
    if history.len() == 0 {
        -1
    } else {
        let before = history.drop_last();
        match history.last() {
            Change::Put(popup) if popup.notif.id == id && !has_id(after(before), id) =>
                before.len() as int,
            _ => arrival(before, id),
        }
    }
}

/// Whether the entries stand by when their ids came in, the newest first.
pub open spec fn newest_first(popups: Seq<Popup>, history: Seq<Change>) -> bool {
    forall|i: int, j: int|
        #![trigger popups[i], popups[j]]
        0 <= i < j < popups.len() ==> arrival(history, popups[i].notif.id) > arrival(
            history,
            popups[j].notif.id,
        )
}

/// Whatever was put in, replaced, taken out and expired: the entries stand by when their ids last
/// came in anew, the newest first, and each id stands once.
pub proof fn law_stack_is_newest_first(history: Seq<Change>)
    ensures
        newest_first(after(history), history),
        distinct_ids(after(history)),
        forall|i: int|
            0 <= i < after(history).len() ==> 0 <= arrival(
                history,
                (#[trigger] after(history)[i]).notif.id,
            ) < history.len(),
    decreases history.len(),
{
    if history.len() > 0 {
        let past = history.drop_last();
        let before = after(past);
        let now = after(history);
        law_stack_is_newest_first(past);
        match history.last() {
            Change::Put(popup) => {
                let id = popup.notif.id;
                law_upsert_keeps_ids_distinct(before, popup);
                if has_id(before, id) {
                    let at = index_of_id(before, id);
                    assert(is_at(before, at, id));
                    assert forall|i: int| 0 <= i < now.len() implies (#[trigger] now[i]).notif.id
                        == before[i].notif.id by {}
                } else {
                    assert forall|i: int| 0 < i < now.len() implies (#[trigger] now[i])
                        == before[i - 1] && now[i].notif.id != id by {
                        assert(!is_at(before, i - 1, id));
                    }
                }
            },
            Change::Take(id) => {
                lemma_filter_keeps_order(before, |popup: Popup| popup.notif.id != id, past);
                assert(newest_first(now, past));
                lemma_filter_keeps_distinct(before, |popup: Popup| popup.notif.id != id);
            },
            Change::Expire(time) => {
                lemma_filter_keeps_order(before, |popup: Popup| !is_due(popup, time), past);
                assert(newest_first(now, past));
                lemma_filter_keeps_distinct(before, |popup: Popup| !is_due(popup, time));
            },
        }
    }
}

/// A filter keeps the order of the entries, and each entry it keeps was there before.
proof fn lemma_filter_keeps_order(
    popups: Seq<Popup>,
    wanted: spec_fn(Popup) -> bool,
    history: Seq<Change>,
)
    requires
        newest_first(popups, history),
    ensures
        newest_first(popups.filter(wanted), history),
        forall|i: int|
            0 <= i < popups.filter(wanted).len() ==> popups.contains(
                #[trigger] popups.filter(wanted)[i],
            ),
    decreases popups.len(),
{
    reveal(Seq::filter);
    if popups.len() > 0 {
        let before = popups.drop_last();
        let kept = before.filter(wanted);
        let all = popups.filter(wanted);
        assert(newest_first(before, history)) by {
            assert forall|i: int, j: int|
                #![trigger before[i], before[j]]
                0 <= i < j < before.len() implies arrival(history, before[i].notif.id) > arrival(
                history,
                before[j].notif.id,
            ) by {
                assert(before[i] == popups[i] && before[j] == popups[j]);
            }
        }
        lemma_filter_keeps_order(before, wanted, history);
        assert forall|i: int| 0 <= i < all.len() implies popups.contains(#[trigger] all[i]) by {
            if i < kept.len() {
                assert(all[i] == kept[i]);
                assert(popups[before.index_of(kept[i])] == all[i]);
            } else {
                assert(popups[popups.len() - 1] == all[i]);
            }
        }
        assert forall|i: int, j: int|
            #![trigger all[i], all[j]]
            0 <= i < j < all.len() implies arrival(history, all[i].notif.id) > arrival(
            history,
            all[j].notif.id,
        ) by {
            assert(all[i] == kept[i]);
            if j < kept.len() {
                assert(all[j] == kept[j]);
            } else {
                let at = before.index_of(kept[i]);
                assert(popups[at] == all[i] && popups[popups.len() - 1] == all[j]);
            }
        }
    }
}

/// A critical notification never expires, and neither does one with a timeout of 0.
pub proof fn law_sticky_never_due(n: Notification, default_ms: u64, arrival: u64, now: u64)
    requires
        n.urgency == Urgency::Critical || n.expire_timeout == 0,
    ensures
        !is_due(popup_of(n, default_ms, arrival), now),
{
}

/// A notification with a timeout expires once that many milliseconds have passed since it arrived
/// (or last replaced another), and not before.
pub proof fn law_expires_after_its_timeout(n: Notification, default_ms: u64, arrival: u64, now: u64)
    requires
        n.urgency != Urgency::Critical,
        n.expire_timeout > 0,
    ensures
        is_due(popup_of(n, default_ms, arrival), now) <==> now >= arrival + n.expire_timeout
            * NANOS_PER_MS,
{
}

/// A notification that leaves its timeout to the server expires after the configured default, or
/// never if that is 0.
pub proof fn law_expires_after_the_default(n: Notification, default_ms: u64, arrival: u64, now: u64)
    requires
        n.urgency != Urgency::Critical,
        n.expire_timeout < 0,
    ensures
        is_due(popup_of(n, default_ms, arrival), now) <==> default_ms > 0 && now >= arrival
            + default_ms * NANOS_PER_MS,
{
    assert(u64::MAX + u64::MAX * NANOS_PER_MS <= u128::MAX);
}

/// The entry of a notification holds it as it arrived, all of it, and the time at which it expires:
/// its timeout after it arrived, or the default where it leaves the timeout to the server. A critical
/// one and one with a timeout of 0 stay.
pub proof fn law_entry_holds_the_notification(n: Notification, default_ms: u64, now: u64)
    ensures
        *popup_of(n, default_ms, now).notif == n,
        ({
            let deadline = popup_of(n, default_ms, now).deadline;
            &&& n.urgency == Urgency::Critical || n.expire_timeout == 0 ==> deadline is None
            &&& n.urgency != Urgency::Critical && n.expire_timeout > 0 ==> (deadline matches Some(
                at,
            ) && at == now + n.expire_timeout * 1_000_000)
            &&& n.urgency != Urgency::Critical && n.expire_timeout < 0 && default_ms > 0 ==> (
            deadline matches Some(at) && at == now + default_ms * 1_000_000)
            &&& n.expire_timeout < 0 && default_ms == 0 ==> deadline is None
        }),
{
    assert(u64::MAX + u64::MAX * 1_000_000 <= u128::MAX);
}

/// A notification that arrives is in the stack as it came, in one place, and nothing else in the
/// stack changes: the others are the same, in the same order.
pub proof fn law_arrived_is_in_the_stack(
    popups: Seq<Popup>,
    n: Notification,
    default_ms: u64,
    now: u64,
) -> (at: int)
    requires
        forall|i: int, j: int|
            #![trigger popups[i], popups[j]]
            0 <= i < j < popups.len() ==> popups[i].notif.id != popups[j].notif.id,
    ensures
        ({
            let all = upserted(popups, popup_of(n, default_ms, now));
            &&& 0 <= at < all.len()
            &&& *all[at].notif == n
            &&& (exists|i: int| 0 <= i < popups.len() && (#[trigger] popups[i]).notif.id == n.id)
                ==> {
                &&& all.len() == popups.len()
                &&& popups[at].notif.id == n.id
                &&& all.remove(at) == popups.remove(at)
            }
            &&& (forall|i: int| 0 <= i < popups.len() ==> (#[trigger] popups[i]).notif.id != n.id)
                ==> at == 0 && all.remove(at) == popups
        }),
{
    let popup = popup_of(n, default_ms, now);
    let all = upserted(popups, popup);
    if has_id(popups, n.id) {
        let at = index_of_id(popups, n.id);
        assert(is_at(popups, at, n.id));
        assert(popups[at].notif.id == n.id);
        assert(all.remove(at) =~= popups.remove(at));
        at
    } else {
        assert forall|i: int| 0 <= i < popups.len() implies (#[trigger] popups[i]).notif.id
            != n.id by {
            assert(!is_at(popups, i, n.id));
        }
        assert(all.remove(0) =~= popups);
        0
    }
}

/// An id is in the stack exactly if an entry has it, and ids are distinct exactly if no two entries
/// share one.
pub proof fn law_ids_are_those_of_entries(popups: Seq<Popup>, id: u32)
    ensures
        has_id(popups, id) <==> exists|i: int|
            0 <= i < popups.len() && (#[trigger] popups[i]).notif.id == id,
        distinct_ids(popups) <==> forall|i: int, j: int|
            #![trigger popups[i], popups[j]]
            0 <= i < popups.len() && 0 <= j < popups.len() && popups[i].notif.id
                == popups[j].notif.id ==> i == j,
{
    if exists|i: int| 0 <= i < popups.len() && (#[trigger] popups[i]).notif.id == id {
        let i = choose|i: int| 0 <= i < popups.len() && (#[trigger] popups[i]).notif.id == id;
        assert(is_at(popups, i, id));
    }
    if has_id(popups, id) {
        let i = index_of_id(popups, id);
        assert(is_at(popups, i, id));
        assert(popups[i].notif.id == id);
    }
}

/// Taking out a notification takes out its entry alone: the others are the same, in the same order.
/// One that is not there leaves the stack as it is.
pub proof fn law_only_its_entry_is_taken_out(popups: Seq<Popup>, at: int, id: u32)
    requires
        forall|i: int, j: int|
            #![trigger popups[i], popups[j]]
            0 <= i < j < popups.len() ==> popups[i].notif.id != popups[j].notif.id,
    ensures
        0 <= at < popups.len() && popups[at].notif.id == id ==> without(popups, id)
            == popups.remove(at),
        (forall|i: int| 0 <= i < popups.len() ==> (#[trigger] popups[i]).notif.id != id) ==> without(
            popups,
            id,
        ) == popups,
{
    if 0 <= at < popups.len() && popups[at].notif.id == id {
        assert(is_at(popups, at, id));
        lemma_without_present(popups, at, id);
    }
    if forall|i: int| 0 <= i < popups.len() ==> (#[trigger] popups[i]).notif.id != id {
        assert(!has_id(popups, id));
        lemma_without_absent(popups, id);
    }
}

/// Expiry looks at each entry alone: one whose deadline has come is taken out and its id is told,
/// behind those before it; any other stays, behind those before it.
pub proof fn law_expiry_entry_by_entry(popups: Seq<Popup>, popup: Popup, now: u64)
    ensures
        popups.len() == 0 ==> live(popups, now).len() == 0 && due_ids(popups, now).len() == 0,
        (popup.deadline matches Some(deadline) && deadline <= now) ==> {
            &&& live(popups.push(popup), now) == live(popups, now)
            &&& due_ids(popups.push(popup), now) == due_ids(popups, now).push(popup.notif.id)
        },
        !(popup.deadline matches Some(deadline) && deadline <= now) ==> {
            &&& live(popups.push(popup), now) == live(popups, now).push(popup)
            &&& due_ids(popups.push(popup), now) == due_ids(popups, now)
        },
{
    reveal(Seq::filter);
    let more = popups.push(popup);
    assert(more.drop_last() =~= popups);
    let due = |popup: Popup| is_due(popup, now);
    let id = |popup: Popup| popup.notif.id;
    if is_due(popup, now) {
        assert(more.filter(due) == popups.filter(due).push(popup));
        assert(popups.filter(due).push(popup).map_values(id) =~= popups.filter(due).map_values(
            id,
        ).push(popup.notif.id));
    } else {
        assert(more.filter(due) == popups.filter(due));
    }
}

/// What expiry takes out is told, and nothing else is: an id is told exactly if an entry with it was
/// due, as many ids are told as entries go, and no id is told twice.
pub proof fn law_expired_are_told(popups: Seq<Popup>, now: u64, id: u32)
    ensures
        due_ids(popups, now).contains(id) <==> exists|i: int|
            0 <= i < popups.len() && (#[trigger] popups[i]).notif.id == id && (
            popups[i].deadline matches Some(deadline) && deadline <= now),
        due_ids(popups, now).len() == popups.len() - live(popups, now).len(),
        distinct_ids(popups) ==> due_ids(popups, now).no_duplicates(),
    decreases popups.len(),
{
    if popups.len() == 0 {
        law_expiry_entry_by_entry(popups, arbitrary(), now);
        assert(!due_ids(popups, now).contains(id));
    } else {
        let before = popups.drop_last();
        let last = popups.last();
        law_expired_are_told(before, now, id);
        law_expired_are_told(before, now, last.notif.id);
        law_expiry_entry_by_entry(before, last, now);
        assert(before.push(last) =~= popups);
        let told = due_ids(before, now);
        let all = due_ids(popups, now);
        if all.contains(id) {
            let k = all.index_of(id);
            if k < told.len() {
                assert(told[k] == id);
                let i = choose|i: int|
                    0 <= i < before.len() && (#[trigger] before[i]).notif.id == id && (
                    before[i].deadline matches Some(deadline) && deadline <= now);
                assert(popups[i] == before[i]);
            } else {
                assert(popups[popups.len() - 1].notif.id == id);
            }
        }
        if exists|i: int|
            0 <= i < popups.len() && (#[trigger] popups[i]).notif.id == id && (
            popups[i].deadline matches Some(deadline) && deadline <= now) {
            let i = choose|i: int|
                0 <= i < popups.len() && (#[trigger] popups[i]).notif.id == id && (
                popups[i].deadline matches Some(deadline) && deadline <= now);
            if i < before.len() {
                assert(before[i] == popups[i]);
                let k = told.index_of(id);
                assert(all[k] == id);
            } else {
                assert(all.last() == id);
            }
        }
        if distinct_ids(popups) {
            assert(distinct_ids(before)) by {
                assert forall|i: int, j: int|
                    #![trigger before[i], before[j]]
                    0 <= i < j < before.len() implies before[i].notif.id != before[j].notif.id by {
                    assert(before[i] == popups[i] && before[j] == popups[j]);
                }
            }
            assert(!told.contains(last.notif.id)) by {
                if told.contains(last.notif.id) {
                    let i = choose|i: int|
                        0 <= i < before.len() && (#[trigger] before[i]).notif.id == last.notif.id
                            && (before[i].deadline matches Some(deadline) && deadline <= now);
                    assert(popups[i].notif.id != popups[popups.len() - 1].notif.id);
                }
            }
        }
    }
}

/// The notifications of the stack are those of its entries, one for one.
pub proof fn law_notifications_of_entries(popups: Seq<Popup>, i: int)
    ensures
        notifications(popups).len() == popups.len(),
        0 <= i < popups.len() ==> notifications(popups)[i] == popups[i].notif,
{
}

} // verus!
