//! The notification bus, modelled: a bounded broadcast log with independent
//! read cursors.
//!
//! Every published envelope is appended to one shared history; each
//! subscription is a cursor into that history, advancing independently. A
//! cursor that falls more than the bus's capacity behind the head observes a
//! lag error — realigning it to the oldest retained envelope — rather than
//! silently skipping. This module carries the delivery semantics the rest of
//! the crate relies on; [`lemma_delivery_exactly_once_in_order`] states the
//! central guarantee.

use vstd::prelude::*;

use crate::envelope::{Notification, NotificationModel};

verus! {

/// The broadcast bus: the full publish history and the window width a
/// subscriber may trail behind the head.
pub struct Bus {
    /// Every envelope ever published, in publish order.
    pub log: Vec<Notification>,
    /// How many envelopes a cursor may trail behind the head before it lags.
    pub capacity: usize,
}

/// A per-connection read cursor into a bus's history.
pub struct Subscription {
    /// Index into the bus history of the next envelope to observe.
    pub pos: usize,
}

/// One read from a subscription.
pub enum RecvOutcome {
    /// The next envelope, in publish order.
    Received(Notification),
    /// The cursor fell behind the window: this many envelopes were missed
    /// and the cursor realigned to the oldest retained one.
    Lagged(usize),
    /// Nothing published past the cursor yet; the subscriber would wait.
    Pending,
}

impl Bus {
    /// The published envelopes, as modelled values, in publish order.
    pub open spec fn history(&self) -> Seq<NotificationModel> {
        self.log@.map_values(|n: Notification| n@)
    }

    /// The oldest history index still within the buffer window.
    pub open spec fn window_start(&self) -> int {
        if self.log@.len() > self.capacity {
            self.log@.len() - self.capacity
        } else {
            0
        }
    }

    /// A fresh bus with the given buffer capacity and empty history.
    pub fn new(capacity: usize) -> (b: Bus)
        ensures
            b.history() == Seq::<NotificationModel>::empty(),
            b.capacity == capacity,
    {
        let b = Bus { log: Vec::new(), capacity };
        proof {
            assert(b.history() =~= Seq::<NotificationModel>::empty());
        }
        b
    }

    /// Publishes an envelope: appends it to the history every subscriber
    /// reads from. Succeeds regardless of how many subscribers exist.
    pub fn publish(&mut self, n: Notification)
        ensures
            final(self).history() == old(self).history().push(n@),
            final(self).capacity == old(self).capacity,
    {
        self.log.push(n);
        proof {
            assert(self.history() =~= old(self).history().push(n@));
        }
    }

    /// A new independent cursor positioned at "now": it observes only
    /// envelopes published after this call.
    pub fn subscribe(&self) -> (s: Subscription)
        ensures
            s.pos == self.history().len(),
    {
        Subscription { pos: self.log.len() }
    }

    /// One read from a cursor into this bus. A cursor behind the window
    /// observes how much it missed and realigns; a cursor at the head would
    /// wait; otherwise it observes the next envelope, value-equal to the
    /// published one, and advances past it.
    pub fn receive(&self, sub: &mut Subscription) -> (r: RecvOutcome)
        requires
            old(sub).pos <= self.history().len(),
        ensures
            final(sub).pos <= self.history().len(),
            ({
                let h = self.history();
                let p = old(sub).pos as int;
                let w = self.window_start();
                if p < w {
                    (r matches RecvOutcome::Lagged(k) && k == w - p) && final(sub).pos == w
                } else if p == h.len() {
                    r is Pending && final(sub).pos == p
                } else {
                    (r matches RecvOutcome::Received(n) && n@ == h[p]) && final(sub).pos == p + 1
                }
            }),
    {
        let len = self.log.len();
        let w = if len > self.capacity {
            len - self.capacity
        } else {
            0
        };
        if sub.pos < w {
            let missed = w - sub.pos;
            sub.pos = w;
            RecvOutcome::Lagged(missed)
        } else if sub.pos == len {
            RecvOutcome::Pending
        } else {
            let n = self.log[sub.pos].clone();
            sub.pos = sub.pos + 1;
            RecvOutcome::Received(n)
        }
    }
}

/// The envelopes a subscriber observes over `k` successive non-lagging,
/// non-waiting reads from history position `p`.
pub open spec fn observed(h: Seq<NotificationModel>, p: int, k: nat) -> Seq<NotificationModel>
    decreases k,
{
    if k == 0 {
        Seq::empty()
    } else {
        seq![h[p]] + observed(h, p + 1, (k - 1) as nat)
    }
}

/// Delivery is exact: a subscriber whose cursor stays within the window
/// observes every envelope published past its cursor exactly once, in
/// publish order — `k` reads from position `p` yield precisely the history
/// slice `h[p .. p+k]`, each envelope value-equal to what was published.
pub proof fn lemma_delivery_exactly_once_in_order(h: Seq<NotificationModel>, p: int, k: nat)
    requires
        0 <= p,
        p + k <= h.len(),
    ensures
        observed(h, p, k) == h.subrange(p, p + k),
    decreases k,
{
    if k == 0 {
        assert(observed(h, p, k) =~= h.subrange(p, p + k));
    } else {
        lemma_delivery_exactly_once_in_order(h, p + 1, (k - 1) as nat);
        assert(observed(h, p, k) =~= h.subrange(p, p + k));
    }
}

} // verus!
