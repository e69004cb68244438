//! The latest snapshot, handed to any number of observers: one slot that a
//! publisher overwrites and that observers read when they are ready.

use crate::rules::Book;
use crate::state::TradingState;
use std::sync::Arc;
use tokio::sync::watch::{Receiver, Sender};
use vstd::prelude::*;

verus! {

/// `tokio::sync::watch::Sender`: the writing end of a one-slot channel.
#[verifier::external_type_specification]
#[verifier::external_body]
#[verifier::reject_recursive_types(T)]
pub struct ExSender<T>(tokio::sync::watch::Sender<T>);

/// `tokio::sync::watch::Receiver`: a reading end of a one-slot channel.
#[verifier::external_type_specification]
#[verifier::external_body]
#[verifier::reject_recursive_types(T)]
pub struct ExReceiver<T>(tokio::sync::watch::Receiver<T>);

/// The values that were put into the channel through this writing end,
/// oldest first, starting with the one that the channel was made with.
pub uninterp spec fn sent(sender: Sender<Arc<TradingState>>) -> Seq<TradingState>;

/// The reading end as `Receiver::mark_changed` leaves it: the same channel,
/// with the slot's present value counted as not yet seen.
pub uninterp spec fn marked(receiver: Receiver<Arc<TradingState>>) -> Receiver<Arc<TradingState>>;

/// `Sender::new`: makes a channel whose slot holds `initial`, and returns
/// its writing end.
#[verifier::external_body]
fn channel_holding(initial: Arc<TradingState>) -> (sender: Sender<Arc<TradingState>>)
    ensures
        sent(sender) == seq![*initial],
{
    Sender::new(initial)
}

/// `Sender::send_replace`: swaps `value` into the slot, wakes the reading
/// ends, and returns what the slot held. It works with no reading end too.
#[verifier::external_body]
fn replace_value(sender: &mut Sender<Arc<TradingState>>, value: Arc<TradingState>) -> (previous: Arc<
    TradingState,
>)
    requires
        sent(*old(sender)).len() > 0,
    ensures
        sent(*final(sender)) == sent(*old(sender)).push(*value),
        *previous == sent(*old(sender)).last(),
{
    sender.send_replace(value)
}

/// `Sender::borrow`, then `Arc::clone`: one more handle on the value sent
/// last.
#[verifier::external_body]
fn current_value(sender: &Sender<Arc<TradingState>>) -> (value: Arc<TradingState>)
    requires
        sent(*sender).len() > 0,
    ensures
        *value == sent(*sender).last(),
{
    Arc::clone(&sender.borrow())
}

/// `Sender::subscribe`: a new reading end, which counts the slot's present
/// value as seen.
#[verifier::external_body]
fn attach(sender: &Sender<Arc<TradingState>>) -> (receiver: Receiver<Arc<TradingState>>) {
    sender.subscribe()
}

/// `Receiver::mark_changed`: makes the reading end count the slot's present
/// value as not yet seen. What it leaves depends on the reading end alone.
#[verifier::external_body]
fn mark_unseen(receiver: &mut Receiver<Arc<TradingState>>)
    ensures
        *final(receiver) == marked(*old(receiver)),
{
    receiver.mark_changed()
}

/// `Receiver::borrow_and_update`, with `Ref::has_changed` and `Arc::clone`:
/// whether the slot's value is one that this reading end had not seen, and
/// a handle on it. The reading end counts the value as seen from now on;
/// where it had seen it already, the reading end is as it was. The answer
/// does not depend on whether the writing end is still there.
#[verifier::external_body]
fn observe(receiver: &mut Receiver<Arc<TradingState>>) -> (seen: (bool, Arc<TradingState>))
    ensures
        !seen.0 ==> *final(receiver) == *old(receiver),
{
    let slot = receiver.borrow_and_update();
    (slot.has_changed(), Arc::clone(&slot))
}

/// What an observer is handed for what its reading end found: a copy of the
/// value if it is new to the observer, nothing if not.
pub fn yield_if_new(unseen: bool, value: &TradingState) -> (snapshot: Option<TradingState>)
    ensures
        snapshot is Some == unseen,
        snapshot matches Some(copy) ==> copy.book() == value.book() && copy.wf() == value.wf(),
{
    if unseen {
        Some(value.snapshot())
    } else {
        None
    }
}

/// The publisher's end: holds exactly one snapshot, the latest.
pub struct StateNotifier {
    sender: Sender<Arc<TradingState>>,
}

/// An observer's handle: yields the snapshot that was the latest when it
/// subscribed, then newer ones as they are published. A slow observer sees
/// the newest snapshot only; those in between are dropped.
pub struct Subscription {
    /// The snapshot that was the latest at subscription, until it is yielded.
    first: Option<TradingState>,
    /// The reading end, which counts that snapshot as seen.
    receiver: Receiver<Arc<TradingState>>,
}

impl StateNotifier {
    /// The books of all snapshots published so far, oldest first.
    pub closed spec fn published(&self) -> Seq<Book> {
        Seq::new(sent(self.sender).len(), |i: int| sent(self.sender)[i].book())
    }

    /// The notifier holds a snapshot, and it is well formed.
    pub closed spec fn wf(&self) -> bool {
        sent(self.sender).len() > 0 && sent(self.sender).last().wf()
    }

    /// A well-formed notifier has published at least once.
    pub proof fn lemma_never_empty(&self)
        requires
            self.wf(),
        ensures
            self.published().len() > 0,
    {
    }

    /// A notifier that holds `initial` as the latest snapshot.
    pub fn new(initial: TradingState) -> (notifier: StateNotifier)
        requires
            initial.wf(),
        ensures
            notifier.wf(),
            notifier.published() == seq![initial.book()],
    {
        let notifier = StateNotifier { sender: channel_holding(Arc::new(initial)) };
        assert(notifier.published() =~= seq![initial.book()]);
        notifier
    }

    /// Replaces the latest snapshot and wakes the observers. Never fails,
    /// whether any observer is attached or not. It waits only while a reading
    /// end holds a borrow of the slot: the handles of this module hold one
    /// for the length of a copy, and a reading end that was taken out with
    /// [`Subscription::into_receiver`] must not keep one.
    pub fn publish(&mut self, snapshot: TradingState)
        requires
            old(self).wf(),
            snapshot.wf(),
        ensures
            final(self).wf(),
            final(self).published() == old(self).published().push(snapshot.book()),
    {
        let _ = replace_value(&mut self.sender, Arc::new(snapshot));
        assert(self.published() =~= old(self).published().push(snapshot.book()));
    }

    /// A copy of the latest snapshot.
    pub fn latest(&self) -> (snapshot: TradingState)
        requires
            self.wf(),
        ensures
            snapshot.wf(),
            snapshot.book() == self.published().last(),
    {
        let held = current_value(&self.sender);
        held.snapshot()
    }

    /// Attaches an observer. The handle holds a copy of the snapshot that is
    /// the latest now, and its first [`Subscription::next`] yields it.
    pub fn subscribe(&self) -> (subscription: Subscription)
        requires
            self.wf(),
        ensures
            subscription.pending() matches Some(first) && first.wf() && first.book()
                == self.published().last(),
    {
        let held = current_value(&self.sender);
        let first = held.snapshot();
        let receiver = attach(&self.sender);
        Subscription { first: Some(first), receiver }
    }
}

impl Subscription {
    /// The snapshot from the time of subscription, while the handle has not
    /// yet yielded it.
    pub closed spec fn pending(&self) -> Option<TradingState> {
        self.first
    }

    /// The reading end that the handle holds.
    pub closed spec fn reading_end(&self) -> Receiver<Arc<TradingState>> {
        self.receiver
    }

    /// Gives up the handle for the reading end inside it, for a caller that
    /// waits for the next snapshot instead of asking. Where the snapshot from
    /// the time of subscription was not yet yielded, the reading end is set
    /// to count the latest snapshot as not yet seen, so that the caller's
    /// first wait returns at once. A borrow that the caller takes from the
    /// reading end makes the publisher wait until it is given back, so it
    /// must not be kept across a wait or a call of the publisher.
    pub fn into_receiver(self) -> (receiver: Receiver<Arc<TradingState>>)
        ensures
            self.pending() is None ==> receiver == self.reading_end(),
            self.pending() is Some ==> receiver == marked(self.reading_end()),
    {
        let mut receiver = self.receiver;
        if self.first.is_some() {
            mark_unseen(&mut receiver);
        }
        receiver
    }

    /// The snapshot from the time of subscription, the first time; after
    /// that the latest snapshot, if this observer has not yet had it, and
    /// `None` if nothing was published since the last one it had; a snapshot
    /// that was published before the notifier went away is still yielded. A
    /// call that yields nothing leaves the handle as it was.
    pub fn next(&mut self) -> (snapshot: Option<TradingState>)
        ensures
            final(self).pending() is None,
            old(self).pending() is Some ==> snapshot == old(self).pending() && final(self).reading_end() == old(self).reading_end(),
            snapshot is None ==> final(self).reading_end() == old(self).reading_end(),
    {
        if self.first.is_some() {
            self.first.take()
        } else {
            let (unseen, value) = observe(&mut self.receiver);
            yield_if_new(unseen, &value)
        }
    }
}

} // verus!
