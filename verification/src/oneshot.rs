use std::sync::atomic::AtomicBool;
use std::sync::atomic::Ordering;
use vstd::prelude::*;

verus! {

/// Why a one-shot channel refused a call.
#[derive(Clone, Copy, PartialEq, Eq, Debug)]
pub enum ChannelError {
    /// A second `send`: "can't send more than one message!".
    AlreadySent,
    /// A `receive` with no message ready: "no message available!".
    NoMessage,
}

impl ChannelError {
    /// The message the channel fails with.
    pub fn message(&self) -> (text: &'static str)
        ensures
            *self == ChannelError::AlreadySent ==> text@ == "can't send more than one message!"@,
            *self == ChannelError::NoMessage ==> text@ == "no message available!"@,
    {
        match self {
            ChannelError::AlreadySent => "can't send more than one message!",
            ChannelError::NoMessage => "no message available!",
        }
    }
}

/// A send is refused exactly when the channel was already in use.
pub open spec fn spec_send_refused(previous_in_use: bool) -> bool {
    previous_in_use
}

/// A receive is refused exactly when no message was ready.
pub open spec fn spec_receive_refused(previous_ready: bool) -> bool {
    !previous_ready
}

/// Decides, from what `swap(true)` on the in-use flag returned, whether the
/// send goes on.
pub fn send_claim_result(previous_in_use: bool) -> (r: Result<(), ChannelError>)
    ensures
        spec_send_refused(previous_in_use) ==> r == Result::<(), ChannelError>::Err(ChannelError::AlreadySent),
        !spec_send_refused(previous_in_use) ==> r is Ok,
{
    if previous_in_use {
        Result::Err(ChannelError::AlreadySent)
    } else {
        Result::Ok(())
    }
}

/// Decides, from what `swap(false)` on the ready flag returned, whether the
/// receive goes on.
pub fn receive_claim_result(previous_ready: bool) -> (r: Result<(), ChannelError>)
    ensures
        spec_receive_refused(previous_ready) ==> r == Result::<(), ChannelError>::Err(ChannelError::NoMessage),
        !spec_receive_refused(previous_ready) ==> r is Ok,
{
    if previous_ready {
        Result::Ok(())
    } else {
        Result::Err(ChannelError::NoMessage)
    }
}

/// The two flags of a one-shot channel: whether a sender has claimed it, and
/// whether a message is ready to be received. The message slot is kept by
/// the caller.
pub struct OneShotFlags {
    in_use: AtomicBool,
    ready: AtomicBool,
}

impl OneShotFlags {
    /// A channel that nobody has sent on.
    pub fn new() -> (flags: OneShotFlags) {
        OneShotFlags { in_use: AtomicBool::new(false), ready: AtomicBool::new(false) }
    }

    /// Whether a message is ready, with a relaxed load.
    pub fn is_ready(&self) -> (ready: bool) {
        self.ready.load(Ordering::Relaxed)
    }

    /// Whether a message is ready, with an acquire load, for a receiver that
    /// reads the message without claiming it.
    pub fn is_ready_acquire(&self) -> (ready: bool) {
        self.ready.load(Ordering::Acquire)
    }

    /// Claims the channel for sending: refused if a sender already has.
    pub fn claim_send(&self) -> (r: Result<(), ChannelError>)
        ensures
            r is Err ==> r == Result::<(), ChannelError>::Err(ChannelError::AlreadySent),
    {
        let previous = self.in_use.swap(true, Ordering::Relaxed);
        send_claim_result(previous)
    }

    /// Marks the written message ready.
    pub fn publish(&self) {
        self.ready.store(true, Ordering::Release);
    }

    /// Claims the ready message for receiving, clearing the ready flag:
    /// refused if none is ready.
    pub fn claim_receive(&self) -> (r: Result<(), ChannelError>)
        ensures
            r is Err ==> r == Result::<(), ChannelError>::Err(ChannelError::NoMessage),
    {
        let previous = self.ready.swap(false, Ordering::Acquire);
        receive_claim_result(previous)
    }

    /// Whether a message is ready and so still has to be dropped with the
    /// channel; `&mut` means that no other thread is left.
    pub fn holds_message(&mut self) -> (held: bool) {
        self.ready.load(Ordering::Relaxed)
    }
}

/// How far the sender of a one-shot channel has come.
#[derive(Clone, Copy, PartialEq, Eq, Debug)]
pub enum SenderPc {
    /// No sender has claimed the channel.
    Unclaimed,
    /// A sender has claimed it and is about to write the message.
    Claimed,
    /// The message is written and about to be published.
    Written,
    /// The message is published.
    Published,
}

/// A one-shot channel's flags, its message slot and how far the sender has
/// come: a model of every interleaving of the sender's and the receivers'
/// steps. `received` counts the messages handed to receivers.
pub struct OneShotModel<T> {
    pub in_use: bool,
    pub ready: bool,
    pub slot: Option<T>,
    pub sender: SenderPc,
    pub received: usize,
}

impl<T> OneShotModel<T> {
    /// The invariant: the in-use flag is set exactly once a sender has
    /// claimed the channel; the slot holds a message exactly from its write
    /// until it is received; the ready flag is set only over a published,
    /// unreceived message; and at most one message is ever received.
    pub open spec fn wf(&self) -> bool {
        &&& self.in_use == !(self.sender is Unclaimed)
        &&& self.ready ==> self.slot is Some && self.sender is Published
        &&& (self.sender is Unclaimed || self.sender is Claimed) ==> self.slot is None && self.received == 0
        &&& self.sender is Written ==> self.slot is Some && self.received == 0
        &&& self.sender is Published ==> (self.ready && self.received == 0) || (!self.ready && self.slot is None && self.received == 1)
        &&& self.received <= 1
    }

    /// A channel nobody has sent on.
    pub fn new() -> (m: OneShotModel<T>)
        ensures
            m.wf(),
            m.sender is Unclaimed,
            !m.ready,
            m.received == 0,
    {
        OneShotModel { in_use: false, ready: false, slot: Option::None, sender: SenderPc::Unclaimed, received: 0 }
    }

    /// A sender's `swap(true)` on the in-use flag: the first claim succeeds,
    /// every later one is refused and changes nothing.
    pub fn claim_send(&mut self) -> (r: Result<(), ChannelError>)
        requires
            old(self).wf(),
        ensures
            final(self).wf(),
            old(self).sender is Unclaimed ==> r is Ok && final(self).sender is Claimed && final(self).in_use,
            !(old(self).sender is Unclaimed) ==> r == Result::<(), ChannelError>::Err(ChannelError::AlreadySent)
                && final(self).sender == old(self).sender,
            final(self).slot == old(self).slot,
            final(self).ready == old(self).ready,
            final(self).received == old(self).received,
    {
        let previous = self.in_use;
        self.in_use = true;
        let r = send_claim_result(previous);
        if r.is_ok() {
            self.sender = SenderPc::Claimed;
        }
        r
    }

    /// The claiming sender writes its message into the slot.
    pub fn write(&mut self, message: T)
        requires
            old(self).wf(),
            old(self).sender is Claimed,
        ensures
            final(self).wf(),
            final(self).sender is Written,
            final(self).slot == Option::Some(message),
            final(self).ready == old(self).ready,
            final(self).received == old(self).received,
    {
        self.slot = Option::Some(message);
        self.sender = SenderPc::Written;
    }

    /// The sender's `store(true)` on the ready flag.
    pub fn publish(&mut self)
        requires
            old(self).wf(),
            old(self).sender is Written,
        ensures
            final(self).wf(),
            final(self).sender is Published,
            final(self).ready,
            final(self).slot == old(self).slot,
            final(self).received == old(self).received,
    {
        self.ready = true;
        self.sender = SenderPc::Published;
    }

    /// A receiver's `swap(false)` on the ready flag and, if a message was
    /// ready, its read of the slot.
    pub fn receive(&mut self) -> (r: Result<T, ChannelError>)
        requires
            old(self).wf(),
        ensures
            final(self).wf(),
            old(self).ready ==> r == Result::<T, ChannelError>::Ok(old(self).slot->0)
                && final(self).slot is None && !final(self).ready && final(self).received == 1,
            !old(self).ready ==> r == Result::<T, ChannelError>::Err(ChannelError::NoMessage)
                && final(self).slot == old(self).slot && final(self).received == old(self).received,
            final(self).sender == old(self).sender,
    {
        let previous = self.ready;
        self.ready = false;
        match receive_claim_result(previous) {
            Result::Ok(()) => {
                let taken = self.slot.take();
                self.received = self.received + 1;
                match taken {
                    Option::Some(m) => Result::Ok(m),
                    Option::None => Result::Err(ChannelError::NoMessage),
                }
            },
            Result::Err(e) => Result::Err(e),
        }
    }

    /// What dropping the channel must drop: the message, exactly when one is
    /// ready and was never received.
    pub fn holds_message(&self) -> (held: bool)
        requires
            self.wf(),
        ensures
            held == self.ready,
            held ==> self.slot is Some && self.received == 0,
    {
        self.ready
    }
}

/// A message is received at most once: once one has been received, the
/// channel is no longer ready and every later receive is refused.
pub proof fn lemma_oneshot_received_once<T>(m: &OneShotModel<T>)
    requires
        m.wf(),
        m.received == 1,
    ensures
        !m.ready,
        m.slot is None,
{
}

/// Only one message is ever sent: once claimed, the channel stays in use,
/// so every later claim is refused.
pub proof fn lemma_oneshot_single_sender<T>(m: &OneShotModel<T>)
    requires
        m.wf(),
        !(m.sender is Unclaimed),
    ensures
        m.in_use,
        spec_send_refused(m.in_use),
{
}

/// A receive succeeds only on a published message: when the ready flag is
/// set, the sender has published and the slot holds its message.
pub proof fn lemma_oneshot_ready_means_published<T>(m: &OneShotModel<T>)
    requires
        m.wf(),
        m.ready,
    ensures
        m.sender is Published,
        m.slot is Some,
        m.received == 0,
{
}

/// A send is refused exactly when the channel was already claimed, whatever
/// the ready flag holds: the refusal depends on the in-use flag alone.
pub proof fn lemma_send_refused_iff_claimed(previous_in_use: bool)
    ensures
        spec_send_refused(previous_in_use) <==> previous_in_use,
{
}

/// Once a send has been claimed, every later claim is refused, both while
/// the message is still ready and after it was received: the first claim
/// succeeds and a second never does, in every reachable state.
pub proof fn lemma_oneshot_second_claim_refused<T>(m: &OneShotModel<T>)
    requires
        m.wf(),
        m.sender is Published,
    ensures
        m.in_use,
        spec_send_refused(m.in_use),
        m.ready ==> spec_send_refused(m.in_use),
        !m.ready ==> spec_send_refused(m.in_use),
{
}

} // verus!
