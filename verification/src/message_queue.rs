use std::collections::VecDeque;
use vstd::prelude::*;

verus! {

/// The queue of a mutex-and-condvar channel: messages leave in the order
/// they were sent. Besides the messages waiting, it keeps as ghost state
/// every message ever sent and every message ever received.
pub struct MessageQueue<T> {
    queue: VecDeque<T>,
    sent: Ghost<Seq<T>>,
    received: Ghost<Seq<T>>,
}

impl<T> MessageQueue<T> {
    /// The messages waiting, oldest first.
    pub closed spec fn view(&self) -> Seq<T> {
        self.queue@
    }

    /// Every message ever sent, in order.
    pub closed spec fn sent(&self) -> Seq<T> {
        self.sent@
    }

    /// Every message ever received, in order.
    pub closed spec fn received(&self) -> Seq<T> {
        self.received@
    }

    /// What was sent is what was received followed by what waits.
    pub closed spec fn wf(&self) -> bool {
        self.sent@ == self.received@ + self.queue@
    }

    /// An empty queue.
    pub fn new() -> (q: MessageQueue<T>)
        ensures
            q.wf(),
            q.view() == Seq::<T>::empty(),
            q.sent() == Seq::<T>::empty(),
            q.received() == Seq::<T>::empty(),
    {
        let q = MessageQueue { queue: VecDeque::new(), sent: Ghost(Seq::empty()), received: Ghost(Seq::empty()) };
        assert(q.sent@ =~= q.received@ + q.queue@);
        q
    }

    /// `send`'s work under the lock: the message goes to the back.
    pub fn push(&mut self, message: T)
        requires
            old(self).wf(),
        ensures
            final(self).wf(),
            final(self).view() == old(self).view().push(message),
            final(self).sent() == old(self).sent().push(message),
            final(self).received() == old(self).received(),
    {
        self.sent = Ghost(self.sent@.push(message));
        self.queue.push_back(message);
        assert(self.sent@ =~= self.received@ + self.queue@);
    }

    /// `receive`'s work under the lock: the oldest message, if any.
    pub fn pop(&mut self) -> (message: Option<T>)
        requires
            old(self).wf(),
        ensures
            final(self).wf(),
            final(self).sent() == old(self).sent(),
            old(self).view().len() == 0 ==> message is None && final(self).view() == old(self).view()
                && final(self).received() == old(self).received(),
            old(self).view().len() > 0 ==> message == Option::Some(old(self).view()[0])
                && final(self).view() == old(self).view().drop_first()
                && final(self).received() == old(self).received().push(old(self).view()[0]),
    {
        let message = self.queue.pop_front();
        match &message {
            Option::Some(m) => {
                self.received = Ghost(self.received@.push(*m));
                assert(self.sent@ =~= self.received@ + self.queue@);
            },
            Option::None => {},
        }
        message
    }

    /// Whether no message waits.
    pub fn is_empty(&self) -> (empty: bool)
        ensures
            empty == (self.view().len() == 0),
    {
        self.queue.len() == 0
    }
}

/// First in, first out, nothing lost, nothing doubled: the messages received
/// so far are exactly the first ones sent, in order.
pub proof fn lemma_queue_fifo<T>(q: &MessageQueue<T>)
    requires
        q.wf(),
    ensures
        q.received().len() <= q.sent().len(),
        q.received() == q.sent().subrange(0, q.received().len() as int),
        q.view() == q.sent().subrange(q.received().len() as int, q.sent().len() as int),
{
    assert(q.received() =~= q.sent().subrange(0, q.received().len() as int));
    assert(q.view() =~= q.sent().subrange(q.received().len() as int, q.sent().len() as int));
}

} // verus!
