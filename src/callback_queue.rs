use vstd::prelude::*;

verus! {

/// The abstract state of a callback queue: whether a listener is attached,
/// and the messages that wait for one, oldest first.
pub struct QueueState<M> {
    pub attached: bool,
    pub pending: Seq<M>,
}

/// What emitting `m` does to a queue state: with a listener the message goes
/// out at once and nothing is buffered; without one it joins the buffer.
pub open spec fn emit_step<M>(s: QueueState<M>, m: M) -> QueueState<M> {
    if s.attached {
        s
    } else {
        QueueState { attached: false, pending: s.pending.push(m) }
    }
}

/// The messages that emitting `m` hands to the listener right away.
pub open spec fn emit_delivers<M>(s: QueueState<M>, m: M) -> Seq<M> {
    if s.attached {
        seq![m]
    } else {
        Seq::empty()
    }
}

/// Emitting every message of `msgs`, in order.
pub open spec fn emit_all<M>(s: QueueState<M>, msgs: Seq<M>) -> QueueState<M>
    decreases msgs.len(),
{
    if msgs.len() == 0 {
        s
    } else {
        emit_step(emit_all(s, msgs.drop_last()), msgs.last())
    }
}

/// Everything that emitting every message of `msgs` hands to the listener
/// right away, in order.
pub open spec fn emit_all_delivers<M>(s: QueueState<M>, msgs: Seq<M>) -> Seq<M>
    decreases msgs.len(),
{
    if msgs.len() == 0 {
        Seq::empty()
    } else {
        emit_all_delivers(s, msgs.drop_last()) + emit_delivers(
            emit_all(s, msgs.drop_last()),
            msgs.last(),
        )
    }
}

/// What attaching a listener does: the buffer is handed over and emptied.
pub open spec fn attach_step<M>(s: QueueState<M>) -> QueueState<M> {
    QueueState { attached: true, pending: Seq::empty() }
}

/// A buffer of notifications that holds messages while no listener is
/// attached and hands them over, oldest first, when one attaches.
pub struct CallbackQueue<M> {
    attached: bool,
    pending: Vec<M>,
}

impl<M> CallbackQueue<M> {
    pub closed spec fn state(&self) -> QueueState<M> {
        QueueState { attached: self.attached, pending: self.pending@ }
    }

    pub fn new() -> (r: Self)
        ensures
            r.state() == (QueueState::<M> { attached: false, pending: Seq::empty() }),
    {
        CallbackQueue { attached: false, pending: Vec::new() }
    }

    pub fn has_listener(&self) -> (r: bool)
        ensures
            r == self.state().attached,
    {
        self.attached
    }

    pub fn pending_len(&self) -> (r: usize)
        ensures
            r == self.state().pending.len(),
    {
        self.pending.len()
    }

    /// Emits a message: returns it when a listener is attached, so that the
    /// caller delivers it now, and buffers it otherwise.
    pub fn emit(&mut self, msg: M) -> (delivered: Option<M>)
        ensures
            final(self).state() == emit_step(old(self).state(), msg),
            old(self).state().attached ==> delivered == Some(msg),
            !old(self).state().attached ==> delivered.is_none(),
    {
        if self.attached {
            Some(msg)
        } else {
            self.pending.push(msg);
            None
        }
    }

    /// Attaches a listener and hands over every buffered message, oldest first.
    pub fn attach(&mut self) -> (drained: Vec<M>)
        ensures
            drained@ == old(self).state().pending,
            final(self).state() == attach_step(old(self).state()),
    {
        self.attached = true;
        let mut drained: Vec<M> = Vec::new();
        std::mem::swap(&mut drained, &mut self.pending);
        drained
    }

    /// Detaches the listener: messages are buffered again from now on.
    pub fn detach(&mut self)
        ensures
            final(self).state() == (QueueState { attached: false, pending: old(self).state().pending }),
    {
        self.attached = false;
    }
}

/// Messages emitted while no listener is attached are all handed over, in the
/// order they were emitted, when the first listener attaches; none of them is
/// delivered before that, and after it nothing is left to deliver twice: every
/// later message goes out at once and none is buffered.
pub proof fn lemma_queue_drains_in_order<M>(s: QueueState<M>, before: Seq<M>, after: Seq<M>)
    requires
        !s.attached,
        s.pending.len() == 0,
    ensures
        emit_all(s, before).pending == before,
        emit_all_delivers(s, before).len() == 0,
        !emit_all(s, before).attached,
        attach_step(emit_all(s, before)).pending.len() == 0,
        emit_all(attach_step(emit_all(s, before)), after).pending.len() == 0,
        emit_all_delivers(attach_step(emit_all(s, before)), after) == after,
    decreases before.len() + after.len(),
{
    lemma_unattached_buffers(s, before);
    lemma_attached_delivers(attach_step(emit_all(s, before)), after);
}

proof fn lemma_unattached_buffers<M>(s: QueueState<M>, msgs: Seq<M>)
    requires
        !s.attached,
    ensures
        emit_all(s, msgs).pending == s.pending + msgs,
        !emit_all(s, msgs).attached,
        emit_all_delivers(s, msgs).len() == 0,
    decreases msgs.len(),
{
    if msgs.len() > 0 {
        lemma_unattached_buffers(s, msgs.drop_last());
        assert(s.pending + msgs.drop_last() + seq![msgs.last()] =~= s.pending + msgs);
    } else {
        assert(s.pending + msgs =~= s.pending);
    }
}

proof fn lemma_attached_delivers<M>(s: QueueState<M>, msgs: Seq<M>)
    requires
        s.attached,
    ensures
        emit_all(s, msgs) == s,
        emit_all_delivers(s, msgs) == msgs,
    decreases msgs.len(),
{
    if msgs.len() > 0 {
        lemma_attached_delivers(s, msgs.drop_last());
        assert(msgs.drop_last() + seq![msgs.last()] =~= msgs);
    } else {
        assert(emit_all_delivers(s, msgs) =~= msgs);
    }
}

} // verus!
