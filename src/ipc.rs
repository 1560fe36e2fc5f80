use vstd::prelude::*;
use std::collections::VecDeque;
use crate::wire::copy_tail;

verus! {

/// Why a receive returned without a message.
#[derive(Debug, Clone, Copy, PartialEq, Eq, Structural)]
pub enum RecvError {
    /// The timeout elapsed with nothing arriving; the caller may retry.
    TimeOut,
    /// The channel was terminated; every later receive fails the same way.
    Termination,
}

/// Sending half of an ordered byte-message channel.
pub trait IpcSend: Send {
    /// Delivers one message. It might block until the counterpart receives;
    /// either way, messages from one sender arrive in the order sent.
    fn send(&self, data: &[u8]);
}

/// A switch, transferable to another thread, that wakes a blocked receive.
pub trait Terminate: Send {
    /// Wakes up a receive blocked on the channel and terminates the channel.
    fn terminate(&self);
}

/// Receiving half of an ordered byte-message channel.
pub trait IpcRecv: Send {
    type Terminator: Terminate;

    /// Returns `Err` only for the timeout or the termination wake-up.
    fn recv(&self, timeout: Option<std::time::Duration>) -> Result<Vec<u8>, RecvError>;

    /// Creates a terminate switch that can be sent to another thread.
    fn create_terminator(&self) -> Self::Terminator;
}

/// Abstract state of a mailbox: messages not yet received, in arrival order,
/// and whether the channel has been terminated.
pub struct MailboxView {
    pub pending: Seq<Seq<u8>>,
    pub terminated: bool,
}

/// What a receive yields: a message, a failure, or `None` to keep blocking.
pub type PollOutcome = Option<Result<Seq<u8>, RecvError>>;

pub open spec fn empty_mailbox() -> MailboxView {
    MailboxView { pending: Seq::empty(), terminated: false }
}

/// A send appends its message behind everything still pending.
pub open spec fn send_step(v: MailboxView, data: Seq<u8>) -> MailboxView {
    MailboxView { pending: v.pending.push(data), terminated: v.terminated }
}

/// Termination is a flag that, once raised, is never lowered.
pub open spec fn terminate_step(v: MailboxView) -> MailboxView {
    MailboxView { pending: v.pending, terminated: true }
}

/// What one wake-up of a receive yields. Termination wins over everything,
/// a pending message over an expired timeout.
pub open spec fn poll_outcome(v: MailboxView, expired: bool) -> PollOutcome {
    if v.terminated {
        Some(Err(RecvError::Termination))
    } else if v.pending.len() > 0 {
        Some(Ok(v.pending[0]))
    } else if expired {
        Some(Err(RecvError::TimeOut))
    } else {
        None
    }
}

/// The mailbox after one wake-up: a delivered message leaves the queue.
pub open spec fn poll_next(v: MailboxView, expired: bool) -> MailboxView {
    if !v.terminated && v.pending.len() > 0 {
        MailboxView { pending: v.pending.drop_first(), terminated: v.terminated }
    } else {
        v
    }
}

/// The mailbox after sending each of `msgs` in turn.
pub open spec fn send_all(v: MailboxView, msgs: Seq<Seq<u8>>) -> MailboxView
    decreases msgs.len(),
{
    if msgs.len() == 0 {
        v
    } else {
        send_step(send_all(v, msgs.drop_last()), msgs.last())
    }
}

/// The outcomes of `n` receives in a row with no timeout expiring.
pub open spec fn receive_n(v: MailboxView, n: nat) -> Seq<PollOutcome>
    decreases n,
{
    if n == 0 {
        Seq::empty()
    } else {
        seq![poll_outcome(v, false)] + receive_n(poll_next(v, false), (n - 1) as nat)
    }
}

/// The outcomes that receiving each of `msgs` yields.
pub open spec fn delivered(msgs: Seq<Seq<u8>>) -> Seq<PollOutcome> {
    msgs.map_values(|m: Seq<u8>| Some(Ok(m)))
}

/// The state of one channel end that a blocking receive waits on.
///
/// A transport keeps one behind a lock: senders call [`Mailbox::send`], a
/// terminator calls [`Mailbox::terminate`], and the receiver calls
/// [`Mailbox::poll`] each time it wakes until that returns `Some`.
pub struct Mailbox {
    pending: VecDeque<Vec<u8>>,
    terminated: bool,
}

impl View for Mailbox {
    type V = MailboxView;

    closed spec fn view(&self) -> MailboxView {
        MailboxView {
            pending: self.pending@.map_values(|m: Vec<u8>| m@),
            terminated: self.terminated,
        }
    }
}

impl Mailbox {
    pub fn new() -> (r: Mailbox)
        ensures
            r@ == empty_mailbox(),
    {
        let r = Mailbox { pending: VecDeque::new(), terminated: false };
        assert(r@.pending =~= Seq::<Seq<u8>>::empty());
        r
    }

    /// Queues one message behind those already pending.
    pub fn send(&mut self, data: &[u8])
        ensures
            final(self)@ == send_step(old(self)@, data@),
    {
        let m = copy_tail(data, 0);
        assert(data@.subrange(0, data@.len() as int) =~= data@);
        self.pending.push_back(m);
        assert(self@.pending =~= old(self)@.pending.push(data@));
    }

    /// Terminates the channel: every later poll yields `Termination`.
    pub fn terminate(&mut self)
        ensures
            final(self)@ == terminate_step(old(self)@),
    {
        self.terminated = true;
    }

    pub fn is_terminated(&self) -> (r: bool)
        ensures
            r == self@.terminated,
    {
        self.terminated
    }

    /// Decides what a receive that has just woken up returns; `expired` says
    /// whether its timeout has elapsed. `None` means: keep blocking.
    pub fn poll(&mut self, expired: bool) -> (r: Option<Result<Vec<u8>, RecvError>>)
        ensures
            final(self)@ == poll_next(old(self)@, expired),
            poll_outcome(old(self)@, expired) == match r {
                Some(Ok(m)) => Some(Ok(m@)),
                Some(Err(e)) => Some(Err(e)),
                None => None,
            },
    {
        if self.terminated {
            return Some(Err(RecvError::Termination));
        }
        match self.pending.pop_front() {
            Some(m) => {
                assert(self@.pending =~= old(self)@.pending.drop_first());
                Some(Ok(m))
            },
            None => {
                if expired {
                    Some(Err(RecvError::TimeOut))
                } else {
                    None
                }
            },
        }
    }
}

proof fn lemma_send_all_appends(v: MailboxView, msgs: Seq<Seq<u8>>)
    ensures
        send_all(v, msgs).pending == v.pending + msgs,
        send_all(v, msgs).terminated == v.terminated,
    decreases msgs.len(),
{
    if msgs.len() == 0 {
        assert(v.pending + msgs =~= v.pending);
    } else {
        lemma_send_all_appends(v, msgs.drop_last());
        assert(v.pending + msgs =~= (v.pending + msgs.drop_last()).push(msgs.last()));
    }
}

proof fn lemma_receive_prefix(v: MailboxView, n: nat)
    requires
        !v.terminated,
        n <= v.pending.len(),
    ensures
        receive_n(v, n) == delivered(v.pending.take(n as int)),
    decreases n,
{
    if n > 0 {
        let w = poll_next(v, false);
        lemma_receive_prefix(w, (n - 1) as nat);
        assert(w.pending.take(n - 1) =~= v.pending.take(n as int).drop_first());
        assert(receive_n(v, n) =~= delivered(v.pending.take(n as int)));
    } else {
        assert(receive_n(v, n) =~= delivered(v.pending.take(n as int)));
    }
}

/// Messages from one sender are received in the order they were sent: on a
/// channel that is not terminated, after sending `msgs`, receiving yields
/// what was already pending and then `msgs`, one by one, in order.
pub proof fn lemma_receive_order_matches_send_order(v: MailboxView, msgs: Seq<Seq<u8>>)
    requires
        !v.terminated,
    ensures
        receive_n(send_all(v, msgs), v.pending.len() + msgs.len()) == delivered(v.pending + msgs),
{
    lemma_send_all_appends(v, msgs);
    let w = send_all(v, msgs);
    lemma_receive_prefix(w, v.pending.len() + msgs.len());
    assert(w.pending.take(w.pending.len() as int) =~= w.pending);
}

/// Termination is sticky and prompt: once a channel is terminated, every
/// receive yields `Termination` at once, whether or not its timeout elapsed
/// and whatever is still pending, and neither a receive nor a send lifts it.
pub proof fn lemma_termination_is_sticky(v: MailboxView, expired: bool, data: Seq<u8>)
    requires
        v.terminated,
    ensures
        poll_outcome(v, expired) == Some(Err::<Seq<u8>, RecvError>(RecvError::Termination)),
        poll_next(v, expired) == v,
        send_step(v, data).terminated,
        terminate_step(v).terminated,
{
}

/// A receive that starts after `terminate` observes it, however many
/// receives come after it.
pub proof fn lemma_terminate_releases_every_receive(v: MailboxView, n: nat)
    ensures
        receive_n(terminate_step(v), n) == Seq::new(
            n,
            |i: int| Some(Err::<Seq<u8>, RecvError>(RecvError::Termination)),
        ),
    decreases n,
{
    let t = terminate_step(v);
    if n > 0 {
        lemma_terminate_releases_every_receive(v, (n - 1) as nat);
        assert(poll_next(t, false) == t);
    }
    assert(receive_n(t, n) =~= Seq::new(
        n,
        |i: int| Some(Err::<Seq<u8>, RecvError>(RecvError::Termination)),
    ));
}

/// With nothing arriving, a receive keeps blocking until its timeout elapses,
/// and then yields `TimeOut` and leaves the channel as it was.
pub proof fn lemma_silence_times_out(v: MailboxView)
    requires
        !v.terminated,
        v.pending.len() == 0,
    ensures
        poll_outcome(v, false) == None::<Result<Seq<u8>, RecvError>>,
        poll_outcome(v, true) == Some(Err::<Seq<u8>, RecvError>(RecvError::TimeOut)),
        poll_next(v, false) == v,
        poll_next(v, true) == v,
{
}

} // verus!
