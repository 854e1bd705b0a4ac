//! The one-shot shutdown signal, fired at most once.

use vstd::prelude::*;
use tokio::sync::oneshot::Sender;

verus! {

/// tokio's `oneshot::Sender`, held as an opaque value.
#[verifier::external_type_specification]
#[verifier::external_body]
#[verifier::reject_recursive_types(T)]
pub struct ExSender<T>(Sender<T>);

/// Relies on tokio's `oneshot::Sender::send`, which consumes the sender and
/// hands the value to the receiver, or back when the receiver is gone.
pub assume_specification<T>[ Sender::<T>::send ](tx: Sender<T>, t: T) -> Result<(), T>;

/// The slot of the shutdown sender. Whoever fires first takes the sender
/// and sends; later attempts find the slot empty.
pub struct Shutdown {
    sender: Option<Sender<()>>,
    fired: Ghost<nat>,
}

impl Shutdown {
    /// The sends made so far and the sender still held add up to one.
    pub closed spec fn wf(&self) -> bool {
        self.fired@ + (if self.sender is Some {
            1nat
        } else {
            0nat
        }) == 1
    }

    /// How many times the signal was sent.
    pub closed spec fn fired(&self) -> nat {
        self.fired@
    }

    /// The signal can still be sent.
    pub closed spec fn armed(&self) -> bool {
        self.sender is Some
    }

    /// A slot holding `sender`, not fired yet.
    pub fn new(sender: Sender<()>) -> (r: Shutdown)
        ensures
            r.wf(),
            r.armed(),
            r.fired() == 0,
    {
        Shutdown { sender: Some(sender), fired: Ghost(0) }
    }

    /// Whether the signal can still be sent.
    pub fn is_armed(&self) -> (r: bool)
        ensures
            r == self.armed(),
    {
        self.sender.is_some()
    }

    /// Sends the signal if nobody has yet, and says whether this call did.
    pub fn fire(&mut self) -> (r: bool)
        requires
            old(self).wf(),
        ensures
            final(self).wf(),
            r == old(self).armed(),
            !final(self).armed(),
            final(self).fired() == old(self).fired() + if r {
                1nat
            } else {
                0nat
            },
            final(self).fired() == 1,
    {
        let mut was = Shutdown { sender: None, fired: Ghost(1) };
        std::mem::swap(self, &mut was);
        let Shutdown { sender, fired: _ } = was;
        match sender {
            Some(tx) => {
                let _ = tx.send(());
                true
            },
            None => false,
        }
    }
}

/// The signal is sent at most once: in every state the sends made so far
/// and the sender still held add up to one.
pub proof fn lemma_fired_at_most_once(s: Shutdown)
    requires
        s.wf(),
    ensures
        s.fired() <= 1,
        s.armed() <==> s.fired() == 0,
{
}

} // verus!
