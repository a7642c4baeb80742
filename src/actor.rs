//! The decisions of an actor's processing loop.
//!
//! An actor owns a piece of state that only its own loop touches. The loop
//! takes one signal at a time from an ordered mailbox: a message goes to the
//! handler, a child task is recorded, and a shutdown request or a closed
//! mailbox ends the loop. The actor then drains: every recorded child is
//! cancelled and joined, in the order attached, before the actor ends.

use vstd::prelude::*;
use crate::task::TaskRegistry;

verus! {

/// What an actor's mailbox delivers.
pub enum ActorSignal<M, C> {
    Message(M),
    SpawnChild(C),
    Shutdown,
}

#[derive(Debug, Clone, Copy, PartialEq, Eq, Structural)]
pub enum ActorPhase {
    Running,
    Draining,
    Terminated,
}

/// What the loop does next.
pub enum ActorStep<M> {
    /// Run the handler on this message, then go on.
    Handle(M),
    /// Go on with the next signal.
    Continue,
    /// Stop taking signals and drain the children.
    Drain,
}

/// The phase of an actor and the children it owns.
pub struct ActorCore<C> {
    phase: ActorPhase,
    children: TaskRegistry<C>,
}

impl<C> ActorCore<C> {
    pub closed spec fn spec_phase(&self) -> ActorPhase {
        self.phase
    }

    /// The children attached so far and not yet handed out for draining.
    pub closed spec fn children(&self) -> Seq<C> {
        self.children.view()
    }

    /// An actor that has terminated owns no children.
    pub open spec fn wf(&self) -> bool {
        self.spec_phase() == ActorPhase::Terminated ==> self.children().len() == 0
    }

    /// A running actor with no children.
    pub fn new() -> (r: Self)
        ensures
            r.wf(),
            r.spec_phase() == ActorPhase::Running,
            r.children() == Seq::<C>::empty(),
    {
        ActorCore { phase: ActorPhase::Running, children: TaskRegistry::new() }
    }

    pub fn phase(&self) -> (r: ActorPhase)
        ensures
            r == self.spec_phase(),
    {
        self.phase
    }

    /// Takes one signal from the mailbox; `None` means the mailbox closed.
    pub fn on_signal<M>(&mut self, signal: Option<ActorSignal<M, C>>) -> (r: ActorStep<M>)
        requires
            old(self).spec_phase() == ActorPhase::Running,
        ensures
            final(self).wf(),
            match signal {
                Some(ActorSignal::Message(m)) => {
                    &&& r == ActorStep::Handle(m)
                    &&& *final(self) == *old(self)
                },
                Some(ActorSignal::SpawnChild(c)) => {
                    &&& r == ActorStep::<M>::Continue
                    &&& final(self).spec_phase() == ActorPhase::Running
                    &&& final(self).children() == old(self).children().push(c)
                },
                _ => {
                    &&& r == ActorStep::<M>::Drain
                    &&& final(self).spec_phase() == ActorPhase::Draining
                    &&& final(self).children() == old(self).children()
                },
            },
    {
        match signal {
            Some(ActorSignal::Message(m)) => ActorStep::Handle(m),
            Some(ActorSignal::SpawnChild(c)) => {
                self.children.add(c);
                ActorStep::Continue
            },
            _ => {
                self.phase = ActorPhase::Draining;
                ActorStep::Drain
            },
        }
    }

    /// Hands out every child, in the order attached, for cancelling and
    /// joining; the actor keeps none.
    pub fn take_children(&mut self) -> (r: Vec<C>)
        requires
            old(self).spec_phase() == ActorPhase::Draining,
        ensures
            final(self).wf(),
            r@ == old(self).children(),
            final(self).children() == Seq::<C>::empty(),
            final(self).spec_phase() == ActorPhase::Draining,
    {
        self.children.take_all()
    }

    /// Records that every child handed out was joined.
    pub fn finish(&mut self)
        requires
            old(self).spec_phase() == ActorPhase::Draining,
            old(self).children() == Seq::<C>::empty(),
        ensures
            final(self).wf(),
            final(self).spec_phase() == ActorPhase::Terminated,
            final(self).children() == Seq::<C>::empty(),
    {
        self.phase = ActorPhase::Terminated;
    }
}

} // verus!
