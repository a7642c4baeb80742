//! Bookkeeping for cancellable tasks: the list of live task handles, and the
//! order in which a shutdown cancels and joins them.

use vstd::prelude::*;

verus! {

/// The handles of the tasks a manager or an actor owns, in the order they were
/// added.
pub struct TaskRegistry<T> {
    tasks: Vec<T>,
}

impl<T> TaskRegistry<T> {
    pub closed spec fn view(&self) -> Seq<T> {
        self.tasks@
    }

    pub fn new() -> (r: Self)
        ensures
            r.view() == Seq::<T>::empty(),
    {
        TaskRegistry { tasks: Vec::new() }
    }

    pub fn len(&self) -> (r: usize)
        ensures
            r == self.view().len(),
    {
        self.tasks.len()
    }

    /// Registers one more task.
    pub fn add(&mut self, task: T)
        ensures
            final(self).view() == old(self).view().push(task),
    {
        self.tasks.push(task);
    }

    /// Takes every registered task out, in the order added, and leaves the
    /// registry empty.
    pub fn take_all(&mut self) -> (r: Vec<T>)
        ensures
            r@ == old(self).view(),
            final(self).view() == Seq::<T>::empty(),
    {
        let mut taken: Vec<T> = Vec::new();
        std::mem::swap(&mut taken, &mut self.tasks);
        taken
    }
}

/// One step of a shutdown: ask task `i` to stop, or wait for task `i` to end.
#[derive(Debug, Clone, Copy, PartialEq, Eq, Structural)]
pub enum ShutdownStep {
    Cancel(usize),
    Join(usize),
}

/// The steps of shutting down `n` tasks: every task is cancelled, in order,
/// before any is joined; then each is joined, in order.
pub open spec fn shutdown_steps(n: nat) -> Seq<ShutdownStep> {
    Seq::new(2 * n, |k: int| if k < n { ShutdownStep::Cancel(k as usize) } else { ShutdownStep::Join((k - n) as usize) })
}

/// Hands out the steps of shutting down `n` tasks, one at a time.
#[derive(Debug)]
pub struct ShutdownPlan {
    n: usize,
    done: usize,
}

impl ShutdownPlan {
    /// The number of tasks being shut down.
    pub closed spec fn spec_n(self) -> nat {
        self.n as nat
    }

    /// The number of steps handed out so far.
    pub closed spec fn spec_done(self) -> nat {
        self.done as nat
    }

    pub closed spec fn wf(self) -> bool {
        self.done <= 2 * self.n
    }

    /// A plan for `n` tasks with no step handed out.
    pub fn new(n: usize) -> (r: Self)
        requires
            2 * n <= usize::MAX,
        ensures
            r.wf(),
            r.spec_n() == n,
            r.spec_done() == 0,
    {
        ShutdownPlan { n, done: 0 }
    }

    /// The next step, or `None` once every task was joined.
    pub fn next_step(&mut self) -> (r: Option<ShutdownStep>)
        requires
            old(self).wf(),
            2 * old(self).spec_n() <= usize::MAX,
        ensures
            final(self).wf(),
            final(self).spec_n() == old(self).spec_n(),
            old(self).spec_done() < 2 * old(self).spec_n() ==> r == Some(
                shutdown_steps(old(self).spec_n())[old(self).spec_done() as int],
            ) && final(self).spec_done() == old(self).spec_done() + 1,
            old(self).spec_done() == 2 * old(self).spec_n() ==> r is None && final(self).spec_done()
                == old(self).spec_done(),
    {
        if self.done < self.n {
            let step = ShutdownStep::Cancel(self.done);
            self.done = self.done + 1;
            Some(step)
        } else if self.done < 2 * self.n {
            let step = ShutdownStep::Join(self.done - self.n);
            self.done = self.done + 1;
            Some(step)
        } else {
            None
        }
    }
}

/// A shutdown of `n` tasks joins each of them exactly once, and only after
/// every one of them was asked to stop.
pub proof fn lemma_shutdown_joins_each_once(n: nat)
    requires
        n <= usize::MAX,
    ensures
        shutdown_steps(n).len() == 2 * n,
        forall|i: int|
            0 <= i < n ==> #[trigger] shutdown_steps(n)[n + i] == ShutdownStep::Join(i as usize)
                && shutdown_steps(n)[i] == ShutdownStep::Cancel(i as usize),
        forall|j: int, k: int|
            0 <= j < 2 * n && 0 <= k < 2 * n && #[trigger] shutdown_steps(n)[j] is Join
                && shutdown_steps(n)[j] == #[trigger] shutdown_steps(n)[k] ==> j == k,
        forall|j: int, k: int|
            0 <= j < 2 * n && 0 <= k < 2 * n && #[trigger] shutdown_steps(n)[j] is Cancel
                && #[trigger] shutdown_steps(n)[k] is Join && shutdown_steps(n)[j]->Cancel_0
                == shutdown_steps(n)[k]->Join_0 ==> j < k,
{
    assert forall|j: int, k: int|
        0 <= j < 2 * n && 0 <= k < 2 * n && #[trigger] shutdown_steps(n)[j] is Join
            && shutdown_steps(n)[j] == #[trigger] shutdown_steps(n)[k] implies j == k by {
        assert(j >= n && k >= n);
        assert((j - n) as usize == (k - n) as usize);
    }
}

} // verus!
