//! A heap of files to delete, worked off away from the scheduler.
//!
//! The scheduler sends the names of files that are no longer needed and
//! goes on at once. A worker asks for its next task and deletes one file
//! at a time; a file that cannot be deleted is logged and does not stop
//! it. After [`Dump::shutdown`] nothing more is taken, the worker gets
//! what was sent before, and then it is told to exit.
//!
//! The heap itself deletes nothing and runs no thread: it keeps the
//! order of the files and decides what the worker does next.

use crate::text::{chars_of, push_str, string_of};
use std::collections::VecDeque;
use vstd::prelude::*;

verus! {

/// The states of a heap, in the order in which it passes through them.
#[derive(Clone, Copy, Debug, PartialEq, Eq, Structural)]
pub enum DumpState {
    /// Files are taken and deleted.
    Running,
    /// No file is taken any more; those that were sent are deleted.
    Draining,
    /// The worker has been told to exit.
    Stopped,
}

/// What the worker is to do next.
#[derive(Debug)]
pub enum DumpAction {
    /// Try to delete this file, then ask again.
    Delete { file: String },
    /// There is nothing to do for now: wait for a file or for the
    /// shutdown, then ask again.
    Wait,
    /// Exit.
    Exit,
}

/// A [`DumpAction`] with the file's name as a sequence of characters.
pub enum Task {
    Delete { file: Seq<char> },
    Wait,
    Exit,
}

impl View for DumpAction {
    type V = Task;

    open spec fn view(&self) -> Task {
        match self {
            DumpAction::Delete { file } => Task::Delete { file: file@ },
            DumpAction::Wait => Task::Wait,
            DumpAction::Exit => Task::Exit,
        }
    }
}

/// What a heap is: its state, and the files that wait to be deleted,
/// the one that was sent first in front.
pub struct Heap {
    pub state: DumpState,
    pub pending: Seq<Seq<char>>,
}

/// A new heap: running, with no file.
pub open spec fn fresh() -> Heap {
    Heap { state: DumpState::Running, pending: Seq::empty() }
}

/// The heap `h` after `file` was sent to it: a running heap puts the
/// file last, any other drops it.
pub open spec fn after_send(h: Heap, file: Seq<char>) -> Heap {
    if h.state == DumpState::Running {
        Heap { state: h.state, pending: h.pending.push(file) }
    } else {
        h
    }
}

/// The heap `h` after it was shut down: a running heap drains from now
/// on.
pub open spec fn after_shutdown(h: Heap) -> Heap {
    if h.state == DumpState::Running {
        Heap { state: DumpState::Draining, pending: h.pending }
    } else {
        h
    }
}

/// What the worker of the heap `h` does next: it deletes the file in
/// front if there is one; with none, it waits while the heap runs and
/// exits once the heap was shut down.
pub open spec fn task(h: Heap) -> Task {
    if h.pending.len() > 0 {
        Task::Delete { file: h.pending[0] }
    } else if h.state == DumpState::Running {
        Task::Wait
    } else {
        Task::Exit
    }
}

/// The heap `h` after its worker took its next task.
pub open spec fn after_task(h: Heap) -> Heap {
    if h.pending.len() > 0 {
        Heap { state: h.state, pending: h.pending.drop_first() }
    } else if h.state == DumpState::Running {
        h
    } else {
        Heap { state: DumpState::Stopped, pending: h.pending }
    }
}

/// The heap `h` after the files `files` were sent to it, one after the
/// other.
pub open spec fn after_sends(h: Heap, files: Seq<Seq<char>>) -> Heap
    decreases files.len(),
{
    if files.len() == 0 {
        h
    } else {
        after_send(after_sends(h, files.drop_last()), files.last())
    }
}

/// The heap `h` after its worker took `n` tasks.
pub open spec fn after_tasks(h: Heap, n: nat) -> Heap
    decreases n,
{
    if n == 0 {
        h
    } else {
        after_task(after_tasks(h, (n - 1) as nat))
    }
}

/// The message that is logged when `file` could not be deleted for the
/// reason `reason`.
pub open spec fn failure_text(file: Seq<char>, reason: Seq<char>) -> Seq<char> {
    "failed to remove "@ + file + " with "@ + reason
}

/// A heap of files to delete.
pub struct Dump {
    state: DumpState,
    pending: VecDeque<String>,
}

impl View for Dump {
    type V = Heap;

    closed spec fn view(&self) -> Heap {
        Heap {
            state: self.state,
            pending: Seq::new(self.pending@.len(), |i: int| self.pending@[i]@),
        }
    }
}

impl Dump {
    /// A new heap: running, with no file.
    pub fn new() -> (d: Dump)
        ensures
            d@ == fresh(),
    {
        let d = Dump { state: DumpState::Running, pending: VecDeque::new() };
        assert(d@.pending =~= Seq::<Seq<char>>::empty());
        d
    }

    /// The state of the heap.
    pub fn state(&self) -> (s: DumpState)
        ensures
            s == self@.state,
    {
        self.state
    }

    /// The number of files that wait to be deleted.
    pub fn pending(&self) -> (n: usize)
        ensures
            n == self@.pending.len(),
    {
        self.pending.len()
    }

    /// Puts `file` on the heap. It never waits. Tells whether the file
    /// was taken: after a shutdown it is dropped.
    pub fn send(&mut self, file: String) -> (taken: bool)
        ensures
            final(self)@ == after_send(old(self)@, file@),
            taken == (old(self)@.state == DumpState::Running),
    {
        match self.state {
            DumpState::Running => {
                self.pending.push_back(file);
                assert(self@.pending =~= old(self)@.pending.push(file@));
                true
            },
            _ => false,
        }
    }

    /// Shuts the heap down: it takes no more files. The worker still
    /// gets those that were sent before, in their order, and then the
    /// task to exit. A heap that was shut down stays so.
    pub fn shutdown(&mut self)
        ensures
            final(self)@ == after_shutdown(old(self)@),
    {
        if let DumpState::Running = self.state {
            self.state = DumpState::Draining;
        }
    }

    /// Hands the worker its next task. A file that is handed out is off
    /// the heap, whether the worker can delete it or not.
    pub fn next(&mut self) -> (action: DumpAction)
        ensures
            action@ == task(old(self)@),
            final(self)@ == after_task(old(self)@),
    {
        match self.pending.pop_front() {
            Some(file) => {
                assert(self@.pending =~= old(self)@.pending.drop_first());
                DumpAction::Delete { file }
            },
            None => {
                assert(self@.pending =~= old(self)@.pending);
                match self.state {
                    DumpState::Running => DumpAction::Wait,
                    _ => {
                        self.state = DumpState::Stopped;
                        DumpAction::Exit
                    },
                }
            },
        }
    }

    /// The message to log when `file` could not be deleted. The heap is
    /// as it was: the worker goes on with its next task.
    pub fn deletion_failed(&self, file: &str, reason: &str) -> (message: String)
        ensures
            message@ == failure_text(file@, reason@),
    {
        let mut out = chars_of("failed to remove ");
        push_str(&mut out, file);
        push_str(&mut out, " with ");
        push_str(&mut out, reason);
        string_of(out.as_slice())
    }
}

/// Files that are sent to a running heap queue up behind those that wait
/// there, in the order in which they were sent.
pub proof fn lemma_sends_queue_up(h: Heap, files: Seq<Seq<char>>)
    requires
        h.state == DumpState::Running,
    ensures
        after_sends(h, files) == (Heap {
            state: DumpState::Running,
            pending: h.pending + files,
        }),
    decreases files.len(),
{
    if files.len() == 0 {
        assert(h.pending + files =~= h.pending);
    } else {
        lemma_sends_queue_up(h, files.drop_last());
        assert((h.pending + files.drop_last()).push(files.last()) =~= h.pending + files);
    }
}

/// The worker of a heap that does not run takes the files in front one
/// by one: after `n` tasks, with `n` no more than the number of files,
/// the first `n` files are off the heap and nothing else has changed.
pub proof fn lemma_tasks_take_from_the_front(h: Heap, n: nat)
    requires
        n <= h.pending.len(),
    ensures
        after_tasks(h, n) == (Heap { state: h.state, pending: h.pending.skip(n as int) }),
    decreases n,
{
    if n == 0 {
        assert(h.pending.skip(0) =~= h.pending);
    } else {
        lemma_tasks_take_from_the_front(h, (n - 1) as nat);
        assert(h.pending.skip(n - 1).drop_first() =~= h.pending.skip(n as int));
    }
}

/// After the files `files` were sent to a new heap and the heap was shut
/// down, the worker is told to delete each of them, in the order in which
/// they were sent, whatever comes of the deletions; then it is told to
/// exit, and the heap has stopped.
pub proof fn lemma_shutdown_drains_in_order(files: Seq<Seq<char>>)
    ensures
        forall|k: nat|
            k < files.len() ==> task(
                #[trigger] after_tasks(after_shutdown(after_sends(fresh(), files)), k),
            ) == (Task::Delete { file: files[k as int] }),
        task(after_tasks(after_shutdown(after_sends(fresh(), files)), files.len())) == Task::Exit,
        after_tasks(after_shutdown(after_sends(fresh(), files)), files.len() + 1).state
            == DumpState::Stopped,
{
    lemma_sends_queue_up(fresh(), files);
    assert(Seq::<Seq<char>>::empty() + files =~= files);
    let h = after_shutdown(after_sends(fresh(), files));
    assert(h == Heap { state: DumpState::Draining, pending: files });
    assert forall|k: nat| k < files.len() implies task(#[trigger] after_tasks(h, k)) == (
    Task::Delete { file: files[k as int] }) by {
        lemma_tasks_take_from_the_front(h, k);
    }
    lemma_tasks_take_from_the_front(h, files.len());
    assert(after_tasks(h, files.len() + 1) == after_task(after_tasks(h, files.len())));
}

/// A file that is sent after the shutdown is dropped, and a heap that
/// runs never tells its worker to exit.
pub proof fn lemma_shutdown_is_final(h: Heap, file: Seq<char>)
    ensures
        h.state != DumpState::Running ==> after_send(h, file) == h,
        after_shutdown(h).state != DumpState::Running,
        after_task(h).state == DumpState::Running <==> h.state == DumpState::Running,
        h.state == DumpState::Running ==> task(h) != Task::Exit,
{
}

} // verus!
