//! Handles on tasks that run on a Tokio runtime.
use vstd::prelude::*;
use tokio::runtime::Handle;
use tokio::task::{JoinError, JoinHandle};
use futures_util::FutureExt;

verus! {

#[verifier::external_type_specification]
#[verifier::external_body]
pub struct ExRuntimeHandle(Handle);

#[verifier::external_type_specification]
#[verifier::external_body]
#[verifier::reject_recursive_types(T)]
pub struct ExJoinHandle<T>(JoinHandle<T>);

#[verifier::external_type_specification]
#[verifier::external_body]
pub struct ExJoinError(JoinError);

/// Calls `tokio::runtime::Handle::try_current`, which hands out the handle of
/// the runtime that the calling thread runs on, or an error where the thread
/// belongs to no runtime.  Which of the two comes back depends on the calling
/// thread, which no argument describes, so nothing is claimed of it.
#[verifier::external_body]
fn try_current_handle() -> Option<Handle> {
    Handle::try_current().ok()
}

/// Calls `JoinHandle::is_finished`.  Whether the task has finished depends on
/// timing, so nothing is claimed of the answer.
#[verifier::external_body]
fn handle_is_finished<T>(handle: &JoinHandle<T>) -> bool {
    handle.is_finished()
}

/// Polls a join handle once, without waiting, through
/// `FutureExt::now_or_never`: the task's output, or the error that says why it
/// produced none (it panicked or was cancelled), where the task is complete
/// and its runtime's budget lets the poll proceed; `None` otherwise.  Which
/// comes back depends on timing, so nothing is claimed of it.  Polling reads
/// the task's state and leaves the handle as it was.
#[verifier::external_body]
fn poll_join<T>(handle: &mut JoinHandle<T>) -> (res: Option<Result<T, JoinError>>)
    ensures
        *final(handle) == *old(handle),
{
    handle.now_or_never()
}

/// Calls `Handle::spawn`, which starts `future` on the runtime and hands back
/// the join handle of the new task.  Nothing is claimed of the handle.
#[verifier::external_body]
fn spawn_on<T, F>(runtime: &Handle, future: F) -> JoinHandle<T>
    where T: Send + 'static, F: core::future::Future<Output = T> + Send + 'static
{
    runtime.spawn(future)
}

/// Calls `JoinHandle::abort`, which asks the runtime to cancel the task.
#[verifier::external_body]
fn abort_handle<T>(handle: &JoinHandle<T>)
    opens_invariants none
    no_unwind
{
    handle.abort()
}

/// A handle on the Tokio runtime that background tasks run on.
pub struct TokioRuntime(pub Handle);

impl TokioRuntime {
    /// The runtime of the calling thread; `None` where the thread belongs to
    /// no runtime.
    pub fn new() -> (res: Option<Self>) {
        match try_current_handle() {
            Some(handle) => Some(TokioRuntime(handle)),
            None => None,
        }
    }

    /// The underlying Tokio handle.
    pub fn handle(&self) -> (res: &Handle)
        ensures
            res == &self.0,
    {
        &self.0
    }
}

/// A background task whose result is collected once.  `None` means that the
/// result has been collected already.
#[verifier::reject_recursive_types(T)]
pub struct Task<T>(pub Option<JoinHandle<T>>);

impl<T> Task<T> {
    /// A task that waits on `handle`.
    pub fn new(handle: JoinHandle<T>) -> (res: Self)
        ensures
            res.0 == Some(handle),
    {
        Task(Some(handle))
    }

    /// Starts `future` on `runtime` and waits on it.
    pub fn spawn<F>(runtime: &TokioRuntime, future: F) -> (res: Self)
        where T: Send + 'static, F: core::future::Future<Output = T> + Send + 'static
        ensures
            res.0.is_some(),
    {
        Self::new(spawn_on(&runtime.0, future))
    }

    /// Whether the task has finished.  A task whose result has been collected
    /// counts as finished.
    pub fn is_finished(&self) -> (res: bool)
        ensures
            self.0.is_none() ==> res,
    {
        match &self.0 {
            Some(handle) => handle_is_finished(handle),
            None => true,
        }
    }

    /// Takes the handle out of the task where the task has `finished`, so
    /// that its outcome can be collected; otherwise leaves the task as it is.
    pub fn take_if_finished(&mut self, finished: bool) -> (res: Option<JoinHandle<T>>)
        ensures
            res == (if finished {
                old(self).0
            } else {
                None
            }),
            final(self).0 == (if finished {
                None
            } else {
                old(self).0
            }),
    {
        if finished {
            self.0.take()
        } else {
            None
        }
    }

    /// Collects the outcome of a finished task, without waiting: `None` while
    /// the task still runs or once its outcome has been collected; otherwise
    /// the task's output or the error that ended it, after which the task
    /// holds no handle.  A handle whose outcome cannot be read yet stays in
    /// the task.
    pub fn join_if_finished(&mut self) -> (res: Option<Result<T, JoinError>>)
        ensures
            old(self).0.is_none() ==> res.is_none() && final(self).0.is_none(),
            res.is_some() ==> old(self).0.is_some() && final(self).0.is_none(),
            res.is_none() ==> final(self).0 == old(self).0,
    {
        let finished = self.is_finished();
        match self.take_if_finished(finished) {
            Some(mut handle) => {
                let outcome = poll_join(&mut handle);
                if outcome.is_none() {
                    self.0 = Some(handle);
                }
                outcome
            },
            None => None,
        }
    }
}

impl<T> Drop for Task<T> {
    /// Cancels the task if its result has not been collected.
    fn drop(&mut self)
        opens_invariants none
        no_unwind
    {
        if let Some(handle) = &self.0 {
            abort_handle(handle);
        }
    }
}

} // verus!
