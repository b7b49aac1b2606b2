//! Tasks: a named slot for a coroutine's result.  The coroutine itself runs
//! outside the verified core; what is tracked here is its identity and the
//! result it stores on completion, consumed exactly once by `get_result`.

use vstd::prelude::*;

verus! {

/// What the scheduler knows of a task: its name and its stable id.
pub trait Task {
    /// The task's name, for diagnostics.
    fn get_name(&self) -> &'static str;

    /// The externally visible id assigned on insertion, if any.
    fn get_id(&self) -> Option<u64>;

    /// Records the externally visible id.
    fn set_id(&mut self, id: u64);
}

/// A task that yields a result of type `R`: the result slot is filled once
/// when the coroutine completes and drained once by `get_result`.
pub struct TaskWithResult<R> {
    /// The libOS uses this to identify the kind of task.
    name: &'static str,
    /// Stable external id, set on insertion.
    task_id: Option<u64>,
    /// The completed coroutine's result, if it has finished.
    result: Option<R>,
}

impl<R> TaskWithResult<R> {
    /// The stored result, if the task has completed.
    pub closed spec fn result_spec(self) -> Option<R> {
        self.result
    }

    /// The task's name.
    pub closed spec fn name_spec(self) -> &'static str {
        self.name
    }

    /// The task's external id, if assigned.
    pub closed spec fn id_spec(self) -> Option<u64> {
        self.task_id
    }

    /// Creates a task that has not completed and has no id.
    pub fn new(name: &'static str) -> (r: Self)
        ensures
            r.name_spec() == name,
            r.id_spec() is None,
            r.result_spec() is None,
    {
        TaskWithResult { name, task_id: None, result: None }
    }

    /// Records the completed coroutine's result; at most one result is ever
    /// recorded.
    pub fn set_result(&mut self, result: R)
        requires
            old(self).result_spec() is None,
        ensures
            final(self).result_spec() == Some(result),
            final(self).name_spec() == old(self).name_spec(),
            final(self).id_spec() == old(self).id_spec(),
    {
        self.result = Some(result);
    }

    /// Drains the result: returns it once the task has completed, and
    /// leaves the slot empty so the result is consumed exactly once.
    pub fn get_result(&mut self) -> (r: Option<R>)
        ensures
            r == old(self).result_spec(),
            final(self).result_spec() is None,
            final(self).name_spec() == old(self).name_spec(),
            final(self).id_spec() == old(self).id_spec(),
    {
        self.result.take()
    }

    /// Whether the task has completed and still holds its result.
    pub fn is_terminated(&self) -> (r: bool)
        ensures
            r == (self.result_spec() is Some),
    {
        self.result.is_some()
    }
}

impl<R> Task for TaskWithResult<R> {
    fn get_name(&self) -> &'static str {
        self.name
    }

    fn get_id(&self) -> Option<u64> {
        self.task_id
    }

    fn set_id(&mut self, id: u64) {
        self.task_id = Some(id);
    }
}

} // verus!
