//! The record a worker task fills in while it runs.

use vstd::prelude::*;

verus! {

/// A task's identity, payload and outcome.
pub struct TaskSpawner<T> {
    pub id: u32,
    pub data: T,
    pub success: bool,
}

impl<T: Default> TaskSpawner<T> {
    /// A fresh task record: not yet successful, with default data.
    pub fn new(id: u32) -> (r: TaskSpawner<T>)
        ensures
            r.id == id,
            r.success == false,
    {
        TaskSpawner { id, data: Default::default(), success: false }
    }

    /// Record the task's payload.
    pub fn set_task_data(&mut self, data: T)
        ensures
            final(self).id == old(self).id,
            final(self).data == data,
            final(self).success == old(self).success,
    {
        self.data = data;
    }

    /// Record the task's outcome.
    pub fn set_success(&mut self, success: bool)
        ensures
            final(self).id == old(self).id,
            final(self).data == old(self).data,
            final(self).success == success,
    {
        self.success = success;
    }
}

} // verus!
