//! The schedule of the periodic tasks.

use vstd::prelude::*;

verus! {

/// A task that runs once every `millis` milliseconds.
#[derive(Debug)]
pub struct ScheduledTask {
    pub name: String,
    pub millis: u64,
}

impl View for ScheduledTask {
    type V = (Seq<char>, int);

    open spec fn view(&self) -> (Seq<char>, int) {
        (self.name@, self.millis as int)
    }
}

/// Collects the tasks to run, each with its interval.
pub struct TaskBuilder {
    tasks: Vec<ScheduledTask>,
}

impl View for TaskBuilder {
    type V = Seq<(Seq<char>, int)>;

    closed spec fn view(&self) -> Seq<(Seq<char>, int)> {
        self.tasks@.map_values(|t: ScheduledTask| t@)
    }
}

impl TaskBuilder {
    /// A schedule without tasks.
    pub fn new() -> (builder: Self)
        ensures
            builder@ == Seq::<(Seq<char>, int)>::empty(),
    {
        let builder = TaskBuilder { tasks: Vec::new() };
        assert(builder@ =~= Seq::<(Seq<char>, int)>::empty());
        builder
    }

    /// Adds the task `name` to the schedule, to run every `millis`
    /// milliseconds.
    pub fn ignite_task(&mut self, name: &str, millis: u64) -> (builder: &Self)
        requires
            millis > 0,
        ensures
            final(self)@ == old(self)@.push((name@, millis as int)),
            builder@ == final(self)@,
    {
        self.tasks.push(ScheduledTask { name: String::from_str(name), millis });
        assert(self@ =~= old(self)@.push((name@, millis as int)));
        &*self
    }

    /// The tasks of the schedule, in the order in which they were added.
    pub fn get_tasks(&self) -> (tasks: &Vec<ScheduledTask>)
        ensures
            tasks@.map_values(|t: ScheduledTask| t@) == self@,
    {
        &self.tasks
    }
}

} // verus!
