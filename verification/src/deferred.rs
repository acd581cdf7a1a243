use vstd::prelude::*;

verus! {

/// The state of a computation run in the background.
#[derive(Debug)]
pub enum TaskState<T> {
    Pending,
    Completed(T),
    Panicked,
}

/// What is known of a computation run in the background: the value it set,
/// if any, whether a task was started for it, and whether that task has
/// finished. The task itself is run by the caller, which reports to this
/// record.
#[derive(Debug)]
pub struct Deferred<T> {
    pub value: Option<T>,
    pub task_started: bool,
    pub task_finished: bool,
}

/// The state that a record stands for: completed once a value is set,
/// panicked when the task finished without setting one, pending otherwise.
pub open spec fn state_of<T>(value: Option<T>, task_started: bool, task_finished: bool) -> TaskState<T> {
    match value {
        Some(v) => TaskState::Completed(v),
        None => if task_started && task_finished {
            TaskState::Panicked
        } else {
            TaskState::Pending
        },
    }
}

impl<T> Deferred<T> {
    /// A task finishes only after it started.
    pub open spec fn wf(&self) -> bool {
        self.task_finished ==> self.task_started
    }

    /// A task may start only when there is no value and no task yet.
    pub open spec fn can_begin(&self) -> bool {
        self.value is None && !self.task_started
    }

    pub open spec fn state(&self) -> TaskState<T> {
        state_of(self.value, self.task_started, self.task_finished)
    }

    /// A record with no value and no task.
    pub fn new() -> (r: Self)
        ensures
            r.value is None,
            !r.task_started,
            !r.task_finished,
            r.wf(),
    {
        Deferred { value: None, task_started: false, task_finished: false }
    }

    /// A record whose task is started at once (the caller spawns it).
    pub fn start() -> (r: Self)
        ensures
            r.value is None,
            r.task_started,
            !r.task_finished,
            r.wf(),
    {
        let mut deferred = Self::new();
        deferred.begin();
        deferred
    }

    /// Whether a task may be started: only when there is no value and no
    /// task yet. When it returns true the task counts as started and the
    /// caller spawns it.
    pub fn begin(&mut self) -> (r: bool)
        ensures
            r == old(self).can_begin(),
            final(self).value == old(self).value,
            final(self).task_started == (old(self).task_started || r),
            final(self).task_finished == old(self).task_finished,
    {
        if self.value.is_some() || self.task_started {
            return false;
        }
        self.task_started = true;
        true
    }

    /// The task hands over its value; like a cell that is set once, a value
    /// already there stays and the new one is refused.
    pub fn set_value(&mut self, value: T) -> (r: bool)
        ensures
            r == old(self).value is None,
            final(self).value == (if r {
                Some(value)
            } else {
                old(self).value
            }),
            final(self).task_started == old(self).task_started,
            final(self).task_finished == old(self).task_finished,
    {
        if self.value.is_some() {
            return false;
        }
        self.value = Some(value);
        true
    }

    /// The task is seen to have finished.
    pub fn finish(&mut self)
        requires
            old(self).task_started,
        ensures
            final(self).value == old(self).value,
            final(self).task_started,
            final(self).task_finished,
    {
        self.task_finished = true;
    }

    /// The current state of the computation.
    pub fn get_state(&self) -> (r: TaskState<&T>)
        ensures
            match (r, self.state()) {
                (TaskState::Completed(v), TaskState::Completed(w)) => *v == w,
                (TaskState::Pending, TaskState::Pending) => true,
                (TaskState::Panicked, TaskState::Panicked) => true,
                _ => false,
            },
    {
        match &self.value {
            Some(value) => TaskState::Completed(value),
            None => {
                if self.task_started && self.task_finished {
                    TaskState::Panicked
                } else {
                    TaskState::Pending
                }
            },
        }
    }

    /// The value, once the computation completed.
    pub fn try_get(&self) -> (r: Option<&T>)
        ensures
            match r {
                Some(v) => self.value == Some(*v),
                None => self.value is None,
            },
    {
        match self.get_state() {
            TaskState::Completed(value) => Some(value),
            _ => None,
        }
    }

    pub fn has_panicked(&self) -> (r: bool)
        ensures
            r == (self.state() is Panicked),
    {
        match self.get_state() {
            TaskState::Panicked => true,
            _ => false,
        }
    }

    pub fn is_ready(&self) -> (r: bool)
        ensures
            r == (self.state() is Completed),
    {
        match self.get_state() {
            TaskState::Completed(_) => true,
            _ => false,
        }
    }

    pub fn is_pending(&self) -> (r: bool)
        ensures
            r == (self.state() is Pending),
    {
        match self.get_state() {
            TaskState::Pending => true,
            _ => false,
        }
    }
}

/// A computation is started at most once: after `begin` (whatever it
/// answered) no task can begin any more.
pub proof fn law_begin_once<T>(d: Deferred<T>)
    ensures
        !(Deferred { task_started: d.task_started || d.can_begin(), ..d }).can_begin(),
{
}

/// A completed computation stays completed with the same value, whatever
/// the task does afterwards, and a finished task without a value counts as
/// panicked.
pub proof fn law_completed_stays<T>(v: T, task_started: bool, task_finished: bool)
    ensures
        state_of(Some(v), task_started, task_finished) == TaskState::Completed(v),
        state_of(Some(v), task_started, true) == TaskState::Completed(v),
        state_of(Option::<T>::None, true, true) is Panicked,
        state_of(Option::<T>::None, task_started, false) is Pending,
{
}

} // verus!
