use vstd::prelude::*;

use crate::task::{now, progress_ok, steps_view, Task, TaskStatus, TaskView, Timestamp};

verus! {

/// What marking a step done did.
#[derive(Clone, Copy, Debug, PartialEq, Eq, Structural)]
pub enum Advance {
    /// The task moved on to its next step.
    StepAdvanced,
    /// The task was on its last step, or had none, and is now complete.
    TaskCompleted,
    /// No task has the identifier.
    NotFound,
}

/// Every identifier occurs at most once.
pub open spec fn ids_unique(s: Seq<TaskView>) -> bool {
    forall|i: int, j: int|
        0 <= i < s.len() && 0 <= j < s.len() && i != j ==> #[trigger] s[i].id != #[trigger] s[j].id
}

/// The invariant of a store: each task keeps its progress invariant, identifiers
/// are unique and all lie below the next identifier to hand out.
pub open spec fn store_inv(s: Seq<TaskView>, next_id: nat) -> bool {
    &&& forall|i: int| 0 <= i < s.len() ==> progress_ok(#[trigger] s[i]) && s[i].id < next_id
    &&& ids_unique(s)
}

pub open spec fn has_id(s: Seq<TaskView>, id: nat) -> bool {
    exists|i: int| 0 <= i < s.len() && #[trigger] s[i].id == id
}

/// Position of the task with identifier `id`, or -1.
pub open spec fn index_of(s: Seq<TaskView>, id: nat) -> int {
    if has_id(s, id) {
        choose|i: int| 0 <= i < s.len() && #[trigger] s[i].id == id
    } else {
        -1
    }
}

pub open spec fn with_status(t: TaskView, status: TaskStatus) -> TaskView {
    TaskView { status, ..t }
}

/// A step is left after the current one.
pub open spec fn has_next_step(t: TaskView) -> bool {
    t.steps.len() > 0 && t.current_step + 1 < t.steps.len()
}

/// A task after one "done": the next step if one is left, else complete.
pub open spec fn advanced(t: TaskView) -> TaskView {
    if has_next_step(t) {
        TaskView { current_step: t.current_step + 1, ..t }
    } else {
        with_status(t, TaskStatus::Complete)
    }
}

/// The status a blocked task returns to.
pub open spec fn resume_status(t: TaskView) -> TaskStatus {
    if t.current_step > 0 || t.steps.len() > 0 {
        TaskStatus::InProgress
    } else {
        TaskStatus::NotStarted
    }
}

/// The task may be offered as the next action.
pub open spec fn open_status(t: TaskView) -> bool {
    t.status == TaskStatus::NotStarted || t.status == TaskStatus::InProgress
}

/// An open task with a step left to do.
pub open spec fn stepped_candidate(t: TaskView) -> bool {
    open_status(t) && t.steps.len() > 0 && t.current_step < t.steps.len()
}

/// An open task that has not been broken into steps.
pub open spec fn stepless_candidate(t: TaskView) -> bool {
    open_status(t) && t.steps.len() == 0
}

/// `i` is the task that the next-action rule picks: the first open task with a
/// step left, or, when there is none, the first open task without steps.
pub open spec fn next_action_at(s: Seq<TaskView>, i: int) -> bool {
    &&& 0 <= i < s.len()
    &&& {
        ||| stepped_candidate(s[i]) && forall|j: int| 0 <= j < i ==> !stepped_candidate(#[trigger] s[j])
        ||| stepless_candidate(s[i])
            && (forall|j: int| 0 <= j < s.len() ==> !stepped_candidate(#[trigger] s[j]))
            && forall|j: int| 0 <= j < i ==> !stepless_candidate(#[trigger] s[j])
    }
}

/// No task qualifies as the next action.
pub open spec fn no_next_action(s: Seq<TaskView>) -> bool {
    forall|j: int|
        0 <= j < s.len() ==> !stepped_candidate(#[trigger] s[j]) && !stepless_candidate(s[j])
}

/// A chosen task that had not been started is now in progress.
pub open spec fn promoted(t: TaskView) -> TaskView {
    if t.status == TaskStatus::NotStarted {
        with_status(t, TaskStatus::InProgress)
    } else {
        t
    }
}

/// Status that a legacy completion flag stands for.
pub open spec fn migrated(t: TaskView) -> TaskView {
    match t.completed {
        Some(done) => TaskView {
            status: if done { TaskStatus::Complete } else { TaskStatus::NotStarted },
            completed: None,
            ..t
        },
        None => t,
    }
}

pub open spec fn new_task_view(id: nat, description: Seq<char>, created_at: Timestamp) -> TaskView {
    TaskView {
        id,
        description,
        steps: Seq::empty(),
        current_step: 0,
        status: TaskStatus::NotStarted,
        completed: None,
        created_at,
    }
}

/// With unique identifiers, a position holding `id` is its position.
pub proof fn lemma_index_of(s: Seq<TaskView>, id: nat, i: int)
    requires
        ids_unique(s),
        0 <= i < s.len(),
        s[i].id == id,
    ensures
        index_of(s, id) == i,
{
    assert(has_id(s, id));
    let k = choose|k: int| 0 <= k < s.len() && #[trigger] s[k].id == id;
    assert(s[k].id == s[i].id);
}

/// Replacing a task by one with the same identifier and a valid progress keeps
/// the store's invariant.
pub proof fn lemma_update_keeps_inv(s: Seq<TaskView>, n: nat, i: int, t: TaskView)
    requires
        store_inv(s, n),
        0 <= i < s.len(),
        t.id == s[i].id,
        progress_ok(t),
    ensures
        store_inv(s.update(i, t), n),
{
    let u = s.update(i, t);
    assert forall|a: int, b: int| 0 <= a < u.len() && 0 <= b < u.len() && a != b implies #[trigger] u[a].id
        != #[trigger] u[b].id by {
        assert(u[a].id == s[a].id);
        assert(u[b].id == s[b].id);
    }
}

/// Taking a task out keeps the store's invariant.
pub proof fn lemma_remove_keeps_inv(s: Seq<TaskView>, n: nat, i: int)
    requires
        store_inv(s, n),
        0 <= i < s.len(),
    ensures
        store_inv(s.remove(i), n),
{
    let u = s.remove(i);
    assert forall|a: int| 0 <= a < u.len() implies progress_ok(#[trigger] u[a]) && u[a].id < n by {
        if a < i {
            assert(u[a] == s[a]);
        } else {
            assert(u[a] == s[a + 1]);
        }
    }
    assert forall|a: int, b: int| 0 <= a < u.len() && 0 <= b < u.len() && a != b implies #[trigger] u[a].id
        != #[trigger] u[b].id by {
        let sa = if a < i { a } else { a + 1 };
        let sb = if b < i { b } else { b + 1 };
        assert(u[a] == s[sa]);
        assert(u[b] == s[sb]);
    }
}

/// The tasks of one lane, in insertion order.
pub open spec fn column_of(s: Seq<TaskView>, status: TaskStatus) -> Seq<TaskView>
    decreases s.len(),
{
    if s.len() == 0 {
        Seq::empty()
    } else {
        let c = column_of(s.drop_last(), status);
        if s.last().status == status {
            c.push(s.last())
        } else {
            c
        }
    }
}

/// The task with identifier `id`.
pub open spec fn task_of(s: Seq<TaskView>, id: nat) -> TaskView {
    s[index_of(s, id)]
}

/// `s` with the task of identifier `id` replaced by `t`.
pub open spec fn replace_task(s: Seq<TaskView>, id: nat, t: TaskView) -> Seq<TaskView> {
    s.update(index_of(s, id), t)
}

pub open spec fn after_complete(s: Seq<TaskView>, id: nat) -> Seq<TaskView> {
    if has_id(s, id) {
        replace_task(s, id, advanced(task_of(s, id)))
    } else {
        s
    }
}

/// A task can be blocked, or reset, unless it is complete.
pub open spec fn can_block(s: Seq<TaskView>, id: nat) -> bool {
    has_id(s, id) && task_of(s, id).status != TaskStatus::Complete
}

pub open spec fn after_block(s: Seq<TaskView>, id: nat) -> Seq<TaskView> {
    if can_block(s, id) {
        replace_task(s, id, with_status(task_of(s, id), TaskStatus::Blocked))
    } else {
        s
    }
}

pub open spec fn can_unblock(s: Seq<TaskView>, id: nat) -> bool {
    has_id(s, id) && task_of(s, id).status == TaskStatus::Blocked
}

pub open spec fn after_unblock(s: Seq<TaskView>, id: nat) -> Seq<TaskView> {
    if can_unblock(s, id) {
        replace_task(s, id, with_status(task_of(s, id), resume_status(task_of(s, id))))
    } else {
        s
    }
}

pub open spec fn after_reset(s: Seq<TaskView>, id: nat) -> Seq<TaskView> {
    if can_block(s, id) {
        replace_task(s, id, with_status(task_of(s, id), TaskStatus::NotStarted))
    } else {
        s
    }
}

pub open spec fn after_set_status(s: Seq<TaskView>, id: nat, status: TaskStatus) -> Seq<TaskView> {
    if has_id(s, id) {
        replace_task(s, id, with_status(task_of(s, id), status))
    } else {
        s
    }
}

pub open spec fn after_remove(s: Seq<TaskView>, id: nat) -> Seq<TaskView> {
    if has_id(s, id) {
        s.remove(index_of(s, id))
    } else {
        s
    }
}

pub open spec fn after_set_steps(s: Seq<TaskView>, id: nat, steps: Seq<Seq<char>>) -> Seq<TaskView> {
    if has_id(s, id) {
        replace_task(s, id, TaskView { steps, current_step: 0, ..task_of(s, id) })
    } else {
        s
    }
}

pub open spec fn can_step_back(s: Seq<TaskView>, id: nat) -> bool {
    has_id(s, id) && task_of(s, id).current_step > 0
}

pub open spec fn after_step_back(s: Seq<TaskView>, id: nat) -> Seq<TaskView> {
    if can_step_back(s, id) {
        replace_task(
            s,
            id,
            TaskView { current_step: (task_of(s, id).current_step - 1) as nat, ..task_of(s, id) },
        )
    } else {
        s
    }
}

/// The task exists and has a current step.
pub open spec fn has_current_step(s: Seq<TaskView>, id: nat) -> bool {
    has_id(s, id) && task_of(s, id).current_step < task_of(s, id).steps.len()
}

pub open spec fn after_set_step_text(s: Seq<TaskView>, id: nat, text: Seq<char>) -> Seq<TaskView> {
    if has_current_step(s, id) {
        replace_task(
            s,
            id,
            TaskView {
                steps: task_of(s, id).steps.update(task_of(s, id).current_step as int, text),
                ..task_of(s, id)
            },
        )
    } else {
        s
    }
}

pub open spec fn after_set_description(s: Seq<TaskView>, id: nat, text: Seq<char>) -> Seq<TaskView> {
    if has_id(s, id) {
        replace_task(s, id, TaskView { description: text, ..task_of(s, id) })
    } else {
        s
    }
}

/// What one "done" on the task with identifier `id` does.
pub open spec fn advance_outcome(s: Seq<TaskView>, id: nat) -> Advance {
    if !has_id(s, id) {
        Advance::NotFound
    } else if has_next_step(task_of(s, id)) {
        Advance::StepAdvanced
    } else {
        Advance::TaskCompleted
    }
}

/// The ordered list of tasks and the identifier counter.
pub struct TaskStore {
    tasks: Vec<Task>,
    next_id: usize,
}

pub open spec fn tasks_view(v: Seq<Task>) -> Seq<TaskView> {
    v.map_values(|t: Task| t@)
}

impl View for TaskStore {
    type V = Seq<TaskView>;

    closed spec fn view(&self) -> Seq<TaskView> {
        tasks_view(self.tasks@)
    }
}

impl TaskStore {
    /// The identifier the next added task receives.
    pub closed spec fn spec_next_id(&self) -> nat {
        self.next_id as nat
    }

    pub open spec fn wf(&self) -> bool {
        store_inv(self@, self.spec_next_id())
    }

    /// An empty store whose first task gets identifier 1.
    pub fn new() -> (r: TaskStore)
        ensures
            r@ == Seq::<TaskView>::empty(),
            r.spec_next_id() == 1,
            r.wf(),
    {
        let r = TaskStore { tasks: Vec::new(), next_id: 1 };
        assert(r@ =~= Seq::<TaskView>::empty());
        r
    }

    /// Rebuilds a store from saved parts; `None` when they break the store's invariant.
    pub fn from_parts(tasks: Vec<Task>, next_id: usize) -> (r: Option<TaskStore>)
        ensures
            r is Some <==> store_inv(tasks_view(tasks@), next_id as nat),
            r matches Some(st) ==> st@ == tasks_view(tasks@) && st.spec_next_id() == next_id,
    {
        let ghost s = tasks_view(tasks@);
        let n = tasks.len();
        let mut i: usize = 0;
        while i < n
            invariant
                n == tasks.len(),
                s == tasks_view(tasks@),
                i <= n,
                forall|k: int| 0 <= k < i ==> progress_ok(#[trigger] s[k]) && s[k].id < next_id,
                forall|a: int, b: int| 0 <= a < i && 0 <= b < n && a != b ==> #[trigger] s[a].id != #[trigger] s[b].id,
            decreases n - i,
        {
            let t = &tasks[i];
            if t.current_step > t.steps.len() || (t.steps.len() == 0 && t.current_step != 0)
                || t.id >= next_id {
                assert(!(progress_ok(s[i as int]) && s[i as int].id < next_id));
                return None;
            }
            let mut j: usize = 0;
            while j < n
                invariant
                    n == tasks.len(),
                    s == tasks_view(tasks@),
                    i < n,
                    j <= n,
                    forall|b: int| 0 <= b < j && b != i ==> s[i as int].id != #[trigger] s[b].id,
                decreases n - j,
            {
                if j != i && tasks[j].id == tasks[i].id {
                    assert(s[j as int].id == s[i as int].id);
                    return None;
                }
                j += 1;
            }
            i += 1;
        }
        Some(TaskStore { tasks, next_id })
    }

    /// The tasks, in insertion order.
    pub fn tasks(&self) -> (r: &Vec<Task>)
        ensures
            tasks_view(r@) == self@,
    {
        &self.tasks
    }

    /// The identifier the next added task receives.
    pub fn next_id(&self) -> (r: usize)
        ensures
            r == self.spec_next_id(),
    {
        self.next_id
    }

    fn find_index(&self, id: usize) -> (r: Option<usize>)
        requires
            self.wf(),
        ensures
            match r {
                Some(i) => i < self@.len() && i == index_of(self@, id as nat),
                None => index_of(self@, id as nat) == -1,
            },
    {
        let mut i: usize = 0;
        while i < self.tasks.len()
            invariant
                self.wf(),
                i <= self.tasks.len(),
                forall|j: int| 0 <= j < i ==> (#[trigger] self@[j]).id != id,
            decreases self.tasks.len() - i,
        {
            if self.tasks[i].id == id {
                proof {
                    lemma_index_of(self@, id as nat, i as int);
                }
                return Some(i);
            }
            i += 1;
        }
        None
    }

    /// Overwrites the status of the task at `i`.
    fn put_status(&mut self, i: usize, status: TaskStatus)
        requires
            old(self).wf(),
            i < old(self)@.len(),
        ensures
            final(self).wf(),
            final(self)@ == old(self)@.update(i as int, with_status(old(self)@[i as int], status)),
            final(self).spec_next_id() == old(self).spec_next_id(),
    {
        self.tasks[i].status = status;
        proof {
            assert(self@ =~= old(self)@.update(i as int, with_status(old(self)@[i as int], status)));
            lemma_update_keeps_inv(old(self)@, old(self).spec_next_id(), i as int, self@[i as int]);
        }
    }

    /// Appends a new, unstarted task without steps, created at `created_at`, and
    /// returns its identifier.
    pub fn add_task_at(&mut self, description: String, created_at: Timestamp) -> (id: usize)
        requires
            old(self).wf(),
            old(self).spec_next_id() < usize::MAX,
        ensures
            final(self).wf(),
            id == old(self).spec_next_id(),
            final(self).spec_next_id() == old(self).spec_next_id() + 1,
            final(self)@ == old(self)@.push(new_task_view(id as nat, description@, created_at)),
    {
        let id = self.next_id;
        self.next_id = self.next_id + 1;
        let t = Task {
            id,
            description,
            steps: Vec::new(),
            current_step: 0,
            status: TaskStatus::NotStarted,
            completed: None,
            created_at,
        };
        proof {
            assert(t@.steps =~= Seq::<Seq<char>>::empty());
        }
        self.tasks.push(t);
        proof {
            let s = self@;
            assert(s =~= old(self)@.push(t@));
            assert forall|a: int, b: int| 0 <= a < s.len() && 0 <= b < s.len() && a != b implies #[trigger] s[a].id
                != #[trigger] s[b].id by {
                if a < old(self)@.len() && b < old(self)@.len() {
                    assert(s[a] == old(self)@[a]);
                    assert(s[b] == old(self)@[b]);
                } else if a < old(self)@.len() {
                    assert(s[a] == old(self)@[a]);
                } else {
                    assert(s[b] == old(self)@[b]);
                }
            }
            assert forall|a: int| 0 <= a < s.len() implies progress_ok(#[trigger] s[a]) && s[a].id < self.next_id by {
                if a < old(self)@.len() {
                    assert(s[a] == old(self)@[a]);
                }
            }
        }
        id
    }

    /// Appends a new, unstarted task without steps, stamped with the current
    /// time, and returns its identifier.
    pub fn add_task(&mut self, description: String) -> (id: usize)
        requires
            old(self).wf(),
            old(self).spec_next_id() < usize::MAX,
        ensures
            final(self).wf(),
            id == old(self).spec_next_id(),
            final(self).spec_next_id() == old(self).spec_next_id() + 1,
            final(self)@.len() == old(self)@.len() + 1,
            final(self)@.drop_last() == old(self)@,
            final(self)@.last() == new_task_view(id as nat, description@, final(self)@.last().created_at),
    {
        let created_at = now();
        let id = self.add_task_at(description, created_at);
        proof {
            assert(self@.drop_last() =~= old(self)@);
        }
        id
    }

    /// Gives mutable access to the task with identifier `id`.
    pub fn get_task_mut(&mut self, id: usize) -> (r: Option<&mut Task>)
        requires
            old(self).wf(),
        ensures
            final(self).spec_next_id() == old(self).spec_next_id(),
            match r {
                Some(t) => {
                    &&& has_id(old(self)@, id as nat)
                    &&& t@ == old(self)@[index_of(old(self)@, id as nat)]
                    &&& final(self)@ == old(self)@.update(index_of(old(self)@, id as nat), final(t)@)
                },
                None => !has_id(old(self)@, id as nat) && final(self)@ == old(self)@,
            },
    {
        match self.find_index(id) {
            Some(i) => {
                let r = &mut self.tasks[i];
                Some(r)
            },
            None => None,
        }
    }

    fn first_stepped(&self) -> (r: Option<usize>)
        ensures
            match r {
                Some(i) => i < self@.len() && stepped_candidate(self@[i as int])
                    && forall|j: int| 0 <= j < i ==> !stepped_candidate(#[trigger] self@[j]),
                None => forall|j: int| 0 <= j < self@.len() ==> !stepped_candidate(#[trigger] self@[j]),
            },
    {
        let n = self.tasks.len();
        let mut i: usize = 0;
        while i < n
            invariant
                n == self@.len(),
                i <= n,
                forall|j: int| 0 <= j < i ==> !stepped_candidate(#[trigger] self@[j]),
            decreases n - i,
        {
            let t = &self.tasks[i];
            if t.status != TaskStatus::Complete && t.status != TaskStatus::Blocked && t.steps.len() > 0
                && t.current_step < t.steps.len() {
                return Some(i);
            }
            i += 1;
        }
        None
    }

    fn first_stepless(&self) -> (r: Option<usize>)
        ensures
            match r {
                Some(i) => i < self@.len() && stepless_candidate(self@[i as int])
                    && forall|j: int| 0 <= j < i ==> !stepless_candidate(#[trigger] self@[j]),
                None => forall|j: int| 0 <= j < self@.len() ==> !stepless_candidate(#[trigger] self@[j]),
            },
    {
        let n = self.tasks.len();
        let mut i: usize = 0;
        while i < n
            invariant
                n == self@.len(),
                i <= n,
                forall|j: int| 0 <= j < i ==> !stepless_candidate(#[trigger] self@[j]),
            decreases n - i,
        {
            let t = &self.tasks[i];
            if t.status != TaskStatus::Complete && t.status != TaskStatus::Blocked && t.steps.len() == 0 {
                return Some(i);
            }
            i += 1;
        }
        None
    }

    /// Picks the next action: the first open task with a step left, else the
    /// first open task without steps. A chosen task that had not been started
    /// is set in progress; the chosen task is returned as it now stands.
    pub fn get_next_action(&mut self) -> (r: Option<Task>)
        requires
            old(self).wf(),
        ensures
            final(self).wf(),
            final(self).spec_next_id() == old(self).spec_next_id(),
            match r {
                Some(t) => exists|i: int|
                    {
                        &&& #[trigger] next_action_at(old(self)@, i)
                        &&& final(self)@ == old(self)@.update(i, promoted(old(self)@[i]))
                        &&& t@ == promoted(old(self)@[i])
                    },
                None => no_next_action(old(self)@) && final(self)@ == old(self)@,
            },
    {
        let found = match self.first_stepped() {
            Some(i) => Some(i),
            None => self.first_stepless(),
        };
        match found {
            Some(i) => {
                assert(next_action_at(old(self)@, i as int));
                if self.tasks[i].status == TaskStatus::NotStarted {
                    self.put_status(i, TaskStatus::InProgress);
                } else {
                    assert(self@ =~= old(self)@.update(i as int, promoted(old(self)@[i as int])));
                }
                assert(self.tasks@.len() == self@.len());
                let t = self.tasks[i].clone();
                assert(t@ == self@[i as int]);
                assert(next_action_at(old(self)@, i as int));
                Some(t)
            },
            None => None,
        }
    }

    /// Marks one step done: moves to the next step if one is left, else
    /// completes the task; says which happened, or that no task has
    /// identifier `id`.
    pub fn complete_task(&mut self, id: usize) -> (r: Advance)
        requires
            old(self).wf(),
        ensures
            final(self).wf(),
            final(self).spec_next_id() == old(self).spec_next_id(),
            r == advance_outcome(old(self)@, id as nat),
            final(self)@ == after_complete(old(self)@, id as nat),
    {
        match self.find_index(id) {
            Some(i) => {
                let len = self.tasks[i].steps.len();
                if len > 0 && self.tasks[i].current_step < len - 1 {
                    self.tasks[i].current_step = self.tasks[i].current_step + 1;
                    proof {
                        assert(self@ =~= old(self)@.update(i as int, advanced(old(self)@[i as int])));
                        lemma_update_keeps_inv(old(self)@, old(self).spec_next_id(), i as int, self@[i as int]);
                    }
                    Advance::StepAdvanced
                } else {
                    self.put_status(i, TaskStatus::Complete);
                    Advance::TaskCompleted
                }
            },
            None => Advance::NotFound,
        }
    }

    /// Blocks the task, keeping its progress. False when it is missing or complete.
    pub fn block_task(&mut self, id: usize) -> (r: bool)
        requires
            old(self).wf(),
        ensures
            final(self).wf(),
            final(self).spec_next_id() == old(self).spec_next_id(),
            r == can_block(old(self)@, id as nat),
            final(self)@ == after_block(old(self)@, id as nat),
    {
        match self.find_index(id) {
            Some(i) => {
                if self.tasks[i].status != TaskStatus::Complete {
                    self.put_status(i, TaskStatus::Blocked);
                    true
                } else {
                    false
                }
            },
            None => false,
        }
    }

    /// Unblocks a blocked task: in progress if it has steps or progress, else
    /// not started. False when it is missing or not blocked.
    pub fn unblock_task(&mut self, id: usize) -> (r: bool)
        requires
            old(self).wf(),
        ensures
            final(self).wf(),
            final(self).spec_next_id() == old(self).spec_next_id(),
            r == can_unblock(old(self)@, id as nat),
            final(self)@ == after_unblock(old(self)@, id as nat),
    {
        match self.find_index(id) {
            Some(i) => {
                if self.tasks[i].status == TaskStatus::Blocked {
                    let status = if self.tasks[i].current_step > 0 || self.tasks[i].steps.len() > 0 {
                        TaskStatus::InProgress
                    } else {
                        TaskStatus::NotStarted
                    };
                    self.put_status(i, status);
                    true
                } else {
                    false
                }
            },
            None => false,
        }
    }

    /// Sets the task back to not started, leaving its steps and step pointer.
    /// False when it is missing or complete.
    pub fn reset_task(&mut self, id: usize) -> (r: bool)
        requires
            old(self).wf(),
        ensures
            final(self).wf(),
            final(self).spec_next_id() == old(self).spec_next_id(),
            r == can_block(old(self)@, id as nat),
            final(self)@ == after_reset(old(self)@, id as nat),
    {
        match self.find_index(id) {
            Some(i) => {
                if self.tasks[i].status != TaskStatus::Complete {
                    self.put_status(i, TaskStatus::NotStarted);
                    true
                } else {
                    false
                }
            },
            None => false,
        }
    }

    /// Overwrites the task's status whatever it was. False when it is missing.
    pub fn set_status(&mut self, id: usize, status: TaskStatus) -> (r: bool)
        requires
            old(self).wf(),
        ensures
            final(self).wf(),
            final(self).spec_next_id() == old(self).spec_next_id(),
            r == has_id(old(self)@, id as nat),
            final(self)@ == after_set_status(old(self)@, id as nat, status),
    {
        match self.find_index(id) {
            Some(i) => {
                self.put_status(i, status);
                true
            },
            None => false,
        }
    }

    /// Deletes the task with identifier `id`; false when there is none.
    pub fn remove_task(&mut self, id: usize) -> (r: bool)
        requires
            old(self).wf(),
        ensures
            final(self).wf(),
            final(self).spec_next_id() == old(self).spec_next_id(),
            r == has_id(old(self)@, id as nat),
            final(self)@ == after_remove(old(self)@, id as nat),
    {
        match self.find_index(id) {
            Some(i) => {
                let _ = self.tasks.remove(i);
                proof {
                    assert(self@ =~= old(self)@.remove(i as int));
                    lemma_remove_keeps_inv(old(self)@, old(self).spec_next_id(), i as int);
                }
                true
            },
            None => false,
        }
    }

    /// Replaces the task's steps and starts it over at the first one. False
    /// when it is missing.
    pub fn set_steps(&mut self, id: usize, steps: Vec<String>) -> (r: bool)
        requires
            old(self).wf(),
        ensures
            final(self).wf(),
            final(self).spec_next_id() == old(self).spec_next_id(),
            r == has_id(old(self)@, id as nat),
            final(self)@ == after_set_steps(old(self)@, id as nat, steps_view(steps@)),
    {
        match self.find_index(id) {
            Some(i) => {
                self.tasks[i].steps = steps;
                self.tasks[i].current_step = 0;
                proof {
                    let t = TaskView { steps: steps_view(steps@), current_step: 0, ..old(self)@[i as int] };
                    assert(self@ =~= old(self)@.update(i as int, t));
                    lemma_update_keeps_inv(old(self)@, old(self).spec_next_id(), i as int, t);
                }
                true
            },
            None => false,
        }
    }

    /// Steps back once: the step pointer goes down by one if it is above zero.
    /// True when it moved.
    pub fn step_back(&mut self, id: usize) -> (r: bool)
        requires
            old(self).wf(),
        ensures
            final(self).wf(),
            final(self).spec_next_id() == old(self).spec_next_id(),
            r == can_step_back(old(self)@, id as nat),
            final(self)@ == after_step_back(old(self)@, id as nat),
    {
        match self.find_index(id) {
            Some(i) => {
                if self.tasks[i].current_step > 0 {
                    self.tasks[i].current_step = self.tasks[i].current_step - 1;
                    proof {
                        let o = old(self)@[i as int];
                        let t = TaskView { current_step: (o.current_step - 1) as nat, ..o };
                        assert(self@ =~= old(self)@.update(i as int, t));
                        lemma_update_keeps_inv(old(self)@, old(self).spec_next_id(), i as int, t);
                    }
                    true
                } else {
                    false
                }
            },
            None => false,
        }
    }

    /// Rewrites the text of the task's current step. False when the task is
    /// missing or has no current step.
    pub fn set_step_text(&mut self, id: usize, text: String) -> (r: bool)
        requires
            old(self).wf(),
        ensures
            final(self).wf(),
            final(self).spec_next_id() == old(self).spec_next_id(),
            r == has_current_step(old(self)@, id as nat),
            final(self)@ == after_set_step_text(old(self)@, id as nat, text@),
    {
        match self.find_index(id) {
            Some(i) => {
                let cs = self.tasks[i].current_step;
                if cs < self.tasks[i].steps.len() {
                    self.tasks[i].steps.set(cs, text);
                    proof {
                        let o = old(self)@[i as int];
                        let t = TaskView { steps: o.steps.update(cs as int, text@), ..o };
                        assert(self@[i as int].steps =~= t.steps);
                        assert(self@ =~= old(self)@.update(i as int, t));
                        lemma_update_keeps_inv(old(self)@, old(self).spec_next_id(), i as int, t);
                    }
                    true
                } else {
                    false
                }
            },
            None => false,
        }
    }

    /// Rewrites the task's description. False when it is missing.
    pub fn set_description(&mut self, id: usize, text: String) -> (r: bool)
        requires
            old(self).wf(),
        ensures
            final(self).wf(),
            final(self).spec_next_id() == old(self).spec_next_id(),
            r == has_id(old(self)@, id as nat),
            final(self)@ == after_set_description(old(self)@, id as nat, text@),
    {
        match self.find_index(id) {
            Some(i) => {
                self.tasks[i].description = text;
                proof {
                    let t = TaskView { description: text@, ..old(self)@[i as int] };
                    assert(self@ =~= old(self)@.update(i as int, t));
                    lemma_update_keeps_inv(old(self)@, old(self).spec_next_id(), i as int, t);
                }
                true
            },
            None => false,
        }
    }

    /// Turns every legacy completion flag into a status: set means complete,
    /// unset means not started; the flag is then dropped.
    pub fn migrate_legacy(&mut self)
        requires
            old(self).wf(),
        ensures
            final(self).wf(),
            final(self).spec_next_id() == old(self).spec_next_id(),
            final(self)@.len() == old(self)@.len(),
            forall|i: int| 0 <= i < old(self)@.len() ==> #[trigger] final(self)@[i] == migrated(old(self)@[i]),
    {
        let n = self.tasks.len();
        let mut i: usize = 0;
        while i < n
            invariant
                n == self@.len(),
                n == old(self)@.len(),
                i <= n,
                self.next_id == old(self).next_id,
                self.wf(),
                forall|k: int| 0 <= k < i ==> #[trigger] self@[k] == migrated(old(self)@[k]),
                forall|k: int| i <= k < n ==> #[trigger] self@[k] == old(self)@[k],
            decreases n - i,
        {
            match self.tasks[i].completed {
                Some(done) => {
                    let ghost before = self@;
                    let status = if done {
                        TaskStatus::Complete
                    } else {
                        TaskStatus::NotStarted
                    };
                    self.tasks[i].status = status;
                    self.tasks[i].completed = None;
                    proof {
                        let t = migrated(before[i as int]);
                        assert(self@ =~= before.update(i as int, t));
                        lemma_update_keeps_inv(before, self.next_id as nat, i as int, t);
                    }
                },
                None => {},
            }
            i += 1;
        }
    }

    /// The tasks of one lane, in insertion order.
    pub fn column(&self, status: TaskStatus) -> (r: Vec<&Task>)
        ensures
            r@.map_values(|t: &Task| t@) == column_of(self@, status),
    {
        let mut r: Vec<&Task> = Vec::new();
        let n = self.tasks.len();
        let mut i: usize = 0;
        while i < n
            invariant
                n == self@.len(),
                i <= n,
                r@.map_values(|t: &Task| t@) == column_of(self@.subrange(0, i as int), status),
            decreases n - i,
        {
            let t = &self.tasks[i];
            proof {
                assert(self@.subrange(0, i + 1).drop_last() =~= self@.subrange(0, i as int));
                assert(self@.subrange(0, i + 1).last() == t@);
            }
            if t.status == status {
                r.push(t);
                assert(r@.map_values(|t: &Task| t@) =~= column_of(self@.subrange(0, i + 1), status));
            }
            i += 1;
        }
        assert(self@.subrange(0, n as int) =~= self@);
        r
    }

    /// The task with identifier `id`.
    pub fn get_task(&self, id: usize) -> (r: Option<&Task>)
        requires
            self.wf(),
        ensures
            match r {
                Some(t) => has_id(self@, id as nat) && t@ == self@[index_of(self@, id as nat)],
                None => !has_id(self@, id as nat),
            },
    {
        match self.find_index(id) {
            Some(i) => Some(&self.tasks[i]),
            None => None,
        }
    }
}

/// Every task of a well-formed store keeps its step pointer within its steps,
/// at zero when it has none; every operation of the store keeps the store
/// well-formed.
pub proof fn lemma_progress_invariant(st: TaskStore)
    requires
        st.wf(),
    ensures
        forall|i: int|
            0 <= i < st@.len() ==> #[trigger] st@[i].current_step <= st@[i].steps.len() && (st@[i].steps.len()
                == 0 ==> st@[i].current_step == 0),
{
    assert forall|i: int| 0 <= i < st@.len() implies #[trigger] st@[i].current_step <= st@[i].steps.len() && (
    st@[i].steps.len() == 0 ==> st@[i].current_step == 0) by {
        assert(progress_ok(st@[i]));
    }
}

/// Marking a step done on a task whose step pointer is before its last step
/// moves the pointer on by one and keeps the status; on the last step, or on
/// a task without steps, it completes the task.
pub proof fn lemma_advance(s: Seq<TaskView>, n: nat, id: nat)
    requires
        store_inv(s, n),
        has_id(s, id),
    ensures
        has_id(after_complete(s, id), id),
        ({
            let t = task_of(s, id);
            let u = task_of(after_complete(s, id), id);
            &&& u.steps == t.steps
            &&& t.steps.len() > 0 && t.current_step + 1 < t.steps.len() ==> u.current_step == t.current_step + 1
                && u.status == t.status
            &&& t.steps.len() == 0 || t.current_step + 1 == t.steps.len() ==> u.status == TaskStatus::Complete
                && u.current_step == t.current_step
        }),
{
    let i = index_of(s, id);
    let k = choose|k: int| 0 <= k < s.len() && #[trigger] s[k].id == id;
    lemma_index_of(s, id, k);
    let t = advanced(s[i]);
    lemma_update_keeps_inv(s, n, i, t);
    lemma_index_of(s.update(i, t), id, i);
}

/// Blocking a task that is not complete and then unblocking it leaves its
/// step pointer alone, and puts it in progress when it has steps or
/// progress, else back to not started.
pub proof fn lemma_block_then_unblock(s: Seq<TaskView>, n: nat, id: nat)
    requires
        store_inv(s, n),
        has_id(s, id),
        task_of(s, id).status != TaskStatus::Complete,
    ensures
        can_block(s, id),
        can_unblock(after_block(s, id), id),
        ({
            let t = task_of(s, id);
            let b = task_of(after_block(s, id), id);
            let u = task_of(after_unblock(after_block(s, id), id), id);
            &&& b.status == TaskStatus::Blocked
            &&& b.current_step == t.current_step
            &&& u.current_step == t.current_step
            &&& u.steps == t.steps
            &&& u.status == if t.current_step > 0 || t.steps.len() > 0 {
                TaskStatus::InProgress
            } else {
                TaskStatus::NotStarted
            }
        }),
{
    let i = index_of(s, id);
    let k = choose|k: int| 0 <= k < s.len() && #[trigger] s[k].id == id;
    lemma_index_of(s, id, k);
    let bt = with_status(s[i], TaskStatus::Blocked);
    lemma_update_keeps_inv(s, n, i, bt);
    let b = s.update(i, bt);
    lemma_index_of(b, id, i);
    let ut = with_status(bt, resume_status(bt));
    lemma_update_keeps_inv(b, n, i, ut);
    lemma_index_of(b.update(i, ut), id, i);
}

/// The next action is never complete or blocked, and is in progress once
/// picked; a task with a step left is preferred to one without steps, and
/// among tasks of the same kind the earliest added wins, so the pick is
/// unique.
pub proof fn lemma_next_action_choice(s: Seq<TaskView>, i: int)
    requires
        next_action_at(s, i),
    ensures
        s[i].status != TaskStatus::Complete && s[i].status != TaskStatus::Blocked,
        promoted(s[i]).status == TaskStatus::InProgress,
        stepless_candidate(s[i]) ==> forall|j: int| 0 <= j < s.len() ==> !stepped_candidate(#[trigger] s[j]),
        stepped_candidate(s[i]) ==> forall|j: int| 0 <= j < i ==> !stepped_candidate(#[trigger] s[j]),
        stepless_candidate(s[i]) ==> forall|j: int| 0 <= j < i ==> !stepless_candidate(#[trigger] s[j]),
        forall|k: int| #[trigger] next_action_at(s, k) ==> k == i,
{
    assert forall|k: int| #[trigger] next_action_at(s, k) implies k == i by {
        if k < i {
            assert(!stepped_candidate(s[k]) || !stepless_candidate(s[i]));
        } else if i < k {
            assert(!stepped_candidate(s[i]) || !stepless_candidate(s[k]));
        }
    }
}

/// Every lifecycle operation keeps the store's invariant, and with it the
/// progress invariant of each task: adding a task, a done step, blocking,
/// unblocking, resetting, forcing a status, removing, stepping back, new
/// steps, and rewriting a step or a description.
pub proof fn lemma_operations_keep_invariant(
    s: Seq<TaskView>,
    n: nat,
    id: nat,
    status: TaskStatus,
    text: Seq<char>,
    steps: Seq<Seq<char>>,
    created_at: Timestamp,
)
    requires
        store_inv(s, n),
    ensures
        store_inv(s.push(new_task_view(n, text, created_at)), n + 1),
        store_inv(after_complete(s, id), n),
        store_inv(after_block(s, id), n),
        store_inv(after_unblock(s, id), n),
        store_inv(after_reset(s, id), n),
        store_inv(after_set_status(s, id, status), n),
        store_inv(after_remove(s, id), n),
        store_inv(after_step_back(s, id), n),
        store_inv(after_set_steps(s, id, steps), n),
        store_inv(after_set_step_text(s, id, text), n),
        store_inv(after_set_description(s, id, text), n),
{
    let u = s.push(new_task_view(n, text, created_at));
    assert forall|a: int| 0 <= a < u.len() implies progress_ok(#[trigger] u[a]) && u[a].id < n + 1 by {
        if a < s.len() {
            assert(u[a] == s[a]);
        }
    }
    assert forall|a: int, b: int| 0 <= a < u.len() && 0 <= b < u.len() && a != b implies #[trigger] u[a].id
        != #[trigger] u[b].id by {
        if a < s.len() {
            assert(u[a] == s[a]);
        }
        if b < s.len() {
            assert(u[b] == s[b]);
        }
    }
    if has_id(s, id) {
        let k = choose|k: int| 0 <= k < s.len() && #[trigger] s[k].id == id;
        lemma_index_of(s, id, k);
        let t = s[k];
        lemma_update_keeps_inv(s, n, k, advanced(t));
        lemma_update_keeps_inv(s, n, k, with_status(t, TaskStatus::Blocked));
        lemma_update_keeps_inv(s, n, k, with_status(t, resume_status(t)));
        lemma_update_keeps_inv(s, n, k, with_status(t, TaskStatus::NotStarted));
        lemma_update_keeps_inv(s, n, k, with_status(t, status));
        lemma_remove_keeps_inv(s, n, k);
        lemma_update_keeps_inv(s, n, k, TaskView { steps, current_step: 0, ..t });
        if t.current_step > 0 {
            lemma_update_keeps_inv(s, n, k, TaskView { current_step: (t.current_step - 1) as nat, ..t });
        }
        if t.current_step < t.steps.len() {
            lemma_update_keeps_inv(
                s,
                n,
                k,
                TaskView { steps: t.steps.update(t.current_step as int, text), ..t },
            );
        }
        lemma_update_keeps_inv(s, n, k, TaskView { description: text, ..t });
    }
}

} // verus!
