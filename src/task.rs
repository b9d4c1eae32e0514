use vstd::prelude::*;

verus! {

/// The lane a task sits in.
#[derive(Clone, Copy, Debug, PartialEq, Eq, Structural)]
pub enum TaskStatus {
    NotStarted,
    InProgress,
    Blocked,
    Complete,
}

/// A UTC instant: whole seconds since the Unix epoch and the nanoseconds past them.
#[derive(Clone, Copy, Debug, PartialEq, Eq, Structural)]
pub struct Timestamp {
    pub secs: i64,
    pub nanos: u32,
}

/// `a` is strictly later than `b`.
pub open spec fn later(a: Timestamp, b: Timestamp) -> bool {
    a.secs > b.secs || (a.secs == b.secs && a.nanos > b.nanos)
}

impl Timestamp {
    /// Whether `self` is strictly later than `other`.
    pub fn is_after(&self, other: &Timestamp) -> (r: bool)
        ensures
            r == later(*self, *other),
    {
        self.secs > other.secs || (self.secs == other.secs && self.nanos > other.nanos)
    }
}

/// Relies on chrono's `From<SystemTime> for DateTime<Utc>`, applied to
/// `SystemTime::now()`: a clock before the epoch gives negative seconds
/// instead of a panic, and the sub-second part is always below one second.
#[verifier::external_body]
pub(crate) fn now() -> (r: Timestamp)
    ensures
        r.nanos < 1_000_000_000,
{
    let t = chrono::DateTime::<chrono::Utc>::from(std::time::SystemTime::now());
    Timestamp { secs: t.timestamp(), nanos: t.timestamp_subsec_nanos() }
}

/// One piece of work: its description, the small steps it is broken into,
/// how far along those steps it is, and its lane.
pub struct Task {
    pub id: usize,
    pub description: String,
    pub steps: Vec<String>,
    pub current_step: usize,
    pub status: TaskStatus,
    /// Legacy completion flag, kept only until the record is migrated.
    pub completed: Option<bool>,
    pub created_at: Timestamp,
}

/// The mathematical model of a task.
pub ghost struct TaskView {
    pub id: nat,
    pub description: Seq<char>,
    pub steps: Seq<Seq<char>>,
    pub current_step: nat,
    pub status: TaskStatus,
    pub completed: Option<bool>,
    pub created_at: Timestamp,
}

pub open spec fn steps_view(steps: Seq<String>) -> Seq<Seq<char>> {
    steps.map_values(|s: String| s@)
}

impl View for Task {
    type V = TaskView;

    open spec fn view(&self) -> TaskView {
        TaskView {
            id: self.id as nat,
            description: self.description@,
            steps: steps_view(self.steps@),
            current_step: self.current_step as nat,
            status: self.status,
            completed: self.completed,
            created_at: self.created_at,
        }
    }
}

/// The progress invariant of a task: the step pointer stays within the steps,
/// and is zero when there are none.
pub open spec fn progress_ok(t: TaskView) -> bool {
    &&& t.current_step <= t.steps.len()
    &&& (t.steps.len() == 0 ==> t.current_step == 0)
}

/// Copies a list of strings.
pub fn copy_strings(v: &Vec<String>) -> (r: Vec<String>)
    ensures
        steps_view(r@) == steps_view(v@),
{
    let mut r: Vec<String> = Vec::new();
    let mut i: usize = 0;
    while i < v.len()
        invariant
            i <= v.len(),
            steps_view(r@) == steps_view(v@.subrange(0, i as int)),
        decreases v.len() - i,
    {
        let s = v[i].clone();
        proof {
            assert(v@.subrange(0, i + 1) =~= v@.subrange(0, i as int).push(v@[i as int]));
            assert(steps_view(r@.push(s)) =~= steps_view(r@).push(s@));
            assert(steps_view(v@.subrange(0, i + 1)) =~= steps_view(v@.subrange(0, i as int)).push(v@[i as int]@));
        }
        r.push(s);
        i += 1;
    }
    assert(v@.subrange(0, v.len() as int) =~= v@);
    r
}

impl Clone for Task {
    fn clone(&self) -> (r: Self)
        ensures
            r@ == self@,
    {
        Task {
            id: self.id,
            description: self.description.clone(),
            steps: copy_strings(&self.steps),
            current_step: self.current_step,
            status: self.status,
            completed: self.completed,
            created_at: self.created_at,
        }
    }
}

} // verus!
