use vstd::prelude::*;

use crate::text::same_text;
use crate::time::{utc_now, Timestamp};

verus! {

/// A task as the client edits it. `completed_at` holds the earliest
/// representable moment when the task was explicitly marked as not completed;
/// `completed_at()` reads it with that marker taken out.
#[derive(Clone, Debug)]
pub struct Task {
    pub id: Option<i32>,
    pub priority: Option<String>,
    pub title: Option<String>,
    pub completed_at: Option<Timestamp>,
    pub description: Option<String>,
}

/// The characters of an optional string.
pub open spec fn opt_text(o: Option<String>) -> Option<Seq<char>> {
    match o {
        Some(s) => Some(s@),
        None => None,
    }
}

/// Two optional moments are equal when both are absent or both name the
/// same instant.
pub open spec fn same_opt_instant(a: Option<Timestamp>, b: Option<Timestamp>) -> bool {
    match (a, b) {
        (Some(x), Some(y)) => x.same_instant(y),
        (None, None) => true,
        _ => false,
    }
}

/// A task with its strings taken by their characters.
pub struct TaskView {
    pub id: Option<i32>,
    pub priority: Option<Seq<char>>,
    pub title: Option<Seq<char>>,
    pub completed_at: Option<Timestamp>,
    pub description: Option<Seq<char>>,
}

impl View for Task {
    type V = TaskView;

    open spec fn view(&self) -> TaskView {
        TaskView {
            id: self.id,
            priority: opt_text(self.priority),
            title: opt_text(self.title),
            completed_at: self.completed_at,
            description: opt_text(self.description),
        }
    }
}

/// The moment that marks a task as explicitly not completed is none.
pub open spec fn visible_completion(stored: Option<Timestamp>) -> Option<Timestamp> {
    match stored {
        Some(t) => if t.same_instant(Timestamp::spec_min_utc()) {
            None
        } else {
            Some(t)
        },
        None => None,
    }
}

/// The Russian name of a priority code, or the empty string for an unknown
/// code.
pub open spec fn priority_label(code: Seq<char>) -> Seq<char> {
    if code == "C"@ {
        "Критический"@
    } else if code == "H"@ {
        "Высокий"@
    } else if code == "N"@ {
        "Нормальный"@
    } else if code == "L"@ {
        "Низкий"@
    } else {
        ""@
    }
}

/// The field of a patch: the changed value when it is present and differs
/// from the old one, else nothing.
pub open spec fn patch_field(old: Option<Seq<char>>, changed: Option<Seq<char>>) -> Option<Seq<char>> {
    if changed != old && changed is Some {
        changed
    } else {
        None
    }
}

/// What `Task::create_patch` gives for the two tasks.
pub open spec fn spec_patch(old: TaskView, changed: TaskView) -> TaskView {
    TaskView {
        id: old.id,
        title: patch_field(old.title, changed.title),
        description: patch_field(old.description, changed.description),
        priority: patch_field(old.priority, changed.priority),
        completed_at: if !same_opt_instant(changed.completed_at, old.completed_at)
            && changed.completed_at is Some {
            changed.completed_at
        } else {
            None
        },
    }
}

/// The same optional string, duplicated.
pub fn copy_opt_text(o: &Option<String>) -> (r: Option<String>)
    ensures
        opt_text(r) == opt_text(*o),
{
    match o {
        Some(s) => Some(s.clone()),
        None => None,
    }
}

/// Whether two optional strings are equal.
pub fn same_opt_text(a: &Option<String>, b: &Option<String>) -> (eq: bool)
    ensures
        eq == (opt_text(*a) == opt_text(*b)),
{
    match (a, b) {
        (Some(x), Some(y)) => same_text(x.as_str(), y.as_str()),
        (None, None) => true,
        _ => false,
    }
}

/// Whether two optional moments are equal (see `same_opt_instant`).
pub fn same_opt_timestamp(a: &Option<Timestamp>, b: &Option<Timestamp>) -> (eq: bool)
    ensures
        eq == same_opt_instant(*a, *b),
{
    match (a, b) {
        (Some(x), Some(y)) => x.is_same_instant(y),
        (None, None) => true,
        _ => false,
    }
}

impl Task {
    /// A task with no field set.
    pub fn new() -> (t: Task)
        ensures
            t@ == (TaskView { id: None, priority: None, title: None, completed_at: None, description: None }),
    {
        Task { id: None, priority: None, title: None, completed_at: None, description: None }
    }

    pub fn set_title(&mut self, value: String)
        ensures
            final(self)@ == (TaskView { title: Some(value@), ..old(self)@ }),
    {
        self.title = Some(value);
    }

    pub fn set_priority(&mut self, value: String)
        ensures
            final(self)@ == (TaskView { priority: Some(value@), ..old(self)@ }),
    {
        self.priority = Some(value);
    }

    pub fn set_description(&mut self, value: String)
        ensures
            final(self)@ == (TaskView { description: Some(value@), ..old(self)@ }),
    {
        self.description = Some(value);
    }

    /// Marks the task completed at `now`, or explicitly not completed.
    pub fn set_completed_at(&mut self, value: bool, now: Timestamp)
        ensures
            final(self)@ == (TaskView {
                completed_at: Some(if value { now } else { Timestamp::spec_min_utc() }),
                ..old(self)@
            }),
    {
        if value {
            self.completed_at = Some(now);
        } else {
            self.completed_at = Some(Timestamp::min_utc());
        }
    }

    /// Marks the task completed now, or explicitly not completed. The moment
    /// of completion comes from the clock and is not stated; it is written
    /// with a zero offset.
    pub fn set_completed(&mut self, value: bool)
        ensures
            final(self)@.id == old(self)@.id,
            final(self)@.priority == old(self)@.priority,
            final(self)@.title == old(self)@.title,
            final(self)@.description == old(self)@.description,
            final(self)@.completed_at is Some,
            !value ==> final(self)@.completed_at == Some(Timestamp::spec_min_utc()),
            value ==> final(self)@.completed_at.unwrap().offset_seconds == 0,
    {
        let now = utc_now();
        self.set_completed_at(value, now);
    }

    /// The completion moment, unless the task is not completed.
    pub fn completed_at(&self) -> (t: Option<Timestamp>)
        ensures
            t == visible_completion(self@.completed_at),
    {
        match self.completed_at {
            Some(t) => {
                let min = Timestamp::min_utc();
                if t.is_same_instant(&min) {
                    None
                } else {
                    Some(t)
                }
            },
            None => None,
        }
    }

    /// The Russian name of a priority code.
    pub fn priority_by_name(value: &str) -> (name: String)
        ensures
            name@ == priority_label(value@),
    {
        if same_text(value, "C") {
            "Критический".to_owned()
        } else if same_text(value, "H") {
            "Высокий".to_owned()
        } else if same_text(value, "N") {
            "Нормальный".to_owned()
        } else if same_text(value, "L") {
            "Низкий".to_owned()
        } else {
            "".to_owned()
        }
    }

    /// The Russian name of the task's priority, or the empty string.
    pub fn priority_name(&self) -> (name: String)
        ensures
            name@ == (match self@.priority {
                Some(code) => priority_label(code),
                None => ""@,
            }),
    {
        match &self.priority {
            Some(priority) => Self::priority_by_name(priority.as_str()),
            None => "".to_owned(),
        }
    }

    /// The priority codes with their names, from the most urgent down.
    pub fn priorities() -> (v: Vec<(String, String)>)
        ensures
            v@.len() == 4,
            v@[0].0@ == "C"@ && v@[0].1@ == priority_label("C"@),
            v@[1].0@ == "H"@ && v@[1].1@ == priority_label("H"@),
            v@[2].0@ == "N"@ && v@[2].1@ == priority_label("N"@),
            v@[3].0@ == "L"@ && v@[3].1@ == priority_label("L"@),
    {
        let mut v: Vec<(String, String)> = Vec::new();
        v.push(("C".to_owned(), Self::priority_by_name("C")));
        v.push(("H".to_owned(), Self::priority_by_name("H")));
        v.push(("N".to_owned(), Self::priority_by_name("N")));
        v.push(("L".to_owned(), Self::priority_by_name("L")));
        v
    }

    /// The same task, field for field.
    pub fn copy(&self) -> (t: Task)
        ensures
            t@ == self@,
    {
        Task {
            id: self.id,
            priority: copy_opt_text(&self.priority),
            title: copy_opt_text(&self.title),
            completed_at: self.completed_at,
            description: copy_opt_text(&self.description),
        }
    }

    /// Sets each field to the value it has in the given task.
    pub fn set_from_task(&mut self, task: &Task)
        ensures
            final(self)@ == task@,
    {
        self.id = task.id;
        self.title = copy_opt_text(&task.title);
        self.description = copy_opt_text(&task.description);
        self.priority = copy_opt_text(&task.priority);
        self.completed_at = task.completed_at;
    }

    /// The changes from `old_task` to `changed_task`: the id of the old task
    /// and each field that `changed_task` sets to a different value.
    pub fn create_patch(old_task: &Task, changed_task: &Task) -> (patch: Task)
        ensures
            patch@ == spec_patch(old_task@, changed_task@),
            patch.id == old_task.id,
            changed_task.completed_at is Some && !same_opt_instant(
                changed_task.completed_at,
                old_task.completed_at,
            ) ==> patch.completed_at == changed_task.completed_at,
            changed_task.completed_at is None || same_opt_instant(
                changed_task.completed_at,
                old_task.completed_at,
            ) ==> patch.completed_at is None,
            changed_task@.title is Some && changed_task@.title != old_task@.title ==> patch@.title
                == changed_task@.title,
            changed_task@.description is Some && changed_task@.description != old_task@.description
                ==> patch@.description == changed_task@.description,
            changed_task@.priority is Some && changed_task@.priority != old_task@.priority
                ==> patch@.priority == changed_task@.priority,
    {
        let mut patch_for_task = Task::new();

        patch_for_task.id = old_task.id;

        if !same_opt_text(&changed_task.title, &old_task.title) && changed_task.title.is_some() {
            patch_for_task.title = copy_opt_text(&changed_task.title);
        }
        if !same_opt_text(&changed_task.description, &old_task.description)
            && changed_task.description.is_some() {
            patch_for_task.description = copy_opt_text(&changed_task.description);
        }
        if !same_opt_text(&changed_task.priority, &old_task.priority)
            && changed_task.priority.is_some() {
            patch_for_task.priority = copy_opt_text(&changed_task.priority);
        }
        if !same_opt_timestamp(&changed_task.completed_at, &old_task.completed_at)
            && changed_task.completed_at.is_some() {
            patch_for_task.completed_at = changed_task.completed_at;
        }

        patch_for_task
    }
}

/// A task compared with itself gives a patch that changes nothing: it only
/// names the task.
pub proof fn lemma_patch_of_unchanged_task(t: TaskView)
    ensures
        spec_patch(t, t) == (TaskView {
            id: t.id,
            priority: None,
            title: None,
            completed_at: None,
            description: None,
        }),
{
    match t.completed_at {
        Some(c) => assert(c.same_instant(c)),
        None => {},
    }
}

/// Marking a task as not completed makes it read as not completed; marking
/// it completed at any moment but the marker makes it read as completed at
/// that moment.
pub proof fn lemma_completion_reads_back(value: bool, now: Timestamp)
    ensures
        !value ==> visible_completion(Some(Timestamp::spec_min_utc())) is None,
        value && !now.same_instant(Timestamp::spec_min_utc()) ==> visible_completion(Some(now)) == Some(now),
{
}

/// The patch of an edit names the edited task and carries each field that
/// the edit sets to something new: a title, description or priority that is
/// set and differs, and a completion moment that is set and names another
/// instant, the not-completed marker included, so that unchecking a
/// completed task reaches the server. Fields that the edit leaves unset or
/// unchanged are left out.
pub proof fn lemma_patch_carries_changes(old: TaskView, changed: TaskView)
    ensures
        spec_patch(old, changed).id == old.id,
        changed.title is Some && changed.title != old.title ==> spec_patch(old, changed).title
            == changed.title,
        changed.title is None || changed.title == old.title ==> spec_patch(old, changed).title is None,
        changed.description is Some && changed.description != old.description ==> spec_patch(
            old,
            changed,
        ).description == changed.description,
        changed.description is None || changed.description == old.description ==> spec_patch(
            old,
            changed,
        ).description is None,
        changed.priority is Some && changed.priority != old.priority ==> spec_patch(old, changed).priority
            == changed.priority,
        changed.priority is None || changed.priority == old.priority ==> spec_patch(
            old,
            changed,
        ).priority is None,
        changed.completed_at is Some && !same_opt_instant(changed.completed_at, old.completed_at)
            ==> spec_patch(old, changed).completed_at == changed.completed_at,
        changed.completed_at is None || same_opt_instant(changed.completed_at, old.completed_at)
            ==> spec_patch(old, changed).completed_at is None,
{
}

/// Unchecking a task that was completed at a moment other than the marker
/// gives a patch that sends the not-completed marker.
pub proof fn lemma_uncheck_is_sent(old: TaskView, changed: TaskView, done_at: Timestamp)
    requires
        old.completed_at == Some(done_at),
        !done_at.same_instant(Timestamp::spec_min_utc()),
        changed.completed_at == Some(Timestamp::spec_min_utc()),
    ensures
        spec_patch(old, changed).completed_at == Some(Timestamp::spec_min_utc()),
{
}

} // verus!
