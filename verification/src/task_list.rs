use std::cmp::Ordering;

use vstd::prelude::*;
use vstd::utf8::encode_utf8;

use crate::settings::{Filter, SortKind};
use crate::task::{priority_label, visible_completion, Task, TaskView};
use crate::text::{
    chars_of, concat, find_first, first_index_of, i32_text, int_text, lemma_first_index_of,
    lemma_int_text_parses,
    parse_i32, parsed_i32, same_text, string_of_range,
};
use crate::time::Timestamp;

verus! {

/// Byte strings compared the way `Ord` compares `str`: lexicographically by
/// their bytes; -1, 0 or 1.
pub open spec fn bytes_order(a: Seq<u8>, b: Seq<u8>) -> int
    decreases a.len(),
{
    if a.len() == 0 {
        if b.len() == 0 {
            0
        } else {
            -1
        }
    } else if b.len() == 0 {
        1
    } else if a[0] < b[0] {
        -1
    } else if a[0] > b[0] {
        1
    } else {
        bytes_order(a.drop_first(), b.drop_first())
    }
}

/// Optional values compared the way `Ord` compares `Option`: nothing comes
/// first; -1, 0 or 1.
pub open spec fn opt_i32_order(a: Option<i32>, b: Option<i32>) -> int {
    match (a, b) {
        (None, None) => 0,
        (None, Some(_)) => -1,
        (Some(_), None) => 1,
        (Some(x), Some(y)) => if x < y {
            -1
        } else if x > y {
            1
        } else {
            0
        },
    }
}

/// Optional strings compared the way `Ord` compares `Option<String>`.
pub open spec fn opt_text_order(a: Option<Seq<char>>, b: Option<Seq<char>>) -> int {
    match (a, b) {
        (None, None) => 0,
        (None, Some(_)) => -1,
        (Some(_), None) => 1,
        (Some(x), Some(y)) => bytes_order(encode_utf8(x), encode_utf8(y)),
    }
}

/// The name of the priority of a task, or the empty string.
pub open spec fn priority_name_of(t: TaskView) -> Seq<char> {
    match t.priority {
        Some(code) => priority_label(code),
        None => ""@,
    }
}

/// How the task list compares two tasks for a sort order: by id when no
/// order is chosen, by title, or by the name of the priority; -1, 0 or 1.
pub open spec fn task_order(a: TaskView, b: TaskView, kind: SortKind) -> int {
    match kind {
        SortKind::Empty => opt_i32_order(a.id, b.id),
        SortKind::Title => opt_text_order(a.title, b.title),
        SortKind::Priority => bytes_order(
            encode_utf8(priority_name_of(a)),
            encode_utf8(priority_name_of(b)),
        ),
    }
}

pub proof fn lemma_bytes_order_props(a: Seq<u8>, b: Seq<u8>, c: Seq<u8>)
    ensures
        -1 <= bytes_order(a, b) <= 1,
        bytes_order(a, b) == -bytes_order(b, a),
        bytes_order(a, b) == 0 <==> a == b,
        bytes_order(a, b) <= 0 && bytes_order(b, c) <= 0 ==> bytes_order(a, c) <= 0,
        bytes_order(a, b) < 0 && bytes_order(b, c) <= 0 ==> bytes_order(a, c) < 0,
        bytes_order(a, b) <= 0 && bytes_order(b, c) < 0 ==> bytes_order(a, c) < 0,
    decreases a.len(),
{
    if a.len() > 0 && b.len() > 0 && c.len() > 0 {
        lemma_bytes_order_props(a.drop_first(), b.drop_first(), c.drop_first());
    } else if a.len() > 0 && b.len() > 0 {
        lemma_bytes_order_props(a.drop_first(), b.drop_first(), c);
    }
    if a.len() > 0 && b.len() > 0 && a[0] == b[0] && a.drop_first() == b.drop_first() {
        assert forall|i: int| 0 <= i < a.len() implies a[i] == b[i] by {
            if i > 0 {
                assert(a[i] == a.drop_first()[i - 1]);
                assert(b[i] == b.drop_first()[i - 1]);
            }
        }
        assert(a =~= b);
    }
    if a == b && a.len() > 0 {
        assert(a.drop_first() == b.drop_first());
    }
    if a.len() == 0 && b.len() == 0 {
        assert(a =~= b);
    }
}

proof fn lemma_opt_text_order_props(a: Option<Seq<char>>, b: Option<Seq<char>>, c: Option<Seq<char>>)
    ensures
        -1 <= opt_text_order(a, b) <= 1,
        opt_text_order(a, b) == -opt_text_order(b, a),
        opt_text_order(a, b) <= 0 && opt_text_order(b, c) <= 0 ==> opt_text_order(a, c) <= 0,
        opt_text_order(a, b) < 0 && opt_text_order(b, c) <= 0 ==> opt_text_order(a, c) < 0,
        opt_text_order(a, b) <= 0 && opt_text_order(b, c) < 0 ==> opt_text_order(a, c) < 0,
{
    let ea = match a { Some(x) => encode_utf8(x), None => Seq::empty() };
    let eb = match b { Some(x) => encode_utf8(x), None => Seq::empty() };
    let ec = match c { Some(x) => encode_utf8(x), None => Seq::empty() };
    lemma_bytes_order_props(ea, eb, ec);
}

/// The comparison of tasks is a total preorder: it is antisymmetric and
/// transitive, so sorting by it is well defined.
pub proof fn lemma_task_order_props(a: TaskView, b: TaskView, c: TaskView, kind: SortKind)
    ensures
        -1 <= task_order(a, b, kind) <= 1,
        task_order(a, b, kind) == -task_order(b, a, kind),
        task_order(a, a, kind) == 0,
        task_order(a, b, kind) <= 0 && task_order(b, c, kind) <= 0 ==> task_order(a, c, kind) <= 0,
        task_order(a, b, kind) < 0 && task_order(b, c, kind) <= 0 ==> task_order(a, c, kind) < 0,
        task_order(a, b, kind) <= 0 && task_order(b, c, kind) < 0 ==> task_order(a, c, kind) < 0,
{
    match kind {
        SortKind::Empty => {},
        SortKind::Title => {
            lemma_opt_text_order_props(a.title, b.title, c.title);
            lemma_opt_text_order_props(a.title, a.title, a.title);
            match a.title {
                Some(x) => lemma_bytes_order_props(encode_utf8(x), encode_utf8(x), encode_utf8(x)),
                None => {},
            }
        },
        SortKind::Priority => {
            lemma_bytes_order_props(
                encode_utf8(priority_name_of(a)),
                encode_utf8(priority_name_of(b)),
                encode_utf8(priority_name_of(c)),
            );
            lemma_bytes_order_props(
                encode_utf8(priority_name_of(a)),
                encode_utf8(priority_name_of(a)),
                encode_utf8(priority_name_of(a)),
            );
        },
    }
}

/// The `Ordering` that a comparison result of -1, 0 or 1 stands for.
pub open spec fn ordering_of(c: int) -> Ordering {
    if c < 0 {
        Ordering::Less
    } else if c > 0 {
        Ordering::Greater
    } else {
        Ordering::Equal
    }
}

/// Compares two byte strings lexicographically: -1, 0 or 1.
pub fn compare_bytes(a: &[u8], b: &[u8]) -> (r: i8)
    ensures
        r == bytes_order(a@, b@),
{
    let n = a.len();
    let m = b.len();
    let mut i: usize = 0;
    assert(a@.skip(0) == a@ && b@.skip(0) == b@);
    while i < n && i < m
        invariant
            n == a@.len(),
            m == b@.len(),
            0 <= i <= n,
            i <= m,
            bytes_order(a@, b@) == bytes_order(a@.skip(i as int), b@.skip(i as int)),
        decreases n - i,
    {
        proof {
            assert(a@.skip(i as int).drop_first() == a@.skip(i + 1));
            assert(b@.skip(i as int).drop_first() == b@.skip(i + 1));
        }
        if a[i] < b[i] {
            return -1;
        } else if a[i] > b[i] {
            return 1;
        }
        i = i + 1;
    }
    if i < m {
        -1
    } else if i < n {
        1
    } else {
        0
    }
}

/// Compares two strings as `Ord` compares `str`: -1, 0 or 1.
pub fn compare_text(a: &str, b: &str) -> (r: i8)
    ensures
        r == bytes_order(encode_utf8(a@), encode_utf8(b@)),
{
    compare_bytes(a.as_bytes(), b.as_bytes())
}

fn compare_opt_text(a: &Option<String>, b: &Option<String>) -> (r: i8)
    ensures
        r == opt_text_order(crate::task::opt_text(*a), crate::task::opt_text(*b)),
{
    match (a, b) {
        (None, None) => 0,
        (None, Some(_)) => -1,
        (Some(_), None) => 1,
        (Some(x), Some(y)) => compare_text(x.as_str(), y.as_str()),
    }
}

/// How the task list orders two tasks for the chosen sort order: -1, 0 or 1.
pub fn task_order_of(task1: &Task, task2: &Task, sort_kind: &SortKind) -> (r: i8)
    ensures
        r == task_order(task1@, task2@, *sort_kind),
{
    match sort_kind {
        SortKind::Empty => match (task1.id, task2.id) {
            (None, None) => 0,
            (None, Some(_)) => -1,
            (Some(_), None) => 1,
            (Some(x), Some(y)) => if x < y {
                -1
            } else if x > y {
                1
            } else {
                0
            },
        },
        SortKind::Title => compare_opt_text(&task1.title, &task2.title),
        SortKind::Priority => {
            let n1 = task1.priority_name();
            let n2 = task2.priority_name();
            compare_text(n1.as_str(), n2.as_str())
        },
    }
}

/// How the task list orders two tasks for the chosen sort order.
pub fn sort_task(task1: &Task, task2: &Task, sort_kind: &SortKind) -> (r: Ordering)
    ensures
        r == ordering_of(task_order(task1@, task2@, *sort_kind)),
{
    let c = task_order_of(task1, task2, sort_kind);
    if c < 0 {
        Ordering::Less
    } else if c > 0 {
        Ordering::Greater
    } else {
        Ordering::Equal
    }
}

/// Whether the tasks of `s` come in the order of `kind`.
pub open spec fn sorted_by(s: Seq<Task>, kind: SortKind) -> bool {
    forall|i: int, j: int| 0 <= i < j < s.len() ==> task_order(s[i]@, s[j]@, kind) <= 0
}

/// The tasks of `s` that compare equal to `x`, in order, taken by their
/// views.
pub open spec fn class_of(s: Seq<Task>, x: TaskView, kind: SortKind) -> Seq<TaskView>
    decreases s.len(),
{
    if s.len() == 0 {
        Seq::empty()
    } else {
        let rest = class_of(s.drop_last(), x, kind);
        if task_order(s.last()@, x, kind) == 0 {
            rest.push(s.last()@)
        } else {
            rest
        }
    }
}

proof fn lemma_class_of_concat(a: Seq<Task>, b: Seq<Task>, x: TaskView, kind: SortKind)
    ensures
        class_of(a + b, x, kind) == class_of(a, x, kind) + class_of(b, x, kind),
    decreases b.len(),
{
    if b.len() == 0 {
        assert(a + b == a);
        assert(class_of(a, x, kind) + Seq::<TaskView>::empty() == class_of(a, x, kind));
    } else {
        lemma_class_of_concat(a, b.drop_last(), x, kind);
        assert((a + b).drop_last() == a + b.drop_last());
        assert((a + b).last() == b.last());
    }
}

proof fn lemma_class_of_none(s: Seq<Task>, x: TaskView, kind: SortKind)
    requires
        forall|i: int| 0 <= i < s.len() ==> task_order(#[trigger] s[i]@, x, kind) != 0,
    ensures
        class_of(s, x, kind) == Seq::<TaskView>::empty(),
    decreases s.len(),
{
    if s.len() > 0 {
        assert forall|i: int| 0 <= i < s.len() - 1 implies task_order(#[trigger] s.drop_last()[i]@, x, kind) != 0 by {
            assert(s.drop_last()[i] == s[i]);
        }
        lemma_class_of_none(s.drop_last(), x, kind);
    }
}

proof fn lemma_insert_sorted(out: Seq<Task>, p: int, t: Task, kind: SortKind)
    requires
        0 <= p <= out.len(),
        sorted_by(out, kind),
        forall|q: int| 0 <= q < p ==> task_order(t@, #[trigger] out[q]@, kind) >= 0,
        p < out.len() ==> task_order(t@, out[p]@, kind) < 0,
    ensures
        sorted_by(out.insert(p, t), kind),
        forall|x: TaskView| #[trigger] class_of(out.insert(p, t), x, kind) == if task_order(t@, x, kind) == 0 {
            class_of(out, x, kind).push(t@)
        } else {
            class_of(out, x, kind)
        },
{
    let n = out.insert(p, t);
    assert forall|i: int, j: int| 0 <= i < j < n.len() implies task_order(n[i]@, n[j]@, kind) <= 0 by {
        if j < p {
            assert(n[i] == out[i] && n[j] == out[j]);
        } else if j == p {
            assert(n[i] == out[i]);
            lemma_task_order_props(t@, out[i]@, t@, kind);
        } else if i == p {
            assert(n[j] == out[j - 1]);
            lemma_task_order_props(t@, out[p]@, out[j - 1]@, kind);
        } else if i < p {
            assert(n[i] == out[i] && n[j] == out[j - 1]);
        } else {
            assert(n[i] == out[i - 1] && n[j] == out[j - 1]);
        }
    }
    assert(n == out.take(p) + seq![t] + out.skip(p));
    assert(out == out.take(p) + out.skip(p));
    assert forall|x: TaskView| #[trigger] class_of(n, x, kind) == if task_order(t@, x, kind) == 0 {
        class_of(out, x, kind).push(t@)
    } else {
        class_of(out, x, kind)
    } by {
        lemma_class_of_concat(out.take(p) + seq![t], out.skip(p), x, kind);
        lemma_class_of_concat(out.take(p), seq![t], x, kind);
        lemma_class_of_concat(out.take(p), out.skip(p), x, kind);
        assert(seq![t].drop_last() == Seq::<Task>::empty());
        assert(seq![t].last() == t);
        assert(class_of(Seq::<Task>::empty(), x, kind) == Seq::<TaskView>::empty());
        assert(class_of(seq![t].drop_last(), x, kind) == Seq::<TaskView>::empty());
        let ct = class_of(seq![t], x, kind);
        let a = class_of(out.take(p), x, kind);
        let b = class_of(out.skip(p), x, kind);
        assert(class_of(n, x, kind) == a + ct + b);
        assert(class_of(out, x, kind) == a + b);
        if task_order(t@, x, kind) == 0 {
            assert(ct == seq![t@]);
        } else {
            assert(ct == Seq::<TaskView>::empty());
            assert(a + ct == a);
        }
        if task_order(t@, x, kind) == 0 {
            assert forall|i: int| 0 <= i < out.skip(p).len() implies task_order(#[trigger] out.skip(p)[i]@, x, kind) != 0 by {
                let y = out.skip(p)[i];
                assert(y == out[p + i]);
                lemma_task_order_props(t@, out[p]@, y@, kind);
                lemma_task_order_props(t@, y@, x, kind);
                lemma_task_order_props(y@, x, t@, kind);
            }
            lemma_class_of_none(out.skip(p), x, kind);
            assert(a + ct + b == (a + b).push(t@));
        }
    }
}

/// The tasks in the order of `sort_kind`; tasks that compare equal keep the
/// order they had (a stable sort, as `sort_by` does).
pub fn sort_tasks(tasks: Vec<Task>, sort_kind: SortKind) -> (sorted: Vec<Task>)
    ensures
        sorted@.len() == tasks@.len(),
        sorted_by(sorted@, sort_kind),
        forall|x: TaskView| #[trigger] class_of(sorted@, x, sort_kind) == class_of(tasks@, x, sort_kind),
{
    let ghost s = tasks@;
    let mut out: Vec<Task> = Vec::new();
    for t in it: tasks.into_iter()
        invariant
            it.seq() == s,
            out@.len() == it.index(),
            sorted_by(out@, sort_kind),
            forall|x: TaskView| #[trigger] class_of(out@, x, sort_kind) == class_of(
                s.take(it.index() as int),
                x,
                sort_kind,
            ),
    {
        let n = out.len();
        let mut p: usize = 0;
        while p < n
            invariant
                n == out@.len(),
                0 <= p <= n,
                forall|q: int| 0 <= q < p ==> task_order(t@, #[trigger] out@[q]@, sort_kind) >= 0,
            ensures
                0 <= p <= n,
                forall|q: int| 0 <= q < p ==> task_order(t@, #[trigger] out@[q]@, sort_kind) >= 0,
                p < n ==> task_order(t@, out@[p as int]@, sort_kind) < 0,
            decreases n - p,
        {
            if task_order_of(&t, &out[p], &sort_kind) < 0 {
                break;
            }
            p = p + 1;
        }
        proof {
            lemma_insert_sorted(out@, p as int, t, sort_kind);
            let k = it.index() as int;
            assert(s.take(k + 1).drop_last() == s.take(k));
            assert(s.take(k + 1).last() == t);
        }
        out.insert(p, t);
    }
    proof {
        assert(s.take(s.len() as int) == s);
    }
    out
}

/// The CSS class that colours a task by its priority.
pub fn priority_style(task: &Task) -> (style: String)
    ensures
        style@ == (match task@.priority {
            Some(p) => if p == "C"@ {
                "critical"@
            } else if p == "H"@ {
                "high"@
            } else if p == "N"@ {
                "normal"@
            } else {
                "low"@
            },
            None => "gray"@,
        }),
{
    match &task.priority {
        Some(priority) => {
            let p = priority.as_str();
            if same_text(p, "C") {
                "critical".to_owned()
            } else if same_text(p, "H") {
                "high".to_owned()
            } else if same_text(p, "N") {
                "normal".to_owned()
            } else {
                "low".to_owned()
            }
        },
        None => "gray".to_owned(),
    }
}

/// Whether the task list shows a task under a filter.
pub open spec fn spec_filter_task(t: TaskView, filter: Filter) -> bool {
    match filter {
        Filter::Empty => true,
        Filter::Completed => visible_completion(t.completed_at) is Some,
        Filter::Uncompleted => visible_completion(t.completed_at) is None,
    }
}

/// Whether the task list shows a task under a filter.
pub fn filter_task(task: &Task, filter: &Filter) -> (b: bool)
    ensures
        b == spec_filter_task(task@, *filter),
{
    match filter {
        Filter::Empty => true,
        Filter::Completed => task.completed_at().is_some(),
        Filter::Uncompleted => task.completed_at().is_none(),
    }
}

/// The tasks of `s` that the filter shows, in order, taken by their views.
pub open spec fn shown_tasks(s: Seq<Task>, filter: Filter) -> Seq<TaskView>
    decreases s.len(),
{
    if s.len() == 0 {
        Seq::empty()
    } else {
        let rest = shown_tasks(s.drop_last(), filter);
        if spec_filter_task(s.last()@, filter) {
            rest.push(s.last()@)
        } else {
            rest
        }
    }
}

/// Copies of the tasks that the filter shows, in order.
pub fn visible_tasks(tasks: &Vec<Task>, filter: &Filter) -> (v: Vec<Task>)
    ensures
        v@.map_values(|t: Task| t@) == shown_tasks(tasks@, *filter),
{
    let mut v: Vec<Task> = Vec::new();
    let n = tasks.len();
    let mut i: usize = 0;
    while i < n
        invariant
            n == tasks@.len(),
            0 <= i <= n,
            v@.map_values(|t: Task| t@) == shown_tasks(tasks@.take(i as int), *filter),
        decreases n - i,
    {
        proof {
            assert(tasks@.take(i + 1).drop_last() == tasks@.take(i as int));
            assert(tasks@.take(i + 1).last() == tasks@[i as int]);
        }
        if filter_task(&tasks[i], filter) {
            let ghost before = v@;
            v.push(tasks[i].copy());
            assert(v@.map_values(|t: Task| t@) == before.map_values(|t: Task| t@).push(tasks@[i as int]@));
        }
        i = i + 1;
    }
    assert(tasks@.take(n as int) == tasks@);
    v
}

/// The name of the completion checkbox of a task.
pub fn completed_checkbox_name(id: i32) -> (name: String)
    ensures
        name@ == "completed_"@ + int_text(id as int),
{
    let n = i32_text(id);
    concat("completed_", n.as_str())
}

/// The id written after the first `_` of a checkbox name.
pub open spec fn spec_id_after_underscore(name: Seq<char>) -> Option<i32> {
    match first_index_of(name, '_') {
        Some(i) => parsed_i32(name.skip(i + 1)),
        None => None,
    }
}

/// The task id that a completion checkbox name carries.
pub fn task_id_from_checkbox(name: &str) -> (id: Option<i32>)
    ensures
        id == spec_id_after_underscore(name@),
{
    let v = chars_of(name);
    proof {
        lemma_first_index_of(v@, '_');
    }
    match find_first(&v, '_') {
        Some(i) => {
            let len = v.len();
            assert(i < len);
            let rest = string_of_range(&v, i + 1, len);
            assert(v@.subrange(i + 1, len as int) == name@.skip(i + 1));
            parse_i32(rest.as_str())
        },
        None => None,
    }
}

/// Marks, at `now`, every task with the id of `saved` as completed or not, as
/// `saved` is; the other tasks and the other fields stay.
pub fn apply_saved_completion_at(tasks: &mut Vec<Task>, saved: &Task, now: Timestamp)
    ensures
        final(tasks)@.len() == old(tasks)@.len(),
        forall|i: int| 0 <= i < final(tasks)@.len() ==> #[trigger] final(tasks)@[i]@ == if old(tasks)@[i].id
            == saved.id {
            TaskView {
                completed_at: Some(
                    if visible_completion(saved@.completed_at) is Some {
                        now
                    } else {
                        Timestamp::spec_min_utc()
                    },
                ),
                ..old(tasks)@[i]@
            }
        } else {
            old(tasks)@[i]@
        },
{
    let completed = saved.completed_at().is_some();
    let ghost s = tasks@;
    let n = tasks.len();
    let mut i: usize = 0;
    while i < n
        invariant
            n == s.len(),
            tasks@.len() == n,
            0 <= i <= n,
            completed == (visible_completion(saved@.completed_at) is Some),
            forall|j: int| i <= j < n ==> tasks@[j] == s[j],
            forall|j: int| 0 <= j < i ==> #[trigger] tasks@[j]@ == if s[j].id == saved.id {
                TaskView {
                    completed_at: Some(if completed { now } else { Timestamp::spec_min_utc() }),
                    ..s[j]@
                }
            } else {
                s[j]@
            },
        decreases n - i,
    {
        if tasks[i].id == saved.id {
            let mut t = tasks.remove(i);
            t.set_completed_at(completed, now);
            tasks.insert(i, t);
        }
        i = i + 1;
    }
}

/// What the completion checkbox of a task shows as its title: when the task
/// is completed, its completion moment as `chrono` writes it with the format
/// `%d.%m.%Y %H:%M`, else nothing.
pub fn completion_title(task: &Task) -> (title: String)
    ensures
        title@ == (match visible_completion(task@.completed_at) {
            Some(t) => match completion_text(t) {
                Some(text) => text,
                None => Seq::empty(),
            },
            None => Seq::empty(),
        }),
{
    match task.completed_at() {
        Some(t) => match format_completion(t) {
            Some(text) => text,
            None => String::new(),
        },
        None => String::new(),
    }
}

/// How `chrono` writes the moment `t`, in the offset it carries, with the
/// format `%d.%m.%Y %H:%M`; nothing when chrono cannot represent the moment
/// or the offset.
pub uninterp spec fn completion_text(t: Timestamp) -> Option<Seq<char>>;

/// Writes a moment with `chrono` (`DateTime::from_timestamp`,
/// `FixedOffset::east_opt`, `with_timezone`, `format`). What the text is is
/// named, not stated; it depends on the moment and its offset alone.
#[verifier::external_body]
fn format_completion(t: Timestamp) -> (s: Option<String>)
    ensures
        match s {
            Some(text) => completion_text(t) == Some(text@),
            None => completion_text(t) is None,
        },
{
    let offset = chrono::FixedOffset::east_opt(t.offset_seconds)?;
    let utc = chrono::DateTime::from_timestamp(t.seconds, t.nanos)?;
    Some(utc.with_timezone(&offset).format("%d.%m.%Y %H:%M").to_string())
}

/// The id written into the name of a task's completion checkbox reads back
/// as that task's id.
pub proof fn lemma_checkbox_name_round_trip(id: i32)
    ensures
        spec_id_after_underscore("completed_"@ + int_text(id as int)) == Some(id),
{
    let name = "completed_"@ + int_text(id as int);
    reveal_strlit("completed_");
    assert("completed_"@.len() == 10);
    assert(name[9] == '_');
    assert forall|j: int| 0 <= j < 9 implies name[j] != '_' by {
        assert(name[j] == "completed_"@[j]);
    }
    lemma_first_index_of(name, '_');
    assert(first_index_of(name, '_') == Some(9int)) by {
        match first_index_of(name, '_') {
            Some(k) => {
                if k < 9 {
                    assert(name[k] != '_');
                } else if k > 9 {
                    assert(name[9] == '_');
                }
            },
            None => {
                assert(name[9] == '_');
            },
        }
    }
    assert(name.skip(10) == int_text(id as int));
    lemma_int_text_parses(id as int);
}

} // verus!
