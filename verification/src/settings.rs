use vstd::prelude::*;

use crate::task::opt_text;
use crate::text::same_text;
use crate::user::{User, UserView};

verus! {

/// Which tasks the list shows.
#[derive(Clone, Copy, Debug, PartialEq, Eq, Structural)]
pub enum Filter {
    Empty,
    Completed,
    Uncompleted,
}

/// How the list orders the tasks.
#[derive(Clone, Copy, Debug, PartialEq, Eq, Structural)]
pub enum SortKind {
    Empty,
    Title,
    Priority,
}

/// The value that stands for a filter in a select box.
pub open spec fn filter_value(f: Filter) -> Seq<char> {
    match f {
        Filter::Empty => ""@,
        Filter::Completed => "completed"@,
        Filter::Uncompleted => "uncompleted"@,
    }
}

/// The filter that a select box value stands for; any other value means no
/// filter.
pub open spec fn filter_from_value(v: Seq<char>) -> Filter {
    if v == "completed"@ {
        Filter::Completed
    } else if v == "uncompleted"@ {
        Filter::Uncompleted
    } else {
        Filter::Empty
    }
}

/// The label that shows a filter.
pub open spec fn filter_label(f: Filter) -> Seq<char> {
    match f {
        Filter::Empty => "Не выбран"@,
        Filter::Completed => "Завершенные"@,
        Filter::Uncompleted => "Незавершенные"@,
    }
}

/// The value that stands for a sort order in a select box.
pub open spec fn sort_value(k: SortKind) -> Seq<char> {
    match k {
        SortKind::Empty => ""@,
        SortKind::Title => "title"@,
        SortKind::Priority => "priority"@,
    }
}

/// The sort order that a select box value stands for; any other value means
/// no order.
pub open spec fn sort_from_value(v: Seq<char>) -> SortKind {
    if v == "title"@ {
        SortKind::Title
    } else if v == "priority"@ {
        SortKind::Priority
    } else {
        SortKind::Empty
    }
}

/// The label that shows a sort order.
pub open spec fn sort_label(k: SortKind) -> Seq<char> {
    match k {
        SortKind::Empty => "Не выбран"@,
        SortKind::Title => "Название"@,
        SortKind::Priority => "Приоритет"@,
    }
}

impl Filter {
    /// The value that stands for the filter in a select box.
    pub fn value(&self) -> (s: String)
        ensures
            s@ == filter_value(*self),
    {
        match self {
            Filter::Empty => "".to_owned(),
            Filter::Completed => "completed".to_owned(),
            Filter::Uncompleted => "uncompleted".to_owned(),
        }
    }

    /// The filter that a select box value stands for.
    pub fn from_value(value: &str) -> (f: Filter)
        ensures
            f == filter_from_value(value@),
    {
        if same_text(value, "completed") {
            Filter::Completed
        } else if same_text(value, "uncompleted") {
            Filter::Uncompleted
        } else {
            Filter::Empty
        }
    }

    /// The label that shows the filter.
    pub fn label(&self) -> (s: String)
        ensures
            s@ == filter_label(*self),
    {
        match self {
            Filter::Empty => "Не выбран".to_owned(),
            Filter::Completed => "Завершенные".to_owned(),
            Filter::Uncompleted => "Незавершенные".to_owned(),
        }
    }
}

impl SortKind {
    /// The value that stands for the sort order in a select box.
    pub fn value(&self) -> (s: String)
        ensures
            s@ == sort_value(*self),
    {
        match self {
            SortKind::Empty => "".to_owned(),
            SortKind::Title => "title".to_owned(),
            SortKind::Priority => "priority".to_owned(),
        }
    }

    /// The sort order that a select box value stands for.
    pub fn from_value(value: &str) -> (k: SortKind)
        ensures
            k == sort_from_value(value@),
    {
        if same_text(value, "title") {
            SortKind::Title
        } else if same_text(value, "priority") {
            SortKind::Priority
        } else {
            SortKind::Empty
        }
    }

    /// The label that shows the sort order.
    pub fn label(&self) -> (s: String)
        ensures
            s@ == sort_label(*self),
    {
        match self {
            SortKind::Empty => "Не выбран".to_owned(),
            SortKind::Title => "Название".to_owned(),
            SortKind::Priority => "Приоритет".to_owned(),
        }
    }
}

impl<'a> From<&'a str> for Filter {
    fn from(value: &'a str) -> (f: Filter) {
        Filter::from_value(value)
    }
}

impl<'a> vstd::std_specs::convert::FromSpecImpl<&'a str> for Filter {
    open spec fn obeys_from_spec() -> bool {
        true
    }

    open spec fn from_spec(v: &'a str) -> Filter {
        filter_from_value(v@)
    }
}

impl<'a> From<&'a str> for SortKind {
    fn from(value: &'a str) -> (k: SortKind) {
        SortKind::from_value(value)
    }
}

impl<'a> vstd::std_specs::convert::FromSpecImpl<&'a str> for SortKind {
    open spec fn obeys_from_spec() -> bool {
        true
    }

    open spec fn from_spec(v: &'a str) -> SortKind {
        sort_from_value(v@)
    }
}

/// The settings that the client keeps between page loads.
#[derive(Clone, Debug)]
pub struct Settings {
    pub locale: String,
    pub user: Option<User>,
    pub api_in_progress: bool,
    pub filter: Filter,
    pub sort_kind: SortKind,
}

/// The token of the logged in user, if there is one.
pub open spec fn settings_token(user: Option<UserView>) -> Option<Seq<char>> {
    match user {
        Some(u) => u.token,
        None => None,
    }
}

/// The user of the settings taken by its view.
pub open spec fn opt_user_view(user: Option<User>) -> Option<UserView> {
    match user {
        Some(u) => Some(u@),
        None => None,
    }
}

impl Settings {
    /// Settings with nothing chosen and nobody logged in.
    pub fn new() -> (s: Settings)
        ensures
            s.locale@ == Seq::<char>::empty(),
            s.user is None,
            !s.api_in_progress,
            s.filter == Filter::Empty,
            s.sort_kind == SortKind::Empty,
    {
        Settings {
            locale: String::new(),
            user: None,
            api_in_progress: false,
            filter: Filter::Empty,
            sort_kind: SortKind::Empty,
        }
    }

    /// The token of the logged in user.
    pub fn token(&self) -> (t: Option<String>)
        ensures
            opt_text(t) == settings_token(opt_user_view(self.user)),
    {
        match &self.user {
            Some(user) => match &user.token {
                Some(token) => Some(token.clone()),
                None => None,
            },
            None => None,
        }
    }

    /// Whether somebody is logged in with a token (the navigation bar shows
    /// the logout link then).
    pub fn is_logged_in(&self) -> (b: bool)
        ensures
            b == (settings_token(opt_user_view(self.user)) is Some),
    {
        match &self.user {
            Some(user) => user.token.is_some(),
            None => false,
        }
    }
}

/// A filter read back from its select box value is the same filter.
pub proof fn lemma_filter_value_round_trip(f: Filter)
    ensures
        filter_from_value(filter_value(f)) == f,
{
    reveal_strlit("completed");
    reveal_strlit("uncompleted");
    reveal_strlit("");
    assert("completed"@.len() == 9 && "uncompleted"@.len() == 11 && ""@.len() == 0);
    assert("completed"@ != "uncompleted"@);
    assert(""@ != "completed"@);
    assert(""@ != "uncompleted"@);
}

/// A sort order read back from its select box value is the same order.
pub proof fn lemma_sort_value_round_trip(k: SortKind)
    ensures
        sort_from_value(sort_value(k)) == k,
{
    reveal_strlit("title");
    reveal_strlit("priority");
    reveal_strlit("");
    assert("title"@.len() == 5 && "priority"@.len() == 8 && ""@.len() == 0);
    assert("title"@ != "priority"@);
    assert(""@ != "title"@);
    assert(""@ != "priority"@);
}

} // verus!
