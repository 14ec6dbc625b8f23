use vstd::prelude::*;

use crate::settings::{filter_label, filter_value, sort_label, sort_value, Filter, SortKind};

verus! {

/// The select box option of a filter: its value and its label.
pub fn filter_to_option(filter: Filter) -> (o: (String, String))
    ensures
        o.0@ == filter_value(filter),
        o.1@ == filter_label(filter),
{
    (filter.value(), filter.label())
}

/// The select box option of a sort order: its value and its label.
pub fn sort_to_option(sort_kind: SortKind) -> (o: (String, String))
    ensures
        o.0@ == sort_value(sort_kind),
        o.1@ == sort_label(sort_kind),
{
    (sort_kind.value(), sort_kind.label())
}

/// The filters that the home page offers: completed, then uncompleted.
pub fn filter_options() -> (v: Vec<(String, String)>)
    ensures
        v@.len() == 2,
        v@[0].0@ == filter_value(Filter::Completed) && v@[0].1@ == filter_label(Filter::Completed),
        v@[1].0@ == filter_value(Filter::Uncompleted) && v@[1].1@ == filter_label(
            Filter::Uncompleted,
        ),
{
    let mut v: Vec<(String, String)> = Vec::new();
    v.push(filter_to_option(Filter::Completed));
    v.push(filter_to_option(Filter::Uncompleted));
    v
}

/// The sort orders that the home page offers: by title, then by priority.
pub fn sort_options() -> (v: Vec<(String, String)>)
    ensures
        v@.len() == 2,
        v@[0].0@ == sort_value(SortKind::Title) && v@[0].1@ == sort_label(SortKind::Title),
        v@[1].0@ == sort_value(SortKind::Priority) && v@[1].1@ == sort_label(SortKind::Priority),
{
    let mut v: Vec<(String, String)> = Vec::new();
    v.push(sort_to_option(SortKind::Title));
    v.push(sort_to_option(SortKind::Priority));
    v
}

} // verus!
