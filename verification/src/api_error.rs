use vstd::prelude::*;

use crate::text::{
    chars_of, concat, find_first, first_index_of, lemma_first_index_of, same_text, split_on,
    string_of_range,
};

verus! {

/// Messages for form fields, by field name. A later entry for a name replaces
/// an earlier one.
#[derive(Clone, Debug)]
pub struct FieldErrors {
    entries: Vec<(String, String)>,
}

/// The map that a list of (name, message) entries gives, later entries
/// winning.
pub open spec fn entries_map(s: Seq<(String, String)>) -> Map<Seq<char>, Seq<char>>
    decreases s.len(),
{
    if s.len() == 0 {
        Map::empty()
    } else {
        entries_map(s.drop_last()).insert(s.last().0@, s.last().1@)
    }
}

impl View for FieldErrors {
    type V = Map<Seq<char>, Seq<char>>;

    closed spec fn view(&self) -> Map<Seq<char>, Seq<char>> {
        entries_map(self.entries@)
    }
}

proof fn lemma_entries_map_lookup(s: Seq<(String, String)>, name: Seq<char>, k: int)
    requires
        -1 <= k < s.len(),
        forall|j: int| k < j < s.len() ==> s[j].0@ != name,
    ensures
        k >= 0 && s[k].0@ == name ==> entries_map(s).contains_key(name) && entries_map(s)[name]
            == s[k].1@,
        k < 0 ==> !entries_map(s).contains_key(name),
    decreases s.len(),
{
    if s.len() > 0 && k < s.len() - 1 {
        lemma_entries_map_lookup(s.drop_last(), name, k);
        if k >= 0 {
            assert(s.drop_last()[k] == s[k]);
        }
    }
}

impl FieldErrors {
    /// No messages.
    pub fn new() -> (e: FieldErrors)
        ensures
            e@ == Map::<Seq<char>, Seq<char>>::empty(),
    {
        FieldErrors { entries: Vec::new() }
    }

    /// Sets the message for a field.
    pub fn insert(&mut self, name: String, message: String)
        ensures
            final(self)@ == old(self)@.insert(name@, message@),
    {
        let ghost before = self.entries@;
        self.entries.push((name, message));
        assert(self.entries@.drop_last() == before);
    }

    /// The message for a field.
    pub fn get(&self, name: &str) -> (m: Option<String>)
        ensures
            match m {
                Some(text) => self@.contains_key(name@) && self@[name@] == text@,
                None => !self@.contains_key(name@),
            },
    {
        let mut i: usize = self.entries.len();
        while i > 0
            invariant
                0 <= i <= self.entries@.len(),
                forall|j: int| i <= j < self.entries@.len() ==> self.entries@[j].0@ != name@,
            decreases i,
        {
            if same_text(self.entries[i - 1].0.as_str(), name) {
                proof {
                    lemma_entries_map_lookup(self.entries@, name@, i - 1);
                }
                return Some(self.entries[i - 1].1.clone());
            }
            i = i - 1;
        }
        proof {
            lemma_entries_map_lookup(self.entries@, name@, -1);
        }
        None
    }

    /// The (name, message) entries in the order they were set; a later entry
    /// for a name replaces an earlier one.
    pub fn entries(&self) -> (v: &Vec<(String, String)>)
        ensures
            entries_map(v@) == self@,
    {
        &self.entries
    }
}

/// The message for a form field, or the empty string.
pub fn get_validate_error(name: &str, errors: &FieldErrors) -> (m: String)
    ensures
        m@ == (if errors@.contains_key(name@) { errors@[name@] } else { Seq::empty() }),
{
    match errors.get(name) {
        Some(m) => m,
        None => String::new(),
    }
}

/// The field messages in the lines of a validation error: each line that
/// holds a `:` gives the text before the first `:` as the field name and the
/// text after it as the message; later lines win.
pub open spec fn errors_of_lines(lines: Seq<Seq<char>>) -> Map<Seq<char>, Seq<char>>
    decreases lines.len(),
{
    if lines.len() == 0 {
        Map::empty()
    } else {
        let m = errors_of_lines(lines.drop_last());
        let line = lines.last();
        match first_index_of(line, ':') {
            Some(i) => m.insert(line.take(i), line.skip(i + 1)),
            None => m,
        }
    }
}

/// The field messages of a validation error text, one field per line.
pub open spec fn spec_field_errors(text: Seq<char>) -> Map<Seq<char>, Seq<char>> {
    errors_of_lines(split_on(text, '\n'))
}

fn add_line(errors: &mut FieldErrors, line: &Vec<char>)
    ensures
        final(errors)@ == (match first_index_of(line@, ':') {
            Some(i) => old(errors)@.insert(line@.take(i), line@.skip(i + 1)),
            None => old(errors)@,
        }),
{
    proof {
        lemma_first_index_of(line@, ':');
    }
    match find_first(line, ':') {
        Some(i) => {
            assert(first_index_of(line@, ':') == Some(i as int));
            assert(i < line@.len());
            let len = line.len();
            assert(i < len);
            let name = string_of_range(line, 0, i);
            let message = string_of_range(line, i + 1, line.len());
            assert(line@.subrange(0, i as int) == line@.take(i as int));
            assert(line@.subrange(i + 1, line@.len() as int) == line@.skip(i + 1));
            errors.insert(name, message);
        },
        None => {},
    }
}

/// Reads the field messages of a validation error text.
pub fn parse_field_errors(text: &str) -> (errors: FieldErrors)
    ensures
        errors@ == spec_field_errors(text@),
{
    let v = chars_of(text);
    let mut errors = FieldErrors::new();
    let mut current: Vec<char> = Vec::new();
    let ghost mut done: Seq<Seq<char>> = Seq::empty();
    let n = v.len();
    let mut i: usize = 0;
    assert(v@.take(0) == Seq::<char>::empty());
    while i < n
        invariant
            n == v@.len(),
            0 <= i <= n,
            split_on(v@.take(i as int), '\n') == done.push(current@),
            errors@ == errors_of_lines(done),
        decreases n - i,
    {
        let ch = v[i];
        proof {
            assert(v@.take(i + 1).drop_last() == v@.take(i as int));
            assert(v@.take(i + 1).last() == ch);
        }
        if ch == '\n' {
            add_line(&mut errors, &current);
            proof {
                assert(done.push(current@).drop_last() == done);
                done = done.push(current@);
            }
            current = Vec::new();
        } else {
            let ghost before = current@;
            current.push(ch);
            proof {
                assert(done.push(before).update(done.len() as int, before.push(ch)) == done.push(current@));
            }
        }
        i = i + 1;
    }
    add_line(&mut errors, &current);
    proof {
        assert(v@.take(n as int) == v@);
        assert(done.push(current@).drop_last() == done);
    }
    errors
}

/// An error of a call to the task service.
#[derive(Clone, Debug)]
pub enum ApiError {
    UnAuthorized(String),
    Validation(String, FieldErrors),
    Network(String),
}

impl ApiError {
    /// The text that explains the error to the user.
    pub fn text(&self) -> (s: String)
        ensures
            s@ == (match self {
                ApiError::UnAuthorized(msg) => "Пользователь не авторизован. "@ + msg@,
                ApiError::Network(msg) => "Ошибка запроса: "@ + msg@ + "."@,
                ApiError::Validation(msg, _) => "Неверные параметры. "@ + msg@,
            }),
    {
        match self {
            ApiError::UnAuthorized(msg) => concat("Пользователь не авторизован. ", msg.as_str()),
            ApiError::Network(msg) => {
                let head = concat("Ошибка запроса: ", msg.as_str());
                concat(head.as_str(), ".")
            },
            ApiError::Validation(msg, _) => concat("Неверные параметры. ", msg.as_str()),
        }
    }
}

/// The error that an answer with the given status (not 200) and error text
/// stands for: 401 means the user is not logged in, 422 carries field
/// messages, any other status is a failed request.
pub fn response_error(status: u16, error: String) -> (e: ApiError)
    requires
        status != 200,
    ensures
        status == 401 ==> (e matches ApiError::UnAuthorized(m) && m@ == error@),
        status == 422 ==> (e matches ApiError::Validation(m, f) && m@ == error@ && f@
            == spec_field_errors(error@)),
        status != 401 && status != 422 ==> (e matches ApiError::Network(m) && m@ == error@),
{
    if status == 401 {
        ApiError::UnAuthorized(error)
    } else if status == 422 {
        let fields = parse_field_errors(error.as_str());
        ApiError::Validation(error, fields)
    } else {
        ApiError::Network(error)
    }
}

} // verus!
