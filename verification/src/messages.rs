use vstd::prelude::*;

use crate::text::{
    chars_of, concat, decimal, find_first, first_index_of, lemma_decimal_reads_back,
    lemma_first_index_of, parse_usize,
    parsed_usize, string_of_range, usize_text,
};
use crate::time::{local_now, Timestamp, NANOS_PER_SECOND};

verus! {

/// What a banner message says and how it is shown.
#[derive(Clone, Debug)]
pub enum MessageKind {
    Empty,
    Info(String, bool),
    Error(String),
}

/// The text of a message kind.
pub open spec fn kind_text(kind: MessageKind) -> Seq<char> {
    match kind {
        MessageKind::Info(msg, _) => msg@,
        MessageKind::Error(msg) => msg@,
        MessageKind::Empty => Seq::empty(),
    }
}

impl MessageKind {
    /// The CSS class of the tag that shows a message of this kind.
    pub fn style(&self) -> (s: String)
        ensures
            s@ == (match self {
                MessageKind::Info(_, _) => "is-primary"@,
                MessageKind::Error(_) => "is-danger"@,
                MessageKind::Empty => ""@,
            }),
    {
        match self {
            MessageKind::Info(_, _) => "is-primary".to_owned(),
            MessageKind::Error(_) => "is-danger".to_owned(),
            MessageKind::Empty => "".to_owned(),
        }
    }

    /// The text shown for a message of this kind.
    pub fn text(&self) -> (s: String)
        ensures
            s@ == kind_text(*self),
    {
        match self {
            MessageKind::Info(msg, _) => msg.clone(),
            MessageKind::Error(msg) => msg.clone(),
            MessageKind::Empty => String::new(),
        }
    }
}

/// One banner message: its id, its kind and, once it was closed, when.
#[derive(Clone, Debug)]
pub struct Message {
    pub id: usize,
    pub kind: MessageKind,
    pub hidden: Option<Timestamp>,
}

/// A message stays in the store while it is open, and for less than one
/// second after it was closed.
pub open spec fn is_live(m: Message, now: Timestamp) -> bool {
    match m.hidden {
        Some(hidden_at) => now.nanos_since(hidden_at) < NANOS_PER_SECOND,
        None => true,
    }
}

/// The live messages of `s`, in order.
pub open spec fn live_messages(s: Seq<Message>, now: Timestamp) -> Seq<Message>
    decreases s.len(),
{
    if s.len() == 0 {
        Seq::empty()
    } else {
        let rest = live_messages(s.drop_last(), now);
        if is_live(s.last(), now) {
            rest.push(s.last())
        } else {
            rest
        }
    }
}

/// The open (not closed) messages of `s`, in order.
pub open spec fn open_messages(s: Seq<Message>) -> Seq<Message>
    decreases s.len(),
{
    if s.len() == 0 {
        Seq::empty()
    } else {
        let rest = open_messages(s.drop_last());
        if s.last().hidden is None {
            rest.push(s.last())
        } else {
            rest
        }
    }
}

/// The greatest id in `s`, or 0 when `s` is empty.
pub open spec fn max_id(s: Seq<Message>) -> nat
    decreases s.len(),
{
    if s.len() == 0 {
        0
    } else {
        let rest = max_id(s.drop_last());
        if s.last().id > rest {
            s.last().id as nat
        } else {
            rest
        }
    }
}

/// No two messages of `s` share an id.
pub open spec fn ids_distinct(s: Seq<Message>) -> bool {
    forall|i: int, j: int| 0 <= i < j < s.len() ==> s[i].id != s[j].id
}

/// The position of the first message of `s` with the given id.
pub open spec fn position_of(s: Seq<Message>, id: usize) -> Option<int>
    decreases s.len(),
{
    if s.len() == 0 {
        None
    } else {
        match position_of(s.drop_last(), id) {
            Some(i) => Some(i),
            None => if s.last().id == id {
                Some(s.len() - 1)
            } else {
                None
            },
        }
    }
}

/// `s` after closing, at `now`, the first message with the given id.
pub open spec fn closed_at(s: Seq<Message>, id: usize, now: Timestamp) -> Seq<Message> {
    match position_of(s, id) {
        Some(i) => s.update(i, Message { hidden: Some(now), ..s[i] }),
        None => s,
    }
}

proof fn lemma_max_id_bounds(s: Seq<Message>)
    ensures
        forall|i: int| 0 <= i < s.len() ==> s[i].id <= max_id(s),
        s.len() > 0 ==> exists|i: int| 0 <= i < s.len() && s[i].id == max_id(s),
    decreases s.len(),
{
    if s.len() > 0 {
        lemma_max_id_bounds(s.drop_last());
        assert forall|i: int| 0 <= i < s.len() implies #[trigger] s[i].id <= max_id(s) by {
            if i < s.len() - 1 {
                assert(s[i] == s.drop_last()[i]);
            }
        }
        if s.len() > 1 && max_id(s) == max_id(s.drop_last()) {
            let i = choose|i: int| 0 <= i < s.drop_last().len() && s.drop_last()[i].id == max_id(s.drop_last());
            assert(s[i].id == max_id(s));
        } else {
            assert(s[s.len() - 1].id == max_id(s));
        }
    }
}

proof fn lemma_live_is_subsequence(s: Seq<Message>, now: Timestamp)
    ensures
        live_messages(s, now).len() <= s.len(),
        forall|i: int| 0 <= i < live_messages(s, now).len() ==>
            exists|j: int| 0 <= j < s.len() && #[trigger] live_messages(s, now)[i] == s[j],
        ids_distinct(s) ==> ids_distinct(live_messages(s, now)),
        max_id(live_messages(s, now)) <= max_id(s),
    decreases s.len(),
{
    if s.len() > 0 {
        let p = s.drop_last();
        lemma_live_is_subsequence(p, now);
        let r = live_messages(p, now);
        lemma_max_id_bounds(s);
        lemma_max_id_bounds(live_messages(s, now));
        assert forall|i: int| 0 <= i < live_messages(s, now).len() implies
            exists|j: int| 0 <= j < s.len() && #[trigger] live_messages(s, now)[i] == s[j] by {
            if i < r.len() {
                let j = choose|j: int| 0 <= j < p.len() && r[i] == p[j];
                assert(s[j] == p[j]);
            } else {
                assert(live_messages(s, now)[i] == s[s.len() - 1]);
            }
        }
        if ids_distinct(s) {
            assert(ids_distinct(p));
            if is_live(s.last(), now) {
                assert forall|i: int, j: int| 0 <= i < j < live_messages(s, now).len() implies
                    live_messages(s, now)[i].id != live_messages(s, now)[j].id by {
                    if j == r.len() {
                        let k = choose|k: int| 0 <= k < p.len() && r[i] == p[k];
                        assert(s[k] == p[k]);
                        assert(k < s.len() - 1);
                    }
                }
            }
        }
    }
}

impl Message {
    /// A new, open error message.
    pub fn new_error(id: usize, msg: String) -> (m: Message)
        ensures
            m == (Message { id, kind: MessageKind::Error(msg), hidden: None }),
    {
        Message { id, kind: MessageKind::Error(msg), hidden: None }
    }

    /// A new, open information message.
    pub fn new_info(id: usize, msg: String) -> (m: Message)
        ensures
            m == (Message { id, kind: MessageKind::Info(msg, false), hidden: None }),
    {
        Message { id, kind: MessageKind::Info(msg, false), hidden: None }
    }

    /// The CSS class that shows or hides the message.
    pub fn display_style(&self) -> (s: String)
        ensures
            s@ == (if self.hidden is None { "show-message"@ } else { "hide-message"@ }),
    {
        if self.hidden.is_none() {
            "show-message".to_owned()
        } else {
            "hide-message".to_owned()
        }
    }

    /// Whether the message is still live at `now`.
    pub fn is_live_at(&self, now: &Timestamp) -> (b: bool)
        ensures
            b == is_live(*self, *now),
    {
        match &self.hidden {
            Some(hidden_at) => now.within_one_second_of(hidden_at),
            None => true,
        }
    }

    /// Whether the message is still live now: its liveness at the moment
    /// that the local clock gives. What the clock says is not known here, so
    /// the moment is only known to be a reading of it; an open message is
    /// live whatever the clock says.
    pub fn is_live(&self) -> (b: bool)
        ensures
            self.hidden is None ==> b,
            exists|now: Timestamp| now.nanos < 1_000_000_000 && b == #[trigger] is_live(*self, now),
    {
        let now = local_now();
        let b = self.is_live_at(&now);
        assert(now.nanos < 1_000_000_000 && b == is_live(*self, now));
        b
    }

    /// The text shown for the message.
    pub fn text(&self) -> (s: String)
        ensures
            s@ == kind_text(self.kind),
    {
        self.kind.text()
    }
}

/// The messages shown by the banner.
#[derive(Clone, Debug)]
pub struct MessageStore {
    messages: Vec<Message>,
}

impl View for MessageStore {
    type V = Seq<Message>;

    closed spec fn view(&self) -> Seq<Message> {
        self.messages@
    }
}

impl MessageStore {
    /// The store is well formed when no two messages share an id.
    pub open spec fn wf(self) -> bool {
        ids_distinct(self@)
    }

    /// An empty store.
    pub fn new() -> (store: MessageStore)
        ensures
            store@ == Seq::<Message>::empty(),
            store.wf(),
    {
        MessageStore { messages: Vec::new() }
    }

    /// The messages, in the order they were added.
    pub fn messages(&self) -> (v: &Vec<Message>)
        ensures
            v@ == self@,
    {
        &self.messages
    }

    /// The greatest id in the store, or 0 when it is empty.
    pub fn max_id(&self) -> (m: usize)
        ensures
            m == max_id(self@),
    {
        max_id_of(&self.messages)
    }

    /// Drops the messages that are no longer live at `now`, then adds `msg`
    /// under an id one above every id that stayed, and returns that id.
    pub fn add_message_at(&mut self, msg: Message, now: &Timestamp) -> (id: usize)
        requires
            max_id(old(self)@) < usize::MAX,
        ensures
            id == max_id(live_messages(old(self)@, *now)) + 1,
            final(self)@ == live_messages(old(self)@, *now).push(
                Message { id, kind: msg.kind, hidden: msg.hidden },
            ),
            old(self).wf() ==> final(self).wf(),
    {
        let ghost s = self.messages@;
        let mut old_messages: Vec<Message> = Vec::new();
        std::mem::swap(&mut old_messages, &mut self.messages);
        let mut kept: Vec<Message> = Vec::new();
        let mut top: usize = 0;
        proof {
            lemma_live_is_subsequence(s, *now);
        }
        for m in it: old_messages.into_iter()
            invariant
                it.seq() == s,
                kept@ == live_messages(s.take(it.index() as int), *now),
                top == max_id(kept@),
                max_id(s) < usize::MAX,
        {
            proof {
                let t = s.take(it.index() as int);
                let t1 = s.take(it.index() + 1);
                assert(t1.drop_last() == t);
                assert(m == s[it.index() as int]);
                assert(t1.last() == m);
                lemma_live_is_subsequence(t1, *now);
                lemma_max_id_bounds(s);
                lemma_max_id_bounds(t1);
                assert(max_id(t1) <= max_id(s)) by {
                    if t1.len() > 0 {
                        let k = choose|k: int| 0 <= k < t1.len() && t1[k].id == max_id(t1);
                        assert(t1[k] == s[k]);
                    }
                }
            }
            if m.is_live_at(now) {
                if m.id > top {
                    top = m.id;
                }
                let ghost before = kept@;
                kept.push(m);
                proof {
                    assert(kept@.drop_last() == before);
                }
            }
        }
        assert(s.take(s.len() as int) == s);
        let id = top + 1;
        let ghost k = kept@;
        kept.push(Message { id, kind: msg.kind, hidden: msg.hidden });
        self.messages = kept;
        proof {
            lemma_live_is_subsequence(s, *now);
            lemma_max_id_bounds(k);
            if ids_distinct(s) {
                assert forall|i: int, j: int| 0 <= i < j < self.messages@.len() implies
                    self.messages@[i].id != self.messages@[j].id by {
                    if j == k.len() {
                        assert(self.messages@[i] == k[i]);
                    } else {
                        assert(self.messages@[i] == k[i]);
                        assert(self.messages@[j] == k[j]);
                    }
                }
            }
        }
        id
    }

    /// `add_message_at` with the current time; the new message is last, is
    /// open, and has an id above every other id in the store.
    pub fn add_message(&mut self, msg: Message) -> (id: usize)
        requires
            max_id(old(self)@) < usize::MAX,
        ensures
            final(self)@.len() >= 1,
            final(self)@.last() == (Message { id, kind: msg.kind, hidden: msg.hidden }),
            forall|i: int| 0 <= i < final(self)@.len() - 1 ==> final(self)@[i].id < id,
            old(self).wf() ==> final(self).wf(),
    {
        let now = local_now();
        let ghost s = self@;
        let id = self.add_message_at(msg, &now);
        proof {
            lemma_max_id_bounds(live_messages(s, now));
        }
        id
    }

    /// Adds an information message; see `add_message`.
    pub fn add_info(&mut self, msg: String) -> (id: usize)
        requires
            max_id(old(self)@) < usize::MAX,
        ensures
            final(self)@.len() >= 1,
            final(self)@.last() == (Message { id, kind: MessageKind::Info(msg, false), hidden: None }),
            forall|i: int| 0 <= i < final(self)@.len() - 1 ==> final(self)@[i].id < id,
            old(self).wf() ==> final(self).wf(),
    {
        self.add_message(Message::new_info(0, msg))
    }

    /// Adds an error message; see `add_message`.
    pub fn add_error(&mut self, msg: String) -> (id: usize)
        requires
            max_id(old(self)@) < usize::MAX,
        ensures
            final(self)@.len() >= 1,
            final(self)@.last() == (Message { id, kind: MessageKind::Error(msg), hidden: None }),
            forall|i: int| 0 <= i < final(self)@.len() - 1 ==> final(self)@[i].id < id,
            old(self).wf() ==> final(self).wf(),
    {
        self.add_message(Message::new_error(0, msg))
    }

    /// Closes, at `now`, the first message with the given id; nothing changes
    /// when there is none.
    pub fn remove_at(&mut self, id: usize, now: &Timestamp)
        ensures
            final(self)@ == closed_at(old(self)@, id, *now),
            old(self).wf() ==> final(self).wf(),
    {
        let ghost s = self.messages@;
        let n = self.messages.len();
        let mut i: usize = 0;
        let mut found = false;
        assert(s.take(n as int) == s);
        while i < n
            invariant_except_break
                !found,
                position_of(s.take(i as int), id) is None,
            invariant
                n == s.len(),
                self.messages@ == s,
                0 <= i <= n,
                s.take(n as int) == s,
            ensures
                !found ==> position_of(s, id) is None,
                found ==> i < n && position_of(s, id) == Some(i as int),
            decreases n - i,
        {
            proof {
                assert(s.take(i + 1).drop_last() == s.take(i as int));
            }
            if self.messages[i].id == id {
                proof {
                    lemma_position_of_prefix(s, i as int + 1, id);
                }
                found = true;
                break;
            }
            i = i + 1;
            proof {
                if i == n {
                    assert(s.take(n as int) == s);
                }
            }
        }
        if found {
            let mut all: Vec<Message> = Vec::new();
            std::mem::swap(&mut all, &mut self.messages);
            let mut m = all.remove(i);
            m.hidden = Some(*now);
            all.insert(i, m);
            self.messages = all;
            proof {
                assert(self.messages@ == s.update(i as int, Message { hidden: Some(*now), ..s[i as int] }));
                assert forall|a: int| 0 <= a < s.len() implies #[trigger] self.messages@[a].id == s[a].id by {}
            }
        }
    }

    /// Closes the first message with the given id; see `remove_at`.
    pub fn remove(&mut self, id: usize)
        ensures
            exists|now: Timestamp| final(self)@ == closed_at(old(self)@, id, now),
            old(self).wf() ==> final(self).wf(),
    {
        let now = local_now();
        self.remove_at(id, &now);
    }

    /// The open messages, in order: those the banner shows.
    pub fn open_messages(&self) -> (v: Vec<Message>)
        ensures
            v@ == open_messages(self@),
    {
        let mut v: Vec<Message> = Vec::new();
        let n = self.messages.len();
        let mut i: usize = 0;
        while i < n
            invariant
                n == self.messages@.len(),
                0 <= i <= n,
                v@ == open_messages(self.messages@.take(i as int)),
            decreases n - i,
        {
            proof {
                assert(self.messages@.take(i + 1).drop_last() == self.messages@.take(i as int));
            }
            let m = &self.messages[i];
            if m.hidden.is_none() {
                v.push(Message { id: m.id, kind: copy_kind(&m.kind), hidden: None });
            }
            i = i + 1;
        }
        assert(self.messages@.take(n as int) == self.messages@);
        v
    }
}

/// The same message kind, duplicated.
fn copy_kind(kind: &MessageKind) -> (k: MessageKind)
    ensures
        k == *kind,
{
    match kind {
        MessageKind::Empty => MessageKind::Empty,
        MessageKind::Info(msg, flag) => MessageKind::Info(msg.clone(), *flag),
        MessageKind::Error(msg) => MessageKind::Error(msg.clone()),
    }
}

proof fn lemma_position_of_prefix(s: Seq<Message>, k: int, id: usize)
    requires
        0 < k <= s.len(),
        position_of(s.take(k - 1), id) is None,
        s[k - 1].id == id,
    ensures
        position_of(s, id) == Some(k - 1),
    decreases s.len(),
{
    if k < s.len() {
        assert(s.drop_last().take(k - 1) == s.take(k - 1));
        lemma_position_of_prefix(s.drop_last(), k, id);
    } else {
        assert(s.drop_last() == s.take(k - 1));
    }
}

/// The greatest id in `v`, or 0 when it is empty.
fn max_id_of(v: &Vec<Message>) -> (m: usize)
    ensures
        m == max_id(v@),
{
    let mut top: usize = 0;
    let n = v.len();
    let mut i: usize = 0;
    while i < n
        invariant
            n == v@.len(),
            0 <= i <= n,
            top == max_id(v@.take(i as int)),
        decreases n - i,
    {
        proof {
            assert(v@.take(i + 1).drop_last() == v@.take(i as int));
        }
        if v[i].id > top {
            top = v[i].id;
        }
        i = i + 1;
    }
    assert(v@.take(n as int) == v@);
    top
}

/// A message stays through an add exactly when it is live at the time of the
/// add: the store keeps every live message and drops every other one.
pub proof fn lemma_add_keeps_exactly_live(s: Seq<Message>, now: Timestamp)
    ensures
        forall|m: Message| #[trigger] live_messages(s, now).contains(m) <==> (s.contains(m) && is_live(m, now)),
    decreases s.len(),
{
    if s.len() > 0 {
        let p = s.drop_last();
        lemma_add_keeps_exactly_live(p, now);
        assert forall|m: Message| #[trigger] live_messages(s, now).contains(m) <==> (s.contains(m) && is_live(m, now)) by {
            if s.contains(m) && is_live(m, now) {
                let j = choose|j: int| 0 <= j < s.len() && s[j] == m;
                if j < s.len() - 1 {
                    assert(p[j] == m);
                    assert(p.contains(m));
                    let r = live_messages(p, now);
                    assert(r.contains(m));
                    let k = choose|k: int| 0 <= k < r.len() && r[k] == m;
                    assert(r.push(s.last())[k] == r[k]);
                    if is_live(s.last(), now) {
                        assert(r.push(s.last())[k] == m);
                    }
                } else {
                    assert(live_messages(s, now).last() == m);
                }
            }
            if live_messages(s, now).contains(m) {
                let r = live_messages(p, now);
                let k = choose|k: int| 0 <= k < live_messages(s, now).len() && live_messages(s, now)[k] == m;
                if k < r.len() {
                    assert(r[k] == m);
                    assert(r.contains(m));
                    let j = choose|j: int| 0 <= j < p.len() && p[j] == m;
                    assert(s[j] == m);
                } else {
                    assert(m == s.last());
                    assert(s[s.len() - 1] == m);
                }
            }
        }
    }
}

proof fn lemma_open_messages_contains(s: Seq<Message>)
    ensures
        forall|m: Message| #[trigger] open_messages(s).contains(m) <==> (s.contains(m) && m.hidden is None),
    decreases s.len(),
{
    if s.len() > 0 {
        let p = s.drop_last();
        lemma_open_messages_contains(p);
        assert forall|m: Message| #[trigger] open_messages(s).contains(m) <==> (s.contains(m) && m.hidden is None) by {
            if s.contains(m) && m.hidden is None {
                let j = choose|j: int| 0 <= j < s.len() && s[j] == m;
                if j < s.len() - 1 {
                    assert(p[j] == m);
                    assert(p.contains(m));
                    let r = open_messages(p);
                    assert(r.contains(m));
                    let k = choose|k: int| 0 <= k < r.len() && r[k] == m;
                    assert(r.push(s.last())[k] == r[k]);
                    if s.last().hidden is None {
                        assert(r.push(s.last())[k] == m);
                    }
                } else {
                    assert(open_messages(s).last() == m);
                }
            }
            if open_messages(s).contains(m) {
                let r = open_messages(p);
                let k = choose|k: int| 0 <= k < open_messages(s).len() && open_messages(s)[k] == m;
                if k < r.len() {
                    assert(r[k] == m);
                    assert(r.contains(m));
                    let j = choose|j: int| 0 <= j < p.len() && p[j] == m;
                    assert(s[j] == m);
                } else {
                    assert(m == s.last());
                    assert(s[s.len() - 1] == m);
                }
            }
        }
    }
}

/// Closing a message takes it off the banner and leaves the banner's other
/// messages as they were.
pub proof fn lemma_close_hides_only_that_message(s: Seq<Message>, id: usize, now: Timestamp)
    requires
        ids_distinct(s),
    ensures
        forall|m: Message| #[trigger] open_messages(closed_at(s, id, now)).contains(m) <==> (
            open_messages(s).contains(m) && m.id != id),
{
    lemma_open_messages_contains(s);
    let c = closed_at(s, id, now);
    lemma_open_messages_contains(c);
    lemma_position_of_spec(s, id);
    assert forall|m: Message| #[trigger] open_messages(c).contains(m) <==> (
        open_messages(s).contains(m) && m.id != id) by {
        match position_of(s, id) {
            Some(i) => {
                if c.contains(m) && m.hidden is None {
                    let j = choose|j: int| 0 <= j < c.len() && c[j] == m;
                    assert(j != i);
                    assert(s[j] == m);
                    assert(s[j].id != s[i].id || j == i);
                }
                if s.contains(m) && m.hidden is None && m.id != id {
                    let j = choose|j: int| 0 <= j < s.len() && s[j] == m;
                    assert(c[j] == m);
                }
            },
            None => {
                if s.contains(m) {
                    let j = choose|j: int| 0 <= j < s.len() && s[j] == m;
                    assert(s[j].id != id);
                }
            },
        }
    }
}

proof fn lemma_position_of_spec(s: Seq<Message>, id: usize)
    ensures
        match position_of(s, id) {
            Some(i) => 0 <= i < s.len() && s[i].id == id,
            None => forall|j: int| 0 <= j < s.len() ==> s[j].id != id,
        },
    decreases s.len(),
{
    if s.len() > 0 {
        lemma_position_of_spec(s.drop_last(), id);
        assert forall|j: int| 0 <= j < s.len() - 1 implies #[trigger] s[j] == s.drop_last()[j] by {}
    }
}

/// The id of the button that closes a message.
pub fn close_button_id(id: usize) -> (name: String)
    ensures
        name@ == "m_"@ + decimal(id as nat),
{
    let n = usize_text(id);
    concat("m_", n.as_str())
}

/// The message id written after the first `_` of a close button id.
pub open spec fn spec_message_id_of_button(name: Seq<char>) -> Option<usize> {
    match first_index_of(name, '_') {
        Some(i) => parsed_usize(name.skip(i + 1)),
        None => None,
    }
}

/// The id of the message that a close button belongs to.
pub fn message_id_from_button(name: &str) -> (id: Option<usize>)
    ensures
        id == spec_message_id_of_button(name@),
{
    let v = chars_of(name);
    proof {
        lemma_first_index_of(v@, '_');
    }
    match find_first(&v, '_') {
        Some(i) => {
            let len = v.len();
            assert(i < len);
            let rest = string_of_range(&v, i + 1, len);
            assert(v@.subrange(i + 1, len as int) == name@.skip(i + 1));
            parse_usize(rest.as_str())
        },
        None => None,
    }
}

/// The message id written into the id of its close button reads back as that
/// message id.
pub proof fn lemma_close_button_round_trip(id: usize)
    ensures
        spec_message_id_of_button("m_"@ + decimal(id as nat)) == Some(id),
{
    let name = "m_"@ + decimal(id as nat);
    reveal_strlit("m_");
    assert(name[1] == '_');
    assert(name[0] == 'm');
    lemma_first_index_of(name, '_');
    assert(first_index_of(name, '_') == Some(1int)) by {
        match first_index_of(name, '_') {
            Some(k) => {
                if k < 1 {
                    assert(name[k] != '_');
                } else if k > 1 {
                    assert(name[1] == '_');
                }
            },
            None => {
                assert(name[1] == '_');
            },
        }
    }
    assert(name.skip(2) == decimal(id as nat));
    lemma_decimal_reads_back(id as nat);
}

} // verus!
