use vstd::prelude::*;
use vstd::utf8::encode_utf8;

use crate::task_list::{bytes_order, compare_text, lemma_bytes_order_props};
use crate::text::same_text;

verus! {

/// `a` comes before `b` in the order of `str`: by their UTF-8 bytes.
pub open spec fn key_less(a: Seq<char>, b: Seq<char>) -> bool {
    bytes_order(encode_utf8(a), encode_utf8(b)) < 0
}

/// The keys of `s` strictly increase.
pub open spec fn keys_increasing<V>(s: Seq<(String, V)>) -> bool {
    forall|i: int, j: int| 0 <= i < j < s.len() ==> key_less(s[i].0@, s[j].0@)
}

/// The map of a list of (key, value) entries; a later entry for a key wins.
pub open spec fn keyed_map<V>(s: Seq<(String, V)>) -> Map<Seq<char>, V>
    decreases s.len(),
{
    if s.len() == 0 {
        Map::empty()
    } else {
        keyed_map(s.drop_last()).insert(s.last().0@, s.last().1)
    }
}

/// The map holds the entry's key with the entry's value.
pub open spec fn entry_in<V>(m: Map<Seq<char>, V>, e: (String, V)) -> bool {
    m.contains_key(e.0@) && m[e.0@] == e.1
}

proof fn lemma_key_less_props(a: Seq<char>, b: Seq<char>, c: Seq<char>)
    ensures
        key_less(a, b) ==> !key_less(b, a) && a != b,
        key_less(a, b) && key_less(b, c) ==> key_less(a, c),
        !key_less(a, b) && a != b ==> key_less(b, a),
{
    lemma_bytes_order_props(encode_utf8(a), encode_utf8(b), encode_utf8(c));
    vstd::utf8::encode_utf8_decode_utf8(a);
    vstd::utf8::encode_utf8_decode_utf8(b);
}

proof fn lemma_keyed_map_of_distinct<V>(s: Seq<(String, V)>)
    requires
        keys_increasing(s),
    ensures
        forall|i: int| 0 <= i < s.len() ==> entry_in(keyed_map(s), #[trigger] s[i]),
        forall|k: Seq<char>| #[trigger] keyed_map(s).contains_key(k) ==> exists|i: int| 0 <= i < s.len() && s[i].0@ == k,
    decreases s.len(),
{
    if s.len() > 0 {
        let p = s.drop_last();
        assert(keys_increasing(p));
        lemma_keyed_map_of_distinct(p);
        assert forall|i: int| 0 <= i < s.len() implies entry_in(keyed_map(s), #[trigger] s[i]) by {
            if i < s.len() - 1 {
                assert(p[i] == s[i]);
                assert(key_less(s[i].0@, s[s.len() - 1].0@));
                lemma_key_less_props(s[i].0@, s.last().0@, s.last().0@);
                assert(keyed_map(p).contains_key(p[i].0@));
            }
        }
        assert forall|k: Seq<char>| #[trigger] keyed_map(s).contains_key(k) implies exists|i: int| 0 <= i < s.len() && s[i].0@ == k by {
            if k != s.last().0@ {
                assert(keyed_map(p).contains_key(k));
                let i = choose|i: int| 0 <= i < p.len() && p[i].0@ == k;
                assert(s[i] == p[i]);
            } else {
                assert(s[s.len() - 1].0@ == k);
            }
        }
    }
}

proof fn lemma_keyed_map_ext<V>(a: Seq<(String, V)>, b: Seq<(String, V)>, m: Map<Seq<char>, V>)
    requires
        keys_increasing(a),
        keys_increasing(b),
        forall|i: int| 0 <= i < b.len() ==> entry_in(m, #[trigger] b[i]),
        forall|k: Seq<char>| #[trigger] m.contains_key(k) ==> exists|i: int| 0 <= i < b.len() && b[i].0@ == k,
    ensures
        keyed_map(b) == m,
{
    lemma_keyed_map_of_distinct(b);
    assert forall|k: Seq<char>| #[trigger] keyed_map(b).contains_key(k) <==> m.contains_key(k) by {
        if keyed_map(b).contains_key(k) {
            let i = choose|i: int| 0 <= i < b.len() && b[i].0@ == k;
        }
        if m.contains_key(k) {
            let i = choose|i: int| 0 <= i < b.len() && b[i].0@ == k;
        }
    }
    assert forall|k: Seq<char>| #[trigger] keyed_map(b).contains_key(k) implies keyed_map(b)[k] == m[k] by {
        let i = choose|i: int| 0 <= i < b.len() && b[i].0@ == k;
    }
    assert(keyed_map(b) =~= m);
}

/// Values by string key, kept in the order of their keys, as a `BTreeMap`
/// with `String` keys keeps them.
#[derive(Clone, Debug)]
pub struct IndexedValues<V> {
    entries: Vec<(String, V)>,
}

impl<V> View for IndexedValues<V> {
    type V = Map<Seq<char>, V>;

    closed spec fn view(&self) -> Map<Seq<char>, V> {
        keyed_map(self.entries@)
    }
}

impl<V> IndexedValues<V> {
    /// The entries hold each key once, in increasing order.
    pub closed spec fn wf(&self) -> bool {
        keys_increasing(self.entries@)
    }

    /// No entries.
    pub fn new() -> (m: IndexedValues<V>)
        ensures
            m@ == Map::<Seq<char>, V>::empty(),
            m.wf(),
    {
        IndexedValues { entries: Vec::new() }
    }

    /// Sets the value of a key, replacing the one it had.
    pub fn insert(&mut self, key: String, value: V)
        requires
            old(self).wf(),
        ensures
            final(self).wf(),
            final(self)@ == old(self)@.insert(key@, value),
    {
        let ghost s = self.entries@;
        let ghost m = keyed_map(s).insert(key@, value);
        proof {
            lemma_keyed_map_of_distinct(s);
        }
        let n = self.entries.len();
        let mut p: usize = 0;
        while p < n
            invariant
                n == s.len(),
                self.entries@ == s,
                keys_increasing(s),
                0 <= p <= n,
                forall|q: int| 0 <= q < p ==> key_less(#[trigger] s[q].0@, key@),
            ensures
                0 <= p <= n,
                self.entries@ == s,
                forall|q: int| 0 <= q < p ==> key_less(#[trigger] s[q].0@, key@),
                p < n ==> !key_less(s[p as int].0@, key@),
            decreases n - p,
        {
            if compare_text(self.entries[p].0.as_str(), key.as_str()) >= 0 {
                break;
            }
            p = p + 1;
        }
        if p < n && same_text(self.entries[p].0.as_str(), key.as_str()) {
            let _ = self.entries.remove(p);
            self.entries.insert(p, (key, value));
            proof {
                let t = self.entries@;
                assert(t == s.update(p as int, t[p as int]));
                assert forall|i: int, j: int| 0 <= i < j < t.len() implies key_less(t[i].0@, t[j].0@) by {
                    if i == p {
                        assert(t[j] == s[j]);
                    } else if j == p {
                        assert(t[i] == s[i]);
                    } else {
                        assert(t[i] == s[i] && t[j] == s[j]);
                    }
                }
                assert forall|i: int| 0 <= i < t.len() implies entry_in(m, #[trigger] t[i]) by {
                    if i != p {
                        assert(t[i] == s[i]);
                        lemma_key_less_props(s[i].0@, s[p as int].0@, key@);
                        lemma_key_less_props(s[p as int].0@, s[i].0@, key@);
                    }
                }
                assert forall|k: Seq<char>| #[trigger] m.contains_key(k) implies exists|i: int| 0 <= i < t.len() && t[i].0@ == k by {
                    if k == key@ {
                        assert(t[p as int].0@ == k);
                    } else {
                        let i = choose|i: int| 0 <= i < s.len() && s[i].0@ == k;
                        assert(t[i] == s[i]);
                    }
                }
                lemma_keyed_map_ext(s, t, m);
            }
        } else {
            self.entries.insert(p, (key, value));
            proof {
                let t = self.entries@;
                if p < n {
                    lemma_key_less_props(key@, s[p as int].0@, s[p as int].0@);
                }
                assert forall|i: int, j: int| 0 <= i < j < t.len() implies key_less(t[i].0@, t[j].0@) by {
                    if j < p {
                        assert(t[i] == s[i] && t[j] == s[j]);
                    } else if j == p {
                        assert(t[i] == s[i]);
                    } else if i == p {
                        assert(t[j] == s[j - 1]);
                        lemma_key_less_props(key@, s[p as int].0@, s[j - 1].0@);
                    } else if i < p {
                        assert(t[i] == s[i] && t[j] == s[j - 1]);
                    } else {
                        assert(t[i] == s[i - 1] && t[j] == s[j - 1]);
                    }
                }
                assert forall|i: int| 0 <= i < t.len() implies entry_in(m, #[trigger] t[i]) by {
                    if i < p {
                        assert(t[i] == s[i]);
                        lemma_key_less_props(s[i].0@, key@, key@);
                    } else if i > p {
                        assert(t[i] == s[i - 1]);
                        lemma_key_less_props(key@, s[p as int].0@, s[i - 1].0@);
                        lemma_key_less_props(key@, s[i - 1].0@, key@);
                    }
                }
                assert forall|k: Seq<char>| #[trigger] m.contains_key(k) implies exists|i: int| 0 <= i < t.len() && t[i].0@ == k by {
                    if k == key@ {
                        assert(t[p as int].0@ == k);
                    } else {
                        let i = choose|i: int| 0 <= i < s.len() && s[i].0@ == k;
                        if i < p {
                            assert(t[i] == s[i]);
                        } else {
                            assert(t[i + 1] == s[i]);
                        }
                    }
                }
                lemma_keyed_map_ext(s, t, m);
            }
        }
    }

    /// The value of a key.
    pub fn get(&self, key: &str) -> (v: Option<&V>)
        requires
            self.wf(),
        ensures
            match v {
                Some(x) => self@.contains_key(key@) && self@[key@] == *x,
                None => !self@.contains_key(key@),
            },
    {
        proof {
            lemma_keyed_map_of_distinct(self.entries@);
        }
        let n = self.entries.len();
        let mut i: usize = 0;
        while i < n
            invariant
                n == self.entries@.len(),
                keys_increasing(self.entries@),
                0 <= i <= n,
                forall|j: int| 0 <= j < i ==> #[trigger] self.entries@[j].0@ != key@,
            decreases n - i,
        {
            if same_text(self.entries[i].0.as_str(), key) {
                proof {
                    lemma_keyed_map_of_distinct(self.entries@);
                }
                assert(entry_in(keyed_map(self.entries@), self.entries@[i as int]));
                return Some(&self.entries[i].1);
            }
            i = i + 1;
        }
        None
    }

    /// The entries in increasing key order.
    pub fn entries(&self) -> (v: &Vec<(String, V)>)
        requires
            self.wf(),
        ensures
            keys_increasing(v@),
            keyed_map(v@) == self@,
    {
        &self.entries
    }
}

/// The keys of a list of entries, in increasing order, cover exactly the
/// keys of its map, each once.
pub proof fn lemma_entries_cover<V>(s: Seq<(String, V)>)
    requires
        keys_increasing(s),
    ensures
        forall|i: int| 0 <= i < s.len() ==> entry_in(keyed_map(s), #[trigger] s[i]),
        forall|k: Seq<char>| #[trigger] keyed_map(s).contains_key(k) ==> exists|i: int| 0 <= i < s.len() && s[i].0@ == k,
{
    lemma_keyed_map_of_distinct(s);
}

} // verus!
