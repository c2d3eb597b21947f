//! Input values and the name-ordered map that holds them.
//!
//! An input value is what a workflow input may hold: null, a boolean, a number, a
//! string, or a structured (array or object) value. Numbers and structured values are
//! carried in their canonical JSON text, which is also how they appear in a rendered
//! prompt.
use vstd::prelude::*;

use crate::text::chars_of;

verus! {

#[derive(Debug, Clone, PartialEq)]
pub enum InputValue {
    Null,
    Bool(bool),
    /// A number, in its JSON text.
    Number(String),
    String(String),
    /// An array or an object, in its JSON text.
    Composite(String),
}

pub enum InputValueView {
    Null,
    Bool(bool),
    Number(Seq<char>),
    String(Seq<char>),
    Composite(Seq<char>),
}

impl View for InputValue {
    type V = InputValueView;

    open spec fn view(&self) -> InputValueView {
        match self {
            InputValue::Null => InputValueView::Null,
            InputValue::Bool(b) => InputValueView::Bool(*b),
            InputValue::Number(n) => InputValueView::Number(n@),
            InputValue::String(s) => InputValueView::String(s@),
            InputValue::Composite(c) => InputValueView::Composite(c@),
        }
    }
}

impl InputValue {
    /// A copy of this value.
    pub fn duplicate(&self) -> (r: InputValue)
        ensures
            r@ == self@,
    {
        match self {
            InputValue::Null => InputValue::Null,
            InputValue::Bool(b) => InputValue::Bool(*b),
            InputValue::Number(n) => InputValue::Number(n.clone()),
            InputValue::String(s) => InputValue::String(s.clone()),
            InputValue::Composite(c) => InputValue::Composite(c.clone()),
        }
    }

    /// `Value::as_str`: the text of a string value.
    pub fn as_str(&self) -> (r: Option<&str>)
        ensures
            match self@ {
                InputValueView::String(s) => r is Some && r->0@ == s,
                _ => r is None,
            },
    {
        match self {
            InputValue::String(s) => Some(s.as_str()),
            _ => None,
        }
    }
}

/// `true` and `false` as JSON prints them.
pub open spec fn bool_text(b: bool) -> Seq<char> {
    if b {
        "true"@
    } else {
        "false"@
    }
}

/// Lexicographic order of strings by code point, which is the order of `String`.
pub open spec fn seq_lt(a: Seq<char>, b: Seq<char>) -> bool
    decreases a.len(),
{
    if a.len() == 0 {
        b.len() > 0
    } else if b.len() == 0 {
        false
    } else if a[0] < b[0] {
        true
    } else if a[0] == b[0] {
        seq_lt(a.drop_first(), b.drop_first())
    } else {
        false
    }
}

pub proof fn lemma_seq_lt_irreflexive(a: Seq<char>)
    ensures
        !seq_lt(a, a),
    decreases a.len(),
{
    if a.len() > 0 {
        lemma_seq_lt_irreflexive(a.drop_first());
    }
}

pub proof fn lemma_seq_lt_transitive(a: Seq<char>, b: Seq<char>, c: Seq<char>)
    requires
        seq_lt(a, b),
        seq_lt(b, c),
    ensures
        seq_lt(a, c),
    decreases a.len(),
{
    if a.len() > 0 && b.len() > 0 && c.len() > 0 {
        if a[0] == b[0] && b[0] == c[0] {
            lemma_seq_lt_transitive(a.drop_first(), b.drop_first(), c.drop_first());
        }
    }
}

pub proof fn lemma_seq_lt_total(a: Seq<char>, b: Seq<char>)
    ensures
        a == b || seq_lt(a, b) || seq_lt(b, a),
    decreases a.len(),
{
    if a.len() > 0 && b.len() > 0 {
        if a[0] == b[0] {
            lemma_seq_lt_total(a.drop_first(), b.drop_first());
            if a.drop_first() == b.drop_first() {
                assert(a =~= seq![a[0]] + a.drop_first());
                assert(b =~= seq![b[0]] + b.drop_first());
            }
        }
    } else if a.len() == 0 && b.len() == 0 {
        assert(a =~= b);
    }
}

pub proof fn lemma_seq_lt_asymmetric(a: Seq<char>, b: Seq<char>)
    requires
        seq_lt(a, b),
    ensures
        !seq_lt(b, a),
        a != b,
{
    if seq_lt(b, a) {
        lemma_seq_lt_transitive(a, b, a);
        lemma_seq_lt_irreflexive(a);
    }
    if a == b {
        lemma_seq_lt_irreflexive(a);
    }
}

/// Three-way comparison of character sequences: negative, zero or positive.
pub fn compare_chars(a: &Vec<char>, b: &Vec<char>) -> (r: i8)
    ensures
        r < 0 <==> seq_lt(a@, b@),
        r == 0 <==> a@ == b@,
        r > 0 <==> seq_lt(b@, a@),
{
    let mut i: usize = 0;
    assert(a@.skip(0) =~= a@);
    assert(b@.skip(0) =~= b@);
    while i < a.len() && i < b.len()
        invariant
            i <= a.len(),
            i <= b.len(),
            a@.subrange(0, i as int) == b@.subrange(0, i as int),
            seq_lt(a@, b@) == seq_lt(a@.skip(i as int), b@.skip(i as int)),
            seq_lt(b@, a@) == seq_lt(b@.skip(i as int), a@.skip(i as int)),
        decreases a.len() - i,
    {
        proof {
            assert(a@.skip(i as int).drop_first() =~= a@.skip(i + 1));
            assert(b@.skip(i as int).drop_first() =~= b@.skip(i + 1));
            assert(a@.skip(i as int)[0] == a@[i as int]);
            assert(b@.skip(i as int)[0] == b@[i as int]);
        }
        if a[i] != b[i] {
            if a[i] < b[i] {
                proof {
                    lemma_seq_lt_asymmetric(a@, b@);
                }
                return -1;
            } else {
                proof {
                    lemma_seq_lt_asymmetric(b@, a@);
                }
                return 1;
            }
        }
        assert(a@.subrange(0, i + 1) =~= a@.subrange(0, i as int).push(a@[i as int]));
        assert(b@.subrange(0, i + 1) =~= b@.subrange(0, i as int).push(b@[i as int]));
        i = i + 1;
    }
    if a.len() == b.len() {
        assert(a@ =~= a@.subrange(0, i as int));
        assert(b@ =~= b@.subrange(0, i as int));
        proof {
            lemma_seq_lt_irreflexive(a@);
        }
        0
    } else if a.len() < b.len() {
        proof {
            lemma_seq_lt_asymmetric(a@, b@);
        }
        -1
    } else {
        proof {
            lemma_seq_lt_asymmetric(b@, a@);
        }
        1
    }
}

pub type EntriesView = Seq<(Seq<char>, InputValueView)>;

/// Keys strictly increase along the entries.
pub open spec fn keys_sorted(s: EntriesView) -> bool {
    forall|i: int, j: int| 0 <= i < j < s.len() ==> seq_lt(#[trigger] s[i].0, #[trigger] s[j].0)
}

/// The value stored under `k`.
pub open spec fn map_get(s: EntriesView, k: Seq<char>) -> Option<InputValueView>
    decreases s.len(),
{
    if s.len() == 0 {
        None
    } else if s[0].0 == k {
        Some(s[0].1)
    } else {
        map_get(s.drop_first(), k)
    }
}

/// `BTreeMap::insert`: the entry for `k` is set to `v`, in key order.
pub open spec fn map_insert(s: EntriesView, k: Seq<char>, v: InputValueView) -> EntriesView
    decreases s.len(),
{
    if s.len() == 0 {
        seq![(k, v)]
    } else if s[0].0 == k {
        seq![(k, v)] + s.drop_first()
    } else if seq_lt(k, s[0].0) {
        seq![(k, v)] + s
    } else {
        seq![s[0]] + map_insert(s.drop_first(), k, v)
    }
}

/// `BTreeMap::remove`: the entry for `k` is dropped.
pub open spec fn map_remove(s: EntriesView, k: Seq<char>) -> EntriesView
    decreases s.len(),
{
    if s.len() == 0 {
        s
    } else if s[0].0 == k {
        s.drop_first()
    } else {
        seq![s[0]] + map_remove(s.drop_first(), k)
    }
}

/// Whether `k` is a key of the entries.
pub open spec fn map_contains(s: EntriesView, k: Seq<char>) -> bool {
    exists|i: int| 0 <= i < s.len() && #[trigger] s[i].0 == k
}

pub proof fn lemma_map_get_some(s: EntriesView, k: Seq<char>)
    ensures
        map_get(s, k) is Some <==> map_contains(s, k),
    decreases s.len(),
{
    if s.len() > 0 {
        let t = s.drop_first();
        lemma_map_get_some(t, k);
        if s[0].0 != k {
            if map_contains(s, k) {
                let i = choose|i: int| 0 <= i < s.len() && #[trigger] s[i].0 == k;
                assert(t[i - 1].0 == k);
            }
            if map_contains(t, k) {
                let i = choose|i: int| 0 <= i < t.len() && #[trigger] t[i].0 == k;
                assert(s[i + 1].0 == k);
            }
        } else {
            assert(s[0].0 == k);
        }
    }
}

pub proof fn lemma_map_get_first(s: EntriesView, k: Seq<char>, i: int)
    requires
        0 <= i < s.len(),
        s[i].0 == k,
        forall|j: int| 0 <= j < i ==> s[j].0 != k,
    ensures
        map_get(s, k) == Some(s[i].1),
    decreases s.len(),
{
    if i > 0 {
        let t = s.drop_first();
        assert forall|j: int| 0 <= j < i - 1 implies t[j].0 != k by {
            assert(t[j] == s[j + 1]);
        }
        lemma_map_get_first(t, k, i - 1);
    }
}

pub proof fn lemma_map_insert_sorted(s: EntriesView, k: Seq<char>, v: InputValueView)
    requires
        keys_sorted(s),
    ensures
        keys_sorted(map_insert(s, k, v)),
        map_insert(s, k, v).len() > 0,
        forall|i: int| 0 <= i < map_insert(s, k, v).len() ==> (#[trigger] map_insert(s, k, v)[i].0 == k || map_contains(s, map_insert(s, k, v)[i].0)),
        map_contains(map_insert(s, k, v), k),
    decreases s.len(),
{
    let r = map_insert(s, k, v);
    if s.len() == 0 {
        assert(r[0].0 == k);
    } else if s[0].0 == k {
        assert forall|i: int, j: int| 0 <= i < j < r.len() implies seq_lt(#[trigger] r[i].0, #[trigger] r[j].0) by {
            if i == 0 {
                assert(r[j] == s[j]);
            } else {
                assert(r[i] == s[i]);
                assert(r[j] == s[j]);
            }
        }
        assert forall|i: int| 0 <= i < r.len() implies (#[trigger] r[i].0 == k || map_contains(s, r[i].0)) by {
            if i > 0 {
                assert(r[i] == s[i]);
            }
        }
        assert(r[0].0 == k);
    } else if seq_lt(k, s[0].0) {
        assert forall|i: int, j: int| 0 <= i < j < r.len() implies seq_lt(#[trigger] r[i].0, #[trigger] r[j].0) by {
            if i == 0 {
                assert(r[j] == s[j - 1]);
                if j - 1 > 0 {
                    lemma_seq_lt_transitive(k, s[0].0, s[j - 1].0);
                }
            } else {
                assert(r[i] == s[i - 1]);
                assert(r[j] == s[j - 1]);
            }
        }
        assert forall|i: int| 0 <= i < r.len() implies (#[trigger] r[i].0 == k || map_contains(s, r[i].0)) by {
            if i > 0 {
                assert(r[i] == s[i - 1]);
            }
        }
        assert(r[0].0 == k);
    } else {
        let t = s.drop_first();
        lemma_map_insert_sorted(t, k, v);
        let rt = map_insert(t, k, v);
        assert(r == seq![s[0]] + rt);
        lemma_seq_lt_total(k, s[0].0);
        assert forall|i: int, j: int| 0 <= i < j < r.len() implies seq_lt(#[trigger] r[i].0, #[trigger] r[j].0) by {
            if i == 0 {
                assert(r[j] == rt[j - 1]);
                let e = rt[j - 1].0;
                if e == k {
                } else {
                    assert(map_contains(t, e));
                    let m = choose|m: int| 0 <= m < t.len() && #[trigger] t[m].0 == e;
                    assert(t[m] == s[m + 1]);
                }
            } else {
                assert(r[i] == rt[i - 1]);
                assert(r[j] == rt[j - 1]);
            }
        }
        assert forall|i: int| 0 <= i < r.len() implies (#[trigger] r[i].0 == k || map_contains(s, r[i].0)) by {
            if i > 0 {
                assert(r[i] == rt[i - 1]);
                let e = rt[i - 1].0;
                if e != k {
                    assert(map_contains(t, e));
                    let m = choose|m: int| 0 <= m < t.len() && #[trigger] t[m].0 == e;
                    assert(s[m + 1].0 == e);
                }
            } else {
                assert(s[0].0 == r[0].0);
            }
        }
        let m = choose|m: int| 0 <= m < rt.len() && #[trigger] rt[m].0 == k;
        assert(r[m + 1].0 == k);
    }
}

pub proof fn lemma_map_remove_sorted(s: EntriesView, k: Seq<char>)
    requires
        keys_sorted(s),
    ensures
        keys_sorted(map_remove(s, k)),
        forall|i: int| 0 <= i < map_remove(s, k).len() ==> map_contains(s, #[trigger] map_remove(s, k)[i].0),
    decreases s.len(),
{
    let r = map_remove(s, k);
    if s.len() == 0 {
    } else if s[0].0 == k {
        assert forall|i: int, j: int| 0 <= i < j < r.len() implies seq_lt(#[trigger] r[i].0, #[trigger] r[j].0) by {
            assert(r[i] == s[i + 1]);
            assert(r[j] == s[j + 1]);
        }
        assert forall|i: int| 0 <= i < r.len() implies map_contains(s, #[trigger] r[i].0) by {
            assert(r[i] == s[i + 1]);
        }
    } else {
        let t = s.drop_first();
        lemma_map_remove_sorted(t, k);
        let rt = map_remove(t, k);
        assert(r == seq![s[0]] + rt);
        assert forall|i: int, j: int| 0 <= i < j < r.len() implies seq_lt(#[trigger] r[i].0, #[trigger] r[j].0) by {
            if i == 0 {
                assert(r[j] == rt[j - 1]);
                let e = rt[j - 1].0;
                assert(map_contains(t, e));
                let m = choose|m: int| 0 <= m < t.len() && #[trigger] t[m].0 == e;
                assert(t[m] == s[m + 1]);
            } else {
                assert(r[i] == rt[i - 1]);
                assert(r[j] == rt[j - 1]);
            }
        }
        assert forall|i: int| 0 <= i < r.len() implies map_contains(s, #[trigger] r[i].0) by {
            if i > 0 {
                assert(r[i] == rt[i - 1]);
                let e = rt[i - 1].0;
                assert(map_contains(t, e));
                let m = choose|m: int| 0 <= m < t.len() && #[trigger] t[m].0 == e;
                assert(s[m + 1].0 == e);
            } else {
                assert(s[0].0 == r[0].0);
            }
        }
    }
}

/// `names` lists a string equal to `k`.
pub open spec fn name_listed(names: Seq<String>, k: Seq<char>) -> bool {
    exists|i: int| 0 <= i < names.len() && #[trigger] names[i]@ == k
}

/// The strings of `names`, as a set.
pub open spec fn names_set(names: Seq<String>) -> Set<Seq<char>> {
    Set::new(|k: Seq<char>| name_listed(names, k))
}

/// The entries with the value of every key in `keys` replaced by `v`.
pub open spec fn replace_listed(s: EntriesView, keys: Set<Seq<char>>, v: InputValueView) -> EntriesView {
    s.map_values(
        |e: (Seq<char>, InputValueView)|
            if keys.contains(e.0) {
                (e.0, v)
            } else {
                e
            },
    )
}

/// Whether `names` lists a string equal to `k`.
pub fn string_listed(names: &Vec<String>, k: &String) -> (r: bool)
    ensures
        r == name_listed(names@, k@),
{
    let mut i: usize = 0;
    while i < names.len()
        invariant
            i <= names.len(),
            forall|j: int| 0 <= j < i ==> names@[j]@ != k@,
        decreases names.len() - i,
    {
        if names[i] == *k {
            return true;
        }
        i = i + 1;
    }
    false
}

/// A map from input names to values, kept in name order (the order of `BTreeMap`).
#[derive(Debug, PartialEq)]
pub struct ValueMap {
    entries: Vec<(String, InputValue)>,
}

pub open spec fn entry_view(e: (String, InputValue)) -> (Seq<char>, InputValueView) {
    (e.0@, e.1@)
}

pub open spec fn entries_view(s: Seq<(String, InputValue)>) -> EntriesView {
    s.map_values(|e: (String, InputValue)| entry_view(e))
}

proof fn lemma_entries_view_update(s: Seq<(String, InputValue)>, i: int, e: (String, InputValue))
    requires
        0 <= i < s.len(),
    ensures
        entries_view(s.update(i, e)) == entries_view(s).update(i, entry_view(e)),
{
    assert(entries_view(s.update(i, e)) =~= entries_view(s).update(i, entry_view(e)));
}

proof fn lemma_entries_view_insert(s: Seq<(String, InputValue)>, i: int, e: (String, InputValue))
    requires
        0 <= i <= s.len(),
    ensures
        entries_view(s.insert(i, e)) == entries_view(s).insert(i, entry_view(e)),
{
    assert(entries_view(s.insert(i, e)) =~= entries_view(s).insert(i, entry_view(e)));
}

proof fn lemma_entries_view_remove(s: Seq<(String, InputValue)>, i: int)
    requires
        0 <= i < s.len(),
    ensures
        entries_view(s.remove(i)) == entries_view(s).remove(i),
{
    assert(entries_view(s.remove(i)) =~= entries_view(s).remove(i));
}

impl View for ValueMap {
    type V = EntriesView;

    closed spec fn view(&self) -> EntriesView {
        entries_view(self.entries@)
    }
}

impl ValueMap {
    #[verifier::type_invariant]
    closed spec fn well_ordered(self) -> bool {
        keys_sorted(self@)
    }

    /// An empty map.
    pub fn new() -> (m: ValueMap)
        ensures
            m@ == Seq::<(Seq<char>, InputValueView)>::empty(),
    {
        let entries: Vec<(String, InputValue)> = Vec::new();
        assert(entries_view(entries@) =~= Seq::<(Seq<char>, InputValueView)>::empty());
        ValueMap { entries }
    }

    /// The number of entries.
    pub fn len(&self) -> (n: usize)
        ensures
            n == self@.len(),
    {
        self.entries.len()
    }

    /// The key of the entry at position `i`, in key order.
    pub fn key_at(&self, i: usize) -> (k: &String)
        requires
            i < self@.len(),
        ensures
            k@ == self@[i as int].0,
    {
        &self.entries[i].0
    }

    /// The value of the entry at position `i`, in key order.
    pub fn value_at(&self, i: usize) -> (v: &InputValue)
        requires
            i < self@.len(),
        ensures
            v@ == self@[i as int].1,
    {
        &self.entries[i].1
    }

    /// The position of the entry for `key`, if any.
    fn position(&self, key: &str) -> (r: Option<usize>)
        ensures
            match r {
                Some(i) => i < self@.len() && self@[i as int].0 == key@ && forall|j: int|
                    0 <= j < i ==> self@[j].0 != key@,
                None => !map_contains(self@, key@),
            },
    {
        let k = key.to_owned();
        let mut i: usize = 0;
        while i < self.entries.len()
            invariant
                k@ == key@,
                i <= self.entries.len(),
                self@.len() == self.entries@.len(),
                forall|j: int| 0 <= j < i ==> self@[j].0 != key@,
            decreases self.entries.len() - i,
        {
            assert(self@[i as int] == entry_view(self.entries@[i as int]));
            if self.entries[i].0 == k {
                return Some(i);
            }
            i = i + 1;
        }
        None
    }

    /// The value stored under `key`.
    pub fn get(&self, key: &str) -> (r: Option<&InputValue>)
        ensures
            match r {
                Some(v) => map_get(self@, key@) == Some(v@),
                None => map_get(self@, key@) is None,
            },
    {
        proof {
            lemma_map_get_some(self@, key@);
        }
        match self.position(key) {
            Some(i) => {
                assert(self@[i as int] == entry_view(self.entries@[i as int]));
                proof {
                    lemma_map_get_first(self@, key@, i as int);
                }
                Some(&self.entries[i].1)
            },
            None => None,
        }
    }

    /// Stores `value` under `key`, replacing any earlier value.
    pub fn insert(&mut self, key: String, value: InputValue)
        ensures
            final(self)@ == map_insert(old(self)@, key@, value@),
    {
        proof {
            use_type_invariant(&*self);
        }
        let ghost old_view = self@;
        let ghost new_view = map_insert(old_view, key@, value@);
        proof {
            lemma_map_insert_sorted(old_view, key@, value@);
        }
        let kc = chars_of(key.as_str());
        let mut entries: Vec<(String, InputValue)> = Vec::new();
        std::mem::swap(&mut entries, &mut self.entries);
        let mut i: usize = 0;
        // Find the first entry whose key is not below `key`.
        while i < entries.len()
            invariant
                kc@ == key@,
                old_view == entries_view(entries@),
                keys_sorted(old_view),
                i <= entries.len(),
                forall|j: int| 0 <= j < i ==> seq_lt(#[trigger] old_view[j].0, key@),
            ensures
                i <= entries.len(),
                forall|j: int| 0 <= j < i ==> seq_lt(#[trigger] old_view[j].0, key@),
                i < entries.len() ==> !seq_lt(old_view[i as int].0, key@),
            decreases entries.len() - i,
        {
            assert(old_view[i as int] == entry_view(entries@[i as int]));
            let ec = chars_of(entries[i].0.as_str());
            let c = compare_chars(&ec, &kc);
            if c >= 0 {
                break;
            }
            i = i + 1;
        }
        proof {
            lemma_map_insert_at(old_view, key@, value@, i as int);
        }
        let ghost before = entries@;
        let mut same = false;
        if i < entries.len() {
            assert(old_view[i as int] == entry_view(entries@[i as int]));
            same = entries[i].0 == key;
        }
        if same {
            let ghost e = (key, value);
            entries.set(i, (key, value));
            proof {
                lemma_entries_view_update(before, i as int, e);
            }
        } else {
            let ghost e = (key, value);
            entries.insert(i, (key, value));
            proof {
                lemma_entries_view_insert(before, i as int, e);
            }
        }
        assert(entries_view(entries@) == new_view);
        self.entries = entries;
    }

    /// Removes the entry for `key` and returns its value.
    pub fn remove(&mut self, key: &str) -> (r: Option<InputValue>)
        ensures
            match r {
                Some(v) => map_get(old(self)@, key@) == Some(v@),
                None => map_get(old(self)@, key@) is None,
            },
            final(self)@ == map_remove(old(self)@, key@),
    {
        proof {
            use_type_invariant(&*self);
            lemma_map_get_some(self@, key@);
            lemma_map_remove_sorted(self@, key@);
        }
        let ghost old_view = self@;
        match self.position(key) {
            Some(i) => {
                proof {
                    lemma_map_remove_at(old_view, key@, i as int);
                }
                let mut entries: Vec<(String, InputValue)> = Vec::new();
                std::mem::swap(&mut entries, &mut self.entries);
                let ghost before = entries@;
                let (_, v) = entries.remove(i);
                proof {
                    lemma_entries_view_remove(before, i as int);
                }
                assert(before[i as int].1@ == v@);
                assert(old_view[i as int] == entry_view(before[i as int]));
                proof {
                    lemma_map_get_first(old_view, key@, i as int);
                }
                self.entries = entries;
                Some(v)
            },
            None => {
                proof {
                    lemma_map_remove_absent(old_view, key@);
                }
                None
            },
        }
    }

    /// A copy of this map in which the value of every key listed in `names` is
    /// replaced by `replacement`.
    pub fn with_listed_replaced(&self, names: &Vec<String>, replacement: &InputValue) -> (r:
        ValueMap)
        ensures
            r@ == replace_listed(self@, names_set(names@), replacement@),
    {
        proof {
            use_type_invariant(self);
        }
        let ghost target = replace_listed(self@, names_set(names@), replacement@);
        let mut entries: Vec<(String, InputValue)> = Vec::new();
        let mut i: usize = 0;
        while i < self.entries.len()
            invariant
                target == replace_listed(self@, names_set(names@), replacement@),
                keys_sorted(self@),
                i <= self.entries.len(),
                self@.len() == self.entries@.len(),
                entries_view(entries@) =~= target.subrange(0, i as int),
            decreases self.entries.len() - i,
        {
            assert(self@[i as int] == entry_view(self.entries@[i as int]));
            let k = self.entries[i].0.clone();
            let listed = string_listed(names, &k);
            let v = if listed {
                replacement.duplicate()
            } else {
                self.entries[i].1.duplicate()
            };
            let ghost prev = entries@;
            entries.push((k, v));
            assert(entries_view(entries@) =~= entries_view(prev).push(entry_view((k, v))));
            i = i + 1;
        }
        assert(target.len() == self@.len());
        assert(entries_view(entries@) =~= target);
        assert(keys_sorted(target)) by {
            assert forall|a: int, b: int| 0 <= a < b < target.len() implies seq_lt(
                #[trigger] target[a].0,
                #[trigger] target[b].0,
            ) by {
                assert(target[a].0 == self@[a].0);
                assert(target[b].0 == self@[b].0);
            }
        }
        ValueMap { entries }
    }

    /// A copy of this map.
    pub fn duplicate(&self) -> (r: ValueMap)
        ensures
            r@ == self@,
    {
        proof {
            use_type_invariant(self);
        }
        let mut entries: Vec<(String, InputValue)> = Vec::new();
        let mut i: usize = 0;
        while i < self.entries.len()
            invariant
                i <= self.entries.len(),
                self@.len() == self.entries@.len(),
                entries_view(entries@) =~= self@.subrange(0, i as int),
            decreases self.entries.len() - i,
        {
            assert(self@[i as int] == entry_view(self.entries@[i as int]));
            let k = self.entries[i].0.clone();
            let v = self.entries[i].1.duplicate();
            let ghost prev = entries@;
            entries.push((k, v));
            assert(entries_view(entries@) =~= entries_view(prev).push(entry_view((k, v))));
            i = i + 1;
        }
        ValueMap { entries }
    }
}

proof fn lemma_map_insert_at(s: EntriesView, k: Seq<char>, v: InputValueView, i: int)
    requires
        keys_sorted(s),
        0 <= i <= s.len(),
        forall|j: int| 0 <= j < i ==> seq_lt(#[trigger] s[j].0, k),
        i < s.len() ==> !seq_lt(s[i].0, k),
    ensures
        i < s.len() && s[i].0 == k ==> map_insert(s, k, v) == s.update(i, (k, v)),
        !(i < s.len() && s[i].0 == k) ==> map_insert(s, k, v) == s.insert(i, (k, v)),
    decreases s.len(),
{
    if s.len() == 0 {
        assert(s.insert(i, (k, v)) =~= seq![(k, v)]);
    } else if i == 0 {
        if s[0].0 == k {
            assert(s.update(0, (k, v)) =~= seq![(k, v)] + s.drop_first());
        } else {
            lemma_seq_lt_total(k, s[0].0);
            assert(s.insert(0, (k, v)) =~= seq![(k, v)] + s);
        }
    } else {
        lemma_seq_lt_asymmetric(s[0].0, k);
        let t = s.drop_first();
        assert forall|j: int, l: int| 0 <= j < l < t.len() implies seq_lt(#[trigger] t[j].0, #[trigger] t[l].0) by {
            assert(t[j] == s[j + 1]);
            assert(t[l] == s[l + 1]);
        }
        assert forall|j: int| 0 <= j < i - 1 implies seq_lt(#[trigger] t[j].0, k) by {
            assert(t[j] == s[j + 1]);
        }
        lemma_map_insert_at(t, k, v, i - 1);
        if i < s.len() && s[i].0 == k {
            assert(s.update(i, (k, v)) =~= seq![s[0]] + t.update(i - 1, (k, v)));
        } else {
            assert(s.insert(i, (k, v)) =~= seq![s[0]] + t.insert(i - 1, (k, v)));
        }
    }
}

proof fn lemma_map_remove_at(s: EntriesView, k: Seq<char>, i: int)
    requires
        0 <= i < s.len(),
        s[i].0 == k,
        forall|j: int| 0 <= j < i ==> s[j].0 != k,
    ensures
        map_remove(s, k) == s.remove(i),
    decreases s.len(),
{
    if i == 0 {
        assert(s.remove(0) =~= s.drop_first());
    } else {
        let t = s.drop_first();
        assert forall|j: int| 0 <= j < i - 1 implies t[j].0 != k by {
            assert(t[j] == s[j + 1]);
        }
        lemma_map_remove_at(t, k, i - 1);
        assert(s.remove(i) =~= seq![s[0]] + t.remove(i - 1));
    }
}

proof fn lemma_map_remove_absent(s: EntriesView, k: Seq<char>)
    requires
        !map_contains(s, k),
    ensures
        map_remove(s, k) == s,
    decreases s.len(),
{
    if s.len() > 0 {
        assert(s[0].0 != k);
        let t = s.drop_first();
        assert(!map_contains(t, k)) by {
            if map_contains(t, k) {
                let m = choose|m: int| 0 <= m < t.len() && #[trigger] t[m].0 == k;
                assert(s[m + 1].0 == k);
            }
        }
        lemma_map_remove_absent(t, k);
        assert(seq![s[0]] + t =~= s);
    }
}

} // verus!
