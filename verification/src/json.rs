use vstd::prelude::*;
use crate::text::{
    lemma_seq_lt_asymmetric, lemma_seq_lt_irreflexive, lemma_seq_lt_total, lemma_seq_lt_transitive,
    parse_i64, parse_i64_spec, push_char, seq_lt, str_eq, str_lt,
};

verus! {

/// A JSON document as the library reads and builds it.
///
/// Numbers are held by their decimal text; object members are kept in
/// ascending order of their keys, each key at most once.
#[derive(Debug)]
pub enum Json {
    Null,
    Bool(bool),
    Number(String),
    Str(String),
    Array(Vec<Json>),
    Object(Vec<(String, Json)>),
}

/// The mathematical value of a [`Json`] document.
pub enum JsonV {
    Null,
    Bool(bool),
    Number(Seq<char>),
    Str(Seq<char>),
    Array(Seq<JsonV>),
    Object(Seq<(Seq<char>, JsonV)>),
}

pub open spec fn views(s: Seq<Json>) -> Seq<JsonV>
    decreases s,
{
    if s.len() == 0 {
        Seq::empty()
    } else {
        views(s.drop_last()).push(s.last().view_json())
    }
}

pub open spec fn member_views(s: Seq<(String, Json)>) -> Seq<(Seq<char>, JsonV)>
    decreases s,
{
    if s.len() == 0 {
        Seq::empty()
    } else {
        member_views(s.drop_last()).push((s.last().0@, s.last().1.view_json()))
    }
}

impl Json {
    pub open spec fn view_json(&self) -> JsonV
        decreases self,
    {
        match self {
            Json::Null => JsonV::Null,
            Json::Bool(b) => JsonV::Bool(*b),
            Json::Number(n) => JsonV::Number(n@),
            Json::Str(s) => JsonV::Str(s@),
            Json::Array(v) => JsonV::Array(views(v@)),
            Json::Object(m) => JsonV::Object(member_views(m@)),
        }
    }
}


pub proof fn lemma_views(s: Seq<Json>)
    ensures
        views(s).len() == s.len(),
        forall|i: int| 0 <= i < s.len() ==> #[trigger] views(s)[i] == s[i].view_json(),
    decreases s.len(),
{
    if s.len() > 0 {
        lemma_views(s.drop_last());
    }
}

pub proof fn lemma_member_views(s: Seq<(String, Json)>)
    ensures
        member_views(s).len() == s.len(),
        forall|i: int|
            0 <= i < s.len() ==> #[trigger] member_views(s)[i] == (s[i].0@, s[i].1.view_json()),
    decreases s.len(),
{
    if s.len() > 0 {
        lemma_member_views(s.drop_last());
    }
}

/// Keys strictly ascending: each key at most once, in `str` order.
pub open spec fn keys_sorted(m: Seq<(Seq<char>, JsonV)>) -> bool {
    forall|i: int, j: int| 0 <= i < j < m.len() ==> seq_lt(#[trigger] m[i].0, #[trigger] m[j].0)
}

/// The value of the last member named `key`; with sorted keys, the only one.
pub open spec fn lookup(m: Seq<(Seq<char>, JsonV)>, key: Seq<char>) -> Option<JsonV>
    decreases m.len(),
{
    if m.len() == 0 {
        None
    } else if m.last().0 == key {
        Some(m.last().1)
    } else {
        lookup(m.drop_last(), key)
    }
}

pub proof fn lemma_lookup_absent(m: Seq<(Seq<char>, JsonV)>, key: Seq<char>)
    requires
        forall|i: int| 0 <= i < m.len() ==> (#[trigger] m[i]).0 != key,
    ensures
        lookup(m, key) is None,
    decreases m.len(),
{
    if m.len() > 0 {
        assert(m[m.len() - 1].0 != key);
        lemma_lookup_absent(m.drop_last(), key);
    }
}

pub proof fn lemma_lookup_at(m: Seq<(Seq<char>, JsonV)>, key: Seq<char>, i: int)
    requires
        keys_sorted(m),
        0 <= i < m.len(),
        m[i].0 == key,
    ensures
        lookup(m, key) == Some(m[i].1),
    decreases m.len(),
{
    if i < m.len() - 1 {
        assert(seq_lt(m[i].0, m[m.len() - 1].0));
        if m.last().0 == key {
            lemma_seq_lt_irreflexive(key);
        }
        let d = m.drop_last();
        assert(d[i] == m[i]);
        assert forall|a: int, b: int| 0 <= a < b < d.len() implies seq_lt(#[trigger] d[a].0, #[trigger] d[b].0) by {
            assert(d[a] == m[a] && d[b] == m[b]);
        }
        lemma_lookup_at(d, key, i);
    }
}

impl JsonV {
    /// Every object inside has its keys strictly ascending.
    pub open spec fn wf(self) -> bool
        decreases self,
    {
        match self {
            JsonV::Array(items) => forall|i: int| 0 <= i < items.len() ==> (#[trigger] items[i]).wf(),
            JsonV::Object(m) => keys_sorted(m) && forall|i: int|
                0 <= i < m.len() ==> (#[trigger] m[i]).1.wf(),
            _ => true,
        }
    }

    /// The value under `key` of an object (`Value::get` with a string key).
    pub open spec fn get(self, key: Seq<char>) -> Option<JsonV> {
        match self {
            JsonV::Object(m) => lookup(m, key),
            _ => None,
        }
    }

    /// The text of a string value (`Value::as_str`).
    pub open spec fn as_str(self) -> Option<Seq<char>> {
        match self {
            JsonV::Str(s) => Some(s),
            _ => None,
        }
    }

    /// The text held under `key`, when it is a string (`v.get(key).and_then(as_str)`).
    pub open spec fn str_field(self, key: Seq<char>) -> Option<Seq<char>> {
        match self.get(key) {
            Some(v) => v.as_str(),
            None => None,
        }
    }

    /// The items of an array (`Value::as_array`).
    pub open spec fn as_array(self) -> Option<Seq<JsonV>> {
        match self {
            JsonV::Array(a) => Some(a),
            _ => None,
        }
    }

    pub open spec fn is_object(self) -> bool {
        self is Object
    }
}

impl Json {
    /// Looks up `key` in an object; `None` for a missing key or a non-object.
    pub fn get(&self, key: &str) -> (r: Option<&Json>)
        ensures
            match r {
                Some(v) => self.view_json().get(key@) == Some(v.view_json()),
                None => self.view_json().get(key@) is None,
            },
    {
        match self {
            Json::Object(m) => {
                proof {
                    lemma_member_views(m@);
                }
                let ghost mv = member_views(m@);
                assert(self.view_json() == JsonV::Object(mv));
                let mut i: usize = m.len();
                assert(mv.take(m.len() as int) =~= mv);
                while i > 0
                    invariant
                        i <= m.len(),
                        mv == member_views(m@),
                        self.view_json() == JsonV::Object(mv),
                        mv.len() == m.len(),
                        forall|j: int| 0 <= j < m.len() ==> #[trigger] mv[j] == (m@[j].0@, m@[j].1.view_json()),
                        lookup(mv, key@) == lookup(mv.take(i as int), key@),
                    decreases i,
                {
                    let ghost t = mv.take(i as int);
                    assert(t.drop_last() =~= mv.take(i - 1));
                    assert(t.last() == mv[i - 1]);
                    if str_eq(m[i - 1].0.as_str(), key) {
                        return Some(&m[i - 1].1);
                    }
                    i = i - 1;
                }
                None
            },
            _ => None,
        }
    }

    /// The text of a string value.
    pub fn as_str(&self) -> (r: Option<&str>)
        ensures
            match r {
                Some(s) => self.view_json().as_str() == Some(s@),
                None => self.view_json().as_str() is None,
            },
    {
        match self {
            Json::Str(s) => Some(s.as_str()),
            _ => None,
        }
    }

    /// The text under `key`, when the value there is a string.
    pub fn str_field(&self, key: &str) -> (r: Option<&str>)
        ensures
            match r {
                Some(s) => self.view_json().str_field(key@) == Some(s@),
                None => self.view_json().str_field(key@) is None,
            },
    {
        match self.get(key) {
            Some(v) => v.as_str(),
            None => None,
        }
    }

    /// The items of an array value.
    pub fn as_array(&self) -> (r: Option<&Vec<Json>>)
        ensures
            match r {
                Some(a) => self.view_json().as_array() == Some(views(a@)),
                None => self.view_json().as_array() is None,
            },
    {
        match self {
            Json::Array(a) => Some(a),
            _ => None,
        }
    }

    pub fn is_object(&self) -> (r: bool)
        ensures
            r == self.view_json().is_object(),
    {
        match self {
            Json::Object(_) => true,
            _ => false,
        }
    }
}


/// The members after `insert(key, value)` on a map ordered by key: `key`
/// maps to `value`, every other key keeps its value, keys stay ascending.
pub open spec fn inserted(
    old: Seq<(Seq<char>, JsonV)>,
    new: Seq<(Seq<char>, JsonV)>,
    key: Seq<char>,
    value: JsonV,
) -> bool {
    &&& keys_sorted(new)
    &&& lookup(new, key) == Some(value)
    &&& forall|k: Seq<char>| k != key ==> lookup(new, k) == lookup(old, k)
}

/// A sorted member list is determined by what it maps each key to.
pub proof fn lemma_lookup_index(m: Seq<(Seq<char>, JsonV)>, k: Seq<char>)
    requires
        keys_sorted(m),
    ensures
        lookup(m, k) is Some <==> exists|i: int| 0 <= i < m.len() && (#[trigger] m[i]).0 == k,
        forall|i: int| 0 <= i < m.len() && (#[trigger] m[i]).0 == k ==> lookup(m, k) == Some(m[i].1),
{
    assert forall|i: int| 0 <= i < m.len() && (#[trigger] m[i]).0 == k implies lookup(m, k) == Some(m[i].1) by {
        lemma_lookup_at(m, k, i);
    }
    if !(exists|i: int| 0 <= i < m.len() && (#[trigger] m[i]).0 == k) {
        lemma_lookup_absent(m, k);
    }
}

/// Inserts `key` with `value` into members kept in ascending key order,
/// replacing the value of an equal key (`Map::insert`).
pub fn insert_member(m: &mut Vec<(String, Json)>, key: String, value: Json)
    requires
        keys_sorted(member_views(old(m)@)),
    ensures
        member_views(final(m)@) == ins(member_views(old(m)@), key@, value.view_json()),
        forall|i: int| 0 <= i < final(m)@.len() ==> (#[trigger] final(m)@[i]).1 == value || exists|j: int|
            0 <= j < old(m)@.len() && final(m)@[i].1 == (#[trigger] old(m)@[j]).1,
{
    let ghost om = member_views(m@);
    proof {
        lemma_member_views(m@);
    }
    let mut i: usize = 0;
    while i < m.len() && str_lt(m[i].0.as_str(), key.as_str())
        invariant
            i <= m.len(),
            m@ == old(m)@,
            om == member_views(m@),
            om.len() == m@.len(),
            forall|j: int| 0 <= j < m@.len() ==> #[trigger] om[j] == (m@[j].0@, m@[j].1.view_json()),
            forall|j: int| 0 <= j < i ==> seq_lt((#[trigger] om[j]).0, key@),
        decreases m.len() - i,
    {
        i = i + 1;
    }
    let ghost vv = value.view_json();
    let ghost kk = key@;
    if i < m.len() && str_eq(m[i].0.as_str(), key.as_str()) {
        let ghost old_m = m@;
        let mut owned = Vec::new();
        std::mem::swap(&mut owned, m);
        let _ = owned.remove(i);
        owned.insert(i, (key, value));
        std::mem::swap(&mut owned, m);
        proof {
            lemma_member_views(m@);
            let nm = member_views(m@);
            assert(m@ =~= old_m.update(i as int, m@[i as int]));
            assert forall|a: int| 0 <= a < nm.len() implies #[trigger] nm[a] == if a == i { (kk, vv) } else { om[a] } by {}
            assert forall|a: int, b: int| 0 <= a < b < nm.len() implies seq_lt(#[trigger] nm[a].0, #[trigger] nm[b].0) by {
                assert(om[a].0 == nm[a].0 && om[b].0 == nm[b].0);
            }
            lemma_lookup_index(nm, kk);
            assert(nm[i as int].0 == kk);
            assert forall|k: Seq<char>| k != kk implies lookup(nm, k) == lookup(om, k) by {
                lemma_lookup_index(nm, k);
                lemma_lookup_index(om, k);
                if exists|a: int| 0 <= a < om.len() && (#[trigger] om[a]).0 == k {
                    let a = choose|a: int| 0 <= a < om.len() && (#[trigger] om[a]).0 == k;
                    assert(nm[a].0 == k);
                } else if exists|a: int| 0 <= a < nm.len() && (#[trigger] nm[a]).0 == k {
                    let a = choose|a: int| 0 <= a < nm.len() && (#[trigger] nm[a]).0 == k;
                    assert(om[a].0 == k);
                }
            }
            assert forall|a: int| 0 <= a < m@.len() implies (#[trigger] m@[a]).1 == value || exists|j: int|
                0 <= j < old_m.len() && m@[a].1 == (#[trigger] old_m[j]).1 by {
                if a != i {
                    assert(m@[a] == old_m[a]);
                }
            }
        }
    } else {
        let ghost old_m = m@;
        proof {
            if i < m.len() {
                lemma_seq_lt_total(om[i as int].0, kk);
            }
        }
        m.insert(i, (key, value));
        proof {
            lemma_member_views(m@);
            let nm = member_views(m@);
            assert forall|a: int| 0 <= a < nm.len() implies #[trigger] nm[a] == if a < i {
                om[a]
            } else if a == i {
                (kk, vv)
            } else {
                om[a - 1]
            } by {}
            assert forall|a: int, b: int| 0 <= a < b < nm.len() implies seq_lt(#[trigger] nm[a].0, #[trigger] nm[b].0) by {
                if a < i && b < i {
                    assert(seq_lt(om[a].0, om[b].0));
                } else if a < i && b == i {
                } else if a < i && b > i {
                    assert(seq_lt(om[a].0, om[b - 1].0));
                } else if a == i && b > i {
                    if b - 1 > i {
                        assert(seq_lt(om[i as int].0, om[b - 1].0));
                        lemma_seq_lt_transitive(kk, om[i as int].0, om[b - 1].0);
                    }
                } else {
                    assert(seq_lt(om[a - 1].0, om[b - 1].0));
                }
            }
            lemma_lookup_index(nm, kk);
            assert(nm[i as int].0 == kk);
            assert forall|k: Seq<char>| k != kk implies lookup(nm, k) == lookup(om, k) by {
                lemma_lookup_index(nm, k);
                lemma_lookup_index(om, k);
                if exists|a: int| 0 <= a < om.len() && (#[trigger] om[a]).0 == k {
                    let a = choose|a: int| 0 <= a < om.len() && (#[trigger] om[a]).0 == k;
                    if a < i {
                        assert(nm[a].0 == k);
                    } else {
                        assert(nm[a + 1].0 == k);
                    }
                } else if exists|a: int| 0 <= a < nm.len() && (#[trigger] nm[a]).0 == k {
                    let a = choose|a: int| 0 <= a < nm.len() && (#[trigger] nm[a]).0 == k;
                    if a < i {
                        assert(om[a].0 == k);
                    } else {
                        assert(om[a - 1].0 == k);
                    }
                }
            }
            assert forall|a: int| 0 <= a < m@.len() implies (#[trigger] m@[a]).1 == value || exists|j: int|
                0 <= j < old_m.len() && m@[a].1 == (#[trigger] old_m[j]).1 by {
                if a < i {
                    assert(m@[a] == old_m[a]);
                } else if a > i {
                    assert(m@[a] == old_m[a - 1]);
                }
            }
        }
    }
    proof {
        let nm = member_views(m@);
        lemma_ins(om, kk, vv);
        let r = ins(om, kk, vv);
        assert forall|k: Seq<char>| lookup(nm, k) == lookup(r, k) by {}
        lemma_sorted_unique(nm, r);
    }
}


/// The members after inserting `key` with `value` into members in ascending
/// key order (`BTreeMap::insert`).
pub open spec fn ins(m: Seq<(Seq<char>, JsonV)>, key: Seq<char>, value: JsonV) -> Seq<(Seq<char>, JsonV)>
    decreases m.len(),
{
    if m.len() == 0 {
        seq![(key, value)]
    } else if m.last().0 == key {
        m.drop_last().push((key, value))
    } else if seq_lt(m.last().0, key) {
        m.push((key, value))
    } else {
        ins(m.drop_last(), key, value).push(m.last())
    }
}

proof fn lemma_sorted_drop_last(m: Seq<(Seq<char>, JsonV)>)
    requires
        keys_sorted(m),
        m.len() > 0,
    ensures
        keys_sorted(m.drop_last()),
        forall|i: int| 0 <= i < m.len() - 1 ==> seq_lt((#[trigger] m.drop_last()[i]).0, m.last().0),
{
    let d = m.drop_last();
    assert forall|a: int, b: int| 0 <= a < b < d.len() implies seq_lt(#[trigger] d[a].0, #[trigger] d[b].0) by {
        assert(d[a] == m[a] && d[b] == m[b]);
    }
    assert forall|i: int| 0 <= i < m.len() - 1 implies seq_lt((#[trigger] m.drop_last()[i]).0, m.last().0) by {
        assert(d[i] == m[i]);
        assert(seq_lt(m[i].0, m[m.len() - 1].0));
    }
}

proof fn lemma_sorted_push(m: Seq<(Seq<char>, JsonV)>, x: (Seq<char>, JsonV))
    requires
        keys_sorted(m),
        forall|i: int| 0 <= i < m.len() ==> seq_lt((#[trigger] m[i]).0, x.0),
    ensures
        keys_sorted(m.push(x)),
{
    let n = m.push(x);
    assert forall|a: int, b: int| 0 <= a < b < n.len() implies seq_lt(#[trigger] n[a].0, #[trigger] n[b].0) by {
        if b < m.len() {
            assert(n[a] == m[a] && n[b] == m[b]);
        } else {
            assert(n[a] == m[a]);
        }
    }
}

/// Every member after insertion is the inserted one or was there before.
proof fn lemma_ins_members(m: Seq<(Seq<char>, JsonV)>, key: Seq<char>, value: JsonV)
    ensures
        forall|i: int| 0 <= i < ins(m, key, value).len() ==> #[trigger] ins(m, key, value)[i] == (key, value)
            || exists|j: int| 0 <= j < m.len() && m[j] == ins(m, key, value)[i],
    decreases m.len(),
{
    let r = ins(m, key, value);
    if m.len() == 0 {
    } else if m.last().0 == key || seq_lt(m.last().0, key) {
        assert forall|i: int| 0 <= i < r.len() implies #[trigger] r[i] == (key, value) || exists|j: int|
            0 <= j < m.len() && m[j] == r[i] by {
            if i < r.len() - 1 {
                assert(r[i] == m[i]);
            }
        }
    } else {
        let d = m.drop_last();
        lemma_ins_members(d, key, value);
        let rd = ins(d, key, value);
        assert forall|i: int| 0 <= i < r.len() implies #[trigger] r[i] == (key, value) || exists|j: int|
            0 <= j < m.len() && m[j] == r[i] by {
            if i < r.len() - 1 {
                assert(r[i] == rd[i]);
                if rd[i] != (key, value) {
                    let j = choose|j: int| 0 <= j < d.len() && d[j] == rd[i];
                    assert(m[j] == d[j]);
                }
            } else {
                assert(r[i] == m[m.len() - 1]);
            }
        }
    }
}

/// Insertion keeps the keys ascending and maps `key` to `value`, leaving
/// every other key as it was.
pub proof fn lemma_ins(m: Seq<(Seq<char>, JsonV)>, key: Seq<char>, value: JsonV)
    requires
        keys_sorted(m),
    ensures
        inserted(m, ins(m, key, value), key, value),
    decreases m.len(),
{
    let r = ins(m, key, value);
    if m.len() == 0 {
        assert(keys_sorted(r));
        assert(r.drop_last() =~= m);
        assert(lookup(r, key) == Some(value));
    } else if m.last().0 == key {
        lemma_sorted_drop_last(m);
        lemma_sorted_push(m.drop_last(), (key, value));
        assert(r.drop_last() =~= m.drop_last());
        assert forall|k: Seq<char>| k != key implies lookup(r, k) == lookup(m, k) by {
            assert(r.drop_last() =~= m.drop_last());
        }
        assert(keys_sorted(r));
        assert(lookup(r, key) == Some(value));
    } else if seq_lt(m.last().0, key) {
        lemma_sorted_drop_last(m);
        assert forall|i: int| 0 <= i < m.len() implies seq_lt((#[trigger] m[i]).0, key) by {
            if i < m.len() - 1 {
                assert(m.drop_last()[i] == m[i]);
                lemma_seq_lt_transitive(m[i].0, m.last().0, key);
            }
        }
        lemma_sorted_push(m, (key, value));
        assert(r.drop_last() =~= m);
        assert forall|k: Seq<char>| k != key implies lookup(r, k) == lookup(m, k) by {
            assert(r.drop_last() =~= m);
        }
        assert(keys_sorted(r));
        assert(lookup(r, key) == Some(value));
    } else {
        let d = m.drop_last();
        lemma_sorted_drop_last(m);
        lemma_ins(d, key, value);
        lemma_ins_members(d, key, value);
        let rd = ins(d, key, value);
        lemma_seq_lt_total(m.last().0, key);
        assert forall|i: int| 0 <= i < rd.len() implies seq_lt((#[trigger] rd[i]).0, m.last().0) by {
            if rd[i] != (key, value) {
                let j = choose|j: int| 0 <= j < d.len() && d[j] == rd[i];
                assert(seq_lt(d[j].0, m.last().0));
            }
        }
        lemma_sorted_push(rd, m.last());
        assert(r.drop_last() =~= rd);
        assert(lookup(r, key) == lookup(rd, key));
        assert forall|k: Seq<char>| k != key implies lookup(r, k) == lookup(m, k) by {
            if k != m.last().0 {
                assert(lookup(rd, k) == lookup(d, k));
            }
        }
        assert(keys_sorted(r));
        assert(lookup(r, key) == Some(value));
    }
}

/// Two member lists in ascending key order that map every key alike are equal.
pub proof fn lemma_sorted_unique(a: Seq<(Seq<char>, JsonV)>, b: Seq<(Seq<char>, JsonV)>)
    requires
        keys_sorted(a),
        keys_sorted(b),
        forall|k: Seq<char>| lookup(a, k) == lookup(b, k),
    ensures
        a == b,
    decreases a.len() + b.len(),
{
    if a.len() == 0 && b.len() == 0 {
        assert(a =~= b);
    } else if a.len() == 0 {
        assert(lookup(b, b.last().0) is Some);
    } else if b.len() == 0 {
        assert(lookup(a, a.last().0) is Some);
    } else {
        let x = a.last();
        let y = b.last();
        lemma_lookup_index(a, y.0);
        lemma_lookup_index(b, x.0);
        assert(lookup(a, x.0) is Some);
        assert(lookup(b, y.0) is Some);
        let ja = choose|i: int| 0 <= i < a.len() && (#[trigger] a[i]).0 == y.0;
        let jb = choose|i: int| 0 <= i < b.len() && (#[trigger] b[i]).0 == x.0;
        lemma_seq_lt_total(x.0, y.0);
        if x.0 != y.0 {
            if seq_lt(x.0, y.0) {
                if ja < a.len() - 1 {
                    assert(seq_lt(a[ja].0, a[a.len() - 1].0));
                    lemma_seq_lt_asymmetric(x.0, y.0);
                }
            } else {
                if jb < b.len() - 1 {
                    assert(seq_lt(b[jb].0, b[b.len() - 1].0));
                    lemma_seq_lt_asymmetric(x.0, y.0);
                }
            }
        }
        assert(x.0 == y.0);
        assert(x == y);
        lemma_sorted_drop_last(a);
        lemma_sorted_drop_last(b);
        let da = a.drop_last();
        let db = b.drop_last();
        assert forall|k: Seq<char>| lookup(da, k) == lookup(db, k) by {
            if k == x.0 {
                assert forall|i: int| 0 <= i < da.len() implies (#[trigger] da[i]).0 != k by {
                    lemma_seq_lt_irreflexive(k);
                }
                assert forall|i: int| 0 <= i < db.len() implies (#[trigger] db[i]).0 != k by {
                    lemma_seq_lt_irreflexive(k);
                }
                lemma_lookup_absent(da, k);
                lemma_lookup_absent(db, k);
            } else {
                assert(lookup(a, k) == lookup(da, k));
                assert(lookup(b, k) == lookup(db, k));
            }
        }
        lemma_sorted_unique(da, db);
        assert(a =~= da.push(x));
        assert(b =~= db.push(y));
    }
}


/// Insertion keeps every value well formed when the inserted one is.
pub proof fn lemma_ins_wf(m: Seq<(Seq<char>, JsonV)>, key: Seq<char>, value: JsonV)
    requires
        JsonV::Object(m).wf(),
        value.wf(),
    ensures
        JsonV::Object(ins(m, key, value)).wf(),
{
    lemma_ins(m, key, value);
    lemma_ins_members(m, key, value);
    let r = ins(m, key, value);
    assert forall|i: int| 0 <= i < r.len() implies (#[trigger] r[i]).1.wf() by {
        if r[i] != (key, value) {
            let j = choose|j: int| 0 <= j < m.len() && m[j] == r[i];
            assert(m[j].1.wf());
        }
    }
}

impl JsonV {
    /// `insert(key, value)` on the map of an object; other values unchanged.
    pub open spec fn insert(self, key: Seq<char>, value: JsonV) -> JsonV {
        match self {
            JsonV::Object(m) => JsonV::Object(ins(m, key, value)),
            _ => self,
        }
    }

    /// `self[key] = value`: a null becomes an object holding just `key`.
    pub open spec fn set(self, key: Seq<char>, value: JsonV) -> JsonV {
        match self {
            JsonV::Null => JsonV::Object(seq![(key, value)]),
            _ => self.insert(key, value),
        }
    }
}

/// Reading a key back after writing it gives what was written; every other
/// key reads as before.
pub proof fn lemma_get_after_insert(j: JsonV, key: Seq<char>, value: JsonV, other: Seq<char>)
    requires
        j.wf(),
        j is Object,
        value.wf(),
    ensures
        j.insert(key, value).wf(),
        j.insert(key, value).get(key) == Some(value),
        other != key ==> j.insert(key, value).get(other) == j.get(other),
{
    if let JsonV::Object(m) = j {
        lemma_ins(m, key, value);
        lemma_ins_wf(m, key, value);
    }
}

impl Json {
    /// An empty object.
    pub fn new_object() -> (r: Json)
        ensures
            r.view_json() == JsonV::Object(seq![]),
            r.view_json().wf(),
    {
        let r = Json::Object(Vec::new());
        assert(member_views(Seq::<(String, Json)>::empty()) =~= seq![]);
        r
    }

    /// Inserts `key` with `value` when `self` is an object (`as_object_mut`
    /// then `insert`); any other value is left as it is.
    pub fn insert(&mut self, key: String, value: Json)
        requires
            old(self).view_json().wf(),
            value.view_json().wf(),
        ensures
            final(self).view_json() == old(self).view_json().insert(key@, value.view_json()),
            final(self).view_json().wf(),
    {
        let ghost v = value.view_json();
        match self {
            Json::Object(m) => {
                proof {
                    lemma_ins_wf(member_views(m@), key@, v);
                }
                insert_member(m, key, value);
            },
            _ => {},
        }
    }

    /// `self[key] = value`: a null becomes an object, an object gets the key.
    pub fn set(&mut self, key: String, value: Json)
        requires
            old(self).view_json().wf(),
            value.view_json().wf(),
            old(self).view_json() is Null || old(self).view_json() is Object,
        ensures
            final(self).view_json() == old(self).view_json().set(key@, value.view_json()),
            final(self).view_json().wf(),
    {
        if let Json::Null = self {
            *self = Json::new_object();
            proof {
                assert(ins(seq![], key@, value.view_json()) =~= seq![(key@, value.view_json())]);
            }
        }
        self.insert(key, value);
    }

    /// A copy of the document with the same value.
    pub fn deep_clone(&self) -> (r: Json)
        ensures
            r.view_json() == self.view_json(),
        decreases self,
    {
        match self {
            Json::Null => Json::Null,
            Json::Bool(b) => Json::Bool(*b),
            Json::Number(n) => Json::Number(n.clone()),
            Json::Str(s) => Json::Str(s.clone()),
            Json::Array(items) => {
                let mut out: Vec<Json> = Vec::new();
                let mut i: usize = 0;
                proof {
                    lemma_views(items@);
                    assert forall|j: int| 0 <= j < items@.len() implies decreases_to!(self => #[trigger] items@[j]) by {
                        assert(decreases_to!(self => items));
                        assert(decreases_to!(items => items@));
                        assert(decreases_to!(items@ => items@[j]));
                    }
                }
                while i < items.len()
                    invariant
                        forall|j: int| 0 <= j < items@.len() ==> decreases_to!(self => #[trigger] items@[j]),
                        i <= items.len(),
                        out@.len() == i,
                        forall|j: int| 0 <= j < i ==> (#[trigger] out@[j]).view_json() == items@[j].view_json(),
                    decreases items.len() - i,
                {
                    out.push(items[i].deep_clone());
                    i = i + 1;
                }
                proof {
                    lemma_views(out@);
                    assert(views(out@) =~= views(items@));
                }
                Json::Array(out)
            },
            Json::Object(m) => {
                let mut out: Vec<(String, Json)> = Vec::new();
                let mut i: usize = 0;
                proof {
                    lemma_member_views(m@);
                    assert forall|j: int| 0 <= j < m@.len() implies decreases_to!(self => (#[trigger] m@[j]).1) by {
                        assert(decreases_to!(self => m));
                        assert(decreases_to!(m => m@));
                        assert(decreases_to!(m@ => m@[j]));
                        assert(decreases_to!(m@[j] => m@[j].1));
                    }
                }
                while i < m.len()
                    invariant
                        forall|j: int| 0 <= j < m@.len() ==> decreases_to!(self => (#[trigger] m@[j]).1),
                        i <= m.len(),
                        out@.len() == i,
                        forall|j: int| 0 <= j < i ==> (#[trigger] out@[j]).0@ == m@[j].0@ && out@[j].1.view_json() == m@[j].1.view_json(),
                    decreases m.len() - i,
                {
                    let v = m[i].1.deep_clone();
                    out.push((m[i].0.clone(), v));
                    i = i + 1;
                }
                proof {
                    lemma_member_views(out@);
                    assert(member_views(out@) =~= member_views(m@));
                }
                Json::Object(out)
            },
        }
    }
}


impl JsonV {
    pub open spec fn as_bool(self) -> Option<bool> {
        match self {
            JsonV::Bool(b) => Some(b),
            _ => None,
        }
    }

    /// An integer number within `i64` (`Value::as_i64`): a number whose text
    /// is an integer literal in range.
    pub open spec fn as_i64(self) -> Option<int> {
        match self {
            JsonV::Number(t) => parse_i64_spec(t),
            _ => None,
        }
    }

    /// Successive object lookups along `path` (`Value::pointer` with a
    /// path of object keys).
    pub open spec fn get_path(self, path: Seq<Seq<char>>) -> Option<JsonV>
        decreases path.len(),
    {
        if path.len() == 0 {
            Some(self)
        } else {
            match self.get(path[0]) {
                Some(v) => v.get_path(path.drop_first()),
                None => None,
            }
        }
    }
}

/// A JSON string literal's body: `"` and `\` escaped, control characters
/// written as short escapes or `\u00XX` with lowercase hex digits.
pub open spec fn escape_char(c: char) -> Seq<char> {
    if c == '"' {
        seq!['\\', '"']
    } else if c == '\\' {
        seq!['\\', '\\']
    } else if c == '\u{8}' {
        seq!['\\', 'b']
    } else if c == '\t' {
        seq!['\\', 't']
    } else if c == '\n' {
        seq!['\\', 'n']
    } else if c == '\u{c}' {
        seq!['\\', 'f']
    } else if c == '\r' {
        seq!['\\', 'r']
    } else if (c as u32) < 0x20 {
        seq!['\\', 'u', '0', '0', hex_digit((c as u32) / 16), hex_digit((c as u32) % 16)]
    } else {
        seq![c]
    }
}

pub open spec fn hex_digit(d: u32) -> char {
    if d < 10 {
        ((d + 48) as u8) as char
    } else {
        ((d + 87) as u8) as char
    }
}

/// The escaped characters of a string, in order.
pub open spec fn escape_text(s: Seq<char>) -> Seq<char>
    decreases s.len(),
{
    if s.len() == 0 {
        seq![]
    } else {
        escape_text(s.drop_last()) + escape_char(s.last())
    }
}

pub open spec fn quoted(s: Seq<char>) -> Seq<char> {
    seq!['"'] + escape_text(s) + seq!['"']
}

/// Compact JSON text of a value, as `serde_json` writes it (`to_string`).
pub open spec fn json_text(v: JsonV) -> Seq<char>
    decreases v,
{
    match v {
        JsonV::Null => seq!['n', 'u', 'l', 'l'],
        JsonV::Bool(b) => if b {
            seq!['t', 'r', 'u', 'e']
        } else {
            seq!['f', 'a', 'l', 's', 'e']
        },
        JsonV::Number(t) => t,
        JsonV::Str(s) => quoted(s),
        JsonV::Array(items) => seq!['['] + items_text(items) + seq![']'],
        JsonV::Object(m) => seq!['{'] + members_text(m) + seq!['}'],
    }
}

pub open spec fn items_text(items: Seq<JsonV>) -> Seq<char>
    decreases items,
{
    if items.len() == 0 {
        seq![]
    } else if items.len() == 1 {
        json_text(items[0])
    } else {
        items_text(items.drop_last()) + seq![','] + json_text(items.last())
    }
}

pub open spec fn members_text(m: Seq<(Seq<char>, JsonV)>) -> Seq<char>
    decreases m,
{
    if m.len() == 0 {
        seq![]
    } else if m.len() == 1 {
        quoted(m[0].0) + seq![':'] + json_text(m[0].1)
    } else {
        members_text(m.drop_last()) + seq![','] + quoted(m.last().0) + seq![':'] + json_text(
            m.last().1,
        )
    }
}

fn push_str(out: &mut String, s: &str)
    ensures
        final(out)@ == old(out)@ + s@,
{
    out.append(s);
}

fn push_hex(out: &mut String, d: u32)
    requires
        d < 16,
    ensures
        final(out)@ == old(out)@.push(hex_digit(d)),
{
    let b: u8 = d as u8;
    if d < 10 {
        push_char(out, (b + 48) as char);
    } else {
        push_char(out, (b + 87) as char);
    }
}

fn push_escaped(out: &mut String, s: &str)
    ensures
        final(out)@ == old(out)@ + quoted(s@),
{
    let v = crate::text::chars_of(s);
    let ghost start = out@;
    push_char(out, '"');
    let mut i: usize = 0;
    while i < v.len()
        invariant
            i <= v.len(),
            v@ == s@,
            out@ == start + seq!['"'] + escape_text(v@.take(i as int)),
        decreases v.len() - i,
    {
        let c = v[i];
        let ghost before = out@;
        if c == '"' {
            push_char(out, '\\');
            push_char(out, '"');
        } else if c == '\\' {
            push_char(out, '\\');
            push_char(out, '\\');
        } else if c == '\u{8}' {
            push_char(out, '\\');
            push_char(out, 'b');
        } else if c == '\t' {
            push_char(out, '\\');
            push_char(out, 't');
        } else if c == '\n' {
            push_char(out, '\\');
            push_char(out, 'n');
        } else if c == '\u{c}' {
            push_char(out, '\\');
            push_char(out, 'f');
        } else if c == '\r' {
            push_char(out, '\\');
            push_char(out, 'r');
        } else if (c as u32) < 0x20 {
            push_char(out, '\\');
            push_char(out, 'u');
            push_char(out, '0');
            push_char(out, '0');
            push_hex(out, (c as u32) / 16);
            push_hex(out, (c as u32) % 16);
        } else {
            push_char(out, c);
        }
        proof {
            assert(out@ =~= before + escape_char(c));
            assert(v@.take(i + 1).drop_last() =~= v@.take(i as int));
        }
        i = i + 1;
    }
    push_char(out, '"');
    assert(v@.take(v.len() as int) =~= v@);
    assert(out@ =~= start + quoted(s@));
}

impl Json {
    /// Appends the compact JSON text of `self` to `out`.
    pub fn write_compact(&self, out: &mut String)
        ensures
            final(out)@ == old(out)@ + json_text(self.view_json()),
        decreases self,
    {
        match self {
            Json::Null => {
                proof {
                    reveal_strlit("null");
                }
                push_str(out, "null");
                assert("null"@ =~= seq!['n', 'u', 'l', 'l']);
            },
            Json::Bool(b) => {
                proof {
                    reveal_strlit("true");
                    reveal_strlit("false");
                }
                if *b {
                    push_str(out, "true");
                    assert("true"@ =~= seq!['t', 'r', 'u', 'e']);
                } else {
                    push_str(out, "false");
                    assert("false"@ =~= seq!['f', 'a', 'l', 's', 'e']);
                }
            },
            Json::Number(t) => push_str(out, t.as_str()),
            Json::Str(s) => push_escaped(out, s.as_str()),
            Json::Array(items) => {
                proof {
                    lemma_views(items@);
                    assert forall|j: int| 0 <= j < items@.len() implies decreases_to!(self => #[trigger] items@[j]) by {
                        assert(decreases_to!(self => items));
                        assert(decreases_to!(items => items@));
                        assert(decreases_to!(items@ => items@[j]));
                    }
                }
                let ghost start = out@;
                let ghost vs = views(items@);
                push_char(out, '[');
                let mut i: usize = 0;
                while i < items.len()
                    invariant
                        forall|j: int| 0 <= j < items@.len() ==> decreases_to!(self => #[trigger] items@[j]),
                        i <= items.len(),
                        vs == views(items@),
                        vs.len() == items@.len(),
                        forall|j: int| 0 <= j < items@.len() ==> #[trigger] vs[j] == items@[j].view_json(),
                        out@ == start + seq!['['] + items_text(vs.take(i as int)),
                    decreases items.len() - i,
                {
                    if i > 0 {
                        push_char(out, ',');
                    }
                    items[i].write_compact(out);
                    proof {
                        let t = vs.take(i + 1);
                        assert(t.drop_last() =~= vs.take(i as int));
                        if i == 0 {
                            assert(vs.take(0) =~= seq![]);
                        }
                    }
                    i = i + 1;
                }
                push_char(out, ']');
                proof {
                    assert(vs.take(items.len() as int) =~= vs);
                }
            },
            Json::Object(m) => {
                proof {
                    lemma_member_views(m@);
                    assert forall|j: int| 0 <= j < m@.len() implies decreases_to!(self => (#[trigger] m@[j]).1) by {
                        assert(decreases_to!(self => m));
                        assert(decreases_to!(m => m@));
                        assert(decreases_to!(m@ => m@[j]));
                        assert(decreases_to!(m@[j] => m@[j].1));
                    }
                }
                let ghost start = out@;
                let ghost mv = member_views(m@);
                push_char(out, '{');
                let mut i: usize = 0;
                while i < m.len()
                    invariant
                        forall|j: int| 0 <= j < m@.len() ==> decreases_to!(self => (#[trigger] m@[j]).1),
                        i <= m.len(),
                        mv == member_views(m@),
                        mv.len() == m@.len(),
                        forall|j: int| 0 <= j < m@.len() ==> #[trigger] mv[j] == (m@[j].0@, m@[j].1.view_json()),
                        out@ == start + seq!['{'] + members_text(mv.take(i as int)),
                    decreases m.len() - i,
                {
                    if i > 0 {
                        push_char(out, ',');
                    }
                    push_escaped(out, m[i].0.as_str());
                    push_char(out, ':');
                    m[i].1.write_compact(out);
                    proof {
                        let t = mv.take(i + 1);
                        assert(t.drop_last() =~= mv.take(i as int));
                        if i == 0 {
                            assert(mv.take(0) =~= seq![]);
                        }
                    }
                    i = i + 1;
                }
                push_char(out, '}');
                proof {
                    assert(mv.take(m.len() as int) =~= mv);
                }
            },
        }
    }

    /// Compact JSON text of the value (`Value::to_string`).
    pub fn to_compact_string(&self) -> (r: String)
        ensures
            r@ == json_text(self.view_json()),
    {
        let mut out = String::new();
        self.write_compact(&mut out);
        assert(out@ =~= json_text(self.view_json()));
        out
    }

    pub fn as_bool(&self) -> (r: Option<bool>)
        ensures
            r == self.view_json().as_bool(),
    {
        match self {
            Json::Bool(b) => Some(*b),
            _ => None,
        }
    }

    /// An integer number within `i64` (`Value::as_i64`).
    pub fn as_i64(&self) -> (r: Option<i64>)
        ensures
            match r {
                Some(n) => self.view_json().as_i64() == Some(n as int),
                None => self.view_json().as_i64() is None,
            },
    {
        match self {
            Json::Number(t) => parse_i64(t.as_str()),
            _ => None,
        }
    }

    /// A string value.
    pub fn string(s: &str) -> (r: Json)
        ensures
            r.view_json() == JsonV::Str(s@),
    {
        Json::Str(s.to_owned())
    }
}


impl Json {
    /// Follows `path` through nested objects, one key per step.
    pub fn get_path<'a>(&'a self, path: &Vec<String>) -> (r: Option<&'a Json>)
        ensures
            match r {
                Some(v) => self.view_json().get_path(crate::text::string_views(path@)) == Some(v.view_json()),
                None => self.view_json().get_path(crate::text::string_views(path@)) is None,
            },
    {
        let ghost p = crate::text::string_views(path@);
        let mut cur: &Json = self;
        let mut i: usize = 0;
        assert(p.skip(0) =~= p);
        while i < path.len()
            invariant
                i <= path.len(),
                p == crate::text::string_views(path@),
                self.view_json().get_path(p) == cur.view_json().get_path(p.skip(i as int)),
            decreases path.len() - i,
        {
            let ghost rest = p.skip(i as int);
            assert(rest.drop_first() =~= p.skip(i + 1));
            assert(rest[0] == path@[i as int]@);
            match cur.get(path[i].as_str()) {
                Some(next) => {
                    cur = next;
                },
                None => {
                    return None;
                },
            }
            i = i + 1;
        }
        assert(p.skip(path.len() as int) =~= seq![]);
        Some(cur)
    }
}


/// A value read from a well-formed object is well formed.
pub proof fn lemma_get_wf(v: JsonV, key: Seq<char>)
    requires
        v.wf(),
    ensures
        v.get(key) matches Some(x) ==> x.wf(),
{
    if let JsonV::Object(m) = v {
        lemma_lookup_members_wf(m, key);
    }
}

proof fn lemma_lookup_members_wf(m: Seq<(Seq<char>, JsonV)>, key: Seq<char>)
    requires
        forall|i: int| 0 <= i < m.len() ==> (#[trigger] m[i]).1.wf(),
    ensures
        lookup(m, key) matches Some(x) ==> x.wf(),
    decreases m.len(),
{
    if m.len() > 0 {
        assert(m[m.len() - 1].1.wf());
        let d = m.drop_last();
        assert forall|i: int| 0 <= i < d.len() implies (#[trigger] d[i]).1.wf() by {
            assert(d[i] == m[i]);
        }
        lemma_lookup_members_wf(d, key);
    }
}

} // verus!

verus! {

/// Appends a member to the member list of an object being built.
pub fn push_member(m: &mut Vec<(String, Json)>, key: &str, value: Json)
    ensures
        member_views(final(m)@) == member_views(old(m)@).push((key@, value.view_json())),
{
    let ghost before = m@;
    m.push((key.to_owned(), value));
    assert(m@.drop_last() =~= before);
}

/// A text value.
pub open spec fn jstr(s: Seq<char>) -> JsonV {
    JsonV::Str(s)
}

} // verus!

verus! {

/// Copies of the documents, with the same values.
pub fn clone_all(a: &Vec<Json>) -> (r: Vec<Json>)
    ensures
        views(r@) == views(a@),
        r@.len() == a@.len(),
{
    let mut out: Vec<Json> = Vec::new();
    let mut i: usize = 0;
    proof {
        lemma_views(a@);
    }
    while i < a.len()
        invariant
            i <= a@.len(),
            views(a@).len() == a@.len(),
            forall|k: int| 0 <= k < a@.len() ==> #[trigger] views(a@)[k] == a@[k].view_json(),
            views(out@) == views(a@).take(i as int),
            out@.len() == i,
        decreases a@.len() - i,
    {
        let ghost before = out@;
        out.push(a[i].deep_clone());
        proof {
            assert(out@.drop_last() =~= before);
            assert(views(a@).take(i + 1) =~= views(a@).take(i as int).push(a@[i as int].view_json()));
        }
        i = i + 1;
    }
    proof {
        assert(views(a@).take(a@.len() as int) =~= views(a@));
    }
    out
}

impl Json {
    /// Copies of the items of the array found along `path`, if there is one.
    pub fn array_at(&self, path: &Vec<String>) -> (r: Option<Vec<Json>>)
        ensures
            match r {
                Some(a) => match self.view_json().get_path(crate::text::string_views(path@)) {
                    Some(v) => v.as_array() == Some(views(a@)),
                    None => false,
                },
                None => match self.view_json().get_path(crate::text::string_views(path@)) {
                    Some(v) => v.as_array() is None,
                    None => true,
                },
            },
    {
        match self.get_path(path) {
            Some(v) => match v.as_array() {
                Some(a) => Some(clone_all(a)),
                None => None,
            },
            None => None,
        }
    }
}

} // verus!

verus! {

/// Reading `key` after `v[key] = x` gives `x`, and the result stays well
/// formed.
pub proof fn lemma_get_after_set(v: JsonV, key: Seq<char>, x: JsonV)
    requires
        v.wf(),
        x.wf(),
        v is Object || v is Null,
    ensures
        v.set(key, x).get(key) == Some(x),
        v.set(key, x).wf(),
        v.set(key, x) is Object,
{
    if v is Object {
        lemma_get_after_insert(v, key, x, key);
    } else {
        let m = seq![(key, x)];
        assert(m.last().0 == key);
        assert(lookup(m, key) == Some(x));
        assert(keys_sorted(m));
    }
}

} // verus!
