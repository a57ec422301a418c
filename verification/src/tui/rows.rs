use vstd::prelude::*;
use crate::json::{lemma_views, views, Json, JsonV};
use crate::text::{
    ascii_lower, lemma_seq_lt_asymmetric, lemma_seq_lt_irreflexive, lemma_seq_lt_total,
    lemma_seq_lt_transitive, seq_lt, str_eq, str_lt, to_ascii_lowercase,
};

verus! {

/// The text of a string field of a row, or the empty text when the field is
/// missing or not a string.
pub open spec fn field_or_empty(j: JsonV, field: Seq<char>) -> Seq<char> {
    match j.str_field(field) {
        Some(s) => s,
        None => Seq::empty(),
    }
}

/// The sort key of a row: the field in ASCII lowercase, then the exact name.
pub open spec fn row_key(j: JsonV, field: Seq<char>) -> (Seq<char>, Seq<char>) {
    (ascii_lower(field_or_empty(j, field)), field_or_empty(j, "name"@))
}

/// Lexicographic strict order on keys.
pub open spec fn key_lt(a: (Seq<char>, Seq<char>), b: (Seq<char>, Seq<char>)) -> bool {
    seq_lt(a.0, b.0) || (a.0 == b.0 && seq_lt(a.1, b.1))
}

/// In a stable sort by key, row `i` of `rows` comes before row `j`.
pub open spec fn row_before(rows: Seq<JsonV>, field: Seq<char>, i: int, j: int) -> bool {
    let a = row_key(rows[i], field);
    let b = row_key(rows[j], field);
    key_lt(a, b) || (a == b && i < j)
}

/// `p` lists each of `0..n` exactly once.
pub open spec fn is_permutation(p: Seq<int>, n: nat) -> bool {
    &&& p.len() == n
    &&& forall|k: int| 0 <= k < n ==> 0 <= #[trigger] p[k] < n
    &&& forall|k: int, l: int| 0 <= k < l < n ==> #[trigger] p[k] != #[trigger] p[l]
}

/// `out` is `rows` reordered by `p`, and `p` follows the stable key order.
pub open spec fn sorted_by_permutation(
    rows: Seq<JsonV>,
    field: Seq<char>,
    out: Seq<JsonV>,
    p: Seq<int>,
) -> bool {
    &&& is_permutation(p, rows.len())
    &&& out.len() == rows.len()
    &&& forall|k: int| 0 <= k < rows.len() ==> #[trigger] out[k] == rows[p[k]]
    &&& forall|k: int, l: int|
        0 <= k < l < rows.len() ==> row_before(rows, field, #[trigger] p[k], #[trigger] p[l])
}

/// `out` is `rows` sorted by the key of `field`, rows with equal keys in
/// their first order (what `sort_by` gives with this comparison).
pub open spec fn stably_sorted(rows: Seq<JsonV>, field: Seq<char>, out: Seq<JsonV>) -> bool {
    exists|p: Seq<int>| #[trigger] sorted_by_permutation(rows, field, out, p)
}

pub proof fn lemma_key_lt_facts(a: (Seq<char>, Seq<char>), b: (Seq<char>, Seq<char>))
    ensures
        !key_lt(a, a),
        a == b || key_lt(a, b) || key_lt(b, a),
        key_lt(a, b) ==> !key_lt(b, a),
{
    lemma_seq_lt_irreflexive(a.0);
    lemma_seq_lt_irreflexive(a.1);
    lemma_seq_lt_total(a.0, b.0);
    lemma_seq_lt_total(a.1, b.1);
    lemma_seq_lt_asymmetric(a.0, b.0);
    lemma_seq_lt_asymmetric(a.1, b.1);
}

pub proof fn lemma_key_lt_transitive(
    a: (Seq<char>, Seq<char>),
    b: (Seq<char>, Seq<char>),
    c: (Seq<char>, Seq<char>),
)
    requires
        key_lt(a, b),
        key_lt(b, c),
    ensures
        key_lt(a, c),
{
    if seq_lt(a.0, b.0) && seq_lt(b.0, c.0) {
        lemma_seq_lt_transitive(a.0, b.0, c.0);
    } else if a.0 == b.0 && b.0 == c.0 {
        lemma_seq_lt_transitive(a.1, b.1, c.1);
    }
}

/// Whether the key of row `a` is below that of row `b`.
fn key_less(lowers: &Vec<String>, names: &Vec<String>, a: usize, b: usize) -> (r: bool)
    requires
        a < lowers.len(),
        b < lowers.len(),
        lowers.len() == names.len(),
    ensures
        r == key_lt((lowers@[a as int]@, names@[a as int]@), (lowers@[b as int]@, names@[b as int]@)),
{
    if str_lt(lowers[a].as_str(), lowers[b].as_str()) {
        true
    } else if str_eq(lowers[a].as_str(), lowers[b].as_str()) {
        str_lt(names[a].as_str(), names[b].as_str())
    } else {
        false
    }
}

/// The text of a string field, or the empty text.
fn field_text_or_empty(j: &Json, field: &str) -> (r: String)
    ensures
        r@ == field_or_empty(j.view_json(), field@),
{
    match j.str_field(field) {
        Some(s) => s.to_owned(),
        None => String::new(),
    }
}

/// Sorts rows by a string field compared in ASCII lowercase, then by the
/// exact `name`, keeping rows with equal keys in their order.
pub fn sort_rows(items: &mut Vec<Json>, field: &str)
    ensures
        final(items)@.len() == old(items)@.len(),
        stably_sorted(views(old(items)@), field@, views(final(items)@)),
{
    let ghost rows = views(items@);
    proof {
        lemma_views(items@);
    }
    let n = items.len();
    let mut lowers: Vec<String> = Vec::new();
    let mut names: Vec<String> = Vec::new();
    let mut i: usize = 0;
    while i < n
        invariant
            i <= n,
            n == items.len(),
            rows == views(items@),
            rows.len() == n,
            forall|k: int| 0 <= k < n ==> #[trigger] rows[k] == items@[k].view_json(),
            lowers.len() == i,
            names.len() == i,
            forall|k: int| 0 <= k < i ==> (#[trigger] lowers@[k]@, names@[k]@) == row_key(rows[k], field@),
        decreases n - i,
    {
        let f = field_text_or_empty(&items[i], field);
        let nm = field_text_or_empty(&items[i], "name");
        proof {
            reveal_strlit("name");
        }
        lowers.push(to_ascii_lowercase(f.as_str()));
        names.push(nm);
        i = i + 1;
    }
    let mut perm: Vec<usize> = Vec::new();
    let mut i: usize = 0;
    while i < n
        invariant
            i <= n,
            n == items.len(),
            rows == views(items@),
            rows.len() == n,
            lowers.len() == n,
            names.len() == n,
            forall|k: int| 0 <= k < n ==> (#[trigger] lowers@[k]@, names@[k]@) == row_key(rows[k], field@),
            perm.len() == i,
            forall|k: int| 0 <= k < i ==> #[trigger] perm@[k] < i,
            forall|k: int, l: int| 0 <= k < l < i ==> #[trigger] perm@[k] != #[trigger] perm@[l],
            forall|k: int, l: int|
                0 <= k < l < i ==> row_before(rows, field@, #[trigger] perm@[k] as int, #[trigger] perm@[l] as int),
        decreases n - i,
    {
        let mut j: usize = 0;
        while j < perm.len() && !key_less(&lowers, &names, i, perm[j])
            invariant
                j <= perm.len(),
                i < n,
                lowers.len() == n,
                names.len() == n,
                perm.len() == i,
                forall|k: int| 0 <= k < i ==> #[trigger] perm@[k] < i,
                forall|k: int| 0 <= k < j ==> !key_lt(row_key(rows[i as int], field@), row_key(rows[#[trigger] perm@[k] as int], field@)),
                forall|k: int| 0 <= k < n ==> (#[trigger] lowers@[k]@, names@[k]@) == row_key(rows[k], field@),
            decreases perm.len() - j,
        {
            j = j + 1;
        }
        let ghost before = perm@;
        perm.insert(j, i);
        proof {
            assert(perm@ =~= before.insert(j as int, i));
            let ki = row_key(rows[i as int], field@);
            assert forall|k: int, l: int|
                0 <= k < l < i + 1 implies row_before(rows, field@, #[trigger] perm@[k] as int, #[trigger] perm@[l] as int) by {
                if k < j && l < j {
                    assert(row_before(rows, field@, before[k] as int, before[l] as int));
                } else if k < j && l == j {
                    let ka = row_key(rows[before[k] as int], field@);
                    lemma_key_lt_facts(ki, ka);
                    assert(before[k] < i);
                } else if k < j && l > j {
                    assert(row_before(rows, field@, before[k] as int, before[l - 1] as int));
                } else if k == j && l > j {
                    let kj = row_key(rows[before[j as int] as int], field@);
                    let kb = row_key(rows[before[l - 1] as int], field@);
                    assert(key_lt(ki, kj));
                    if l - 1 > j {
                        assert(row_before(rows, field@, before[j as int] as int, before[l - 1] as int));
                        if key_lt(kj, kb) {
                            lemma_key_lt_transitive(ki, kj, kb);
                        }
                    }
                } else {
                    assert(row_before(rows, field@, before[k - 1] as int, before[l - 1] as int));
                }
            }
            assert forall|k: int, l: int| 0 <= k < l < i + 1 implies #[trigger] perm@[k] != #[trigger] perm@[l] by {
                if k < j && l < j {
                    assert(before[k] != before[l]);
                } else if k < j && l == j {
                    assert(before[k] < i);
                } else if k < j && l > j {
                    assert(before[k] != before[l - 1]);
                } else if k == j && l > j {
                    assert(before[l - 1] < i);
                } else {
                    assert(before[k - 1] != before[l - 1]);
                }
            }
            assert forall|k: int| 0 <= k < i + 1 implies #[trigger] perm@[k] < i + 1 by {
                if k < j {
                    assert(before[k] < i);
                } else if k > j {
                    assert(before[k - 1] < i);
                }
            }
        }
        i = i + 1;
    }
    let mut out: Vec<Json> = Vec::new();
    let mut k: usize = 0;
    while k < n
        invariant
            k <= n,
            n == items.len(),
            rows == views(items@),
            rows.len() == n,
            forall|m: int| 0 <= m < n ==> #[trigger] rows[m] == items@[m].view_json(),
            perm.len() == n,
            forall|m: int| 0 <= m < n ==> #[trigger] perm@[m] < n,
            out.len() == k,
            forall|m: int| 0 <= m < k ==> (#[trigger] out@[m]).view_json() == rows[perm@[m] as int],
        decreases n - k,
    {
        out.push(items[perm[k]].deep_clone());
        k = k + 1;
    }
    proof {
        lemma_views(out@);
        let p = perm@.map(|m: int, x: usize| x as int);
        assert(sorted_by_permutation(rows, field@, views(out@), p));
    }
    *items = out;
}

} // verus!

verus! {

/// Some row holds `val` as the string under `key`.
pub open spec fn has_row_with(rows: Seq<JsonV>, key: Seq<char>, val: Seq<char>) -> bool {
    exists|k: int| 0 <= k < rows.len() && (#[trigger] rows[k]).str_field(key) == Some(val)
}

/// Row `k` is the first that holds `val` under `key`.
pub open spec fn is_first_with(rows: Seq<JsonV>, key: Seq<char>, val: Seq<char>, k: int) -> bool {
    &&& 0 <= k < rows.len()
    &&& rows[k].str_field(key) == Some(val)
    &&& forall|j: int| 0 <= j < k ==> (#[trigger] rows[j]).str_field(key) != Some(val)
}

/// The index of the first row holding `val` under `key`, or 0 when none does
/// (`position(..).unwrap_or(0)`).
pub open spec fn first_with(rows: Seq<JsonV>, key: Seq<char>, val: Seq<char>) -> int {
    if has_row_with(rows, key, val) {
        choose|k: int| is_first_with(rows, key, val, k)
    } else {
        0
    }
}

/// The first row holding `val` under `key`, if any (`find`).
pub open spec fn found_row(rows: Seq<JsonV>, key: Seq<char>, val: Seq<char>) -> Option<JsonV> {
    if has_row_with(rows, key, val) {
        Some(rows[first_with(rows, key, val)])
    } else {
        None
    }
}

pub proof fn lemma_first_with(rows: Seq<JsonV>, key: Seq<char>, val: Seq<char>, k: int)
    requires
        is_first_with(rows, key, val, k),
    ensures
        has_row_with(rows, key, val),
        first_with(rows, key, val) == k,
{
    assert(rows[k].str_field(key) == Some(val));
    let c = choose|c: int| is_first_with(rows, key, val, c);
    assert(is_first_with(rows, key, val, c));
    if c < k {
        assert(rows[c].str_field(key) != Some(val));
    } else if c > k {
        assert(rows[k].str_field(key) != Some(val));
    }
}

/// The index of the first row whose string field `key` is `val`.
pub fn find_row(rows: &Vec<Json>, key: &str, val: &str) -> (r: Option<usize>)
    ensures
        match r {
            Some(k) => is_first_with(views(rows@), key@, val@, k as int) && first_with(
                views(rows@),
                key@,
                val@,
            ) == k,
            None => !has_row_with(views(rows@), key@, val@) && first_with(views(rows@), key@, val@)
                == 0,
        },
{
    proof {
        lemma_views(rows@);
    }
    let ghost rs = views(rows@);
    let mut i: usize = 0;
    while i < rows.len()
        invariant
            i <= rows.len(),
            rs == views(rows@),
            rs.len() == rows.len(),
            forall|k: int| 0 <= k < rows.len() ==> #[trigger] rs[k] == rows@[k].view_json(),
            forall|j: int| 0 <= j < i ==> (#[trigger] rs[j]).str_field(key@) != Some(val@),
        decreases rows.len() - i,
    {
        let hit = match rows[i].str_field(key) {
            Some(s) => str_eq(s, val),
            None => false,
        };
        if hit {
            proof {
                lemma_first_with(rs, key@, val@, i as int);
            }
            return Some(i);
        }
        i = i + 1;
    }
    None
}

/// Whether some row holds `val` under `key`.
pub fn has_row(rows: &Vec<Json>, key: &str, val: &str) -> (r: bool)
    ensures
        r == has_row_with(views(rows@), key@, val@),
{
    match find_row(rows, key, val) {
        Some(_) => true,
        None => false,
    }
}

} // verus!
