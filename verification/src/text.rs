use vstd::prelude::*;
use vstd::std_specs::iter::IteratorSpec;

verus! {

broadcast use vstd::string::group_string_axioms;

/// Appends one character to a `String` (`String::push`).
#[verifier::external_body]
pub fn push_char(s: &mut String, c: char)
    ensures
        final(s)@ == old(s)@.push(c),
{
    s.push(c);
}

/// The characters of `s`, in order.
pub fn chars_of(s: &str) -> (v: Vec<char>)
    ensures
        v@ == s@,
{
    let mut v: Vec<char> = Vec::new();
    let mut it = s.chars();
    loop
        invariant_except_break
            it.remaining() == s@.skip(v@.len() as int),
            v@ == s@.take(v@.len() as int),
            v@.len() <= s@.len(),
        ensures
            v@ == s@,
        decreases s@.len() - v@.len(),
    {
        match it.next() {
            Some(c) => {
                v.push(c);
            },
            None => {
                break;
            },
        }
    }
    v
}

/// A `String` holding the characters of `v`.
pub fn string_of(v: &[char]) -> (s: String)
    ensures
        s@ == v@,
{
    let mut s = String::new();
    let mut i: usize = 0;
    while i < v.len()
        invariant
            i <= v.len(),
            s@ == v@.take(i as int),
        decreases v.len() - i,
    {
        push_char(&mut s, v[i]);
        i = i + 1;
        assert(s@ =~= v@.take(i as int));
    }
    assert(v@.take(v.len() as int) =~= v@);
    s
}

} // verus!

verus! {

/// Strict lexicographic order of character sequences by code point, the
/// order in which `str` values compare.
pub open spec fn seq_lt(a: Seq<char>, b: Seq<char>) -> bool
    decreases a.len(),
{
    if a.len() == 0 {
        b.len() > 0
    } else if b.len() == 0 {
        false
    } else if a[0] < b[0] {
        true
    } else if a[0] > b[0] {
        false
    } else {
        seq_lt(a.drop_first(), b.drop_first())
    }
}

pub proof fn lemma_seq_lt_irreflexive(a: Seq<char>)
    ensures
        !seq_lt(a, a),
    decreases a.len(),
{
    if a.len() > 0 {
        lemma_seq_lt_irreflexive(a.drop_first());
    }
}

pub proof fn lemma_seq_lt_total(a: Seq<char>, b: Seq<char>)
    ensures
        a == b || seq_lt(a, b) || seq_lt(b, a),
    decreases a.len(),
{
    if a.len() > 0 && b.len() > 0 && a[0] == b[0] {
        lemma_seq_lt_total(a.drop_first(), b.drop_first());
        if a.drop_first() == b.drop_first() {
            assert(a =~= seq![a[0]] + a.drop_first());
            assert(b =~= seq![b[0]] + b.drop_first());
        }
    } else if a.len() == 0 && b.len() == 0 {
        assert(a =~= b);
    }
}

pub proof fn lemma_seq_lt_asymmetric(a: Seq<char>, b: Seq<char>)
    ensures
        seq_lt(a, b) ==> !seq_lt(b, a),
    decreases a.len(),
{
    if a.len() > 0 && b.len() > 0 && a[0] == b[0] {
        lemma_seq_lt_asymmetric(a.drop_first(), b.drop_first());
    }
}

pub proof fn lemma_seq_lt_transitive(a: Seq<char>, b: Seq<char>, c: Seq<char>)
    requires
        seq_lt(a, b),
        seq_lt(b, c),
    ensures
        seq_lt(a, c),
    decreases a.len(),
{
    if a.len() > 0 && b.len() > 0 && c.len() > 0 && a[0] == b[0] && b[0] == c[0] {
        lemma_seq_lt_transitive(a.drop_first(), b.drop_first(), c.drop_first());
    }
}

/// Whether `a` sorts strictly before `b` (`a < b` on `str`).
pub fn str_lt(a: &str, b: &str) -> (r: bool)
    ensures
        r == seq_lt(a@, b@),
{
    let x = chars_of(a);
    let y = chars_of(b);
    let mut i: usize = 0;
    assert(x@.skip(0) =~= x@);
    assert(y@.skip(0) =~= y@);
    while i < x.len() && i < y.len() && x[i] == y[i]
        invariant
            i <= x@.len(),
            i <= y@.len(),
            x@.take(i as int) == y@.take(i as int),
            seq_lt(x@, y@) == seq_lt(x@.skip(i as int), y@.skip(i as int)),
        decreases x.len() - i,
    {
        assert(x@.skip(i as int).drop_first() =~= x@.skip(i + 1));
        assert(y@.skip(i as int).drop_first() =~= y@.skip(i + 1));
        assert(x@.take(i + 1) =~= x@.take(i as int).push(x@[i as int]));
        assert(y@.take(i + 1) =~= y@.take(i as int).push(y@[i as int]));
        i = i + 1;
    }
    let ghost xs = x@.skip(i as int);
    let ghost ys = y@.skip(i as int);
    if i == x.len() {
        i < y.len()
    } else if i == y.len() {
        false
    } else {
        assert(xs[0] == x@[i as int] && ys[0] == y@[i as int]);
        x[i] < y[i]
    }
}

/// Whether two strings hold the same characters.
pub fn str_eq(a: &str, b: &str) -> (r: bool)
    ensures
        r == (a@ == b@),
{
    a.to_owned() == b.to_owned()
}

} // verus!

verus! {

/// ASCII lowercase of one character (`char::to_ascii_lowercase`).
pub open spec fn lower_char(c: char) -> char {
    if 'A' <= c && c <= 'Z' {
        ((c as u32) + 32) as char
    } else {
        c
    }
}

/// ASCII lowercase of a text (`str::to_ascii_lowercase`).
pub open spec fn ascii_lower(s: Seq<char>) -> Seq<char> {
    Seq::new(s.len(), |i: int| lower_char(s[i]))
}

pub fn lower_char_exec(c: char) -> (r: char)
    ensures
        r == lower_char(c),
{
    if 'A' <= c && c <= 'Z' {
        let u: u8 = c as u8;
        let l: u8 = u + 32;
        let r = l as char;
        assert(r == lower_char(c));
        r
    } else {
        c
    }
}

} // verus!

verus! {

/// `str::to_ascii_lowercase`.
pub fn to_ascii_lowercase(s: &str) -> (r: String)
    ensures
        r@ == ascii_lower(s@),
{
    let v = chars_of(s);
    let mut out: Vec<char> = Vec::new();
    let mut i: usize = 0;
    while i < v.len()
        invariant
            i <= v.len(),
            v@ == s@,
            out@ == ascii_lower(s@).take(i as int),
        decreases v.len() - i,
    {
        out.push(lower_char_exec(v[i]));
        i = i + 1;
        assert(out@ =~= ascii_lower(s@).take(i as int));
    }
    assert(out@ =~= ascii_lower(s@));
    string_of(&out)
}

/// `str::eq_ignore_ascii_case`.
pub fn eq_ignore_ascii_case(a: &str, b: &str) -> (r: bool)
    ensures
        r == (ascii_lower(a@) == ascii_lower(b@)),
{
    let la = to_ascii_lowercase(a);
    let lb = to_ascii_lowercase(b);
    la == lb
}

/// First position of `c` in `s`, if any.
pub open spec fn index_of_char(s: Seq<char>, c: char) -> Option<int>
    decreases s.len(),
{
    if s.len() == 0 {
        None
    } else if s[0] == c {
        Some(0)
    } else {
        match index_of_char(s.drop_first(), c) {
            Some(i) => Some(i + 1),
            None => None,
        }
    }
}

pub proof fn lemma_index_of_char(s: Seq<char>, c: char)
    ensures
        match index_of_char(s, c) {
            Some(i) => 0 <= i < s.len() && s[i] == c && forall|j: int| 0 <= j < i ==> s[j] != c,
            None => forall|j: int| 0 <= j < s.len() ==> s[j] != c,
        },
    decreases s.len(),
{
    if s.len() > 0 && s[0] != c {
        lemma_index_of_char(s.drop_first(), c);
        match index_of_char(s.drop_first(), c) {
            Some(i) => {
                assert forall|j: int| 0 <= j < i + 1 implies s[j] != c by {
                    if j > 0 {
                        assert(s[j] == s.drop_first()[j - 1]);
                    }
                }
            },
            None => {
                assert forall|j: int| 0 <= j < s.len() implies s[j] != c by {
                    if j > 0 {
                        assert(s[j] == s.drop_first()[j - 1]);
                    }
                }
            },
        }
    }
}

/// The text before the first `c` (`s.split(c).next()`).
pub open spec fn before_char(s: Seq<char>, c: char) -> Seq<char> {
    match index_of_char(s, c) {
        Some(i) => s.take(i),
        None => s,
    }
}

/// The text after the first `c`, when there is one.
pub open spec fn after_char(s: Seq<char>, c: char) -> Option<Seq<char>> {
    match index_of_char(s, c) {
        Some(i) => Some(s.skip(i + 1)),
        None => None,
    }
}

/// Position of the first `c` in `s`.
pub fn find_char(s: &[char], c: char) -> (r: Option<usize>)
    ensures
        match r {
            Some(i) => index_of_char(s@, c) == Some(i as int),
            None => index_of_char(s@, c) is None,
        },
{
    proof {
        lemma_index_of_char(s@, c);
    }
    let mut i: usize = 0;
    while i < s.len()
        invariant
            i <= s.len(),
            forall|j: int| 0 <= j < i ==> s@[j] != c,
            match index_of_char(s@, c) {
                Some(k) => 0 <= k < s@.len() && s@[k] == c && forall|j: int| 0 <= j < k ==> s@[j] != c,
                None => forall|j: int| 0 <= j < s@.len() ==> s@[j] != c,
            },
        decreases s.len() - i,
    {
        if s[i] == c {
            return Some(i);
        }
        i = i + 1;
    }
    None
}

/// The text before the first `c`: `s.split(c).next()`.
pub fn split_first(s: &str, c: char) -> (r: String)
    ensures
        r@ == before_char(s@, c),
{
    let v = chars_of(s);
    proof {
        lemma_index_of_char(v@, c);
    }
    match find_char(&v, c) {
        Some(i) => {
            let mut out: Vec<char> = Vec::new();
            let mut k: usize = 0;
            while k < i
                invariant
                    k <= i,
                    i <= v.len(),
                    out@ == v@.take(k as int),
                decreases i - k,
            {
                out.push(v[k]);
                k = k + 1;
                assert(out@ =~= v@.take(k as int));
            }
            string_of(&out)
        },
        None => string_of(&v),
    }
}

/// The characters `s[from..]`.
pub fn chars_from(s: &Vec<char>, from: usize) -> (r: Vec<char>)
    requires
        from <= s.len(),
    ensures
        r@ == s@.skip(from as int),
{
    let mut out: Vec<char> = Vec::new();
    let mut k: usize = from;
    while k < s.len()
        invariant
            from <= k <= s.len(),
            out@ == s@.subrange(from as int, k as int),
        decreases s.len() - k,
    {
        out.push(s[k]);
        k = k + 1;
        assert(out@ =~= s@.subrange(from as int, k as int));
    }
    assert(out@ =~= s@.skip(from as int));
    out
}

/// The characters `s[from..to]`.
pub fn chars_range(s: &Vec<char>, from: usize, to: usize) -> (r: Vec<char>)
    requires
        from <= to <= s.len(),
    ensures
        r@ == s@.subrange(from as int, to as int),
{
    let mut out: Vec<char> = Vec::new();
    let mut k: usize = from;
    while k < to
        invariant
            from <= k <= to,
            to <= s.len(),
            out@ == s@.subrange(from as int, k as int),
        decreases to - k,
    {
        out.push(s[k]);
        k = k + 1;
        assert(out@ =~= s@.subrange(from as int, k as int));
    }
    out
}

/// `a` followed by `b`.
pub fn concat(a: &str, b: &str) -> (r: String)
    ensures
        r@ == a@ + b@,
{
    let mut s = a.to_owned();
    s.append(b);
    s
}

/// `n` copies of `c`.
pub fn repeat_char(c: char, n: usize) -> (r: String)
    ensures
        r@ == Seq::new(n as nat, |_i: int| c),
{
    let mut s = String::new();
    let mut i: usize = 0;
    while i < n
        invariant
            i <= n,
            s@ == Seq::new(i as nat, |_i: int| c),
        decreases n - i,
    {
        push_char(&mut s, c);
        i = i + 1;
        assert(s@ =~= Seq::new(i as nat, |_i: int| c));
    }
    s
}

/// Whether `p` is a prefix of `s` (`str::starts_with`).
pub fn starts_with(s: &str, p: &str) -> (r: bool)
    ensures
        r == p@.is_prefix_of(s@),
{
    let x = chars_of(s);
    let y = chars_of(p);
    if y.len() > x.len() {
        return false;
    }
    let mut i: usize = 0;
    while i < y.len()
        invariant
            i <= y.len() <= x.len(),
            x@ == s@,
            y@ == p@,
            forall|j: int| 0 <= j < i ==> y@[j] == x@[j],
        decreases y.len() - i,
    {
        if x[i] != y[i] {
            return false;
        }
        i = i + 1;
    }
    true
}

/// Whether `p` is a suffix of `s` (`str::ends_with`).
pub fn ends_with(s: &str, p: &str) -> (r: bool)
    ensures
        r == p@.is_suffix_of(s@),
{
    let x = chars_of(s);
    let y = chars_of(p);
    if y.len() > x.len() {
        return false;
    }
    let off = x.len() - y.len();
    let mut i: usize = 0;
    while i < y.len()
        invariant
            i <= y.len() <= x.len(),
            off == x.len() - y.len(),
            x@ == s@,
            y@ == p@,
            forall|j: int| 0 <= j < i ==> y@[j] == x@[off + j],
        decreases y.len() - i,
    {
        if x[off + i] != y[i] {
            return false;
        }
        i = i + 1;
    }
    true
}

} // verus!

verus! {

/// The pieces of `s` between occurrences of `c` (`str::split` with a char).
pub open spec fn split_all(s: Seq<char>, c: char) -> Seq<Seq<char>>
    decreases s.len(),
{
    match index_of_char(s, c) {
        Some(i) => if 0 <= i < s.len() {
            seq![s.take(i)] + split_all(s.skip(i + 1), c)
        } else {
            seq![s]
        },
        None => seq![s],
    }
}

/// The last piece after splitting on `c` (`s.rsplit(c).next()`).
pub open spec fn after_last_char(s: Seq<char>, c: char) -> Seq<char> {
    split_all(s, c).last()
}

pub proof fn lemma_split_all_nonempty(s: Seq<char>, c: char)
    ensures
        split_all(s, c).len() >= 1,
    decreases s.len(),
{
    lemma_index_of_char(s, c);
    match index_of_char(s, c) {
        Some(i) => {
            lemma_split_all_nonempty(s.skip(i + 1), c);
        },
        None => {},
    }
}

/// Text that ends with `c`, followed by a piece without `c`: the piece is
/// what follows the last `c`.
pub proof fn lemma_after_last_char_suffix(pre: Seq<char>, t: Seq<char>, c: char)
    requires
        pre.len() > 0,
        pre.last() == c,
        forall|j: int| 0 <= j < t.len() ==> t[j] != c,
    ensures
        after_last_char(pre + t, c) == t,
    decreases pre.len(),
{
    let s = pre + t;
    lemma_index_of_char(s, c);
    assert(s[pre.len() - 1] == c);
    match index_of_char(s, c) {
        Some(i) => {
            assert(i < pre.len());
            let rest = s.skip(i + 1);
            lemma_split_all_nonempty(rest, c);
            if i + 1 == pre.len() {
                assert(rest =~= t);
                lemma_index_of_char(t, c);
                assert(index_of_char(t, c) is None);
            } else {
                let pre2 = pre.skip(i + 1);
                assert(rest =~= pre2 + t);
                assert(pre2.last() == pre.last());
                lemma_after_last_char_suffix(pre2, t, c);
            }
            assert(split_all(s, c) == seq![s.take(i)] + split_all(rest, c));
            assert((seq![s.take(i)] + split_all(rest, c)).last() == split_all(rest, c).last());
        },
        None => {},
    }
}

/// Views of a list of strings.
pub open spec fn string_views(v: Seq<String>) -> Seq<Seq<char>> {
    Seq::new(v.len(), |i: int| v[i]@)
}

/// `s.split(c)`, collected.
pub fn split_by(s: &str, c: char) -> (r: Vec<String>)
    ensures
        string_views(r@) == split_all(s@, c),
{
    let v = chars_of(s);
    let mut out: Vec<String> = Vec::new();
    let mut start: usize = 0;
    assert(v@.skip(0) =~= v@);
    assert(string_views(out@) =~= seq![]);
    loop
        invariant
            v@ == s@,
            start <= v.len(),
            string_views(out@) + split_all(v@.skip(start as int), c) == split_all(s@, c),
        decreases v.len() - start,
    {
        let rest = chars_from(&v, start);
        proof {
            lemma_index_of_char(rest@, c);
        }
        match find_char(&rest, c) {
            Some(i) => {
                let piece = chars_range(&rest, 0, i);
                let ghost old_out = string_views(out@);
                out.push(string_of(&piece));
                proof {
                    assert(piece@ =~= rest@.take(i as int));
                    assert(string_views(out@) =~= old_out.push(piece@));
                    assert(rest@.skip(i + 1) =~= v@.skip(start + i + 1));
                    assert(split_all(rest@, c) =~= seq![rest@.take(i as int)] + split_all(
                        rest@.skip(i + 1),
                        c,
                    ));
                    assert(old_out.push(piece@) + split_all(v@.skip(start + i + 1), c) =~= old_out
                        + split_all(rest@, c));
                }
                start = start + i + 1;
            },
            None => {
                let ghost old_out = string_views(out@);
                out.push(string_of(&rest));
                proof {
                    assert(string_views(out@) =~= old_out.push(rest@));
                    assert(split_all(rest@, c) =~= seq![rest@]);
                    assert(old_out.push(rest@) =~= old_out + split_all(rest@, c));
                }
                return out;
            },
        }
    }
}

/// `parts` joined with `sep` between neighbours.
pub open spec fn join(parts: Seq<Seq<char>>, sep: Seq<char>) -> Seq<char>
    decreases parts.len(),
{
    if parts.len() == 0 {
        seq![]
    } else if parts.len() == 1 {
        parts[0]
    } else {
        join(parts.drop_last(), sep) + sep + parts.last()
    }
}

/// `parts.join(sep)`.
pub fn join_strings(parts: &Vec<String>, sep: &str) -> (r: String)
    ensures
        r@ == join(string_views(parts@), sep@),
{
    let mut out = String::new();
    let mut i: usize = 0;
    while i < parts.len()
        invariant
            i <= parts.len(),
            out@ == join(string_views(parts@).take(i as int), sep@),
        decreases parts.len() - i,
    {
        let ghost prev = string_views(parts@).take(i as int);
        if i > 0 {
            out.append(sep);
        }
        out.append(parts[i].as_str());
        i = i + 1;
        proof {
            let cur = string_views(parts@).take(i as int);
            assert(cur.drop_last() =~= prev);
            if i == 1 {
                assert(prev =~= seq![]);
                assert(out@ =~= cur[0]);
            }
        }
    }
    assert(string_views(parts@).take(parts.len() as int) =~= string_views(parts@));
    out
}

/// Position `i` starts an occurrence of `n` in `h`.
pub open spec fn occurs_at(h: Seq<char>, n: Seq<char>, i: int) -> bool {
    0 <= i && i + n.len() <= h.len() && h.subrange(i, i + n.len()) == n
}

/// First occurrence of `n` in `h` at or after `i` (`str::find`).
pub open spec fn find_from(h: Seq<char>, n: Seq<char>, i: int) -> Option<int>
    decreases h.len() + 1 - i,
{
    if i < 0 || i + n.len() > h.len() {
        None
    } else if occurs_at(h, n, i) {
        Some(i)
    } else {
        find_from(h, n, i + 1)
    }
}

/// First position where `n` occurs in `h`.
pub fn find_sub(h: &Vec<char>, n: &Vec<char>) -> (r: Option<usize>)
    ensures
        match r {
            Some(i) => find_from(h@, n@, 0) == Some(i as int),
            None => find_from(h@, n@, 0) is None,
        },
{
    if n.len() > h.len() {
        return None;
    }
    let last = h.len() - n.len();
    let mut i: usize = 0;
    loop
        invariant
            last == h.len() - n.len(),
            n.len() <= h.len(),
            i <= last,
            find_from(h@, n@, 0) == find_from(h@, n@, i as int),
        decreases last - i,
    {
        let mut k: usize = 0;
        let mut same = true;
        assert(h@.subrange(i as int, i as int) =~= n@.take(0));
        while k < n.len()
            invariant
                k <= n.len(),
                i + n.len() <= h.len(),
                same == (h@.subrange(i as int, i + k) == n@.take(k as int)),
            decreases n.len() - k,
        {
            let ghost was = same;
            if h[i + k] != n[k] {
                same = false;
            }
            k = k + 1;
            proof {
                if was && h@[i + k - 1] == n@[k - 1] {
                    assert(h@.subrange(i as int, i + k) =~= n@.take(k as int));
                } else {
                    if h@.subrange(i as int, i + k) == n@.take(k as int) {
                        assert(h@.subrange(i as int, i + k - 1) =~= h@.subrange(i as int, i + k).take(k - 1));
                        assert(n@.take(k - 1) =~= n@.take(k as int).take(k - 1));
                        assert(h@.subrange(i as int, i + k)[k - 1] == h@[i + k - 1]);
                    }
                }
            }
        }
        assert(n@.take(n.len() as int) =~= n@);
        if same {
            return Some(i);
        }
        assert(!occurs_at(h@, n@, i as int));
        assert(find_from(h@, n@, i as int) == find_from(h@, n@, i + 1));
        if i == last {
            assert(find_from(h@, n@, i + 1) is None);
            return None;
        }
        i = i + 1;
    }
}

/// `s` padded with spaces to `width` characters (`{:<width$}`).
pub open spec fn pad_spec(s: Seq<char>, width: nat) -> Seq<char> {
    if s.len() >= width {
        s
    } else {
        s + Seq::new((width - s.len()) as nat, |_i: int| ' ')
    }
}

/// Left-aligns `s` in a field of `width` characters.
pub fn pad_right(s: &str, width: usize) -> (r: String)
    ensures
        r@ == pad_spec(s@, width as nat),
{
    let v = chars_of(s);
    if v.len() >= width {
        return s.to_owned();
    }
    let fill = repeat_char(' ', width - v.len());
    concat(s, fill.as_str())
}

} // verus!

verus! {

pub open spec fn is_digit(c: char) -> bool {
    '0' <= c && c <= '9'
}

pub open spec fn digit_value(c: char) -> int {
    (c as int) - ('0' as int)
}

pub open spec fn all_digits(d: Seq<char>) -> bool {
    forall|i: int| 0 <= i < d.len() ==> is_digit(#[trigger] d[i])
}

/// The number written by the decimal digits `d`.
pub open spec fn digits_value(d: Seq<char>) -> int
    decreases d.len(),
{
    if d.len() == 0 {
        0
    } else {
        digits_value(d.drop_last()) * 10 + digit_value(d.last())
    }
}

proof fn lemma_digits_value_mono(d: Seq<char>, k: int)
    requires
        all_digits(d),
        0 <= k <= d.len(),
    ensures
        0 <= digits_value(d.take(k)) <= digits_value(d),
    decreases d.len() - k,
{
    if k < d.len() {
        lemma_digits_value_mono(d, k + 1);
        assert(d.take(k + 1).drop_last() =~= d.take(k));
        assert(is_digit(d[k]));
        assert(d.take(k + 1).last() == d[k]);
    } else {
        assert(d.take(k) =~= d);
        lemma_digits_value_nonneg(d);
    }
}

proof fn lemma_digits_value_nonneg(d: Seq<char>)
    requires
        all_digits(d),
    ensures
        digits_value(d) >= 0,
    decreases d.len(),
{
    if d.len() > 0 {
        assert(all_digits(d.drop_last())) by {
            assert forall|i: int| 0 <= i < d.drop_last().len() implies is_digit(#[trigger] d.drop_last()[i]) by {
                assert(d.drop_last()[i] == d[i]);
            }
        }
        lemma_digits_value_nonneg(d.drop_last());
        assert(is_digit(d[d.len() - 1]));
    }
}

/// What `s.parse::<i64>()` gives: an optional sign, then at least one
/// decimal digit and nothing else, within the range of `i64`.
pub open spec fn parse_i64_spec(s: Seq<char>) -> Option<int> {
    if s.len() == 0 {
        None
    } else if s[0] == '-' || s[0] == '+' {
        let d = s.drop_first();
        let v = if s[0] == '-' { -digits_value(d) } else { digits_value(d) };
        if d.len() > 0 && all_digits(d) && i64::MIN <= v <= i64::MAX {
            Some(v)
        } else {
            None
        }
    } else if all_digits(s) && digits_value(s) <= i64::MAX {
        Some(digits_value(s))
    } else {
        None
    }
}

/// Magnitude of the digits `d[from..]`, when it is at most `limit`.
fn digits_up_to(d: &Vec<char>, from: usize, limit: u64) -> (r: Option<u64>)
    requires
        from <= d.len(),
        limit >= 9,
    ensures
        match r {
            Some(v) => all_digits(d@.skip(from as int)) && v == digits_value(d@.skip(from as int))
                && v <= limit,
            None => !all_digits(d@.skip(from as int)) || digits_value(d@.skip(from as int)) > limit,
        },
{
    let ghost t = d@.skip(from as int);
    let mut acc: u64 = 0;
    let mut k: usize = from;
    while k < d.len()
        invariant
            from <= k <= d.len(),
            t == d@.skip(from as int),
            all_digits(t.take(k - from)),
            acc == digits_value(t.take(k - from)),
            acc <= limit,
            limit >= 9,
        decreases d.len() - k,
    {
        let c = d[k];
        if !('0' <= c && c <= '9') {
            proof {
                assert(t[k - from] == c);
            }
            return None;
        }
        let dv: u64 = (c as u8 - 48u8) as u64;
        proof {
            assert(t.take(k - from + 1).drop_last() =~= t.take(k - from));
            assert(t.take(k - from + 1).last() == c);
            assert(all_digits(t.take(k - from + 1))) by {
                assert forall|i: int| 0 <= i < k - from + 1 implies is_digit(#[trigger] t.take(k - from + 1)[i]) by {
                    if i < k - from {
                        assert(t.take(k - from + 1)[i] == t.take(k - from)[i]);
                    }
                }
            }
        }
        if acc > (limit - dv) / 10 {
            proof {
                assert(acc * 10 + dv > limit) by (nonlinear_arith)
                    requires
                        acc > (limit - dv) / 10,
                        dv <= 9,
                        dv <= limit,
                ;
                if all_digits(t) {
                    lemma_digits_value_mono(t, k - from + 1);
                }
            }
            return None;
        }
        proof {
            assert(acc * 10 + dv <= limit) by (nonlinear_arith)
                requires
                    acc <= (limit - dv) / 10,
                    dv <= limit,
            ;
        }
        acc = acc * 10 + dv;
        k = k + 1;
    }
    assert(t.take(k - from) =~= t);
    Some(acc)
}

/// `s.parse::<i64>().ok()`.
pub fn parse_i64(s: &str) -> (r: Option<i64>)
    ensures
        match r {
            Some(v) => parse_i64_spec(s@) == Some(v as int),
            None => parse_i64_spec(s@) is None,
        },
{
    let d = chars_of(s);
    if d.len() == 0 {
        return None;
    }
    if d[0] == '-' || d[0] == '+' {
        if d.len() == 1 {
            return None;
        }
        assert(d@.skip(1) =~= d@.drop_first());
        if d[0] == '-' {
            match digits_up_to(&d, 1, 9223372036854775808u64) {
                Some(m) => {
                    if m == 9223372036854775808u64 {
                        Some(i64::MIN)
                    } else {
                        let v: i64 = m as i64;
                        Some(-v)
                    }
                },
                None => None,
            }
        } else {
            match digits_up_to(&d, 1, 9223372036854775807u64) {
                Some(m) => Some(m as i64),
                None => None,
            }
        }
    } else {
        assert(d@.skip(0) =~= d@);
        match digits_up_to(&d, 0, 9223372036854775807u64) {
            Some(m) => Some(m as i64),
            None => None,
        }
    }
}

/// The decimal digit character for `d < 10`.
pub open spec fn digit_char(d: int) -> char {
    ((d + 48) as u8) as char
}

/// Decimal text of a natural number.
pub open spec fn nat_text(n: nat) -> Seq<char>
    decreases n,
{
    if n < 10 {
        seq![digit_char(n as int)]
    } else {
        nat_text(n / 10).push(digit_char((n % 10) as int))
    }
}

/// Decimal text of an integer, with a leading `-` when negative
/// (`to_string` on an integer).
pub open spec fn int_text(n: int) -> Seq<char> {
    if n < 0 {
        seq!['-'] + nat_text((-n) as nat)
    } else {
        nat_text(n as nat)
    }
}

fn u64_digits(n: u64) -> (r: Vec<char>)
    ensures
        r@ == nat_text(n as nat),
    decreases n,
{
    let d: u8 = (n % 10) as u8;
    let c = (d + 48u8) as char;
    if n < 10 {
        let mut v = Vec::new();
        v.push(c);
        v
    } else {
        let mut v = u64_digits(n / 10);
        v.push(c);
        v
    }
}

/// `n.to_string()` for an unsigned integer.
pub fn u64_to_string(n: u64) -> (r: String)
    ensures
        r@ == nat_text(n as nat),
{
    let v = u64_digits(n);
    string_of(&v)
}

/// `n.to_string()` for a signed integer.
pub fn i64_to_string(n: i64) -> (r: String)
    ensures
        r@ == int_text(n as int),
{
    if n < 0 {
        let m: u64 = if n == i64::MIN {
            9223372036854775808u64
        } else {
            (-n) as u64
        };
        let digits = u64_digits(m);
        let mut v: Vec<char> = Vec::new();
        v.push('-');
        let mut i: usize = 0;
        while i < digits.len()
            invariant
                i <= digits.len(),
                v@ == seq!['-'] + digits@.take(i as int),
            decreases digits.len() - i,
        {
            v.push(digits[i]);
            i = i + 1;
            assert(v@ =~= seq!['-'] + digits@.take(i as int));
        }
        assert(digits@.take(digits.len() as int) =~= digits@);
        string_of(&v)
    } else {
        u64_to_string(n as u64)
    }
}

/// `char::is_whitespace`: the Unicode White_Space characters.
pub open spec fn is_ws(c: char) -> bool {
    ('\u{9}' <= c && c <= '\u{d}') || c == ' ' || c == '\u{85}' || c == '\u{a0}' || c == '\u{1680}'
        || ('\u{2000}' <= c && c <= '\u{200a}') || c == '\u{2028}' || c == '\u{2029}' || c
        == '\u{202f}' || c == '\u{205f}' || c == '\u{3000}'
}

fn is_ws_exec(c: char) -> (r: bool)
    ensures
        r == is_ws(c),
{
    ('\u{9}' <= c && c <= '\u{d}') || c == ' ' || c == '\u{85}' || c == '\u{a0}' || c == '\u{1680}'
        || ('\u{2000}' <= c && c <= '\u{200a}') || c == '\u{2028}' || c == '\u{2029}' || c
        == '\u{202f}' || c == '\u{205f}' || c == '\u{3000}'
}

/// `s` without leading and trailing whitespace (`str::trim`): the span
/// from the first to the last non-whitespace character.
#[verifier::opaque]
pub open spec fn trim_spec(s: Seq<char>) -> Seq<char> {
    if forall|i: int| 0 <= i < s.len() ==> is_ws(#[trigger] s[i]) {
        seq![]
    } else {
        let a = choose|a: int|
            0 <= a < s.len() && !is_ws(s[a]) && forall|j: int| 0 <= j < a ==> is_ws(#[trigger] s[j]);
        let b = choose|b: int|
            0 <= b < s.len() && !is_ws(s[b]) && forall|j: int| b < j < s.len() ==> is_ws(#[trigger] s[j]);
        s.subrange(a, b + 1)
    }
}

/// `str::trim`.
pub fn trim(s: &str) -> (r: String)
    ensures
        r@ == trim_spec(s@),
{
    reveal(trim_spec);
    let v = chars_of(s);
    let mut a: usize = 0;
    while a < v.len() && is_ws_exec(v[a])
        invariant
            a <= v.len(),
            v@ == s@,
            forall|j: int| 0 <= j < a ==> is_ws(#[trigger] v@[j]),
        decreases v.len() - a,
    {
        a = a + 1;
    }
    if a == v.len() {
        return String::new();
    }
    let mut b: usize = v.len() - 1;
    while is_ws_exec(v[b])
        invariant
            a <= b < v.len(),
            !is_ws(v@[a as int]),
            v@ == s@,
            forall|j: int| b < j < v.len() ==> is_ws(#[trigger] v@[j]),
        decreases b,
    {
        b = b - 1;
    }
    proof {
        let sa = choose|x: int|
            0 <= x < s@.len() && !is_ws(s@[x]) && forall|j: int| 0 <= j < x ==> is_ws(#[trigger] s@[j]);
        let sb = choose|x: int|
            0 <= x < s@.len() && !is_ws(s@[x]) && forall|j: int| x < j < s@.len() ==> is_ws(#[trigger] s@[j]);
        assert(exists|x: int|
            0 <= x < s@.len() && !is_ws(s@[x]) && forall|j: int| 0 <= j < x ==> is_ws(#[trigger] s@[j]));
        assert(exists|x: int|
            0 <= x < s@.len() && !is_ws(s@[x]) && forall|j: int| x < j < s@.len() ==> is_ws(#[trigger] s@[j]));
        if sa < a {
        } else if sa > a {
            assert(is_ws(s@[a as int]));
        }
        if sb < b {
            assert(is_ws(s@[b as int]));
        } else if sb > b {
        }
    }
    let out = chars_range(&v, a, b + 1);
    string_of(&out)
}

} // verus!

verus! {

pub proof fn lemma_find_from_bounds(h: Seq<char>, n: Seq<char>, i: int)
    ensures
        match find_from(h, n, i) {
            Some(k) => i <= k && occurs_at(h, n, k) && k + n.len() <= h.len(),
            None => true,
        },
    decreases h.len() + 1 - i,
{
    if !(i < 0 || i + n.len() > h.len()) && !occurs_at(h, n, i) {
        lemma_find_from_bounds(h, n, i + 1);
    }
}

} // verus!

verus! {

/// `a <= b` in `str` order.
pub open spec fn str_leq() -> spec_fn(Seq<char>, Seq<char>) -> bool {
    |a: Seq<char>, b: Seq<char>| !seq_lt(b, a)
}

pub proof fn lemma_str_leq_total_ordering()
    ensures
        vstd::relations::total_ordering(str_leq()),
{
    let r = str_leq();
    assert forall|x: Seq<char>| #[trigger] r(x, x) by {
        lemma_seq_lt_irreflexive(x);
    }
    assert forall|x: Seq<char>, y: Seq<char>| #[trigger] r(x, y) && #[trigger] r(y, x) implies x == y by {
        lemma_seq_lt_total(x, y);
    }
    assert forall|x: Seq<char>, y: Seq<char>, z: Seq<char>| #[trigger] r(x, y) && #[trigger] r(y, z) implies r(x, z) by {
        lemma_seq_lt_total(x, y);
        lemma_seq_lt_total(y, z);
        if seq_lt(z, x) {
            if x == y {
            } else if y == z {
            } else {
                lemma_seq_lt_transitive(x, y, z);
                lemma_seq_lt_asymmetric(x, z);
            }
        }
    }
    assert forall|x: Seq<char>, y: Seq<char>| #[trigger] r(x, y) || #[trigger] r(y, x) by {
        lemma_seq_lt_asymmetric(x, y);
    }
}

/// The strings in ascending `str` order (`sort_unstable` on strings).
pub fn sort_strings(v: Vec<String>) -> (r: Vec<String>)
    ensures
        string_views(r@) == string_views(v@).sort_by(str_leq()),
{
    broadcast use vstd::seq_lib::group_to_multiset_ensures;

    let mut out: Vec<String> = Vec::new();
    let mut i: usize = 0;
    let ghost sv = string_views(v@);
    while i < v.len()
        invariant
            i <= v.len(),
            sv == string_views(v@),
            vstd::relations::sorted_by(string_views(out@), str_leq()),
            string_views(out@).to_multiset() == sv.take(i as int).to_multiset(),
        decreases v.len() - i,
    {
        let x = v[i].clone();
        let mut j: usize = 0;
        while j < out.len() && !str_lt(x.as_str(), out[j].as_str())
            invariant
                j <= out.len(),
                forall|k: int| 0 <= k < j ==> !seq_lt(x@, (#[trigger] out@[k])@),
            decreases out.len() - j,
        {
            j = j + 1;
        }
        let ghost before = string_views(out@);
        out.insert(j, x);
        proof {
            let after = string_views(out@);
            assert(after =~= before.insert(j as int, x@));
            assert(sv.take(i + 1) =~= sv.take(i as int).push(x@));
            vstd::seq_lib::to_multiset_insert(before, j as int, x@);
            vstd::seq_lib::to_multiset_build(sv.take(i as int), x@);
            let r = str_leq();
            lemma_str_leq_total_ordering();
            assert forall|a: int, b: int| 0 <= a < b < after.len() implies #[trigger] r(after[a], after[b]) by {
                if a < j && b < j {
                    assert(r(before[a], before[b]));
                } else if a < j && b == j {
                    assert(!seq_lt(x@, before[a]));
                } else if a < j && b > j {
                    assert(r(before[a], before[b - 1]));
                } else if a == j && b > j {
                    if b - 1 == j {
                        lemma_seq_lt_asymmetric(x@, before[j as int]);
                    } else {
                        lemma_seq_lt_asymmetric(x@, before[j as int]);
                        assert(r(before[j as int], before[b - 1]));
                        assert(r(x@, before[j as int]));
                    }
                } else {
                    assert(r(before[a - 1], before[b - 1]));
                }
            }
        }
        i = i + 1;
    }
    proof {
        assert(sv.take(v.len() as int) =~= sv);
        lemma_str_leq_total_ordering();
        sv.lemma_sort_by_ensures(str_leq());
        vstd::seq_lib::lemma_sorted_unique(string_views(out@), sv.sort_by(str_leq()), str_leq());
    }
    out
}

} // verus!

verus! {

/// `s` without leading whitespace (`str::trim_start`).
pub open spec fn trim_start_spec(s: Seq<char>) -> Seq<char>
    decreases s.len(),
{
    if s.len() > 0 && is_ws(s[0]) {
        trim_start_spec(s.drop_first())
    } else {
        s
    }
}

/// Number of leading whitespace characters.
pub fn leading_ws(v: &Vec<char>) -> (r: usize)
    ensures
        r <= v.len(),
        v@.skip(r as int) == trim_start_spec(v@),
{
    let mut i: usize = 0;
    assert(v@.skip(0) =~= v@);
    while i < v.len() && is_ws_exec(v[i])
        invariant
            i <= v.len(),
            trim_start_spec(v@) == trim_start_spec(v@.skip(i as int)),
        decreases v.len() - i,
    {
        assert(v@.skip(i as int).drop_first() =~= v@.skip(i + 1));
        i = i + 1;
    }
    i
}

/// `s` with every leading copy of `p` removed (`str::trim_start_matches`).
pub open spec fn strip_prefixes(s: Seq<char>, p: Seq<char>) -> Seq<char>
    decreases s.len(),
{
    if p.len() > 0 && p.is_prefix_of(s) {
        strip_prefixes(s.skip(p.len() as int), p)
    } else {
        s
    }
}

/// `s` with every trailing `c` removed (`str::trim_end_matches` with a char).
pub open spec fn strip_suffix_chars(s: Seq<char>, c: char) -> Seq<char>
    decreases s.len(),
{
    if s.len() > 0 && s.last() == c {
        strip_suffix_chars(s.drop_last(), c)
    } else {
        s
    }
}

pub fn trim_start_matches(s: &str, p: &str) -> (r: String)
    ensures
        r@ == strip_prefixes(s@, p@),
{
    let pv = chars_of(p);
    let mut cur = s.to_owned();
    if pv.len() == 0 {
        return cur;
    }
    loop
        invariant
            pv@ == p@,
            pv.len() > 0,
            strip_prefixes(s@, p@) == strip_prefixes(cur@, p@),
        decreases cur@.len(),
    {
        if !starts_with(cur.as_str(), p) {
            return cur;
        }
        let cv = chars_of(cur.as_str());
        let rest = chars_from(&cv, pv.len());
        cur = string_of(&rest);
    }
}

pub fn trim_end_char(s: &str, c: char) -> (r: String)
    ensures
        r@ == strip_suffix_chars(s@, c),
{
    let v = chars_of(s);
    let mut n: usize = v.len();
    assert(v@.take(v.len() as int) =~= v@);
    while n > 0 && v[n - 1] == c
        invariant
            n <= v.len(),
            strip_suffix_chars(s@, c) == strip_suffix_chars(v@.take(n as int), c),
            v@ == s@,
        decreases n,
    {
        assert(v@.take(n as int).drop_last() =~= v@.take(n - 1));
        n = n - 1;
    }
    let out = chars_range(&v, 0, n);
    assert(out@ =~= v@.take(n as int));
    string_of(&out)
}

} // verus!

verus! {

/// The characters of a `String`.
pub open spec fn sv(s: &String) -> Seq<char> {
    s@
}

} // verus!

verus! {

/// The Unicode lowercase of a text, as `str::to_lowercase` gives it.
pub uninterp spec fn unicode_lower(s: Seq<char>) -> Seq<char>;

/// `str::to_lowercase`: the Unicode lowercase of `s`. Its result is named,
/// not described: it depends on `s` alone, through std's case tables.
#[verifier::external_body]
pub fn to_lowercase(s: &str) -> (r: String)
    ensures
        r@ == unicode_lower(s@),
{
    s.to_lowercase()
}

/// The part of `s` after its last `c`, all of `s` when there is none
/// (`s.rsplit(c).next().unwrap_or(s)`).
pub fn last_segment(s: &str, c: char) -> (r: String)
    ensures
        r@ == after_last_char(s@, c),
{
    let parts = split_by(s, c);
    proof {
        lemma_split_all_nonempty(s@, c);
    }
    let n = parts.len();
    assert(string_views(parts@)[n - 1] == parts@[n - 1]@);
    parts[n - 1].clone()
}

/// `n` occurs somewhere in `h` (`str::contains`).
pub open spec fn contains_text(h: Seq<char>, n: Seq<char>) -> bool {
    find_from(h, n, 0) is Some
}

/// Whether `n` occurs in `h`.
pub fn contains_str(h: &str, n: &str) -> (r: bool)
    ensures
        r == contains_text(h@, n@),
{
    let hv = chars_of(h);
    let nv = chars_of(n);
    match find_sub(&hv, &nv) {
        Some(_) => true,
        None => false,
    }
}

} // verus!

verus! {

/// `s.split_once(c)`: the texts before and after the first `c`.
pub open spec fn split_once_spec(s: Seq<char>, c: char) -> Option<(Seq<char>, Seq<char>)> {
    match index_of_char(s, c) {
        Some(i) => Some((s.take(i), s.skip(i + 1))),
        None => None,
    }
}

pub fn split_once(s: &str, c: char) -> (r: Option<(String, String)>)
    ensures
        match r {
            Some(p) => split_once_spec(s@, c) == Some((p.0@, p.1@)),
            None => split_once_spec(s@, c) is None,
        },
{
    let v = chars_of(s);
    proof {
        lemma_index_of_char(v@, c);
    }
    match find_char(&v, c) {
        Some(i) => {
            let a = chars_range(&v, 0, i);
            let b = chars_from(&v, i + 1);
            proof {
                assert(a@ =~= s@.take(i as int));
            }
            Some((string_of(&a), string_of(&b)))
        },
        None => None,
    }
}

/// A `KEY=value` argument split at its first `=`; the error names the
/// argument that has none.
pub fn parse_key_val(s: &str) -> (r: Result<(String, String), String>)
    ensures
        match r {
            Ok(p) => split_once_spec(s@, '=') == Some((p.0@, p.1@)),
            Err(e) => split_once_spec(s@, '=') is None && e@ == "invalid KEY=value: no `=` found in `"@
                + s@ + "`"@,
        },
{
    match split_once(s, '=') {
        Some(p) => Ok(p),
        None => {
            let a = concat("invalid KEY=value: no `=` found in `", s);
            Err(concat(a.as_str(), "`"))
        },
    }
}

} // verus!
