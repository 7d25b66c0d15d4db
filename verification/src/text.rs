//! Character-sequence helpers shared by the parsers of this crate.

use vstd::prelude::*;
use vstd::string::StrSliceExecFns;
use vstd::string::StringExecFns;

verus! {

/// Unicode `White_Space` code points, the set that `str::trim` removes.
pub open spec fn is_ws(c: char) -> bool {
    ||| c == '\t' || c == '\n' || c == '\u{0B}' || c == '\u{0C}' || c == '\r'
    ||| c == ' ' || c == '\u{85}' || c == '\u{A0}' || c == '\u{1680}'
    ||| ('\u{2000}' <= c && c <= '\u{200A}')
    ||| c == '\u{2028}' || c == '\u{2029}' || c == '\u{202F}' || c == '\u{205F}'
    ||| c == '\u{3000}'
}

/// `s` without its leading whitespace.
pub open spec fn trim_start(s: Seq<char>) -> Seq<char>
    decreases s.len(),
{
    if s.len() > 0 && is_ws(s[0]) {
        trim_start(s.drop_first())
    } else {
        s
    }
}

/// `s` without its trailing whitespace.
pub open spec fn trim_end(s: Seq<char>) -> Seq<char>
    decreases s.len(),
{
    if s.len() > 0 && is_ws(s.last()) {
        trim_end(s.drop_last())
    } else {
        s
    }
}

/// `s` without leading and trailing whitespace.
pub open spec fn trim(s: Seq<char>) -> Seq<char> {
    trim_end(trim_start(s))
}

pub fn is_ws_char(c: char) -> (r: bool)
    ensures
        r == is_ws(c),
{
    c == '\t' || c == '\n' || c == '\u{0B}' || c == '\u{0C}' || c == '\r' || c == ' '
        || c == '\u{85}' || c == '\u{A0}' || c == '\u{1680}' || ('\u{2000}' <= c && c
        <= '\u{200A}') || c == '\u{2028}' || c == '\u{2029}' || c == '\u{202F}' || c
        == '\u{205F}' || c == '\u{3000}'
}

/// The characters of `s`, in order.
pub fn chars_of(s: &str) -> (v: Vec<char>)
    ensures
        v@ == s@,
{
    let mut v: Vec<char> = Vec::new();
    for c in it: s.chars()
        invariant
            it.seq() == s@,
            v@ == it.seq().take(it.index() as int),
    {
        v.push(c);
    }
    v
}

proof fn lemma_trim_start_skip(s: Seq<char>, i: int)
    requires
        0 <= i <= s.len(),
        forall|k: int| 0 <= k < i ==> is_ws(#[trigger] s[k]),
    ensures
        trim_start(s) == trim_start(s.subrange(i, s.len() as int)),
    decreases i,
{
    if i > 0 {
        lemma_trim_start_skip(s.drop_first(), i - 1);
        assert(s.drop_first().subrange(i - 1, s.drop_first().len() as int) =~= s.subrange(
            i,
            s.len() as int,
        ));
    } else {
        assert(s.subrange(0, s.len() as int) =~= s);
    }
}

proof fn lemma_trim_end_skip(s: Seq<char>, j: int)
    requires
        0 <= j <= s.len(),
        forall|k: int| j <= k < s.len() ==> is_ws(#[trigger] s[k]),
    ensures
        trim_end(s) == trim_end(s.subrange(0, j)),
    decreases s.len() - j,
{
    if j < s.len() {
        lemma_trim_end_skip(s.drop_last(), j);
        assert(s.drop_last().subrange(0, j) =~= s.subrange(0, j));
    } else {
        assert(s.subrange(0, s.len() as int) =~= s);
    }
}

/// Index range of `v[a..b]` with leading and trailing whitespace removed.
pub fn trim_range(v: &Vec<char>, a: usize, b: usize) -> (r: (usize, usize))
    requires
        a <= b <= v.len(),
    ensures
        a <= r.0 <= r.1 <= b,
        v@.subrange(r.0 as int, r.1 as int) == trim(v@.subrange(a as int, b as int)),
{
    let mut i: usize = a;
    while i < b && is_ws_char(v[i])
        invariant
            a <= i <= b,
            b <= v.len(),
            forall|k: int| a <= k < i ==> is_ws(#[trigger] v@[k]),
        decreases b - i,
    {
        i = i + 1;
    }
    let mut j: usize = b;
    while j > i && is_ws_char(v[j - 1])
        invariant
            a <= i <= j <= b,
            b <= v.len(),
            forall|k: int| j <= k < b ==> is_ws(#[trigger] v@[k]),
        decreases j,
    {
        j = j - 1;
    }
    proof {
        let s0 = v@.subrange(a as int, b as int);
        assert forall|k: int| 0 <= k < i - a implies is_ws(#[trigger] s0[k]) by {
            assert(s0[k] == v@[a + k]);
        }
        lemma_trim_start_skip(s0, i - a);
        let t = s0.subrange(i - a, b - a);
        assert(t =~= v@.subrange(i as int, b as int));
        assert(trim_start(t) == t);
        assert forall|k: int| j - i <= k < t.len() implies is_ws(#[trigger] t[k]) by {
            assert(t[k] == v@[i + k]);
        }
        lemma_trim_end_skip(t, j - i);
        let u = t.subrange(0, j - i);
        assert(u =~= v@.subrange(i as int, j as int));
        assert(trim_end(u) == u);
    }
    (i, j)
}

/// `str::trim`: the slice of `s` without leading and trailing Unicode whitespace.
pub fn trim_str(s: &str) -> (r: &str)
    ensures
        r@ == trim(s@),
{
    let v = chars_of(s);
    let (i, j) = trim_range(&v, 0, v.len());
    assert(v@.subrange(0, v@.len() as int) =~= v@);
    s.substring_char(i, j)
}

/// Whether `v[a..b]` reads `lit`.
pub fn range_eq(v: &Vec<char>, a: usize, b: usize, lit: &str) -> (r: bool)
    requires
        a <= b <= v.len(),
    ensures
        r == (v@.subrange(a as int, b as int) == lit@),
{
    let l = chars_of(lit);
    if b - a != l.len() {
        return false;
    }
    let mut k: usize = 0;
    while k < l.len()
        invariant
            a <= b <= v.len(),
            b - a == l.len(),
            k <= l.len(),
            l@ == lit@,
            forall|m: int| 0 <= m < k ==> v@[a + m] == l@[m],
        decreases l.len() - k,
    {
        if v[a + k] != l[k] {
            assert(v@.subrange(a as int, b as int)[k as int] != lit@[k as int]);
            return false;
        }
        k = k + 1;
    }
    assert(v@.subrange(a as int, b as int) =~= lit@);
    true
}

/// Whether `v[a..b]` begins with `lit`.
pub fn range_starts_with(v: &Vec<char>, a: usize, b: usize, lit: &str) -> (r: bool)
    requires
        a <= b <= v.len(),
    ensures
        r == lit@.is_prefix_of(v@.subrange(a as int, b as int)),
{
    let l = chars_of(lit);
    if l.len() > b - a {
        return false;
    }
    let e = a + l.len();
    let r = range_eq(v, a, e, lit);
    assert(v@.subrange(a as int, b as int).subrange(0, lit@.len() as int) =~= v@.subrange(
        a as int,
        e as int,
    ));
    r
}

/// Whether `v[a..b]` ends with `lit`.
pub fn range_ends_with(v: &Vec<char>, a: usize, b: usize, lit: &str) -> (r: bool)
    requires
        a <= b <= v.len(),
    ensures
        r == lit@.is_suffix_of(v@.subrange(a as int, b as int)),
{
    let l = chars_of(lit);
    if l.len() > b - a {
        return false;
    }
    let st = b - l.len();
    let r = range_eq(v, st, b, lit);
    let ghost t = v@.subrange(a as int, b as int);
    assert(t.subrange(t.len() - lit@.len(), t.len() as int) =~= v@.subrange(st as int, b as int));
    r
}

/// Whether `c` occurs in `v[a..b]`.
pub fn range_contains(v: &Vec<char>, a: usize, b: usize, c: char) -> (r: bool)
    requires
        a <= b <= v.len(),
    ensures
        r == v@.subrange(a as int, b as int).contains(c),
{
    let mut i: usize = a;
    while i < b
        invariant
            a <= i <= b,
            b <= v.len(),
            forall|k: int| a <= k < i ==> v@[k] != c,
        decreases b - i,
    {
        if v[i] == c {
            assert(v@.subrange(a as int, b as int)[i - a] == c);
            return true;
        }
        i = i + 1;
    }
    assert forall|k: int| 0 <= k < b - a implies v@.subrange(a as int, b as int)[k] != c by {
        assert(v@.subrange(a as int, b as int)[k] == v@[a + k]);
    }
    false
}

/// An owned copy of `s[a..b]`, counted in characters.
pub fn string_of(s: &str, a: usize, b: usize) -> (r: String)
    requires
        a <= b <= s@.len(),
    ensures
        r@ == s@.subrange(a as int, b as int),
{
    String::from_str(s.substring_char(a, b))
}

/// Splits `s` at every occurrence of `c`, as `str::split` with a `char` pattern does:
/// `n` separators give `n + 1` pieces, empty ones included.
pub open spec fn split(s: Seq<char>, c: char) -> Seq<Seq<char>>
    decreases s.len(),
{
    if s.len() == 0 {
        seq![Seq::<char>::empty()]
    } else {
        let r = split(s.drop_last(), c);
        if s.last() == c {
            r.push(Seq::<char>::empty())
        } else {
            r.update(r.len() - 1, r.last().push(s.last()))
        }
    }
}

pub proof fn lemma_split_nonempty(s: Seq<char>, c: char)
    ensures
        split(s, c).len() >= 1,
    decreases s.len(),
{
    if s.len() > 0 {
        lemma_split_nonempty(s.drop_last(), c);
    }
}

/// The pieces of `s` that the index ranges `r` cut out.
pub open spec fn segs(s: Seq<char>, r: Seq<(usize, usize)>) -> Seq<Seq<char>> {
    Seq::new(r.len(), |k: int| s.subrange(r[k].0 as int, r[k].1 as int))
}

/// Every range of `r` lies within `[a, b]`.
pub open spec fn ranges_within(r: Seq<(usize, usize)>, a: int, b: int) -> bool {
    forall|k: int| 0 <= k < r.len() ==> a <= (#[trigger] r[k]).0 <= r[k].1 <= b
}

/// Index ranges of the pieces of `v[a..b]` split at `c`.
pub fn split_ranges(v: &Vec<char>, a: usize, b: usize, c: char) -> (r: Vec<(usize, usize)>)
    requires
        a <= b <= v.len(),
    ensures
        segs(v@, r@) == split(v@.subrange(a as int, b as int), c),
        ranges_within(r@, a as int, b as int),
{
    let mut r: Vec<(usize, usize)> = Vec::new();
    let mut start: usize = a;
    let mut i: usize = a;
    assert(v@.subrange(a as int, a as int) =~= Seq::<char>::empty());
    assert(segs(v@, r@).push(v@.subrange(start as int, i as int)) =~= seq![Seq::<char>::empty()]);
    while i < b
        invariant
            a <= start <= i <= b,
            b <= v.len(),
            ranges_within(r@, a as int, b as int),
            segs(v@, r@).push(v@.subrange(start as int, i as int)) == split(
                v@.subrange(a as int, i as int),
                c,
            ),
        decreases b - i,
    {
        let ghost t = v@.subrange(a as int, i as int + 1);
        assert(t.drop_last() =~= v@.subrange(a as int, i as int));
        assert(t.last() == v@[i as int]);
        if v[i] == c {
            let ghost old_r = r@;
            r.push((start, i));
            assert(segs(v@, r@) =~= segs(v@, old_r).push(v@.subrange(start as int, i as int)));
            assert(v@.subrange(i as int + 1, i as int + 1) =~= Seq::<char>::empty());
            start = i + 1;
        } else {
            assert(v@.subrange(start as int, i as int).push(v@[i as int]) =~= v@.subrange(
                start as int,
                i as int + 1,
            ));
            assert(segs(v@, r@).push(v@.subrange(start as int, i as int + 1)) =~= segs(
                v@,
                r@,
            ).push(v@.subrange(start as int, i as int)).update(
                segs(v@, r@).len() as int,
                v@.subrange(start as int, i as int + 1),
            ));
        }
        i = i + 1;
    }
    let ghost old_r = r@;
    r.push((start, b));
    assert(segs(v@, r@) =~= segs(v@, old_r).push(v@.subrange(start as int, b as int)));
    r
}

/// `x` without one trailing carriage return.
pub open spec fn strip_cr(x: Seq<char>) -> Seq<char> {
    if x.len() > 0 && x.last() == '\r' {
        x.drop_last()
    } else {
        x
    }
}

/// The lines of `s` as `str::lines` yields them: split at `\n`, a `\r` just
/// before a `\n` dropped, and no empty piece after a final line ending.
pub open spec fn lines(s: Seq<char>) -> Seq<Seq<char>> {
    let p = split(s, '\n');
    let body = Seq::new((p.len() - 1) as nat, |k: int| strip_cr(p[k]));
    if p.last().len() == 0 {
        body
    } else {
        body.push(p.last())
    }
}

/// The non-empty pieces of `s`, in order.
pub open spec fn keep_nonempty(s: Seq<Seq<char>>) -> Seq<Seq<char>> {
    s.filter(|x: Seq<char>| x.len() > 0)
}

/// Each piece of `s` trimmed.
pub open spec fn trim_all(s: Seq<Seq<char>>) -> Seq<Seq<char>> {
    s.map_values(|x: Seq<char>| trim(x))
}

pub proof fn lemma_keep_nonempty_push(s: Seq<Seq<char>>, y: Seq<char>)
    ensures
        keep_nonempty(s.push(y)) == (if y.len() > 0 {
            keep_nonempty(s).push(y)
        } else {
            keep_nonempty(s)
        }),
{
    reveal_with_fuel(Seq::<_>::filter, 1);
    assert(s.push(y).drop_last() =~= s);
}

pub proof fn lemma_keep_nonempty_empty(s: Seq<Seq<char>>)
    requires
        s.len() == 0,
    ensures
        keep_nonempty(s) == s,
{
    reveal_with_fuel(Seq::<_>::filter, 1);
}

/// Index ranges of the lines of `v[a..b]`.
pub fn lines_ranges(v: &Vec<char>, a: usize, b: usize) -> (r: Vec<(usize, usize)>)
    requires
        a <= b <= v.len(),
    ensures
        segs(v@, r@) == lines(v@.subrange(a as int, b as int)),
        ranges_within(r@, a as int, b as int),
{
    let p = split_ranges(v, a, b, '\n');
    proof {
        lemma_split_nonempty(v@.subrange(a as int, b as int), '\n');
    }
    let ghost sp = split(v@.subrange(a as int, b as int), '\n');
    let n = p.len() - 1;
    let mut r: Vec<(usize, usize)> = Vec::new();
    let mut k: usize = 0;
    while k < n
        invariant
            n + 1 == p.len(),
            b <= v.len(),
            k <= n,
            r.len() == k,
            segs(v@, p@) == sp,
            ranges_within(p@, a as int, b as int),
            ranges_within(r@, a as int, b as int),
            forall|m: int| 0 <= m < k ==> #[trigger] segs(v@, r@)[m] == strip_cr(sp[m]),
        decreases n - k,
    {
        let (x, y) = p[k];
        assert(sp[k as int] == v@.subrange(x as int, y as int));
        if y > x && v[y - 1] == '\r' {
            assert(v@.subrange(x as int, y as int).drop_last() =~= v@.subrange(
                x as int,
                y as int - 1,
            ));
            let ghost old_r = r@;
            r.push((x, y - 1));
            assert(segs(v@, r@) =~= segs(v@, old_r).push(strip_cr(sp[k as int])));
        } else {
            let ghost old_r = r@;
            r.push((x, y));
            assert(segs(v@, r@) =~= segs(v@, old_r).push(strip_cr(sp[k as int])));
        }
        k = k + 1;
    }
    let (x, y) = p[n];
    assert(sp[n as int] == v@.subrange(x as int, y as int));
    let ghost body = Seq::new((sp.len() - 1) as nat, |m: int| strip_cr(sp[m]));
    assert(segs(v@, r@) =~= body);
    if x < y {
        let ghost old_r = r@;
        r.push((x, y));
        assert(segs(v@, r@) =~= segs(v@, old_r).push(v@.subrange(x as int, y as int)));
    }
    r
}

/// The ranges of `r` whose pieces are non-empty.
pub fn nonempty_ranges(v: &Vec<char>, r: &Vec<(usize, usize)>, a: usize, b: usize) -> (out: Vec<
    (usize, usize),
>)
    requires
        a <= b <= v.len(),
        ranges_within(r@, a as int, b as int),
    ensures
        segs(v@, out@) == keep_nonempty(segs(v@, r@)),
        ranges_within(out@, a as int, b as int),
{
    let mut out: Vec<(usize, usize)> = Vec::new();
    let mut k: usize = 0;
    proof {
        lemma_keep_nonempty_empty(segs(v@, r@).take(0));
    }
    while k < r.len()
        invariant
            k <= r.len(),
            a <= b <= v.len(),
            ranges_within(r@, a as int, b as int),
            ranges_within(out@, a as int, b as int),
            segs(v@, out@) == keep_nonempty(segs(v@, r@).take(k as int)),
        decreases r.len() - k,
    {
        let (x, y) = r[k];
        let ghost sk = segs(v@, r@);
        assert(sk.take(k as int + 1) =~= sk.take(k as int).push(sk[k as int]));
        proof {
            lemma_keep_nonempty_push(sk.take(k as int), sk[k as int]);
        }
        assert(r@[k as int] == (x, y));
        if x < y {
            let ghost old_out = out@;
            out.push((x, y));
            assert(segs(v@, out@) =~= segs(v@, old_out).push(v@.subrange(x as int, y as int)));
        } else {
            assert(v@.subrange(x as int, y as int).len() == 0);
        }
        k = k + 1;
    }
    assert(segs(v@, r@).take(r.len() as int) =~= segs(v@, r@));
    out
}

/// `s` with every trailing `c` removed (`str::trim_end_matches` with a `char`).
pub open spec fn strip_trailing(s: Seq<char>, c: char) -> Seq<char>
    decreases s.len(),
{
    if s.len() > 0 && s.last() == c {
        strip_trailing(s.drop_last(), c)
    } else {
        s
    }
}

/// `s` with every leading `c` removed (`str::trim_start_matches` with a `char`).
pub open spec fn strip_leading(s: Seq<char>, c: char) -> Seq<char>
    decreases s.len(),
{
    if s.len() > 0 && s[0] == c {
        strip_leading(s.drop_first(), c)
    } else {
        s
    }
}

/// End of `v[a..b]` once every trailing `c` is removed.
pub fn strip_trailing_range(v: &Vec<char>, a: usize, b: usize, c: char) -> (e: usize)
    requires
        a <= b <= v.len(),
    ensures
        a <= e <= b,
        v@.subrange(a as int, e as int) == strip_trailing(v@.subrange(a as int, b as int), c),
{
    let mut e: usize = b;
    while e > a && v[e - 1] == c
        invariant
            a <= e <= b,
            b <= v.len(),
            strip_trailing(v@.subrange(a as int, e as int), c) == strip_trailing(
                v@.subrange(a as int, b as int),
                c,
            ),
        decreases e,
    {
        assert(v@.subrange(a as int, e as int).drop_last() =~= v@.subrange(a as int, e - 1));
        e = e - 1;
    }
    e
}

/// Start of `v[a..b]` once every leading `c` is removed.
pub fn strip_leading_range(v: &Vec<char>, a: usize, b: usize, c: char) -> (st: usize)
    requires
        a <= b <= v.len(),
    ensures
        a <= st <= b,
        v@.subrange(st as int, b as int) == strip_leading(v@.subrange(a as int, b as int), c),
{
    let mut st: usize = a;
    while st < b && v[st] == c
        invariant
            a <= st <= b,
            b <= v.len(),
            strip_leading(v@.subrange(st as int, b as int), c) == strip_leading(
                v@.subrange(a as int, b as int),
                c,
            ),
        decreases b - st,
    {
        assert(v@.subrange(st as int, b as int).drop_first() =~= v@.subrange(st + 1, b as int));
        st = st + 1;
    }
    st
}

/// Whether `v[a..b]` and `w[c..d]` hold the same characters.
pub fn ranges_equal(v: &Vec<char>, a: usize, b: usize, w: &Vec<char>, c: usize, d: usize) -> (r:
    bool)
    requires
        a <= b <= v.len(),
        c <= d <= w.len(),
    ensures
        r == (v@.subrange(a as int, b as int) == w@.subrange(c as int, d as int)),
{
    if b - a != d - c {
        assert(v@.subrange(a as int, b as int).len() != w@.subrange(c as int, d as int).len());
        return false;
    }
    let mut k: usize = 0;
    while k < b - a
        invariant
            a <= b <= v.len(),
            c <= d <= w.len(),
            b - a == d - c,
            k <= b - a,
            forall|m: int|
                0 <= m < k ==> #[trigger] v@.subrange(a as int, b as int)[m] == w@.subrange(
                    c as int,
                    d as int,
                )[m],
        decreases b - a - k,
    {
        assert(v@.subrange(a as int, b as int)[k as int] == v@[a + k]);
        assert(w@.subrange(c as int, d as int)[k as int] == w@[c + k]);
        if v[a + k] != w[c + k] {
            return false;
        }
        k = k + 1;
    }
    assert(v@.subrange(a as int, b as int) =~= w@.subrange(c as int, d as int));
    true
}

/// Index ranges of the trimmed pieces of `r`.
pub fn trim_ranges(v: &Vec<char>, r: &Vec<(usize, usize)>, a: usize, b: usize) -> (out: Vec<
    (usize, usize),
>)
    requires
        a <= b <= v.len(),
        ranges_within(r@, a as int, b as int),
    ensures
        segs(v@, out@) == trim_all(segs(v@, r@)),
        ranges_within(out@, a as int, b as int),
{
    let mut out: Vec<(usize, usize)> = Vec::new();
    let mut k: usize = 0;
    while k < r.len()
        invariant
            k <= r.len(),
            a <= b <= v.len(),
            out.len() == k,
            ranges_within(r@, a as int, b as int),
            ranges_within(out@, a as int, b as int),
            forall|m: int| 0 <= m < k ==> #[trigger] segs(v@, out@)[m] == trim(segs(v@, r@)[m]),
        decreases r.len() - k,
    {
        let (x, y) = r[k];
        assert(r@[k as int] == (x, y));
        let t = trim_range(v, x, y);
        let ghost old_out = out@;
        out.push(t);
        assert(segs(v@, out@) =~= segs(v@, old_out).push(trim(segs(v@, r@)[k as int])));
        k = k + 1;
    }
    assert(segs(v@, out@) =~= trim_all(segs(v@, r@)));
    out
}

/// The view of an optional string slice.
pub open spec fn opt_str_view(o: Option<&str>) -> Option<Seq<char>> {
    match o {
        Some(s) => Some(s@),
        None => None,
    }
}

/// The view of an optional owned string.
pub open spec fn opt_string_view(o: Option<String>) -> Option<Seq<char>> {
    match o {
        Some(s) => Some(s@),
        None => None,
    }
}

/// `s` with every trailing occurrence of `p` removed (`str::trim_end_matches` with a `&str`).
pub open spec fn strip_suffix_all(s: Seq<char>, p: Seq<char>) -> Seq<char>
    decreases s.len(),
{
    if p.len() > 0 && p.is_suffix_of(s) {
        strip_suffix_all(s.subrange(0, s.len() - p.len()), p)
    } else {
        s
    }
}

/// `s` without the prefix `p` when it starts with it (`strip_prefix(p).unwrap_or(s)`).
pub open spec fn strip_prefix_or_keep(s: Seq<char>, p: Seq<char>) -> Seq<char> {
    if p.is_prefix_of(s) {
        s.skip(p.len() as int)
    } else {
        s
    }
}

/// The number of characters of `lit`.
pub fn char_len(lit: &str) -> (n: usize)
    ensures
        n == lit@.len(),
{
    chars_of(lit).len()
}

/// End of `v[a..b]` once every trailing occurrence of `lit` is removed.
pub fn strip_suffix_all_range(v: &Vec<char>, a: usize, b: usize, lit: &str) -> (e: usize)
    requires
        a <= b <= v.len(),
    ensures
        a <= e <= b,
        v@.subrange(a as int, e as int) == strip_suffix_all(v@.subrange(a as int, b as int), lit@),
{
    let l = char_len(lit);
    let mut e: usize = b;
    while l > 0 && range_ends_with(v, a, e, lit)
        invariant
            a <= e <= b,
            b <= v.len(),
            l == lit@.len(),
            strip_suffix_all(v@.subrange(a as int, e as int), lit@) == strip_suffix_all(
                v@.subrange(a as int, b as int),
                lit@,
            ),
        decreases e,
    {
        let ghost t = v@.subrange(a as int, e as int);
        assert(t.subrange(0, t.len() - l) =~= v@.subrange(a as int, e - l));
        e = e - l;
    }
    e
}

/// Start of `v[a..b]` once the prefix `lit` is removed, when it is there.
pub fn strip_prefix_range(v: &Vec<char>, a: usize, b: usize, lit: &str) -> (st: usize)
    requires
        a <= b <= v.len(),
    ensures
        a <= st <= b,
        v@.subrange(st as int, b as int) == strip_prefix_or_keep(v@.subrange(a as int, b as int), lit@),
{
    if range_starts_with(v, a, b, lit) {
        let l = char_len(lit);
        assert(v@.subrange(a as int, b as int).skip(l as int) =~= v@.subrange(a + l, b as int));
        a + l
    } else {
        a
    }
}

pub proof fn lemma_split_last_no_sep(s: Seq<char>, c: char)
    ensures
        !split(s, c).last().contains(c),
        s.contains(c) ==> s.len() >= split(s, c).last().len() + 1,
        !s.contains(c) ==> split(s, c).last() == s,
    decreases s.len(),
{
    if s.len() > 0 {
        lemma_split_last_no_sep(s.drop_last(), c);
        lemma_split_nonempty(s.drop_last(), c);
        let r = split(s.drop_last(), c);
        if s.last() != c {
            assert(!r.last().push(s.last()).contains(c)) by {
                if r.last().push(s.last()).contains(c) {
                    let k = choose|k: int| 0 <= k < r.last().push(s.last()).len() && r.last().push(
                        s.last(),
                    )[k] == c;
                    assert(r.last()[k] == c);
                }
            }
            if s.contains(c) {
                let k = choose|k: int| 0 <= k < s.len() && s[k] == c;
                assert(s.drop_last()[k] == c);
            }
            if !s.contains(c) {
                assert forall|k: int| 0 <= k < s.drop_last().len() implies s.drop_last()[k] != c by {
                    assert(s[k] == s.drop_last()[k]);
                }
                assert(r.last().push(s.last()) =~= s);
            }
        } else {
            assert(s[s.len() - 1] == c);
        }
    }
}

/// `list` joined with `sep` between consecutive items (`[&str]::join`).
pub open spec fn join(list: Seq<Seq<char>>, sep: Seq<char>) -> Seq<char>
    decreases list.len(),
{
    if list.len() == 0 {
        Seq::<char>::empty()
    } else if list.len() == 1 {
        list[0]
    } else {
        join(list.drop_last(), sep) + sep + list.last()
    }
}

pub proof fn lemma_split_no_sep(b: Seq<char>, c: char)
    requires
        !b.contains(c),
    ensures
        split(b, c) == seq![b],
    decreases b.len(),
{
    if b.len() > 0 {
        assert(!b.drop_last().contains(c)) by {
            if b.drop_last().contains(c) {
                let k = choose|k: int| 0 <= k < b.drop_last().len() && b.drop_last()[k] == c;
                assert(b[k] == c);
            }
        }
        lemma_split_no_sep(b.drop_last(), c);
        assert(b[b.len() - 1] != c);
        assert(b.drop_last().push(b.last()) =~= b);
        assert(seq![b.drop_last()].update(0, b.drop_last().push(b.last())) =~= seq![b]);
    } else {
        assert(b =~= Seq::<char>::empty());
    }
}

pub proof fn lemma_split_append(a: Seq<char>, b: Seq<char>, c: char)
    requires
        !b.contains(c),
    ensures
        split(a + seq![c] + b, c) == split(a, c).push(b),
    decreases b.len(),
{
    lemma_split_nonempty(a, c);
    if b.len() == 0 {
        assert((a + seq![c] + b).drop_last() =~= a);
        assert(b =~= Seq::<char>::empty());
    } else {
        let b0 = b.drop_last();
        assert(!b0.contains(c)) by {
            if b0.contains(c) {
                let k = choose|k: int| 0 <= k < b0.len() && b0[k] == c;
                assert(b[k] == c);
            }
        }
        lemma_split_append(a, b0, c);
        let s = a + seq![c] + b;
        assert(s.drop_last() =~= a + seq![c] + b0);
        assert(s.last() == b[b.len() - 1]);
        assert(b0.push(b.last()) =~= b);
        assert(split(a, c).push(b0).update(split(a, c).len() as int, b) =~= split(a, c).push(b));
    }
}

pub proof fn lemma_split_join(list: Seq<Seq<char>>, c: char)
    requires
        list.len() >= 1,
        forall|k: int| 0 <= k < list.len() ==> !(#[trigger] list[k]).contains(c),
    ensures
        split(join(list, seq![c]), c) == list,
    decreases list.len(),
{
    if list.len() == 1 {
        lemma_split_no_sep(list[0], c);
        assert(seq![list[0]] =~= list);
    } else {
        let init = list.drop_last();
        assert forall|k: int| 0 <= k < init.len() implies !(#[trigger] init[k]).contains(c) by {
            assert(init[k] == list[k]);
        }
        lemma_split_join(init, c);
        assert(!list[list.len() - 1].contains(c));
        lemma_split_append(join(init, seq![c]), list.last(), c);
        assert(init.push(list.last()) =~= list);
    }
}

pub proof fn lemma_trim_id(s: Seq<char>)
    requires
        s.len() > 0,
        !is_ws(s[0]),
        !is_ws(s.last()),
    ensures
        trim(s) == s,
{
    assert(trim_start(s) == s);
    assert(trim_end(s) == s);
}

pub proof fn lemma_no_sep_concat(a: Seq<char>, b: Seq<char>, c: char)
    requires
        !a.contains(c),
        !b.contains(c),
    ensures
        !(a + b).contains(c),
{
    if (a + b).contains(c) {
        let k = choose|k: int| 0 <= k < (a + b).len() && (a + b)[k] == c;
        if k < a.len() {
            assert(a[k] == c);
        } else {
            assert(b[k - a.len()] == c);
        }
    }
}

pub proof fn lemma_keep_nonempty_pair(a: Seq<char>, b: Seq<char>)
    requires
        a.len() > 0,
        b.len() > 0,
    ensures
        keep_nonempty(seq![a, b]) == seq![a, b],
{
    let e = Seq::<Seq<char>>::empty();
    lemma_keep_nonempty_empty(e);
    lemma_keep_nonempty_push(e, a);
    assert(e.push(a) =~= seq![a]);
    lemma_keep_nonempty_push(seq![a], b);
    assert(seq![a].push(b) =~= seq![a, b]);
}

pub proof fn lemma_split_pair(a: Seq<char>, b: Seq<char>, c: char)
    requires
        !a.contains(c),
        !b.contains(c),
    ensures
        split(a + seq![c] + b, c) == seq![a, b],
{
    lemma_split_append(a, b, c);
    lemma_split_no_sep(a, c);
    assert(seq![a].push(b) =~= seq![a, b]);
}

pub proof fn lemma_split_first(a: Seq<char>, b: Seq<char>, c: char)
    requires
        !a.contains(c),
    ensures
        split(a + seq![c] + b, c).len() >= 2,
        split(a + seq![c] + b, c)[0] == a,
    decreases b.len(),
{
    lemma_split_no_sep(a, c);
    if b.len() == 0 {
        assert((a + seq![c] + b).drop_last() =~= a);
    } else {
        let b0 = b.drop_last();
        lemma_split_first(a, b0, c);
        let s = a + seq![c] + b;
        assert(s.drop_last() =~= a + seq![c] + b0);
    }
}

} // verus!
