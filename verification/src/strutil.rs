//! String utilities shared by the parsing and rendering modules:
//! splitting on a separator character, prefix tests, trimming, and
//! decimal digit handling.

use vstd::prelude::*;

verus! {

broadcast use vstd::string::group_string_axioms;

/// The views of a sequence of owned strings.
pub open spec fn views(v: Seq<String>) -> Seq<Seq<char>> {
    Seq::new(v.len(), |i: int| v[i]@)
}

/// Splitting a character sequence on a separator: the parts between the
/// separators, in order. Splitting the empty sequence gives one empty part.
pub open spec fn spec_split(s: Seq<char>, sep: char) -> Seq<Seq<char>>
    decreases s.len(),
{
    if s.len() == 0 {
        seq![Seq::<char>::empty()]
    } else if s.last() == sep {
        spec_split(s.drop_last(), sep).push(Seq::<char>::empty())
    } else {
        let p = spec_split(s.drop_last(), sep);
        p.update(p.len() - 1, p.last().push(s.last()))
    }
}

pub proof fn lemma_split_nonempty(s: Seq<char>, sep: char)
    ensures
        spec_split(s, sep).len() >= 1,
    decreases s.len(),
{
    if s.len() > 0 {
        lemma_split_nonempty(s.drop_last(), sep);
    }
}

/// `p` is a prefix of `s`.
pub open spec fn spec_has_prefix(s: Seq<char>, p: Seq<char>) -> bool {
    p.len() <= s.len() && s.subrange(0, p.len() as int) == p
}

pub fn has_prefix(s: &str, p: &str) -> (b: bool)
    ensures
        b == spec_has_prefix(s@, p@),
{
    let sn = s.unicode_len();
    let pn = p.unicode_len();
    if pn > sn {
        return false;
    }
    let mut i: usize = 0;
    while i < pn
        invariant
            sn == s@.len(),
            pn == p@.len(),
            pn <= sn,
            i <= pn,
            forall|k: int| 0 <= k < i ==> s@[k] == p@[k],
        decreases pn - i,
    {
        if s.get_char(i) != p.get_char(i) {
            proof {
                assert(s@.subrange(0, p@.len() as int)[i as int] == s@[i as int]);
            }
            return false;
        }
        i = i + 1;
    }
    proof {
        assert(s@.subrange(0, p@.len() as int) =~= p@);
    }
    true
}

/// Equality of two string slices, stated over their views.
pub fn str_eq(a: &str, b: &str) -> (r: bool)
    ensures
        r == (a@ == b@),
{
    let sa = a.to_owned();
    let sb = b.to_owned();
    sa == sb
}

pub fn split_str(s: &str, sep: char) -> (parts: Vec<String>)
    ensures
        views(parts@) == spec_split(s@, sep),
{
    let n = s.unicode_len();
    let mut parts: Vec<String> = Vec::new();
    let mut start: usize = 0;
    let mut i: usize = 0;
    proof {
        assert(s@.take(0).len() == 0);
        assert(views(parts@).push(s@.subrange(0, 0)) =~~= spec_split(s@.take(0), sep));
    }
    while i < n
        invariant
            n == s@.len(),
            start <= i <= n,
            views(parts@).push(s@.subrange(start as int, i as int)) =~~= spec_split(
                s@.take(i as int),
                sep,
            ),
        decreases n - i,
    {
        let ghost prev = s@.take(i as int);
        let ghost cur = s@.take((i + 1) as int);
        proof {
            assert(cur.drop_last() =~= prev);
            assert(cur.last() == s@[i as int]);
        }
        let c = s.get_char(i);
        if c == sep {
            let piece = s.substring_char(start, i).to_owned();
            let ghost old_parts = parts@;
            parts.push(piece);
            proof {
                assert(views(parts@) =~= views(old_parts).push(s@.subrange(
                    start as int,
                    i as int,
                )));
                assert(spec_split(cur, sep) == spec_split(prev, sep).push(Seq::<char>::empty()));
                assert(views(parts@).push(s@.subrange((i + 1) as int, (i + 1) as int)) =~~= spec_split(
                    cur,
                    sep,
                ));
            }
            start = i + 1;
        } else {
            proof {
                let p = spec_split(prev, sep);
                assert(p == views(parts@).push(s@.subrange(start as int, i as int)));
                assert(p.last() == s@.subrange(start as int, i as int));
                assert(s@.subrange(start as int, i as int).push(s@[i as int]) =~= s@.subrange(
                    start as int,
                    (i + 1) as int,
                ));
                assert(views(parts@).push(s@.subrange(start as int, (i + 1) as int)) =~~= p.update(
                    p.len() - 1,
                    p.last().push(cur.last()),
                ));
            }
        }
        i = i + 1;
    }
    let piece = s.substring_char(start, n).to_owned();
    let ghost old_parts = parts@;
    parts.push(piece);
    proof {
        assert(s@.take(n as int) =~= s@);
        assert(views(parts@) =~~= views(old_parts).push(s@.subrange(start as int, n as int)));
        assert(views(parts@) =~~= spec_split(s@, sep));
    }
    parts
}

/// Whitespace for trimming purposes: space, tab, carriage return, newline.
pub open spec fn is_ws(c: char) -> bool {
    c == ' ' || c == '\t' || c == '\r' || c == '\n'
}

pub fn is_ws_char(c: char) -> (b: bool)
    ensures
        b == is_ws(c),
{
    c == ' ' || c == '\t' || c == '\r' || c == '\n'
}

pub open spec fn spec_trim_start(s: Seq<char>) -> Seq<char>
    decreases s.len(),
{
    if s.len() > 0 && is_ws(s[0]) {
        spec_trim_start(s.skip(1))
    } else {
        s
    }
}

pub open spec fn spec_trim_end(s: Seq<char>) -> Seq<char>
    decreases s.len(),
{
    if s.len() > 0 && is_ws(s.last()) {
        spec_trim_end(s.drop_last())
    } else {
        s
    }
}

/// Both ends trimmed of whitespace.
pub open spec fn spec_trim(s: Seq<char>) -> Seq<char> {
    spec_trim_end(spec_trim_start(s))
}

pub fn trim_str(s: &str) -> (r: String)
    ensures
        r@ == spec_trim(s@),
{
    let n = s.unicode_len();
    let mut lo: usize = 0;
    proof {
        assert(s@.skip(0) =~= s@);
    }
    while lo < n && is_ws_char(s.get_char(lo))
        invariant
            n == s@.len(),
            lo <= n,
            spec_trim_start(s@) == spec_trim_start(s@.skip(lo as int)),
        decreases n - lo,
    {
        proof {
            assert(s@.skip(lo as int)[0] == s@[lo as int]);
            assert(s@.skip(lo as int).skip(1) =~= s@.skip((lo + 1) as int));
        }
        lo = lo + 1;
    }
    proof {
        if lo < n {
            assert(s@.skip(lo as int)[0] == s@[lo as int]);
        }
        assert(spec_trim_start(s@) == s@.skip(lo as int));
    }
    let mut hi: usize = n;
    proof {
        assert(s@.skip(lo as int) =~= s@.subrange(lo as int, n as int));
    }
    while hi > lo && is_ws_char(s.get_char(hi - 1))
        invariant
            n == s@.len(),
            lo <= hi <= n,
            spec_trim_end(s@.skip(lo as int)) == spec_trim_end(
                s@.subrange(lo as int, hi as int),
            ),
        decreases hi,
    {
        proof {
            let cur = s@.subrange(lo as int, hi as int);
            assert(cur.last() == s@[(hi - 1) as int]);
            assert(cur.drop_last() =~= s@.subrange(lo as int, (hi - 1) as int));
        }
        hi = hi - 1;
    }
    proof {
        let cur = s@.subrange(lo as int, hi as int);
        if hi > lo {
            assert(cur.last() == s@[(hi - 1) as int]);
        }
        assert(spec_trim_end(cur) == cur);
        assert(s@.skip(lo as int) =~= s@.subrange(lo as int, n as int));
    }
    s.substring_char(lo, hi).to_owned()
}


/// Index of the first occurrence of `c` in `s`, or -1 when absent.
pub open spec fn spec_find(s: Seq<char>, c: char) -> int
    decreases s.len(),
{
    if s.len() == 0 {
        -1
    } else if s[0] == c {
        0
    } else {
        let r = spec_find(s.skip(1), c);
        if r < 0 {
            -1
        } else {
            1 + r
        }
    }
}

pub proof fn lemma_find_bounds(s: Seq<char>, c: char)
    ensures
        spec_find(s, c) < s.len(),
        spec_find(s, c) >= 0 ==> s[spec_find(s, c)] == c,
        -1 <= spec_find(s, c),
    decreases s.len(),
{
    if s.len() > 0 && s[0] != c {
        lemma_find_bounds(s.skip(1), c);
    }
}

pub proof fn lemma_find_at(s: Seq<char>, c: char, i: int)
    requires
        0 <= i < s.len(),
        s[i] == c,
        forall|k: int| 0 <= k < i ==> s[k] != c,
    ensures
        spec_find(s, c) == i,
    decreases i,
{
    if i > 0 {
        assert(forall|k: int| 0 <= k < i - 1 ==> s.skip(1)[k] == s[k + 1]);
        lemma_find_at(s.skip(1), c, i - 1);
    }
}

proof fn lemma_find_absent(s: Seq<char>, c: char)
    requires
        forall|k: int| 0 <= k < s.len() ==> s[k] != c,
    ensures
        spec_find(s, c) == -1,
    decreases s.len(),
{
    if s.len() > 0 {
        assert(forall|k: int| 0 <= k < s.len() - 1 ==> s.skip(1)[k] == s[k + 1]);
        lemma_find_absent(s.skip(1), c);
    }
}

/// First occurrence of `c` in `s`, as an index.
pub fn find_char(s: &str, c: char) -> (r: Option<usize>)
    ensures
        spec_find(s@, c) < 0 ==> r is None,
        spec_find(s@, c) >= 0 ==> r == Some(spec_find(s@, c) as usize),
{
    let n = s.unicode_len();
    let mut i: usize = 0;
    while i < n
        invariant
            n == s@.len(),
            i <= n,
            forall|k: int| 0 <= k < i ==> s@[k] != c,
        decreases n - i,
    {
        if s.get_char(i) == c {
            proof {
                lemma_find_at(s@, c, i as int);
            }
            return Some(i);
        }
        i = i + 1;
    }
    proof {
        lemma_find_absent(s@, c);
    }
    None
}

/// A decimal digit.
pub open spec fn is_digit(c: char) -> bool {
    48 <= c as u32 <= 57
}

pub open spec fn all_digits(s: Seq<char>) -> bool {
    forall|i: int| 0 <= i < s.len() ==> is_digit(s[i])
}

pub open spec fn digit_val(c: char) -> int {
    c as u32 - 48
}

/// Value of a digit string, most significant digit first.
pub open spec fn spec_digits_val(s: Seq<char>) -> int
    decreases s.len(),
{
    if s.len() == 0 {
        0
    } else {
        spec_digits_val(s.drop_last()) * 10 + digit_val(s.last())
    }
}

pub proof fn lemma_digits_val_nonneg(s: Seq<char>)
    requires
        all_digits(s),
    ensures
        spec_digits_val(s) >= 0,
    decreases s.len(),
{
    if s.len() > 0 {
        lemma_digits_val_nonneg(s.drop_last());
    }
}

/// The value of a digit string is at least the value of any of its prefixes.
pub proof fn lemma_digits_val_prefix_le(s: Seq<char>, i: int)
    requires
        all_digits(s),
        0 <= i <= s.len(),
    ensures
        spec_digits_val(s.take(i)) <= spec_digits_val(s),
    decreases s.len() - i,
{
    if i < s.len() {
        lemma_digits_val_prefix_le(s.drop_last(), i);
        assert(s.drop_last().take(i) =~= s.take(i));
        lemma_digits_val_nonneg(s.drop_last());
        assert(spec_digits_val(s.drop_last()) * 10 >= spec_digits_val(s.drop_last())) by (nonlinear_arith)
            requires spec_digits_val(s.drop_last()) >= 0;
    } else {
        assert(s.take(i) =~= s);
    }
}

/// Decimal rendering of a non-negative integer.
pub open spec fn spec_dec_str(n: int) -> Seq<char>
    decreases n,
{
    if n < 10 {
        seq!["0123456789"@[n]]
    } else {
        spec_dec_str(n / 10).push("0123456789"@[n % 10])
    }
}

pub fn dec_str(n: usize) -> (r: String)
    ensures
        r@ == spec_dec_str(n as int),
    decreases n,
{
    proof {
        reveal_strlit("0123456789");
    }
    if n < 10 {
        let d = "0123456789".substring_char(n, n + 1);
        proof {
            assert(d@ =~= seq!["0123456789"@[n as int]]);
        }
        d.to_owned()
    } else {
        let mut r = dec_str(n / 10);
        let m = n % 10;
        let d = "0123456789".substring_char(m, m + 1);
        proof {
            assert(d@ =~= seq!["0123456789"@[(n % 10) as int]]);
        }
        r.append(d);
        proof {
            assert(r@ =~= spec_dec_str((n / 10) as int).push("0123456789"@[(n % 10) as int]));
        }
        r
    }
}

/// The non-empty elements of a sequence of parts, in order.
pub open spec fn nonempties(parts: Seq<Seq<char>>) -> Seq<Seq<char>>
    decreases parts.len(),
{
    if parts.len() == 0 {
        Seq::empty()
    } else if parts.last().len() > 0 {
        nonempties(parts.drop_last()).push(parts.last())
    } else {
        nonempties(parts.drop_last())
    }
}

/// ASCII lower-casing of a character sequence.
pub open spec fn lower_char(c: char) -> char {
    if 65 <= c as u32 <= 90 {
        ((c as u32 + 32) as u8) as char
    } else {
        c
    }
}

pub open spec fn spec_ascii_lower(s: Seq<char>) -> Seq<char> {
    Seq::new(s.len(), |i: int| lower_char(s[i]))
}

/// Whether `s`, lower-cased, reads "true".
pub fn is_true_value(s: &str) -> (b: bool)
    ensures
        b == (spec_ascii_lower(s@) == "true"@),
{
    proof {
        reveal_strlit("true");
    }
    let n = s.unicode_len();
    if n != 4 {
        proof {
            assert(spec_ascii_lower(s@).len() == s@.len());
        }
        return false;
    }
    let c0 = s.get_char(0);
    let c1 = s.get_char(1);
    let c2 = s.get_char(2);
    let c3 = s.get_char(3);
    let b = (c0 == 't' || c0 == 'T') && (c1 == 'r' || c1 == 'R') && (c2 == 'u' || c2 == 'U') && (c3
        == 'e' || c3 == 'E');
    proof {
        if b {
            assert(spec_ascii_lower(s@) =~= "true"@);
        } else {
            assert(!(spec_ascii_lower(s@) == "true"@)) by {
                if spec_ascii_lower(s@) == "true"@ {
                    assert(spec_ascii_lower(s@)[0] == lower_char(s@[0]));
                    assert(spec_ascii_lower(s@)[1] == lower_char(s@[1]));
                    assert(spec_ascii_lower(s@)[2] == lower_char(s@[2]));
                    assert(spec_ascii_lower(s@)[3] == lower_char(s@[3]));
                    assert(lower_char(s@[0]) == 't');
                    assert(lower_char(s@[1]) == 'r');
                    assert(lower_char(s@[2]) == 'u');
                    assert(lower_char(s@[3]) == 'e');
                }
            }
        }
    }
    b
}

/// A sequence with no leading or trailing whitespace is its own trim.
pub proof fn lemma_trim_id(s: Seq<char>)
    requires
        s.len() > 0,
        !is_ws(s[0]),
        !is_ws(s.last()),
    ensures
        spec_trim(s) == s,
{
    assert(spec_trim_start(s) == s);
    assert(spec_trim_end(s) == s);
}

/// One leading space is trimmed away.
pub proof fn lemma_trim_space_before(s: Seq<char>)
    requires
        s.len() > 0,
        !is_ws(s[0]),
        !is_ws(s.last()),
    ensures
        spec_trim(seq![' '] + s) == s,
{
    let x = seq![' '] + s;
    assert(x[0] == ' ');
    assert(x.skip(1) =~= s);
    assert(spec_trim_start(x) == spec_trim_start(x.skip(1)));
    assert(spec_trim_start(s) == s);
    assert(spec_trim_end(s) == s);
}

/// One trailing space is trimmed away.
pub proof fn lemma_trim_space_after(s: Seq<char>)
    requires
        s.len() > 0,
        !is_ws(s[0]),
        !is_ws(s.last()),
    ensures
        spec_trim(s + seq![' ']) == s,
{
    let x = s + seq![' '];
    assert(x[0] == s[0]);
    assert(spec_trim_start(x) == x);
    assert(x.last() == ' ');
    assert(x.drop_last() =~= s);
    assert(spec_trim_end(x) == spec_trim_end(s));
    assert(spec_trim_end(s) == s);
}

/// Splitting distributes over a separator: the split of `a + sep + b` is
/// the split of `a` followed by the split of `b`.
pub proof fn lemma_split_append(a: Seq<char>, b: Seq<char>, sep: char)
    ensures
        spec_split(a + seq![sep] + b, sep) == spec_split(a, sep) + spec_split(b, sep),
    decreases b.len(),
{
    lemma_split_nonempty(a, sep);
    if b.len() == 0 {
        assert(a + seq![sep] + b =~= a + seq![sep]);
        assert((a + seq![sep]).drop_last() =~= a);
        assert((a + seq![sep]).last() == sep);
        assert(spec_split(a + seq![sep], sep) == spec_split(a, sep).push(Seq::<char>::empty()));
        assert(spec_split(b, sep) == seq![Seq::<char>::empty()]);
        assert(spec_split(a, sep).push(Seq::<char>::empty()) =~= spec_split(a, sep) + spec_split(
            b,
            sep,
        ));
    } else {
        lemma_split_append(a, b.drop_last(), sep);
        lemma_split_nonempty(b.drop_last(), sep);
        let whole = a + seq![sep] + b;
        assert(whole.last() == b.last());
        assert(whole.drop_last() =~= a + seq![sep] + b.drop_last());
        if b.last() == sep {
            assert(spec_split(whole, sep) == spec_split(whole.drop_last(), sep).push(
                Seq::<char>::empty(),
            ));
            assert(spec_split(b, sep) == spec_split(b.drop_last(), sep).push(Seq::<char>::empty()));
            assert(spec_split(whole, sep) =~= spec_split(a, sep) + spec_split(b, sep));
        } else {
            let p = spec_split(whole.drop_last(), sep);
            let q = spec_split(b.drop_last(), sep);
            assert(spec_split(whole, sep) == p.update(p.len() - 1, p.last().push(b.last())));
            assert(spec_split(b, sep) == q.update(q.len() - 1, q.last().push(b.last())));
            assert(p == spec_split(a, sep) + q);
            assert(p.last() == q.last());
            assert(spec_split(whole, sep) =~= spec_split(a, sep) + spec_split(b, sep));
        }
    }
}

/// Splitting a sequence that holds no separator gives that sequence back whole.
pub proof fn lemma_split_no_sep(s: Seq<char>, sep: char)
    requires
        forall|i: int| 0 <= i < s.len() ==> s[i] != sep,
    ensures
        spec_split(s, sep) == seq![s],
    decreases s.len(),
{
    if s.len() == 0 {
        assert(spec_split(s, sep) =~~= seq![s]);
    } else {
        lemma_split_no_sep(s.drop_last(), sep);
        let p = spec_split(s.drop_last(), sep);
        assert(p.last() == s.drop_last());
        assert(s.drop_last().push(s.last()) =~= s);
        assert(p.update(p.len() - 1, s) =~~= seq![s]);
    }
}

} // verus!
