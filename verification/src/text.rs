//! Character-level text operations on which the label format rests:
//! whitespace, trimming, splitting into words, joining.

use vstd::prelude::*;

verus! {

/// Unicode `White_Space`, the property that `char::is_whitespace` tests.
pub open spec fn is_space(c: char) -> bool {
    let u: u32 = c as u32;
    (0x9 <= u && u <= 0xd) || u == 0x20 || u == 0x85 || u == 0xa0 || u == 0x1680
        || (0x2000 <= u && u <= 0x200a) || u == 0x2028 || u == 0x2029 || u == 0x202f
        || u == 0x205f || u == 0x3000
}

pub fn is_space_char(c: char) -> (r: bool)
    ensures
        r == is_space(c),
{
    let u: u32 = c as u32;
    (0x9 <= u && u <= 0xd) || u == 0x20 || u == 0x85 || u == 0xa0 || u == 0x1680
        || (0x2000 <= u && u <= 0x200a) || u == 0x2028 || u == 0x2029 || u == 0x202f
        || u == 0x205f || u == 0x3000
}

/// The characters of `s`, in order.
pub fn chars_of(s: &str) -> (v: Vec<char>)
    ensures
        v@ == s@,
{
    let mut v: Vec<char> = Vec::new();
    for c in it: s.chars()
        invariant
            v@ == it.seq().take(it.index() as int),
    {
        v.push(c);
    }
    v
}


/// `s` without its leading whitespace.
pub open spec fn trim_start(s: Seq<char>) -> Seq<char>
    decreases s.len(),
{
    if s.len() > 0 && is_space(s[0]) {
        trim_start(s.drop_first())
    } else {
        s
    }
}

/// `s` without its trailing whitespace.
pub open spec fn trim_end(s: Seq<char>) -> Seq<char>
    decreases s.len(),
{
    if s.len() > 0 && is_space(s.last()) {
        trim_end(s.drop_last())
    } else {
        s
    }
}

/// `s` without leading and trailing whitespace, as `str::trim` gives it.
pub open spec fn trim(s: Seq<char>) -> Seq<char> {
    trim_end(trim_start(s))
}

proof fn lemma_trim_start_at(s: Seq<char>, k: int)
    requires
        0 <= k <= s.len(),
        forall|j: int| 0 <= j < k ==> is_space(#[trigger] s[j]),
        k == s.len() || !is_space(s[k]),
    ensures
        trim_start(s) == s.skip(k),
    decreases k,
{
    if k == 0 {
        assert(s.skip(0) =~= s);
    } else {
        let t = s.drop_first();
        assert forall|j: int| 0 <= j < k - 1 implies is_space(#[trigger] t[j]) by {
            assert(t[j] == s[j + 1]);
        }
        lemma_trim_start_at(t, k - 1);
        assert(t.skip(k - 1) =~= s.skip(k));
    }
}

proof fn lemma_trim_end_at(s: Seq<char>, k: int)
    requires
        0 <= k <= s.len(),
        forall|j: int| k <= j < s.len() ==> is_space(#[trigger] s[j]),
        k == 0 || !is_space(s[k - 1]),
    ensures
        trim_end(s) == s.take(k),
    decreases s.len() - k,
{
    if k == s.len() {
        assert(s.take(k) =~= s);
    } else {
        let t = s.drop_last();
        assert forall|j: int| k <= j < t.len() implies is_space(#[trigger] t[j]) by {
            assert(t[j] == s[j]);
        }
        lemma_trim_end_at(t, k);
        assert(t.take(k) =~= s.take(k));
    }
}

/// The bounds of `v[lo..hi]` once whitespace is trimmed from both ends.
pub fn trim_bounds(v: &Vec<char>, lo: usize, hi: usize) -> (r: (usize, usize))
    requires
        lo <= hi <= v@.len(),
    ensures
        lo <= r.0 <= r.1 <= hi,
        v@.subrange(r.0 as int, r.1 as int) == trim(v@.subrange(lo as int, hi as int)),
{
    let mut a: usize = lo;
    while a < hi && is_space_char(v[a])
        invariant
            lo <= a <= hi <= v@.len(),
            forall|j: int| lo <= j < a ==> is_space(#[trigger] v@[j]),
        decreases hi - a,
    {
        a = a + 1;
    }
    let mut b: usize = hi;
    while b > a && is_space_char(v[b - 1])
        invariant
            lo <= a <= b <= hi <= v@.len(),
            forall|j: int| b <= j < hi ==> is_space(#[trigger] v@[j]),
        decreases b - a,
    {
        b = b - 1;
    }
    proof {
        let s = v@.subrange(lo as int, hi as int);
        lemma_trim_start_at(s, a - lo);
        let t = s.skip(a - lo);
        assert(t =~= v@.subrange(a as int, hi as int));
        lemma_trim_end_at(t, b - a);
        assert(t.take(b - a) =~= v@.subrange(a as int, b as int));
    }
    (a, b)
}


proof fn lemma_trim_start_keeps_end(s: Seq<char>)
    ensures
        s.len() > 0 && !is_space(s.last()) ==> trim_start(s).len() > 0 && trim_start(s).last() == s.last(),
        trim_start(s).len() > 0 ==> !is_space(trim_start(s)[0]),
        trim_start(s).len() == 0 ==> trim_end(trim_start(s)) == trim_start(s),
    decreases s.len(),
{
    if s.len() > 0 && is_space(s[0]) {
        lemma_trim_start_keeps_end(s.drop_first());
    }
}

proof fn lemma_trim_end_shape(s: Seq<char>)
    ensures
        trim_end(s).len() > 0 ==> !is_space(trim_end(s).last()),
        trim_end(s).len() <= s.len(),
        forall|j: int| 0 <= j < trim_end(s).len() ==> trim_end(s)[j] == s[j],
    decreases s.len(),
{
    if s.len() > 0 && is_space(s.last()) {
        let t = s.drop_last();
        lemma_trim_end_shape(t);
        assert forall|j: int| 0 <= j < trim_end(s).len() implies trim_end(s)[j] == s[j] by {
            assert(trim_end(s)[j] == t[j]);
            assert(t[j] == s[j]);
        }
    }
}

/// Trimming a trimmed text changes nothing.
pub proof fn lemma_trim_idempotent(s: Seq<char>)
    ensures
        trim(trim(s)) == trim(s),
{
    let t = trim_start(s);
    let u = trim_end(t);
    lemma_trim_start_keeps_end(t);
    lemma_trim_start_keeps_end(s);
    lemma_trim_end_shape(t);
    if u.len() > 0 {
        assert(u[0] == t[0]);
        assert(!is_space(u[0]));
        assert(trim_start(u) == u);
        assert(!is_space(u.last()));
        assert(trim_end(u) == u);
    } else {
        assert(trim_start(u) == u);
        assert(trim_end(u) == u);
    }
}

/// What separates the words of a text.
#[derive(Clone, Copy, Debug, PartialEq, Eq)]
pub enum Delimiter {
    /// The colon between the segments of a tag.
    Colon,
    /// Any whitespace, between the tokens of a tag list.
    Whitespace,
}

pub open spec fn is_delimiter(d: Delimiter, c: char) -> bool {
    match d {
        Delimiter::Colon => c == ':',
        Delimiter::Whitespace => is_space(c),
    }
}

pub fn is_delimiter_char(d: Delimiter, c: char) -> (r: bool)
    ensures
        r == is_delimiter(d, c),
{
    match d {
        Delimiter::Colon => c == ':',
        Delimiter::Whitespace => is_space_char(c),
    }
}

/// The maximal runs of non-delimiter characters of `s`, in order: what
/// `s.split(':').filter(|w| !w.is_empty())` gives for the colon, and what
/// `s.split_whitespace()` gives for whitespace.
pub open spec fn words(s: Seq<char>, d: Delimiter) -> Seq<Seq<char>>
    decreases s.len(),
{
    if s.len() == 0 {
        seq![]
    } else {
        let w = words(s.drop_last(), d);
        let c = s.last();
        if is_delimiter(d, c) {
            w
        } else if s.len() == 1 || is_delimiter(d, s[s.len() - 2]) {
            w.push(seq![c])
        } else {
            w.update(w.len() - 1, w.last().push(c))
        }
    }
}

/// No character of `s` is a delimiter of kind `d`.
pub open spec fn free_of(s: Seq<char>, d: Delimiter) -> bool {
    forall|j: int| 0 <= j < s.len() ==> !is_delimiter(d, #[trigger] s[j])
}

/// The views of a sequence of strings.
pub open spec fn texts(v: Seq<String>) -> Seq<Seq<char>> {
    v.map_values(|s: String| s@)
}

/// `parts` joined, with `sep` between each two of them.
pub open spec fn join(parts: Seq<Seq<char>>, sep: Seq<char>) -> Seq<char>
    decreases parts.len(),
{
    if parts.len() == 0 {
        seq![]
    } else if parts.len() == 1 {
        parts[0]
    } else {
        join(parts.drop_last(), sep) + sep + parts.last()
    }
}

/// Every word is non-empty, holds no delimiter, and keeps any property
/// that all characters of the text have.
pub proof fn lemma_words_shape(s: Seq<char>, d: Delimiter, e: Delimiter)
    ensures
        forall|k: int| 0 <= k < words(s, d).len() ==> (#[trigger] words(s, d)[k]).len() > 0,
        forall|k: int| 0 <= k < words(s, d).len() ==> free_of(#[trigger] words(s, d)[k], d),
        free_of(s, e) ==> forall|k: int| 0 <= k < words(s, d).len() ==> free_of(
            #[trigger] words(s, d)[k],
            e,
        ),
        s.len() > 0 && !is_delimiter(d, s.last()) ==> words(s, d).len() > 0,
    decreases s.len(),
{
    if s.len() > 0 {
        let t = s.drop_last();
        lemma_words_shape(t, d, e);
        if free_of(s, e) {
            assert forall|j: int| 0 <= j < t.len() implies !is_delimiter(e, #[trigger] t[j]) by {
                assert(t[j] == s[j]);
            }
        }
        let w = words(t, d);
        let c = s.last();
        if !is_delimiter(d, c) && !(s.len() == 1 || is_delimiter(d, s[s.len() - 2])) {
            assert(t.len() > 0 && !is_delimiter(d, t.last()));
            let u = w.last().push(c);
            assert(free_of(u, d)) by {
                assert forall|j: int| 0 <= j < u.len() implies !is_delimiter(d, #[trigger] u[j]) by {
                    if j < u.len() - 1 {
                        assert(u[j] == w.last()[j]);
                    }
                }
            }
            if free_of(s, e) {
                assert(!is_delimiter(e, s[s.len() - 1]));
                assert forall|j: int| 0 <= j < u.len() implies !is_delimiter(e, #[trigger] u[j]) by {
                    if j < u.len() - 1 {
                        assert(u[j] == w.last()[j]);
                    }
                }
            }
        }
        if !is_delimiter(d, c) && free_of(s, e) {
            assert(!is_delimiter(e, s[s.len() - 1]));
        }
    }
}

/// A delimiter splits a text into the words before it and the words after it.
pub proof fn lemma_words_split(a: Seq<char>, x: char, b: Seq<char>, d: Delimiter)
    requires
        is_delimiter(d, x),
    ensures
        words(a + seq![x] + b, d) == words(a, d) + words(b, d),
    decreases b.len(),
{
    let ax = a + seq![x];
    if b.len() == 0 {
        assert(ax + b =~= ax);
        assert(ax.drop_last() =~= a);
        assert(words(a, d) + words(b, d) =~= words(a, d));
    } else {
        let b1 = b.drop_last();
        let c = b.last();
        lemma_words_split(a, x, b1, d);
        let s = ax + b;
        assert(s.drop_last() =~= ax + b1);
        assert(s.last() == c);
        let wa = words(a, d);
        let wb1 = words(b1, d);
        if is_delimiter(d, c) {
        } else if b.len() == 1 {
            assert(s[s.len() - 2] == x);
            assert((wa + wb1).push(seq![c]) =~= wa + wb1.push(seq![c]));
        } else {
            assert(s[s.len() - 2] == b[b.len() - 2]);
            if is_delimiter(d, b[b.len() - 2]) {
                assert((wa + wb1).push(seq![c]) =~= wa + wb1.push(seq![c]));
            } else {
                lemma_words_shape(b1, d, d);
                assert(b1.last() == b[b.len() - 2]);
                assert(wb1.len() > 0);
                let w = wa + wb1;
                assert(w.last() == wb1.last());
                assert(w.update(w.len() - 1, w.last().push(c)) =~= wa + wb1.update(
                    wb1.len() - 1,
                    wb1.last().push(c),
                ));
            }
        }
    }
}

/// A non-empty text without delimiters is a single word.
pub proof fn lemma_words_single(p: Seq<char>, d: Delimiter)
    requires
        p.len() > 0,
        free_of(p, d),
    ensures
        words(p, d) == seq![p],
    decreases p.len(),
{
    let t = p.drop_last();
    if t.len() == 0 {
        assert(words(t, d) =~= Seq::<Seq<char>>::empty());
        assert(p =~= seq![p.last()]);
    } else {
        assert(free_of(t, d)) by {
            assert forall|j: int| 0 <= j < t.len() implies !is_delimiter(d, #[trigger] t[j]) by {
                assert(t[j] == p[j]);
            }
        }
        lemma_words_single(t, d);
        assert(!is_delimiter(d, p[p.len() - 2]));
        assert(t.push(p.last()) =~= p);
    }
}

/// A delimiter after a text adds no word.
pub proof fn lemma_words_trailing(p: Seq<char>, x: char, d: Delimiter)
    requires
        is_delimiter(d, x),
    ensures
        words(p.push(x), d) == words(p, d),
{
    assert(p.push(x).drop_last() =~= p);
}

/// Joining non-empty, delimiter-free parts with one delimiter and splitting
/// the result into words gives back the parts.
pub proof fn lemma_words_join(parts: Seq<Seq<char>>, x: char, d: Delimiter)
    requires
        is_delimiter(d, x),
        forall|k: int| 0 <= k < parts.len() ==> (#[trigger] parts[k]).len() > 0,
        forall|k: int| 0 <= k < parts.len() ==> free_of(#[trigger] parts[k], d),
    ensures
        words(join(parts, seq![x]), d) == parts,
    decreases parts.len(),
{
    if parts.len() == 0 {
        assert(words(Seq::<char>::empty(), d) =~= parts);
    } else if parts.len() == 1 {
        lemma_words_single(parts[0], d);
        assert(seq![parts[0]] =~= parts);
    } else {
        let init = parts.drop_last();
        assert forall|k: int| 0 <= k < init.len() implies (#[trigger] init[k]).len() > 0 by {
            assert(init[k] == parts[k]);
        }
        assert forall|k: int| 0 <= k < init.len() implies free_of(#[trigger] init[k], d) by {
            assert(init[k] == parts[k]);
        }
        lemma_words_join(init, x, d);
        lemma_words_split(join(init, seq![x]), x, parts.last(), d);
        lemma_words_single(parts.last(), d);
        assert(init + seq![parts.last()] =~= parts);
    }
}


/// Joining keeps what all parts and the separator are free of, and a
/// first part that is not empty keeps the result from being empty.
pub proof fn lemma_join_shape(parts: Seq<Seq<char>>, sep: Seq<char>, d: Delimiter)
    ensures
        parts.len() > 0 && parts[0].len() > 0 ==> join(parts, sep).len() > 0,
        free_of(sep, d) && (forall|k: int| 0 <= k < parts.len() ==> free_of(#[trigger] parts[k], d))
            ==> free_of(join(parts, sep), d),
    decreases parts.len(),
{
    if parts.len() > 1 {
        let init = parts.drop_last();
        lemma_join_shape(init, sep, d);
        assert(init[0] == parts[0]);
        if free_of(sep, d) && (forall|k: int| 0 <= k < parts.len() ==> free_of(#[trigger] parts[k], d)) {
            assert forall|k: int| 0 <= k < init.len() implies free_of(#[trigger] init[k], d) by {
                assert(init[k] == parts[k]);
            }
            let j1 = join(init, sep);
            let r = j1 + sep + parts.last();
            assert(free_of(parts[parts.len() - 1], d));
            assert forall|i: int| 0 <= i < r.len() implies !is_delimiter(d, #[trigger] r[i]) by {
                if i < j1.len() {
                    assert(r[i] == j1[i]);
                } else if i < j1.len() + sep.len() {
                    assert(r[i] == sep[i - j1.len()]);
                } else {
                    assert(r[i] == parts.last()[i - j1.len() - sep.len()]);
                }
            }
        }
    }
}

/// The texts that index ranges pick out of `v`.
pub open spec fn range_texts(v: Seq<char>, rs: Seq<(usize, usize)>) -> Seq<Seq<char>> {
    Seq::new(rs.len(), |k: int| v.subrange(rs[k].0 as int, rs[k].1 as int))
}

/// The index ranges of the words of `v[lo..hi]`.
fn word_ranges(v: &Vec<char>, lo: usize, hi: usize, d: Delimiter) -> (r: Vec<(usize, usize)>)
    requires
        lo <= hi <= v@.len(),
    ensures
        forall|k: int| 0 <= k < r@.len() ==> lo <= (#[trigger] r@[k]).0 <= r@[k].1 <= hi,
        range_texts(v@, r@) == words(v@.subrange(lo as int, hi as int), d),
{
    let mut r: Vec<(usize, usize)> = Vec::new();
    let mut i = lo;
    while i < hi
        invariant
            lo <= i <= hi <= v@.len(),
            forall|k: int| 0 <= k < r@.len() ==> lo <= (#[trigger] r@[k]).0 <= r@[k].1 <= i,
            range_texts(v@, r@) == words(v@.subrange(lo as int, i as int), d),
            i > lo && !is_delimiter(d, v@[i - 1]) ==> r@.len() > 0 && r@.last().1 == i,
        decreases hi - i,
    {
        let c = v[i];
        let ghost before = r@;
        let ghost s = v@.subrange(lo as int, i + 1);
        assert(s.drop_last() =~= v@.subrange(lo as int, i as int));
        assert(s.last() == c);
        if is_delimiter_char(d, c) {
        } else if i == lo || is_delimiter_char(d, v[i - 1]) {
            r.push((i, i + 1));
            proof {
                if i > lo {
                    assert(s[s.len() - 2] == v@[i - 1]);
                }
                assert(v@.subrange(i as int, i + 1) =~= seq![c]);
                assert(range_texts(v@, r@) =~= range_texts(v@, before).push(seq![c]));
            }
        } else {
            let last: usize = r.len() - 1;
            let start: usize = r[last].0;
            r.set(last, (start, i + 1));
            proof {
                assert(s[s.len() - 2] == v@[i - 1]);
                let w = range_texts(v@, before);
                assert(w.last() == v@.subrange(start as int, i as int));
                assert(v@.subrange(start as int, i + 1) =~= w.last().push(c));
                assert(range_texts(v@, r@) =~= w.update(w.len() - 1, w.last().push(c)));
            }
        }
        i = i + 1;
    }
    r
}

/// The words of `s[lo..hi]`, as owned strings; `v` holds the characters of `s`.
pub fn words_of(s: &str, v: &Vec<char>, lo: usize, hi: usize, d: Delimiter) -> (r: Vec<String>)
    requires
        v@ == s@,
        lo <= hi <= v@.len(),
    ensures
        texts(r@) == words(v@.subrange(lo as int, hi as int), d),
{
    let ranges = word_ranges(v, lo, hi, d);
    let mut r: Vec<String> = Vec::new();
    let mut k: usize = 0;
    while k < ranges.len()
        invariant
            k <= ranges@.len(),
            v@ == s@,
            forall|j: int| 0 <= j < ranges@.len() ==> lo <= (#[trigger] ranges@[j]).0 <= ranges@[j].1 <= hi,
            hi <= v@.len(),
            r@.len() == k,
            texts(r@) == range_texts(v@, ranges@).take(k as int),
        decreases ranges@.len() - k,
    {
        let (a, b): (usize, usize) = ranges[k];
        let w = s.substring_char(a, b).to_owned();
        assert(w@ == v@.subrange(a as int, b as int));
        let ghost old_r = r@;
        r.push(w);
        proof {
            assert(r@ == old_r.push(w));
            assert(texts(r@)[k as int] == w@);
            assert(texts(r@) =~= range_texts(v@, ranges@).take(k + 1));
        }
        k = k + 1;
    }
    proof {
        assert(range_texts(v@, ranges@).take(k as int) =~= range_texts(v@, ranges@));
    }
    r
}

/// The label separator: a semicolon with a space on either side.
pub open spec fn separator() -> Seq<char> {
    seq![' ', ';', ' ']
}

pub open spec fn separator_at(s: Seq<char>, i: int) -> bool {
    &&& 0 <= i
    &&& i + 3 <= s.len()
    &&& s[i] == ' '
    &&& s[i + 1] == ';'
    &&& s[i + 2] == ' '
}

/// Where the first separator of `s` starts, as `split_once(" ; ")` finds it.
pub open spec fn first_separator(s: Seq<char>) -> Option<int> {
    if exists|i: int| separator_at(s, i) {
        Some(
            choose|i: int|
                separator_at(s, i) && forall|j: int| 0 <= j < i ==> !separator_at(s, j),
        )
    } else {
        None
    }
}

/// A separator with none before it is the first one.
pub proof fn lemma_first_separator(s: Seq<char>, i: int)
    requires
        separator_at(s, i),
        forall|j: int| 0 <= j < i ==> !separator_at(s, j),
    ensures
        first_separator(s) == Some(i),
{
    let k = choose|k: int| separator_at(s, k) && forall|j: int| 0 <= j < k ==> !separator_at(s, j);
    assert(separator_at(s, k) && forall|j: int| 0 <= j < k ==> !separator_at(s, j));
    if k < i {
        assert(!separator_at(s, k));
    }
    if i < k {
        assert(!separator_at(s, i));
    }
}

/// Where the first separator of `v` starts, if there is one.
pub fn find_separator(v: &Vec<char>) -> (r: Option<usize>)
    ensures
        r matches Some(i) ==> first_separator(v@) == Some(i as int) && i + 3 <= v@.len(),
        r is None ==> first_separator(v@) is None,
{
    let n: usize = v.len();
    if n < 3 {
        assert(!exists|i: int| separator_at(v@, i));
        return None;
    }
    let mut i: usize = 0;
    while i < n - 2
        invariant
            n == v@.len(),
            n >= 3,
            i <= n - 2,
            forall|j: int| 0 <= j < i ==> !separator_at(v@, j),
        decreases n - i,
    {
        if v[i] == ' ' && v[i + 1] == ';' && v[i + 2] == ' ' {
            proof {
                lemma_first_separator(v@, i as int);
            }
            return Some(i);
        }
        i = i + 1;
    }
    assert(!exists|j: int| separator_at(v@, j));
    None
}


/// The strings of `parts` joined, with `sep` between each two of them.
pub fn join_strings(parts: &Vec<String>, sep: &str) -> (r: String)
    ensures
        r@ == join(texts(parts@), sep@),
{
    let mut r = String::new();
    let mut i: usize = 0;
    while i < parts.len()
        invariant
            i <= parts@.len(),
            r@ == join(texts(parts@).take(i as int), sep@),
        decreases parts@.len() - i,
    {
        let ghost done = texts(parts@).take(i as int);
        let ghost next = texts(parts@).take(i + 1);
        if i > 0 {
            r.append(sep);
        }
        r.append(parts[i].as_str());
        proof {
            assert(next.drop_last() =~= done);
            assert(next.last() == parts@[i as int]@);
            if i == 0 {
                assert(r@ =~= next[0]);
            }
        }
        i = i + 1;
    }
    proof {
        assert(texts(parts@).take(i as int) =~= texts(parts@));
    }
    r
}

} // verus!
