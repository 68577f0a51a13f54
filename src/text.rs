use vstd::prelude::*;
use vstd::std_specs::iter::IteratorSpec;

verus! {

/// The characters that carry the Unicode `White_Space` property.
pub open spec fn is_space_char(c: char) -> bool {
    ('\u{9}' <= c && c <= '\u{d}') || c == ' ' || c == '\u{85}' || c == '\u{a0}' || c
        == '\u{1680}' || ('\u{2000}' <= c && c <= '\u{200a}') || c == '\u{2028}' || c
        == '\u{2029}' || c == '\u{202f}' || c == '\u{205f}' || c == '\u{3000}'
}

/// Whether `c` is a whitespace character, as `char::is_whitespace` decides it.
pub fn is_space(c: char) -> (r: bool)
    ensures
        r == is_space_char(c),
{
    ('\u{9}' <= c && c <= '\u{d}') || c == ' ' || c == '\u{85}' || c == '\u{a0}' || c
        == '\u{1680}' || ('\u{2000}' <= c && c <= '\u{200a}') || c == '\u{2028}' || c
        == '\u{2029}' || c == '\u{202f}' || c == '\u{205f}' || c == '\u{3000}'
}

/// `t` without its leading whitespace.
pub open spec fn trim_start(t: Seq<char>) -> Seq<char>
    decreases t.len(),
{
    if t.len() > 0 && is_space_char(t[0]) {
        trim_start(t.drop_first())
    } else {
        t
    }
}

/// `t` without its trailing whitespace.
pub open spec fn trim_end(t: Seq<char>) -> Seq<char>
    decreases t.len(),
{
    if t.len() > 0 && is_space_char(t.last()) {
        trim_end(t.drop_last())
    } else {
        t
    }
}

/// `t` without whitespace at either end.
pub open spec fn trim(t: Seq<char>) -> Seq<char> {
    trim_end(trim_start(t))
}

/// The index of the first `c` in `s`, or `s.len()` where there is none.
pub open spec fn first_index(s: Seq<char>, c: char) -> nat
    decreases s.len(),
{
    if s.len() == 0 {
        0
    } else if s[0] == c {
        0
    } else {
        1 + first_index(s.drop_first(), c)
    }
}

/// The non-empty trimmed pieces of `s` between commas, in order.
pub open spec fn tokens(s: Seq<char>) -> Seq<Seq<char>>
    decreases s.len(),
{
    let k = first_index(s, ',') as int;
    let t = trim(s.take(k));
    let head = if t.len() > 0 {
        seq![t]
    } else {
        Seq::empty()
    };
    if k >= s.len() {
        head
    } else {
        head + tokens(s.skip(k + 1))
    }
}

/// `p` bounds, in `s`, the sequence `t`.
pub open spec fn span(s: Seq<char>, p: (usize, usize), t: Seq<char>) -> bool {
    p.0 <= p.1 <= s.len() && s.subrange(p.0 as int, p.1 as int) == t
}

/// Each `r[i]` bounds, in `s`, the sequence `ts[i]`.
pub open spec fn spans(s: Seq<char>, r: Seq<(usize, usize)>, ts: Seq<Seq<char>>) -> bool {
    &&& r.len() == ts.len()
    &&& forall|i: int| 0 <= i < r.len() ==> #[trigger] span(s, r[i], ts[i])
}

/// The contents of a sequence of strings.
pub open spec fn views(v: Seq<String>) -> Seq<Seq<char>> {
    v.map_values(|x: String| x@)
}

pub proof fn lemma_first_index(s: Seq<char>, c: char, k: int)
    requires
        0 <= k <= s.len(),
        forall|j: int| 0 <= j < k ==> s[j] != c,
        k < s.len() ==> s[k] == c,
    ensures
        first_index(s, c) == k,
    decreases k,
{
    if k > 0 {
        assert forall|j: int| 0 <= j < k - 1 implies s.drop_first()[j] != c by {
            assert(s.drop_first()[j] == s[j + 1]);
        }
        lemma_first_index(s.drop_first(), c, k - 1);
    }
}

proof fn lemma_trim_start(s: Seq<char>, a: int, a2: int, b: int)
    requires
        0 <= a <= a2 <= b <= s.len(),
        forall|j: int| a <= j < a2 ==> is_space_char(s[j]),
        a2 < b ==> !is_space_char(s[a2]),
    ensures
        trim_start(s.subrange(a, b)) == s.subrange(a2, b),
    decreases a2 - a,
{
    if a < a2 {
        assert(s.subrange(a, b).drop_first() =~= s.subrange(a + 1, b));
        lemma_trim_start(s, a + 1, a2, b);
    }
}

proof fn lemma_trim_end(s: Seq<char>, a: int, b2: int, b: int)
    requires
        0 <= a <= b2 <= b <= s.len(),
        forall|j: int| b2 <= j < b ==> is_space_char(s[j]),
        a < b2 ==> !is_space_char(s[b2 - 1]),
    ensures
        trim_end(s.subrange(a, b)) == s.subrange(a, b2),
    decreases b - b2,
{
    if b2 < b {
        assert(s.subrange(a, b).drop_last() =~= s.subrange(a, b - 1));
        lemma_trim_end(s, a, b2, b - 1);
    }
}

/// The characters of `s`, in order.
pub fn to_chars(s: &str) -> (r: Vec<char>)
    ensures
        r@ == s@,
{
    let mut r: Vec<char> = Vec::new();
    for c in iter: s.chars()
        invariant
            r@ == iter.seq().take(iter.index() as int),
            iter.seq() == s@,
    {
        r.push(c);
        assert(r@ =~= iter.seq().take(iter.index() + 1));
    }
    assert(r@ =~= s@);
    r
}

/// The bounds of `s[a..b]` with the whitespace at both ends taken off.
pub fn trim_bounds(s: &Vec<char>, a: usize, b: usize) -> (r: (usize, usize))
    requires
        a <= b <= s@.len(),
    ensures
        a <= r.0 <= r.1 <= b,
        s@.subrange(r.0 as int, r.1 as int) == trim(s@.subrange(a as int, b as int)),
{
    let mut i = a;
    while i < b && is_space(s[i])
        invariant
            a <= i <= b <= s@.len(),
            forall|j: int| a <= j < i ==> is_space_char(s@[j]),
        decreases b - i,
    {
        i = i + 1;
    }
    proof {
        lemma_trim_start(s@, a as int, i as int, b as int);
    }
    let mut e = b;
    while e > i && is_space(s[e - 1])
        invariant
            a <= i <= e <= b <= s@.len(),
            forall|j: int| e <= j < b ==> is_space_char(s@[j]),
        decreases e - i,
    {
        e = e - 1;
    }
    proof {
        lemma_trim_end(s@, i as int, e as int, b as int);
    }
    (i, e)
}

/// The index of the first `c` in `s[a..b]`, or `b` where there is none.
pub fn find_char(s: &Vec<char>, c: char, a: usize, b: usize) -> (r: usize)
    requires
        a <= b <= s@.len(),
    ensures
        a <= r <= b,
        first_index(s@.subrange(a as int, b as int), c) == r - a,
{
    let mut i = a;
    while i < b && s[i] != c
        invariant
            a <= i <= b <= s@.len(),
            forall|j: int| a <= j < i ==> s@[j] != c,
        decreases b - i,
    {
        i = i + 1;
    }
    proof {
        let t = s@.subrange(a as int, b as int);
        assert forall|j: int| 0 <= j < i - a implies t[j] != c by {
            assert(t[j] == s@[a + j]);
        }
        lemma_first_index(t, c, i - a);
    }
    i
}

/// The bounds, in `s`, of each of `tokens(s)`.
pub fn token_bounds(s: &Vec<char>) -> (r: Vec<(usize, usize)>)
    ensures
        spans(s@, r@, tokens(s@)),
{
    let n = s.len();
    let mut r: Vec<(usize, usize)> = Vec::new();
    let ghost mut done: Seq<Seq<char>> = Seq::empty();
    let mut start: usize = 0;
    assert(s@.skip(0) =~= s@);
    loop
        invariant
            start <= n == s@.len(),
            tokens(s@) == done + tokens(s@.skip(start as int)),
            spans(s@, r@, done),
        decreases n - start,
    {
        let k = find_char(s, ',', start, n);
        let (a, b) = trim_bounds(s, start, k);
        let ghost rest = s@.skip(start as int);
        proof {
            assert(s@.subrange(start as int, n as int) =~= rest);
            assert(rest.take(k - start) =~= s@.subrange(start as int, k as int));
        }
        let ghost head = if a < b {
            seq![s@.subrange(a as int, b as int)]
        } else {
            Seq::<Seq<char>>::empty()
        };
        let ghost old_r = r@;
        let ghost old_done = done;
        if a < b {
            r.push((a, b));
        }
        proof {
            done = done + head;
            assert forall|i: int| 0 <= i < r@.len() implies #[trigger] span(s@, r@[i], done[i]) by {
                if i < old_r.len() {
                    assert(span(s@, old_r[i], old_done[i]));
                } else {
                    assert(done[i] == head[0]);
                }
            }
        }
        if k == n {
            assert(tokens(rest) == head);
            assert(tokens(s@) =~= done);
            return r;
        }
        proof {
            assert(rest.skip(k - start + 1) =~= s@.skip(k + 1));
            assert(tokens(rest) == head + tokens(s@.skip(k + 1)));
            assert(tokens(s@) =~= done + tokens(s@.skip(k + 1)));
        }
        start = k + 1;
    }
}

/// Whether `a` and `b` hold the same characters.
pub fn str_eq(a: &str, b: &str) -> (r: bool)
    ensures
        r == (a@ == b@),
{
    let x = to_chars(a);
    let y = to_chars(b);
    if x.len() != y.len() {
        return false;
    }
    let mut i: usize = 0;
    while i < x.len()
        invariant
            x@ == a@,
            y@ == b@,
            x@.len() == y@.len(),
            i <= x@.len(),
            forall|j: int| 0 <= j < i ==> x@[j] == y@[j],
        decreases x@.len() - i,
    {
        if x[i] != y[i] {
            return false;
        }
        i = i + 1;
    }
    assert(x@ =~= y@);
    true
}

/// Whether `s` holds nothing but whitespace.
pub fn is_blank(s: &str) -> (r: bool)
    ensures
        r == (trim(s@).len() == 0),
{
    let chars = to_chars(s);
    let (a, b) = trim_bounds(&chars, 0, chars.len());
    assert(chars@.subrange(0, chars@.len() as int) =~= s@);
    a == b
}

/// `s` trimmed, as a new string.
pub fn trimmed(s: &str) -> (r: String)
    ensures
        r@ == trim(s@),
{
    let chars = to_chars(s);
    let (a, b) = trim_bounds(&chars, 0, chars.len());
    assert(chars@.subrange(0, chars@.len() as int) =~= s@);
    String::from_str(s.substring_char(a, b))
}

/// What `str::to_lowercase` returns for a string.
pub uninterp spec fn lower_of(s: Seq<char>) -> Seq<char>;

/// What `str::to_uppercase` returns for a string.
pub uninterp spec fn upper_of(s: Seq<char>) -> Seq<char>;

/// Relies on `str::to_lowercase`: its result depends on the characters alone.
#[verifier::external_body]
pub(crate) fn lowercase(s: &str) -> (r: String)
    ensures
        r@ == lower_of(s@),
{
    s.to_lowercase()
}

/// Relies on `str::to_uppercase`: its result depends on the characters alone.
#[verifier::external_body]
pub(crate) fn uppercase(s: &str) -> (r: String)
    ensures
        r@ == upper_of(s@),
{
    s.to_uppercase()
}

/// The index of the first whitespace character in `t`, or `t.len()`.
pub open spec fn first_space(t: Seq<char>) -> nat
    decreases t.len(),
{
    if t.len() == 0 {
        0
    } else if is_space_char(t[0]) {
        0
    } else {
        1 + first_space(t.drop_first())
    }
}

/// The first whitespace-separated word of `s` (empty where there is none).
pub open spec fn first_word(s: Seq<char>) -> Seq<char> {
    let t = trim_start(s);
    t.take(first_space(t) as int)
}

/// What follows the first word of `s`.
pub open spec fn after_first_word(s: Seq<char>) -> Seq<char> {
    let t = trim_start(s);
    t.skip(first_space(t) as int)
}

/// The second whitespace-separated word of `s` (empty where there is none).
pub open spec fn second_word(s: Seq<char>) -> Seq<char> {
    first_word(after_first_word(s))
}

proof fn lemma_first_space(s: Seq<char>, k: int)
    requires
        0 <= k <= s.len(),
        forall|j: int| 0 <= j < k ==> !is_space_char(s[j]),
        k < s.len() ==> is_space_char(s[k]),
    ensures
        first_space(s) == k,
    decreases k,
{
    if k > 0 {
        assert forall|j: int| 0 <= j < k - 1 implies !is_space_char(s.drop_first()[j]) by {
            assert(s.drop_first()[j] == s[j + 1]);
        }
        lemma_first_space(s.drop_first(), k - 1);
    }
}

/// The start of `s[a..b]` once its leading whitespace is skipped.
pub fn skip_spaces(s: &Vec<char>, a: usize, b: usize) -> (r: usize)
    requires
        a <= b <= s@.len(),
    ensures
        a <= r <= b,
        trim_start(s@.subrange(a as int, b as int)) == s@.subrange(r as int, b as int),
{
    let mut i = a;
    while i < b && is_space(s[i])
        invariant
            a <= i <= b <= s@.len(),
            forall|j: int| a <= j < i ==> is_space_char(s@[j]),
        decreases b - i,
    {
        i = i + 1;
    }
    proof {
        lemma_trim_start(s@, a as int, i as int, b as int);
    }
    i
}

/// The index of the first whitespace character in `s[a..b]`, or `b`.
pub fn find_space(s: &Vec<char>, a: usize, b: usize) -> (r: usize)
    requires
        a <= b <= s@.len(),
    ensures
        a <= r <= b,
        first_space(s@.subrange(a as int, b as int)) == r - a,
{
    let mut i = a;
    while i < b && !is_space(s[i])
        invariant
            a <= i <= b <= s@.len(),
            forall|j: int| a <= j < i ==> !is_space_char(s@[j]),
        decreases b - i,
    {
        i = i + 1;
    }
    proof {
        let t = s@.subrange(a as int, b as int);
        assert forall|j: int| 0 <= j < i - a implies !is_space_char(t[j]) by {
            assert(t[j] == s@[a + j]);
        }
        lemma_first_space(t, i - a);
    }
    i
}

/// The bounds in `s` of its second whitespace-separated word.
pub fn second_word_bounds(s: &Vec<char>) -> (r: (usize, usize))
    ensures
        span(s@, r, second_word(s@)),
{
    let n = s.len();
    let i = skip_spaces(s, 0, n);
    let j = find_space(s, i, n);
    assert(s@.subrange(0, n as int) =~= s@);
    let ghost t = s@.subrange(i as int, n as int);
    assert(t.skip(j - i) =~= s@.subrange(j as int, n as int));
    let i2 = skip_spaces(s, j, n);
    let j2 = find_space(s, i2, n);
    assert(s@.subrange(i2 as int, n as int).take(j2 - i2) =~= s@.subrange(i2 as int, j2 as int));
    (i2, j2)
}

} // verus!
