//! Strings as sequences of characters: the handful of string operations that the
//! rest of the library is written with, each stated over `Seq<char>`.

use vstd::prelude::*;
use vstd::utf8::{decode_utf8, valid_utf8};

verus! {

/// `String::push` appends one character at the end of the string.
pub assume_specification[ String::push ](s: &mut String, c: char)
    ensures
        final(s)@ == old(s)@.push(c),
;

/// What `String::from_utf8_lossy` makes of `bytes`.
pub uninterp spec fn lossy_text(bytes: Seq<u8>) -> Seq<char>;

/// `String::from_utf8_lossy`: the text that the bytes encode, with the stretches that are no
/// UTF-8 replaced by U+FFFD. Well-formed bytes are taken as they are. Which stretches of
/// malformed bytes become one replacement character is left unsaid.
#[verifier::external_body]
pub(crate) fn utf8_lossy(bytes: &[u8]) -> (s: String)
    ensures
        s@ == lossy_text(bytes@),
        valid_utf8(bytes@) ==> s@ == decode_utf8(bytes@),
{
    String::from_utf8_lossy(bytes).into_owned()
}

// ---------------------------------------------------------------------------
// Character classes
// ---------------------------------------------------------------------------

/// The characters with the Unicode property `White_Space`.
pub open spec fn is_space(c: char) -> bool {
    ||| '\u{9}' <= c <= '\u{d}'
    ||| c == ' '
    ||| c == '\u{85}'
    ||| c == '\u{a0}'
    ||| c == '\u{1680}'
    ||| '\u{2000}' <= c <= '\u{200a}'
    ||| c == '\u{2028}'
    ||| c == '\u{2029}'
    ||| c == '\u{202f}'
    ||| c == '\u{205f}'
    ||| c == '\u{3000}'
}

/// Whether `c` is white space.
pub fn is_whitespace(c: char) -> (r: bool)
    ensures
        r == is_space(c),
{
    ('\u{9}' <= c && c <= '\u{d}') || c == ' ' || c == '\u{85}' || c == '\u{a0}' || c == '\u{1680}'
        || ('\u{2000}' <= c && c <= '\u{200a}') || c == '\u{2028}' || c == '\u{2029}' || c
        == '\u{202f}' || c == '\u{205f}' || c == '\u{3000}'
}

/// `c` with an ASCII upper-case letter replaced by its lower-case form.
pub open spec fn lower_char(c: char) -> char {
    if 'A' <= c <= 'Z' {
        ((c as u32) + 32) as char
    } else {
        c
    }
}

fn lower_char_exec(c: char) -> (r: char)
    ensures
        r == lower_char(c),
{
    if 'A' <= c && c <= 'Z' {
        ((c as u8) + 32) as char
    } else {
        c
    }
}

/// `s` with every ASCII upper-case letter replaced by its lower-case form.
pub open spec fn lowered(s: Seq<char>) -> Seq<char> {
    Seq::new(s.len(), |i: int| lower_char(s[i]))
}

/// The white-space characters, as a predicate.
pub open spec fn spaces() -> spec_fn(char) -> bool {
    |c: char| is_space(c)
}

/// Everything but white space, as a predicate.
pub open spec fn visible() -> spec_fn(char) -> bool {
    |c: char| !is_space(c)
}

/// The predicate that holds of `c` alone.
pub open spec fn only(c: char) -> spec_fn(char) -> bool {
    |x: char| x == c
}

/// The predicate that holds of everything but `c`.
pub open spec fn but(c: char) -> spec_fn(char) -> bool {
    |x: char| x != c
}

// ---------------------------------------------------------------------------
// Runs, splits and trims
// ---------------------------------------------------------------------------

/// How many characters at the start of `s` satisfy `p` without a gap.
pub open spec fn run(s: Seq<char>, p: spec_fn(char) -> bool) -> nat
    decreases s.len(),
{
    if s.len() > 0 && p(s[0]) {
        1 + run(s.drop_first(), p)
    } else {
        0
    }
}

/// The position of the last `c` in `s`, or -1.
pub open spec fn last_position(s: Seq<char>, c: char) -> int
    decreases s.len(),
{
    if s.len() == 0 {
        -1
    } else if s.last() == c {
        s.len() - 1
    } else {
        last_position(s.drop_last(), c)
    }
}

/// `s` without the characters at its end that satisfy `p`.
pub open spec fn trim_end(s: Seq<char>, p: spec_fn(char) -> bool) -> Seq<char>
    decreases s.len(),
{
    if s.len() > 0 && p(s.last()) {
        trim_end(s.drop_last(), p)
    } else {
        s
    }
}

/// `s` without white space at its start and its end.
pub open spec fn trimmed(s: Seq<char>) -> Seq<char> {
    trim_end(s.skip(run(s, spaces()) as int), spaces())
}

/// Whether `s` holds nothing but white space.
pub open spec fn blank(s: Seq<char>) -> bool {
    forall|i: int| 0 <= i < s.len() ==> is_space(#[trigger] s[i])
}

/// The maximal stretches of `s` without white space, in order.
pub open spec fn words_of(s: Seq<char>) -> Seq<Seq<char>>
    decreases s.len(),
{
    let t = s.skip(run(s, spaces()) as int);
    let n = run(t, visible()) as int;
    if 0 < n <= t.len() <= s.len() {
        seq![t.take(n)] + words_of(t.skip(n))
    } else {
        Seq::empty()
    }
}

/// Whether `needle` occurs in `s` at position `i`.
pub open spec fn occurs_at<A>(s: Seq<A>, needle: Seq<A>, i: int) -> bool {
    0 <= i && i + needle.len() <= s.len() && s.subrange(i, i + needle.len()) == needle
}

/// Whether `needle` occurs anywhere in `s`.
pub open spec fn occurs<A>(s: Seq<A>, needle: Seq<A>) -> bool {
    exists|i: int| #[trigger] occurs_at(s, needle, i)
}

/// Whether `s` begins with `p`.
pub open spec fn begins<A>(s: Seq<A>, p: Seq<A>) -> bool {
    occurs_at(s, p, 0)
}

/// Whether `s` ends with `p`.
pub open spec fn ends<A>(s: Seq<A>, p: Seq<A>) -> bool {
    occurs_at(s, p, s.len() - p.len())
}

/// The characterisation of [`run`]: the one number up to which `p` holds and at which it stops.
pub proof fn lemma_run(s: Seq<char>, p: spec_fn(char) -> bool)
    ensures
        run(s, p) <= s.len(),
        forall|i: int| 0 <= i < run(s, p) ==> p(#[trigger] s[i]),
        run(s, p) < s.len() ==> !p(s[run(s, p) as int]),
    decreases s.len(),
{
    if s.len() > 0 && p(s[0]) {
        let t = s.drop_first();
        lemma_run(t, p);
        assert forall|i: int| 0 <= i < run(s, p) implies p(#[trigger] s[i]) by {
            if i > 0 {
                assert(t[i - 1] == s[i]);
            }
        }
    }
}

/// Any number with the property of [`lemma_run`] is the run.
pub proof fn lemma_run_is(s: Seq<char>, p: spec_fn(char) -> bool, n: int)
    requires
        0 <= n <= s.len(),
        forall|i: int| 0 <= i < n ==> p(#[trigger] s[i]),
        n < s.len() ==> !p(s[n]),
    ensures
        run(s, p) == n,
{
    lemma_run(s, p);
    let r = run(s, p) as int;
    if r < n {
        assert(p(s[r]));
    } else if n < r {
        assert(p(s[n]));
    }
}

/// The characterisation of [`trim_end`].
pub proof fn lemma_trim_end(s: Seq<char>, p: spec_fn(char) -> bool)
    ensures
        trim_end(s, p).len() <= s.len(),
        trim_end(s, p) == s.take(trim_end(s, p).len() as int),
        trim_end(s, p).len() > 0 ==> !p(trim_end(s, p).last()),
        forall|i: int| trim_end(s, p).len() <= i < s.len() ==> p(#[trigger] s[i]),
    decreases s.len(),
{
    if s.len() > 0 && p(s.last()) {
        let t = s.drop_last();
        lemma_trim_end(t, p);
        assert forall|i: int| trim_end(s, p).len() <= i < s.len() implies p(#[trigger] s[i]) by {
            if i < t.len() {
                assert(t[i] == s[i]);
            }
        }
        assert(t.take(trim_end(t, p).len() as int) =~= s.take(trim_end(t, p).len() as int));
    } else {
        assert(s =~= s.take(s.len() as int));
    }
}

/// The prefix of length `n` that ends outside `p`, with `p` on everything after it, is the trim.
pub proof fn lemma_trim_end_is(s: Seq<char>, p: spec_fn(char) -> bool, n: int)
    requires
        0 <= n <= s.len(),
        n > 0 ==> !p(s[n - 1]),
        forall|i: int| n <= i < s.len() ==> p(#[trigger] s[i]),
    ensures
        trim_end(s, p) == s.take(n),
{
    lemma_trim_end(s, p);
    let m = trim_end(s, p).len() as int;
    if m < n {
        assert(p(s[n - 1]));
    } else if n < m {
        assert(trim_end(s, p).last() == s[m - 1]);
        assert(p(s[m - 1]));
    }
}

/// A string trims to nothing exactly if it is all white space.
pub proof fn lemma_trimmed_empty(s: Seq<char>)
    ensures
        trimmed(s).len() == 0 <==> blank(s),
        trimmed(s) == Seq::<char>::empty() <==> blank(s),
{
    let p = spaces();
    lemma_run(s, p);
    let t = s.skip(run(s, p) as int);
    lemma_trim_end(t, p);
    if blank(s) {
        if t.len() > 0 {
            assert(is_space(s[run(s, p) as int]));
        }
    }
    if trimmed(s).len() == 0 {
        assert forall|i: int| 0 <= i < s.len() implies is_space(#[trigger] s[i]) by {
            if i >= run(s, p) {
                assert(t[i - run(s, p)] == s[i]);
                assert(p(t[i - run(s, p)]));
            } else {
                assert(p(s[i]));
            }
        }
        assert(trimmed(s) =~= Seq::<char>::empty());
    }
}

/// The characterisation of [`last_position`].
pub proof fn lemma_last_position(s: Seq<char>, c: char)
    ensures
        -1 <= last_position(s, c) < s.len(),
        last_position(s, c) >= 0 ==> s[last_position(s, c)] == c,
        forall|i: int| last_position(s, c) < i < s.len() ==> #[trigger] s[i] != c,
    decreases s.len(),
{
    if s.len() > 0 && s.last() != c {
        let t = s.drop_last();
        lemma_last_position(t, c);
        assert forall|i: int| last_position(s, c) < i < s.len() implies #[trigger] s[i] != c by {
            if i < t.len() {
                assert(t[i] == s[i]);
            }
        }
    }
}

/// The strings of `parts`, with `sep` between any two neighbours.
pub open spec fn joined(parts: Seq<Seq<char>>, sep: Seq<char>) -> Seq<char>
    decreases parts.len(),
{
    if parts.len() == 0 {
        Seq::empty()
    } else if parts.len() == 1 {
        parts[0]
    } else {
        joined(parts.drop_last(), sep) + sep + parts.last()
    }
}

/// Whether `s` is a word: something without white space.
pub open spec fn is_word(s: Seq<char>) -> bool {
    s.len() > 0 && forall|i: int| 0 <= i < s.len() ==> !is_space(#[trigger] s[i])
}

/// A word is its own list of words.
pub proof fn lemma_words_of_word(w: Seq<char>)
    requires
        is_word(w),
    ensures
        words_of(w) == seq![w],
{
    lemma_run_is(w, spaces(), 0);
    assert(w.skip(0) =~= w);
    lemma_run_is(w, visible(), w.len() as int);
    assert(w.take(w.len() as int) =~= w);
    let e = w.skip(w.len() as int);
    lemma_run(e, spaces());
    assert(words_of(e) =~= Seq::<Seq<char>>::empty());
    assert(words_of(w) =~= seq![w]);
}

/// The words of a word, a space and a rest: the word, then the words of the rest.
pub proof fn lemma_words_of_cons(w: Seq<char>, rest: Seq<char>)
    requires
        is_word(w),
    ensures
        words_of(w + seq![' '] + rest) == seq![w] + words_of(rest),
{
    let s = w + seq![' '] + rest;
    let n = w.len() as int;
    assert(s[0] == w[0]);
    lemma_run_is(s, spaces(), 0);
    assert(s.skip(0) =~= s);
    assert forall|i: int| 0 <= i < n implies visible()(#[trigger] s[i]) by {
        assert(s[i] == w[i]);
    }
    assert(s[n] == ' ');
    lemma_run_is(s, visible(), n);
    assert(s.take(n) =~= w);
    let t = s.skip(n);
    assert(t.drop_first() =~= rest);
    assert(run(t, spaces()) == 1 + run(rest, spaces()));
    lemma_run(rest, spaces());
    let k = run(rest, spaces()) as int;
    assert(t.skip(1 + k) =~= rest.skip(k));
    lemma_run(rest.skip(k), visible());
    assert(words_of(t) =~= words_of(rest));
}

/// Lower-casing twice is lower-casing once.
pub proof fn lemma_lowered_idempotent(s: Seq<char>)
    ensures
        lowered(lowered(s)) == lowered(s),
{
    assert forall|i: int| 0 <= i < s.len() implies lowered(lowered(s))[i] == lowered(s)[i] by {
        let c = s[i];
        if 'A' <= c <= 'Z' {
            assert(lower_char(c) as u32 == c as u32 + 32);
        }
    }
    assert(lowered(lowered(s)) =~= lowered(s));
}

// ---------------------------------------------------------------------------
// Executable forms
// ---------------------------------------------------------------------------

/// The characters of a string.
pub fn chars(s: &str) -> (v: Vec<char>)
    ensures
        v@ == s@,
{
    let mut v: Vec<char> = Vec::new();
    for c in it: s.chars()
        invariant
            v@ == it.seq().take(it.index() as int),
            it.seq() == s@,
    {
        v.push(c);
    }
    v
}

/// The characters from position `from` up to position `to`, as a string.
pub fn slice(v: &Vec<char>, from: usize, to: usize) -> (s: String)
    requires
        from <= to <= v@.len(),
    ensures
        s@ == v@.subrange(from as int, to as int),
{
    let mut s = String::new();
    let mut i: usize = from;
    while i < to
        invariant
            from <= i <= to <= v@.len(),
            s@ == v@.subrange(from as int, i as int),
        decreases to - i,
    {
        s.push(v[i]);
        i += 1;
    }
    s
}

/// Whether two strings hold the same characters.
pub fn same(a: &str, b: &str) -> (r: bool)
    ensures
        r == (a@ == b@),
{
    let x = chars(a);
    let y = chars(b);
    if x.len() != y.len() {
        return false;
    }
    let mut i: usize = 0;
    while i < x.len()
        invariant
            i <= x@.len() == y@.len(),
            x@ == a@,
            y@ == b@,
            forall|j: int| 0 <= j < i ==> x@[j] == y@[j],
        decreases x@.len() - i,
    {
        if x[i] != y[i] {
            return false;
        }
        i += 1;
    }
    assert(x@ =~= y@);
    true
}

/// Whether `needle` occurs in `hay` at position `at`.
fn occurs_at_exec(hay: &Vec<char>, needle: &Vec<char>, at: usize) -> (r: bool)
    ensures
        r == occurs_at(hay@, needle@, at as int),
{
    if at > hay.len() || hay.len() - at < needle.len() {
        return false;
    }
    let mut j: usize = 0;
    while j < needle.len()
        invariant
            j <= needle@.len(),
            at + needle.len() <= hay.len(),
            forall|k: int| 0 <= k < j ==> hay@[at + k] == needle@[k],
        decreases needle@.len() - j,
    {
        if hay[at + j] != needle[j] {
            assert(hay@.subrange(at as int, at + needle@.len())[j as int] != needle@[j as int]);
            return false;
        }
        j += 1;
    }
    assert(hay@.subrange(at as int, at + needle@.len()) =~= needle@);
    true
}

/// Whether `s` begins with `p`.
pub fn starts_with(s: &str, p: &str) -> (r: bool)
    ensures
        r == begins(s@, p@),
{
    occurs_at_exec(&chars(s), &chars(p), 0)
}

/// Whether `s` ends with `p`.
pub fn ends_with(s: &str, p: &str) -> (r: bool)
    ensures
        r == ends(s@, p@),
{
    let x = chars(s);
    let y = chars(p);
    if x.len() < y.len() {
        return false;
    }
    occurs_at_exec(&x, &y, x.len() - y.len())
}

/// Whether `needle` occurs in `s`.
pub fn contains(s: &str, needle: &str) -> (r: bool)
    ensures
        r == occurs(s@, needle@),
{
    let x = chars(s);
    let y = chars(needle);
    let mut i: usize = 0;
    while i < x.len()
        invariant
            i <= x@.len(),
            x@ == s@,
            y@ == needle@,
            forall|j: int| 0 <= j < i ==> !#[trigger] occurs_at(x@, y@, j),
        decreases x@.len() - i,
    {
        if occurs_at_exec(&x, &y, i) {
            return true;
        }
        i += 1;
    }
    occurs_at_exec(&x, &y, i)
}

/// What follows `p` at the start of `s`, if `s` begins with `p`.
pub fn strip_prefix(s: &str, p: &str) -> (r: Option<String>)
    ensures
        r is Some <==> begins(s@, p@),
        r matches Some(rest) ==> rest@ == s@.skip(p@.len() as int),
{
    let x = chars(s);
    let y = chars(p);
    if occurs_at_exec(&x, &y, 0) {
        let rest = slice(&x, y.len(), x.len());
        assert(rest@ =~= s@.skip(p@.len() as int));
        Some(rest)
    } else {
        None
    }
}

/// `s` in lower case, as far as ASCII letters go.
pub fn to_ascii_lowercase(s: &str) -> (r: String)
    ensures
        r@ == lowered(s@),
{
    let x = chars(s);
    let mut out = String::new();
    let mut i: usize = 0;
    while i < x.len()
        invariant
            i <= x@.len(),
            x@ == s@,
            out@ == lowered(s@).take(i as int),
        decreases x@.len() - i,
    {
        out.push(lower_char_exec(x[i]));
        i += 1;
        assert(lowered(s@).take(i as int) =~= lowered(s@).take(i - 1).push(lowered(s@)[i - 1]));
    }
    assert(out@ =~= lowered(s@));
    out
}

/// The position of the first `c` at or after `from`, or the length.
pub fn find_char(v: &Vec<char>, from: usize, c: char) -> (i: usize)
    requires
        from <= v@.len(),
    ensures
        from <= i <= v@.len(),
        i - from == run(v@.skip(from as int), but(c)),
{
    let mut i: usize = from;
    while i < v.len() && v[i] != c
        invariant
            from <= i <= v@.len(),
            forall|j: int| from <= j < i ==> v@[j] != c,
        decreases v@.len() - i,
    {
        i += 1;
    }
    proof {
        lemma_run_is(v@.skip(from as int), but(c), i - from);
    }
    i
}

/// The parts of `s` before and after the first `c`.
pub fn split_once(s: &str, c: char) -> (r: Option<(String, String)>)
    ensures
        r is Some <==> s@.contains(c),
        r matches Some((a, b)) ==> {
            let k = run(s@, but(c)) as int;
            a@ == s@.take(k) && b@ == s@.skip(k + 1)
        },
{
    let v = chars(s);
    let k = find_char(&v, 0, c);
    proof {
        assert(v@.skip(0) =~= s@);
        lemma_run(s@, but(c));
    }
    if k < v.len() {
        assert(s@[k as int] == c);
        let a = slice(&v, 0, k);
        let b = slice(&v, k + 1, v.len());
        assert(a@ =~= s@.take(k as int));
        assert(b@ =~= s@.skip(k + 1));
        Some((a, b))
    } else {
        proof {
            assert forall|i: int| 0 <= i < s@.len() implies s@[i] != c by {
                assert(but(c)(s@[i]));
            }
        }
        None
    }
}

/// The parts of `s` before and after the last `c`.
pub fn rsplit_once(s: &str, c: char) -> (r: Option<(String, String)>)
    ensures
        r is Some <==> last_position(s@, c) >= 0,
        r matches Some((a, b)) ==> {
            let k = last_position(s@, c);
            a@ == s@.take(k) && b@ == s@.skip(k + 1)
        },
{
    let v = chars(s);
    proof {
        lemma_last_position(s@, c);
    }
    let mut i: usize = v.len();
    while i > 0
        invariant
            i <= v@.len(),
            v@ == s@,
            last_position(s@, c) < i,
            -1 <= last_position(s@, c),
            last_position(s@, c) >= 0 ==> s@[last_position(s@, c)] == c,
            forall|j: int| last_position(s@, c) < j < s@.len() ==> #[trigger] s@[j] != c,
        decreases i,
    {
        if v[i - 1] == c {
            let a = slice(&v, 0, i - 1);
            let b = slice(&v, i, v.len());
            assert(last_position(s@, c) == i - 1);
            assert(a@ =~= s@.take(i - 1));
            assert(b@ =~= s@.skip(i as int));
            return Some((a, b));
        }
        i -= 1;
    }
    None
}

/// How far `v` reaches from `from` on before a character outside white space (or, with
/// `space` false, before white space).
fn run_end(v: &Vec<char>, from: usize, space: bool) -> (i: usize)
    requires
        from <= v@.len(),
    ensures
        from <= i <= v@.len(),
        i - from == run(v@.skip(from as int), if space { spaces() } else { visible() }),
{
    let mut i: usize = from;
    while i < v.len() && is_whitespace(v[i]) == space
        invariant
            from <= i <= v@.len(),
            forall|j: int| from <= j < i ==> is_space(v@[j]) == space,
        decreases v@.len() - i,
    {
        i += 1;
    }
    proof {
        lemma_run_is(v@.skip(from as int), if space { spaces() } else { visible() }, i - from);
    }
    i
}

/// `s` without white space at either end.
pub fn trim(s: &str) -> (r: String)
    ensures
        r@ == trimmed(s@),
{
    let v = chars(s);
    let a = run_end(&v, 0, true);
    let mut b: usize = v.len();
    while b > a && is_whitespace(v[b - 1])
        invariant
            a <= b <= v@.len(),
            forall|j: int| b <= j < v@.len() ==> is_space(#[trigger] v@[j]),
        decreases b,
    {
        b -= 1;
    }
    let r = slice(&v, a, b);
    proof {
        assert(v@.skip(0) =~= s@);
        let t = s@.skip(a as int);
        lemma_trim_end_is(t, spaces(), b - a);
        assert(t.take(b - a) =~= v@.subrange(a as int, b as int));
    }
    r
}

/// `s` without the `c`s at its end.
pub fn trim_end_char(s: &str, c: char) -> (r: String)
    ensures
        r@ == trim_end(s@, only(c)),
{
    let v = chars(s);
    let mut b: usize = v.len();
    while b > 0 && v[b - 1] == c
        invariant
            b <= v@.len(),
            forall|j: int| b <= j < v@.len() ==> #[trigger] v@[j] == c,
        decreases b,
    {
        b -= 1;
    }
    let r = slice(&v, 0, b);
    proof {
        lemma_trim_end_is(s@, only(c), b as int);
        assert(s@.take(b as int) =~= v@.subrange(0, b as int));
    }
    r
}

/// Whether `s` holds nothing but white space.
pub fn is_blank(s: &str) -> (r: bool)
    ensures
        r == blank(s@),
{
    let v = chars(s);
    let k = run_end(&v, 0, true);
    proof {
        assert(v@.skip(0) =~= s@);
        lemma_run(s@, spaces());
        if k == v@.len() {
            assert forall|i: int| 0 <= i < s@.len() implies is_space(#[trigger] s@[i]) by {
                assert(spaces()(s@[i]));
            }
        } else {
            assert(!is_space(s@[k as int]));
        }
    }
    k == v.len()
}

/// The words of `s`.
pub fn words(s: &str) -> (r: Vec<String>)
    ensures
        r@.len() == words_of(s@).len(),
        forall|i: int| 0 <= i < r@.len() ==> (#[trigger] r@[i])@ == words_of(s@)[i],
{
    let v = chars(s);
    let mut out: Vec<String> = Vec::new();
    let mut i: usize = 0;
    proof {
        assert(v@.skip(0) =~= s@);
    }
    while i < v.len()
        invariant
            i <= v@.len(),
            v@ == s@,
            out@.len() + words_of(s@.skip(i as int)).len() == words_of(s@).len(),
            forall|k: int| 0 <= k < out@.len() ==> (#[trigger] out@[k])@ == words_of(s@)[k],
            forall|k: int|
                0 <= k < words_of(s@.skip(i as int)).len() ==> (#[trigger] words_of(
                    s@.skip(i as int),
                )[k]) == words_of(s@)[out@.len() + k],
        decreases v@.len() - i,
    {
        let ghost rest = s@.skip(i as int);
        let ghost done = out@.len() as int;
        let a = run_end(&v, i, true);
        let b = run_end(&v, a, false);
        proof {
            assert(rest.skip(a - i) =~= s@.skip(a as int));
            assert(s@.skip(a as int).skip(b - a) =~= s@.skip(b as int));
        }
        if a == b {
            proof {
                lemma_run(s@.skip(a as int), visible());
                lemma_run(rest, spaces());
                if a < v@.len() {
                    assert(!spaces()(rest[a - i]));
                    assert(visible()(s@.skip(a as int)[0]));
                }
                assert(words_of(s@.skip(v@.len() as int)).len() == 0);
                assert(words_of(rest).len() == 0);
            }
            i = v.len();
        } else {
            let ghost ws = words_of(rest);
            proof {
                assert(ws == seq![s@.skip(a as int).take(b - a)] + words_of(s@.skip(b as int)));
            }
            let w = slice(&v, a, b);
            assert(w@ =~= s@.skip(a as int).take(b - a));
            out.push(w);
            proof {
                assert(ws[0] == words_of(s@)[done]);
                assert forall|k: int| 0 <= k < words_of(s@.skip(b as int)).len() implies (
                #[trigger] words_of(s@.skip(b as int))[k]) == words_of(s@)[out@.len() + k] by {
                    assert(ws[k + 1] == words_of(s@.skip(b as int))[k]);
                }
            }
            i = b;
        }
    }
    assert(words_of(s@.skip(i as int)).len() == 0);
    out
}

/// The contents of a list of strings.
pub open spec fn views(v: Seq<String>) -> Seq<Seq<char>> {
    Seq::new(v.len(), |i: int| v[i]@)
}

/// The contents of a list with one string more.
pub broadcast proof fn lemma_views_push(v: Seq<String>, s: String)
    ensures
        #[trigger] views(v.push(s)) == views(v).push(s@),
{
    assert(views(v.push(s)) =~= views(v).push(s@));
}

/// The strings of `parts`, with `sep` between any two neighbours.
pub fn join(parts: &Vec<String>, sep: &str) -> (r: String)
    ensures
        r@ == joined(views(parts@), sep@),
{
    let mut out = String::new();
    let mut i: usize = 0;
    while i < parts.len()
        invariant
            i <= parts@.len(),
            out@ == joined(views(parts@).take(i as int), sep@),
        decreases parts@.len() - i,
    {
        proof {
            let t = views(parts@).take(i + 1);
            assert(t.drop_last() =~= views(parts@).take(i as int));
            assert(t.last() == parts@[i as int]@);
        }
        if i > 0 {
            out.append(sep);
        }
        out.append(parts[i].as_str());
        i += 1;
        assert(out@ =~= joined(views(parts@).take(i as int), sep@));
    }
    assert(views(parts@).take(i as int) =~= views(parts@));
    out
}

/// The contents of a list of pairs of strings.
pub open spec fn pair_views(v: Seq<(String, String)>) -> Seq<(Seq<char>, Seq<char>)> {
    Seq::new(v.len(), |i: int| (v[i].0@, v[i].1@))
}

/// Adds a pair of strings at the end of a list.
pub fn push_pair(v: &mut Vec<(String, String)>, name: &str, value: &str)
    ensures
        pair_views(final(v)@) == pair_views(old(v)@).push((name@, value@)),
{
    v.push((name.to_owned(), value.to_owned()));
    assert(pair_views(v@) =~= pair_views(old(v)@).push((name@, value@)));
}

/// The contents of an optional string.
pub open spec fn opt_view(s: Option<String>) -> Option<Seq<char>> {
    match s {
        Some(t) => Some(t@),
        None => None,
    }
}

/// A second copy of an optional string.
pub fn copy_option(s: &Option<String>) -> (r: Option<String>)
    ensures
        opt_view(r) == opt_view(*s),
{
    match s {
        Some(t) => Some(t.clone()),
        None => None,
    }
}

// ---------------------------------------------------------------------------
// Laws
// ---------------------------------------------------------------------------

/// Lower-casing keeps the length, takes each ASCII capital to its small letter, which stands 32
/// places after it, and leaves every other character alone.
pub proof fn law_only_capitals_are_lowered(s: Seq<char>)
    ensures
        lowered(s).len() == s.len(),
        forall|i: int|
            0 <= i < s.len() && 'A' <= s[i] <= 'Z' ==> #[trigger] lowered(s)[i] as u32 == s[i] as u32
                + 32,
        forall|i: int|
            0 <= i < s.len() && (s[i] < 'A' || 'Z' < s[i]) ==> #[trigger] lowered(s)[i] == s[i],
{
}

/// Trimming takes the white space off both ends, all of it and nothing else.
pub proof fn law_trimming_leaves_the_core(before: Seq<char>, core: Seq<char>, after: Seq<char>)
    requires
        blank(before),
        blank(after),
        core.len() > 0 ==> !is_space(core[0]) && !is_space(core.last()),
    ensures
        trimmed(before + core + after) == core,
{
    let s = before + core + after;
    if core.len() == 0 {
        assert forall|i: int| 0 <= i < s.len() implies is_space(#[trigger] s[i]) by {
            if i < before.len() {
                assert(s[i] == before[i]);
            } else {
                assert(s[i] == after[i - before.len()]);
            }
        }
        lemma_trimmed_empty(s);
        assert(core =~= Seq::empty());
    } else {
        let n = before.len() as int;
        assert forall|i: int| 0 <= i < n implies spaces()(#[trigger] s[i]) by {
            assert(s[i] == before[i]);
        }
        assert(s[n] == core[0]);
        lemma_run_is(s, spaces(), n);
        let t = s.skip(n);
        assert(t[core.len() - 1] == core.last());
        assert forall|i: int| core.len() <= i < t.len() implies spaces()(#[trigger] t[i]) by {
            assert(t[i] == after[i - core.len()]);
        }
        lemma_trim_end_is(t, spaces(), core.len() as int);
        assert(t.take(core.len() as int) =~= core);
    }
}

/// A string is blank if all its pieces are, and a character is if it is white space.
pub proof fn law_blank_piece_by_piece(a: Seq<char>, c: char, b: Seq<char>)
    ensures
        blank(Seq::<char>::empty()),
        blank(seq![c]) <==> is_space(c),
        blank(a + b) <==> blank(a) && blank(b),
{
    if blank(seq![c]) {
        assert(is_space(seq![c][0]));
    }
    if blank(a + b) {
        assert forall|i: int| 0 <= i < a.len() implies is_space(#[trigger] a[i]) by {
            assert(is_space((a + b)[i]));
        }
        assert forall|i: int| 0 <= i < b.len() implies is_space(#[trigger] b[i]) by {
            assert(is_space((a + b)[a.len() + i]));
        }
    }
}

/// Words are what white space parts: white space in front of a string adds no word, and a word with
/// any white space after it comes before the words of the rest.
pub proof fn law_white_space_parts_words(word: Seq<char>, space: char, rest: Seq<char>)
    requires
        is_word(word),
        is_space(space),
    ensures
        words_of(Seq::<char>::empty()) == Seq::<Seq<char>>::empty(),
        words_of(seq![space] + rest) == words_of(rest),
        words_of(word) == seq![word],
        words_of(word + seq![space] + rest) == seq![word] + words_of(rest),
{
    let e = Seq::<char>::empty();
    lemma_run(e, spaces());
    lemma_run(e.skip(0), visible());
    assert(words_of(e) =~= Seq::<Seq<char>>::empty());
    lemma_words_of_word(word);
    let t = seq![space] + rest;
    assert(t.drop_first() =~= rest);
    assert(run(t, spaces()) == 1 + run(rest, spaces()));
    lemma_run(rest, spaces());
    let k = run(rest, spaces()) as int;
    assert(t.skip(1 + k) =~= rest.skip(k));
    lemma_run(rest.skip(k), visible());
    assert(words_of(t) =~= words_of(rest));
    let s = word + seq![space] + rest;
    let n = word.len() as int;
    assert(s[0] == word[0]);
    lemma_run_is(s, spaces(), 0);
    assert(s.skip(0) =~= s);
    assert forall|i: int| 0 <= i < n implies visible()(#[trigger] s[i]) by {
        assert(s[i] == word[i]);
    }
    assert(s[n] == space);
    lemma_run_is(s, visible(), n);
    assert(s.take(n) =~= word);
    assert(s.skip(n) =~= t);
    assert(words_of(s) =~= seq![word] + words_of(rest));
}

/// A string begins with, ends with and holds what it is put together from.
pub proof fn law_parts_occur<A>(a: Seq<A>, needle: Seq<A>, b: Seq<A>)
    ensures
        occurs(a + needle + b, needle),
        begins(needle + b, needle),
        ends(a + needle, needle),
{
    let n = needle.len() as int;
    assert((a + needle + b).subrange(a.len() as int, a.len() + n) =~= needle);
    assert(occurs_at(a + needle + b, needle, a.len() as int));
    assert((needle + b).subrange(0, n) =~= needle);
    assert((a + needle).subrange(a.len() as int, a.len() + n) =~= needle);
}

/// A string can be put together from what it begins with, or ends with, and the rest of it.
pub proof fn law_ends_are_parts<A>(s: Seq<A>, needle: Seq<A>)
    ensures
        begins(s, needle) ==> needle + s.skip(needle.len() as int) == s,
        ends(s, needle) ==> s.take(s.len() - needle.len()) + needle == s,
{
    let n = needle.len() as int;
    if begins(s, needle) {
        assert(s.subrange(0, n) + s.skip(n) =~= s);
    }
    if ends(s, needle) {
        assert(s.take(s.len() - n) + s.subrange(s.len() - n, s.len() as int) =~= s);
    }
}

/// A string can be put together from what it holds, what comes before that and what comes after.
pub proof fn law_occurrence_is_a_part<A>(s: Seq<A>, needle: Seq<A>)
    requires
        occurs(s, needle),
    ensures
        exists|i: int|
            0 <= i <= s.len() - needle.len() && s == #[trigger] s.take(i) + needle + s.skip(
                i + needle.len(),
            ),
{
    let n = needle.len() as int;
    let i = choose|i: int| #[trigger] occurs_at(s, needle, i);
    assert(s.take(i) + s.subrange(i, i + n) + s.skip(i + n) =~= s);
}

/// Joining puts the separator between any two neighbours, and nowhere else.
pub proof fn law_joined_in_pieces(
    a: Seq<Seq<char>>,
    b: Seq<Seq<char>>,
    part: Seq<char>,
    sep: Seq<char>,
)
    requires
        a.len() > 0,
        b.len() > 0,
    ensures
        joined(Seq::<Seq<char>>::empty(), sep) == Seq::<char>::empty(),
        joined(seq![part], sep) == part,
        joined(a + b, sep) == joined(a, sep) + sep + joined(b, sep),
    decreases b.len(),
{
    let all = a + b;
    assert(all.last() == b.last());
    if b.len() == 1 {
        assert(all.drop_last() =~= a);
        assert(b[0] == b.last());
    } else {
        law_joined_in_pieces(a, b.drop_last(), part, sep);
        assert(all.drop_last() =~= a + b.drop_last());
        assert(joined(a, sep) + sep + (joined(b.drop_last(), sep) + sep + b.last()) =~= (joined(
            a,
            sep,
        ) + sep + joined(b.drop_last(), sep)) + sep + b.last());
    }
}

/// The contents of lists and options are those of their members, one for one.
pub proof fn law_contents_one_for_one(
    strings: Seq<String>,
    pairs: Seq<(String, String)>,
    s: String,
)
    ensures
        views(strings).len() == strings.len(),
        forall|i: int| 0 <= i < strings.len() ==> #[trigger] views(strings)[i] == strings[i]@,
        pair_views(pairs).len() == pairs.len(),
        forall|i: int|
            0 <= i < pairs.len() ==> (#[trigger] pair_views(pairs)[i]).0 == pairs[i].0@
                && pair_views(pairs)[i].1 == pairs[i].1@,
        opt_view(Some(s)) == Some(s@),
        opt_view(None) is None,
{
}

} // verus!
