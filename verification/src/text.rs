//! Character-level text operations used throughout the bot, each stated
//! against a mathematical model over `Seq<char>`.
use vstd::prelude::*;

verus! {

/// `String::push`: appends the character at the end of the string.
#[verifier::external_body]
pub(crate) fn push_char(s: &mut String, c: char)
    ensures
        final(s)@ == old(s)@.push(c),
{
    s.push(c);
}

/// The characters of a string slice, in order.
pub fn chars_of(s: &str) -> (r: Vec<char>)
    ensures
        r@ == s@,
{
    let mut r: Vec<char> = Vec::new();
    for c in it: s.chars()
        invariant
            r@ == it.seq().take(it.index() as int),
    {
        r.push(c);
    }
    r
}

/// A string holding the given characters.
pub fn string_from(v: &[char]) -> (s: String)
    ensures
        s@ == v@,
{
    let mut s = String::new();
    let mut i: usize = 0;
    while i < v.len()
        invariant
            i <= v@.len(),
            s@ == v@.take(i as int),
        decreases v@.len() - i,
    {
        push_char(&mut s, v[i]);
        i = i + 1;
        assert(v@.take(i as int) =~= v@.take(i - 1).push(v@[i - 1]));
    }
    assert(v@.take(v@.len() as int) =~= v@);
    s
}

} // verus!

verus! {

/// `char::is_whitespace`: the Unicode `White_Space` property.
pub open spec fn is_ws(c: char) -> bool {
    ||| ('\u{9}' <= c && c <= '\u{d}')
    ||| c == ' '
    ||| c == '\u{85}'
    ||| c == '\u{a0}'
    ||| c == '\u{1680}'
    ||| ('\u{2000}' <= c && c <= '\u{200a}')
    ||| c == '\u{2028}'
    ||| c == '\u{2029}'
    ||| c == '\u{202f}'
    ||| c == '\u{205f}'
    ||| c == '\u{3000}'
}

pub fn is_whitespace_char(c: char) -> (b: bool)
    ensures
        b == is_ws(c),
{
    ('\u{9}' <= c && c <= '\u{d}') || c == ' ' || c == '\u{85}' || c == '\u{a0}' || c == '\u{1680}'
        || ('\u{2000}' <= c && c <= '\u{200a}') || c == '\u{2028}' || c == '\u{2029}' || c
        == '\u{202f}' || c == '\u{205f}' || c == '\u{3000}'
}

/// `s` without its leading whitespace.
pub open spec fn trim_start(s: Seq<char>) -> Seq<char>
    decreases s.len(),
{
    if s.len() > 0 && is_ws(s[0]) {
        trim_start(s.drop_first())
    } else {
        s
    }
}

/// `s` without its trailing whitespace.
pub open spec fn trim_end(s: Seq<char>) -> Seq<char>
    decreases s.len(),
{
    if s.len() > 0 && is_ws(s.last()) {
        trim_end(s.drop_last())
    } else {
        s
    }
}

/// `str::trim`: `s` without leading and trailing whitespace.
pub open spec fn trim(s: Seq<char>) -> Seq<char> {
    trim_end(trim_start(s))
}

/// `p` is a prefix of `s`.
pub open spec fn starts_with(s: Seq<char>, p: Seq<char>) -> bool {
    p.len() <= s.len() && s.subrange(0, p.len() as int) == p
}

/// `p` is a suffix of `s`.
pub open spec fn ends_with(s: Seq<char>, p: Seq<char>) -> bool {
    p.len() <= s.len() && s.subrange(s.len() - p.len(), s.len() as int) == p
}

/// `p` occurs in `s` at index `i`.
pub open spec fn occurs_at(s: Seq<char>, p: Seq<char>, i: int) -> bool {
    0 <= i && i + p.len() <= s.len() && s.subrange(i, i + p.len()) == p
}

/// `str::contains`: `p` occurs somewhere in `s`.
pub open spec fn contains(s: Seq<char>, p: Seq<char>) -> bool {
    exists|i: int| occurs_at(s, p, i)
}

/// The index of the first occurrence of `p` in `s`, if any.
pub open spec fn first_occurrence(s: Seq<char>, p: Seq<char>) -> Option<int> {
    if contains(s, p) {
        Some(choose|i: int| occurs_at(s, p, i) && forall|j: int| 0 <= j < i ==> !occurs_at(s, p, j))
    } else {
        None
    }
}

/// `str::replacen(p, r, 1)`: the first occurrence of `p` replaced by `r`.
pub open spec fn replace_first(s: Seq<char>, p: Seq<char>, r: Seq<char>) -> Seq<char> {
    match first_occurrence(s, p) {
        Some(i) => s.subrange(0, i) + r + s.subrange(i + p.len(), s.len() as int),
        None => s,
    }
}

/// `str::replace(p, r)`: every non-overlapping occurrence of `p`, scanning from
/// the left, replaced by `r` (for a non-empty `p`).
pub open spec fn replace_all(s: Seq<char>, p: Seq<char>, r: Seq<char>) -> Seq<char>
    decreases s.len(),
{
    if p.len() == 0 || s.len() < p.len() {
        s
    } else if starts_with(s, p) {
        r + replace_all(s.subrange(p.len() as int, s.len() as int), p, r)
    } else {
        seq![s[0]] + replace_all(s.drop_first(), p, r)
    }
}

/// `char::to_ascii_lowercase`.
pub open spec fn lower_char(c: char) -> char {
    if 'A' <= c && c <= 'Z' {
        ((c as u32) + 32) as char
    } else {
        c
    }
}

/// `str::to_ascii_lowercase`.
pub open spec fn ascii_lower(s: Seq<char>) -> Seq<char> {
    s.map_values(|c: char| lower_char(c))
}

/// The value of a decimal digit character.
pub open spec fn digit_value(c: char) -> int {
    (c as u32) as int - ('0' as u32) as int
}

pub open spec fn is_digit(c: char) -> bool {
    '0' <= c && c <= '9'
}

pub open spec fn all_digits(s: Seq<char>) -> bool {
    forall|i: int| 0 <= i < s.len() ==> is_digit(#[trigger] s[i])
}

/// The number written by a sequence of decimal digits.
pub open spec fn digits_value(s: Seq<char>) -> nat
    decreases s.len(),
{
    if s.len() == 0 {
        0
    } else {
        (digits_value(s.drop_last()) * 10 + digit_value(s.last())) as nat
    }
}

/// What `u64::from_str` and its narrower siblings accept, for a bound `max`:
/// an optional `+`, then one or more decimal digits, worth at most `max`.
pub open spec fn parse_unsigned(s: Seq<char>, max: nat) -> Option<nat> {
    let body = if s.len() > 0 && s[0] == '+' {
        s.drop_first()
    } else {
        s
    };
    if body.len() > 0 && all_digits(body) && digits_value(body) <= max {
        Some(digits_value(body))
    } else {
        None
    }
}

/// The digit character for `d < 10`.
pub open spec fn digit_char(d: nat) -> char {
    (('0' as u32) + d) as char
}

/// The decimal rendering of `n`, as `Display` writes it.
pub open spec fn decimal(n: nat) -> Seq<char>
    decreases n,
{
    if n < 10 {
        seq![digit_char(n)]
    } else {
        decimal(n / 10).push(digit_char(n % 10))
    }
}

/// The decimal rendering of a signed integer, as `Display` writes it.
pub open spec fn decimal_signed(n: int) -> Seq<char> {
    if n < 0 {
        seq!['-'] + decimal((-n) as nat)
    } else {
        decimal(n as nat)
    }
}

/// The pieces of `s` between occurrences of the character `sep`
/// (`str::split` with a character pattern), built from the left.
pub open spec fn split_char(s: Seq<char>, sep: char) -> Seq<Seq<char>>
    decreases s.len(),
{
    if s.len() == 0 {
        seq![Seq::empty()]
    } else {
        let r = split_char(s.drop_last(), sep);
        if s.last() == sep {
            r.push(Seq::empty())
        } else {
            r.update(r.len() - 1, r.last().push(s.last()))
        }
    }
}

/// `s.split(sep).next()`: everything before the first `sep`.
pub open spec fn before_char(s: Seq<char>, sep: char) -> Seq<char> {
    match first_occurrence(s, seq![sep]) {
        Some(k) => s.take(k),
        None => s,
    }
}

/// Everything after the first `sep`, if `sep` occurs.
pub open spec fn after_char(s: Seq<char>, sep: char) -> Option<Seq<char>> {
    match first_occurrence(s, seq![sep]) {
        Some(k) => Some(s.skip(k + 1)),
        None => None,
    }
}

/// `str::split_whitespace`: the maximal runs of non-whitespace characters.
pub open spec fn words(s: Seq<char>) -> Seq<Seq<char>>
    decreases s.len(),
{
    if s.len() == 0 {
        Seq::empty()
    } else {
        let w = words(s.drop_last());
        let c = s.last();
        if is_ws(c) {
            w
        } else if s.len() > 1 && !is_ws(s[s.len() - 2]) {
            w.update(w.len() - 1, w.last().push(c))
        } else {
            w.push(seq![c])
        }
    }
}

/// The concatenation of `parts`, with `sep` between neighbours.
pub open spec fn join(parts: Seq<Seq<char>>, sep: Seq<char>) -> Seq<char>
    decreases parts.len(),
{
    if parts.len() == 0 {
        Seq::empty()
    } else if parts.len() == 1 {
        parts[0]
    } else {
        join(parts.drop_last(), sep) + sep + parts.last()
    }
}

} // verus!

verus! {

proof fn lemma_trim_start_at(s: Seq<char>, a: int)
    requires
        0 <= a <= s.len(),
        forall|j: int| 0 <= j < a ==> is_ws(#[trigger] s[j]),
        a == s.len() || !is_ws(s[a]),
    ensures
        trim_start(s) == s.subrange(a, s.len() as int),
    decreases a,
{
    if a == 0 {
        assert(s.subrange(0, s.len() as int) =~= s);
    } else {
        let t = s.drop_first();
        assert forall|j: int| 0 <= j < a - 1 implies is_ws(#[trigger] t[j]) by {
            assert(t[j] == s[j + 1]);
        }
        lemma_trim_start_at(t, a - 1);
        assert(t.subrange(a - 1, t.len() as int) =~= s.subrange(a, s.len() as int));
    }
}

proof fn lemma_trim_end_at(t: Seq<char>, b: int)
    requires
        0 <= b <= t.len(),
        forall|j: int| b <= j < t.len() ==> is_ws(#[trigger] t[j]),
        b == 0 || !is_ws(t[b - 1]),
    ensures
        trim_end(t) == t.subrange(0, b),
    decreases t.len() - b,
{
    if b == t.len() {
        assert(t.subrange(0, b) =~= t);
    } else {
        let u = t.drop_last();
        assert forall|j: int| b <= j < u.len() implies is_ws(#[trigger] u[j]) by {
            assert(u[j] == t[j]);
        }
        lemma_trim_end_at(u, b);
        assert(u.subrange(0, b) =~= t.subrange(0, b));
    }
}

proof fn lemma_trim_start_shape(s: Seq<char>)
    ensures
        trim_start(s).len() == 0 || !is_ws(trim_start(s)[0]),
    decreases s.len(),
{
    if s.len() > 0 && is_ws(s[0]) {
        lemma_trim_start_shape(s.drop_first());
    }
}

proof fn lemma_trim_end_shape(s: Seq<char>)
    ensures
        trim_end(s).len() <= s.len(),
        forall|i: int| 0 <= i < trim_end(s).len() ==> trim_end(s)[i] == s[i],
        trim_end(s).len() == 0 || !is_ws(trim_end(s).last()),
    decreases s.len(),
{
    if s.len() > 0 && is_ws(s.last()) {
        let u = s.drop_last();
        lemma_trim_end_shape(u);
        assert forall|i: int| 0 <= i < trim_end(s).len() implies trim_end(s)[i] == s[i] by {
            assert(trim_end(s)[i] == u[i]);
        }
    }
}

/// A trimmed text neither starts nor ends with whitespace.
pub proof fn lemma_trim_shape(s: Seq<char>)
    ensures
        trim(s).len() == 0 || (!is_ws(trim(s)[0]) && !is_ws(trim(s).last())),
{
    lemma_trim_start_shape(s);
    lemma_trim_end_shape(trim_start(s));
}

/// Trimming a text that neither starts nor ends with whitespace leaves it
/// unchanged.
pub proof fn lemma_trim_unchanged(s: Seq<char>)
    requires
        s.len() == 0 || (!is_ws(s[0]) && !is_ws(s.last())),
    ensures
        trim(s) == s,
{
    assert(trim_start(s) == s);
}

/// Trimming twice trims no more than trimming once.
pub proof fn lemma_trim_idempotent(s: Seq<char>)
    ensures
        trim(trim(s)) == trim(s),
{
    lemma_trim_shape(s);
    lemma_trim_unchanged(trim(s));
}

/// A copy of `v[from..to]`.
pub fn slice_range(v: &[char], from: usize, to: usize) -> (r: Vec<char>)
    requires
        from <= to <= v@.len(),
    ensures
        r@ == v@.subrange(from as int, to as int),
{
    let mut r: Vec<char> = Vec::new();
    let mut i = from;
    while i < to
        invariant
            from <= i <= to <= v@.len(),
            r@ == v@.subrange(from as int, i as int),
        decreases to - i,
    {
        r.push(v[i]);
        i = i + 1;
        assert(r@ =~= v@.subrange(from as int, i as int));
    }
    r
}

/// `str::trim` on characters.
pub fn trim_chars(v: &[char]) -> (r: Vec<char>)
    ensures
        r@ == trim(v@),
{
    let n = v.len();
    let mut a: usize = 0;
    while a < n && is_whitespace_char(v[a])
        invariant
            a <= n == v@.len(),
            forall|j: int| 0 <= j < a ==> is_ws(#[trigger] v@[j]),
        decreases n - a,
    {
        a = a + 1;
    }
    proof {
        lemma_trim_start_at(v@, a as int);
    }
    let mut b: usize = n;
    while b > a && is_whitespace_char(v[b - 1])
        invariant
            a <= b <= n == v@.len(),
            forall|j: int| b <= j < n ==> is_ws(#[trigger] v@[j]),
        decreases b,
    {
        b = b - 1;
    }
    proof {
        let t = v@.subrange(a as int, n as int);
        assert forall|j: int| b - a <= j < t.len() implies is_ws(#[trigger] t[j]) by {
            assert(t[j] == v@[a + j]);
        }
        if b > a {
            assert(t[b - a - 1] == v@[b - 1]);
        }
        lemma_trim_end_at(t, b - a);
        assert(t.subrange(0, b - a) =~= v@.subrange(a as int, b as int));
    }
    slice_range(v, a, b)
}

/// Whether `p` occurs in `s` at index `i`.
pub fn matches_at(s: &[char], p: &[char], i: usize) -> (b: bool)
    ensures
        b == occurs_at(s@, p@, i as int),
{
    if i > s.len() || p.len() > s.len() - i {
        return false;
    }
    let mut k: usize = 0;
    while k < p.len()
        invariant
            i + p@.len() <= s@.len(),
            s@.len() == s.len(),
            k <= p@.len(),
            forall|j: int| 0 <= j < k ==> s@[i + j] == p@[j],
        decreases p@.len() - k,
    {
        if s[i + k] != p[k] {
            assert(s@.subrange(i as int, i + p@.len())[k as int] != p@[k as int]);
            return false;
        }
        k = k + 1;
    }
    assert(s@.subrange(i as int, i + p@.len()) =~= p@);
    true
}

/// `str::starts_with` on characters.
pub fn has_prefix(s: &[char], p: &[char]) -> (b: bool)
    ensures
        b == starts_with(s@, p@),
{
    matches_at(s, p, 0)
}

/// `str::ends_with` on characters.
pub fn has_suffix(s: &[char], p: &[char]) -> (b: bool)
    ensures
        b == ends_with(s@, p@),
{
    if p.len() > s.len() {
        false
    } else {
        matches_at(s, p, s.len() - p.len())
    }
}

/// Whether two character sequences are equal.
pub fn chars_eq(a: &[char], b: &[char]) -> (r: bool)
    ensures
        r == (a@ == b@),
{
    if a.len() != b.len() {
        return false;
    }
    let r = matches_at(a, b, 0);
    proof {
        if r {
            assert(a@.subrange(0, b@.len() as int) =~= a@);
        } else {
            assert(a@.subrange(0, a@.len() as int) =~= a@);
        }
    }
    r
}

pub proof fn lemma_first_occurrence_is(s: Seq<char>, p: Seq<char>, i: int)
    requires
        occurs_at(s, p, i),
        forall|j: int| 0 <= j < i ==> !occurs_at(s, p, j),
    ensures
        first_occurrence(s, p) == Some(i),
{
    assert(contains(s, p));
    let k = choose|k: int| occurs_at(s, p, k) && forall|j: int| 0 <= j < k ==> !occurs_at(s, p, j);
    assert(occurs_at(s, p, k) && forall|j: int| 0 <= j < k ==> !occurs_at(s, p, j));
    if k < i {
        assert(!occurs_at(s, p, k));
    }
    if k > i {
        assert(!occurs_at(s, p, i));
    }
}

/// Every sequence that contains `p` has a first occurrence of it.
pub proof fn lemma_first_occurrence(s: Seq<char>, p: Seq<char>)
    ensures
        match first_occurrence(s, p) {
            Some(k) => occurs_at(s, p, k) && forall|j: int| 0 <= j < k ==> !occurs_at(s, p, j),
            None => forall|j: int| !occurs_at(s, p, j),
        },
{
    if contains(s, p) {
        let i = choose|i: int| occurs_at(s, p, i);
        lemma_min_occurrence_exists(s, p, i);
    }
}

proof fn lemma_min_occurrence_exists(s: Seq<char>, p: Seq<char>, i: int)
    requires
        occurs_at(s, p, i),
    ensures
        exists|k: int| occurs_at(s, p, k) && forall|j: int| 0 <= j < k ==> !occurs_at(s, p, j),
    decreases i,
{
    if exists|j: int| 0 <= j < i && occurs_at(s, p, j) {
        let j = choose|j: int| 0 <= j < i && occurs_at(s, p, j);
        lemma_min_occurrence_exists(s, p, j);
    } else {
        assert(occurs_at(s, p, i) && forall|j: int| 0 <= j < i ==> !occurs_at(s, p, j));
    }
}

/// The index of the first occurrence of `p` in `s` (`str::find`, counted in characters).
pub fn find_first(s: &[char], p: &[char]) -> (r: Option<usize>)
    ensures
        match r {
            Some(i) => first_occurrence(s@, p@) == Some(i as int) && occurs_at(s@, p@, i as int)
                && forall|j: int| 0 <= j < i ==> !occurs_at(s@, p@, j),
            None => first_occurrence(s@, p@) is None && forall|j: int| !occurs_at(s@, p@, j),
        },
{
    if p.len() > s.len() {
        assert forall|j: int| !occurs_at(s@, p@, j) by {}
        return None;
    }
    if p.len() == 0 {
        assert(s@.subrange(0, 0) =~= p@);
        proof {
            lemma_first_occurrence_is(s@, p@, 0);
        }
        return Some(0);
    }
    let last = s.len() - p.len();
    let mut i: usize = 0;
    while i <= last
        invariant
            last + p@.len() == s@.len(),
            s@.len() == s.len(),
            p@.len() > 0,
            i <= last + 1,
            forall|j: int| 0 <= j < i ==> !occurs_at(s@, p@, j),
        decreases last + 1 - i,
    {
        if matches_at(s, p, i) {
            proof {
                lemma_first_occurrence_is(s@, p@, i as int);
            }
            return Some(i);
        }
        i = i + 1;
    }
    assert forall|j: int| !occurs_at(s@, p@, j) by {
        if 0 <= j < i {
        } else {
        }
    }
    None
}

/// `str::contains` on characters.
pub fn contains_chars(s: &[char], p: &[char]) -> (b: bool)
    ensures
        b == contains(s@, p@),
{
    let r = find_first(s, p);
    r.is_some()
}

/// `str::replacen(p, r, 1)` on characters.
pub fn replace_first_chars(s: &[char], p: &[char], r: &[char]) -> (out: Vec<char>)
    ensures
        out@ == replace_first(s@, p@, r@),
{
    match find_first(s, p) {
        Some(i) => {
            let n = s.len();
            let m = p.len();
            let mut out = slice_range(s, 0, i);
            append_chars(&mut out, r);
            let tail = slice_range(s, i + m, n);
            append_chars(&mut out, &tail);
            out
        },
        None => slice_range(s, 0, s.len()),
    }
}

/// Appends all of `w` to `out`.
pub fn append_chars(out: &mut Vec<char>, w: &[char])
    ensures
        final(out)@ == old(out)@ + w@,
{
    let mut k: usize = 0;
    while k < w.len()
        invariant
            k <= w@.len(),
            out@ == old(out)@ + w@.take(k as int),
        decreases w@.len() - k,
    {
        out.push(w[k]);
        k = k + 1;
        assert(out@ =~= old(out)@ + w@.take(k as int));
    }
    assert(w@.take(w@.len() as int) =~= w@);
}

/// `str::replace(p, r)` on characters, for a non-empty `p`.
pub fn replace_all_chars(s: &[char], p: &[char], r: &[char]) -> (out: Vec<char>)
    requires
        p@.len() > 0,
    ensures
        out@ == replace_all(s@, p@, r@),
{
    let mut out: Vec<char> = Vec::new();
    let mut i: usize = 0;
    let n = s.len();
    assert(s@.subrange(0, n as int) =~= s@);
    assert(out@ + s@ =~= s@);
    while i < n
        invariant
            n == s@.len(),
            i <= n,
            p@.len() > 0,
            out@ + replace_all(s@.subrange(i as int, n as int), p@, r@) == replace_all(s@, p@, r@),
        decreases n - i,
    {
        let ghost rest = s@.subrange(i as int, n as int);
        if matches_at(s, p, i) {
            proof {
                assert(rest.subrange(0, p@.len() as int) =~= s@.subrange(i as int, i + p@.len()));
                assert(rest.subrange(p@.len() as int, rest.len() as int) =~= s@.subrange(
                    i + p@.len(),
                    n as int,
                ));
            }
            append_chars(&mut out, r);
            i = i + p.len();
            assert(out@ + replace_all(s@.subrange(i as int, n as int), p@, r@) =~= replace_all(s@, p@, r@));
        } else {
            proof {
                if rest.len() >= p@.len() {
                    assert(!starts_with(rest, p@)) by {
                        assert(rest.subrange(0, p@.len() as int) =~= s@.subrange(i as int, i + p@.len()));
                    }
                    assert(rest.drop_first() =~= s@.subrange(i + 1, n as int));
                } else {
                    let rest1 = s@.subrange(i + 1, n as int);
                    assert(rest1.len() < p@.len());
                    assert(rest =~= seq![s@[i as int]] + rest1);
                }
            }
            out.push(s[i]);
            i = i + 1;
            assert(out@ + replace_all(s@.subrange(i as int, n as int), p@, r@) =~= replace_all(s@, p@, r@));
        }
    }
    assert(s@.subrange(n as int, n as int) =~= Seq::<char>::empty());
    assert(out@ + Seq::<char>::empty() =~= out@);
    out
}

/// `str::to_ascii_lowercase` on characters.
pub fn ascii_lower_chars(s: &[char]) -> (r: Vec<char>)
    ensures
        r@ == ascii_lower(s@),
{
    let mut r: Vec<char> = Vec::new();
    let mut i: usize = 0;
    while i < s.len()
        invariant
            i <= s@.len(),
            r@ == ascii_lower(s@.take(i as int)),
        decreases s@.len() - i,
    {
        let c = s[i];
        let l = if 'A' <= c && c <= 'Z' {
            char_from_u32_ascii((c as u32) + 32)
        } else {
            c
        };
        r.push(l);
        i = i + 1;
        assert(r@ =~= ascii_lower(s@.take(i as int)));
    }
    assert(s@.take(s@.len() as int) =~= s@);
    r
}

/// The character with an ASCII code.
fn char_from_u32_ascii(u: u32) -> (c: char)
    requires
        u < 128,
    ensures
        c == u as char,
{
    let b: u8 = u as u8;
    b as char
}

} // verus!

verus! {

proof fn lemma_decimal_len(n: nat)
    ensures
        decimal(n).len() >= 1,
    decreases n,
{
    if n >= 10 {
        lemma_decimal_len(n / 10);
    }
}

/// Appends the decimal rendering of `n`.
pub fn push_decimal(out: &mut Vec<char>, n: u64)
    ensures
        final(out)@ == old(out)@ + decimal(n as nat),
    decreases n,
{
    if n >= 10 {
        push_decimal(out, n / 10);
    }
    let d = (n % 10) as u32;
    let c = char_from_u32_ascii(48 + d);
    out.push(c);
    proof {
        assert(c == digit_char((n % 10) as nat));
        if n >= 10 {
            assert(decimal(n as nat) == decimal((n / 10) as nat).push(digit_char((n % 10) as nat)));
        } else {
            assert(decimal(n as nat) == seq![digit_char(n as nat)]);
        }
        assert(final(out)@ =~= old(out)@ + decimal(n as nat));
    }
}

/// The decimal rendering of an unsigned integer (`u64::to_string`).
pub fn u64_to_decimal(n: u64) -> (r: Vec<char>)
    ensures
        r@ == decimal(n as nat),
{
    let mut r: Vec<char> = Vec::new();
    push_decimal(&mut r, n);
    assert(r@ =~= decimal(n as nat));
    r
}

/// The decimal rendering of a signed integer (`i64::to_string`).
pub fn i64_to_decimal(n: i64) -> (r: Vec<char>)
    ensures
        r@ == decimal_signed(n as int),
{
    let mut r: Vec<char> = Vec::new();
    if n < 0 {
        r.push('-');
        let m: u64 = (-(n as i128)) as u64;
        push_decimal(&mut r, m);
        assert(r@ =~= seq!['-'] + decimal((-n) as nat));
    } else {
        push_decimal(&mut r, n as u64);
        assert(r@ =~= decimal(n as nat));
    }
    r
}

proof fn lemma_digits_value_prefix(s: Seq<char>, k: int)
    requires
        0 <= k <= s.len(),
        all_digits(s),
    ensures
        digits_value(s.take(k)) <= digits_value(s),
    decreases s.len() - k,
{
    if k < s.len() {
        lemma_digits_value_prefix(s, k + 1);
        let t = s.take(k + 1);
        assert(t.drop_last() =~= s.take(k));
        assert(is_digit(s[k]));
    } else {
        assert(s.take(k) =~= s);
    }
}

/// `from_str` for unsigned integers bounded by `max` (`u16`, `u32`, `u64` parsing).
pub fn parse_unsigned_chars(s: &[char], max: u64) -> (r: Option<u64>)
    ensures
        match r {
            Some(v) => parse_unsigned(s@, max as nat) == Some(v as nat),
            None => parse_unsigned(s@, max as nat) is None,
        },
{
    let n = s.len();
    let start: usize = if n > 0 && s[0] == '+' {
        1
    } else {
        0
    };
    let ghost body = if s@.len() > 0 && s@[0] == '+' {
        s@.drop_first()
    } else {
        s@
    };
    assert(body =~= s@.subrange(start as int, n as int));
    if start == n {
        return None;
    }
    let mut val: u128 = 0;
    let mut i = start;
    while i < n
        invariant
            start <= i <= n == s@.len(),
            body == s@.subrange(start as int, n as int),
            body == (if s@.len() > 0 && s@[0] == '+' {
                s@.drop_first()
            } else {
                s@
            }),
            all_digits(body.take(i - start)),
            val as nat == digits_value(body.take(i - start)),
            val <= max,
        decreases n - i,
    {
        let c = s[i];
        if !('0' <= c && c <= '9') {
            assert(!all_digits(body)) by {
                assert(body[i - start] == c);
            }
            return None;
        }
        let d = (c as u32) - 48;
        let nv: u128 = val * 10 + (d as u128);
        proof {
            let t = body.take(i + 1 - start);
            assert(t.drop_last() =~= body.take(i - start));
            assert(t.last() == c);
            assert(all_digits(t));
        }
        if nv > max as u128 {
            proof {
                let t = body.take(i + 1 - start);
                if all_digits(body) {
                    lemma_digits_value_prefix(body, i + 1 - start);
                }
            }
            return None;
        }
        val = nv;
        i = i + 1;
    }
    assert(body.take(n - start) =~= body);
    Some(val as u64)
}

/// `s.split(sep).next()` on characters: everything before the first `sep`.
pub fn before_char_chars(s: &[char], sep: char) -> (r: Vec<char>)
    ensures
        r@ == before_char(s@, sep),
{
    let p = [sep];
    assert(p@ =~= seq![sep]);
    match find_first(s, &p) {
        Some(k) => slice_range(s, 0, k),
        None => slice_range(s, 0, s.len()),
    }
}

/// Everything after the first `sep`, if `sep` occurs.
pub fn after_char_chars(s: &[char], sep: char) -> (r: Option<Vec<char>>)
    ensures
        match r {
            Some(v) => after_char(s@, sep) == Some(v@),
            None => after_char(s@, sep) is None,
        },
{
    let p = [sep];
    assert(p@ =~= seq![sep]);
    let n = s.len();
    match find_first(s, &p) {
        Some(k) => Some(slice_range(s, k + 1, n)),
        None => None,
    }
}

/// The views of a list of character vectors.
pub open spec fn views(v: Seq<Vec<char>>) -> Seq<Seq<char>> {
    v.map_values(|w: Vec<char>| w@)
}

/// `str::split(sep)` on characters.
pub fn split_char_chars(s: &[char], sep: char) -> (r: Vec<Vec<char>>)
    ensures
        views(r@) == split_char(s@, sep),
{
    let mut done: Vec<Vec<char>> = Vec::new();
    let mut cur: Vec<char> = Vec::new();
    let mut i: usize = 0;
    assert(views(done@).push(cur@) =~= split_char(s@.take(0), sep));
    while i < s.len()
        invariant
            i <= s@.len(),
            views(done@).push(cur@) == split_char(s@.take(i as int), sep),
        decreases s@.len() - i,
    {
        let c = s[i];
        proof {
            assert(s@.take(i + 1).drop_last() =~= s@.take(i as int));
        }
        if c == sep {
            let piece = cur;
            done.push(piece);
            cur = Vec::new();
            assert(views(done@).push(cur@) =~= split_char(s@.take(i + 1), sep));
        } else {
            cur.push(c);
            assert(views(done@).push(cur@) =~= split_char(s@.take(i + 1), sep));
        }
        i = i + 1;
    }
    done.push(cur);
    assert(s@.take(s@.len() as int) =~= s@);
    assert(views(done@) =~= split_char(s@, sep));
    done
}

/// `str::split_whitespace` on characters.
pub fn words_chars(s: &[char]) -> (r: Vec<Vec<char>>)
    ensures
        views(r@) == words(s@),
{
    let mut done: Vec<Vec<char>> = Vec::new();
    let mut cur: Vec<char> = Vec::new();
    let mut i: usize = 0;
    while i < s.len()
        invariant
            i <= s@.len(),
            cur@.len() > 0 ==> i > 0 && !is_ws(s@[i - 1]),
            cur@.len() == 0 ==> (i == 0 || is_ws(s@[i - 1])),
            (if cur@.len() > 0 { views(done@).push(cur@) } else { views(done@) })
                == words(s@.take(i as int)),
        decreases s@.len() - i,
    {
        let c = s[i];
        proof {
            assert(s@.take(i + 1).drop_last() =~= s@.take(i as int));
            if i > 0 {
                assert(s@.take(i + 1)[i - 1] == s@[i - 1]);
            }
        }
        if is_whitespace_char(c) {
            if cur.len() > 0 {
                let piece = cur;
                done.push(piece);
                cur = Vec::new();
            }
            assert(views(done@) =~= words(s@.take(i + 1)));
        } else {
            let ghost old_cur = cur@;
            cur.push(c);
            proof {
                let t = s@.take(i + 1);
                let w = words(t.drop_last());
                assert(t.last() == c);
                if old_cur.len() > 0 {
                    assert(w == views(done@).push(old_cur));
                    assert(t.len() > 1 && !is_ws(t[t.len() - 2]));
                    assert(words(t) == w.update(w.len() - 1, w.last().push(c)));
                    assert(views(done@).push(cur@) =~= w.update(w.len() - 1, w.last().push(c)));
                } else {
                    assert(w == views(done@));
                    assert(!(t.len() > 1 && !is_ws(t[t.len() - 2])));
                    assert(words(t) == w.push(seq![c]));
                    assert(cur@ =~= seq![c]);
                    assert(views(done@).push(cur@) =~= w.push(seq![c]));
                }
            }
        }
        i = i + 1;
    }
    if cur.len() > 0 {
        done.push(cur);
    }
    assert(s@.take(s@.len() as int) =~= s@);
    assert(views(done@) =~= words(s@));
    done
}

/// The pieces joined with `sep` between neighbours (`[String]::join`).
pub fn join_chars(parts: &Vec<Vec<char>>, sep: &[char]) -> (r: Vec<char>)
    ensures
        r@ == join(views(parts@), sep@),
{
    let mut r: Vec<char> = Vec::new();
    let mut i: usize = 0;
    while i < parts.len()
        invariant
            i <= parts@.len(),
            r@ == join(views(parts@).take(i as int), sep@),
        decreases parts@.len() - i,
    {
        proof {
            assert(views(parts@).take(i + 1).drop_last() =~= views(parts@).take(i as int));
        }
        if i > 0 {
            append_chars(&mut r, sep);
        }
        append_chars(&mut r, &parts[i]);
        i = i + 1;
        assert(r@ =~= join(views(parts@).take(i as int), sep@));
    }
    assert(views(parts@).take(parts@.len() as int) =~= views(parts@));
    r
}

} // verus!

verus! {

/// Zero is written `0`.
pub proof fn lemma_decimal_signed_zero()
    ensures
        decimal_signed(0) == seq!['0'],
{
    assert(decimal(0) == seq![digit_char(0)]);
}

} // verus!

verus! {

/// The index of the last occurrence of `c` in `s`.
pub open spec fn last_index_of(s: Seq<char>, c: char) -> Option<int>
    decreases s.len(),
{
    if s.len() == 0 {
        None
    } else if s.last() == c {
        Some(s.len() - 1)
    } else {
        last_index_of(s.drop_last(), c)
    }
}

pub proof fn lemma_last_index_of(s: Seq<char>, c: char)
    ensures
        match last_index_of(s, c) {
            Some(i) => 0 <= i < s.len() && s[i] == c && forall|j: int| i < j < s.len() ==> s[j] != c,
            None => forall|j: int| 0 <= j < s.len() ==> s[j] != c,
        },
    decreases s.len(),
{
    if s.len() > 0 {
        let t = s.drop_last();
        lemma_last_index_of(t, c);
        if s.last() != c {
            assert forall|j: int| 0 <= j < t.len() implies s[j] == t[j] by {}
            match last_index_of(t, c) {
                Some(i) => {
                    assert forall|j: int| i < j < s.len() implies s[j] != c by {
                        if j < t.len() {
                            assert(s[j] == t[j]);
                        }
                    }
                },
                None => {
                    assert forall|j: int| 0 <= j < s.len() implies s[j] != c by {
                        if j < t.len() {
                            assert(s[j] == t[j]);
                        }
                    }
                },
            }
        }
    }
}

/// The index of the last occurrence of `c`.
pub fn last_index_of_chars(s: &[char], c: char) -> (r: Option<usize>)
    ensures
        match r {
            Some(i) => last_index_of(s@, c) == Some(i as int),
            None => last_index_of(s@, c) is None,
        },
{
    let mut i = s.len();
    assert(s@.take(i as int) =~= s@);
    while i > 0
        invariant
            i <= s@.len(),
            last_index_of(s@, c) == last_index_of(s@.take(i as int), c),
        decreases i,
    {
        proof {
            assert(s@.take(i as int).drop_last() =~= s@.take(i - 1));
        }
        if s[i - 1] == c {
            return Some(i - 1);
        }
        i = i - 1;
    }
    None
}

/// `char::is_ascii_alphanumeric`.
pub open spec fn is_ascii_alnum(c: char) -> bool {
    ('0' <= c && c <= '9') || ('a' <= c && c <= 'z') || ('A' <= c && c <= 'Z')
}

} // verus!

verus! {

/// `s` without its trailing `c`s (`str::trim_end_matches(c)`).
pub open spec fn trim_end_char(s: Seq<char>, c: char) -> Seq<char>
    decreases s.len(),
{
    if s.len() > 0 && s.last() == c {
        trim_end_char(s.drop_last(), c)
    } else {
        s
    }
}

pub fn trim_end_char_chars(s: &[char], c: char) -> (r: Vec<char>)
    ensures
        r@ == trim_end_char(s@, c),
{
    let mut n = s.len();
    assert(s@.take(n as int) =~= s@);
    while n > 0 && s[n - 1] == c
        invariant
            n <= s@.len(),
            trim_end_char(s@, c) == trim_end_char(s@.take(n as int), c),
        decreases n,
    {
        assert(s@.take(n as int).drop_last() =~= s@.take(n - 1));
        n = n - 1;
    }
    slice_range(s, 0, n)
}

/// `s` without its leading `c`s (`str::trim_start_matches(c)`).
pub open spec fn trim_start_char(s: Seq<char>, c: char) -> Seq<char>
    decreases s.len(),
{
    if s.len() > 0 && s[0] == c {
        trim_start_char(s.drop_first(), c)
    } else {
        s
    }
}

pub fn trim_start_char_chars(s: &[char], c: char) -> (r: Vec<char>)
    ensures
        r@ == trim_start_char(s@, c),
{
    let n = s.len();
    let mut a: usize = 0;
    assert(s@.skip(0) =~= s@);
    while a < n && s[a] == c
        invariant
            a <= n == s@.len(),
            trim_start_char(s@, c) == trim_start_char(s@.skip(a as int), c),
        decreases n - a,
    {
        assert(s@.skip(a as int).drop_first() =~= s@.skip(a + 1));
        a = a + 1;
    }
    assert(s@.skip(a as int) =~= s@.subrange(a as int, n as int));
    slice_range(s, a, n)
}

} // verus!

verus! {

/// What `i64::from_str` accepts: an optional sign, then one or more decimal
/// digits, within the range of `i64`.
pub open spec fn parse_signed(s: Seq<char>) -> Option<int> {
    if s.len() > 0 && s[0] == '-' {
        let body = s.drop_first();
        if body.len() > 0 && all_digits(body) && digits_value(body) <= 0x8000_0000_0000_0000 {
            Some(-(digits_value(body) as int))
        } else {
            None
        }
    } else {
        match parse_unsigned(s, 0x7FFF_FFFF_FFFF_FFFF) {
            Some(n) => Some(n as int),
            None => None,
        }
    }
}

/// `str::parse::<i64>` on characters.
pub fn parse_signed_chars(s: &[char]) -> (r: Option<i64>)
    ensures
        match r {
            Some(v) => parse_signed(s@) == Some(v as int),
            None => parse_signed(s@) is None,
        },
{
    if s.len() > 0 && s[0] == '-' {
        let body = slice_range(s, 1, s.len());
        assert(body@ =~= s@.drop_first());
        match parse_unsigned_chars(&body, 0x8000_0000_0000_0000) {
            Some(n) => {
                if body.len() > 0 && body[0] == '+' {
                    None
                } else {
                    proof {
                        assert(parse_unsigned(body@, 0x8000_0000_0000_0000) == Some(n as nat));
                    }
                    if n == 0x8000_0000_0000_0000 {
                        Some(i64::MIN)
                    } else {
                        Some(-(n as i64))
                    }
                }
            },
            None => None,
        }
    } else {
        match parse_unsigned_chars(s, 0x7FFF_FFFF_FFFF_FFFF) {
            Some(n) => Some(n as i64),
            None => None,
        }
    }
}

} // verus!
