//! Character-level text operations used throughout the library, each
//! specified over the `Seq<char>` view of a string.
use vstd::prelude::*;

verus! {

// ---------------------------------------------------------------------------
// Conversions between strings and character vectors
// ---------------------------------------------------------------------------

/// The characters of `s`, in order (`str::chars` collected). A string holds
/// at most `isize::MAX` bytes, each character at least one.
#[verifier::external_body]
pub(crate) fn chars_of(s: &str) -> (v: Vec<char>)
    ensures
        v@ == s@,
        v@.len() <= isize::MAX,
{
    s.chars().collect()
}

/// The string made of `v[from..to]` (`FromIterator<char>` over a slice).
#[verifier::external_body]
pub(crate) fn string_of_range(v: &Vec<char>, from: usize, to: usize) -> (s: String)
    requires
        from <= to <= v.len(),
    ensures
        s@ == v@.subrange(from as int, to as int),
{
    v[from..to].iter().collect()
}

/// Appends one character (`String::push`).
#[verifier::external_body]
pub(crate) fn push_char(s: &mut String, c: char)
    ensures
        final(s)@ == old(s)@.push(c),
{
    s.push(c)
}

/// A copy of `s` as an owned string.
pub fn owned(s: &str) -> (r: String)
    ensures
        r@ == s@,
{
    String::from_str(s)
}

/// Concatenation of two strings.
pub fn concat2(a: &str, b: &str) -> (r: String)
    ensures
        r@ == a@ + b@,
{
    let mut r = String::from_str(a);
    r.append(b);
    r
}

/// Concatenation of three strings.
pub fn concat3(a: &str, b: &str, c: &str) -> (r: String)
    ensures
        r@ == a@ + b@ + c@,
{
    let mut r = String::from_str(a);
    r.append(b);
    r.append(c);
    r
}

// ---------------------------------------------------------------------------
// Equality, prefixes, suffixes, substrings
// ---------------------------------------------------------------------------

/// `true` when `p` occurs in `s` at position `i`.
pub open spec fn occurs_at(s: Seq<char>, p: Seq<char>, i: int) -> bool {
    0 <= i && i + p.len() <= s.len() && s.subrange(i, i + p.len()) == p
}

/// `true` when `p` occurs somewhere in `s`.
pub open spec fn has_substring(s: Seq<char>, p: Seq<char>) -> bool {
    exists|i: int| #[trigger] occurs_at(s, p, i)
}

/// Whether `p` occurs in `v` at position `i`.
pub fn occurs_at_exec(v: &Vec<char>, p: &Vec<char>, i: usize) -> (r: bool)
    ensures
        r == occurs_at(v@, p@, i as int),
{
    if i > v.len() || p.len() > v.len() - i {
        return false;
    }
    let mut j: usize = 0;
    while j < p.len()
        invariant
            i + p.len() <= v.len(),
            j <= p.len(),
            forall|k: int| 0 <= k < j ==> v@[i + k] == p@[k],
        decreases p.len() - j,
    {
        if v[i + j] != p[j] {
            assert(v@.subrange(i as int, i + p.len())[j as int] != p@[j as int]);
            return false;
        }
        j += 1;
    }
    assert(v@.subrange(i as int, i + p.len()) =~= p@);
    true
}

/// Compares two strings character by character.
pub fn str_eq(a: &str, b: &str) -> (r: bool)
    ensures
        r == (a@ == b@),
{
    let x = chars_of(a);
    let y = chars_of(b);
    if x.len() != y.len() {
        return false;
    }
    let r = occurs_at_exec(&x, &y, 0);
    proof {
        if r {
            assert(x@.subrange(0, x@.len() as int) =~= x@);
        } else {
            assert(x@.subrange(0, y@.len() as int) =~= x@);
        }
    }
    r
}

/// `str::starts_with` for a string pattern.
pub fn starts_with(s: &str, p: &str) -> (r: bool)
    ensures
        r == p@.is_prefix_of(s@),
{
    let x = chars_of(s);
    let y = chars_of(p);
    let r = occurs_at_exec(&x, &y, 0);
    proof {
        if r {
            assert(y@ =~= x@.subrange(0, y@.len() as int));
        } else if y@.len() <= x@.len() {
            assert(x@.subrange(0, y@.len() as int) != y@);
        }
    }
    r
}

/// `str::ends_with` for a string pattern.
pub fn ends_with(s: &str, p: &str) -> (r: bool)
    ensures
        r == p@.is_suffix_of(s@),
{
    let x = chars_of(s);
    let y = chars_of(p);
    if y.len() > x.len() {
        return false;
    }
    let r = occurs_at_exec(&x, &y, x.len() - y.len());
    r
}

/// Index of the first occurrence of `p` in `s` at or after `from`, or `s.len()` when none.
pub open spec fn first_occurrence_from(s: Seq<char>, p: Seq<char>, from: int) -> int
    decreases s.len() - from,
{
    if from < 0 || from > s.len() {
        s.len() as int
    } else if occurs_at(s, p, from) {
        from
    } else if from == s.len() {
        s.len() as int
    } else {
        first_occurrence_from(s, p, from + 1)
    }
}

proof fn lemma_first_occurrence(s: Seq<char>, p: Seq<char>, from: int)
    requires
        0 <= from <= s.len(),
    ensures
        from <= first_occurrence_from(s, p, from) <= s.len(),
        first_occurrence_from(s, p, from) < s.len() ==> occurs_at(s, p, first_occurrence_from(s, p, from)),
        forall|k: int| from <= k < first_occurrence_from(s, p, from) ==> !occurs_at(s, p, k),
        (first_occurrence_from(s, p, from) == s.len() && occurs_at(s, p, s.len() as int)) ==> p.len() == 0,
    decreases s.len() - from,
{
    if !occurs_at(s, p, from) && from < s.len() {
        lemma_first_occurrence(s, p, from + 1);
    }
}

/// Index of the first occurrence of `p` in `v` at or after `from`, or `v.len()` when none.
pub fn find_from(v: &Vec<char>, p: &Vec<char>, from: usize) -> (r: usize)
    requires
        from <= v.len(),
    ensures
        r == first_occurrence_from(v@, p@, from as int),
{
    let mut i = from;
    while i < v.len()
        invariant
            from <= i <= v.len(),
            first_occurrence_from(v@, p@, from as int) == first_occurrence_from(v@, p@, i as int),
        decreases v.len() - i,
    {
        if occurs_at_exec(v, p, i) {
            return i;
        }
        i += 1;
    }
    i
}

/// `str::contains` for a string pattern.
pub fn contains(s: &str, p: &str) -> (r: bool)
    ensures
        r == has_substring(s@, p@),
{
    let x = chars_of(s);
    let y = chars_of(p);
    let k = find_from(&x, &y, 0);
    proof {
        lemma_first_occurrence(x@, y@, 0);
        if k < x.len() {
            assert(occurs_at(s@, p@, k as int));
        } else if occurs_at(x@, y@, x@.len() as int) {
            assert(occurs_at(s@, p@, x@.len() as int));
        } else {
            assert forall|i: int| !#[trigger] occurs_at(s@, p@, i) by {
                if 0 <= i < x@.len() {
                } else if i == x@.len() {
                } else {
                }
            }
        }
    }
    k < x.len() || occurs_at_exec(&x, &y, x.len())
}

// ---------------------------------------------------------------------------
// Whitespace and trimming
// ---------------------------------------------------------------------------

/// Unicode `White_Space`, the set that `char::is_whitespace` tests.
pub open spec fn is_ws(c: char) -> bool {
    let n = c as u32;
    (9 <= n <= 13) || n == 32 || n == 0x85 || n == 0xA0 || n == 0x1680 || (0x2000 <= n <= 0x200A)
        || n == 0x2028 || n == 0x2029 || n == 0x202F || n == 0x205F || n == 0x3000
}

/// `char::is_whitespace`.
pub fn is_whitespace(c: char) -> (r: bool)
    ensures
        r == is_ws(c),
{
    let n = c as u32;
    (9 <= n && n <= 13) || n == 32 || n == 0x85 || n == 0xA0 || n == 0x1680 || (0x2000 <= n && n
        <= 0x200A) || n == 0x2028 || n == 0x2029 || n == 0x202F || n == 0x205F || n == 0x3000
}

/// Index of the first non-whitespace character at or after `i` (or `s.len()`).
pub open spec fn skip_ws(s: Seq<char>, i: int) -> int
    decreases s.len() - i,
{
    if 0 <= i < s.len() && is_ws(s[i]) {
        skip_ws(s, i + 1)
    } else {
        i
    }
}

/// End (exclusive) of `s.take(j)` once trailing whitespace is removed.
pub open spec fn trim_end_at(s: Seq<char>, j: int) -> int
    decreases j,
{
    if 0 < j <= s.len() && is_ws(s[j - 1]) {
        trim_end_at(s, j - 1)
    } else {
        j
    }
}

/// `str::trim_start`.
pub open spec fn trim_start(s: Seq<char>) -> Seq<char> {
    s.skip(skip_ws(s, 0))
}

/// `str::trim_end`.
pub open spec fn trim_end(s: Seq<char>) -> Seq<char> {
    s.take(trim_end_at(s, s.len() as int))
}

/// `str::trim`.
pub open spec fn trim(s: Seq<char>) -> Seq<char> {
    trim_end(trim_start(s))
}

proof fn lemma_skip_ws_bounds(s: Seq<char>, i: int)
    requires
        0 <= i <= s.len(),
    ensures
        i <= skip_ws(s, i) <= s.len(),
    decreases s.len() - i,
{
    if i < s.len() && is_ws(s[i]) {
        lemma_skip_ws_bounds(s, i + 1);
    }
}

proof fn lemma_trim_end_bounds(s: Seq<char>, j: int)
    requires
        0 <= j <= s.len(),
    ensures
        0 <= trim_end_at(s, j) <= j,
    decreases j,
{
    if 0 < j && is_ws(s[j - 1]) {
        lemma_trim_end_bounds(s, j - 1);
    }
}

/// `str::trim`, as an owned string.
pub fn trim_str(s: &str) -> (r: String)
    ensures
        r@ == trim(s@),
{
    let v = chars_of(s);
    let mut a: usize = 0;
    while a < v.len() && is_whitespace(v[a])
        invariant
            a <= v.len(),
            skip_ws(v@, a as int) == skip_ws(v@, 0),
        decreases v.len() - a,
    {
        a += 1;
    }
    let ghost t = v@.skip(a as int);
    let mut b: usize = v.len();
    while b > a && is_whitespace(v[b - 1])
        invariant
            a <= b <= v.len(),
            t == v@.skip(a as int),
            trim_end_at(t, (b - a) as int) == trim_end_at(t, t.len() as int),
        decreases b,
    {
        assert(t[(b - a) - 1] == v@[b - 1]);
        b -= 1;
    }
    proof {
        lemma_trim_end_bounds(t, (b - a) as int);
        assert(trim_end_at(t, (b - a) as int) == (b - a) as int);
        assert(v@.subrange(a as int, b as int) =~= t.take((b - a) as int));
    }
    string_of_range(&v, a, b)
}

// ---------------------------------------------------------------------------
// Lexicographic order (the order of `String`'s `Ord`)
// ---------------------------------------------------------------------------

/// Strict lexicographic order by code point; equal to byte order of UTF-8.
pub open spec fn seq_lt(a: Seq<char>, b: Seq<char>) -> bool
    decreases a.len(),
{
    if a.len() == 0 {
        b.len() > 0
    } else if b.len() == 0 {
        false
    } else if a[0] != b[0] {
        a[0] < b[0]
    } else {
        seq_lt(a.drop_first(), b.drop_first())
    }
}

pub proof fn lemma_seq_lt_irreflexive(a: Seq<char>)
    ensures
        !seq_lt(a, a),
    decreases a.len(),
{
    if a.len() > 0 {
        lemma_seq_lt_irreflexive(a.drop_first());
    }
}

pub proof fn lemma_seq_lt_total(a: Seq<char>, b: Seq<char>)
    ensures
        a != b ==> (seq_lt(a, b) || seq_lt(b, a)),
        !(seq_lt(a, b) && seq_lt(b, a)),
    decreases a.len(),
{
    if a.len() > 0 && b.len() > 0 && a[0] == b[0] {
        lemma_seq_lt_total(a.drop_first(), b.drop_first());
        if a.drop_first() == b.drop_first() {
            assert(a =~= seq![a[0]] + a.drop_first());
            assert(b =~= seq![b[0]] + b.drop_first());
            assert(a == b);
        } else {
            assert(seq_lt(a, b) == seq_lt(a.drop_first(), b.drop_first()));
            assert(seq_lt(b, a) == seq_lt(b.drop_first(), a.drop_first()));
        }
    } else if a.len() == 0 && b.len() == 0 {
        assert(a =~= b);
    } else if a.len() > 0 && b.len() > 0 {
        assert(a[0] < b[0] || b[0] < a[0]);
    }
}

pub proof fn lemma_seq_lt_transitive(a: Seq<char>, b: Seq<char>, c: Seq<char>)
    requires
        seq_lt(a, b),
        seq_lt(b, c),
    ensures
        seq_lt(a, c),
    decreases a.len(),
{
    if a.len() > 0 && b.len() > 0 && c.len() > 0 && a[0] == b[0] && b[0] == c[0] {
        lemma_seq_lt_transitive(a.drop_first(), b.drop_first(), c.drop_first());
    }
}

/// Lexicographic `<` on strings.
pub fn str_lt(a: &str, b: &str) -> (r: bool)
    ensures
        r == seq_lt(a@, b@),
{
    let x = chars_of(a);
    let y = chars_of(b);
    let mut i: usize = 0;
    assert(x@.skip(0) =~= x@);
    assert(y@.skip(0) =~= y@);
    while i < x.len() && i < y.len() && x[i] == y[i]
        invariant
            i <= x.len(),
            i <= y.len(),
            seq_lt(x@, y@) == seq_lt(x@.skip(i as int), y@.skip(i as int)),
        decreases x.len() - i,
    {
        assert(x@.skip(i as int).drop_first() =~= x@.skip(i + 1));
        assert(y@.skip(i as int).drop_first() =~= y@.skip(i + 1));
        i += 1;
    }
    if i == x.len() {
        i < y.len()
    } else if i == y.len() {
        false
    } else {
        x[i] < y[i]
    }
}

// ---------------------------------------------------------------------------
// Decimal rendering of integers
// ---------------------------------------------------------------------------

/// The ASCII digit for `d < 10`.
pub open spec fn digit_char(d: nat) -> char {
    if d == 0 {
        '0'
    } else if d == 1 {
        '1'
    } else if d == 2 {
        '2'
    } else if d == 3 {
        '3'
    } else if d == 4 {
        '4'
    } else if d == 5 {
        '5'
    } else if d == 6 {
        '6'
    } else if d == 7 {
        '7'
    } else if d == 8 {
        '8'
    } else {
        '9'
    }
}

/// The decimal representation of `n`, as `Display` writes it.
pub open spec fn decimal(n: nat) -> Seq<char>
    decreases n,
{
    if n < 10 {
        seq![digit_char(n)]
    } else {
        decimal(n / 10).push(digit_char(n % 10))
    }
}

fn digit_exec(d: u128) -> (c: char)
    requires
        d < 10,
    ensures
        c == digit_char(d as nat),
{
    if d == 0 {
        '0'
    } else if d == 1 {
        '1'
    } else if d == 2 {
        '2'
    } else if d == 3 {
        '3'
    } else if d == 4 {
        '4'
    } else if d == 5 {
        '5'
    } else if d == 6 {
        '6'
    } else if d == 7 {
        '7'
    } else if d == 8 {
        '8'
    } else {
        '9'
    }
}

/// Decimal text of an unsigned integer.
pub fn decimal_string(n: u128) -> (r: String)
    ensures
        r@ == decimal(n as nat),
    decreases n,
{
    if n < 10 {
        let mut r = String::new();
        push_char(&mut r, digit_exec(n));
        assert(r@ =~= seq![digit_char(n as nat)]);
        r
    } else {
        let mut r = decimal_string(n / 10);
        push_char(&mut r, digit_exec(n % 10));
        r
    }
}

/// Decimal text of a `usize`.
pub fn usize_string(n: usize) -> (r: String)
    ensures
        r@ == decimal(n as nat),
{
    decimal_string(n as u128)
}

// ---------------------------------------------------------------------------
// Lines and words
// ---------------------------------------------------------------------------

/// A line without the `'\r'` of a `"\r\n"` ending.
pub open spec fn strip_cr(l: Seq<char>) -> Seq<char> {
    if l.len() > 0 && l.last() == '\r' {
        l.drop_last()
    } else {
        l
    }
}

/// The lines that `str::lines` yields for `s`, given the text `cur` of the
/// line already begun.
pub open spec fn lines_acc(s: Seq<char>, cur: Seq<char>) -> Seq<Seq<char>>
    decreases s.len(),
{
    if s.len() == 0 {
        if cur.len() == 0 {
            seq![]
        } else {
            seq![cur]
        }
    } else if s[0] == '\n' {
        seq![strip_cr(cur)] + lines_acc(s.drop_first(), seq![])
    } else {
        lines_acc(s.drop_first(), cur.push(s[0]))
    }
}

/// `str::lines`: the text split at `'\n'`, each piece without a `'\r'` that
/// precedes the `'\n'`, and no empty piece after a final `'\n'`.
pub open spec fn lines(s: Seq<char>) -> Seq<Seq<char>> {
    lines_acc(s, seq![])
}

/// The views of a vector of strings.
pub open spec fn views(v: Seq<String>) -> Seq<Seq<char>> {
    v.map_values(|x: String| x@)
}

pub proof fn lemma_views_push(v: Seq<String>, x: String)
    ensures
        views(v.push(x)) == views(v).push(x@),
{
    assert(views(v.push(x)) =~= views(v).push(x@));
}

/// `str::lines`, collected.
pub fn lines_of(s: &str) -> (r: Vec<String>)
    ensures
        views(r@) == lines(s@),
{
    let v = chars_of(s);
    let mut out: Vec<String> = Vec::new();
    let mut cur: Vec<char> = Vec::new();
    let mut i: usize = 0;
    assert(v@.skip(0) =~= v@);
    while i < v.len()
        invariant
            i <= v.len(),
            v@ == s@,
            lines(s@) == views(out@) + lines_acc(v@.skip(i as int), cur@),
        decreases v.len() - i,
    {
        let ghost rest = v@.skip(i as int);
        assert(rest.drop_first() =~= v@.skip(i + 1));
        if v[i] == '\n' {
            let mut line_end = cur.len();
            if line_end > 0 && cur[line_end - 1] == '\r' {
                line_end -= 1;
            }
            let line = string_of_range(&cur, 0, line_end);
            proof {
                assert(line@ =~= strip_cr(cur@));
                lemma_views_push(out@, line);
                assert(views(out@.push(line)) + lines_acc(rest.drop_first(), seq![]) =~= views(out@) + (
                seq![strip_cr(cur@)] + lines_acc(rest.drop_first(), seq![])));
            }
            out.push(line);
            cur = Vec::new();
        } else {
            cur.push(v[i]);
        }
        i += 1;
    }
    if cur.len() > 0 {
        let line = string_of_range(&cur, 0, cur.len());
        proof {
            assert(line@ =~= cur@);
            lemma_views_push(out@, line);
        }
        out.push(line);
    }
    proof {
        assert(v@.skip(i as int) =~= Seq::<char>::empty());
        assert(views(out@) =~= lines(s@));
    }
    out
}

/// The maximal runs of non-whitespace characters of `s`, given the run `cur`
/// already begun (`str::split_whitespace`).
pub open spec fn words_acc(s: Seq<char>, cur: Seq<char>) -> Seq<Seq<char>>
    decreases s.len(),
{
    if s.len() == 0 {
        if cur.len() == 0 {
            seq![]
        } else {
            seq![cur]
        }
    } else if is_ws(s[0]) {
        (if cur.len() == 0 {
            seq![]
        } else {
            seq![cur]
        }) + words_acc(s.drop_first(), seq![])
    } else {
        words_acc(s.drop_first(), cur.push(s[0]))
    }
}

/// `str::split_whitespace`.
pub open spec fn words(s: Seq<char>) -> Seq<Seq<char>> {
    words_acc(s, seq![])
}

/// `str::split_whitespace`, collected.
pub fn words_of(s: &str) -> (r: Vec<String>)
    ensures
        views(r@) == words(s@),
{
    let v = chars_of(s);
    let mut out: Vec<String> = Vec::new();
    let mut cur: Vec<char> = Vec::new();
    let mut i: usize = 0;
    assert(v@.skip(0) =~= v@);
    while i < v.len()
        invariant
            i <= v.len(),
            v@ == s@,
            words(s@) == views(out@) + words_acc(v@.skip(i as int), cur@),
        decreases v.len() - i,
    {
        let ghost rest = v@.skip(i as int);
        assert(rest.drop_first() =~= v@.skip(i + 1));
        if is_whitespace(v[i]) {
            if cur.len() > 0 {
                let w = string_of_range(&cur, 0, cur.len());
                proof {
                    assert(w@ =~= cur@);
                    lemma_views_push(out@, w);
                    assert(views(out@.push(w)) + words_acc(rest.drop_first(), seq![]) =~= views(out@)
                        + (seq![cur@] + words_acc(rest.drop_first(), seq![])));
                }
                out.push(w);
            } else {
                assert(views(out@) + words_acc(rest.drop_first(), seq![]) =~= views(out@) + (
                Seq::<Seq<char>>::empty() + words_acc(rest.drop_first(), seq![])));
            }
            cur = Vec::new();
        } else {
            cur.push(v[i]);
        }
        i += 1;
    }
    if cur.len() > 0 {
        let w = string_of_range(&cur, 0, cur.len());
        proof {
            assert(w@ =~= cur@);
            lemma_views_push(out@, w);
        }
        out.push(w);
    }
    proof {
        assert(v@.skip(i as int) =~= Seq::<char>::empty());
        assert(views(out@) =~= words(s@));
    }
    out
}

/// `s` without its trailing run of `c` (`str::trim_end_matches` for a char).
pub open spec fn trim_trailing(s: Seq<char>, c: char) -> Seq<char>
    decreases s.len(),
{
    if s.len() > 0 && s.last() == c {
        trim_trailing(s.drop_last(), c)
    } else {
        s
    }
}

/// `str::trim_end_matches` for a char.
pub fn trim_end_char(s: &str, c: char) -> (r: String)
    ensures
        r@ == trim_trailing(s@, c),
{
    let v = chars_of(s);
    let mut j: usize = v.len();
    assert(v@.take(j as int) =~= v@);
    while j > 0 && v[j - 1] == c
        invariant
            j <= v@.len(),
            trim_trailing(s@, c) == trim_trailing(v@.take(j as int), c),
        decreases j,
    {
        assert(v@.take(j as int).drop_last() =~= v@.take(j - 1));
        j -= 1;
    }
    string_of_range(&v, 0, j)
}

/// The pieces joined with `sep` between consecutive pieces (`[String]::join`).
pub open spec fn join(parts: Seq<Seq<char>>, sep: Seq<char>) -> Seq<char>
    decreases parts.len(),
{
    if parts.len() == 0 {
        seq![]
    } else if parts.len() == 1 {
        parts[0]
    } else {
        join(parts.drop_last(), sep) + sep + parts.last()
    }
}

/// `[String]::join`.
pub fn join_strings(parts: &Vec<String>, sep: &str) -> (r: String)
    ensures
        r@ == join(views(parts@), sep@),
{
    let mut r = String::new();
    let mut i: usize = 0;
    while i < parts.len()
        invariant
            i <= parts.len(),
            r@ == join(views(parts@).take(i as int), sep@),
        decreases parts.len() - i,
    {
        assert(views(parts@).take(i + 1).drop_last() =~= views(parts@).take(i as int));
        if i > 0 {
            r.append(sep);
        }
        r.append(parts[i].as_str());
        proof {
            if i == 0 {
                assert(r@ =~= views(parts@).take(1)[0]);
            }
        }
        i += 1;
    }
    assert(views(parts@).take(parts.len() as int) =~= views(parts@));
    r
}

// ---------------------------------------------------------------------------
// Counting and replacing occurrences
// ---------------------------------------------------------------------------

/// Number of non-overlapping occurrences of a non-empty `p` in `s` from `i`,
/// taken left to right.
pub open spec fn count_from(s: Seq<char>, p: Seq<char>, i: int) -> nat
    decreases s.len() - i,
{
    if p.len() == 0 || i < 0 || i + p.len() > s.len() {
        0
    } else if occurs_at(s, p, i) {
        1 + count_from(s, p, i + p.len())
    } else {
        count_from(s, p, i + 1)
    }
}

/// What `str::matches(p).count()` returns: for an empty pattern one match at
/// each character boundary.
pub open spec fn count_matches(s: Seq<char>, p: Seq<char>) -> nat {
    if p.len() == 0 {
        s.len() + 1
    } else {
        count_from(s, p, 0)
    }
}

/// `s[i..]` with each non-overlapping occurrence of a non-empty `p` replaced by `r`.
pub open spec fn replace_from(s: Seq<char>, p: Seq<char>, r: Seq<char>, i: int) -> Seq<char>
    decreases s.len() - i,
{
    if p.len() == 0 || i < 0 || i >= s.len() {
        seq![]
    } else if occurs_at(s, p, i) {
        r + replace_from(s, p, r, i + p.len())
    } else {
        seq![s[i]] + replace_from(s, p, r, i + 1)
    }
}

/// `r` before every character of `s` and once at its end.
pub open spec fn interleave(s: Seq<char>, r: Seq<char>) -> Seq<char>
    decreases s.len(),
{
    if s.len() == 0 {
        r
    } else {
        r + seq![s[0]] + interleave(s.drop_first(), r)
    }
}

/// `str::replace(p, r)`.
pub open spec fn replace_all(s: Seq<char>, p: Seq<char>, r: Seq<char>) -> Seq<char> {
    if p.len() == 0 {
        interleave(s, r)
    } else {
        replace_from(s, p, r, 0)
    }
}

/// `str::replacen(p, r, 1)`: the first occurrence, if any, replaced.
pub open spec fn replace_first(s: Seq<char>, p: Seq<char>, r: Seq<char>) -> Seq<char> {
    let k = first_occurrence_from(s, p, 0);
    if p.len() == 0 {
        r + s
    } else if k < s.len() {
        s.take(k) + r + s.skip(k + p.len())
    } else {
        s
    }
}

/// Appends the characters of `r` to `out`.
pub fn append_chars(out: &mut Vec<char>, r: &Vec<char>)
    ensures
        final(out)@ == old(out)@ + r@,
{
    let ghost start = out@;
    let mut j: usize = 0;
    while j < r.len()
        invariant
            j <= r.len(),
            out@ == start + r@.take(j as int),
        decreases r.len() - j,
    {
        out.push(r[j]);
        assert(r@.take(j + 1) =~= r@.take(j as int).push(r@[j as int]));
        j += 1;
    }
    assert(r@.take(r.len() as int) =~= r@);
}

/// `str::matches(p).count()`.
pub fn count_matches_exec(s: &Vec<char>, p: &Vec<char>) -> (n: usize)
    requires
        s.len() < usize::MAX,
    ensures
        n == count_matches(s@, p@),
{
    if p.len() == 0 {
        return s.len() + 1;
    }
    let mut n: usize = 0;
    let mut i: usize = 0;
    while i < s.len()
        invariant
            p.len() > 0,
            i <= s.len(),
            n <= i,
            n + count_from(s@, p@, i as int) == count_from(s@, p@, 0),
        decreases s.len() - i,
    {
        if occurs_at_exec(s, p, i) {
            n += 1;
            i += p.len();
        } else {
            i += 1;
        }
    }
    n
}

/// `str::replace(p, r)` on character vectors.
pub fn replace_all_exec(s: &Vec<char>, p: &Vec<char>, r: &Vec<char>) -> (out: Vec<char>)
    ensures
        out@ == replace_all(s@, p@, r@),
{
    let mut out: Vec<char> = Vec::new();
    let mut i: usize = 0;
    if p.len() == 0 {
        assert(s@.skip(0) =~= s@);
        while i < s.len()
            invariant
                i <= s.len(),
                p.len() == 0,
                out@ + interleave(s@.skip(i as int), r@) == interleave(s@, r@),
            decreases s.len() - i,
        {
            let ghost rest = s@.skip(i as int);
            assert(rest.drop_first() =~= s@.skip(i + 1));
            let ghost before = out@;
            append_chars(&mut out, r);
            out.push(s[i]);
            assert(before + interleave(rest, r@) =~= out@ + interleave(rest.drop_first(), r@));
            i += 1;
        }
        let ghost before = out@;
        append_chars(&mut out, r);
        assert(s@.skip(i as int) =~= Seq::<char>::empty());
        return out;
    }
    while i < s.len()
        invariant
            i <= s.len(),
            p.len() > 0,
            out@ + replace_from(s@, p@, r@, i as int) == replace_from(s@, p@, r@, 0),
        decreases s.len() - i,
    {
        let ghost before = out@;
        if occurs_at_exec(s, p, i) {
            append_chars(&mut out, r);
            assert(before + replace_from(s@, p@, r@, i as int) =~= out@ + replace_from(
                s@,
                p@,
                r@,
                i + p.len(),
            ));
            i += p.len();
        } else {
            out.push(s[i]);
            assert(before + replace_from(s@, p@, r@, i as int) =~= out@ + replace_from(
                s@,
                p@,
                r@,
                i + 1,
            ));
            i += 1;
        }
    }
    assert(out@ + replace_from(s@, p@, r@, i as int) =~= out@);
    out
}

/// `str::replacen(p, r, 1)` on character vectors.
pub fn replace_first_exec(s: &Vec<char>, p: &Vec<char>, r: &Vec<char>) -> (out: Vec<char>)
    ensures
        out@ == replace_first(s@, p@, r@),
{
    let mut out: Vec<char> = Vec::new();
    if p.len() == 0 {
        append_chars(&mut out, r);
        append_chars(&mut out, s);
        return out;
    }
    let k = find_from(s, p, 0);
    proof {
        lemma_first_occurrence(s@, p@, 0);
    }
    if k < s.len() {
        let mut j: usize = 0;
        while j < k
            invariant
                j <= k < s.len(),
                out@ == s@.take(j as int),
            decreases k - j,
        {
            out.push(s[j]);
            assert(s@.take(j + 1) =~= s@.take(j as int).push(s@[j as int]));
            j += 1;
        }
        append_chars(&mut out, r);
        let mut m: usize = k + p.len();
        let ghost mid = out@;
        while m < s.len()
            invariant
                k + p.len() <= m <= s.len(),
                out@ == mid + s@.subrange(k + p.len(), m as int),
            decreases s.len() - m,
        {
            out.push(s[m]);
            assert(s@.subrange(k + p.len(), m + 1) =~= s@.subrange(k + p.len(), m as int).push(
                s@[m as int],
            ));
            m += 1;
        }
        assert(s@.subrange(k + p.len(), s.len() as int) =~= s@.skip(k + p.len()));
        out
    } else {
        append_chars(&mut out, s);
        out
    }
}

// ---------------------------------------------------------------------------
// ASCII case and separators
// ---------------------------------------------------------------------------

/// `char::to_ascii_lowercase`.
pub open spec fn ascii_lower(c: char) -> char {
    if 'A' <= c <= 'Z' {
        ((c as u8) + 32) as u8 as char
    } else {
        c
    }
}

/// `str::to_ascii_lowercase`.
pub open spec fn ascii_lower_seq(s: Seq<char>) -> Seq<char> {
    s.map_values(|c: char| ascii_lower(c))
}

/// `char::to_ascii_lowercase`.
pub fn ascii_lower_char(c: char) -> (r: char)
    ensures
        r == ascii_lower(c),
{
    if 'A' <= c && c <= 'Z' {
        ((c as u8) + 32) as char
    } else {
        c
    }
}

/// `str::to_ascii_lowercase`.
pub fn ascii_lowercase(s: &str) -> (r: String)
    ensures
        r@ == ascii_lower_seq(s@),
{
    let v = chars_of(s);
    let mut out: Vec<char> = Vec::new();
    let mut i: usize = 0;
    while i < v.len()
        invariant
            i <= v.len(),
            v@ == s@,
            out@ == ascii_lower_seq(v@.take(i as int)),
        decreases v.len() - i,
    {
        out.push(ascii_lower_char(v[i]));
        assert(ascii_lower_seq(v@.take(i + 1)) =~= ascii_lower_seq(v@.take(i as int)).push(
            ascii_lower(v@[i as int]),
        ));
        i += 1;
    }
    assert(v@.take(i as int) =~= v@);
    string_of_range(&out, 0, out.len())
}

/// Every `'\\'` of `s` replaced by `'/'`.
pub open spec fn backslash_to_slash(s: Seq<char>) -> Seq<char> {
    s.map_values(|c: char| if c == '\\' { '/' } else { c })
}

/// `s.replace('\\', "/")`.
pub fn with_forward_slashes(s: &str) -> (r: String)
    ensures
        r@ == backslash_to_slash(s@),
{
    let v = chars_of(s);
    let mut out: Vec<char> = Vec::new();
    let mut i: usize = 0;
    while i < v.len()
        invariant
            i <= v.len(),
            v@ == s@,
            out@ == backslash_to_slash(v@.take(i as int)),
        decreases v.len() - i,
    {
        let c = v[i];
        out.push(if c == '\\' { '/' } else { c });
        assert(backslash_to_slash(v@.take(i + 1)) =~= backslash_to_slash(v@.take(i as int)).push(
            if c == '\\' { '/' } else { c },
        ));
        i += 1;
    }
    assert(v@.take(i as int) =~= v@);
    string_of_range(&out, 0, out.len())
}

/// `str::split_once(c)`: the text before and after the first `c`.
pub open spec fn split_once(s: Seq<char>, c: char) -> Option<(Seq<char>, Seq<char>)> {
    let k = first_occurrence_from(s, seq![c], 0);
    if k < s.len() {
        Some((s.take(k), s.skip(k + 1)))
    } else {
        None
    }
}

/// `str::split_once(c)`, as owned strings.
pub fn split_once_char(s: &str, c: char) -> (r: Option<(String, String)>)
    ensures
        r is Some <==> split_once(s@, c) is Some,
        r matches Some((a, b)) ==> split_once(s@, c) == Some((a@, b@)),
{
    let v = chars_of(s);
    let mut p: Vec<char> = Vec::new();
    p.push(c);
    assert(p@ =~= seq![c]);
    let k = find_from(&v, &p, 0);
    if k < v.len() {
        proof {
            lemma_first_occurrence(v@, p@, 0);
            assert(v@.subrange(k + 1, v.len() as int) =~= v@.skip(k + 1));
        }
        Some((string_of_range(&v, 0, k), string_of_range(&v, k + 1, v.len())))
    } else {
        None
    }
}

/// With no occurrence of `p` in `[i, k)`, replacing from `i` copies
/// `s[i..k]` and goes on from `k`.
proof fn lemma_replace_from_copies(s: Seq<char>, p: Seq<char>, r: Seq<char>, i: int, k: int)
    requires
        p.len() > 0,
        0 <= i <= k <= s.len(),
        forall|j: int| i <= j < k ==> !#[trigger] occurs_at(s, p, j),
    ensures
        replace_from(s, p, r, i) == s.subrange(i, k) + replace_from(s, p, r, k),
    decreases k - i,
{
    if i < k {
        assert(!occurs_at(s, p, i));
        lemma_replace_from_copies(s, p, r, i + 1, k);
        assert(seq![s[i]] + s.subrange(i + 1, k) =~= s.subrange(i, k));
        assert(seq![s[i]] + (s.subrange(i + 1, k) + replace_from(s, p, r, k)) =~= s.subrange(i, k) + replace_from(
            s,
            p,
            r,
            k,
        ));
    } else {
        assert(s.subrange(i, k) =~= Seq::<char>::empty());
        assert(Seq::<char>::empty() + replace_from(s, p, r, k) =~= replace_from(s, p, r, k));
    }
}

/// Replacing in `s` from `i` is replacing in `s` without its first `m`
/// characters from `i - m`.
proof fn lemma_replace_from_skip(s: Seq<char>, p: Seq<char>, r: Seq<char>, m: int, i: int)
    requires
        p.len() > 0,
        0 <= m <= i,
        m <= s.len(),
    ensures
        replace_from(s, p, r, i) == replace_from(s.skip(m), p, r, i - m),
    decreases s.len() - i,
{
    let t = s.skip(m);
    assert(t.len() == s.len() - m);
    if i >= s.len() {
        assert(replace_from(s, p, r, i) == Seq::<char>::empty());
        assert(replace_from(t, p, r, i - m) == Seq::<char>::empty());
    } else {
        if i + p.len() <= s.len() {
            assert(s.subrange(i, i + p.len()) =~= t.subrange(i - m, i - m + p.len()));
        }
        assert(occurs_at(s, p, i) == occurs_at(t, p, i - m));
        assert(s[i] == t[i - m]);
        if occurs_at(s, p, i) {
            lemma_replace_from_skip(s, p, r, m, i + p.len());
            assert(replace_from(s, p, r, i) == r + replace_from(s, p, r, i + p.len()));
            assert(replace_from(t, p, r, i - m) == r + replace_from(t, p, r, i - m + p.len()));
        } else {
            lemma_replace_from_skip(s, p, r, m, i + 1);
            assert(replace_from(s, p, r, i) == seq![s[i]] + replace_from(s, p, r, i + 1));
            assert(replace_from(t, p, r, i - m) == seq![t[i - m]] + replace_from(t, p, r, i - m + 1));
        }
    }
}

/// How `str::replace` treats a non-empty pattern: a text without an
/// occurrence of `p` is left as it is; otherwise the text before the
/// leftmost occurrence is kept, that occurrence becomes `r`, and the text
/// after the whole occurrence is replaced in the same way. So occurrences
/// are taken left to right and never overlap.
pub proof fn law_replace_all_leftmost_first(s: Seq<char>, p: Seq<char>, r: Seq<char>)
    requires
        p.len() > 0,
    ensures
        (forall|i: int| !#[trigger] occurs_at(s, p, i)) ==> replace_all(s, p, r) == s,
        forall|k: int|
            #![trigger occurs_at(s, p, k)]
            occurs_at(s, p, k) && (forall|j: int| 0 <= j < k ==> !#[trigger] occurs_at(s, p, j)) ==> replace_all(s, p, r)
                == s.take(k) + r + replace_all(s.skip(k + p.len()), p, r),
{
    if forall|i: int| !#[trigger] occurs_at(s, p, i) {
        lemma_replace_from_copies(s, p, r, 0, s.len() as int);
        assert(replace_from(s, p, r, s.len() as int) =~= Seq::<char>::empty());
        assert(s.subrange(0, s.len() as int) =~= s);
        assert(s.subrange(0, s.len() as int) + Seq::<char>::empty() =~= s);
    }
    assert forall|k: int|
        #![trigger occurs_at(s, p, k)]
        occurs_at(s, p, k) && (forall|j: int| 0 <= j < k ==> !#[trigger] occurs_at(s, p, j)) implies replace_all(s, p, r)
        == s.take(k) + r + replace_all(s.skip(k + p.len()), p, r) by {
        lemma_replace_from_copies(s, p, r, 0, k);
        lemma_replace_from_skip(s, p, r, k + p.len(), k + p.len());
        assert(s.subrange(0, k) =~= s.take(k));
        assert(replace_from(s, p, r, k) == r + replace_from(s, p, r, k + p.len()));
        assert(s.take(k) + (r + replace_all(s.skip(k + p.len()), p, r)) =~= s.take(k) + r + replace_all(
            s.skip(k + p.len()),
            p,
            r,
        ));
    }
}

proof fn lemma_replace_from_len(s: Seq<char>, p: Seq<char>, r: Seq<char>, i: int)
    requires
        p.len() > 0,
        0 <= i <= s.len(),
    ensures
        replace_from(s, p, r, i).len() == (s.len() - i) + count_from(s, p, i) * (r.len() - p.len()),
    decreases s.len() - i,
{
    if i < s.len() {
        let d = r.len() - p.len();
        if occurs_at(s, p, i) {
            lemma_replace_from_len(s, p, r, i + p.len());
            let c = count_from(s, p, i + p.len()) as int;
            assert(count_from(s, p, i) == 1 + c);
            assert(replace_from(s, p, r, i) == r + replace_from(s, p, r, i + p.len()));
            assert((1 + c) * d == d + c * d) by (nonlinear_arith);
        } else {
            lemma_replace_from_len(s, p, r, i + 1);
            assert(count_from(s, p, i) == count_from(s, p, i + 1));
            assert(replace_from(s, p, r, i) == seq![s[i]] + replace_from(s, p, r, i + 1));
        }
    } else {
        assert(count_from(s, p, i) == 0);
        assert(replace_from(s, p, r, i) == Seq::<char>::empty());
    }
}

/// Replacing every occurrence of a non-empty `p` by `r` changes the length
/// by `r.len() - p.len()` for each occurrence that `str::matches` counts.
pub proof fn law_replace_all_length(s: Seq<char>, p: Seq<char>, r: Seq<char>)
    requires
        p.len() > 0,
    ensures
        replace_all(s, p, r).len() == s.len() + count_matches(s, p) * (r.len() - p.len()),
{
    lemma_replace_from_len(s, p, r, 0);
}

/// How `str::replacen(p, r, 1)` treats a non-empty pattern: a text without
/// an occurrence of `p` is left as it is; otherwise only the leftmost
/// occurrence becomes `r` and the rest of the text is kept.
pub proof fn law_replace_first_leftmost_only(s: Seq<char>, p: Seq<char>, r: Seq<char>)
    requires
        p.len() > 0,
    ensures
        (forall|i: int| !#[trigger] occurs_at(s, p, i)) ==> replace_first(s, p, r) == s,
        forall|k: int|
            #![trigger occurs_at(s, p, k)]
            occurs_at(s, p, k) && (forall|j: int| 0 <= j < k ==> !#[trigger] occurs_at(s, p, j)) ==> replace_first(s, p, r)
                == s.take(k) + r + s.skip(k + p.len()),
{
    lemma_first_occurrence(s, p, 0);
    let f = first_occurrence_from(s, p, 0);
    assert forall|k: int|
        #![trigger occurs_at(s, p, k)]
        occurs_at(s, p, k) && (forall|j: int| 0 <= j < k ==> !#[trigger] occurs_at(s, p, j)) implies replace_first(s, p, r)
        == s.take(k) + r + s.skip(k + p.len()) by {
        if f < k {
            assert(occurs_at(s, p, f));
        }
        assert(f <= k);
        assert(f == k);
    }
}

} // verus!
