//! Character-sequence utilities shared by the other modules.
//!
//! All of the library's rules are stated over `Seq<char>`, the view of `str` and
//! `String`. Executable code works on `Vec<char>` so that a position is reached
//! in constant time.
use vstd::prelude::*;
use vstd::string::StringExecFns;

verus! {

/// `String::push` appends one character to the string.
pub assume_specification[ String::push ](s: &mut String, c: char)
    ensures
        final(s)@ == old(s)@.push(c),
;

/// The characters of `s`, in order.
pub fn to_chars(s: &str) -> (v: Vec<char>)
    ensures
        v@ == s@,
{
    let mut v: Vec<char> = Vec::new();
    for c in it: s.chars()
        invariant
            v@ == it.seq().take(it.index()),
    {
        v.push(c);
    }
    v
}

/// The string made of the characters `v[from..to]`.
pub(crate) fn range_to_string(v: &Vec<char>, from: usize, to: usize) -> (s: String)
    requires
        from <= to <= v.len(),
    ensures
        s@ == v@.subrange(from as int, to as int),
{
    let mut s = String::new();
    let mut i: usize = from;
    while i < to
        invariant
            from <= i <= to <= v.len(),
            s@ == v@.subrange(from as int, i as int),
        decreases to - i,
    {
        s.push(v[i]);
        i += 1;
    }
    s
}

/// The string made of the characters of `v`.
pub fn to_string(v: &Vec<char>) -> (s: String)
    ensures
        s@ == v@,
{
    range_to_string(v, 0, v.len())
}

/// The characters `v[from..to]` as a vector of their own.
pub(crate) fn copy_range(v: &Vec<char>, from: usize, to: usize) -> (r: Vec<char>)
    requires
        from <= to <= v.len(),
    ensures
        r@ == v@.subrange(from as int, to as int),
{
    let mut r: Vec<char> = Vec::new();
    let mut i: usize = from;
    while i < to
        invariant
            from <= i <= to <= v.len(),
            r@ == v@.subrange(from as int, i as int),
        decreases to - i,
    {
        r.push(v[i]);
        i += 1;
    }
    r
}

/// Appends the characters of `tail` to `v`.
pub fn append_chars(v: &mut Vec<char>, tail: &Vec<char>)
    ensures
        final(v)@ == old(v)@ + tail@,
{
    let mut i: usize = 0;
    while i < tail.len()
        invariant
            i <= tail.len(),
            v@ == old(v)@ + tail@.take(i as int),
        decreases tail.len() - i,
    {
        v.push(tail[i]);
        i += 1;
    }
}

/// The first position of `c` in `s`, or the length of `s` where `c` does not
/// occur in it.
pub open spec fn position_of(s: Seq<char>, c: char) -> int
    decreases s.len(),
{
    if s.len() == 0 || s[0] == c {
        0
    } else {
        1 + position_of(s.skip(1), c)
    }
}

/// `position_of` lies within the sequence, points at `c` unless it is the
/// length, and nothing before it is `c`.
pub proof fn lemma_position_of(s: Seq<char>, c: char)
    ensures
        0 <= position_of(s, c) <= s.len(),
        position_of(s, c) < s.len() ==> s[position_of(s, c)] == c,
        forall|k: int| 0 <= k < position_of(s, c) ==> s[k] != c,
        position_of(s, c) == s.len() <==> !s.contains(c),
    decreases s.len(),
{
    if s.len() > 0 && s[0] != c {
        let t = s.skip(1);
        lemma_position_of(t, c);
        assert forall|k: int| 0 <= k < position_of(s, c) implies s[k] != c by {
            if k > 0 {
                assert(s[k] == t[k - 1]);
            }
        }
        if position_of(s, c) == s.len() {
            assert forall|k: int| 0 <= k < s.len() implies s[k] != c by {}
        }
    }
}

/// A position that points at the first `c`, or is the length where there is
/// none, is `position_of`.
pub proof fn lemma_position_of_unique(s: Seq<char>, c: char, i: int)
    requires
        0 <= i <= s.len(),
        forall|k: int| 0 <= k < i ==> s[k] != c,
        i < s.len() ==> s[i] == c,
    ensures
        position_of(s, c) == i,
{
    lemma_position_of(s, c);
}

/// The first position at or after `from` at which `c` stands in `v`, or the
/// length of `v`.
pub(crate) fn find_char(v: &Vec<char>, from: usize, c: char) -> (i: usize)
    requires
        from <= v.len(),
    ensures
        i == from + position_of(v@.skip(from as int), c),
        from <= i <= v.len(),
{
    let mut i: usize = from;
    while i < v.len() && v[i] != c
        invariant
            from <= i <= v.len(),
            forall|k: int| from <= k < i ==> v@[k] != c,
        decreases v.len() - i,
    {
        i += 1;
    }
    proof {
        lemma_position_of_unique(v@.skip(from as int), c, i - from);
    }
    i
}

/// `pat` stands in `s` at position `i`.
pub open spec fn occurs_at(s: Seq<char>, pat: Seq<char>, i: int) -> bool {
    &&& 0 <= i
    &&& i + pat.len() <= s.len()
    &&& s.subrange(i, i + pat.len()) == pat
}

/// `pat` stands somewhere in `s`.
pub open spec fn occurs_in(s: Seq<char>, pat: Seq<char>) -> bool {
    exists|i: int| occurs_at(s, pat, i)
}

/// An occurrence in what is left after skipping `i` characters is an
/// occurrence in the whole, `i` positions further on.
pub proof fn lemma_occurs_at_skip(s: Seq<char>, pat: Seq<char>, i: int, k: int)
    requires
        0 <= i <= s.len(),
    ensures
        occurs_at(s.skip(i), pat, k) <==> k >= 0 && occurs_at(s, pat, i + k),
{
    if k >= 0 && i + k + pat.len() <= s.len() {
        assert(s.skip(i).subrange(k, k + pat.len()) =~= s.subrange(i + k, i + k + pat.len()));
    }
}

/// Whether `pat` stands in `v` at position `i`.
pub fn matches_at(v: &Vec<char>, i: usize, pat: &Vec<char>) -> (b: bool)
    ensures
        b == occurs_at(v@, pat@, i as int),
{
    if i > v.len() || pat.len() > v.len() - i {
        return false;
    }
    let mut k: usize = 0;
    while k < pat.len()
        invariant
            k <= pat.len(),
            i + pat.len() <= v.len(),
            forall|j: int| 0 <= j < k ==> v@[i + j] == pat@[j],
        decreases pat.len() - k,
    {
        if v[i + k] != pat[k] {
            assert(v@.subrange(i as int, i + pat@.len())[k as int] != pat@[k as int]);
            return false;
        }
        k += 1;
    }
    assert(v@.subrange(i as int, i + pat@.len()) =~= pat@);
    true
}

/// Whether `a` and `b` hold the same characters.
pub fn same(a: &Vec<char>, b: &Vec<char>) -> (r: bool)
    ensures
        r == (a@ == b@),
{
    if a.len() != b.len() {
        return false;
    }
    let r = matches_at(a, 0, b);
    assert(a@.subrange(0, a@.len() as int) =~= a@);
    r
}

/// Whether `pat` stands somewhere in `v`.
pub fn contains(v: &Vec<char>, pat: &Vec<char>) -> (b: bool)
    ensures
        b == occurs_in(v@, pat@),
{
    let mut i: usize = 0;
    while i < v.len()
        invariant
            i <= v.len(),
            forall|k: int| 0 <= k < i ==> !occurs_at(v@, pat@, k),
        decreases v.len() - i,
    {
        if matches_at(v, i, pat) {
            return true;
        }
        i += 1;
    }
    matches_at(v, i, pat)
}

/// `s` with every occurrence of `pat` replaced by `with`. Occurrences are found
/// from left to right and do not overlap; what was put in is not searched
/// again. An empty `pat` changes nothing.
pub open spec fn replaced(s: Seq<char>, pat: Seq<char>, with: Seq<char>) -> Seq<char>
    decreases s.len(),
{
    if pat.len() == 0 || s.len() < pat.len() {
        s
    } else if occurs_at(s, pat, 0) {
        with + replaced(s.skip(pat.len() as int), pat, with)
    } else {
        seq![s[0]] + replaced(s.skip(1), pat, with)
    }
}

/// Replaces every occurrence of `pat` in `v` by `with`.
pub fn replace_all(v: &Vec<char>, pat: &Vec<char>, with: &Vec<char>) -> (r: Vec<char>)
    ensures
        r@ == replaced(v@, pat@, with@),
{
    let mut out: Vec<char> = Vec::new();
    if pat.len() == 0 {
        append_chars(&mut out, v);
        return out;
    }
    let mut i: usize = 0;
    assert(v@.skip(0) =~= v@);
    while i < v.len()
        invariant
            i <= v.len(),
            pat.len() > 0,
            out@ + replaced(v@.skip(i as int), pat@, with@) == replaced(v@, pat@, with@),
        decreases v.len() - i,
    {
        let ghost t = v@.skip(i as int);
        let ghost n = pat@.len() as int;
        proof {
            lemma_occurs_at_skip(v@, pat@, i as int, 0);
        }
        if matches_at(v, i, pat) {
            append_chars(&mut out, with);
            i += pat.len();
            assert(t.skip(n) =~= v@.skip(i as int));
        } else {
            out.push(v[i]);
            i += 1;
            assert(t.skip(1) =~= v@.skip(i as int));
            assert(replaced(t, pat@, with@) =~= seq![t[0]] + replaced(t.skip(1), pat@, with@));
        }
    }
    out
}

/// Up to the first occurrence of `pat`, replacing changes nothing: where no
/// occurrence starts before position `m`, the first `m` characters stay.
pub proof fn lemma_replaced_prefix(s: Seq<char>, pat: Seq<char>, with: Seq<char>, m: int)
    requires
        0 <= m <= s.len(),
        forall|a: int| 0 <= a < m ==> !occurs_at(s, pat, a),
    ensures
        replaced(s, pat, with) == s.take(m) + replaced(s.skip(m), pat, with),
    decreases m,
{
    if m == 0 {
        assert(s.skip(0) =~= s);
    } else if pat.len() == 0 || s.len() < pat.len() {
    } else {
        let t = s.skip(1);
        assert forall|a: int| 0 <= a < m - 1 implies !occurs_at(t, pat, a) by {
            lemma_occurs_at_skip(s, pat, 1, a);
        }
        lemma_replaced_prefix(t, pat, with, m - 1);
        assert(t.skip(m - 1) =~= s.skip(m));
    }
}

/// Where `pat` does not occur, replacing changes nothing.
pub proof fn lemma_replaced_absent(s: Seq<char>, pat: Seq<char>, with: Seq<char>)
    requires
        !occurs_in(s, pat),
    ensures
        replaced(s, pat, with) == s,
{
    lemma_replaced_prefix(s, pat, with, s.len() as int);
}

/// Where `pat` occurs once, between `before` and `after`, replacing puts
/// `with` in its place and changes nothing else.
pub proof fn lemma_replaced_once(
    before: Seq<char>,
    after: Seq<char>,
    pat: Seq<char>,
    with: Seq<char>,
)
    requires
        pat.len() > 0,
        forall|a: int| occurs_at(before + pat + after, pat, a) ==> a == before.len(),
    ensures
        replaced(before + pat + after, pat, with) == before + with + after,
{
    let s = before + pat + after;
    let m = before.len() as int;
    let t = s.skip(m);
    lemma_replaced_prefix(s, pat, with, m);
    assert(t.subrange(0, pat.len() as int) =~= pat);
    assert(t.skip(pat.len() as int) =~= after);
    assert(!occurs_in(after, pat)) by {
        if occurs_in(after, pat) {
            let a = choose|a: int| occurs_at(after, pat, a);
            assert(after =~= s.skip(m + pat.len()));
            lemma_occurs_at_skip(s, pat, m + pat.len(), a);
        }
    }
    lemma_replaced_absent(after, pat, with);
}

/// An occurrence of `w` that no occurrence of `pat` touches is still there
/// after `pat` was replaced.
pub proof fn lemma_replaced_keeps(
    s: Seq<char>,
    pat: Seq<char>,
    with: Seq<char>,
    w: Seq<char>,
    i: int,
)
    requires
        w.len() > 0,
        occurs_at(s, w, i),
        forall|a: int| occurs_at(s, pat, a) ==> a + pat.len() <= i || i + w.len() <= a,
    ensures
        occurs_in(replaced(s, pat, with), w),
    decreases s.len(),
{
    let r = replaced(s, pat, with);
    if pat.len() == 0 || s.len() < pat.len() {
    } else if occurs_at(s, pat, 0) {
        let n = pat.len() as int;
        let t = s.skip(n);
        lemma_occurs_at_skip(s, w, n, i - n);
        assert forall|a: int| occurs_at(t, pat, a) implies a + pat.len() <= i - n || i - n
            + w.len() <= a by {
            lemma_occurs_at_skip(s, pat, n, a);
        }
        lemma_replaced_keeps(t, pat, with, w, i - n);
        let rest = replaced(t, pat, with);
        let j = choose|j: int| occurs_at(rest, w, j);
        assert(r.skip(with.len() as int) =~= rest);
        lemma_occurs_at_skip(r, w, with.len() as int, j);
    } else if i == 0 {
        assert forall|a: int| 0 <= a < w.len() implies !occurs_at(s, pat, a) by {}
        lemma_replaced_prefix(s, pat, with, w.len() as int);
        assert(r.subrange(0, w.len() as int) =~= w);
        assert(occurs_at(r, w, 0));
    } else {
        let t = s.skip(1);
        lemma_occurs_at_skip(s, w, 1, i - 1);
        assert forall|a: int| occurs_at(t, pat, a) implies a + pat.len() <= i - 1 || i - 1
            + w.len() <= a by {
            lemma_occurs_at_skip(s, pat, 1, a);
        }
        lemma_replaced_keeps(t, pat, with, w, i - 1);
        let rest = replaced(t, pat, with);
        let j = choose|j: int| occurs_at(rest, w, j);
        assert(r.skip(1) =~= rest);
        lemma_occurs_at_skip(r, w, 1, j);
    }
}

/// The views of the strings of `items`.
pub open spec fn texts(items: Seq<String>) -> Seq<Seq<char>> {
    items.map_values(|s: String| s@)
}

/// The views of the pairs of strings of `items`.
pub open spec fn pairs(items: Seq<(String, String)>) -> Seq<(Seq<char>, Seq<char>)> {
    items.map_values(|p: (String, String)| (p.0@, p.1@))
}

/// The view of an optional string.
pub open spec fn string_of(s: Option<String>) -> Option<Seq<char>> {
    match s {
        Some(t) => Some(t@),
        None => None,
    }
}

/// The view of an optional string slice.
pub open spec fn text_of(s: Option<&str>) -> Option<Seq<char>> {
    match s {
        Some(t) => Some(t@),
        None => None,
    }
}

/// The items one after another, with `sep` between neighbours.
pub open spec fn joined(items: Seq<Seq<char>>, sep: Seq<char>) -> Seq<char>
    decreases items.len(),
{
    if items.len() == 0 {
        Seq::empty()
    } else if items.len() == 1 {
        items[0]
    } else {
        joined(items.drop_last(), sep) + sep + items.last()
    }
}

/// Joins the strings of `items`, with `sep` between neighbours.
pub fn join(items: &[String], sep: &str) -> (r: String)
    ensures
        r@ == joined(texts(items@), sep@),
{
    let mut out = String::new();
    let mut i: usize = 0;
    while i < items.len()
        invariant
            i <= items.len(),
            out@ == joined(texts(items@).take(i as int), sep@),
        decreases items.len() - i,
    {
        let ghost done = texts(items@).take(i as int);
        let ghost next = texts(items@).take(i + 1);
        assert(next.drop_last() =~= done);
        if i > 0 {
            out.append(sep);
        }
        out.append(items[i].as_str());
        i += 1;
    }
    assert(texts(items@).take(i as int) =~= texts(items@));
    out
}

/// The views of the character vectors of `items`.
pub open spec fn rows(items: Seq<Vec<char>>) -> Seq<Seq<char>> {
    items.map_values(|r: Vec<char>| r@)
}

/// A line that a line feed ended, without the carriage return that may stand
/// before that line feed.
pub open spec fn without_cr(line: Seq<char>) -> Seq<char> {
    if line.len() > 0 && line.last() == '\r' {
        line.drop_last()
    } else {
        line
    }
}

/// The lines of `s`. A line ends with a line feed, which is not part of it, nor
/// is a carriage return right before that line feed. What follows the last line
/// feed is a line too unless it is empty, and keeps a carriage return at its end.
pub open spec fn lines_of(s: Seq<char>) -> Seq<Seq<char>>
    decreases s.len(),
{
    let e = position_of(s, '\n');
    if s.len() == 0 {
        Seq::empty()
    } else if 0 <= e < s.len() {
        seq![without_cr(s.take(e))] + lines_of(s.skip(e + 1))
    } else {
        seq![s]
    }
}

/// Splits `v` into its lines.
pub fn split_lines(v: &Vec<char>) -> (out: Vec<Vec<char>>)
    ensures
        rows(out@) == lines_of(v@),
{
    let mut out: Vec<Vec<char>> = Vec::new();
    let mut i: usize = 0;
    assert(v@.skip(0) =~= v@);
    while i < v.len()
        invariant
            i <= v.len(),
            rows(out@) + lines_of(v@.skip(i as int)) == lines_of(v@),
        decreases v.len() - i,
    {
        let ghost t = v@.skip(i as int);
        let e = find_char(v, i, '\n');
        if e < v.len() {
            let end = if e > i && v[e - 1] == '\r' {
                e - 1
            } else {
                e
            };
            let line = copy_range(v, i, end);
            assert(line@ =~= without_cr(t.take(e - i)));
            out.push(line);
            assert(t.skip(e - i + 1) =~= v@.skip(e + 1));
            i = e + 1;
        } else {
            let line = copy_range(v, i, e);
            out.push(line);
            i = e;
        }
    }
    out
}

/// The number of characters at the start of `s` that meet `p`: the length of
/// its longest prefix of such characters.
pub open spec fn run(s: Seq<char>, p: spec_fn(char) -> bool) -> int
    decreases s.len(),
{
    if s.len() == 0 || !p(s[0]) {
        0
    } else {
        1 + run(s.skip(1), p)
    }
}

/// A count of characters that meet `p`, followed by one that does not or by
/// the end, is `run`.
pub proof fn lemma_run_unique(s: Seq<char>, p: spec_fn(char) -> bool, n: int)
    requires
        0 <= n <= s.len(),
        forall|k: int| 0 <= k < n ==> p(#[trigger] s[k]),
        n < s.len() ==> !p(s[n]),
    ensures
        run(s, p) == n,
    decreases s.len(),
{
    if s.len() > 0 && p(s[0]) {
        let t = s.skip(1);
        lemma_run_unique(t, p, n - 1);
    }
}

/// What follows the last `c` in `s`; `s` itself where `c` does not occur.
pub open spec fn after_last(s: Seq<char>, c: char) -> Seq<char>
    decreases s.len(),
{
    if s.len() == 0 {
        s
    } else if s.last() == c {
        Seq::empty()
    } else {
        after_last(s.drop_last(), c).push(s.last())
    }
}

/// Where no `c` stands at position `from` or later, and one stands right
/// before `from` unless `from` is 0, what follows the last `c` starts at
/// `from`.
pub proof fn lemma_after_last(s: Seq<char>, c: char, from: int)
    requires
        0 <= from <= s.len(),
        forall|k: int| from <= k < s.len() ==> s[k] != c,
        from > 0 ==> s[from - 1] == c,
    ensures
        after_last(s, c) == s.skip(from),
    decreases s.len(),
{
    if s.len() == 0 {
    } else if from == s.len() {
    } else {
        let t = s.drop_last();
        lemma_after_last(t, c, from);
    }
}

/// White space: the characters that Unicode gives the property White_Space.
pub open spec fn is_white(c: char) -> bool {
    let n = c as u32;
    ||| 0x09 <= n <= 0x0D
    ||| n == 0x20
    ||| n == 0x85
    ||| n == 0xA0
    ||| n == 0x1680
    ||| 0x2000 <= n <= 0x200A
    ||| n == 0x2028
    ||| n == 0x2029
    ||| n == 0x202F
    ||| n == 0x205F
    ||| n == 0x3000
}

/// Whether `c` is white space.
pub fn is_whitespace(c: char) -> (b: bool)
    ensures
        b == is_white(c),
{
    let n: u32 = c as u32;
    (0x09 <= n && n <= 0x0D) || n == 0x20 || n == 0x85 || n == 0xA0 || n == 0x1680 || (0x2000 <= n
        && n <= 0x200A) || n == 0x2028 || n == 0x2029 || n == 0x202F || n == 0x205F || n == 0x3000
}

/// Nothing but white space stands in `s`.
pub open spec fn is_blank(s: Seq<char>) -> bool {
    forall|i: int| 0 <= i < s.len() ==> is_white(#[trigger] s[i])
}

/// Whether nothing but white space stands in `v`.
pub fn blank(v: &Vec<char>) -> (b: bool)
    ensures
        b == is_blank(v@),
{
    let mut i: usize = 0;
    while i < v.len()
        invariant
            i <= v.len(),
            forall|k: int| 0 <= k < i ==> is_white(#[trigger] v@[k]),
        decreases v.len() - i,
    {
        if !is_whitespace(v[i]) {
            return false;
        }
        i += 1;
    }
    true
}

/// The character of the decimal digit `d`.
pub open spec fn digit_char(d: int) -> char {
    if d == 0 {
        '0'
    } else if d == 1 {
        '1'
    } else if d == 2 {
        '2'
    } else if d == 3 {
        '3'
    } else if d == 4 {
        '4'
    } else if d == 5 {
        '5'
    } else if d == 6 {
        '6'
    } else if d == 7 {
        '7'
    } else if d == 8 {
        '8'
    } else {
        '9'
    }
}

/// The decimal digits of `n`, without leading zeros.
pub open spec fn digits(n: nat) -> Seq<char>
    decreases n,
{
    if n < 10 {
        seq![digit_char(n as int)]
    } else {
        digits(n / 10).push(digit_char((n % 10) as int))
    }
}

/// `n` in decimal notation, with a minus sign where it is negative.
pub open spec fn decimal(n: int) -> Seq<char> {
    if n < 0 {
        seq!['-'] + digits((-n) as nat)
    } else {
        digits(n as nat)
    }
}

/// The character of the decimal digit `d`.
fn digit(d: u32) -> (c: char)
    requires
        d < 10,
    ensures
        c == digit_char(d as int),
{
    if d == 0 {
        '0'
    } else if d == 1 {
        '1'
    } else if d == 2 {
        '2'
    } else if d == 3 {
        '3'
    } else if d == 4 {
        '4'
    } else if d == 5 {
        '5'
    } else if d == 6 {
        '6'
    } else if d == 7 {
        '7'
    } else if d == 8 {
        '8'
    } else {
        '9'
    }
}

/// Appends the decimal digits of `n` to `s`.
fn push_digits(s: &mut String, n: u32)
    ensures
        final(s)@ == old(s)@ + digits(n as nat),
    decreases n,
{
    if n >= 10 {
        push_digits(s, n / 10);
    }
    s.push(digit(n % 10));
}

/// Appends `n` in decimal notation to `s`.
pub fn push_decimal(s: &mut String, n: i32)
    ensures
        final(s)@ == old(s)@ + decimal(n as int),
{
    if n < 0 {
        s.push('-');
        let m: u32 = if n == i32::MIN {
            2147483648u32
        } else {
            (-n) as u32
        };
        push_digits(s, m);
    } else {
        push_digits(s, n as u32);
    }
}

/// `n` in decimal notation.
pub fn decimal_string(n: i32) -> (s: String)
    ensures
        s@ == decimal(n as int),
{
    let mut s = String::new();
    push_decimal(&mut s, n);
    s
}

/// The test for white space.
pub open spec fn white() -> spec_fn(char) -> bool {
    |c: char| is_white(c)
}

/// `s` without the white space at its end.
pub open spec fn trim_end(s: Seq<char>) -> Seq<char>
    decreases s.len(),
{
    if s.len() > 0 && is_white(s.last()) {
        trim_end(s.drop_last())
    } else {
        s
    }
}

/// `s` without the white space at its start and at its end.
pub open spec fn trimmed(s: Seq<char>) -> Seq<char> {
    let t = trim_end(s);
    t.skip(run(t, white()))
}

/// Where white space fills `s` from `end` on, and none stands right before
/// `end`, `s` without the white space at its end is what is before `end`.
pub proof fn lemma_trim_end(s: Seq<char>, end: int)
    requires
        0 <= end <= s.len(),
        forall|k: int| end <= k < s.len() ==> is_white(#[trigger] s[k]),
        end > 0 ==> !is_white(s[end - 1]),
    ensures
        trim_end(s) == s.take(end),
    decreases s.len(),
{
    if end < s.len() {
        let t = s.drop_last();
        lemma_trim_end(t, end);
    }
}

/// The characters `v[from..to]` without the white space at their start and
/// at their end.
pub(crate) fn trim_range(v: &Vec<char>, from: usize, to: usize) -> (r: Vec<char>)
    requires
        from <= to <= v.len(),
    ensures
        r@ == trimmed(v@.subrange(from as int, to as int)),
{
    let ghost s = v@.subrange(from as int, to as int);
    let mut end: usize = to;
    while end > from && is_whitespace(v[end - 1])
        invariant
            from <= end <= to <= v.len(),
            forall|k: int| end <= k < to ==> is_white(#[trigger] v@[k]),
        decreases end,
    {
        end -= 1;
    }
    let mut start: usize = from;
    while start < end && is_whitespace(v[start])
        invariant
            from <= start <= end <= v.len(),
            forall|k: int| from <= k < start ==> is_white(#[trigger] v@[k]),
        decreases end - start,
    {
        start += 1;
    }
    proof {
        lemma_trim_end(s, end - from);
        let t = s.take(end - from);
        lemma_run_unique(t, white(), start - from);
    }
    copy_range(v, start, end)
}

/// The first position at which `pat` stands in `s`, or the length of `s`
/// where it stands nowhere in it.
pub open spec fn position_of_seq(s: Seq<char>, pat: Seq<char>) -> int
    decreases s.len(),
{
    if s.len() == 0 || occurs_at(s, pat, 0) {
        0
    } else {
        1 + position_of_seq(s.skip(1), pat)
    }
}

/// A position before which `pat` does not stand, and at which it stands
/// unless it is the length, is `position_of_seq`.
pub proof fn lemma_position_of_seq(s: Seq<char>, pat: Seq<char>, i: int)
    requires
        0 <= i <= s.len(),
        forall|a: int| 0 <= a < i ==> !occurs_at(s, pat, a),
        i < s.len() ==> occurs_at(s, pat, i),
    ensures
        position_of_seq(s, pat) == i,
    decreases s.len(),
{
    if s.len() > 0 && !occurs_at(s, pat, 0) {
        let t = s.skip(1);
        assert forall|a: int| 0 <= a < i - 1 implies !occurs_at(t, pat, a) by {
            lemma_occurs_at_skip(s, pat, 1, a);
        }
        if i < s.len() {
            lemma_occurs_at_skip(s, pat, 1, i - 1);
        }
        lemma_position_of_seq(t, pat, i - 1);
    }
}

/// The first position at or after `from` at which `pat` stands in `v`, or the
/// length of `v`.
pub(crate) fn find_seq(v: &Vec<char>, from: usize, pat: &Vec<char>) -> (i: usize)
    requires
        from <= v.len(),
    ensures
        i == from + position_of_seq(v@.skip(from as int), pat@),
        from <= i <= v.len(),
        i < v.len() ==> occurs_at(v@, pat@, i as int),
{
    let mut i: usize = from;
    while i < v.len()
        invariant
            from <= i <= v.len(),
            forall|a: int| from <= a < i ==> !occurs_at(v@, pat@, a),
        ensures
            from <= i <= v.len(),
            forall|a: int| from <= a < i ==> !occurs_at(v@, pat@, a),
            i < v.len() ==> occurs_at(v@, pat@, i as int),
        decreases v.len() - i,
    {
        if matches_at(v, i, pat) {
            break ;
        }
        i += 1;
    }
    proof {
        let t = v@.skip(from as int);
        assert forall|a: int| 0 <= a < i - from implies !occurs_at(t, pat@, a) by {
            lemma_occurs_at_skip(v@, pat@, from as int, a);
        }
        if i < v.len() {
            lemma_occurs_at_skip(v@, pat@, from as int, i - from);
        }
        lemma_position_of_seq(t, pat@, i - from);
    }
    i
}

/// `c` is a decimal digit.
pub open spec fn is_digit(c: char) -> bool {
    '0' <= c <= '9'
}

/// Nothing but decimal digits stands in `s`.
pub open spec fn all_digits(s: Seq<char>) -> bool {
    forall|i: int| 0 <= i < s.len() ==> is_digit(#[trigger] s[i])
}

/// The number that the decimal digits of `s` write.
pub open spec fn number_of(s: Seq<char>) -> int
    decreases s.len(),
{
    if s.len() == 0 {
        0
    } else {
        number_of(s.drop_last()) * 10 + (s.last() as int - 48)
    }
}

/// The integer that `s` writes in decimal notation: a sign or none, then one
/// digit or more. There is none where `s` is not of that form, or where the
/// number does not fit.
pub open spec fn parsed_i32(s: Seq<char>) -> Option<i32> {
    let signed = s.len() > 0 && (s[0] == '-' || s[0] == '+');
    let body = if signed {
        s.skip(1)
    } else {
        s
    };
    let n = if s.len() > 0 && s[0] == '-' {
        -number_of(body)
    } else {
        number_of(body)
    };
    if body.len() > 0 && all_digits(body) && i32::MIN <= n <= i32::MAX {
        Some(n as i32)
    } else {
        None
    }
}

/// The number that the first digits of `s` write is not above the one that
/// all of them write.
pub proof fn lemma_number_prefix(s: Seq<char>, k: int)
    requires
        all_digits(s),
        0 <= k <= s.len(),
    ensures
        0 <= number_of(s.take(k)) <= number_of(s),
    decreases s.len(),
{
    if k == s.len() {
        assert(s.take(k) =~= s);
        if s.len() > 0 {
            let t = s.drop_last();
            lemma_number_prefix(t, t.len() as int);
        }
    } else {
        let t = s.drop_last();
        lemma_number_prefix(t, k);
        assert(t.take(k) =~= s.take(k));
    }
}

/// Reads `v` as an integer in decimal notation.
pub fn parse_i32(v: &Vec<char>) -> (r: Option<i32>)
    ensures
        r == parsed_i32(v@),
{
    let negative = v.len() > 0 && v[0] == '-';
    let start: usize = if v.len() > 0 && (v[0] == '-' || v[0] == '+') {
        1
    } else {
        0
    };
    let ghost body = if start == 1 {
        v@.skip(1)
    } else {
        v@
    };
    if start == v.len() {
        return None;
    }
    let mut acc: i64 = 0;
    let mut i: usize = start;
    while i < v.len()
        invariant
            start <= i <= v.len(),
            body == v@.skip(start as int),
            negative == (v@.len() > 0 && v@[0] == '-'),
            start == if v@.len() > 0 && (v@[0] == '-' || v@[0] == '+') {
                1int
            } else {
                0int
            },
            forall|k: int| 0 <= k < i - start ==> is_digit(#[trigger] body[k]),
            acc == number_of(body.take(i - start)),
            0 <= acc <= 2147483648,
        decreases v.len() - i,
    {
        let c = v[i];
        assert(body[i - start] == c);
        assert(v@.skip(0) =~= v@);
        if c < '0' || c > '9' {
            return None;
        }
        let d: i64 = (c as u32 - 48) as i64;
        let next = acc * 10 + d;
        proof {
            let p = body.take(i - start + 1);
            assert(p.drop_last() =~= body.take(i - start));
            if all_digits(body) {
                lemma_number_prefix(body, i - start + 1);
            }
        }
        if next > 2147483648 {
            return None;
        }
        acc = next;
        i += 1;
    }
    assert(body.take(i - start) =~= body);
    if negative {
        Some((-acc) as i32)
    } else if acc > 2147483647 {
        None
    } else {
        Some(acc as i32)
    }
}

/// The path of `file` in the directory `dir`: a separator is put between
/// them unless `dir` is empty or ends with one.
pub open spec fn in_dir(dir: Seq<char>, file: Seq<char>) -> Seq<char> {
    if dir.len() == 0 || dir.last() == '/' {
        dir + file
    } else {
        dir + seq!['/'] + file
    }
}

/// The path of `file` in the directory `dir`.
pub fn join_path(dir: &str, file: &str) -> (r: String)
    ensures
        r@ == in_dir(dir@, file@),
{
    let chars = to_chars(dir);
    let mut r = String::from_str(dir);
    if chars.len() > 0 && chars[chars.len() - 1] != '/' {
        r.push('/');
    }
    r.append(file);
    r
}

} // verus!
