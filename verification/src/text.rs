//! Character-level text primitives. Every function here works on the
//! characters of a string and is specified over `Seq<char>`.

use vstd::prelude::*;
use vstd::std_specs::iter::IteratorSpec;

verus! {

/// `String::push` appends one character to the end of the string.
pub assume_specification[ String::push ](s: &mut String, c: char)
    ensures
        final(s)@ == old(s)@.push(c),
;

/// The characters with the Unicode `White_Space` property.
pub open spec fn is_whitespace(c: char) -> bool {
    let n = c as u32;
    ||| 0x09 <= n <= 0x0D
    ||| n == 0x20
    ||| n == 0x85
    ||| n == 0xA0
    ||| n == 0x1680
    ||| 0x2000 <= n <= 0x200A
    ||| n == 0x2028
    ||| n == 0x2029
    ||| n == 0x202F
    ||| n == 0x205F
    ||| n == 0x3000
}

/// The letters `a` to `z` and `A` to `Z`.
pub open spec fn is_ascii_letter(c: char) -> bool {
    ('a' <= c && c <= 'z') || ('A' <= c && c <= 'Z')
}

/// Decides whether `c` is white space.
pub fn char_is_whitespace(c: char) -> (r: bool)
    ensures
        r == is_whitespace(c),
{
    let n: u32 = c as u32;
    (0x09 <= n && n <= 0x0D) || n == 0x20 || n == 0x85 || n == 0xA0 || n == 0x1680 || (0x2000 <= n
        && n <= 0x200A) || n == 0x2028 || n == 0x2029 || n == 0x202F || n == 0x205F || n == 0x3000
}

/// Decides whether `c` is an ASCII letter.
pub fn char_is_ascii_letter(c: char) -> (r: bool)
    ensures
        r == is_ascii_letter(c),
{
    ('a' <= c && c <= 'z') || ('A' <= c && c <= 'Z')
}

/// The characters of `s`, in order.
pub fn chars_of(s: &str) -> (v: Vec<char>)
    ensures
        v@ == s@,
{
    let mut v: Vec<char> = Vec::new();
    for c in it: s.chars()
        invariant
            v@ == it.seq().take(it.index()),
    {
        v.push(c);
    }
    v
}

/// The string made of the characters of `v`, in order.
pub fn string_of(v: &[char]) -> (s: String)
    ensures
        s@ == v@,
{
    let mut s = String::new();
    let mut i: usize = 0;
    while i < v.len()
        invariant
            i <= v.len(),
            s@ == v@.take(i as int),
        decreases v.len() - i,
    {
        s.push(v[i]);
        i += 1;
    }
    s
}

/// Decides whether two strings hold the same characters.
pub fn same_text(a: &str, b: &str) -> (r: bool)
    ensures
        r == (a@ == b@),
{
    let mut x = a.chars();
    let mut y = b.chars();
    let ghost mut n: int = 0;
    loop
        invariant
            0 <= n <= a@.len(),
            n <= b@.len(),
            a@.take(n) == b@.take(n),
            x.remaining() == a@.skip(n),
            y.remaining() == b@.skip(n),
        decreases a@.len() - n,
    {
        let p = x.next();
        let q = y.next();
        match (p, q) {
            (None, None) => {
                proof {
                    assert(a@ =~= a@.take(n));
                    assert(b@ =~= b@.take(n));
                }
                return true;
            },
            (Some(c), Some(d)) => {
                if c != d {
                    return false;
                }
                proof {
                    n = n + 1;
                }
            },
            _ => {
                return false;
            },
        }
    }
}

/// `s` without its leading white space.
pub open spec fn trim_start(s: Seq<char>) -> Seq<char>
    decreases s.len(),
{
    if s.len() > 0 && is_whitespace(s[0]) {
        trim_start(s.skip(1))
    } else {
        s
    }
}

/// `s` without its trailing white space.
pub open spec fn trim_end(s: Seq<char>) -> Seq<char>
    decreases s.len(),
{
    if s.len() > 0 && is_whitespace(s.last()) {
        trim_end(s.drop_last())
    } else {
        s
    }
}

/// `s` without its leading and trailing white space.
pub open spec fn trim(s: Seq<char>) -> Seq<char> {
    trim_end(trim_start(s))
}

/// What `trim_start` leaves does not begin with white space.
pub proof fn lemma_trim_start_begins(s: Seq<char>)
    ensures
        trim_start(s).len() > 0 ==> !is_whitespace(trim_start(s)[0]),
    decreases s.len(),
{
    if s.len() > 0 && is_whitespace(s[0]) {
        lemma_trim_start_begins(s.skip(1));
    }
}

/// What `trim_end` leaves does not end with white space, and text that
/// begins with something else than white space keeps its beginning.
pub proof fn lemma_trim_end_ends(s: Seq<char>)
    ensures
        trim_end(s).len() > 0 ==> !is_whitespace(trim_end(s).last()),
        s.len() > 0 && !is_whitespace(s[0]) ==> trim_end(s).len() > 0 && trim_end(s)[0] == s[0],
    decreases s.len(),
{
    if s.len() > 0 && is_whitespace(s.last()) {
        lemma_trim_end_ends(s.drop_last());
    }
}

/// What `trim` leaves is a part of the text: the text from some index up to
/// another.
pub proof fn lemma_trim_is_part(s: Seq<char>) -> (range: (int, int))
    ensures
        0 <= range.0 <= range.1 <= s.len(),
        trim(s) == s.subrange(range.0, range.1),
{
    let lo = lemma_trim_start_is_tail(s);
    let hi = lemma_trim_end_is_head(s.skip(lo));
    assert(s.skip(lo).take(hi) =~= s.subrange(lo, lo + hi));
    (lo, lo + hi)
}

proof fn lemma_trim_start_is_tail(s: Seq<char>) -> (lo: int)
    ensures
        0 <= lo <= s.len(),
        trim_start(s) == s.skip(lo),
    decreases s.len(),
{
    if s.len() > 0 && is_whitespace(s[0]) {
        let lo = lemma_trim_start_is_tail(s.skip(1));
        assert(s.skip(1).skip(lo) =~= s.skip(lo + 1));
        lo + 1
    } else {
        assert(s.skip(0) =~= s);
        0
    }
}

proof fn lemma_trim_end_is_head(s: Seq<char>) -> (hi: int)
    ensures
        0 <= hi <= s.len(),
        trim_end(s) == s.take(hi),
    decreases s.len(),
{
    if s.len() > 0 && is_whitespace(s.last()) {
        let hi = lemma_trim_end_is_head(s.drop_last());
        assert(s.drop_last().take(hi) =~= s.take(hi));
        hi
    } else {
        assert(s.take(s.len() as int) =~= s);
        s.len() as int
    }
}

/// Trimmed text is empty or has something else than white space at either
/// end, and trimming it again changes nothing.
pub proof fn lemma_trim_idempotent(s: Seq<char>)
    ensures
        trim(s).len() > 0 ==> !is_whitespace(trim(s)[0]) && !is_whitespace(trim(s).last()),
        trim(trim(s)) == trim(s),
{
    lemma_trim_start_begins(s);
    lemma_trim_end_ends(trim_start(s));
}

/// The part of `v` between its leading and its trailing white space.
pub fn trim_chars(v: &[char]) -> (r: &[char])
    ensures
        r@ == trim(v@),
{
    let mut lo: usize = 0;
    assert(v@.skip(0) =~= v@);
    while lo < v.len() && char_is_whitespace(v[lo])
        invariant
            lo <= v.len(),
            trim_start(v@) == trim_start(v@.skip(lo as int)),
        decreases v.len() - lo,
    {
        assert(v@.skip(lo as int).skip(1) =~= v@.skip(lo + 1));
        lo += 1;
    }
    assert(v@.skip(lo as int) =~= v@.subrange(lo as int, v@.len() as int));
    let mut hi: usize = v.len();
    while hi > lo && char_is_whitespace(v[hi - 1])
        invariant
            lo <= hi <= v.len(),
            trim(v@) == trim_end(v@.subrange(lo as int, hi as int)),
        decreases hi,
    {
        assert(v@.subrange(lo as int, hi as int).drop_last() =~= v@.subrange(
            lo as int,
            hi - 1,
        ));
        hi -= 1;
    }
    &v[lo..hi]
}

/// The text of `s` without its leading and trailing white space.
pub fn trimmed(s: &str) -> (r: String)
    ensures
        r@ == trim(s@),
{
    let v = chars_of(s);
    string_of(trim_chars(v.as_slice()))
}

/// Whether `pat` stands in `s` at index `i`.
pub open spec fn occurs_at(s: Seq<char>, pat: Seq<char>, i: int) -> bool {
    0 <= i && i + pat.len() <= s.len() && s.subrange(i, i + pat.len()) =~= pat
}

/// Whether `s` begins with `pat`.
pub open spec fn starts_with(s: Seq<char>, pat: Seq<char>) -> bool {
    occurs_at(s, pat, 0)
}

/// Whether `s` ends with `pat`.
pub open spec fn ends_with(s: Seq<char>, pat: Seq<char>) -> bool {
    occurs_at(s, pat, s.len() - pat.len())
}

/// The least index at or after `from` at which `pat` stands in `s`.
pub open spec fn find_from(s: Seq<char>, pat: Seq<char>, from: int) -> Option<int>
    decreases s.len() - from + 1,
{
    if from < 0 || from + pat.len() > s.len() {
        None
    } else if occurs_at(s, pat, from) {
        Some(from)
    } else {
        find_from(s, pat, from + 1)
    }
}

/// The index of the first occurrence of `pat` in `s`.
pub open spec fn find(s: Seq<char>, pat: Seq<char>) -> Option<int> {
    find_from(s, pat, 0)
}

/// Whether `pat` occurs anywhere in `s`.
pub open spec fn contains(s: Seq<char>, pat: Seq<char>) -> bool {
    find(s, pat) is Some
}

/// `find_from` returns an occurrence, and no occurrence lies between `from`
/// and it; it returns `None` only where there is none at or after `from`.
pub proof fn lemma_find_from(s: Seq<char>, pat: Seq<char>, from: int)
    requires
        0 <= from,
    ensures
        match find_from(s, pat, from) {
            Some(i) => from <= i && occurs_at(s, pat, i) && forall|j: int|
                from <= j < i ==> !occurs_at(s, pat, j),
            None => forall|j: int| from <= j ==> !occurs_at(s, pat, j),
        },
    decreases s.len() - from + 1,
{
    if from + pat.len() > s.len() {
    } else if occurs_at(s, pat, from) {
    } else {
        lemma_find_from(s, pat, from + 1);
    }
}

/// `find` returns the first occurrence, and `None` exactly where there is none.
pub proof fn lemma_find_first(s: Seq<char>, pat: Seq<char>)
    ensures
        match find(s, pat) {
            Some(i) => occurs_at(s, pat, i) && forall|j: int| j < i ==> !occurs_at(s, pat, j),
            None => forall|j: int| !occurs_at(s, pat, j),
        },
{
    lemma_find_from(s, pat, 0);
}

/// An occurrence with none before it is the one that `find` returns.
pub proof fn lemma_find_unique(s: Seq<char>, pat: Seq<char>, i: int)
    requires
        occurs_at(s, pat, i),
        forall|j: int| j < i ==> !occurs_at(s, pat, j),
    ensures
        find(s, pat) == Some(i),
{
    lemma_find_first(s, pat);
}

/// Decides whether `pat` stands in `v` at index `at`.
pub fn matches_at(v: &[char], pat: &[char], at: usize) -> (r: bool)
    ensures
        r == occurs_at(v@, pat@, at as int),
{
    if at > v.len() || pat.len() > v.len() - at {
        return false;
    }
    let mut k: usize = 0;
    while k < pat.len()
        invariant
            k <= pat.len(),
            at + pat.len() <= v.len(),
            forall|j: int| 0 <= j < k ==> v@[at + j] == pat@[j],
        decreases pat.len() - k,
    {
        if v[at + k] != pat[k] {
            assert(v@.subrange(at as int, at + pat.len())[k as int] == v@[at + k]);
            return false;
        }
        k += 1;
    }
    assert(v@.subrange(at as int, at + pat.len()) =~= pat@);
    true
}

/// The index of the first occurrence of `pat` in `v`.
pub fn find_chars(v: &[char], pat: &[char]) -> (r: Option<usize>)
    ensures
        match r {
            Some(i) => find(v@, pat@) == Some(i as int) && i + pat@.len() <= v@.len(),
            None => find(v@, pat@) is None,
        },
{
    if pat.len() > v.len() {
        return None;
    }
    let last: usize = v.len() - pat.len();
    let mut i: usize = 0;
    loop
        invariant
            last == v.len() - pat.len(),
            i <= last,
            find(v@, pat@) == find_from(v@, pat@, i as int),
        decreases last - i,
    {
        if matches_at(v, pat, i) {
            return Some(i);
        }
        if i == last {
            assert(find_from(v@, pat@, i + 1) is None);
            return None;
        }
        i += 1;
    }
}

/// `s` with each leading copy of `pat` taken off.
pub open spec fn strip_prefixes(s: Seq<char>, pat: Seq<char>) -> Seq<char>
    decreases s.len(),
{
    if pat.len() > 0 && starts_with(s, pat) {
        strip_prefixes(s.skip(pat.len() as int), pat)
    } else {
        s
    }
}

/// `s` with each trailing copy of `pat` taken off.
pub open spec fn strip_suffixes(s: Seq<char>, pat: Seq<char>) -> Seq<char>
    decreases s.len(),
{
    if pat.len() > 0 && ends_with(s, pat) {
        strip_suffixes(s.take(s.len() - pat.len()), pat)
    } else {
        s
    }
}

/// The part of `v` behind its leading copies of `pat`.
pub fn strip_prefixes_chars<'a>(v: &'a [char], pat: &[char]) -> (r: &'a [char])
    ensures
        r@ == strip_prefixes(v@, pat@),
{
    let mut lo: usize = 0;
    assert(v@.skip(0) =~= v@);
    while pat.len() > 0 && matches_at(v, pat, lo)
        invariant
            lo <= v.len(),
            strip_prefixes(v@, pat@) == strip_prefixes(v@.skip(lo as int), pat@),
        decreases v.len() - lo,
    {
        proof {
            let rest = v@.skip(lo as int);
            assert(rest.subrange(0, pat@.len() as int) =~= v@.subrange(
                lo as int,
                lo + pat@.len(),
            ));
            assert(rest.skip(pat@.len() as int) =~= v@.skip(lo + pat@.len()));
        }
        lo += pat.len();
    }
    proof {
        let rest = v@.skip(lo as int);
        if pat@.len() > 0 && starts_with(rest, pat@) {
            assert(rest.subrange(0, pat@.len() as int) =~= v@.subrange(
                lo as int,
                lo + pat@.len(),
            ));
        }
        assert(rest =~= v@.subrange(lo as int, v@.len() as int));
    }
    &v[lo..v.len()]
}

/// The part of `v` before its trailing copies of `pat`.
pub fn strip_suffixes_chars<'a>(v: &'a [char], pat: &[char]) -> (r: &'a [char])
    ensures
        r@ == strip_suffixes(v@, pat@),
{
    let mut hi: usize = v.len();
    assert(v@.take(hi as int) =~= v@);
    while pat.len() > 0 && hi >= pat.len() && matches_at(v, pat, hi - pat.len())
        invariant
            hi <= v.len(),
            strip_suffixes(v@, pat@) == strip_suffixes(v@.take(hi as int), pat@),
        decreases hi,
    {
        proof {
            let head = v@.take(hi as int);
            assert(head.subrange(hi - pat@.len(), hi as int) =~= v@.subrange(
                hi - pat@.len(),
                hi as int,
            ));
            assert(head.take(hi - pat@.len()) =~= v@.take(hi - pat@.len()));
        }
        hi -= pat.len();
    }
    proof {
        let head = v@.take(hi as int);
        if pat@.len() > 0 && ends_with(head, pat@) {
            assert(head.subrange(hi - pat@.len(), hi as int) =~= v@.subrange(
                hi - pat@.len(),
                hi as int,
            ));
        }
        assert(head =~= v@.subrange(0, hi as int));
    }
    &v[0..hi]
}

/// The character of a decimal digit.
pub open spec fn digit(d: int) -> char {
    if d == 0 {
        '0'
    } else if d == 1 {
        '1'
    } else if d == 2 {
        '2'
    } else if d == 3 {
        '3'
    } else if d == 4 {
        '4'
    } else if d == 5 {
        '5'
    } else if d == 6 {
        '6'
    } else if d == 7 {
        '7'
    } else if d == 8 {
        '8'
    } else {
        '9'
    }
}

/// `n` written in decimal, without leading zeros.
pub open spec fn decimal(n: nat) -> Seq<char>
    decreases n,
{
    if n < 10 {
        seq![digit(n as int)]
    } else {
        decimal(n / 10).push(digit((n % 10) as int))
    }
}

fn digit_char(d: u64) -> (c: char)
    requires
        d < 10,
    ensures
        c == digit(d as int),
{
    if d == 0 {
        '0'
    } else if d == 1 {
        '1'
    } else if d == 2 {
        '2'
    } else if d == 3 {
        '3'
    } else if d == 4 {
        '4'
    } else if d == 5 {
        '5'
    } else if d == 6 {
        '6'
    } else if d == 7 {
        '7'
    } else if d == 8 {
        '8'
    } else {
        '9'
    }
}

/// Writes `n` in decimal.
pub fn decimal_string(n: u64) -> (r: String)
    ensures
        r@ == decimal(n as nat),
    decreases n,
{
    if n < 10 {
        let mut out = String::new();
        out.push(digit_char(n));
        out
    } else {
        let mut out = decimal_string(n / 10);
        out.push(digit_char(n % 10));
        out
    }
}

/// `n` written in decimal, with a minus sign where it is negative.
pub open spec fn signed_decimal(n: int) -> Seq<char> {
    if n < 0 {
        seq!['-'] + decimal((-n) as nat)
    } else {
        decimal(n as nat)
    }
}

/// Writes `n` in decimal, with a minus sign where it is negative.
pub fn signed_decimal_string(n: i64) -> (r: String)
    ensures
        r@ == signed_decimal(n as int),
{
    if n < 0 {
        let magnitude: u64 = (-(n as i128)) as u64;
        let mut out = String::new();
        out.push('-');
        out.append(decimal_string(magnitude).as_str());
        out
    } else {
        decimal_string(n as u64)
    }
}

/// The digits of a decimal number are digits: none of them is a newline or
/// a carriage return.
pub proof fn lemma_decimal_is_digits(n: nat)
    ensures
        decimal(n).len() > 0,
        forall|i: int| 0 <= i < decimal(n).len() ==> '0' <= #[trigger] decimal(n)[i] <= '9',
    decreases n,
{
    if n >= 10 {
        lemma_decimal_is_digits(n / 10);
    }
}

/// The texts of a sequence of strings.
pub open spec fn texts(v: Seq<String>) -> Seq<Seq<char>> {
    Seq::new(v.len(), |i: int| v[i]@)
}

/// A line without the carriage return that may end it.
pub open spec fn without_cr(line: Seq<char>) -> Seq<char> {
    if line.len() > 0 && line.last() == '\r' {
        line.drop_last()
    } else {
        line
    }
}

/// The lines of `content`. A line ends at a newline, or at a carriage return
/// followed by a newline; neither belongs to the line. What follows the last
/// newline is a line of its own unless it is empty.
pub open spec fn lines(content: Seq<char>) -> Seq<Seq<char>>
    decreases content.len(),
{
    if content.len() == 0 {
        Seq::empty()
    } else {
        match find(content, seq!['\n']) {
            Some(i) => {
                proof {
                    lemma_find_first(content, seq!['\n']);
                }
                seq![without_cr(content.take(i))] + lines(content.skip(i + 1))
            },
            None => seq![content],
        }
    }
}

/// The text made of `lines`: each line followed by a newline.
pub open spec fn joined(lines: Seq<Seq<char>>) -> Seq<char>
    decreases lines.len(),
{
    if lines.len() == 0 {
        Seq::empty()
    } else {
        joined(lines.drop_last()) + lines.last() + seq!['\n']
    }
}

/// Whether `line` holds no newline.
pub open spec fn no_newline(line: Seq<char>) -> bool {
    forall|i: int| 0 <= i < line.len() ==> line[i] != '\n'
}

/// Whether `line` can be written as one line and read back as it is: it
/// holds no newline and does not end with a carriage return.
pub open spec fn one_line(line: Seq<char>) -> bool {
    no_newline(line) && without_cr(line) == line
}

/// The text made of lines that begin with `first` is `first`, a newline, and
/// the text made of the rest.
pub proof fn lemma_joined_front(first: Seq<char>, rest: Seq<Seq<char>>)
    ensures
        joined(seq![first] + rest) == first + seq!['\n'] + joined(rest),
    decreases rest.len(),
{
    let all = seq![first] + rest;
    if rest.len() == 0 {
        assert(all.drop_last() =~= Seq::<Seq<char>>::empty());
        assert(joined(all.drop_last()) =~= Seq::<char>::empty());
        assert(all.last() == first);
        assert(joined(all) =~= first + seq!['\n']);
        assert(first + seq!['\n'] + joined(rest) =~= first + seq!['\n']);
    } else {
        lemma_joined_front(first, rest.drop_last());
        assert(all.drop_last() =~= seq![first] + rest.drop_last());
        assert(all.last() == rest.last());
        assert(joined(all) =~= first + seq!['\n'] + joined(rest));
    }
}

/// Lines joined to a text are read back as they were, but for one carriage
/// return at the end of a line, which reading takes for a part of the line's
/// ending.
pub proof fn lemma_lines_of_joined(ls: Seq<Seq<char>>)
    requires
        forall|k: int| 0 <= k < ls.len() ==> no_newline(#[trigger] ls[k]),
    ensures
        lines(joined(ls)).len() == ls.len(),
        forall|k: int| 0 <= k < ls.len() ==> #[trigger] lines(joined(ls))[k] == without_cr(ls[k]),
    decreases ls.len(),
{
    if ls.len() == 0 {
    } else {
        let first = ls[0];
        let rest = ls.skip(1);
        assert(ls =~= seq![first] + rest);
        lemma_joined_front(first, rest);
        let content = joined(ls);
        assert(content == first + seq!['\n'] + joined(rest));
        let i = first.len() as int;
        assert(content.subrange(i, i + 1) =~= seq!['\n']);
        assert forall|j: int| j < i implies !occurs_at(content, seq!['\n'], j) by {
            if 0 <= j {
                assert(no_newline(first));
                assert(content[j] == first[j]);
                if occurs_at(content, seq!['\n'], j) {
                    assert(content.subrange(j, j + 1)[0] == '\n');
                }
            }
        }
        lemma_find_unique(content, seq!['\n'], i);
        assert(content.take(i) =~= first);
        assert(content.skip(i + 1) =~= joined(rest));
        assert forall|k: int| 0 <= k < rest.len() implies no_newline(#[trigger] rest[k]) by {
            assert(rest[k] == ls[k + 1]);
        }
        lemma_lines_of_joined(rest);
        assert(lines(content) =~= seq![without_cr(first)] + lines(joined(rest)));
        assert forall|k: int| 0 <= k < ls.len() implies #[trigger] lines(content)[k] == without_cr(
            ls[k],
        ) by {
            if k > 0 {
                assert(lines(content)[k] == lines(joined(rest))[k - 1]);
                assert(rest[k - 1] == ls[k]);
            }
        }
    }
}

/// No line that `lines` gives holds a newline.
pub proof fn lemma_lines_hold_no_newline(content: Seq<char>)
    ensures
        forall|k: int| 0 <= k < lines(content).len() ==> no_newline(#[trigger] lines(content)[k]),
    decreases content.len(),
{
    if content.len() > 0 {
        lemma_find_first(content, seq!['\n']);
        match find(content, seq!['\n']) {
            Some(i) => {
                let head = without_cr(content.take(i));
                let rest = content.skip(i + 1);
                assert forall|j: int| 0 <= j < head.len() implies head[j] != '\n' by {
                    if head[j] == '\n' {
                        assert(content[j] == '\n');
                        assert(content.subrange(j, j + 1) =~= seq!['\n']);
                        assert(occurs_at(content, seq!['\n'], j));
                    }
                }
                lemma_lines_hold_no_newline(rest);
                assert forall|k: int| 0 <= k < lines(content).len() implies no_newline(
                    #[trigger] lines(content)[k],
                ) by {
                    if k > 0 {
                        assert(lines(content)[k] == lines(rest)[k - 1]);
                    }
                }
            },
            None => {
                assert forall|j: int| 0 <= j < content.len() implies content[j] != '\n' by {
                    if content[j] == '\n' {
                        assert(content.subrange(j, j + 1) =~= seq!['\n']);
                        assert(occurs_at(content, seq!['\n'], j));
                    }
                }
            },
        }
    }
}

/// Splits a text into its lines.
pub fn split_lines(content: &str) -> (r: Vec<String>)
    ensures
        texts(r@) == lines(content@),
{
    let v = chars_of(content);
    let mut out: Vec<String> = Vec::new();
    let mut start: usize = 0;
    let mut i: usize = 0;
    assert(v@.skip(0) =~= v@);
    assert(texts(out@) =~= Seq::<Seq<char>>::empty());
    assert(texts(out@) + lines(v@) =~= lines(v@));
    while i < v.len()
        invariant
            start <= i <= v.len(),
            v@ == content@,
            forall|j: int| start <= j < i ==> v@[j] != '\n',
            lines(content@) == texts(out@) + lines(v@.skip(start as int)),
        decreases v.len() - i,
    {
        if v[i] == '\n' {
            let mut end = i;
            if end > start && v[end - 1] == '\r' {
                end -= 1;
            }
            let line = string_of(&v.as_slice()[start..end]);
            proof {
                let rest = v@.skip(start as int);
                let k = i - start;
                assert(rest.subrange(k, k + 1) =~= seq!['\n']);
                assert forall|j: int| j < k implies !occurs_at(rest, seq!['\n'], j) by {
                    if 0 <= j && occurs_at(rest, seq!['\n'], j) {
                        assert(rest.subrange(j, j + 1)[0] == '\n');
                        assert(rest[j] == v@[start + j]);
                    }
                }
                lemma_find_unique(rest, seq!['\n'], k);
                assert(rest.skip(k + 1) =~= v@.skip(i + 1));
                assert(rest.take(k) =~= v@.subrange(start as int, i as int));
                assert(line@ =~= without_cr(rest.take(k)));
                assert(texts(out@.push(line)) =~= texts(out@).push(line@));
                assert(texts(out@).push(line@) + lines(v@.skip(i + 1)) =~= texts(out@) + (seq![
                    line@,
                ] + lines(v@.skip(i + 1))));
            }
            out.push(line);
            start = i + 1;
        }
        i += 1;
    }
    if start < v.len() {
        let line = string_of(&v.as_slice()[start..v.len()]);
        proof {
            let rest = v@.skip(start as int);
            assert(rest =~= v@.subrange(start as int, v@.len() as int));
            lemma_find_first(rest, seq!['\n']);
            if find(rest, seq!['\n']) is Some {
                let j = find(rest, seq!['\n'])->0;
                assert(rest.subrange(j, j + 1)[0] == '\n');
                assert(rest[j] == v@[start + j]);
            }
            assert(lines(rest) =~= seq![rest]);
            assert(texts(out@.push(line)) =~= texts(out@).push(line@));
            assert(texts(out@).push(line@) =~= texts(out@) + seq![rest]);
        }
        out.push(line);
    } else {
        assert(texts(out@) + lines(v@.skip(start as int)) =~= texts(out@));
    }
    out
}

/// Joins lines to a text: each line followed by a newline.
pub fn join_lines(lines: &Vec<String>) -> (r: String)
    ensures
        r@ == joined(texts(lines@)),
{
    let mut out = String::new();
    let mut i: usize = 0;
    assert(texts(lines@).take(0) =~= Seq::<Seq<char>>::empty());
    while i < lines.len()
        invariant
            i <= lines.len(),
            out@ == joined(texts(lines@).take(i as int)),
        decreases lines.len() - i,
    {
        let ghost head = texts(lines@).take(i + 1);
        assert(head.drop_last() =~= texts(lines@).take(i as int));
        assert(head.last() == lines@[i as int]@);
        out.append(lines[i].as_str());
        out.push('\n');
        assert(out@ =~= joined(head));
        i += 1;
    }
    assert(texts(lines@).take(i as int) =~= texts(lines@));
    out
}

/// The lowercase form of a text, as `str::to_lowercase` gives it.
pub uninterp spec fn lowercase(s: Seq<char>) -> Seq<char>;

/// `str::to_lowercase`: the lowercase equivalent of `s` by the Unicode
/// mappings, which this library does not spell out. The contract only gives
/// the result its name.
#[verifier::external_body]
pub(crate) fn to_lowercase(s: &str) -> (r: String)
    ensures
        r@ == lowercase(s@),
{
    s.to_lowercase()
}

} // verus!
