//! Ambient context for a prompt: the names in the working directory and the
//! short status of version control, as free text for the system prompt.
//!
//! Listing the directory and asking version control are the caller's part;
//! this module chooses, orders, caps and lays out what they gave.

use crate::text::{join_lines, joined, lines, split_lines, texts};
use vstd::prelude::*;
use vstd::seq_lib::{to_multiset_build, to_multiset_insert};
use vstd::std_specs::iter::IteratorSpec;

verus! {

/// The most names that the context lists.
pub const MAX_NAMES: usize = 50;

/// The most lines of status that the context holds.
pub const MAX_STATUS_LINES: usize = 20;

/// The line that stands for what was left out.
pub const TRUNCATED: &'static str = "...(truncated)";

/// The heading of the directory listing.
pub const FILES_HEADING: &'static str = "Files in the current directory:";

/// The heading of the version-control status.
pub const STATUS_HEADING: &'static str = "Version control status:";

/// Whether a name begins with a dot.
pub open spec fn is_hidden(name: Seq<char>) -> bool {
    name.len() > 0 && name[0] == '.'
}

/// Whether `a` stands at or before `b` in lexicographic order, character by
/// character in the order of their code points.
pub open spec fn lex_le(a: Seq<char>, b: Seq<char>) -> bool
    decreases a.len(),
{
    if a.len() == 0 {
        true
    } else if b.len() == 0 {
        false
    } else if a[0] != b[0] {
        a[0] < b[0]
    } else {
        lex_le(a.skip(1), b.skip(1))
    }
}

/// Of two texts, one stands at or before the other.
pub proof fn lemma_lex_total(a: Seq<char>, b: Seq<char>)
    ensures
        lex_le(a, b) || lex_le(b, a),
    decreases a.len(),
{
    if a.len() > 0 && b.len() > 0 && a[0] == b[0] {
        lemma_lex_total(a.skip(1), b.skip(1));
    }
}

/// The order of texts is transitive.
pub proof fn lemma_lex_transitive(a: Seq<char>, b: Seq<char>, c: Seq<char>)
    requires
        lex_le(a, b),
        lex_le(b, c),
    ensures
        lex_le(a, c),
    decreases a.len(),
{
    if a.len() > 0 && b.len() > 0 && c.len() > 0 && a[0] == b[0] && b[0] == c[0] {
        lemma_lex_transitive(a.skip(1), b.skip(1), c.skip(1));
    }
}

/// Two texts that each stand at or before the other are the same text.
pub proof fn lemma_lex_antisymmetric(a: Seq<char>, b: Seq<char>)
    requires
        lex_le(a, b),
        lex_le(b, a),
    ensures
        a == b,
    decreases a.len(),
{
    if a.len() > 0 && b.len() > 0 {
        lemma_lex_antisymmetric(a.skip(1), b.skip(1));
        assert(a =~= seq![a[0]] + a.skip(1));
        assert(b =~= seq![b[0]] + b.skip(1));
    } else {
        assert(a =~= b);
    }
}

/// Decides whether `a` stands at or before `b` in lexicographic order.
pub fn text_le(a: &str, b: &str) -> (r: bool)
    ensures
        r == lex_le(a@, b@),
{
    let mut x = a.chars();
    let mut y = b.chars();
    let ghost mut n: int = 0;
    assert(a@.skip(0) =~= a@);
    assert(b@.skip(0) =~= b@);
    loop
        invariant
            0 <= n <= a@.len(),
            n <= b@.len(),
            lex_le(a@, b@) == lex_le(a@.skip(n), b@.skip(n)),
            x.remaining() == a@.skip(n),
            y.remaining() == b@.skip(n),
        decreases a@.len() - n,
    {
        let p = x.next();
        let q = y.next();
        match (p, q) {
            (None, _) => {
                return true;
            },
            (Some(_), None) => {
                return false;
            },
            (Some(c), Some(d)) => {
                if c != d {
                    return c < d;
                }
                proof {
                    assert(a@.skip(n).skip(1) =~= a@.skip(n + 1));
                    assert(b@.skip(n).skip(1) =~= b@.skip(n + 1));
                    n = n + 1;
                }
            },
        }
    }
}

/// The names among `names` that do not begin with a dot, in their order.
pub open spec fn visible(names: Seq<Seq<char>>) -> Seq<Seq<char>>
    decreases names.len(),
{
    if names.len() == 0 {
        Seq::empty()
    } else if is_hidden(names.last()) {
        visible(names.drop_last())
    } else {
        visible(names.drop_last()).push(names.last())
    }
}

/// Whether the texts stand in lexicographic order.
pub open spec fn sorted(s: Seq<Seq<char>>) -> bool {
    forall|i: int, j: int| 0 <= i <= j < s.len() ==> lex_le(s[i], s[j])
}

fn begins_with_dot(name: &str) -> (r: bool)
    ensures
        r == is_hidden(name@),
{
    let mut it = name.chars();
    match it.next() {
        Some(c) => c == '.',
        None => false,
    }
}

/// The given texts in lexicographic order: the sorted sequence with the same
/// members, each as often as given.
pub open spec fn arranged(s: Seq<Seq<char>>) -> Seq<Seq<char>> {
    choose|ordered: Seq<Seq<char>>| sorted(ordered) && ordered.to_multiset() == s.to_multiset()
}

/// The names that do not begin with a dot, in lexicographic order.
pub fn sorted_visible(names: &Vec<String>) -> (r: Vec<String>)
    ensures
        texts(r@) == arranged(visible(texts(names@))),
        sorted(texts(r@)),
        texts(r@).to_multiset() == visible(texts(names@)).to_multiset(),
{
    let mut out: Vec<String> = Vec::new();
    let mut i: usize = 0;
    assert(texts(names@).take(0) =~= Seq::<Seq<char>>::empty());
    assert(texts(out@) =~= Seq::<Seq<char>>::empty());
    while i < names.len()
        invariant
            i <= names.len(),
            sorted(texts(out@)),
            texts(out@).to_multiset() == visible(texts(names@).take(i as int)).to_multiset(),
        decreases names.len() - i,
    {
        let ghost head = texts(names@).take(i + 1);
        assert(head.drop_last() =~= texts(names@).take(i as int));
        assert(head.last() == names@[i as int]@);
        let name = names[i].clone();
        if !begins_with_dot(name.as_str()) {
            let ghost before = texts(out@);
            let mut at: usize = 0;
            while at < out.len() && text_le(out[at].as_str(), name.as_str())
                invariant
                    at <= out.len(),
                    before == texts(out@),
                    forall|k: int| 0 <= k < at ==> lex_le(before[k], name@),
                decreases out.len() - at,
            {
                at += 1;
            }
            proof {
                assert forall|k: int| at <= k < before.len() implies lex_le(name@, before[k]) by {
                    lemma_lex_total(before[at as int], name@);
                    lemma_lex_transitive(name@, before[at as int], before[k]);
                }
                to_multiset_insert(before, at as int, name@);
                to_multiset_build(visible(head.drop_last()), name@);
            }
            out.insert(at, name);
            proof {
                let after = texts(out@);
                assert(after =~= before.insert(at as int, name@));
                lemma_lex_total(name@, name@);
                assert forall|p: int, q: int| 0 <= p <= q < after.len() implies lex_le(
                    after[p],
                    after[q],
                ) by {
                    if q < at {
                        assert(after[p] == before[p] && after[q] == before[q]);
                    } else if q == at {
                        if p < at {
                            assert(after[p] == before[p]);
                        }
                    } else if p < at {
                        assert(after[p] == before[p] && after[q] == before[q - 1]);
                    } else if p == at {
                        assert(after[q] == before[q - 1]);
                    } else {
                        assert(after[p] == before[p - 1] && after[q] == before[q - 1]);
                    }
                }
            }
        }
        i += 1;
    }
    assert(texts(names@).take(i as int) =~= texts(names@));
    proof {
        let given = visible(texts(names@));
        let ordered = arranged(given);
        assert(sorted(texts(out@)) && texts(out@).to_multiset() == given.to_multiset());
        lemma_sorted_unique(texts(out@), ordered);
    }
    out
}

/// A sorted arrangement of given texts is the only one: two sorted sequences
/// with the same members are the same sequence.
pub proof fn lemma_sorted_unique(a: Seq<Seq<char>>, b: Seq<Seq<char>>)
    requires
        sorted(a),
        sorted(b),
        a.to_multiset() == b.to_multiset(),
    ensures
        a == b,
    decreases a.len(),
{
    a.to_multiset_ensures();
    b.to_multiset_ensures();
    if a.len() == 0 {
        assert(a =~= b);
    } else {
        let x = a.last();
        let y = b.last();
        assert(a.contains(x));
        assert(b.contains(y));
        assert(b.to_multiset().count(x) > 0);
        assert(a.to_multiset().count(y) > 0);
        assert(b.contains(x));
        assert(a.contains(y));
        let i = choose|i: int| 0 <= i < b.len() && b[i] == x;
        let j = choose|j: int| 0 <= j < a.len() && a[j] == y;
        assert(lex_le(b[i], b[b.len() - 1]));
        assert(lex_le(a[j], a[a.len() - 1]));
        lemma_lex_antisymmetric(x, y);
        assert(a.drop_last() =~= a.remove(a.len() - 1));
        assert(b.drop_last() =~= b.remove(b.len() - 1));
        lemma_sorted_unique(a.drop_last(), b.drop_last());
        assert(a =~= a.drop_last().push(x));
        assert(b =~= b.drop_last().push(y));
    }
}

/// `ordered` with `x` put in at its place.
spec fn placed(ordered: Seq<Seq<char>>, x: Seq<char>) -> Seq<Seq<char>>
    decreases ordered.len(),
{
    if ordered.len() == 0 || lex_le(ordered.last(), x) {
        ordered.push(x)
    } else {
        placed(ordered.drop_last(), x).push(ordered.last())
    }
}

proof fn lemma_placed(ordered: Seq<Seq<char>>, x: Seq<char>)
    requires
        sorted(ordered),
    ensures
        sorted(placed(ordered, x)),
        placed(ordered, x).to_multiset() == ordered.to_multiset().insert(x),
        placed(ordered, x).len() == ordered.len() + 1,
        forall|k: int|
            0 <= k < placed(ordered, x).len() ==> #[trigger] placed(ordered, x)[k] == x
                || ordered.contains(placed(ordered, x)[k]),
    decreases ordered.len(),
{
    let r = placed(ordered, x);
    lemma_lex_total(x, x);
    if ordered.len() == 0 || lex_le(ordered.last(), x) {
        to_multiset_build(ordered, x);
        assert forall|p: int, q: int| 0 <= p <= q < r.len() implies lex_le(r[p], r[q]) by {
            if q == ordered.len() && p < ordered.len() {
                lemma_lex_transitive(ordered[p], ordered.last(), x);
            }
        }
        assert forall|k: int| 0 <= k < r.len() implies #[trigger] r[k] == x || ordered.contains(
            r[k],
        ) by {
            if k < ordered.len() {
                assert(ordered[k] == r[k]);
            }
        }
    } else {
        let front = ordered.drop_last();
        let last = ordered.last();
        lemma_placed(front, x);
        let inner = placed(front, x);
        lemma_lex_total(last, x);
        to_multiset_build(inner, last);
        to_multiset_build(front, last);
        assert(ordered =~= front.push(last));
        assert(r.to_multiset() =~= ordered.to_multiset().insert(x));
        assert forall|p: int, q: int| 0 <= p <= q < r.len() implies lex_le(r[p], r[q]) by {
            lemma_lex_total(last, last);
            if q == inner.len() && p < inner.len() {
                if inner[p] != x {
                    assert(front.contains(inner[p]));
                    let k = choose|k: int| 0 <= k < front.len() && front[k] == inner[p];
                    assert(lex_le(ordered[k], ordered[ordered.len() - 1]));
                }
            }
        }
        assert forall|k: int| 0 <= k < r.len() implies #[trigger] r[k] == x || ordered.contains(
            r[k],
        ) by {
            if k < inner.len() {
                if inner[k] != x {
                    assert(front.contains(inner[k]));
                    let j = choose|j: int| 0 <= j < front.len() && front[j] == inner[k];
                    assert(ordered[j] == r[k]);
                }
            } else {
                assert(ordered[ordered.len() - 1] == r[k]);
            }
        }
    }
}

proof fn lemma_arrangement_exists(s: Seq<Seq<char>>) -> (ordered: Seq<Seq<char>>)
    ensures
        sorted(ordered),
        ordered.to_multiset() == s.to_multiset(),
    decreases s.len(),
{
    if s.len() == 0 {
        s
    } else {
        let front = lemma_arrangement_exists(s.drop_last());
        lemma_placed(front, s.last());
        to_multiset_build(s.drop_last(), s.last());
        assert(s =~= s.drop_last().push(s.last()));
        placed(front, s.last())
    }
}

/// `arranged` gives the given texts, each as often as given, in
/// lexicographic order.
pub proof fn lemma_arranged_is_sorted(s: Seq<Seq<char>>)
    ensures
        sorted(arranged(s)),
        arranged(s).to_multiset() == s.to_multiset(),
        arranged(s).len() == s.len(),
{
    let witness = lemma_arrangement_exists(s);
    arranged(s).to_multiset_ensures();
    s.to_multiset_ensures();
}

/// `lines` cut to `cap` of them: the first `cap`, followed by the line that
/// stands for what was left out; all of them where there are no more.
pub open spec fn capped(lines: Seq<Seq<char>>, cap: int) -> Seq<Seq<char>> {
    if lines.len() > cap && cap >= 0 {
        lines.take(cap).push(TRUNCATED@)
    } else {
        lines
    }
}

/// Cuts `lines` to `cap` of them and marks the cut.
pub fn cap_lines(lines: Vec<String>, cap: usize) -> (r: Vec<String>)
    ensures
        texts(r@) == capped(texts(lines@), cap as int),
{
    let mut lines = lines;
    if lines.len() > cap {
        let ghost all = texts(lines@);
        lines.truncate(cap);
        assert(texts(lines@) =~= all.take(cap as int));
        lines.push(String::from_str(TRUNCATED));
        assert(texts(lines@) =~= all.take(cap as int).push(TRUNCATED@));
        lines
    } else {
        lines
    }
}

/// The names of a directory as the context lists them: without those that
/// begin with a dot, in lexicographic order, and no more than `MAX_NAMES`.
pub open spec fn listing_of(names: Seq<Seq<char>>) -> Seq<Seq<char>> {
    capped(arranged(visible(names)), MAX_NAMES as int)
}

/// The lines of status for what version control printed: its first
/// `MAX_STATUS_LINES` lines, and a mark where it printed more.
pub open spec fn status_of(output: Seq<char>) -> Seq<Seq<char>> {
    capped(lines(output), MAX_STATUS_LINES as int)
}

/// The context never lists more than `MAX_NAMES` names nor holds more than
/// `MAX_STATUS_LINES` lines of status, the mark of the cut not counted; and
/// what is within the limit is not cut.
pub proof fn lemma_context_is_capped(names: Seq<Seq<char>>, output: Seq<char>)
    ensures
        listing_of(names).len() <= MAX_NAMES + 1,
        status_of(output).len() <= MAX_STATUS_LINES + 1,
        visible(names).len() <= MAX_NAMES ==> listing_of(names) == arranged(visible(names)),
        lines(output).len() <= MAX_STATUS_LINES ==> status_of(output) == lines(output),
        listing_of(names).len() == MAX_NAMES + 1 ==> listing_of(names).last() == TRUNCATED@,
        status_of(output).len() == MAX_STATUS_LINES + 1 ==> status_of(output).last()
            == TRUNCATED@,
{
    lemma_arranged_is_sorted(visible(names));
}

/// The lines of the directory listing for the names of the entries of a
/// directory.
pub fn directory_lines(names: &Vec<String>) -> (r: Vec<String>)
    ensures
        texts(r@) == listing_of(texts(names@)),
{
    cap_lines(sorted_visible(names), MAX_NAMES)
}

/// The lines of status for what version control printed.
pub fn status_lines(output: &str) -> (r: Vec<String>)
    ensures
        texts(r@) == status_of(output@),
{
    cap_lines(split_lines(output), MAX_STATUS_LINES)
}

/// A heading and the lines under it, each on a line of its own; nothing
/// where there are no lines.
pub open spec fn section(heading: Seq<char>, body: Seq<Seq<char>>) -> Seq<char> {
    if body.len() == 0 {
        Seq::empty()
    } else {
        heading + seq!['\n'] + joined(body)
    }
}

fn write_section(out: &mut String, heading: &str, body: &Vec<String>)
    ensures
        final(out)@ == old(out)@ + section(heading@, texts(body@)),
{
    if body.len() > 0 {
        out.append(heading);
        out.push('\n');
        out.append(join_lines(body).as_str());
        assert(out@ =~= old(out)@ + (heading@ + seq!['\n'] + joined(texts(body@))));
    } else {
        assert(out@ =~= old(out)@ + Seq::<char>::empty());
    }
}

/// The names that listing the directory gave: none where it failed.
pub open spec fn names_given(names: Option<Vec<String>>) -> Seq<Seq<char>> {
    match names {
        Some(names) => texts(names@),
        None => Seq::empty(),
    }
}

/// What the status query printed: nothing where it failed.
pub open spec fn status_given(status: Option<String>) -> Seq<char> {
    match status {
        Some(output) => output@,
        None => Seq::empty(),
    }
}

/// The text of the context: empty with harvesting disabled; else the
/// directory listing under its heading, then the status under its heading,
/// a part without lines left out.
pub open spec fn harvested(disabled: bool, names: Seq<Seq<char>>, status: Seq<char>) -> Seq<char> {
    if disabled {
        Seq::empty()
    } else {
        section(FILES_HEADING@, listing_of(names)) + section(STATUS_HEADING@, status_of(status))
    }
}

/// Gathers the context. `names` holds the names of the entries of the
/// working directory, or `None` where it could not be listed; `status` holds
/// what the short status query of version control printed, or `None` where
/// the query failed. Either failure counts as having given nothing.
pub fn harvest(disabled: bool, names: Option<Vec<String>>, status: Option<String>) -> (r: String)
    ensures
        r@ == harvested(disabled, names_given(names), status_given(status)),
{
    if disabled {
        return String::new();
    }
    let listing = match &names {
        Some(names) => directory_lines(names),
        None => {
            let none: Vec<String> = Vec::new();
            assert(texts(none@) =~= Seq::<Seq<char>>::empty());
            directory_lines(&none)
        },
    };
    let report = match &status {
        Some(output) => status_lines(output.as_str()),
        None => {
            let none = String::new();
            status_lines(none.as_str())
        },
    };
    let mut out = String::new();
    write_section(&mut out, FILES_HEADING, &listing);
    write_section(&mut out, STATUS_HEADING, &report);
    assert(out@ =~= section(FILES_HEADING@, texts(listing@)) + section(
        STATUS_HEADING@,
        texts(report@),
    ));
    out
}

/// The system prompt with the context: the context follows the prompt on a
/// line of its own; an empty context leaves the prompt as it is.
pub open spec fn enriched(system_prompt: Seq<char>, context: Seq<char>) -> Seq<char> {
    if context.len() == 0 {
        system_prompt
    } else {
        system_prompt + seq!['\n'] + context
    }
}

/// Appends the context to the system prompt.
pub fn with_context(system_prompt: &str, context: &str) -> (r: String)
    ensures
        r@ == enriched(system_prompt@, context@),
{
    let mut out = String::from_str(system_prompt);
    if context.unicode_len() > 0 {
        out.push('\n');
        out.append(context);
    }
    out
}

} // verus!
