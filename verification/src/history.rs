//! The history log: one record per line, oldest first, never more than
//! `HISTORY_CAPACITY` of them after an append.
//!
//! The log is handled as text. Reading and writing the file, and turning a
//! record into a line and back, are the caller's part; this module cleans the
//! texts of an entry, frames the lines and keeps the log within its capacity.

use crate::clock::unix_now;
use crate::record::{lemma_record_is_one_line, record_line, record_text, RecordError};
use crate::sanitize::{
    escape_free, lemma_strip_is_escape_free, lemma_strip_keeps_escape_free, strip_ansi,
    strip_ansi_codes,
};
use crate::text::{
    join_lines, joined, lemma_lines_hold_no_newline, lemma_lines_of_joined, lemma_trim_idempotent,
    lemma_trim_is_part, lines, no_newline, one_line, split_lines, texts, trim, trimmed, without_cr,
};
use vstd::prelude::*;

verus! {

/// The most records that the log holds after an append.
pub const HISTORY_CAPACITY: usize = 1000;

/// One record of the log: when a prompt was answered, and with which command.
#[derive(Debug, PartialEq, Eq)]
pub struct HistoryEntry {
    /// Seconds since the Unix epoch.
    pub timestamp: i64,
    pub prompt: String,
    pub command: String,
}

/// The mathematical content of a `HistoryEntry`.
pub struct EntryText {
    pub timestamp: int,
    pub prompt: Seq<char>,
    pub command: Seq<char>,
}

impl View for HistoryEntry {
    type V = EntryText;

    open spec fn view(&self) -> EntryText {
        EntryText { timestamp: self.timestamp as int, prompt: self.prompt@, command: self.command@ }
    }
}

/// A text as the log keeps it: without escape sequences, then trimmed.
pub open spec fn stored(text: Seq<char>) -> Seq<char> {
    trim(strip_ansi(text))
}

/// What the log keeps holds no escape character and no white space at its
/// ends, and cleaning it again changes nothing: formatting for display never
/// reaches the stored texts.
pub proof fn lemma_stored_is_clean(text: Seq<char>)
    ensures
        escape_free(stored(text)),
        trim(stored(text)) == stored(text),
        stored(stored(text)) == stored(text),
{
    let stripped = strip_ansi(text);
    lemma_strip_is_escape_free(text, false);
    let range = lemma_trim_is_part(stripped);
    assert forall|i: int| 0 <= i < stored(text).len() implies stored(text)[i]
        != crate::sanitize::ESCAPE by {
        assert(stored(text)[i] == stripped[range.0 + i]);
    }
    lemma_trim_idempotent(stripped);
    lemma_strip_keeps_escape_free(stored(text));
}

impl HistoryEntry {
    /// The entry for `prompt` and `command` at `timestamp`, both texts
    /// cleaned of escape sequences and trimmed.
    pub fn new(prompt: &str, command: &str, timestamp: i64) -> (entry: HistoryEntry)
        ensures
            entry@ == (EntryText {
                timestamp: timestamp as int,
                prompt: stored(prompt@),
                command: stored(command@),
            }),
    {
        let clean_command = strip_ansi_codes(command);
        let clean_prompt = strip_ansi_codes(prompt);
        HistoryEntry {
            timestamp,
            prompt: trimmed(clean_prompt.as_str()),
            command: trimmed(clean_command.as_str()),
        }
    }

    /// The entry for `prompt` and `command` at the present time, as the
    /// system clock gives it.
    pub fn stamped(prompt: &str, command: &str) -> (entry: HistoryEntry)
        ensures
            entry@.prompt == stored(prompt@),
            entry@.command == stored(command@),
    {
        HistoryEntry::new(prompt, command, unix_now())
    }
}

/// The newest `n` items of `s`, in their order; all of `s` where it holds no
/// more than `n`.
pub open spec fn newest<A>(s: Seq<A>, n: int) -> Seq<A> {
    if s.len() > n && n >= 0 {
        s.skip(s.len() - n)
    } else {
        s
    }
}

/// The log after `line` was appended to `lines`: the new line last, and the
/// oldest lines dropped as far as the capacity asks.
pub open spec fn appended(lines: Seq<Seq<char>>, line: Seq<char>) -> Seq<Seq<char>> {
    newest(lines.push(line), HISTORY_CAPACITY as int)
}

/// Appends `line` to the log and drops the oldest lines beyond the capacity.
pub fn append_line(lines: Vec<String>, line: String) -> (r: Vec<String>)
    ensures
        texts(r@) == appended(texts(lines@), line@),
{
    let mut lines = lines;
    let ghost before = texts(lines@);
    lines.push(line);
    assert(texts(lines@) =~= before.push(line@));
    if lines.len() > HISTORY_CAPACITY {
        let remove_count = lines.len() - HISTORY_CAPACITY;
        let kept = lines.split_off(remove_count);
        assert(texts(kept@) =~= before.push(line@).skip(remove_count as int));
        kept
    } else {
        lines
    }
}

/// The text of the log after `line` was appended to the log whose text is
/// `content`.
pub fn append_to_log(content: &str, line: &str) -> (r: String)
    ensures
        r@ == joined(appended(lines(content@), line@)),
{
    let lines = split_lines(content);
    let lines = append_line(lines, String::from_str(line));
    join_lines(&lines)
}

/// The text of the log after `entry` was appended to the log whose text is
/// `content`: the lines kept, then the line of the entry. Succeeds on every
/// log and every entry.
pub fn append_entry(content: &str, entry: &HistoryEntry) -> (r: Result<String, RecordError>)
    ensures
        r matches Ok(text) && text@ == joined(appended(lines(content@), record_text(entry@))),
{
    match record_line(entry) {
        Ok(line) => Ok(append_to_log(content, line.as_str())),
        Err(error) => Err(error),
    }
}

/// The text of the log after the pair of `prompt` and `command` was appended
/// at `timestamp` to the log whose text is `content`: both texts cleaned, the
/// entry written as one line behind the lines kept, and the oldest lines
/// dropped beyond the capacity.
pub open spec fn history_after(
    content: Seq<char>,
    prompt: Seq<char>,
    command: Seq<char>,
    timestamp: int,
) -> Seq<char> {
    joined(
        appended(
            lines(content),
            record_text(
                EntryText { timestamp, prompt: stored(prompt), command: stored(command) },
            ),
        ),
    )
}

/// Appends the pair of `prompt` and `command` at `timestamp` to the log whose
/// text is `content`, and gives the new text of the log. Succeeds on every
/// input.
pub fn append_at(content: &str, prompt: &str, command: &str, timestamp: i64) -> (r: Result<
    String,
    RecordError,
>)
    ensures
        r matches Ok(text) && text@ == history_after(
            content@,
            prompt@,
            command@,
            timestamp as int,
        ),
{
    append_entry(content, &HistoryEntry::new(prompt, command, timestamp))
}

/// Appends the pair of `prompt` and `command` at the present time to the log
/// whose text is `content`, and gives the new text of the log. Succeeds on
/// every input; the timestamp is what the system clock gave.
pub fn append_to_history(content: &str, prompt: &str, command: &str) -> (r: Result<
    String,
    RecordError,
>)
    ensures
        r matches Ok(text) && exists|timestamp: int|
            i64::MIN <= timestamp <= i64::MAX && text@ == #[trigger] history_after(
                content@,
                prompt@,
                command@,
                timestamp,
            ),
{
    let now = unix_now();
    let r = append_at(content, prompt, command, now);
    proof {
        assert(r->Ok_0@ == history_after(content@, prompt@, command@, now as int));
    }
    r
}

/// The contents of a sequence of entries.
pub open spec fn entry_texts(entries: Seq<HistoryEntry>) -> Seq<EntryText> {
    Seq::new(entries.len(), |i: int| entries[i]@)
}

/// The contents of what reading the lines of a log gave: an entry for a line
/// that could be read, `None` for one that could not.
pub open spec fn read_texts(read: Seq<Option<HistoryEntry>>) -> Seq<Option<EntryText>> {
    Seq::new(
        read.len(),
        |i: int|
            match read[i] {
                Some(entry) => Some(entry@),
                None => None,
            },
    )
}

/// The entries among `read`, in their order: a line that could not be read
/// is passed over.
pub open spec fn readable(read: Seq<Option<EntryText>>) -> Seq<EntryText>
    decreases read.len(),
{
    if read.len() == 0 {
        Seq::empty()
    } else {
        match read.last() {
            Some(entry) => readable(read.drop_last()).push(entry),
            None => readable(read.drop_last()),
        }
    }
}

/// The entries of a log, given for each of its lines what reading it gave.
/// Lines that could not be read are skipped.
pub fn list(read: Vec<Option<HistoryEntry>>) -> (r: Vec<HistoryEntry>)
    ensures
        entry_texts(r@) == readable(read_texts(read@)),
{
    let mut read = read;
    let ghost all = read_texts(read@);
    let mut out: Vec<HistoryEntry> = Vec::new();
    let mut i: usize = 0;
    let n = read.len();
    assert(all.take(0) =~= Seq::<Option<EntryText>>::empty());
    assert(entry_texts(out@) =~= Seq::<EntryText>::empty());
    while i < n
        invariant
            i <= n,
            n == read.len(),
            all.len() == n,
            forall|j: int| i <= j < n ==> read_texts(read@)[j] == all[j],
            entry_texts(out@) == readable(all.take(i as int)),
        decreases n - i,
    {
        let ghost head = all.take(i + 1);
        assert(head.drop_last() =~= all.take(i as int));
        assert(head.last() == read_texts(read@)[i as int]);
        let ghost before = read@;
        let ghost kept = entry_texts(out@);
        let slot = read[i].take();
        assert(read@ =~= before.update(i as int, None));
        match slot {
            Some(entry) => {
                out.push(entry);
                assert(entry_texts(out@) =~= kept.push(entry@));
            },
            None => {},
        }
        i += 1;
    }
    assert(all.take(i as int) =~= all);
    out
}

/// The most recent `last_n` entries of a log, oldest first; all of them where
/// the log holds no more.
pub fn recent(entries: Vec<HistoryEntry>, last_n: usize) -> (r: Vec<HistoryEntry>)
    ensures
        entry_texts(r@) == newest(entry_texts(entries@), last_n as int),
{
    let mut entries = entries;
    if entries.len() > last_n {
        let ghost all = entry_texts(entries@);
        let start = entries.len() - last_n;
        let shown = entries.split_off(start);
        assert(entry_texts(shown@) =~= all.skip(start as int));
        shown
    } else {
        entries
    }
}

/// `newest` keeps no more than `n` items, and all of them where there are no
/// more than `n`.
pub proof fn lemma_newest_len<A>(s: Seq<A>, n: int)
    requires
        0 <= n,
    ensures
        newest(s, n).len() == if s.len() <= n {
            s.len() as int
        } else {
            n
        },
{
}

/// An append never leaves the log above its capacity, and the line appended
/// is its last.
pub proof fn lemma_append_bounded(lines: Seq<Seq<char>>, line: Seq<char>)
    ensures
        appended(lines, line).len() <= HISTORY_CAPACITY,
        appended(lines, line).len() > 0,
        appended(lines, line).last() == line,
{
}

/// Appending to a log that is full gives a full log again: its oldest line
/// has left, the others have moved up by one, and the new line is last.
pub proof fn lemma_append_to_full_log(lines: Seq<Seq<char>>, line: Seq<char>)
    requires
        lines.len() == HISTORY_CAPACITY,
    ensures
        appended(lines, line).len() == HISTORY_CAPACITY,
        appended(lines, line) == lines.skip(1).push(line),
        appended(lines, line).last() == line,
        forall|i: int| 0 <= i < lines.len() - 1 ==> appended(lines, line)[i] == lines[i + 1],
        (forall|i: int| 1 <= i < lines.len() ==> #[trigger] lines[i] != lines[0]) && line != lines[0]
            ==> !appended(lines, line).contains(lines[0]),
{
    assert(appended(lines, line) =~= lines.skip(1).push(line));
}

/// Appending to a log below its capacity keeps every line and adds the new
/// one at the end.
pub proof fn lemma_append_below_capacity(lines: Seq<Seq<char>>, line: Seq<char>)
    requires
        lines.len() < HISTORY_CAPACITY,
    ensures
        appended(lines, line) == lines.push(line),
{
}

/// What was appended to a log is what reading the log gives back: the text
/// written holds as many lines as were kept, and its last line is the one
/// appended.
pub proof fn lemma_append_then_read(content: Seq<char>, line: Seq<char>)
    requires
        one_line(line),
    ensures
        lines(joined(appended(lines(content), line))).len() == appended(
            lines(content),
            line,
        ).len(),
        lines(joined(appended(lines(content), line))).last() == line,
{
    lemma_lines_hold_no_newline(content);
    let kept = appended(lines(content), line);
    assert forall|k: int| 0 <= k < kept.len() implies no_newline(#[trigger] kept[k]) by {
        let all = lines(content).push(line);
        if all.len() > HISTORY_CAPACITY {
            assert(kept[k] == all[k + all.len() - HISTORY_CAPACITY]);
        } else {
            assert(kept[k] == all[k]);
        }
    }
    lemma_lines_of_joined(kept);
    assert(kept.last() == line);
    assert(lines(joined(kept))[kept.len() - 1] == without_cr(kept[kept.len() - 1]));
}

/// An entry appended to a log is the last line that reading the log gives,
/// character for character, and the log holds no more than its capacity.
pub proof fn lemma_entry_is_read_back(content: Seq<char>, entry: EntryText)
    ensures
        lines(joined(appended(lines(content), record_text(entry)))).last() == record_text(entry),
        lines(joined(appended(lines(content), record_text(entry)))).len() <= HISTORY_CAPACITY,
{
    lemma_record_is_one_line(entry);
    lemma_append_then_read(content, record_text(entry));
}

/// An empty log that got one line holds that line and nothing else.
pub proof fn lemma_first_append(line: Seq<char>)
    requires
        one_line(line),
    ensures
        lines(joined(appended(lines(Seq::empty()), line))) == seq![line],
{
    lemma_append_then_read(Seq::empty(), line);
    assert(appended(lines(Seq::empty()), line) =~= seq![line]);
    assert(lines(joined(appended(lines(Seq::empty()), line))) =~= seq![line]);
}

} // verus!
