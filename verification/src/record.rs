//! The line of a history record: a JSON object with the fields `timestamp`,
//! `prompt` and `command`, in that order and without white space, as
//! `serde_json` writes the record.
//!
//! The strings are quoted by `serde_json`; the object around them is written
//! here. Reading a line back takes a JSON parser and is the caller's part.

use crate::history::{EntryText, HistoryEntry};
use crate::text::{
    decimal, lemma_decimal_is_digits, no_newline, one_line, signed_decimal, signed_decimal_string,
};
use vstd::prelude::*;

verus! {

/// The error that `serde_json` reports.
#[verifier::external_type_specification]
#[verifier::external_body]
pub struct ExJsonError(serde_json::Error);

/// Why a record could not be written. The encoder reports its failures in a
/// type of its own; this is the library's word for them. For the texts of a
/// record it reports none.
#[derive(Clone, Copy, Debug, PartialEq, Eq)]
pub enum RecordError {
    /// The encoder refused a text of the record.
    Encode,
}

impl RecordError {
    /// The error as text for the operator.
    pub fn message(&self) -> (r: &'static str)
        ensures
            r@ == "Failed to encode history entry"@,
    {
        "Failed to encode history entry"
    }
}

/// The lowercase hexadecimal digit of a number below 16.
pub open spec fn hex_digit(n: int) -> char {
    if n < 10 {
        crate::text::digit(n)
    } else if n == 10 {
        'a'
    } else if n == 11 {
        'b'
    } else if n == 12 {
        'c'
    } else if n == 13 {
        'd'
    } else if n == 14 {
        'e'
    } else {
        'f'
    }
}

/// A character as it stands inside a JSON string: the quote and the
/// backslash behind a backslash; backspace, tab, newline, form feed and
/// carriage return as `\b`, `\t`, `\n`, `\f` and `\r`; any other character
/// below U+0020 as `\u00` and its two hexadecimal digits; every other
/// character as it is.
pub open spec fn escaped(c: char) -> Seq<char> {
    if c == '"' {
        seq!['\\', '"']
    } else if c == '\\' {
        seq!['\\', '\\']
    } else if c == '\u{8}' {
        seq!['\\', 'b']
    } else if c == '\t' {
        seq!['\\', 't']
    } else if c == '\n' {
        seq!['\\', 'n']
    } else if c == '\u{c}' {
        seq!['\\', 'f']
    } else if c == '\r' {
        seq!['\\', 'r']
    } else if (c as u32) < 0x20 {
        seq![
            '\\',
            'u',
            '0',
            '0',
            hex_digit((c as u32) as int / 16),
            hex_digit((c as u32) as int % 16),
        ]
    } else {
        seq![c]
    }
}

/// The characters of `s`, each as it stands inside a JSON string.
pub open spec fn escaped_text(s: Seq<char>) -> Seq<char>
    decreases s.len(),
{
    if s.len() == 0 {
        Seq::empty()
    } else {
        escaped_text(s.drop_last()) + escaped(s.last())
    }
}

/// `s` as a JSON string: between quotes, its characters escaped.
pub open spec fn json_string(s: Seq<char>) -> Seq<char> {
    seq!['"'] + escaped_text(s) + seq!['"']
}

/// `serde_json::to_string` on a string slice: the JSON string for `s`. The
/// contract claims two things. The call succeeds: `serde_json` names a
/// `Serialize` impl that fails and a map with keys that are no strings as the
/// causes of an error, and a string slice is neither; its string serialiser
/// fails only where its writer does, and `to_string` writes to a vector in
/// memory. And the text is what `serde_json` writes for a string: a quote,
/// the characters with the escapes of its table, and a quote.
#[verifier::external_body]
fn json_quote(s: &str) -> (r: Result<String, serde_json::Error>)
    ensures
        r is Ok,
        r matches Ok(text) ==> text@ == json_string(s@),
{
    serde_json::to_string(s)
}

/// The line of a record.
pub open spec fn record_text(entry: EntryText) -> Seq<char> {
    "{\"timestamp\":"@ + signed_decimal(entry.timestamp) + ",\"prompt\":"@ + json_string(
        entry.prompt,
    ) + ",\"command\":"@ + json_string(entry.command) + "}"@
}

/// The object of a record around its timestamp and its two texts, which are
/// JSON strings already.
pub fn frame_record(timestamp: i64, prompt: &str, command: &str) -> (r: String)
    ensures
        r@ == "{\"timestamp\":"@ + signed_decimal(timestamp as int) + ",\"prompt\":"@ + prompt@
            + ",\"command\":"@ + command@ + "}"@,
{
    let mut out = String::from_str("{\"timestamp\":");
    out.append(signed_decimal_string(timestamp).as_str());
    out.append(",\"prompt\":");
    out.append(prompt);
    out.append(",\"command\":");
    out.append(command);
    out.append("}");
    out
}

/// Writes the line of `entry`. Every entry has a line: the result is `Ok`
/// for every input.
pub fn record_line(entry: &HistoryEntry) -> (r: Result<String, RecordError>)
    ensures
        r matches Ok(line) && line@ == record_text(entry@) && one_line(line@),
{
    let prompt = match json_quote(entry.prompt.as_str()) {
        Ok(text) => text,
        Err(_) => {
            return Err(RecordError::Encode);
        },
    };
    let command = match json_quote(entry.command.as_str()) {
        Ok(text) => text,
        Err(_) => {
            return Err(RecordError::Encode);
        },
    };
    proof {
        lemma_record_is_one_line(entry@);
    }
    Ok(frame_record(entry.timestamp, prompt.as_str(), command.as_str()))
}

/// A JSON string holds neither a newline nor a carriage return.
pub proof fn lemma_json_string_is_plain(s: Seq<char>)
    ensures
        forall|i: int|
            0 <= i < json_string(s).len() ==> #[trigger] json_string(s)[i] != '\n' && json_string(
                s,
            )[i] != '\r',
{
    lemma_escaped_text_is_plain(s);
}

proof fn lemma_escaped_text_is_plain(s: Seq<char>)
    ensures
        forall|i: int|
            0 <= i < escaped_text(s).len() ==> #[trigger] escaped_text(s)[i] != '\n'
                && escaped_text(s)[i] != '\r',
    decreases s.len(),
{
    if s.len() > 0 {
        lemma_escaped_text_is_plain(s.drop_last());
        let head = escaped_text(s.drop_last());
        let tail = escaped(s.last());
        assert forall|i: int| 0 <= i < escaped_text(s).len() implies #[trigger] escaped_text(s)[i]
            != '\n' && escaped_text(s)[i] != '\r' by {
            if i < head.len() {
                assert(escaped_text(s)[i] == head[i]);
            } else {
                assert(escaped_text(s)[i] == tail[i - head.len()]);
            }
        }
    }
}

/// The line of a record is one line: it holds no newline, and it ends with
/// a brace. What is written to the log can be read back as it is.
pub proof fn lemma_record_is_one_line(entry: EntryText)
    ensures
        one_line(record_text(entry)),
        record_text(entry).len() > 0,
        record_text(entry).last() == '}',
{
    reveal_strlit("{\"timestamp\":");
    reveal_strlit(",\"prompt\":");
    reveal_strlit(",\"command\":");
    reveal_strlit("}");
    lemma_json_string_is_plain(entry.prompt);
    lemma_json_string_is_plain(entry.command);
    if entry.timestamp < 0 {
        lemma_decimal_is_digits((-entry.timestamp) as nat);
    } else {
        lemma_decimal_is_digits(entry.timestamp as nat);
    }
    let a = "{\"timestamp\":"@;
    let b = signed_decimal(entry.timestamp);
    let c = ",\"prompt\":"@;
    let d = json_string(entry.prompt);
    let e = ",\"command\":"@;
    let f = json_string(entry.command);
    let g = "}"@;
    let line = record_text(entry);
    assert(line == a + b + c + d + e + f + g);
    assert forall|i: int| 0 <= i < line.len() implies line[i] != '\n' by {
        if i < a.len() {
            assert(line[i] == a[i]);
        } else if i < a.len() + b.len() {
            assert(line[i] == b[i - a.len()]);
        } else if i < a.len() + b.len() + c.len() {
            assert(line[i] == c[i - a.len() - b.len()]);
        } else if i < a.len() + b.len() + c.len() + d.len() {
            assert(line[i] == d[i - a.len() - b.len() - c.len()]);
        } else if i < a.len() + b.len() + c.len() + d.len() + e.len() {
            assert(line[i] == e[i - a.len() - b.len() - c.len() - d.len()]);
        } else if i < a.len() + b.len() + c.len() + d.len() + e.len() + f.len() {
            assert(line[i] == f[i - a.len() - b.len() - c.len() - d.len() - e.len()]);
        } else {
            assert(line[i] == g[i - a.len() - b.len() - c.len() - d.len() - e.len() - f.len()]);
        }
    }
    assert(line.last() == g[0]);
}

} // verus!
