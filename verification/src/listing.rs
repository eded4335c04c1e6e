//! What a listing of the history shows: the most recent entries, numbered by
//! their place in the log, each with its time and with its command cut to
//! the width of a line.

use crate::clock::{format_utc, unix_now, utc_text, MINUTE_PATTERN};
use crate::history::{entry_texts, newest, recent, EntryText, HistoryEntry};
use vstd::prelude::*;
use vstd::string::StringSliceAdditionalSpecFns;
use vstd::utf8::{
    decode_utf8, encode_utf8, encode_utf8_decode_utf8, encode_utf8_valid_utf8, is_ascii_chars,
    is_ascii_chars_encode_utf8, is_char_boundary, is_char_boundary_iff_is_leading_byte,
    is_char_boundary_start_end_of_seq,
};

verus! {

/// How many entries a listing shows.
pub const LISTED: usize = 20;

/// The most bytes of a command that a listing shows uncut.
pub const COMMAND_WIDTH: usize = 80;

/// The most bytes that a listing shows of a command that it cuts.
pub const CUT_WIDTH: usize = 77;

/// The greatest character boundary of `bytes` that is not above `at`.
pub open spec fn floor_boundary(bytes: Seq<u8>, at: int) -> int
    decreases at,
{
    if at <= 0 {
        0
    } else if is_char_boundary(bytes, at) {
        at
    } else {
        floor_boundary(bytes, at - 1)
    }
}

/// A command as a listing shows it: as it is while its UTF-8 form has no
/// more than `COMMAND_WIDTH` bytes; else the characters that lie within its
/// first `CUT_WIDTH` bytes, followed by three dots.
pub open spec fn cut_command(command: Seq<char>) -> Seq<char> {
    let bytes = encode_utf8(command);
    if bytes.len() > COMMAND_WIDTH {
        decode_utf8(bytes.subrange(0, floor_boundary(bytes, CUT_WIDTH as int))) + "..."@
    } else {
        command
    }
}

/// Whether a listing cuts the command.
pub open spec fn is_cut(command: Seq<char>) -> bool {
    encode_utf8(command).len() > COMMAND_WIDTH
}

/// A command of ASCII characters is cut by their number: one of more than
/// `COMMAND_WIDTH` characters is shown as its first `CUT_WIDTH` characters and
/// three dots, a shorter one as it is.
pub proof fn lemma_cut_ascii_command(command: Seq<char>)
    requires
        is_ascii_chars(command),
    ensures
        cut_command(command) == if command.len() > COMMAND_WIDTH {
            command.take(CUT_WIDTH as int) + "..."@
        } else {
            command
        },
{
    is_ascii_chars_encode_utf8(command);
    if command.len() > COMMAND_WIDTH {
        let bytes = encode_utf8(command);
        let head = command.take(CUT_WIDTH as int);
        encode_utf8_valid_utf8(command);
        is_char_boundary_iff_is_leading_byte(bytes, CUT_WIDTH as int);
        assert(command[CUT_WIDTH as int] as u8 == bytes[CUT_WIDTH as int]);
        assert(is_char_boundary(bytes, CUT_WIDTH as int));
        assert(is_ascii_chars(head));
        is_ascii_chars_encode_utf8(head);
        assert(encode_utf8(head) =~= bytes.subrange(0, CUT_WIDTH as int)) by {
            assert forall|i: int| 0 <= i < CUT_WIDTH implies encode_utf8(head)[i] == bytes[i] by {
                assert(head[i] as u8 == encode_utf8(head)[i]);
                assert(command[i] as u8 == bytes[i]);
            }
        }
        encode_utf8_decode_utf8(head);
    }
}

/// The command as a listing shows it.
pub fn shown_command(command: &str) -> (r: String)
    ensures
        r@ == cut_command(command@),
{
    if command.as_bytes().len() > COMMAND_WIDTH {
        let ghost bytes = command.spec_bytes();
        proof {
            encode_utf8_valid_utf8(command@);
            is_char_boundary_start_end_of_seq(bytes);
        }
        let mut cut: usize = CUT_WIDTH;
        while cut > 0 && !command.is_char_boundary(cut)
            invariant
                cut <= CUT_WIDTH,
                bytes == command.spec_bytes(),
                floor_boundary(bytes, CUT_WIDTH as int) == floor_boundary(bytes, cut as int),
            decreases cut,
        {
            cut -= 1;
        }
        assert(floor_boundary(bytes, cut as int) == cut);
        let (head, _tail) = command.split_at(cut);
        proof {
            encode_utf8_decode_utf8(head@);
            assert(head.spec_bytes() == bytes.subrange(0, cut as int));
        }
        let mut out = String::from_str(head);
        out.append("...");
        out
    } else {
        String::from_str(command)
    }
}

/// The time of an entry as a listing shows it. A time too far from the epoch
/// to be written is replaced by the time of the listing.
pub fn shown_time(timestamp: i64) -> (r: String)
    ensures
        utc_text(timestamp as int, MINUTE_PATTERN@) matches Some(text) ==> r@ == text,
{
    match format_utc(timestamp, MINUTE_PATTERN) {
        Some(text) => text,
        None => match format_utc(unix_now(), MINUTE_PATTERN) {
            Some(text) => text,
            None => String::new(),
        },
    }
}

/// One entry of a listing.
#[derive(Debug, PartialEq, Eq)]
pub struct Row {
    /// The place of the entry in the log, counted from 1.
    pub number: usize,
    /// When the entry was written.
    pub time: String,
    pub prompt: String,
    /// The command, cut where it is long.
    pub command: String,
    /// The whole command, where the listing cut it.
    pub full: Option<String>,
}

/// The most recent entries of a log, ready to be shown.
#[derive(Debug, PartialEq, Eq)]
pub struct Listing {
    /// The entries shown, oldest first.
    pub rows: Vec<Row>,
    /// How many entries the log holds.
    pub total: usize,
}

/// Whether `row` shows `entry` as the entry number `number` of the log.
pub open spec fn shows(row: Row, entry: EntryText, number: int) -> bool {
    &&& row.number == number
    &&& row.prompt@ == entry.prompt
    &&& row.command@ == cut_command(entry.command)
    &&& match row.full {
        Some(full) => is_cut(entry.command) && full@ == entry.command,
        None => !is_cut(entry.command),
    }
    &&& utc_text(entry.timestamp, MINUTE_PATTERN@) matches Some(text) ==> row.time@ == text
}

/// How many entries a listing of a log of `total` entries shows.
pub open spec fn shown_count(total: int) -> int {
    if total > LISTED {
        LISTED as int
    } else {
        total
    }
}

/// The listing of a log: its last `LISTED` entries, oldest first, each under
/// the number of its place in the log.
pub fn show_history(entries: Vec<HistoryEntry>) -> (l: Listing)
    ensures
        l.total == entries@.len(),
        l.rows@.len() == shown_count(entries@.len() as int),
        forall|i: int|
            0 <= i < l.rows@.len() ==> shows(
                #[trigger] l.rows@[i],
                entries@[entries@.len() - l.rows@.len() + i]@,
                entries@.len() - l.rows@.len() + i + 1,
            ),
{
    let total = entries.len();
    let ghost all = entry_texts(entries@);
    let shown = recent(entries, LISTED);
    assert(entry_texts(shown@).len() == shown@.len());
    let first = total - shown.len();
    let mut rows: Vec<Row> = Vec::new();
    let mut i: usize = 0;
    while i < shown.len()
        invariant
            i <= shown.len(),
            shown@.len() == shown_count(total as int),
            first == total - shown.len(),
            all.len() == total,
            entry_texts(shown@) == newest(all, LISTED as int),
            rows@.len() == i,
            forall|j: int| 0 <= j < i ==> shows(#[trigger] rows@[j], all[first + j], first + j + 1),
        decreases shown.len() - i,
    {
        let entry = &shown[i];
        assert(entry@ == entry_texts(shown@)[i as int]);
        assert(entry@ == all[first + i]);
        let full = if entry.command.as_str().as_bytes().len() > COMMAND_WIDTH {
            Some(entry.command.clone())
        } else {
            None
        };
        let row = Row {
            number: first + i + 1,
            time: shown_time(entry.timestamp),
            prompt: entry.prompt.clone(),
            command: shown_command(entry.command.as_str()),
            full,
        };
        rows.push(row);
        i += 1;
    }
    assert forall|j: int| 0 <= j < rows@.len() implies shows(
        #[trigger] rows@[j],
        entries@[entries@.len() - rows@.len() + j]@,
        entries@.len() - rows@.len() + j + 1,
    ) by {
        assert(all[first + j] == entries@[first + j]@);
    }
    Listing { rows, total }
}

} // verus!
