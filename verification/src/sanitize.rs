//! Cleaning of model output: terminal escape sequences, the explanation
//! separator and markdown code fences.

use crate::text::{
    char_is_ascii_letter, chars_of, contains, ends_with, find, find_chars, is_ascii_letter,
    lemma_find_first, lemma_trim_idempotent, occurs_at, starts_with, string_of, strip_prefixes,
    strip_prefixes_chars, strip_suffixes, strip_suffixes_chars, trim, trim_chars,
};
use vstd::prelude::*;

verus! {

/// The escape character that opens a terminal control sequence.
pub const ESCAPE: char = '\u{1b}';

/// The token that parts a command from its explanation.
pub const SEPARATOR: &'static str = "###";

/// A code fence, bare.
pub const FENCE: &'static str = "```";

/// A code fence tagged `bash`.
pub const FENCE_BASH: &'static str = "```bash";

/// A code fence tagged `sh`.
pub const FENCE_SH: &'static str = "```sh";

/// What is left of `s` once its escape sequences are gone. With `inside`
/// set, `s` begins in the middle of a sequence, which runs up to and
/// including its first ASCII letter (or to the end of `s`).
///
/// Outside a sequence an escape character is always dropped; followed by `[`
/// it opens a sequence.
pub open spec fn strip_from(s: Seq<char>, inside: bool) -> Seq<char>
    decreases s.len(),
{
    if s.len() == 0 {
        s
    } else if inside {
        strip_from(s.skip(1), !is_ascii_letter(s[0]))
    } else if s[0] != ESCAPE {
        seq![s[0]] + strip_from(s.skip(1), false)
    } else if s.len() >= 2 && s[1] == '[' {
        strip_from(s.skip(2), true)
    } else {
        strip_from(s.skip(1), false)
    }
}

/// `s` without its escape sequences.
pub open spec fn strip_ansi(s: Seq<char>) -> Seq<char> {
    strip_from(s, false)
}

/// Whether the escape character occurs nowhere in `s`.
pub open spec fn escape_free(s: Seq<char>) -> bool {
    forall|i: int| 0 <= i < s.len() ==> s[i] != ESCAPE
}

/// Stripping leaves no escape character behind.
pub proof fn lemma_strip_is_escape_free(s: Seq<char>, inside: bool)
    ensures
        escape_free(strip_from(s, inside)),
    decreases s.len(),
{
    if s.len() == 0 {
    } else if inside {
        lemma_strip_is_escape_free(s.skip(1), !is_ascii_letter(s[0]));
    } else if s[0] != ESCAPE {
        lemma_strip_is_escape_free(s.skip(1), false);
    } else if s.len() >= 2 && s[1] == '[' {
        lemma_strip_is_escape_free(s.skip(2), true);
    } else {
        lemma_strip_is_escape_free(s.skip(1), false);
    }
}

/// Text without an escape character is left as it is.
pub proof fn lemma_strip_keeps_escape_free(s: Seq<char>)
    requires
        escape_free(s),
    ensures
        strip_ansi(s) == s,
    decreases s.len(),
{
    if s.len() > 0 {
        lemma_strip_keeps_escape_free(s.skip(1));
        assert(seq![s[0]] + s.skip(1) =~= s);
    }
}

/// Stripping twice gives what stripping once gives.
pub proof fn lemma_strip_ansi_idempotent(s: Seq<char>)
    ensures
        strip_ansi(strip_ansi(s)) == strip_ansi(s),
{
    lemma_strip_is_escape_free(s, false);
    lemma_strip_keeps_escape_free(strip_ansi(s));
}

/// Removes the terminal escape sequences from `text`.
pub fn strip_ansi_codes(text: &str) -> (r: String)
    ensures
        r@ == strip_ansi(text@),
{
    let v = chars_of(text);
    let mut out = String::new();
    let mut inside = false;
    let mut i: usize = 0;
    assert(v@.skip(0) =~= v@);
    while i < v.len()
        invariant
            i <= v.len(),
            v@ == text@,
            strip_ansi(text@) == out@ + strip_from(v@.skip(i as int), inside),
        decreases v.len() - i,
    {
        let c = v[i];
        let ghost rest = v@.skip(i as int);
        assert(rest.skip(1) =~= v@.skip(i + 1));
        if inside {
            inside = !char_is_ascii_letter(c);
            i += 1;
        } else if c != ESCAPE {
            assert(out@.push(c) + strip_from(rest.skip(1), false) =~= out@ + (seq![c] + strip_from(
                rest.skip(1),
                false,
            )));
            out.push(c);
            i += 1;
        } else if i + 1 < v.len() && v[i + 1] == '[' {
            assert(rest.skip(2) =~= v@.skip(i + 2));
            inside = true;
            i += 2;
        } else {
            i += 1;
        }
    }
    assert(out@ + strip_from(v@.skip(i as int), inside) =~= out@);
    out
}

/// A command and, where the model gave one, its explanation.
#[derive(Debug, PartialEq, Eq)]
pub struct CommandResult {
    pub command: String,
    pub explanation: Option<String>,
}

/// The characters of a `CommandResult`.
pub struct CommandText {
    pub command: Seq<char>,
    pub explanation: Option<Seq<char>>,
}

impl View for CommandResult {
    type V = CommandText;

    open spec fn view(&self) -> CommandText {
        CommandText {
            command: self.command@,
            explanation: match self.explanation {
                Some(e) => Some(e@),
                None => None,
            },
        }
    }
}

/// The parts of `s` before and behind the first occurrence of `pat`.
pub open spec fn split_once(s: Seq<char>, pat: Seq<char>) -> Option<(Seq<char>, Seq<char>)> {
    match find(s, pat) {
        Some(i) => Some((s.take(i), s.skip(i + pat.len()))),
        None => None,
    }
}

/// The command and the explanation that `text` holds: split at the first
/// separator, each side trimmed; without a separator, the whole text trimmed
/// and no explanation.
pub open spec fn parse(text: Seq<char>) -> CommandText {
    match split_once(text, SEPARATOR@) {
        Some((command, explanation)) => CommandText {
            command: trim(command),
            explanation: Some(trim(explanation)),
        },
        None => CommandText { command: trim(text), explanation: None },
    }
}

/// With a separator in `text`, the command is what stands before its first
/// occurrence and the explanation is what stands behind it, both trimmed;
/// without one, the command is the trimmed text and there is no explanation.
pub proof fn lemma_parse_splits_at_first_separator(text: Seq<char>)
    ensures
        contains(text, SEPARATOR@) ==> exists|i: int|
            {
                &&& #[trigger] occurs_at(text, SEPARATOR@, i)
                &&& forall|j: int| j < i ==> !occurs_at(text, SEPARATOR@, j)
                &&& parse(text).command == trim(text.take(i))
                &&& parse(text).explanation == Some(trim(text.skip(i + SEPARATOR@.len())))
            },
        !contains(text, SEPARATOR@) ==> {
            &&& forall|j: int| !occurs_at(text, SEPARATOR@, j)
            &&& parse(text).command == trim(text)
            &&& parse(text).explanation is None
        },
{
    lemma_find_first(text, SEPARATOR@);
}

/// Splits model output into the command and its explanation.
pub fn parse_output(text: &str) -> (r: CommandResult)
    ensures
        r@ == parse(text@),
{
    let v = chars_of(text);
    let sep = chars_of(SEPARATOR);
    match find_chars(v.as_slice(), sep.as_slice()) {
        Some(i) => {
            let head = &v.as_slice()[0..i];
            let tail = &v.as_slice()[i + sep.len()..v.len()];
            assert(head@ =~= text@.take(i as int));
            assert(tail@ =~= text@.skip(i + SEPARATOR@.len()));
            CommandResult {
                command: string_of(trim_chars(head)),
                explanation: Some(string_of(trim_chars(tail))),
            }
        },
        None => CommandResult { command: string_of(trim_chars(v.as_slice())), explanation: None },
    }
}

/// `s` trimmed, freed of the fence markers at its start (tagged `bash`, then
/// tagged `sh`, then bare) and of the bare ones at its end, and trimmed again.
pub open spec fn strip_fences(s: Seq<char>) -> Seq<char> {
    trim(
        strip_suffixes(
            strip_prefixes(
                strip_prefixes(strip_prefixes(trim(s), FENCE_BASH@), FENCE_SH@),
                FENCE@,
            ),
            FENCE@,
        ),
    )
}

/// Takes the markdown code-fence markers off a command.
pub fn strip_code_fences(command: &str) -> (r: String)
    ensures
        r@ == strip_fences(command@),
{
    let v = chars_of(command);
    let bash = chars_of(FENCE_BASH);
    let sh = chars_of(FENCE_SH);
    let bare = chars_of(FENCE);
    let a = trim_chars(v.as_slice());
    let b = strip_prefixes_chars(a, bash.as_slice());
    let c = strip_prefixes_chars(b, sh.as_slice());
    let d = strip_prefixes_chars(c, bare.as_slice());
    let e = strip_suffixes_chars(d, bare.as_slice());
    string_of(trim_chars(e))
}

/// What `sanitize` makes of `raw`: the parsed command without its code
/// fences, and the parsed explanation.
pub open spec fn sanitized(raw: Seq<char>) -> CommandText {
    CommandText { command: strip_fences(parse(raw).command), explanation: parse(raw).explanation }
}

/// A command that neither begins nor ends with a code fence comes out of
/// `strip_fences` trimmed and otherwise as it was.
pub proof fn lemma_unfenced_is_trimmed(command: Seq<char>)
    requires
        !starts_with(trim(command), FENCE@),
        !ends_with(trim(command), FENCE@),
    ensures
        strip_fences(command) == trim(command),
{
    reveal_strlit("```");
    reveal_strlit("```bash");
    reveal_strlit("```sh");
    let t = trim(command);
    if starts_with(t, FENCE_BASH@) {
        assert(t.subrange(0, 3) =~= t.subrange(0, 7).subrange(0, 3));
        assert(FENCE_BASH@.subrange(0, 3) =~= FENCE@);
    }
    if starts_with(t, FENCE_SH@) {
        assert(t.subrange(0, 3) =~= t.subrange(0, 5).subrange(0, 3));
        assert(FENCE_SH@.subrange(0, 3) =~= FENCE@);
    }
    lemma_trim_idempotent(command);
}

/// For output whose command side is free of code fences, `sanitize` gives
/// what `parse_output` gives: the text before the first separator and the
/// text behind it, both trimmed, or the trimmed text and no explanation.
pub proof fn lemma_sanitized_unfenced(raw: Seq<char>)
    requires
        !starts_with(parse(raw).command, FENCE@),
        !ends_with(parse(raw).command, FENCE@),
    ensures
        sanitized(raw) == parse(raw),
{
    let side = match split_once(raw, SEPARATOR@) {
        Some((command, explanation)) => command,
        None => raw,
    };
    assert(parse(raw).command == trim(side));
    lemma_trim_idempotent(side);
    lemma_unfenced_is_trimmed(trim(side));
}

/// Splits model output into command and explanation, and takes the code
/// fences off the command.
pub fn sanitize(raw: &str) -> (r: CommandResult)
    ensures
        r@ == sanitized(raw@),
{
    let parsed = parse_output(raw);
    let command = strip_code_fences(parsed.command.as_str());
    CommandResult { command, explanation: parsed.explanation }
}

} // verus!
