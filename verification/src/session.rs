//! What a session remembers and how it reads the operator: the rolling
//! conversational window, the prompts composed from it, and the
//! classification of inputs, answers and edit instructions.

use crate::text::{chars_of, contains, find_chars, matches_at, same_text, starts_with};
use vstd::prelude::*;

verus! {

/// How many turns the conversational window holds.
pub const WINDOW_CAPACITY: usize = 3;

/// One finished turn: what the operator asked for and the command it ended in.
#[derive(Debug, PartialEq, Eq)]
pub struct Turn {
    pub user: String,
    pub command: String,
}

/// The characters of a `Turn`.
pub struct TurnText {
    pub user: Seq<char>,
    pub command: Seq<char>,
}

impl View for Turn {
    type V = TurnText;

    open spec fn view(&self) -> TurnText {
        TurnText { user: self.user@, command: self.command@ }
    }
}

/// The window after `turn` was added to `window`: the newest
/// `WINDOW_CAPACITY` turns, oldest first.
pub open spec fn pushed(window: Seq<TurnText>, turn: TurnText) -> Seq<TurnText> {
    let all = window.push(turn);
    if all.len() > WINDOW_CAPACITY {
        all.skip(all.len() - WINDOW_CAPACITY)
    } else {
        all
    }
}

/// One turn as the transcript shows it.
pub open spec fn turn_text(turn: TurnText) -> Seq<char> {
    "User: "@ + turn.user + "\nAssistant: "@ + turn.command
}

/// The turns of `window` as text, one after the other, parted by a newline.
pub open spec fn transcript(window: Seq<TurnText>) -> Seq<char>
    decreases window.len(),
{
    if window.len() == 0 {
        Seq::empty()
    } else if window.len() == 1 {
        turn_text(window[0])
    } else {
        transcript(window.drop_last()) + "\n"@ + turn_text(window.last())
    }
}

/// The prompt sent to the model for `input`: the input itself while the
/// window is empty, else the transcript of the window followed by the input.
pub open spec fn composed_prompt(window: Seq<TurnText>, input: Seq<char>) -> Seq<char> {
    if window.len() == 0 {
        input
    } else {
        "Previous conversation:\n"@ + transcript(window) + "\n\nNew request: "@ + input
    }
}

/// The short-term context of a session: its most recent turns, oldest first,
/// never more than `WINDOW_CAPACITY` of them.
#[derive(Debug, PartialEq, Eq)]
pub struct ConversationWindow {
    turns: Vec<Turn>,
}

impl View for ConversationWindow {
    type V = Seq<TurnText>;

    closed spec fn view(&self) -> Seq<TurnText> {
        self.turns@.map_values(|t: Turn| t@)
    }
}

impl ConversationWindow {
    #[verifier::type_invariant]
    spec fn bounded(self) -> bool {
        self.turns@.len() <= WINDOW_CAPACITY
    }

    /// An empty window.
    pub fn new() -> (w: ConversationWindow)
        ensures
            w@.len() == 0,
    {
        ConversationWindow { turns: Vec::new() }
    }

    /// The number of turns held.
    pub fn len(&self) -> (n: usize)
        ensures
            n == self@.len(),
            n <= WINDOW_CAPACITY,
    {
        proof {
            use_type_invariant(self);
        }
        self.turns.len()
    }

    /// The turn at `index`, counted from the oldest.
    pub fn get(&self, index: usize) -> (t: Option<&Turn>)
        ensures
            match t {
                Some(turn) => index < self@.len() && turn@ == self@[index as int],
                None => index >= self@.len(),
            },
    {
        if index < self.turns.len() {
            Some(&self.turns[index])
        } else {
            None
        }
    }

    /// The window with one more turn, the oldest one let go where the window
    /// was full.
    pub fn push(self, user: String, command: String) -> (w: ConversationWindow)
        ensures
            w@ == pushed(self@, TurnText { user: user@, command: command@ }),
            w@.len() <= WINDOW_CAPACITY,
    {
        proof {
            use_type_invariant(&self);
        }
        let ghost before = self@;
        let mut turns = self.turns;
        turns.push(Turn { user, command });
        assert(turns@.map_values(|t: Turn| t@) =~= before.push(
            TurnText { user: user@, command: command@ },
        ));
        if turns.len() > WINDOW_CAPACITY {
            let ghost full = turns@.map_values(|t: Turn| t@);
            turns.remove(0);
            assert(turns@.map_values(|t: Turn| t@) =~= full.skip(1));
        }
        ConversationWindow { turns }
    }

    /// The turns as text, one after the other, parted by a newline.
    pub fn transcript(&self) -> (r: String)
        ensures
            r@ == transcript(self@),
    {
        let mut out = String::new();
        let mut i: usize = 0;
        assert(self@.take(0) =~= Seq::<TurnText>::empty());
        while i < self.turns.len()
            invariant
                i <= self.turns.len(),
                self@.len() == self.turns.len(),
                out@ == transcript(self@.take(i as int)),
            decreases self.turns.len() - i,
        {
            let ghost head = self@.take(i + 1);
            assert(head.drop_last() =~= self@.take(i as int));
            assert(head.last() == self.turns@[i as int]@);
            if i > 0 {
                out.append("\n");
            }
            out.append("User: ");
            out.append(self.turns[i].user.as_str());
            out.append("\nAssistant: ");
            out.append(self.turns[i].command.as_str());
            assert(out@ =~= transcript(head)) by {
                let t = head.last();
                if i > 0 {
                    assert(out@ =~= transcript(head.drop_last()) + "\n"@ + ("User: "@ + t.user
                        + "\nAssistant: "@ + t.command));
                } else {
                    assert(out@ =~= "User: "@ + t.user + "\nAssistant: "@ + t.command);
                }
            }
            i += 1;
        }
        assert(self@.take(i as int) =~= self@);
        out
    }

    /// The prompt sent to the model for `input`.
    pub fn compose(&self, input: &str) -> (r: String)
        ensures
            r@ == composed_prompt(self@, input@),
    {
        if self.turns.len() == 0 {
            String::from_str(input)
        } else {
            let mut out = String::from_str("Previous conversation:\n");
            out.append(self.transcript().as_str());
            out.append("\n\nNew request: ");
            out.append(input);
            out
        }
    }
}

/// Whether an edit instruction reads as a command to take as it is: it holds
/// a pipe, `&&` or `;`, or begins with the name of a common command.
pub open spec fn looks_like_command(edit: Seq<char>) -> bool {
    ||| contains(edit, "|"@)
    ||| contains(edit, "&&"@)
    ||| contains(edit, ";"@)
    ||| starts_with(edit, "find"@)
    ||| starts_with(edit, "grep"@)
    ||| starts_with(edit, "ls"@)
    ||| starts_with(edit, "cat"@)
    ||| starts_with(edit, "curl"@)
    ||| starts_with(edit, "git"@)
    ||| starts_with(edit, "docker"@)
    ||| starts_with(edit, "kubectl"@)
}

fn holds(v: &[char], pat: &str) -> (r: bool)
    ensures
        r == contains(v@, pat@),
{
    let p = chars_of(pat);
    find_chars(v, p.as_slice()).is_some()
}

fn begins(v: &[char], pat: &str) -> (r: bool)
    ensures
        r == starts_with(v@, pat@),
{
    let p = chars_of(pat);
    matches_at(v, p.as_slice(), 0)
}

/// Decides whether an edit instruction is a direct replacement command
/// rather than a request in natural language.
pub fn is_direct_command(edit: &str) -> (r: bool)
    ensures
        r == looks_like_command(edit@),
{
    let chars = chars_of(edit);
    let v = chars.as_slice();
    holds(v, "|") || holds(v, "&&") || holds(v, ";") || begins(v, "find") || begins(v, "grep")
        || begins(v, "ls") || begins(v, "cat") || begins(v, "curl") || begins(v, "git") || begins(
        v,
        "docker",
    ) || begins(v, "kubectl")
}

/// The prompt that asks the model to change `current` as `instruction` says.
pub open spec fn edit_prompt_text(current: Seq<char>, instruction: Seq<char>) -> Seq<char> {
    "Current command: "@ + current + "\n\nUser wants to modify it: "@ + instruction
        + "\n\nGenerate the modified command. Output ONLY the new command, nothing else."@
}

/// Builds the prompt for a natural-language edit of `current`.
pub fn edit_prompt(current: &str, instruction: &str) -> (r: String)
    ensures
        r@ == edit_prompt_text(current@, instruction@),
{
    let mut out = String::from_str("Current command: ");
    out.append(current);
    out.append("\n\nUser wants to modify it: ");
    out.append(instruction);
    out.append("\n\nGenerate the modified command. Output ONLY the new command, nothing else.");
    out
}

/// What a line entered at the main prompt asks for.
#[derive(Clone, Copy, Debug, PartialEq, Eq)]
pub enum InputKind {
    Exit,
    Clear,
    Help,
    Request,
}

/// What the lowercase form of a line entered at the main prompt asks for.
pub open spec fn input_kind(lowered: Seq<char>) -> InputKind {
    if lowered == "exit"@ || lowered == "quit"@ {
        InputKind::Exit
    } else if lowered == "clear"@ {
        InputKind::Clear
    } else if lowered == "help"@ {
        InputKind::Help
    } else {
        InputKind::Request
    }
}

/// Tells the control tokens `exit`, `quit`, `clear` and `help` from a request.
/// `lowered` is the input in lowercase.
pub fn classify_input(lowered: &str) -> (kind: InputKind)
    ensures
        kind == input_kind(lowered@),
{
    if same_text(lowered, "exit") || same_text(lowered, "quit") {
        InputKind::Exit
    } else if same_text(lowered, "clear") {
        InputKind::Clear
    } else if same_text(lowered, "help") {
        InputKind::Help
    } else {
        InputKind::Request
    }
}

/// What the operator answered when asked whether to run the command.
#[derive(Clone, Copy, Debug, PartialEq, Eq)]
pub enum Decision {
    Run,
    Skip,
    Edit,
    Invalid,
}

/// What the lowercase form of an answer at the confirm prompt decides.
pub open spec fn decision(lowered: Seq<char>) -> Decision {
    if lowered == "y"@ || lowered == "yes"@ {
        Decision::Run
    } else if lowered == "n"@ || lowered == "no"@ || lowered == ""@ {
        Decision::Skip
    } else if lowered == "e"@ || lowered == "edit"@ {
        Decision::Edit
    } else {
        Decision::Invalid
    }
}

/// Reads an answer at the confirm prompt. `lowered` is the answer in
/// lowercase.
pub fn classify_choice(lowered: &str) -> (d: Decision)
    ensures
        d == decision(lowered@),
{
    if same_text(lowered, "y") || same_text(lowered, "yes") {
        Decision::Run
    } else if same_text(lowered, "n") || same_text(lowered, "no") || same_text(lowered, "") {
        Decision::Skip
    } else if same_text(lowered, "e") || same_text(lowered, "edit") {
        Decision::Edit
    } else {
        Decision::Invalid
    }
}

/// A window within its capacity stays within it when a turn is added, and
/// the turn added is its newest.
pub proof fn lemma_push_keeps_bound(window: Seq<TurnText>, turn: TurnText)
    requires
        window.len() <= WINDOW_CAPACITY,
    ensures
        pushed(window, turn).len() <= WINDOW_CAPACITY,
        pushed(window, turn).len() > 0,
        pushed(window, turn).last() == turn,
{
}

/// After four turns were added, the window holds the last three of them: the
/// first of the four, and whatever the window held before, has left it and
/// has no part in any prompt composed from then on.
pub proof fn lemma_fourth_push_evicts_first(
    window: Seq<TurnText>,
    first: TurnText,
    second: TurnText,
    third: TurnText,
    fourth: TurnText,
    input: Seq<char>,
)
    requires
        window.len() <= WINDOW_CAPACITY,
    ensures
        pushed(pushed(pushed(pushed(window, first), second), third), fourth) == seq![
            second,
            third,
            fourth,
        ],
        composed_prompt(
            pushed(pushed(pushed(pushed(window, first), second), third), fourth),
            input,
        ) == composed_prompt(seq![second, third, fourth], input),
{
    let a = pushed(window, first);
    let b = pushed(a, second);
    let c = pushed(b, third);
    let d = pushed(c, fourth);
    assert(d =~= seq![second, third, fourth]);
}

} // verus!
