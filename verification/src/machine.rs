//! The session state machine. `Session::step` takes the session and the event
//! that the surrounding program observed, and gives back the next session and
//! the effect that the program has to carry out. The machine itself reads
//! nothing and runs nothing.
//!
//! A turn goes from `Idle` over `AwaitingModel` to `Presenting`, where the
//! operator confirms, skips or edits. An edit leads over `Editing` (and, where
//! the model is asked, `Revising`) back to `Presenting`, as often as the
//! operator likes. A confirmed command waits in `Confirmed` until it has run.
//! Skipping and committing take no event of their own: the step that ends a
//! turn adds the pair to the window, returns to `Idle` and hands out the
//! effect `Commit`, which says how the turn ended.
//!
//! The types of this module carry texts of type `T`: `String` in running code
//! and `Seq<char>` in specifications, so that a value and its view have the
//! same shape.

use crate::provider::ApiError;
use crate::sanitize::{sanitize, sanitized};
use crate::session::{
    classify_choice, classify_input, composed_prompt, decision, edit_prompt, edit_prompt_text,
    input_kind, is_direct_command, looks_like_command, pushed, ConversationWindow, Decision,
    InputKind, TurnText, WINDOW_CAPACITY,
};
use crate::text::{lowercase, to_lowercase, trim, trimmed};
use vstd::prelude::*;

verus! {

/// Where a session stands.
#[derive(Debug, PartialEq, Eq)]
pub enum Phase<T> {
    /// Waiting for a line at the main prompt.
    Idle,
    /// Waiting for the model's answer to `prompt`, composed for `input`.
    AwaitingModel { input: T, prompt: T },
    /// `pending` is on offer; waiting for the operator's answer.
    Presenting { input: T, pending: T },
    /// Waiting for the operator's edit instruction.
    Editing { input: T, pending: T },
    /// Waiting for the model's answer to `prompt`, which asks for `pending`
    /// changed as `instruction` says.
    Revising { input: T, pending: T, instruction: T, prompt: T },
    /// The operator said yes; waiting for `pending` to have run.
    Confirmed { input: T, pending: T },
    /// The session is over.
    Exited,
}

/// What the surrounding program observed.
#[derive(Debug, PartialEq, Eq)]
pub enum Event<T> {
    /// The operator entered a line.
    Line(T),
    /// An interrupt arrived while a line was read.
    Interrupted,
    /// The input ended.
    EndOfInput,
    /// Reading a line failed otherwise.
    ReadFailed(T),
    /// The provider returned this text.
    Generated(T),
    /// The provider call failed.
    GenerationFailed(ApiError<T>),
    /// The command has run, whatever its exit status.
    Executed,
    /// The command could not be started.
    ExecutionFailed(T),
}

/// How a committed turn ended.
#[derive(Clone, Copy, Debug, PartialEq, Eq)]
pub enum Outcome {
    /// The command was run.
    Executed,
    /// The operator declined to run it.
    Skipped,
    /// Reading the operator's answer failed.
    Abandoned,
}

/// What the surrounding program has to carry out after a step.
#[derive(Debug, PartialEq, Eq)]
pub enum Effect<T> {
    /// Nothing.
    Silent,
    /// Say goodbye.
    Farewell,
    /// Clear the screen.
    ClearScreen,
    /// Show the help text.
    ShowHelp,
    /// Tell the operator that an interrupt does not end the session.
    InterruptNotice,
    /// Report that reading failed.
    ReadError(T),
    /// A request for `input` goes to the model.
    Generating { input: T },
    /// Show the command on offer and, where there is one, its explanation.
    Present { command: T, explanation: Option<T> },
    /// Report that the model call failed; the turn is over.
    ModelError(ApiError<T>),
    /// Tell the operator which answers the confirm prompt takes.
    InvalidChoice,
    /// The command is about to run.
    Executing { command: T },
    /// Tell the operator how to write an edit.
    EditTip,
    /// The edit was empty; the command stays.
    NoChanges,
    /// The edit was cancelled; the command stays.
    EditCancelled,
    /// An edit request goes to the model.
    ApplyingEdit,
    /// The model returned no command for the edit; the instruction itself is
    /// now on offer.
    EditFallback { command: T },
    /// The model call for the edit failed; the instruction itself is now on
    /// offer.
    EditFailed { error: ApiError<T>, command: T },
    /// Report that the command could not be started; the turn is over.
    ExecutionError(T),
    /// Append the pair to the history.
    Commit { prompt: T, command: T, outcome: Outcome },
}

/// What the surrounding program has to do to obtain the next event.
#[derive(Debug, PartialEq, Eq)]
pub enum Request<T> {
    /// Read a line at the main prompt.
    ReadInput,
    /// Read the answer to the confirm prompt.
    ReadChoice,
    /// Read an edit instruction for `current`.
    ReadEdit { current: T },
    /// Ask the model.
    Generate { prompt: T, explain: bool },
    /// Run the command.
    Execute { command: T },
    /// Leave the loop.
    Stop,
}

impl View for Phase<String> {
    type V = Phase<Seq<char>>;

    open spec fn view(&self) -> Phase<Seq<char>> {
        match *self {
            Phase::Idle => Phase::Idle,
            Phase::AwaitingModel { input, prompt } => Phase::AwaitingModel {
                input: input@,
                prompt: prompt@,
            },
            Phase::Presenting { input, pending } => Phase::Presenting {
                input: input@,
                pending: pending@,
            },
            Phase::Editing { input, pending } => Phase::Editing {
                input: input@,
                pending: pending@,
            },
            Phase::Revising { input, pending, instruction, prompt } => Phase::Revising {
                input: input@,
                pending: pending@,
                instruction: instruction@,
                prompt: prompt@,
            },
            Phase::Confirmed { input, pending } => Phase::Confirmed {
                input: input@,
                pending: pending@,
            },
            Phase::Exited => Phase::Exited,
        }
    }
}

impl View for Event<String> {
    type V = Event<Seq<char>>;

    open spec fn view(&self) -> Event<Seq<char>> {
        match *self {
            Event::Line(line) => Event::Line(line@),
            Event::Interrupted => Event::Interrupted,
            Event::EndOfInput => Event::EndOfInput,
            Event::ReadFailed(detail) => Event::ReadFailed(detail@),
            Event::Generated(raw) => Event::Generated(raw@),
            Event::GenerationFailed(error) => Event::GenerationFailed(error@),
            Event::Executed => Event::Executed,
            Event::ExecutionFailed(detail) => Event::ExecutionFailed(detail@),
        }
    }
}

impl View for Effect<String> {
    type V = Effect<Seq<char>>;

    open spec fn view(&self) -> Effect<Seq<char>> {
        match *self {
            Effect::Silent => Effect::Silent,
            Effect::Farewell => Effect::Farewell,
            Effect::ClearScreen => Effect::ClearScreen,
            Effect::ShowHelp => Effect::ShowHelp,
            Effect::InterruptNotice => Effect::InterruptNotice,
            Effect::ReadError(detail) => Effect::ReadError(detail@),
            Effect::Generating { input } => Effect::Generating { input: input@ },
            Effect::Present { command, explanation } => Effect::Present {
                command: command@,
                explanation: match explanation {
                    Some(e) => Some(e@),
                    None => None,
                },
            },
            Effect::ModelError(error) => Effect::ModelError(error@),
            Effect::InvalidChoice => Effect::InvalidChoice,
            Effect::Executing { command } => Effect::Executing { command: command@ },
            Effect::EditTip => Effect::EditTip,
            Effect::NoChanges => Effect::NoChanges,
            Effect::EditCancelled => Effect::EditCancelled,
            Effect::ApplyingEdit => Effect::ApplyingEdit,
            Effect::EditFallback { command } => Effect::EditFallback { command: command@ },
            Effect::EditFailed { error, command } => Effect::EditFailed {
                error: error@,
                command: command@,
            },
            Effect::ExecutionError(detail) => Effect::ExecutionError(detail@),
            Effect::Commit { prompt, command, outcome } => Effect::Commit {
                prompt: prompt@,
                command: command@,
                outcome,
            },
        }
    }
}

impl View for Request<String> {
    type V = Request<Seq<char>>;

    open spec fn view(&self) -> Request<Seq<char>> {
        match *self {
            Request::ReadInput => Request::ReadInput,
            Request::ReadChoice => Request::ReadChoice,
            Request::ReadEdit { current } => Request::ReadEdit { current: current@ },
            Request::Generate { prompt, explain } => Request::Generate { prompt: prompt@, explain },
            Request::Execute { command } => Request::Execute { command: command@ },
            Request::Stop => Request::Stop,
        }
    }
}

/// One interactive session.
#[derive(Debug, PartialEq, Eq)]
pub struct Session {
    /// The most recent turns.
    pub window: ConversationWindow,
    /// Where the session stands.
    pub phase: Phase<String>,
    /// Whether the model is asked to explain its commands.
    pub explain: bool,
}

/// The mathematical state of a session.
pub struct SessionState {
    pub window: Seq<TurnText>,
    pub phase: Phase<Seq<char>>,
    pub explain: bool,
}

impl View for Session {
    type V = SessionState;

    open spec fn view(&self) -> SessionState {
        SessionState { window: self.window@, phase: self.phase@, explain: self.explain }
    }
}

/// `s` in another phase.
pub open spec fn moved(s: SessionState, phase: Phase<Seq<char>>) -> SessionState {
    SessionState { window: s.window, phase, explain: s.explain }
}

/// The turn is committed: the pair joins the window, the session is idle
/// again, and the pair is to be appended to the history.
pub open spec fn commit(
    s: SessionState,
    input: Seq<char>,
    pending: Seq<char>,
    outcome: Outcome,
) -> (SessionState, Effect<Seq<char>>) {
    (
        SessionState {
            window: pushed(s.window, TurnText { user: input, command: pending }),
            phase: Phase::Idle,
            explain: s.explain,
        },
        Effect::Commit { prompt: input, command: pending, outcome },
    )
}

/// A line at the main prompt. Empty input changes nothing; a control token is
/// handled without the model and leaves the window alone; anything else
/// becomes a request, composed with the window.
pub open spec fn on_input(s: SessionState, line: Seq<char>) -> (SessionState, Effect<Seq<char>>) {
    let input = trim(line);
    if input.len() == 0 {
        (s, Effect::Silent)
    } else {
        match input_kind(lowercase(input)) {
            InputKind::Exit => (moved(s, Phase::Exited), Effect::Farewell),
            InputKind::Clear => (s, Effect::ClearScreen),
            InputKind::Help => (s, Effect::ShowHelp),
            InputKind::Request => (
                moved(
                    s,
                    Phase::AwaitingModel { input, prompt: composed_prompt(s.window, input) },
                ),
                Effect::Generating { input },
            ),
        }
    }
}

/// The model's text for a request: sanitised and put on offer.
pub open spec fn on_generated(s: SessionState, input: Seq<char>, raw: Seq<char>) -> (
    SessionState,
    Effect<Seq<char>>,
) {
    let result = sanitized(raw);
    (
        moved(s, Phase::Presenting { input, pending: result.command }),
        Effect::Present { command: result.command, explanation: result.explanation },
    )
}

/// The operator's answer at the confirm prompt.
pub open spec fn on_choice(
    s: SessionState,
    input: Seq<char>,
    pending: Seq<char>,
    line: Seq<char>,
) -> (SessionState, Effect<Seq<char>>) {
    match decision(lowercase(trim(line))) {
        Decision::Run => (
            moved(s, Phase::Confirmed { input, pending }),
            Effect::Executing { command: pending },
        ),
        Decision::Skip => commit(s, input, pending, Outcome::Skipped),
        Decision::Edit => (moved(s, Phase::Editing { input, pending }), Effect::EditTip),
        Decision::Invalid => (s, Effect::InvalidChoice),
    }
}

/// The operator's edit instruction. An empty one leaves the command; one that
/// reads as a command replaces it; any other goes to the model.
pub open spec fn on_edit(
    s: SessionState,
    input: Seq<char>,
    pending: Seq<char>,
    line: Seq<char>,
) -> (SessionState, Effect<Seq<char>>) {
    let instruction = trim(line);
    if instruction.len() == 0 {
        (moved(s, Phase::Presenting { input, pending }), Effect::NoChanges)
    } else if looks_like_command(instruction) {
        (
            moved(s, Phase::Presenting { input, pending: instruction }),
            Effect::Present { command: instruction, explanation: None },
        )
    } else {
        (
            moved(
                s,
                Phase::Revising {
                    input,
                    pending,
                    instruction,
                    prompt: edit_prompt_text(pending, instruction),
                },
            ),
            Effect::ApplyingEdit,
        )
    }
}

/// The model's text for an edit: the sanitised command goes on offer, or the
/// instruction itself where the model returned none.
pub open spec fn on_revised(
    s: SessionState,
    input: Seq<char>,
    instruction: Seq<char>,
    raw: Seq<char>,
) -> (SessionState, Effect<Seq<char>>) {
    let command = sanitized(raw).command;
    if command.len() > 0 {
        (
            moved(s, Phase::Presenting { input, pending: command }),
            Effect::Present { command, explanation: None },
        )
    } else {
        (
            moved(s, Phase::Presenting { input, pending: instruction }),
            Effect::EditFallback { command: instruction },
        )
    }
}

/// The session and the effect that follow from `s` on `event`. An event that
/// the phase does not wait for changes nothing.
pub open spec fn step(s: SessionState, event: Event<Seq<char>>) -> (
    SessionState,
    Effect<Seq<char>>,
) {
    match s.phase {
        Phase::Idle => match event {
            Event::Line(line) => on_input(s, line),
            Event::Interrupted => (s, Effect::InterruptNotice),
            Event::EndOfInput => (moved(s, Phase::Exited), Effect::Farewell),
            Event::ReadFailed(detail) => (moved(s, Phase::Exited), Effect::ReadError(detail)),
            _ => (s, Effect::Silent),
        },
        Phase::AwaitingModel { input, prompt } => match event {
            Event::Generated(raw) => on_generated(s, input, raw),
            Event::GenerationFailed(error) => (moved(s, Phase::Idle), Effect::ModelError(error)),
            _ => (s, Effect::Silent),
        },
        Phase::Presenting { input, pending } => match event {
            Event::Line(line) => on_choice(s, input, pending, line),
            Event::EndOfInput => commit(s, input, pending, Outcome::Skipped),
            Event::ReadFailed(detail) => commit(s, input, pending, Outcome::Abandoned),
            _ => (s, Effect::Silent),
        },
        Phase::Editing { input, pending } => match event {
            Event::Line(line) => on_edit(s, input, pending, line),
            Event::Interrupted | Event::EndOfInput => (
                moved(s, Phase::Presenting { input, pending }),
                Effect::EditCancelled,
            ),
            Event::ReadFailed(detail) => commit(s, input, pending, Outcome::Abandoned),
            _ => (s, Effect::Silent),
        },
        Phase::Revising { input, pending, instruction, prompt } => match event {
            Event::Generated(raw) => on_revised(s, input, instruction, raw),
            Event::GenerationFailed(error) => (
                moved(s, Phase::Presenting { input, pending: instruction }),
                Effect::EditFailed { error, command: instruction },
            ),
            _ => (s, Effect::Silent),
        },
        Phase::Confirmed { input, pending } => match event {
            Event::Executed => commit(s, input, pending, Outcome::Executed),
            Event::ExecutionFailed(detail) => (
                moved(s, Phase::Idle),
                Effect::ExecutionError(detail),
            ),
            _ => (s, Effect::Silent),
        },
        Phase::Exited => (s, Effect::Silent),
    }
}

/// What the surrounding program does next for a session in `s`.
pub open spec fn awaited(s: SessionState) -> Request<Seq<char>> {
    match s.phase {
        Phase::Idle => Request::ReadInput,
        Phase::AwaitingModel { input, prompt } => Request::Generate { prompt, explain: s.explain },
        Phase::Presenting { input, pending } => Request::ReadChoice,
        Phase::Editing { input, pending } => Request::ReadEdit { current: pending },
        Phase::Revising { input, pending, instruction, prompt } => Request::Generate {
            prompt,
            explain: false,
        },
        Phase::Confirmed { input, pending } => Request::Execute { command: pending },
        Phase::Exited => Request::Stop,
    }
}

fn committed(
    Ghost(s): Ghost<SessionState>,
    window: ConversationWindow,
    explain: bool,
    input: String,
    pending: String,
    outcome: Outcome,
) -> (r: (Session, Effect<String>))
    requires
        s.window == window@,
        s.explain == explain,
    ensures
        (r.0@, r.1@) == commit(s, input@, pending@, outcome),
{
    let prompt = input.clone();
    let command = pending.clone();
    let window = window.push(input, pending);
    (Session { window, phase: Phase::Idle, explain }, Effect::Commit { prompt, command, outcome })
}

fn input_entered(
    Ghost(s): Ghost<SessionState>,
    window: ConversationWindow,
    explain: bool,
    line: String,
) -> (r: (Session, Effect<String>))
    requires
        s.window == window@,
        s.explain == explain,
        s.phase == Phase::<Seq<char>>::Idle,
    ensures
        (r.0@, r.1@) == on_input(s, line@),
{
    let input = trimmed(line.as_str());
    if input.as_str().unicode_len() == 0 {
        return (Session { window, phase: Phase::Idle, explain }, Effect::Silent);
    }
    let lowered = to_lowercase(input.as_str());
    match classify_input(lowered.as_str()) {
        InputKind::Exit => (Session { window, phase: Phase::Exited, explain }, Effect::Farewell),
        InputKind::Clear => (Session { window, phase: Phase::Idle, explain }, Effect::ClearScreen),
        InputKind::Help => (Session { window, phase: Phase::Idle, explain }, Effect::ShowHelp),
        InputKind::Request => {
            let prompt = window.compose(input.as_str());
            let shown = input.clone();
            (
                Session { window, phase: Phase::AwaitingModel { input, prompt }, explain },
                Effect::Generating { input: shown },
            )
        },
    }
}

fn generated(
    Ghost(s): Ghost<SessionState>,
    window: ConversationWindow,
    explain: bool,
    input: String,
    raw: String,
) -> (r: (Session, Effect<String>))
    requires
        s.window == window@,
        s.explain == explain,
    ensures
        (r.0@, r.1@) == on_generated(s, input@, raw@),
{
    let result = sanitize(raw.as_str());
    let pending = result.command.clone();
    (
        Session { window, phase: Phase::Presenting { input, pending }, explain },
        Effect::Present { command: result.command, explanation: result.explanation },
    )
}

fn choice_made(
    Ghost(s): Ghost<SessionState>,
    window: ConversationWindow,
    explain: bool,
    input: String,
    pending: String,
    line: String,
) -> (r: (Session, Effect<String>))
    requires
        s.window == window@,
        s.explain == explain,
        s.phase == (Phase::Presenting { input: input@, pending: pending@ }),
    ensures
        (r.0@, r.1@) == on_choice(s, input@, pending@, line@),
{
    let answer = trimmed(line.as_str());
    let lowered = to_lowercase(answer.as_str());
    match classify_choice(lowered.as_str()) {
        Decision::Run => {
            let command = pending.clone();
            (
                Session { window, phase: Phase::Confirmed { input, pending }, explain },
                Effect::Executing { command },
            )
        },
        Decision::Skip => committed(Ghost(s), window, explain, input, pending, Outcome::Skipped),
        Decision::Edit => (
            Session { window, phase: Phase::Editing { input, pending }, explain },
            Effect::EditTip,
        ),
        Decision::Invalid => (
            Session { window, phase: Phase::Presenting { input, pending }, explain },
            Effect::InvalidChoice,
        ),
    }
}

fn edit_entered(
    Ghost(s): Ghost<SessionState>,
    window: ConversationWindow,
    explain: bool,
    input: String,
    pending: String,
    line: String,
) -> (r: (Session, Effect<String>))
    requires
        s.window == window@,
        s.explain == explain,
    ensures
        (r.0@, r.1@) == on_edit(s, input@, pending@, line@),
{
    let instruction = trimmed(line.as_str());
    if instruction.as_str().unicode_len() == 0 {
        (Session { window, phase: Phase::Presenting { input, pending }, explain }, Effect::NoChanges)
    } else if is_direct_command(instruction.as_str()) {
        let command = instruction.clone();
        (
            Session { window, phase: Phase::Presenting { input, pending: instruction }, explain },
            Effect::Present { command, explanation: None },
        )
    } else {
        let prompt = edit_prompt(pending.as_str(), instruction.as_str());
        (
            Session {
                window,
                phase: Phase::Revising { input, pending, instruction, prompt },
                explain,
            },
            Effect::ApplyingEdit,
        )
    }
}

fn revised(
    Ghost(s): Ghost<SessionState>,
    window: ConversationWindow,
    explain: bool,
    input: String,
    instruction: String,
    raw: String,
) -> (r: (Session, Effect<String>))
    requires
        s.window == window@,
        s.explain == explain,
    ensures
        (r.0@, r.1@) == on_revised(s, input@, instruction@, raw@),
{
    let result = sanitize(raw.as_str());
    if result.command.as_str().unicode_len() > 0 {
        let command = result.command.clone();
        (
            Session {
                window,
                phase: Phase::Presenting { input, pending: result.command },
                explain,
            },
            Effect::Present { command, explanation: None },
        )
    } else {
        let command = instruction.clone();
        (
            Session { window, phase: Phase::Presenting { input, pending: instruction }, explain },
            Effect::EditFallback { command },
        )
    }
}

impl Session {
    /// A session at its start: idle, with an empty window.
    pub fn new(explain: bool) -> (s: Session)
        ensures
            s@ == (SessionState { window: Seq::empty(), phase: Phase::Idle, explain }),
    {
        let window = ConversationWindow::new();
        assert(window@ =~= Seq::empty());
        Session { window, phase: Phase::Idle, explain }
    }

    /// What the surrounding program has to do to obtain the next event.
    pub fn request(&self) -> (r: Request<String>)
        ensures
            r@ == awaited(self@),
    {
        match &self.phase {
            Phase::Idle => Request::ReadInput,
            Phase::AwaitingModel { input, prompt } => Request::Generate {
                prompt: prompt.clone(),
                explain: self.explain,
            },
            Phase::Presenting { input, pending } => Request::ReadChoice,
            Phase::Editing { input, pending } => Request::ReadEdit { current: pending.clone() },
            Phase::Revising { input, pending, instruction, prompt } => Request::Generate {
                prompt: prompt.clone(),
                explain: false,
            },
            Phase::Confirmed { input, pending } => Request::Execute { command: pending.clone() },
            Phase::Exited => Request::Stop,
        }
    }

    /// Takes the session one event further and says what is to be done.
    pub fn step(self, event: Event<String>) -> (r: (Session, Effect<String>))
        ensures
            (r.0@, r.1@) == step(self@, event@),
    {
        let ghost s = self@;
        let Session { window, phase, explain } = self;
        match phase {
            Phase::Idle => match event {
                Event::Line(line) => input_entered(Ghost(s), window, explain, line),
                Event::Interrupted => (
                    Session { window, phase: Phase::Idle, explain },
                    Effect::InterruptNotice,
                ),
                Event::EndOfInput => (
                    Session { window, phase: Phase::Exited, explain },
                    Effect::Farewell,
                ),
                Event::ReadFailed(detail) => (
                    Session { window, phase: Phase::Exited, explain },
                    Effect::ReadError(detail),
                ),
                _ => (Session { window, phase: Phase::Idle, explain }, Effect::Silent),
            },
            Phase::AwaitingModel { input, prompt } => match event {
                Event::Generated(raw) => generated(Ghost(s), window, explain, input, raw),
                Event::GenerationFailed(error) => (
                    Session { window, phase: Phase::Idle, explain },
                    Effect::ModelError(error),
                ),
                _ => (
                    Session { window, phase: Phase::AwaitingModel { input, prompt }, explain },
                    Effect::Silent,
                ),
            },
            Phase::Presenting { input, pending } => match event {
                Event::Line(line) => choice_made(Ghost(s), window, explain, input, pending, line),
                Event::EndOfInput => committed(
                    Ghost(s),
                    window,
                    explain,
                    input,
                    pending,
                    Outcome::Skipped,
                ),
                Event::ReadFailed(detail) => committed(
                    Ghost(s),
                    window,
                    explain,
                    input,
                    pending,
                    Outcome::Abandoned,
                ),
                _ => (
                    Session { window, phase: Phase::Presenting { input, pending }, explain },
                    Effect::Silent,
                ),
            },
            Phase::Editing { input, pending } => match event {
                Event::Line(line) => edit_entered(Ghost(s), window, explain, input, pending, line),
                Event::Interrupted | Event::EndOfInput => (
                    Session { window, phase: Phase::Presenting { input, pending }, explain },
                    Effect::EditCancelled,
                ),
                Event::ReadFailed(detail) => committed(
                    Ghost(s),
                    window,
                    explain,
                    input,
                    pending,
                    Outcome::Abandoned,
                ),
                _ => (
                    Session { window, phase: Phase::Editing { input, pending }, explain },
                    Effect::Silent,
                ),
            },
            Phase::Revising { input, pending, instruction, prompt } => match event {
                Event::Generated(raw) => revised(Ghost(s), window, explain, input, instruction, raw),
                Event::GenerationFailed(error) => {
                    let command = instruction.clone();
                    (
                        Session {
                            window,
                            phase: Phase::Presenting { input, pending: instruction },
                            explain,
                        },
                        Effect::EditFailed { error, command },
                    )
                },
                _ => (
                    Session {
                        window,
                        phase: Phase::Revising { input, pending, instruction, prompt },
                        explain,
                    },
                    Effect::Silent,
                ),
            },
            Phase::Confirmed { input, pending } => match event {
                Event::Executed => committed(
                    Ghost(s),
                    window,
                    explain,
                    input,
                    pending,
                    Outcome::Executed,
                ),
                Event::ExecutionFailed(detail) => (
                    Session { window, phase: Phase::Idle, explain },
                    Effect::ExecutionError(detail),
                ),
                _ => (
                    Session { window, phase: Phase::Confirmed { input, pending }, explain },
                    Effect::Silent,
                ),
            },
            Phase::Exited => (Session { window, phase: Phase::Exited, explain }, Effect::Silent),
        }
    }
}

/// A step never lets the window grow past its capacity.
pub proof fn lemma_step_keeps_window_bounded(s: SessionState, event: Event<Seq<char>>)
    requires
        s.window.len() <= WINDOW_CAPACITY,
    ensures
        step(s, event).0.window.len() <= WINDOW_CAPACITY,
{
}

/// Only a commit touches the window, and it adds the committed pair: control
/// tokens, failed model calls, edits and events out of place leave it as it
/// was. No step changes whether explanations are asked for.
pub proof fn lemma_step_changes_window_only_on_commit(s: SessionState, event: Event<Seq<char>>)
    ensures
        step(s, event).0.explain == s.explain,
        match step(s, event).1 {
            Effect::Commit { prompt, command, outcome } => {
                &&& step(s, event).0.window == pushed(
                    s.window,
                    TurnText { user: prompt, command },
                )
                &&& step(s, event).0.phase == Phase::<Seq<char>>::Idle
            },
            _ => step(s, event).0.window == s.window,
        },
{
}

/// A command is run only on the operator's word: the effect `Executing`
/// comes from the phase `Presenting` alone, names the command on offer and
/// leads to `Confirmed`; and only from `Confirmed` is a turn committed as
/// executed.
pub proof fn lemma_execution_needs_confirmation(s: SessionState, event: Event<Seq<char>>)
    ensures
        step(s, event).1 matches Effect::Executing { command } ==> {
            &&& s.phase matches Phase::Presenting { input, pending }
            &&& command == pending
            &&& step(s, event).0.phase == (Phase::Confirmed { input, pending })
        },
        step(s, event).1 matches Effect::Commit { prompt, command, outcome } ==> (outcome
            is Executed <==> s.phase is Confirmed),
{
}

/// Once over, a session stays over.
pub proof fn lemma_exited_is_final(s: SessionState, event: Event<Seq<char>>)
    requires
        s.phase is Exited,
    ensures
        step(s, event) == (s, Effect::<Seq<char>>::Silent),
{
}

} // verus!
