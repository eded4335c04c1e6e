use wtf::machine::{Effect, Event, Outcome, Phase, Request, Session};
use wtf::provider::ApiError;

fn line(text: &str) -> Event<String> {
    Event::Line(text.to_string())
}

fn generated(text: &str) -> Event<String> {
    Event::Generated(text.to_string())
}

fn presenting(input: &str, pending: &str) -> Phase<String> {
    Phase::Presenting { input: input.to_string(), pending: pending.to_string() }
}

fn offered(explain: bool, input: &str, raw: &str) -> Session {
    let (s, _) = Session::new(explain).step(line(input));
    let (s, _) = s.step(generated(raw));
    s
}

fn window_turns(s: &Session) -> Vec<(String, String)> {
    let mut out = Vec::new();
    let mut i = 0;
    while let Some(t) = s.window.get(i) {
        out.push((t.user.clone(), t.command.clone()));
        i += 1;
    }
    out
}

fn commit_turn(s: Session, input: &str, command: &str) -> Session {
    let (s, _) = s.step(line(input));
    let (s, _) = s.step(generated(command));
    let (s, effect) = s.step(line("n"));
    assert!(matches!(effect, Effect::Commit { .. }));
    s
}

#[test]
fn a_new_session_is_idle_with_an_empty_window() {
    let s = Session::new(true);
    assert_eq!(s.phase, Phase::Idle);
    assert_eq!(s.window.len(), 0);
    assert!(s.explain);
    assert_eq!(s.request(), Request::ReadInput);
}

#[test]
fn skipped_command_is_committed_and_not_executed() {
    let s = Session::new(false);
    let (s, effect) = s.step(line("show my ip address"));
    assert_eq!(effect, Effect::Generating { input: "show my ip address".to_string() });
    assert_eq!(
        s.request(),
        Request::Generate { prompt: "show my ip address".to_string(), explain: false }
    );
    let (s, effect) = s.step(generated("curl -s ifconfig.me"));
    assert_eq!(
        effect,
        Effect::Present { command: "curl -s ifconfig.me".to_string(), explanation: None }
    );
    assert_eq!(s.phase, presenting("show my ip address", "curl -s ifconfig.me"));
    assert_eq!(s.request(), Request::ReadChoice);
    let (s, effect) = s.step(line("n"));
    assert_eq!(
        effect,
        Effect::Commit {
            prompt: "show my ip address".to_string(),
            command: "curl -s ifconfig.me".to_string(),
            outcome: Outcome::Skipped,
        }
    );
    assert_eq!(s.phase, Phase::Idle);
    assert_eq!(s.request(), Request::ReadInput);
    assert_eq!(
        window_turns(&s),
        vec![("show my ip address".to_string(), "curl -s ifconfig.me".to_string())]
    );
}

#[test]
fn empty_input_changes_nothing() {
    for text in ["", "   ", "\t\n"] {
        let (s, effect) = Session::new(false).step(line(text));
        assert_eq!(effect, Effect::Silent);
        assert_eq!(s, Session::new(false));
    }
}

#[test]
fn exit_and_quit_end_the_session() {
    for text in ["exit", "quit", "EXIT", "Quit", "  exit  ", "qUiT\n"] {
        let (s, effect) = Session::new(false).step(line(text));
        assert_eq!(effect, Effect::Farewell, "{:?}", text);
        assert_eq!(s.phase, Phase::Exited);
        assert_eq!(s.request(), Request::Stop);
    }
}

#[test]
fn clear_and_help_are_handled_without_the_model() {
    let s = commit_turn(Session::new(false), "list files", "ls");
    let (s, effect) = s.step(line("clear"));
    assert_eq!(effect, Effect::ClearScreen);
    assert_eq!(s.phase, Phase::Idle);
    let (s, effect) = s.step(line(" HELP "));
    assert_eq!(effect, Effect::ShowHelp);
    assert_eq!(s.phase, Phase::Idle);
    assert_eq!(window_turns(&s), vec![("list files".to_string(), "ls".to_string())]);
}

#[test]
fn input_is_trimmed_before_it_is_sent() {
    let (s, effect) = Session::new(true).step(line("  list files \n"));
    assert_eq!(effect, Effect::Generating { input: "list files".to_string() });
    assert_eq!(
        s.phase,
        Phase::AwaitingModel { input: "list files".to_string(), prompt: "list files".to_string() }
    );
    assert_eq!(s.request(), Request::Generate { prompt: "list files".to_string(), explain: true });
}

#[test]
fn a_request_carries_the_window() {
    let s = commit_turn(Session::new(false), "list files", "ls -la");
    let (s, _) = s.step(line("only the big ones"));
    assert_eq!(
        s.request(),
        Request::Generate {
            prompt: "Previous conversation:\nUser: list files\nAssistant: ls -la\n\n\
                     New request: only the big ones"
                .to_string(),
            explain: false,
        }
    );
}

#[test]
fn interrupt_at_the_main_prompt_does_not_exit() {
    let (s, effect) = Session::new(false).step(Event::Interrupted);
    assert_eq!(effect, Effect::InterruptNotice);
    assert_eq!(s.phase, Phase::Idle);
}

#[test]
fn end_of_input_at_the_main_prompt_exits() {
    let (s, effect) = Session::new(false).step(Event::EndOfInput);
    assert_eq!(effect, Effect::Farewell);
    assert_eq!(s.phase, Phase::Exited);
}

#[test]
fn read_failure_at_the_main_prompt_exits() {
    let (s, effect) = Session::new(false).step(Event::ReadFailed("broken pipe".to_string()));
    assert_eq!(effect, Effect::ReadError("broken pipe".to_string()));
    assert_eq!(s.phase, Phase::Exited);
}

#[test]
fn model_failure_returns_to_idle_and_commits_nothing() {
    let s = commit_turn(Session::new(false), "list files", "ls");
    let (s, _) = s.step(line("show my ip address"));
    let error = ApiError::Status { status: 500, body: "oops".to_string() };
    let (s, effect) = s.step(Event::GenerationFailed(ApiError::Status {
        status: 500,
        body: "oops".to_string(),
    }));
    assert_eq!(effect, Effect::ModelError(error));
    assert_eq!(s.phase, Phase::Idle);
    assert_eq!(window_turns(&s), vec![("list files".to_string(), "ls".to_string())]);
}

#[test]
fn model_output_is_sanitised_before_it_is_shown() {
    let s = Session::new(true);
    let (s, _) = s.step(line("list files"));
    let (s, effect) = s.step(generated("```bash\nls -la\n``` ### Lists all files. "));
    assert_eq!(
        effect,
        Effect::Present {
            command: "ls -la".to_string(),
            explanation: Some("Lists all files.".to_string()),
        }
    );
    assert_eq!(s.phase, presenting("list files", "ls -la"));
}

#[test]
fn yes_runs_the_command_and_commits_it_afterwards() {
    for answer in ["y", "yes", "Y", " YES \n"] {
        let s = offered(false, "list files", "ls");
        let (s, effect) = s.step(line(answer));
        assert_eq!(effect, Effect::Executing { command: "ls".to_string() });
        assert_eq!(
            s.phase,
            Phase::Confirmed { input: "list files".to_string(), pending: "ls".to_string() }
        );
        assert_eq!(s.request(), Request::Execute { command: "ls".to_string() });
        assert_eq!(s.window.len(), 0);
        let (s, effect) = s.step(Event::Executed);
        assert_eq!(
            effect,
            Effect::Commit {
                prompt: "list files".to_string(),
                command: "ls".to_string(),
                outcome: Outcome::Executed,
            }
        );
        assert_eq!(s.phase, Phase::Idle);
        assert_eq!(window_turns(&s), vec![("list files".to_string(), "ls".to_string())]);
    }
}

#[test]
fn no_and_empty_skip_the_command() {
    for answer in ["n", "no", "", "N", "No", "  \n"] {
        let s = offered(false, "list files", "ls");
        let (s, effect) = s.step(line(answer));
        assert_eq!(
            effect,
            Effect::Commit {
                prompt: "list files".to_string(),
                command: "ls".to_string(),
                outcome: Outcome::Skipped,
            },
            "{:?}",
            answer
        );
        assert_eq!(s.phase, Phase::Idle);
    }
}

#[test]
fn end_of_input_at_the_confirm_prompt_skips() {
    let (s, effect) = offered(false, "list files", "ls").step(Event::EndOfInput);
    assert!(matches!(effect, Effect::Commit { outcome: Outcome::Skipped, .. }));
    assert_eq!(s.phase, Phase::Idle);
    assert_eq!(s.window.len(), 1);
}

#[test]
fn read_failure_at_the_confirm_prompt_abandons_the_turn() {
    let (s, effect) =
        offered(false, "list files", "ls").step(Event::ReadFailed("closed".to_string()));
    assert_eq!(
        effect,
        Effect::Commit {
            prompt: "list files".to_string(),
            command: "ls".to_string(),
            outcome: Outcome::Abandoned,
        }
    );
    assert_eq!(s.phase, Phase::Idle);
    assert_eq!(s.window.len(), 1);
}

#[test]
fn an_unknown_answer_asks_again() {
    let (s, effect) = offered(false, "list files", "ls").step(line("maybe"));
    assert_eq!(effect, Effect::InvalidChoice);
    assert_eq!(s.phase, presenting("list files", "ls"));
    assert_eq!(s.window.len(), 0);
}

#[test]
fn edit_asks_for_an_instruction() {
    for answer in ["e", "edit", "E", "Edit "] {
        let (s, effect) = offered(false, "list files", "ls").step(line(answer));
        assert_eq!(effect, Effect::EditTip);
        assert_eq!(
            s.phase,
            Phase::Editing { input: "list files".to_string(), pending: "ls".to_string() }
        );
        assert_eq!(s.request(), Request::ReadEdit { current: "ls".to_string() });
    }
}

#[test]
fn a_direct_command_replaces_the_pending_one() {
    let (s, _) = offered(false, "big files", "ls").step(line("e"));
    let (s, effect) = s.step(line("  find . -size +1G \n"));
    assert_eq!(
        effect,
        Effect::Present { command: "find . -size +1G".to_string(), explanation: None }
    );
    assert_eq!(s.phase, presenting("big files", "find . -size +1G"));
    let (s, effect) = s.step(line("n"));
    assert_eq!(
        effect,
        Effect::Commit {
            prompt: "big files".to_string(),
            command: "find . -size +1G".to_string(),
            outcome: Outcome::Skipped,
        }
    );
    assert_eq!(window_turns(&s), vec![("big files".to_string(), "find . -size +1G".to_string())]);
}

#[test]
fn a_natural_language_edit_goes_to_the_model() {
    let (s, _) = offered(true, "big files", "du -a").step(line("e"));
    let (s, effect) = s.step(line("only show top 10"));
    assert_eq!(effect, Effect::ApplyingEdit);
    let prompt = "Current command: du -a\n\nUser wants to modify it: only show top 10\n\n\
                  Generate the modified command. Output ONLY the new command, nothing else.";
    assert_eq!(
        s.phase,
        Phase::Revising {
            input: "big files".to_string(),
            pending: "du -a".to_string(),
            instruction: "only show top 10".to_string(),
            prompt: prompt.to_string(),
        }
    );
    assert_eq!(s.request(), Request::Generate { prompt: prompt.to_string(), explain: false });
    let (s, effect) = s.step(generated("```sh\ndu -a | sort -rn | head -10\n```"));
    assert_eq!(
        effect,
        Effect::Present { command: "du -a | sort -rn | head -10".to_string(), explanation: None }
    );
    assert_eq!(s.phase, presenting("big files", "du -a | sort -rn | head -10"));
}

#[test]
fn a_failed_edit_falls_back_to_the_instruction() {
    let (s, _) = offered(false, "big files", "du -a").step(line("e"));
    let (s, _) = s.step(line("only show top 10"));
    let (s, effect) = s.step(Event::GenerationFailed(ApiError::EmptyResult));
    assert_eq!(
        effect,
        Effect::EditFailed { error: ApiError::EmptyResult, command: "only show top 10".to_string() }
    );
    assert_eq!(s.phase, presenting("big files", "only show top 10"));
}

#[test]
fn an_empty_reply_to_an_edit_falls_back_to_the_instruction() {
    for reply in ["", "  \n", "```\n```"] {
        let (s, _) = offered(false, "big files", "du -a").step(line("e"));
        let (s, _) = s.step(line("only show top 10"));
        let (s, effect) = s.step(generated(reply));
        assert_eq!(effect, Effect::EditFallback { command: "only show top 10".to_string() });
        assert_eq!(s.phase, presenting("big files", "only show top 10"));
    }
}

#[test]
fn an_empty_edit_leaves_the_command() {
    let (s, _) = offered(false, "big files", "du -a").step(line("e"));
    let (s, effect) = s.step(line("   "));
    assert_eq!(effect, Effect::NoChanges);
    assert_eq!(s.phase, presenting("big files", "du -a"));
}

#[test]
fn a_cancelled_edit_leaves_the_command() {
    for event in [Event::Interrupted, Event::EndOfInput] {
        let (s, _) = offered(false, "big files", "du -a").step(line("e"));
        let (s, effect) = s.step(event);
        assert_eq!(effect, Effect::EditCancelled);
        assert_eq!(s.phase, presenting("big files", "du -a"));
    }
}

#[test]
fn read_failure_while_editing_abandons_the_turn() {
    let (s, _) = offered(false, "big files", "du -a").step(line("e"));
    let (s, effect) = s.step(Event::ReadFailed("closed".to_string()));
    assert_eq!(
        effect,
        Effect::Commit {
            prompt: "big files".to_string(),
            command: "du -a".to_string(),
            outcome: Outcome::Abandoned,
        }
    );
    assert_eq!(s.phase, Phase::Idle);
}

#[test]
fn edits_may_follow_one_another() {
    let mut s = offered(false, "big files", "du -a");
    for i in 0..25 {
        let (next, effect) = s.step(line("e"));
        assert_eq!(effect, Effect::EditTip);
        let command = format!("ls -{}", i);
        let (next, effect) = next.step(line(&command));
        assert_eq!(effect, Effect::Present { command: command.clone(), explanation: None });
        assert_eq!(next.phase, presenting("big files", &command));
        s = next;
    }
    let (s, effect) = s.step(line("y"));
    assert_eq!(effect, Effect::Executing { command: "ls -24".to_string() });
    assert_eq!(s.window.len(), 0);
}

#[test]
fn a_command_that_cannot_start_ends_the_turn_without_a_commit() {
    let (s, _) = offered(false, "list files", "ls").step(line("y"));
    let (s, effect) = s.step(Event::ExecutionFailed("no shell".to_string()));
    assert_eq!(effect, Effect::ExecutionError("no shell".to_string()));
    assert_eq!(s.phase, Phase::Idle);
    assert_eq!(s.window.len(), 0);
}

#[test]
fn events_out_of_place_change_nothing() {
    let (s, effect) = Session::new(false).step(generated("ls"));
    assert_eq!(effect, Effect::Silent);
    assert_eq!(s, Session::new(false));
    let (s, effect) = Session::new(false).step(Event::Executed);
    assert_eq!(effect, Effect::Silent);
    assert_eq!(s, Session::new(false));
    let (waiting, _) = Session::new(false).step(line("list files"));
    let (s, effect) = waiting.step(line("y"));
    assert_eq!(effect, Effect::Silent);
    assert_eq!(
        s.phase,
        Phase::AwaitingModel { input: "list files".to_string(), prompt: "list files".to_string() }
    );
    let (s, effect) = offered(false, "list files", "ls").step(Event::Interrupted);
    assert_eq!(effect, Effect::Silent);
    assert_eq!(s.phase, presenting("list files", "ls"));
    let (confirmed, _) = offered(false, "list files", "ls").step(line("y"));
    let (s, effect) = confirmed.step(line("n"));
    assert_eq!(effect, Effect::Silent);
    assert!(matches!(s.phase, Phase::Confirmed { .. }));
}

#[test]
fn an_exited_session_stays_exited() {
    let (s, _) = Session::new(false).step(line("exit"));
    for event in [line("list files"), Event::Interrupted, Event::EndOfInput, Event::Executed] {
        let (next, effect) = Session { window: wtf::session::ConversationWindow::new(), phase: Phase::Exited, explain: false }.step(event);
        assert_eq!(effect, Effect::Silent);
        assert_eq!(next.phase, Phase::Exited);
    }
    assert_eq!(s.phase, Phase::Exited);
}

#[test]
fn the_window_slides_over_the_turns_of_a_session() {
    let mut s = Session::new(false);
    for i in 1..=4 {
        s = commit_turn(s, &format!("request {}", i), &format!("command {}", i));
        assert!(s.window.len() <= 3);
    }
    assert_eq!(
        window_turns(&s),
        vec![
            ("request 2".to_string(), "command 2".to_string()),
            ("request 3".to_string(), "command 3".to_string()),
            ("request 4".to_string(), "command 4".to_string()),
        ]
    );
    let (s, _) = s.step(line("request 5"));
    match s.request() {
        Request::Generate { prompt, explain } => {
            assert!(!explain);
            assert!(!prompt.contains("request 1"));
            assert!(!prompt.contains("command 1"));
            assert!(prompt.contains("User: request 2\nAssistant: command 2"));
            assert!(prompt.ends_with("\n\nNew request: request 5"));
        }
        other => panic!("unexpected request {:?}", other),
    }
}

#[test]
fn the_final_command_is_what_gets_committed() {
    let s = offered(false, "big files", "du -a");
    let (s, _) = s.step(line("e"));
    let (s, _) = s.step(line("make it sorted"));
    let (s, _) = s.step(generated("du -a | sort -n"));
    let (s, _) = s.step(line("y"));
    let (s, effect) = s.step(Event::Executed);
    assert_eq!(
        effect,
        Effect::Commit {
            prompt: "big files".to_string(),
            command: "du -a | sort -n".to_string(),
            outcome: Outcome::Executed,
        }
    );
    assert_eq!(window_turns(&s), vec![("big files".to_string(), "du -a | sort -n".to_string())]);
}
