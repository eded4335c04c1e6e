//! The instructions that go to the model with every request.

use crate::context::{enriched, with_context};
use vstd::prelude::*;

verus! {

/// The instructions for a request that asks for a command alone.
pub const SYSTEM_PROMPT: &'static str = "You are a shell command expert. Your task is to translate the user's natural language request into a valid shell command.\n\
\n\
Rules:\n\
1. Output ONLY the shell command, nothing else. No explanations, no markdown, no code blocks.\n\
2. Use standard POSIX commands when possible for portability.\n\
3. For macOS-specific tasks, use the appropriate macOS commands.\n\
4. If the request is dangerous (like rm -rf /), still provide the command but add a comment warning.\n\
5. If the request is ambiguous, provide the most common interpretation.\n\
6. Use single quotes for strings unless double quotes are necessary for variable expansion.\n\
7. For multi-step operations, chain commands with && or use a single-line script.\n\
\n\
Examples:\n\
User: show my ip address\n\
Output: curl -s ifconfig.me\n\
\n\
User: find large files over 100mb\n\
Output: find . -type f -size +100M\n\
\n\
User: kill process on port 3000\n\
Output: lsof -ti:3000 | xargs kill -9\n\
\n\
User: compress this folder\n\
Output: tar -czvf archive.tar.gz .\n\
";

/// The instructions for a request that asks for a command and, behind the
/// separator, its explanation.
pub const SYSTEM_PROMPT_EXPLAIN: &'static str = "You are a shell command expert.\n\
1. Output the shell command.\n\
2. Output a separator: \" ### \"\n\
3. Output a concise explanation of what the command does.\n\
\n\
Example:\n\
User: list files\n\
Output: ls -la ### Lists all files including hidden ones in long format.\n\
";

/// The instructions for a request.
pub open spec fn system_prompt_text(explain: bool) -> Seq<char> {
    if explain {
        SYSTEM_PROMPT_EXPLAIN@
    } else {
        SYSTEM_PROMPT@
    }
}

/// The instructions for a request, with or without the call for an
/// explanation.
pub fn system_prompt(explain: bool) -> (r: &'static str)
    ensures
        r@ == system_prompt_text(explain),
{
    if explain {
        SYSTEM_PROMPT_EXPLAIN
    } else {
        SYSTEM_PROMPT
    }
}

/// The instructions for a request followed by the harvested context. The
/// context goes to the system prompt and never to the user's prompt; an empty
/// context adds nothing.
pub fn instructions(explain: bool, context: &str) -> (r: String)
    ensures
        r@ == enriched(system_prompt_text(explain), context@),
{
    with_context(system_prompt(explain), context)
}

} // verus!
