//! The shell integration: the snippet that a shell evaluates to get the
//! `wtf` function.

use crate::text::same_text;
use vstd::prelude::*;

verus! {

/// The integration script for zsh.
pub const ZSH_SCRIPT: &'static str = "# WTF (Write The Formula) - Shell integration\n\
# Add to ~/.zshrc: eval \"$(command wtf --init zsh)\"\n\
\n\
function wtf() {\n\
\x20\x20\x20\x20if [[ -z \"$1\" ]]; then\n\
\x20\x20\x20\x20\x20\x20\x20\x20echo \"Usage: wtf <natural language prompt>\"\n\
\x20\x20\x20\x20\x20\x20\x20\x20return 1\n\
\x20\x20\x20\x20fi\n\
\n\
\x20\x20\x20\x20# Show loading state\n\
\x20\x20\x20\x20echo -n \"\u{23f3} Generating...\" >&2\n\
\n\
\x20\x20\x20\x20local cmd\n\
\x20\x20\x20\x20# Use the binary to get the command (raw mode)\n\
\x20\x20\x20\x20cmd=$(command wtf --raw \"$@\" 2>&1)\n\
\x20\x20\x20\x20local exit_code=$?\n\
\n\
\x20\x20\x20\x20# Clear loading state (CR + Clear Line)\n\
\x20\x20\x20\x20echo -ne \"\\r\\033[K\" >&2\n\
\n\
\x20\x20\x20\x20if [[ $exit_code -ne 0 ]]; then\n\
\x20\x20\x20\x20\x20\x20\x20\x20echo \"\u{274c} $cmd\"\n\
\x20\x20\x20\x20\x20\x20\x20\x20return 1\n\
\x20\x20\x20\x20fi\n\
\n\
\x20\x20\x20\x20# Show the command with formatting\n\
\x20\x20\x20\x20echo \"\u{1f4a1} \\033[36m$cmd\\033[0m\"\n\
\x20\x20\x20\x20echo \"\"\n\
\x20\x20\x20\x20\n\
\x20\x20\x20\x20# Put in buffer (print -z)\n\
\x20\x20\x20\x20print -z \"$cmd\"\n\
}\n\
\n\
alias '??'='wtf'\n\
";

/// The integration script for bash.
pub const BASH_SCRIPT: &'static str = "# WTF (Write The Formula) - Shell integration\n\
# Add to ~/.bashrc: eval \"$(wtf --init bash)\"\n\
\n\
function wtf() {\n\
\x20\x20\x20\x20if [[ -z \"$1\" ]]; then\n\
\x20\x20\x20\x20\x20\x20\x20\x20echo \"Usage: wtf <natural language prompt>\"\n\
\x20\x20\x20\x20\x20\x20\x20\x20return 1\n\
\x20\x20\x20\x20fi\n\
\n\
\x20\x20\x20\x20echo -n \"\u{23f3} Generating...\" >&2\n\
\n\
\x20\x20\x20\x20local cmd\n\
\x20\x20\x20\x20cmd=$(command wtf --raw \"$@\" 2>&1)\n\
\x20\x20\x20\x20local exit_code=$?\n\
\n\
\x20\x20\x20\x20echo -ne \"\\r\\033[K\" >&2\n\
\n\
\x20\x20\x20\x20if [[ $exit_code -ne 0 ]]; then\n\
\x20\x20\x20\x20\x20\x20\x20\x20echo \"\u{274c} $cmd\"\n\
\x20\x20\x20\x20\x20\x20\x20\x20return 1\n\
\x20\x20\x20\x20fi\n\
\n\
\x20\x20\x20\x20echo \"\u{1f4a1} $cmd\"\n\
\x20\x20\x20\x20echo \"\u{1f4cb} Copied to clipboard\"\n\
\x20\x20\x20\x20printf '%s' \"$cmd\" | pbcopy\n\
}\n\
\n\
alias '??'='wtf'\n\
";

/// The integration script for the shell of that name, where there is one.
pub open spec fn script_for(shell: Seq<char>) -> Option<Seq<char>> {
    if shell == "zsh"@ {
        Some(ZSH_SCRIPT@)
    } else if shell == "bash"@ {
        Some(BASH_SCRIPT@)
    } else {
        None
    }
}

/// The integration script for `shell`; `None` for a shell that is not
/// supported.
pub fn init_script(shell: &str) -> (r: Option<&'static str>)
    ensures
        match r {
            Some(script) => script_for(shell@) == Some(script@),
            None => script_for(shell@) is None,
        },
{
    if same_text(shell, "zsh") {
        Some(ZSH_SCRIPT)
    } else if same_text(shell, "bash") {
        Some(BASH_SCRIPT)
    } else {
        None
    }
}

} // verus!
