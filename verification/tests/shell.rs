use wtf::shell::{init_script, BASH_SCRIPT, ZSH_SCRIPT};

#[test]
fn zsh_script_is_given_for_zsh() {
    assert_eq!(init_script("zsh"), Some(ZSH_SCRIPT));
    assert_eq!(
        ZSH_SCRIPT,
        "# WTF (Write The Formula) - Shell integration\n# Add to ~/.zshrc: eval \"$(command wtf --init zsh)\"\n\nfunction wtf() {\n    if [[ -z \"$1\" ]]; then\n        echo \"Usage: wtf <natural language prompt>\"\n        return 1\n    fi\n\n    # Show loading state\n    echo -n \"\u{23f3} Generating...\" >&2\n\n    local cmd\n    # Use the binary to get the command (raw mode)\n    cmd=$(command wtf --raw \"$@\" 2>&1)\n    local exit_code=$?\n\n    # Clear loading state (CR + Clear Line)\n    echo -ne \"\\r\\033[K\" >&2\n\n    if [[ $exit_code -ne 0 ]]; then\n        echo \"\u{274c} $cmd\"\n        return 1\n    fi\n\n    # Show the command with formatting\n    echo \"\u{1f4a1} \\033[36m$cmd\\033[0m\"\n    echo \"\"\n    \n    # Put in buffer (print -z)\n    print -z \"$cmd\"\n}\n\nalias '??'='wtf'\n"
    );
}

#[test]
fn bash_script_is_given_for_bash() {
    assert_eq!(init_script("bash"), Some(BASH_SCRIPT));
    assert_eq!(
        BASH_SCRIPT,
        "# WTF (Write The Formula) - Shell integration\n# Add to ~/.bashrc: eval \"$(wtf --init bash)\"\n\nfunction wtf() {\n    if [[ -z \"$1\" ]]; then\n        echo \"Usage: wtf <natural language prompt>\"\n        return 1\n    fi\n\n    echo -n \"\u{23f3} Generating...\" >&2\n\n    local cmd\n    cmd=$(command wtf --raw \"$@\" 2>&1)\n    local exit_code=$?\n\n    echo -ne \"\\r\\033[K\" >&2\n\n    if [[ $exit_code -ne 0 ]]; then\n        echo \"\u{274c} $cmd\"\n        return 1\n    fi\n\n    echo \"\u{1f4a1} $cmd\"\n    echo \"\u{1f4cb} Copied to clipboard\"\n    printf '%s' \"$cmd\" | pbcopy\n}\n\nalias '??'='wtf'\n"
    );
}

#[test]
fn other_shells_are_not_supported() {
    assert_eq!(init_script("fish"), None);
    assert_eq!(init_script(""), None);
    assert_eq!(init_script("ZSH"), None);
    assert_eq!(init_script("bash "), None);
}

#[test]
fn scripts_define_the_function_and_the_alias() {
    for script in [ZSH_SCRIPT, BASH_SCRIPT] {
        assert!(script.starts_with("# WTF (Write The Formula) - Shell integration\n"));
        assert!(script.contains("function wtf() {\n    if [[ -z \"$1\" ]]; then"));
        assert!(script.contains("    cmd=$(command wtf --raw \"$@\" 2>&1)\n"));
        assert!(script.ends_with("}\n\nalias '??'='wtf'\n"));
    }
    assert!(ZSH_SCRIPT.contains("    print -z \"$cmd\"\n"));
    assert!(BASH_SCRIPT.contains("    printf '%s' \"$cmd\" | pbcopy\n"));
}
