//! Natural-language requests turned into shell commands, under the
//! operator's eye.
//!
//! The library holds the logic of a command-synthesis session and leaves
//! every contact with the world (the network, the terminal, the file system,
//! the shell) to its caller:
//!
//! - `text`: character-level primitives, specified over `Seq<char>`;
//! - `sanitize`: cleaning of model output;
//! - `session`: the conversational window, prompts and classifications;
//! - `machine`: the confirm / edit / execute state machine;
//! - `provider`: configuration, request envelopes, reading of responses;
//! - `prompt`: the instructions sent with every request;
//! - `context`: the directory listing and version-control status as context;
//! - `history`, `record`, `listing`: the history log, its lines and its
//!   display;
//! - `clock`: the time, from `chrono`;
//! - `shell`: the shell integration scripts.

pub mod clock;
pub mod context;
pub mod history;
pub mod listing;
pub mod machine;
pub mod prompt;
pub mod provider;
pub mod record;
pub mod sanitize;
pub mod session;
pub mod shell;
pub mod text;
