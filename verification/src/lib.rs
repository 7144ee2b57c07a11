//! The decisions of a desktop assistant's back end, each with a contract that
//! is proved.
//!
//! The heart is the shell engine. [`sandbox`] turns a policy into the
//! invocation that confines a command: a Seatbelt profile on macOS, a `bwrap`
//! argument vector on Linux. [`shell_commands`] holds the registry of cancel
//! flags and the state machine that takes a command from its arguments to its
//! result: it resolves the working directory first, spawns the sandboxed form
//! and falls back to the plain shell, watches for exit, timeout and
//! cancellation in that order, kills before it drains, and reports what
//! happened.
//!
//! Around the engine stand the rules of the assistant's other commands: what
//! lies inside a workspace and what a file is taken to hold ([`fs_commands`]),
//! how attachments are named, read and cut ([`attachment_commands`]), how
//! converted documents are cached ([`docx_commands`]), what is fetched from
//! the web ([`fetch_commands`]), where skills are looked for
//! ([`skill_commands`], [`skill_discovery`]), which changes of a workspace
//! are told ([`workspace_watcher`]), and how the document tool is found and
//! its session kept ([`officellm`]). [`text`], [`paths`], [`order`] and
//! [`encoding`] are what they are built from.
//!
//! Nothing here reads a file, starts a process or waits: a caller does that,
//! hands in what it found, and does what it is told.

pub mod attachment_commands;
pub mod docx_commands;
pub mod encoding;
pub mod fetch_commands;
pub mod fs_commands;
pub mod js_interpreter;
pub mod officellm;
pub mod order;
pub mod paths;
pub mod sandbox;
pub mod shell_commands;
pub mod skill_commands;
pub mod skill_discovery;
pub mod text;
pub mod workspace_watcher;
