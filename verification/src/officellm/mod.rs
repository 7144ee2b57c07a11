//! The document tool `officellm`: where it is found, which temp directories
//! it uses, and the one session it serves at a time.

pub mod cli;
pub mod env;
pub mod server;

use crate::paths::{join_path, joined};
use crate::text::{chars_of, opt_string_view, opt_view, string_of, trim_chars, trimmed};
use vstd::prelude::*;

verus! {

/// Whether the tool is there, and which.
#[derive(Debug, Clone)]
pub struct DetectResult {
    pub available: bool,
    /// What the tool answers to `--version`.
    pub version: Option<String>,
    pub path: Option<String>,
    /// Whether the tool came with the application.
    pub bundled: bool,
}

/// The session that is open.
#[derive(Debug, Clone)]
pub struct SessionInfo {
    /// The document the session has open.
    pub document_path: String,
    /// The process that serves it.
    pub pid: u32,
    /// How long the session has been open, in seconds.
    pub uptime_secs: u64,
}

/// Where the tool is installed by the user: below the home directory.
pub open spec fn external_bin(home: Seq<char>) -> Seq<char> {
    joined(home, ".officellm/bin/officellm"@)
}

/// Which binary is used: the one that came with the application, if it is
/// there, else the one the user installed, if that is there. The flag says
/// whether it came with the application.
pub open spec fn resolved_bin(
    sidecar: Option<Seq<char>>,
    sidecar_exists: bool,
    external: Option<Seq<char>>,
    external_exists: bool,
) -> Option<(Seq<char>, bool)> {
    match sidecar {
        Some(path) if sidecar_exists => Some((path, true)),
        _ => match external {
            Some(path) if external_exists => Some((path, false)),
            _ => None,
        },
    }
}

/// The view of a binary that was found.
pub open spec fn bin_view(bin: Option<(String, bool)>) -> Option<(Seq<char>, bool)> {
    match bin {
        Some(pair) => Some((pair.0@, pair.1)),
        None => None,
    }
}

/// The version that the tool reports: what it printed, trimmed, if it ended
/// well and printed anything.
pub open spec fn version_of(success: bool, stdout: Seq<char>) -> Option<Seq<char>> {
    if success && trimmed(stdout).len() > 0 {
        Some(trimmed(stdout))
    } else {
        None
    }
}

/// The view of a path or a complaint.
pub open spec fn path_view(path: Result<String, String>) -> Result<Seq<char>, Seq<char>> {
    match path {
        Ok(p) => Ok(p@),
        Err(message) => Err(message@),
    }
}

/// Where the user installs the tool, given the home directory.
pub fn default_bin_path(home: &str) -> (path: String)
    ensures
        path@ == external_bin(home@),
{
    join_path(home, ".officellm/bin/officellm")
}

/// Which binary is used. `sidecar` is where the binary that comes with the
/// application would be, `external` where the user would install it; the
/// flags say whether something is there.
pub fn resolve_bin(
    sidecar: Option<&str>,
    sidecar_exists: bool,
    external: Option<&str>,
    external_exists: bool,
) -> (bin: Option<(String, bool)>)
    ensures
        bin_view(bin) == resolved_bin(
            opt_view(sidecar),
            sidecar_exists,
            opt_view(external),
            external_exists,
        ),
{
    match sidecar {
        Some(path) => {
            if sidecar_exists {
                return Some((path.to_string(), true));
            }
        },
        None => {},
    }
    match external {
        Some(path) => {
            if external_exists {
                return Some((path.to_string(), false));
            }
        },
        None => {},
    }
    None
}

/// The path of the binary that is used, or the complaint that there is none.
pub fn bin_path(bin: Option<(String, bool)>) -> (path: Result<String, String>)
    ensures
        path_view(path) == (match bin {
            Some(pair) => Ok::<Seq<char>, Seq<char>>(pair.0@),
            None => Err("未找到 officellm"@),
        }),
{
    match bin {
        Some((path, _)) => Ok(path),
        None => Err("未找到 officellm".to_string()),
    }
}

/// What is known of the tool. `version_run` is how asking the binary for its
/// version went: whether it ended well, and what it printed; `None` if it
/// could not be run.
pub fn detect(bin: Option<(String, bool)>, version_run: Option<(bool, String)>) -> (result: DetectResult)
    ensures
        result.available == (bin is Some),
        opt_string_view(result.path) == (match bin {
            Some(pair) => Some(pair.0@),
            None => None,
        }),
        result.bundled == (match bin {
            Some(pair) => pair.1,
            None => false,
        }),
        opt_string_view(result.version) == (match (bin, version_run) {
            (Some(_), Some(run)) => version_of(run.0, run.1@),
            _ => None,
        }),
{
    match bin {
        None => DetectResult { available: false, version: None, path: None, bundled: false },
        Some((path, bundled)) => {
            let version = match version_run {
                Some((success, stdout)) => {
                    let out = trim_chars(&chars_of(stdout.as_str()));
                    if success && out.len() > 0 {
                        Some(string_of(&out))
                    } else {
                        None
                    }
                },
                None => None,
            };
            DetectResult { available: true, version, path: Some(path), bundled }
        },
    }
}

} // verus!
