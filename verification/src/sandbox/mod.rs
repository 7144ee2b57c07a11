//! Sandbox policy: which files a command may read and write, and whether it
//! may use the network; and the choice of the front-end that enforces it.

pub mod linux;
pub mod macos;

use crate::text::{chars_of, lemma_views_push, opt_view, string_of_range, views};
use self::linux::LinuxHost;
use vstd::prelude::*;

verus! {

/// What a sandboxed command may touch.
///
/// Paths may start with `~`, which stands for the user's home directory.
/// A path listed in `deny_write` is denied even if `allow_write` lists it too.
#[derive(Debug, Clone)]
pub struct SandboxPolicy {
    pub enabled: bool,
    pub deny_read: Vec<String>,
    pub allow_write: Vec<String>,
    pub deny_write: Vec<String>,
    pub allow_network: bool,
}

/// The mathematical content of a [`SandboxPolicy`].
pub struct PolicyView {
    pub enabled: bool,
    pub deny_read: Seq<Seq<char>>,
    pub allow_write: Seq<Seq<char>>,
    pub deny_write: Seq<Seq<char>>,
    pub allow_network: bool,
}

impl View for SandboxPolicy {
    type V = PolicyView;

    open spec fn view(&self) -> PolicyView {
        PolicyView {
            enabled: self.enabled,
            deny_read: views(self.deny_read@),
            allow_write: views(self.allow_write@),
            deny_write: views(self.deny_write@),
            allow_network: self.allow_network,
        }
    }
}

/// The policy used when none is configured: the sandbox is on, the usual
/// credential directories are unreadable, nothing beyond the workspace and the
/// temp area is writable, and the network is off.
pub open spec fn default_policy() -> PolicyView {
    PolicyView {
        enabled: true,
        deny_read: seq!["~/.ssh"@, "~/.aws"@, "~/.gnupg"@, "~/.config/gcloud"@],
        allow_write: Seq::empty(),
        deny_write: Seq::empty(),
        allow_network: false,
    }
}

impl Default for SandboxPolicy {
    fn default() -> (policy: SandboxPolicy)
        ensures
            policy@ == default_policy(),
    {
        let mut deny_read: Vec<String> = Vec::new();
        deny_read.push("~/.ssh".to_string());
        deny_read.push("~/.aws".to_string());
        deny_read.push("~/.gnupg".to_string());
        deny_read.push("~/.config/gcloud".to_string());
        let policy = SandboxPolicy {
            enabled: true,
            deny_read,
            allow_write: Vec::new(),
            deny_write: Vec::new(),
            allow_network: false,
        };
        assert(policy@.deny_read =~= default_policy().deny_read);
        assert(policy@.allow_write =~= default_policy().allow_write);
        assert(policy@.deny_write =~= default_policy().deny_write);
        policy
    }
}

impl SandboxPolicy {
    /// The policy a caller gets when the stored one is missing or unreadable:
    /// the stored policy if there is one, the default otherwise.
    pub fn or_default(stored: Option<SandboxPolicy>) -> (policy: SandboxPolicy)
        ensures
            policy@ == (match stored {
                Some(p) => p@,
                None => default_policy(),
            }),
    {
        match stored {
            Some(p) => p,
            None => SandboxPolicy::default(),
        }
    }

    /// Adds `extra` to the end of `allow_write` and changes nothing else.
    pub fn allow_writes(&mut self, extra: Vec<String>)
        ensures
            final(self)@ == (PolicyView {
                allow_write: old(self)@.allow_write + views(extra@),
                ..old(self)@
            }),
    {
        let ghost before = self@;
        let mut i: usize = 0;
        while i < extra.len()
            invariant
                i <= extra.len(),
                self@ == (PolicyView {
                    allow_write: before.allow_write + views(extra@).take(i as int),
                    ..before
                }),
            decreases extra.len() - i,
        {
            let ghost writes = self.allow_write@;
            let item = extra[i].clone();
            self.allow_write.push(item);
            proof {
                lemma_views_push(writes, item);
                assert(views(extra@).take(i + 1) == views(extra@).take(i as int).push(item@));
                assert(self@.allow_write =~= before.allow_write + views(extra@).take(i + 1));
            }
            i += 1;
        }
        assert(views(extra@).take(extra.len() as int) == views(extra@));
    }
}

/// The mathematical content of an optional invocation: the program and its
/// arguments.
pub open spec fn command_view(command: Option<(String, Vec<String>)>) -> Option<
    (Seq<char>, Seq<Seq<char>>),
> {
    match command {
        Some(pair) => Some((pair.0@, views(pair.1@))),
        None => None,
    }
}

/// Whether `path` starts with the home shorthand: it is `~` or begins with `~/`.
pub open spec fn is_home_shorthand(path: Seq<char>) -> bool {
    path == seq!['~'] || (path.len() >= 2 && path[0] == '~' && path[1] == '/')
}

/// `path` with a leading `~` replaced by `home`, when there is a home
/// directory and `path` starts with the shorthand; `path` otherwise.
pub open spec fn tilde_expanded(path: Seq<char>, home: Option<Seq<char>>) -> Seq<char> {
    match home {
        Some(h) => if is_home_shorthand(path) {
            h + path.skip(1)
        } else {
            path
        },
        None => path,
    }
}

/// Where the policy is stored: `.officellm/sandbox-policy.json` below the
/// home directory, or below `/tmp` without a home directory.
pub open spec fn policy_path_of(home: Option<Seq<char>>) -> Seq<char> {
    crate::paths::joined(
        match home {
            Some(h) => h,
            None => "/tmp"@,
        },
        ".officellm/sandbox-policy.json"@,
    )
}

/// Where the policy is stored, given the home directory.
pub fn policy_path_in(home: Option<&str>) -> (path: String)
    ensures
        path@ == policy_path_of(opt_view(home)),
{
    let base = match home {
        Some(h) => h,
        None => "/tmp",
    };
    crate::paths::join_path(base, ".officellm/sandbox-policy.json")
}

/// Where the policy of the current user is stored.
pub fn policy_path() -> (path: String)
    ensures
        exists|home: Option<Seq<char>>| path@ == policy_path_of(home),
{
    let home = home_dir();
    policy_path_in(home_as_str(&home))
}

/// `dirs::home_dir`: the current user's home directory, if the system knows
/// one, as text. Nothing is claimed of the result: it depends on the
/// environment the process runs in.
#[verifier::external_body]
pub(crate) fn home_dir() -> (home: Option<String>) {
    dirs::home_dir().map(|p| p.to_string_lossy().into_owned())
}

/// The home directory as an optional string slice.
pub(crate) fn home_as_str(home: &Option<String>) -> (out: Option<&str>)
    ensures
        opt_view(out) == (match *home {
            Some(h) => Some(h@),
            None => None,
        }),
{
    match home {
        Some(h) => Some(h.as_str()),
        None => None,
    }
}

/// Expands the home shorthand of `path` against the given home directory.
pub fn expand_tilde_in(path: &str, home: Option<&str>) -> (out: String)
    ensures
        out@ == tilde_expanded(path@, opt_view(home)),
{
    let p = chars_of(path);
    let shorthand = (p.len() == 1 && p[0] == '~') || (p.len() >= 2 && p[0] == '~' && p[1] == '/');
    proof {
        if p.len() == 1 && p[0] == '~' {
            assert(path@ =~= seq!['~']);
        }
    }
    match home {
        Some(h) => {
            if shorthand {
                let mut out = h.to_string();
                let rest = string_of_range(&p, 1, p.len());
                out.append(rest.as_str());
                out
            } else {
                path.to_string()
            }
        },
        None => path.to_string(),
    }
}

/// Expands the home shorthand of `path` against the current user's home
/// directory. Without a home directory, or without the shorthand, the path
/// comes back unchanged.
pub fn expand_tilde(path: &str) -> (out: String)
    ensures
        exists|home: Option<Seq<char>>| out@ == tilde_expanded(path@, home),
        !is_home_shorthand(path@) ==> out@ == path@,
{
    let home = home_dir();
    expand_tilde_in(path, home_as_str(&home))
}

/// The front-end that enforces a policy on this machine.
#[derive(Debug, Clone)]
pub enum SandboxBackend {
    /// `sandbox-exec` with a Seatbelt profile.
    MacSeatbelt,
    /// `bwrap`, with what was found on the host.
    LinuxNamespace(LinuxHost),
    /// No sandbox on this platform.
    Unsupported,
}

/// Whether the backend can sandbox a command at all.
pub open spec fn backend_available(backend: SandboxBackend) -> bool {
    match backend {
        SandboxBackend::MacSeatbelt => true,
        SandboxBackend::LinuxNamespace(host) => host.bwrap_available,
        SandboxBackend::Unsupported => false,
    }
}

/// The backend's invocation for `cmd`, whatever the policy's `enabled` flag
/// says: none where the backend has no sandbox.
pub open spec fn backend_command(
    backend: SandboxBackend,
    cmd: Seq<char>,
    workspace_root: Seq<char>,
    policy: PolicyView,
    home: Option<Seq<char>>,
) -> Option<(Seq<char>, Seq<Seq<char>>)> {
    match backend {
        SandboxBackend::MacSeatbelt => Some(
            macos::seatbelt_command(macos::profile_text(workspace_root, policy, home), cmd),
        ),
        SandboxBackend::LinuxNamespace(host) => linux::bwrap_command(
            cmd,
            workspace_root,
            policy,
            host@,
            home,
        ),
        SandboxBackend::Unsupported => None,
    }
}

/// The sandboxed form of `cmd`: none where the policy switches the sandbox
/// off, else the backend's invocation.
pub open spec fn sandbox_command(
    backend: SandboxBackend,
    cmd: Seq<char>,
    workspace_root: Seq<char>,
    policy: PolicyView,
    home: Option<Seq<char>>,
) -> Option<(Seq<char>, Seq<Seq<char>>)> {
    if policy.enabled {
        backend_command(backend, cmd, workspace_root, policy, home)
    } else {
        None
    }
}

impl SandboxBackend {
    /// Whether this backend can sandbox a command.
    pub fn is_available(&self) -> (available: bool)
        ensures
            available == backend_available(*self),
    {
        match self {
            SandboxBackend::MacSeatbelt => macos::is_supported(),
            SandboxBackend::LinuxNamespace(host) => linux::is_supported(host),
            SandboxBackend::Unsupported => false,
        }
    }

    /// This backend's invocation for `cmd`, whatever the policy's `enabled`
    /// flag says, with the home shorthand expanded against `home`.
    pub fn build_invocation(
        &self,
        cmd: &str,
        workspace_root: &str,
        policy: &SandboxPolicy,
        home: Option<&str>,
    ) -> (command: Option<(String, Vec<String>)>)
        ensures
            command_view(command) == backend_command(
                *self,
                cmd@,
                workspace_root@,
                policy@,
                opt_view(home),
            ),
    {
        match self {
            SandboxBackend::MacSeatbelt => macos::build_command_in(
                cmd,
                workspace_root,
                policy,
                home,
            ),
            SandboxBackend::LinuxNamespace(host) => linux::build_command_in(
                cmd,
                workspace_root,
                policy,
                host,
                home,
            ),
            SandboxBackend::Unsupported => None,
        }
    }
}

/// Whether commands can be sandboxed on this machine.
pub fn is_sandbox_supported(backend: &SandboxBackend) -> (supported: bool)
    ensures
        supported == backend_available(*backend),
{
    backend.is_available()
}

/// The sandboxed form of `cmd`, with the home shorthand of the policy's paths
/// expanded against `home`; `None` where the command is to run unsandboxed.
pub fn build_sandbox_command_in(
    backend: &SandboxBackend,
    cmd: &str,
    workspace_root: &str,
    policy: &SandboxPolicy,
    home: Option<&str>,
) -> (command: Option<(String, Vec<String>)>)
    ensures
        command_view(command) == sandbox_command(
            *backend,
            cmd@,
            workspace_root@,
            policy@,
            opt_view(home),
        ),
{
    if !policy.enabled {
        return None;
    }
    backend.build_invocation(cmd, workspace_root, policy, home)
}

/// The sandboxed form of `cmd`, with the home shorthand expanded against the
/// current user's home directory; `None` where the command is to run
/// unsandboxed: the policy is switched off or the backend is unavailable.
pub fn build_sandbox_command(
    backend: &SandboxBackend,
    cmd: &str,
    workspace_root: &str,
    policy: &SandboxPolicy,
) -> (command: Option<(String, Vec<String>)>)
    ensures
        exists|home: Option<Seq<char>>|
            command_view(command) == #[trigger] sandbox_command(
                *backend,
                cmd@,
                workspace_root@,
                policy@,
                home,
            ),
        !policy.enabled || !backend_available(*backend) ==> command is None,
{
    if !policy.enabled {
        assert(command_view(None) == sandbox_command(
            *backend,
            cmd@,
            workspace_root@,
            policy@,
            None,
        ));
        return None;
    }
    let home = home_dir();
    build_sandbox_command_in(backend, cmd, workspace_root, policy, home_as_str(&home))
}

} // verus!
