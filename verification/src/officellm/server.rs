//! The one session of the document tool: open, busy with a request, closed.

use super::SessionInfo;
use crate::text::{append_chars, decimal, decimal_chars};
use vstd::prelude::*;

verus! {

/// The number of the first request after a session is open; the request
/// that opens it has the number before.
pub const FIRST_REQUEST_ID: u64 = 2;

/// How long an answer is waited for, in seconds.
pub const IO_TIMEOUT_SECS: u64 = 60;

/// How long the answer to the opening request is waited for, in seconds.
pub const OPEN_TIMEOUT_SECS: u64 = 10;

/// A session that is open.
pub struct Session {
    pub document_path: String,
    pub pid: u32,
    /// When the session was opened, in seconds of a clock that only rises.
    pub started_at: u64,
    /// Whether a request is under way: the pipes are with whoever makes it.
    pub busy: bool,
    /// The number of the next request.
    pub next_id: u64,
}

/// The place of the one session there can be.
pub struct SessionSlot {
    pub session: Option<Session>,
}

/// The mathematical content of a [`Session`].
pub struct SessionView {
    pub document_path: Seq<char>,
    pub pid: u32,
    pub started_at: u64,
    pub busy: bool,
    pub next_id: u64,
}

impl View for Session {
    type V = SessionView;

    open spec fn view(&self) -> SessionView {
        SessionView {
            document_path: self.document_path@,
            pid: self.pid,
            started_at: self.started_at,
            busy: self.busy,
            next_id: self.next_id,
        }
    }
}

impl View for SessionSlot {
    type V = Option<SessionView>;

    open spec fn view(&self) -> Option<SessionView> {
        match self.session {
            Some(s) => Some(s@),
            None => None,
        }
    }
}

/// The number after `id`, starting over after the largest.
pub open spec fn following(id: u64) -> u64 {
    if id == u64::MAX {
        0
    } else {
        (id + 1) as u64
    }
}

/// How long a session that was opened at `started_at` has been open at
/// `now`.
pub open spec fn uptime(started_at: u64, now: u64) -> u64 {
    if now >= started_at {
        (now - started_at) as u64
    } else {
        0
    }
}

/// How the end of a process is worded: its exit code, the signal that
/// killed it, or that nothing is known.
pub open spec fn exit_status_text(code: Option<i32>, signal: Option<i32>) -> Seq<char> {
    match code {
        Some(c) => "exit code "@ + signed_decimal(c as int),
        None => match signal {
            Some(s) => "killed by signal "@ + signed_decimal(s as int),
            None => "unknown exit status"@,
        },
    }
}

/// The number in decimal notation, with a minus sign if it is negative.
pub open spec fn signed_decimal(n: int) -> Seq<char> {
    if n < 0 {
        seq!['-'] + decimal((-n) as nat)
    } else {
        decimal(n as nat)
    }
}

/// The view of a request's number, or of the refusal.
pub open spec fn id_view(id: Result<u64, String>) -> Result<u64, Seq<char>> {
    match id {
        Ok(n) => Ok(n),
        Err(message) => Err(message@),
    }
}

/// What starting a request does to the slot, and what it answers: without a
/// session, or with a busy one, a refusal and no change; else the number of
/// the request, and the session busy with the next number in store.
pub open spec fn taken(slot: Option<SessionView>) -> (Option<SessionView>, Result<u64, Seq<char>>) {
    match slot {
        None => (slot, Err("无活跃会话，请先调用 open()"@)),
        Some(s) => if s.busy {
            (slot, Err("会话正在处理其他请求，请稍候"@))
        } else {
            (Some(SessionView { busy: true, next_id: following(s.next_id), ..s }), Ok(s.next_id))
        },
    }
}

impl SessionSlot {
    /// The slot with no session in it.
    pub fn new() -> (slot: SessionSlot)
        ensures
            slot@ is None,
    {
        SessionSlot { session: None }
    }

    /// Whether a session may be opened: only if none is open.
    pub fn check_free(&self) -> (verdict: Result<(), String>)
        ensures
            crate::text::verdict_view(verdict) == (if self@ is Some {
                Some("已有活跃会话，请先调用 close() 关闭"@)
            } else {
                None
            }),
    {
        if self.session.is_some() {
            Err("已有活跃会话，请先调用 close() 关闭".to_string())
        } else {
            Ok(())
        }
    }

    /// Puts a session that was just opened into the slot, in place of any
    /// that was there: idle, its next request the first after the opening
    /// one.
    pub fn opened(&mut self, document_path: String, pid: u32, now: u64)
        ensures
            final(self)@ == Some(
                SessionView {
                    document_path: document_path@,
                    pid,
                    started_at: now,
                    busy: false,
                    next_id: FIRST_REQUEST_ID,
                },
            ),
    {
        self.session = Some(
            Session { document_path, pid, started_at: now, busy: false, next_id: FIRST_REQUEST_ID },
        );
    }

    /// Starts a request: marks the session busy and returns the request's
    /// number. Refused where no session is open or one request is under way.
    pub fn take_io(&mut self) -> (id: Result<u64, String>)
        ensures
            (final(self)@, id_view(id)) == taken(old(self)@),
    {
        match self.session.take() {
            None => Err("无活跃会话，请先调用 open()".to_string()),
            Some(session) => {
                if session.busy {
                    self.session = Some(session);
                    Err("会话正在处理其他请求，请稍候".to_string())
                } else {
                    let id = session.next_id;
                    self.session = Some(
                        Session {
                            document_path: session.document_path,
                            pid: session.pid,
                            started_at: session.started_at,
                            busy: true,
                            next_id: id.wrapping_add(1),
                        },
                    );
                    Ok(id)
                }
            },
        }
    }

    /// Ends a request that went well: the session, if it is still there, is
    /// idle again.
    pub fn return_io(&mut self)
        ensures
            final(self)@ == (match old(self)@ {
                Some(s) => Some(SessionView { busy: false, ..s }),
                None => None,
            }),
    {
        match self.session.take() {
            Some(session) => {
                self.session = Some(
                    Session {
                        document_path: session.document_path,
                        pid: session.pid,
                        started_at: session.started_at,
                        busy: false,
                        next_id: session.next_id,
                    },
                );
            },
            None => {},
        }
    }

    /// Ends a request that failed: the session is given up. Returns the
    /// process to kill, if there was a session.
    pub fn kill_on_io_error(&mut self) -> (pid: Option<u32>)
        ensures
            final(self)@ is None,
            pid == (match old(self)@ {
                Some(s) => Some(s.pid),
                None => None,
            }),
    {
        match self.session.take() {
            Some(session) => Some(session.pid),
            None => None,
        }
    }
}

/// The view of a status: the document, the process and the uptime.
pub open spec fn info_view(info: Result<Option<SessionInfo>, String>) -> Result<
    Option<(Seq<char>, u32, u64)>,
    Seq<char>,
> {
    match info {
        Ok(Some(i)) => Ok(Some((i.document_path@, i.pid, i.uptime_secs))),
        Ok(None) => Ok(None),
        Err(message) => Err(message@),
    }
}

/// Closes the session, if one is open. Returns the process to kill, if
/// there was a session; closing without a session is no error.
pub fn close(slot: &mut SessionSlot) -> (pid: Result<Option<u32>, String>)
    ensures
        final(slot)@ is None,
        pid == Ok::<Option<u32>, String>(
            match old(slot)@ {
                Some(s) => Some(s.pid),
                None => None,
            },
        ),
{
    Ok(slot.kill_on_io_error())
}

/// Whether a session is open.
pub fn has_session(slot: &SessionSlot) -> (open: bool)
    ensures
        open == (slot@ is Some),
{
    slot.session.is_some()
}

/// The session that is open at the time `now`, if one is.
pub fn status(slot: &SessionSlot, now: u64) -> (info: Result<Option<SessionInfo>, String>)
    ensures
        info_view(info) == Ok::<Option<(Seq<char>, u32, u64)>, Seq<char>>(
            match slot@ {
                Some(s) => Some((s.document_path, s.pid, uptime(s.started_at, now))),
                None => None,
            },
        ),
{
    match &slot.session {
        Some(session) => Ok(
            Some(
                SessionInfo {
                    document_path: session.document_path.clone(),
                    pid: session.pid,
                    uptime_secs: if now >= session.started_at {
                        now - session.started_at
                    } else {
                        0
                    },
                },
            ),
        ),
        None => Ok(None),
    }
}

/// How the end of a process is worded. `code` is its exit code, `signal` the
/// signal that killed it.
pub fn format_exit_status(code: Option<i32>, signal: Option<i32>) -> (text: String)
    ensures
        text@ == exit_status_text(code, signal),
{
    match code {
        Some(c) => {
            let mut text = "exit code ".to_string();
            push_signed(&mut text, c);
            text
        },
        None => match signal {
            Some(s) => {
                let mut text = "killed by signal ".to_string();
                push_signed(&mut text, s);
                text
            },
            None => "unknown exit status".to_string(),
        },
    }
}

/// Appends the number in decimal notation.
fn push_signed(text: &mut String, n: i32)
    ensures
        final(text)@ == old(text)@ + signed_decimal(n as int),
{
    if n < 0 {
        let magnitude: u128 = (-(n as i64)) as u128;
        text.append("-");
        proof {
            reveal_strlit("-");
            assert("-"@ =~= seq!['-']);
        }
        append_chars(text, &decimal_chars(magnitude));
        assert(text@ =~= old(text)@ + signed_decimal(n as int));
    } else {
        append_chars(text, &decimal_chars(n as u128));
    }
}

} // verus!
