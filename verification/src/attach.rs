//! The decisions of the attach protocol: what a client replays before it
//! goes live, which of its keystrokes travel to the host and when it lets
//! go, and which session a name stands for. The wire carries raw bytes in
//! both directions; two bytes of the input direction are reserved.

use crate::ids::{id_of, uuid_parsed, SessionId};
use crate::models::AppConfig;
use crate::ring::tail_of;
use crate::session::SessionInfo;
use crate::text::{chars_of, extend, is_text, text_of};
use vstd::prelude::*;

verus! {

/// Most bytes of the persisted log that a client replays on attach.
pub const ATTACH_LOG_TAIL_BYTES: usize = 65536;

/// The keystroke (ASCII STX) by which the user detaches. The client acts on
/// it and never forwards it.
pub const DETACH_BYTE: u8 = 0x02;

/// The byte (ASCII form feed) by which a client asks the host's payload
/// for a full redraw.
pub const REDRAW_BYTE: u8 = 0x0c;

/// The retention cap of the history where the configuration names none.
pub const DEFAULT_HISTORY_LIMIT: usize = 10;

/// Why a client cannot attach.
#[derive(Clone, Copy, Debug, PartialEq, Eq)]
pub enum AttachError {
    /// The text is no identifier, and no active session has it as its
    /// name.
    NoSuchSession,
    /// The session's host has not bound its socket yet.
    NotAttachableYet,
}

/// What a client does with one read of keystrokes.
#[derive(Clone, Debug, PartialEq, Eq)]
pub struct InputDecision {
    /// The bytes to send to the host, possibly none.
    pub forward: Vec<u8>,
    /// Whether the client stops relaying after sending them.
    pub stop: bool,
}

/// Index of the first detach byte in `input`, or its length when it holds
/// none.
pub open spec fn first_detach(input: Seq<u8>) -> int
    decreases input.len(),
{
    if input.len() == 0 {
        0
    } else if input[0] == DETACH_BYTE {
        0
    } else {
        1 + first_detach(input.drop_first())
    }
}

/// The keystrokes of one read that travel to the host: those before the
/// first detach byte.
pub open spec fn forwarded(input: Seq<u8>) -> Seq<u8> {
    input.take(first_detach(input))
}

/// Whether a read of keystrokes ends the relay: the input is closed (an
/// empty read) or the user asked to detach.
pub open spec fn ends_relay(input: Seq<u8>) -> bool {
    input.len() == 0 || first_detach(input) < input.len()
}

/// Where in a log of `size` bytes the replay of at most `limit` bytes
/// begins.
pub open spec fn replay_start(size: nat, limit: nat) -> nat {
    if size <= limit {
        0
    } else {
        (size - limit) as nat
    }
}

/// Whether a session's payload redraws itself on request: the built-in
/// interface does, a plain command does not.
pub open spec fn redraws_itself(info: SessionInfo) -> bool {
    info.task_id@ == "tui"@ || info.command@ == "tui"@
}

/// Whether `name` is the session name of `info`.
pub open spec fn is_named(info: SessionInfo, name: Seq<char>) -> bool {
    match info.session_name {
        Some(n) => n@ == name,
        None => false,
    }
}

/// The session named `name` that started last; among those that started
/// together, the one listed last. `None` when no session has that name.
pub open spec fn latest_named(sessions: Seq<SessionInfo>, name: Seq<char>) -> Option<SessionInfo>
    decreases sessions.len(),
{
    if sessions.len() == 0 {
        None
    } else {
        let before = latest_named(sessions.drop_last(), name);
        let x = sessions.last();
        if is_named(x, name) {
            match before {
                Some(best) => if best.started_at > x.started_at {
                    Some(best)
                } else {
                    Some(x)
                },
                None => Some(x),
            }
        } else {
            before
        }
    }
}

/// The session that `name_or_id` stands for, given what reading it as an
/// identifier gave: that identifier, else the latest active session of
/// that name.
pub open spec fn resolved(parsed: Option<SessionId>, sessions: Seq<SessionInfo>, name: Seq<char>)
    -> Result<SessionId, AttachError> {
    match parsed {
        Some(id) => Ok(id),
        None => match latest_named(sessions, name) {
            Some(info) => Ok(info.id),
            None => Err(AttachError::NoSuchSession),
        },
    }
}

/// A first detach byte found by scanning is the one `first_detach` names.
pub proof fn lemma_first_detach(input: Seq<u8>, i: int)
    requires
        0 <= i <= input.len(),
        forall|j: int| 0 <= j < i ==> input[j] != DETACH_BYTE,
        i == input.len() || input[i] == DETACH_BYTE,
    ensures
        first_detach(input) == i,
    decreases input.len(),
{
    if input.len() > 0 && i > 0 {
        let rest = input.drop_first();
        lemma_first_detach(rest, i - 1);
    }
}

/// The detach byte never travels to the host.
pub proof fn lemma_detach_stays_local(input: Seq<u8>)
    ensures
        0 <= first_detach(input) <= input.len(),
        forall|j: int| 0 <= j < forwarded(input).len() ==> forwarded(input)[j] != DETACH_BYTE,
    decreases input.len(),
{
    if input.len() > 0 && input[0] != DETACH_BYTE {
        let rest = input.drop_first();
        lemma_detach_stays_local(rest);
        assert forall|j: int| 0 <= j < forwarded(input).len() implies forwarded(input)[j]
            != DETACH_BYTE by {
            if j > 0 {
                assert(forwarded(input)[j] == forwarded(rest)[j - 1]);
            }
        }
    }
}

/// What a client shows on attach joins without a seam: the replay is
/// exactly the last `min(limit, size)` bytes of the log as it stood, and
/// followed by the bytes `live` produced afterwards it is one unbroken
/// stretch of the session's output, with no byte lost and none twice.
pub proof fn lemma_replay_joins_live(log: Seq<u8>, live: Seq<u8>, limit: nat)
    ensures
        log.skip(replay_start(log.len(), limit) as int) == tail_of(log, limit),
        tail_of(log, limit).len() == if log.len() <= limit {
            log.len()
        } else {
            limit
        },
        tail_of(log, limit) + live == (log + live).skip(replay_start(log.len(), limit) as int),
{
    let start = replay_start(log.len(), limit) as int;
}

impl AttachError {
    /// The error in words, for the user who asked for `name_or_id`.
    pub fn message(&self, name_or_id: &str) -> (text: String)
        ensures
            text@ == match self {
                AttachError::NoSuchSession => "no active session named '"@ + name_or_id@ + "'"@,
                AttachError::NotAttachableYet => "session is not attachable yet"@,
            },
    {
        match self {
            AttachError::NoSuchSession => {
                let mut out = chars_of("no active session named '");
                let name = chars_of(name_or_id);
                let quote = chars_of("'");
                extend(&mut out, &name);
                extend(&mut out, &quote);
                text_of(&out)
            },
            AttachError::NotAttachableYet => "session is not attachable yet".to_owned(),
        }
    }
}

/// The socket on which the session's host listens; an error while the
/// host has not bound it.
pub fn attach_socket(info: &SessionInfo) -> (r: Result<String, AttachError>)
    ensures
        match r {
            Ok(path) => info.socket_path matches Some(s) && path@ == s@,
            Err(e) => info.socket_path is None && e == AttachError::NotAttachableYet,
        },
{
    match &info.socket_path {
        Some(path) => Ok(path.clone()),
        None => Err(AttachError::NotAttachableYet),
    }
}

/// Whether the payload of the session redraws itself on request. A client
/// of such a session sends the redraw byte and replays nothing.
pub fn needs_refresh(info: &SessionInfo) -> (b: bool)
    ensures
        b == redraws_itself(*info),
{
    let task = chars_of(info.task_id.as_str());
    let command = chars_of(info.command.as_str());
    is_text(&task, "tui") || is_text(&command, "tui")
}

/// The name under which a session is shown: its session name, or its
/// task's name when it has none.
pub fn display_name(info: &SessionInfo) -> (name: String)
    ensures
        name@ == match info.session_name {
            Some(n) => n@,
            None => info.task_name@,
        },
{
    match &info.session_name {
        Some(n) => n.clone(),
        None => info.task_name.clone(),
    }
}

/// Where in a log of `size` bytes the replay of at most `limit` bytes
/// begins.
pub fn tail_start(size: u64, limit: u64) -> (start: u64)
    ensures
        start == replay_start(size as nat, limit as nat),
        start <= size,
        size - start == if size <= limit {
            size
        } else {
            limit
        },
{
    if size <= limit {
        0
    } else {
        size - limit
    }
}

/// The replay of a log: its last `limit` bytes, or all of it when it is
/// shorter.
pub fn log_tail(log: &[u8], limit: usize) -> (tail: Vec<u8>)
    ensures
        tail@ == tail_of(log@, limit as nat),
        tail@ == log@.skip(replay_start(log@.len(), limit as nat) as int),
{
    let n = log.len();
    let start: usize = if n <= limit {
        0
    } else {
        n - limit
    };
    let mut tail: Vec<u8> = Vec::new();
    let mut i: usize = start;
    while i < n
        invariant
            start <= i <= n,
            n == log@.len(),
            tail@ == log@.subrange(start as int, i as int),
        decreases n - i,
    {
        tail.push(log[i]);
        i += 1;
    }
    tail
}

/// What a client sends as soon as it is connected: the redraw byte when
/// the session's payload redraws itself, else nothing.
pub fn opening_bytes(needs_refresh: bool) -> (bytes: Vec<u8>)
    ensures
        bytes@ == if needs_refresh {
            seq![REDRAW_BYTE]
        } else {
            Seq::<u8>::empty()
        },
{
    let mut bytes: Vec<u8> = Vec::new();
    if needs_refresh {
        bytes.push(REDRAW_BYTE);
    }
    bytes
}

/// What a client does with one read of keystrokes: the bytes before the
/// first detach byte go to the host; the relay ends on a detach byte and
/// on an empty read.
pub fn on_input(input: &[u8]) -> (decision: InputDecision)
    ensures
        decision.forward@ == forwarded(input@),
        decision.stop == ends_relay(input@),
        forall|j: int| 0 <= j < decision.forward@.len() ==> decision.forward@[j] != DETACH_BYTE,
{
    let n = input.len();
    let mut forward: Vec<u8> = Vec::new();
    let mut i: usize = 0;
    while i < n && input[i] != DETACH_BYTE
        invariant
            i <= n,
            n == input@.len(),
            forward@ == input@.take(i as int),
            forall|j: int| 0 <= j < i ==> input@[j] != DETACH_BYTE,
        decreases n - i,
    {
        forward.push(input[i]);
        i += 1;
    }
    proof {
        lemma_first_detach(input@, i as int);
    }
    InputDecision { forward: forward, stop: n == 0 || i < n }
}

/// The latest session named `name` among `sessions`.
pub fn find_latest_named<'a>(sessions: &'a Vec<SessionInfo>, name: &str) -> (r: Option<
    &'a SessionInfo,
>)
    ensures
        match r {
            Some(info) => latest_named(sessions@, name@) == Some(*info),
            None => latest_named(sessions@, name@) is None,
        },
{
    let key = chars_of(name);
    let mut best: Option<usize> = None;
    let mut i: usize = 0;
    while i < sessions.len()
        invariant
            i <= sessions@.len(),
            key@ == name@,
            match best {
                Some(k) => k < i && latest_named(sessions@.take(i as int), name@) == Some(
                    sessions@[k as int],
                ),
                None => latest_named(sessions@.take(i as int), name@) is None,
            },
        decreases sessions@.len() - i,
    {
        assert(sessions@.take(i + 1).drop_last() =~= sessions@.take(i as int));
        let named = match &sessions[i].session_name {
            Some(n) => is_text(&key, n.as_str()),
            None => false,
        };
        if named {
            match best {
                Some(k) => {
                    if !(sessions[k].started_at > sessions[i].started_at) {
                        best = Some(i);
                    }
                },
                None => {
                    best = Some(i);
                },
            }
        }
        i += 1;
    }
    assert(sessions@.take(sessions@.len() as int) =~= sessions@);
    match best {
        Some(k) => Some(&sessions[k]),
        None => None,
    }
}

/// The session that `name_or_id` stands for, given what reading it as an
/// identifier gave.
pub fn resolve_parsed(parsed: Option<SessionId>, sessions: &Vec<SessionInfo>, name_or_id: &str)
    -> (r: Result<SessionId, AttachError>)
    ensures
        r == resolved(parsed, sessions@, name_or_id@),
{
    match parsed {
        Some(id) => Ok(id),
        None => match find_latest_named(sessions, name_or_id) {
            Some(info) => Ok(info.id),
            None => Err(AttachError::NoSuchSession),
        },
    }
}

/// The session that `name_or_id` stands for among the active sessions: the
/// one with that identifier when the text writes one, else the latest one
/// of that name.
pub fn resolve_session_id(sessions: &Vec<SessionInfo>, name_or_id: &str) -> (r: Result<
    SessionId,
    AttachError,
>)
    ensures
        r == resolved(id_of(uuid_parsed(name_or_id@)), sessions@, name_or_id@),
{
    resolve_parsed(SessionId::parse(name_or_id), sessions, name_or_id)
}

/// The retention cap of the history that a configuration asks for.
pub fn load_history_limit(config: &AppConfig) -> (limit: usize)
    ensures
        limit == match config.history_limit {
            Some(n) => n,
            None => DEFAULT_HISTORY_LIMIT,
        },
{
    match config.history_limit {
        Some(n) => n,
        None => DEFAULT_HISTORY_LIMIT,
    }
}

} // verus!
