//! The bookkeeping of the durable session registry: the record kept of
//! each session, where its files stand, the order in which sessions are
//! listed, and which history entries a retention cap removes. Reading and
//! writing the files is the caller's part.

use crate::clock::now_epoch;
use crate::ids::{hyphenated, is_random_uuid, SessionId};
use crate::order::{in_order, lemma_stably_sorted, sort_stably, stably_sorted, Ranked};
use crate::text::{chars_of, extend, text_of};
use vstd::prelude::*;

verus! {

/// How far a session has come.
#[derive(Clone, Copy, Debug, PartialEq, Eq)]
pub enum SessionStatus {
    Pending,
    Running,
    Exited,
}

/// The durable record of one detachable session.
#[derive(Clone, Debug)]
pub struct SessionInfo {
    pub id: SessionId,
    pub task_id: String,
    pub task_name: String,
    pub session_name: Option<String>,
    pub command: String,
    pub cwd: Option<String>,
    pub env: Option<Vec<(String, String)>>,
    pub env_clear: bool,
    pub status: SessionStatus,
    pub started_at: u64,
    pub ended_at: Option<u64>,
    pub exit_code: Option<u32>,
    pub runner_pid: Option<u32>,
    pub child_pid: Option<u32>,
    pub socket_path: Option<String>,
    pub running_task_pids: Vec<u32>,
}

/// Where the registry keeps its two trees.
pub struct SessionStore {
    active_dir: String,
    history_dir: String,
}

/// What is to be done to a session's directories.
#[derive(Clone, Debug, PartialEq, Eq)]
pub enum StoreStep {
    /// Delete the directory and all in it.
    RemoveDir { path: String },
    /// Rename the directory `from` to `to`.
    Rename { from: String, to: String },
}

/// What a `StoreStep` holds.
pub enum StoreStepModel {
    RemoveDir { path: Seq<char> },
    Rename { from: Seq<char>, to: Seq<char> },
}

impl View for StoreStep {
    type V = StoreStepModel;

    open spec fn view(&self) -> StoreStepModel {
        match self {
            StoreStep::RemoveDir { path } => StoreStepModel::RemoveDir { path: path@ },
            StoreStep::Rename { from, to } => StoreStepModel::Rename { from: from@, to: to@ },
        }
    }
}

/// What a list of steps holds.
pub open spec fn steps_view(steps: Seq<StoreStep>) -> Seq<StoreStepModel> {
    Seq::new(steps.len(), |i: int| steps[i]@)
}

/// The path `base` with the component `name` added: `name` alone when it
/// is absolute or `base` is empty, else the two with one `/` between them.
pub open spec fn path_join(base: Seq<char>, name: Seq<char>) -> Seq<char> {
    if (name.len() > 0 && name[0] == '/') || base.len() == 0 {
        name
    } else if base.last() == '/' {
        base + name
    } else {
        base + seq!['/'] + name
    }
}

/// The place of a status in a session's life.
pub open spec fn rank(status: SessionStatus) -> nat {
    match status {
        SessionStatus::Pending => 0,
        SessionStatus::Running => 1,
        SessionStatus::Exited => 2,
    }
}

/// The status after a move towards `to`: `to`, unless the session is
/// already further.
pub open spec fn advanced(status: SessionStatus, to: SessionStatus) -> SessionStatus {
    if rank(to) >= rank(status) {
        to
    } else {
        status
    }
}

impl Ranked for SessionInfo {
    /// A record may stand before another that started no earlier.
    open spec fn no_later(&self, other: &Self) -> bool {
        self.started_at <= other.started_at
    }

    proof fn total(a: &Self, b: &Self) {
    }

    proof fn transitive(a: &Self, b: &Self, c: &Self) {
    }

    fn stands_before(&self, other: &Self) -> (b: bool) {
        self.started_at <= other.started_at
    }
}

/// The records in order of start time, earliest first; records that
/// started at the same time keep the order they came in.
pub open spec fn by_start(s: Seq<SessionInfo>) -> Seq<SessionInfo> {
    stably_sorted(s)
}

/// The process ids that are known, in the order given.
pub open spec fn known_pids(pids: Seq<Option<u32>>) -> Seq<u32>
    decreases pids.len(),
{
    if pids.len() == 0 {
        Seq::empty()
    } else {
        match pids.last() {
            Some(pid) => known_pids(pids.drop_last()).push(pid),
            None => known_pids(pids.drop_last()),
        }
    }
}

/// No record starts before the one in front of it.
pub open spec fn in_start_order(s: Seq<SessionInfo>) -> bool {
    forall|i: int, j: int|
        0 <= i <= j < s.len() ==> (#[trigger] s[i]).started_at <= (#[trigger] s[j]).started_at
}

/// How many of the listed history entries a cap of `max_entries` removes.
pub open spec fn excess(count: nat, max_entries: nat) -> nat {
    if count <= max_entries {
        0
    } else {
        (count - max_entries) as nat
    }
}

/// The history entries that a cap of `max_entries` removes: the oldest by
/// start time, as many as are over the cap.
pub open spec fn doomed(s: Seq<SessionInfo>, max_entries: nat) -> Seq<SessionInfo> {
    by_start(s).take(excess(s.len(), max_entries) as int)
}

/// The history entries that stay under a cap of `max_entries`.
pub open spec fn kept(s: Seq<SessionInfo>, max_entries: nat) -> Seq<SessionInfo> {
    by_start(s).skip(excess(s.len(), max_entries) as int)
}

/// Listing in order of start time gives every record once, none twice, and
/// none that was not there; and the list is in order.
pub proof fn lemma_by_start(s: Seq<SessionInfo>)
    ensures
        in_start_order(by_start(s)),
        by_start(s).len() == s.len(),
        by_start(s).to_multiset() == s.to_multiset(),
{
    lemma_stably_sorted(s);
    let r = by_start(s);
}

/// Pruning a history of `count` entries down to a cap removes exactly the
/// `count - max_entries` oldest by start time and leaves exactly
/// `max_entries`, when there were that many; a history within the cap
/// loses nothing. Whatever is removed started no later than anything kept,
/// and removed and kept together are the history as it was.
pub proof fn lemma_prune(s: Seq<SessionInfo>, max_entries: nat)
    ensures
        doomed(s, max_entries).len() == excess(s.len(), max_entries),
        s.len() >= max_entries ==> kept(s, max_entries).len() == max_entries,
        s.len() <= max_entries ==> kept(s, max_entries).len() == s.len(),
        doomed(s, max_entries) + kept(s, max_entries) == by_start(s),
        by_start(s).to_multiset() == s.to_multiset(),
        forall|i: int, j: int|
            0 <= i < doomed(s, max_entries).len() && 0 <= j < kept(s, max_entries).len() ==> (
            #[trigger] doomed(s, max_entries)[i]).started_at <= (#[trigger] kept(
                s,
                max_entries,
            )[j]).started_at,
{
    lemma_by_start(s);
    let sorted = by_start(s);
    let n = excess(s.len(), max_entries) as int;
}

/// The path `base` with the component `name` added.
pub fn join_path(base: &str, name: &str) -> (r: String)
    ensures
        r@ == path_join(base@, name@),
{
    let b = chars_of(base);
    let n = chars_of(name);
    if (n.len() > 0 && n[0] == '/') || b.len() == 0 {
        return text_of(&n);
    }
    let mut out = b;
    if out[out.len() - 1] != '/' {
        out.push('/');
    }
    extend(&mut out, &n);
    text_of(&out)
}

/// The records in order of start time, earliest first; records that
/// started at the same time keep the order they came in.
pub fn list_sessions_in(found: Vec<SessionInfo>) -> (sorted: Vec<SessionInfo>)
    ensures
        sorted@ == by_start(found@),
        in_start_order(sorted@),
        sorted@.len() == found@.len(),
        sorted@.to_multiset() == found@.to_multiset(),
{
    proof {
        lemma_by_start(found@);
    }
    sort_stably(found)
}

impl SessionInfo {
    /// The record of a session that is about to start: pending since
    /// `now`, with no end, no process and no socket yet.
    pub fn pending(
        id: SessionId,
        now: u64,
        task_id: String,
        task_name: String,
        session_name: Option<String>,
        command: String,
        cwd: Option<String>,
        env: Option<Vec<(String, String)>>,
        env_clear: bool,
    ) -> (info: SessionInfo)
        ensures
            info.id == id,
            info.task_id == task_id,
            info.task_name == task_name,
            info.session_name == session_name,
            info.command == command,
            info.cwd == cwd,
            info.env == env,
            info.env_clear == env_clear,
            info.status == SessionStatus::Pending,
            info.started_at == now,
            info.ended_at is None,
            info.exit_code is None,
            info.runner_pid is None,
            info.child_pid is None,
            info.socket_path is None,
            info.running_task_pids@ == Seq::<u32>::empty(),
    {
        SessionInfo {
            id: id,
            task_id: task_id,
            task_name: task_name,
            session_name: session_name,
            command: command,
            cwd: cwd,
            env: env,
            env_clear: env_clear,
            status: SessionStatus::Pending,
            started_at: now,
            ended_at: None,
            exit_code: None,
            runner_pid: None,
            child_pid: None,
            socket_path: None,
            running_task_pids: Vec::new(),
        }
    }

    /// The host process `runner_pid` has bound the session's socket at
    /// `socket_path`: the session is running, unless it has already
    /// exited.
    pub fn mark_running(&mut self, runner_pid: u32, socket_path: String)
        ensures
            *final(self) == (SessionInfo {
                status: advanced(old(self).status, SessionStatus::Running),
                runner_pid: Some(runner_pid),
                socket_path: Some(socket_path),
                ..*old(self)
            }),
            rank(final(self).status) >= rank(old(self).status),
    {
        match self.status {
            SessionStatus::Exited => {},
            _ => {
                self.status = SessionStatus::Running;
            },
        }
        self.runner_pid = Some(runner_pid);
        self.socket_path = Some(socket_path);
    }

    /// The session's child runs as process `child_pid`, or its process id
    /// is unknown.
    pub fn set_child(&mut self, child_pid: Option<u32>)
        ensures
            *final(self) == (SessionInfo { child_pid: child_pid, ..*old(self) }),
    {
        self.child_pid = child_pid;
    }

    /// The host of the session runs as process `runner_pid`.
    pub fn set_runner(&mut self, runner_pid: u32)
        ensures
            *final(self) == (SessionInfo { runner_pid: Some(runner_pid), ..*old(self) }),
    {
        self.runner_pid = Some(runner_pid);
    }

    /// Records the processes of the tasks that run inside the session:
    /// those of `pids` that are known, in rising order.
    pub fn set_running_pids(&mut self, pids: &Vec<Option<u32>>)
        ensures
            final(self).running_task_pids@ == stably_sorted(known_pids(pids@)),
            in_order(final(self).running_task_pids@),
            *final(self) == (SessionInfo {
                running_task_pids: final(self).running_task_pids,
                ..*old(self)
            }),
    {
        let mut known: Vec<u32> = Vec::new();
        let mut i: usize = 0;
        while i < pids.len()
            invariant
                i <= pids@.len(),
                known@ == known_pids(pids@.take(i as int)),
            decreases pids@.len() - i,
        {
            assert(pids@.take(i + 1).drop_last() =~= pids@.take(i as int));
            match pids[i] {
                Some(pid) => {
                    known.push(pid);
                },
                None => {},
            }
            i += 1;
        }
        assert(pids@.take(pids@.len() as int) =~= pids@);
        self.running_task_pids = sort_stably(known);
    }

    /// The session's child ended at time `now` with `exit_code`.
    pub fn mark_exited(&mut self, now: u64, exit_code: u32)
        ensures
            *final(self) == (SessionInfo {
                status: SessionStatus::Exited,
                ended_at: Some(now),
                exit_code: Some(exit_code),
                ..*old(self)
            }),
            rank(final(self).status) >= rank(old(self).status),
    {
        self.status = SessionStatus::Exited;
        self.ended_at = Some(now);
        self.exit_code = Some(exit_code);
    }

    /// The process to signal to end the session: its host, or its child
    /// when no host is recorded.
    pub fn kill_target(&self) -> (pid: Option<u32>)
        ensures
            pid == match self.runner_pid {
                Some(runner) => Some(runner),
                None => self.child_pid,
            },
    {
        match self.runner_pid {
            Some(runner) => Some(runner),
            None => self.child_pid,
        }
    }
}

impl SessionStore {
    /// The directory of the active sessions.
    pub closed spec fn active_root(&self) -> Seq<char> {
        self.active_dir@
    }

    /// The directory of the sessions that have ended.
    pub closed spec fn history_root(&self) -> Seq<char> {
        self.history_dir@
    }

    /// The directory of session `id` while it is active.
    pub open spec fn active_dir_of(&self, id: SessionId) -> Seq<char> {
        path_join(self.active_root(), hyphenated(id.bits))
    }

    /// The directory of session `id` once it has ended.
    pub open spec fn history_dir_of(&self, id: SessionId) -> Seq<char> {
        path_join(self.history_root(), hyphenated(id.bits))
    }

    /// The registry of the user whose home directory is `home`: active
    /// sessions under `.cmdhub/sessions/active`, ended ones under
    /// `.cmdhub/sessions/history`.
    pub fn new(home: &str) -> (store: Self)
        ensures
            store.active_root() == path_join(
                path_join(path_join(home@, ".cmdhub"@), "sessions"@),
                "active"@,
            ),
            store.history_root() == path_join(
                path_join(path_join(home@, ".cmdhub"@), "sessions"@),
                "history"@,
            ),
    {
        let hub = join_path(home, ".cmdhub");
        let base = join_path(hub.as_str(), "sessions");
        Self {
            active_dir: join_path(base.as_str(), "active"),
            history_dir: join_path(base.as_str(), "history"),
        }
    }

    /// The directory of the active sessions.
    pub fn active_dir(&self) -> (r: String)
        ensures
            r@ == self.active_root(),
    {
        self.active_dir.clone()
    }

    /// The directory of the sessions that have ended.
    pub fn history_dir(&self) -> (r: String)
        ensures
            r@ == self.history_root(),
    {
        self.history_dir.clone()
    }

    /// The directory of session `id` while it is active.
    pub fn session_dir(&self, id: SessionId) -> (r: String)
        ensures
            r@ == self.active_dir_of(id),
    {
        let name = id.to_text();
        join_path(self.active_dir.as_str(), name.as_str())
    }

    /// The directory of session `id` once it has ended.
    pub fn history_session_dir(&self, id: SessionId) -> (r: String)
        ensures
            r@ == self.history_dir_of(id),
    {
        let name = id.to_text();
        join_path(self.history_dir.as_str(), name.as_str())
    }

    /// The file that holds the record of the active session `id`.
    pub fn session_meta_path(&self, id: SessionId) -> (r: String)
        ensures
            r@ == path_join(self.active_dir_of(id), "meta.json"@),
    {
        let dir = self.session_dir(id);
        join_path(dir.as_str(), "meta.json")
    }

    /// The file that holds the output of the active session `id`.
    pub fn session_log_path(&self, id: SessionId) -> (r: String)
        ensures
            r@ == path_join(self.active_dir_of(id), "output.log"@),
    {
        let dir = self.session_dir(id);
        join_path(dir.as_str(), "output.log")
    }

    /// The socket on which the host of the active session `id` listens.
    pub fn session_socket_path(&self, id: SessionId) -> (r: String)
        ensures
            r@ == path_join(self.active_dir_of(id), "attach.sock"@),
    {
        let dir = self.session_dir(id);
        join_path(dir.as_str(), "attach.sock")
    }

    /// Where the socket of session `id` stands once its directory has been
    /// moved to the history.
    pub fn history_socket_path(&self, id: SessionId) -> (r: String)
        ensures
            r@ == path_join(self.history_dir_of(id), "attach.sock"@),
    {
        let dir = self.history_session_dir(id);
        join_path(dir.as_str(), "attach.sock")
    }

    /// The record of a new session with a random identifier, pending since
    /// the time that the clock shows. The caller makes its directory and
    /// writes the record.
    pub fn create_session(
        &self,
        task_id: String,
        task_name: String,
        session_name: Option<String>,
        command: String,
        cwd: Option<String>,
        env: Option<Vec<(String, String)>>,
        env_clear: bool,
    ) -> (info: SessionInfo)
        ensures
            is_random_uuid(info.id.bits),
            info.task_id == task_id,
            info.task_name == task_name,
            info.session_name == session_name,
            info.command == command,
            info.cwd == cwd,
            info.env == env,
            info.env_clear == env_clear,
            info.status == SessionStatus::Pending,
            info.ended_at is None,
            info.exit_code is None,
            info.runner_pid is None,
            info.child_pid is None,
            info.socket_path is None,
            info.running_task_pids@ == Seq::<u32>::empty(),
    {
        let id = SessionId::fresh();
        let now = now_epoch();
        SessionInfo::pending(
            id,
            now,
            task_id,
            task_name,
            session_name,
            command,
            cwd,
            env,
            env_clear,
        )
    }

    /// What moving session `id` from the active tree to the history takes,
    /// given which of its two directories exist: a stale history entry of
    /// the same id is deleted first, then the active directory is renamed.
    /// Nothing is done for a session without an active directory.
    pub fn move_to_history(&self, id: SessionId, active_exists: bool, history_exists: bool) -> (steps:
        Vec<StoreStep>)
        ensures
            steps_view(steps@) == if !active_exists {
                Seq::<StoreStepModel>::empty()
            } else if history_exists {
                seq![
                    StoreStepModel::RemoveDir { path: self.history_dir_of(id) },
                    StoreStepModel::Rename {
                        from: self.active_dir_of(id),
                        to: self.history_dir_of(id),
                    },
                ]
            } else {
                seq![
                    StoreStepModel::Rename {
                        from: self.active_dir_of(id),
                        to: self.history_dir_of(id),
                    },
                ]
            },
    {
        let mut steps: Vec<StoreStep> = Vec::new();
        if active_exists {
            if history_exists {
                steps.push(StoreStep::RemoveDir { path: self.history_session_dir(id) });
            }
            steps.push(
                StoreStep::Rename { from: self.session_dir(id), to: self.history_session_dir(id) },
            );
        }
        steps
    }

    /// The directories to delete so that the history, whose records are
    /// `history`, keeps no more than `max_entries` entries: those of the
    /// oldest records by start time, as many as are over the cap, oldest
    /// first.
    pub fn prune_history(&self, history: Vec<SessionInfo>, max_entries: usize) -> (dirs: Vec<
        String,
    >)
        ensures
            dirs@.len() == excess(history@.len(), max_entries as nat),
            forall|i: int|
                0 <= i < dirs@.len() ==> (#[trigger] dirs@[i])@ == self.history_dir_of(
                    doomed(history@, max_entries as nat)[i].id,
                ),
            history@.len() - dirs@.len() == if history@.len() >= max_entries {
                max_entries as int
            } else {
                history@.len() as int
            },
    {
        let ghost all = history@;
        let sorted = list_sessions_in(history);
        let mut dirs: Vec<String> = Vec::new();
        if sorted.len() <= max_entries {
            return dirs;
        }
        let over = sorted.len() - max_entries;
        let mut i: usize = 0;
        while i < over
            invariant
                i <= over <= sorted@.len(),
                over == excess(all.len(), max_entries as nat),
                sorted@ == by_start(all),
                dirs@.len() == i,
                forall|k: int|
                    0 <= k < i ==> (#[trigger] dirs@[k])@ == self.history_dir_of(sorted@[k].id),
            decreases over - i,
        {
            dirs.push(self.history_session_dir(sorted[i].id));
            i += 1;
        }
        dirs
    }
}

} // verus!
