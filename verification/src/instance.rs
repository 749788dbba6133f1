//! One spawned execution of a task, as the table describes it, and the
//! structured shell-state messages that a cooperating shell sends through
//! the terminal title: `CMDHUB:` followed by `;`-separated `key=value`
//! pairs.

use crate::clock::now_epoch;
use crate::text::{
    chars_of, find_char, first_at, has_prefix, is_text, parse_u32, slice_of, split, split_on,
    starts_with, texts, trim, trimmed, u32_of,
};
use vstd::prelude::*;

verus! {

/// How an instance stands.
#[derive(Clone, Debug, PartialEq, Eq)]
pub enum InstanceStatus {
    Running,
    Exited(u32),
    Error(String),
}

/// What an `InstanceStatus` holds.
pub enum StatusModel {
    Running,
    Exited(u32),
    Error(Seq<char>),
}

impl View for InstanceStatus {
    type V = StatusModel;

    open spec fn view(&self) -> StatusModel {
        match self {
            InstanceStatus::Running => StatusModel::Running,
            InstanceStatus::Exited(code) => StatusModel::Exited(*code),
            InstanceStatus::Error(message) => StatusModel::Error(message@),
        }
    }
}

/// The description of one instance.
#[derive(Clone, Debug)]
pub struct InstanceInfo {
    pub id: String,
    pub task_id: String,
    pub task_name: String,
    pub status: InstanceStatus,
    pub started_at: u64,
    pub ended_at: Option<u64>,
    pub child_pid: Option<u32>,
    pub title: Option<String>,
}

/// What an `InstanceInfo` holds.
pub struct InfoModel {
    pub id: Seq<char>,
    pub task_id: Seq<char>,
    pub task_name: Seq<char>,
    pub status: StatusModel,
    pub started_at: u64,
    pub ended_at: Option<u64>,
    pub child_pid: Option<u32>,
    pub title: Option<Seq<char>>,
}

impl View for InstanceInfo {
    type V = InfoModel;

    open spec fn view(&self) -> InfoModel {
        InfoModel {
            id: self.id@,
            task_id: self.task_id@,
            task_name: self.task_name@,
            status: self.status@,
            started_at: self.started_at,
            ended_at: self.ended_at,
            child_pid: self.child_pid,
            title: match self.title {
                Some(t) => Some(t@),
                None => None,
            },
        }
    }
}

impl InstanceStatus {
    /// Whether the instance has ended: it exited or failed.
    pub open spec fn is_terminal(self) -> bool {
        !(self is Running)
    }

    /// A copy of the status.
    pub fn duplicate(&self) -> (r: InstanceStatus)
        ensures
            r@ == self@,
    {
        match self {
            InstanceStatus::Running => InstanceStatus::Running,
            InstanceStatus::Exited(code) => InstanceStatus::Exited(*code),
            InstanceStatus::Error(message) => InstanceStatus::Error(message.clone()),
        }
    }

    /// Whether the instance has ended: it exited or failed.
    pub fn ended(&self) -> (b: bool)
        ensures
            b == self.is_terminal(),
    {
        match self {
            InstanceStatus::Running => false,
            _ => true,
        }
    }
}

impl InstanceInfo {
    /// A copy of the description.
    pub fn duplicate(&self) -> (r: InstanceInfo)
        ensures
            r@ == self@,
    {
        InstanceInfo {
            id: self.id.clone(),
            task_id: self.task_id.clone(),
            task_name: self.task_name.clone(),
            status: self.status.duplicate(),
            started_at: self.started_at,
            ended_at: self.ended_at,
            child_pid: self.child_pid,
            title: match &self.title {
                Some(t) => Some(t.clone()),
                None => None,
            },
        }
    }
}

/// What the pairs of a shell-state message say: the last `state` value,
/// and the `pid` and `code` of the last pair that gave one (nothing when
/// that pair's value is no number).
pub struct ShellFields {
    pub state: Option<Seq<char>>,
    pub pid: Option<u32>,
    pub code: Option<u32>,
}

/// The key of a `key=value` pair: what stands before the first `=`,
/// trimmed.
pub open spec fn pair_key(part: Seq<char>) -> Seq<char> {
    trimmed(part.take(first_at(part, '=')))
}

/// The value of a `key=value` pair: what follows the first `=`, trimmed;
/// empty when there is no `=`.
pub open spec fn pair_value(part: Seq<char>) -> Seq<char> {
    let eq = first_at(part, '=');
    if 0 <= eq < part.len() {
        trimmed(part.skip(eq + 1))
    } else {
        Seq::empty()
    }
}

/// The fields after one more pair. A pair with another key changes nothing.
pub open spec fn field_taken(fields: ShellFields, part: Seq<char>) -> ShellFields {
    let key = pair_key(part);
    let value = pair_value(part);
    if key == "state"@ {
        ShellFields { state: Some(value), ..fields }
    } else if key == "pid"@ {
        ShellFields { pid: u32_of(value), ..fields }
    } else if key == "code"@ {
        ShellFields { code: u32_of(value), ..fields }
    } else {
        fields
    }
}

/// The fields that the pairs `parts` give, read left to right.
pub open spec fn fields_of(parts: Seq<Seq<char>>) -> ShellFields
    decreases parts.len(),
{
    if parts.len() == 0 {
        ShellFields { state: None, pid: None, code: None }
    } else {
        field_taken(fields_of(parts.drop_last()), parts.last())
    }
}

/// Whether a title, once trimmed, is a shell-state message.
pub open spec fn is_shell_message(title: Seq<char>) -> bool {
    starts_with(trimmed(title), "CMDHUB:"@)
}

/// The fields of a shell-state message.
pub open spec fn message_fields(title: Seq<char>) -> ShellFields {
    fields_of(split_on(trimmed(title).skip("CMDHUB:"@.len() as int), ';'))
}

/// Whether a title is a shell-state message that reports a state this
/// engine knows: `running` or `exited`.
pub open spec fn reports_state(title: Seq<char>) -> bool {
    is_shell_message(title) && (message_fields(title).state == Some("running"@)
        || message_fields(title).state == Some("exited"@))
}

/// The description after the title `title` was received at time `now`.
/// `state=running` makes the instance running again, clears its end time
/// and adopts the `pid` given, if any. `state=exited` makes it exited with
/// the `code` given (0 when none is) and stamps the end time. Anything else
/// changes nothing.
pub open spec fn message_applied(info: InfoModel, title: Seq<char>, now: u64) -> InfoModel {
    if !is_shell_message(title) {
        info
    } else {
        let fields = message_fields(title);
        if fields.state == Some("running"@) {
            InfoModel {
                status: StatusModel::Running,
                ended_at: None,
                child_pid: match fields.pid {
                    Some(pid) => Some(pid),
                    None => info.child_pid,
                },
                ..info
            }
        } else if fields.state == Some("exited"@) {
            InfoModel {
                status: StatusModel::Exited(
                    match fields.code {
                        Some(code) => code,
                        None => 0u32,
                    },
                ),
                ended_at: Some(now),
                ..info
            }
        } else {
            info
        }
    }
}

/// A title changes nothing but status, end time and process id, and only a
/// message that reports a state changes anything at all.
pub proof fn lemma_message_touches_state_only(info: InfoModel, title: Seq<char>, now: u64)
    ensures
        message_applied(info, title, now).id == info.id,
        message_applied(info, title, now).task_id == info.task_id,
        message_applied(info, title, now).task_name == info.task_name,
        message_applied(info, title, now).started_at == info.started_at,
        message_applied(info, title, now).title == info.title,
        !reports_state(title) ==> message_applied(info, title, now) == info,
{
}

/// An instance that has ended runs again only on a message that reports
/// `state=running`, and only such a message clears an end time.
pub proof fn lemma_only_running_message_revives(info: InfoModel, title: Seq<char>, now: u64)
    ensures
        !(info.status is Running) && message_applied(info, title, now).status is Running
            ==> is_shell_message(title) && message_fields(title).state == Some("running"@),
        info.ended_at is Some && message_applied(info, title, now).ended_at is None
            ==> is_shell_message(title) && message_fields(title).state == Some("running"@),
{
}

/// What a shell-state message's pairs say, as the scanner holds it.
struct Fields {
    state: Option<Vec<char>>,
    pid: Option<u32>,
    code: Option<u32>,
}

impl View for Fields {
    type V = ShellFields;

    closed spec fn view(&self) -> ShellFields {
        ShellFields {
            state: match self.state {
                Some(s) => Some(s@),
                None => None,
            },
            pid: self.pid,
            code: self.code,
        }
    }
}

/// Reads one `key=value` pair into `fields`.
fn take_field(fields: &mut Fields, part: &Vec<char>)
    ensures
        final(fields)@ == field_taken(old(fields)@, part@),
{
    let eq = find_char(part, 0, '=');
    assert(part@.skip(0) =~= part@);
    let raw_key = slice_of(part, 0, eq);
    let key = trim(&raw_key);
    let mut value: Vec<char> = Vec::new();
    if eq < part.len() {
        let raw_value = slice_of(part, eq + 1, part.len());
        value = trim(&raw_value);
    }
    if is_text(&key, "state") {
        fields.state = Some(value);
    } else if is_text(&key, "pid") {
        fields.pid = parse_u32(&value);
    } else if is_text(&key, "code") {
        fields.code = parse_u32(&value);
    }
}

/// Reads the pairs `parts` left to right.
fn read_fields(parts: &Vec<Vec<char>>) -> (fields: Fields)
    ensures
        fields@ == fields_of(texts(parts@)),
{
    let mut fields = Fields { state: None, pid: None, code: None };
    let mut i: usize = 0;
    while i < parts.len()
        invariant
            i <= parts@.len(),
            fields@ == fields_of(texts(parts@).take(i as int)),
        decreases parts@.len() - i,
    {
        let ghost seen = texts(parts@).take(i as int);
        let ghost now = texts(parts@).take(i + 1);
        assert(now.drop_last() =~= seen);
        take_field(&mut fields, &parts[i]);
        i += 1;
    }
    assert(texts(parts@).take(parts@.len() as int) =~= texts(parts@));
    fields
}

/// Whether `title`, once trimmed, is a shell-state message.
pub fn is_cmdhub_title(title: &str) -> (b: bool)
    ensures
        b == is_shell_message(title@),
{
    let chars = chars_of(title);
    let t = trim(&chars);
    let prefix = chars_of("CMDHUB:");
    has_prefix(&t, &prefix)
}

/// Applies the title `title`, received at time `now`, to `info` if it is a
/// shell-state message; says whether it reported a state.
pub fn apply_cmdhub_title_at(title: &str, info: &mut InstanceInfo, now: u64) -> (changed: bool)
    ensures
        final(info)@ == message_applied(old(info)@, title@, now),
        changed == reports_state(title@),
{
    let chars = chars_of(title);
    let t = trim(&chars);
    let prefix = chars_of("CMDHUB:");
    if !has_prefix(&t, &prefix) {
        return false;
    }
    let payload = slice_of(&t, prefix.len(), t.len());
    let parts = split(&payload, ';');
    let fields = read_fields(&parts);
    match fields.state {
        Some(state) => {
            if is_text(&state, "running") {
                info.status = InstanceStatus::Running;
                info.ended_at = None;
                match fields.pid {
                    Some(pid) => {
                        info.child_pid = Some(pid);
                    },
                    None => {},
                }
                true
            } else if is_text(&state, "exited") {
                let code: u32 = match fields.code {
                    Some(code) => code,
                    None => 0,
                };
                info.status = InstanceStatus::Exited(code);
                info.ended_at = Some(now);
                true
            } else {
                false
            }
        },
        None => false,
    }
}

/// Applies the title `title` to `info` if it is a shell-state message,
/// stamping an exit with the clock's reading; says whether it reported a
/// state.
pub fn apply_cmdhub_title(title: &str, info: &mut InstanceInfo) -> (changed: bool)
    ensures
        exists|now: u64| final(info)@ == message_applied(old(info)@, title@, now),
        changed == reports_state(title@),
{
    let now = now_epoch();
    apply_cmdhub_title_at(title, info, now)
}

} // verus!
