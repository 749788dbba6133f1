//! The in-process table of running and ended instances. Each entry owns
//! the instance's output history and title scanner, the handle that can
//! signal its child, and, while no viewer holds it, the lease on its
//! pseudo-terminal. The table is generic in the two handle types and never
//! looks inside them.

use crate::clock::now_epoch;
use crate::instance::{
    apply_cmdhub_title_at, is_cmdhub_title, is_shell_message, message_applied, InfoModel,
    InstanceInfo, InstanceStatus, StatusModel,
};
use crate::models::Task;
use crate::osc::{osc_fed, osc_titles, OscModel, OscParser, OscState};
use crate::ring::{tail_of, RingBuffer};
use crate::text::{
    chars_of, decimal_digits, is_text, lemma_decimal_digits, push_decimal, strings_view,
    text_of,
};
use vstd::prelude::*;

verus! {

/// Why a table operation did nothing.
#[derive(Clone, Copy, Debug, PartialEq, Eq)]
pub enum InstanceError {
    /// The table holds no instance of that id.
    NotFound,
    /// The task has been given as many instance ids as its counter can
    /// count.
    CounterExhausted,
}

/// How to tell one child to end.
#[derive(Clone, Debug, PartialEq, Eq)]
pub enum Termination {
    /// Send `signal` to the process `pid`.
    Signal { pid: u32, signal: i32 },
    /// The child's process id is unknown: use the kill handle of the
    /// instance `id`.
    Handle { id: String },
}

/// What a `Termination` holds.
pub enum TerminationModel {
    Signal { pid: u32, signal: i32 },
    Handle { id: Seq<char> },
}

impl View for Termination {
    type V = TerminationModel;

    open spec fn view(&self) -> TerminationModel {
        match self {
            Termination::Signal { pid, signal } => TerminationModel::Signal {
                pid: *pid,
                signal: *signal,
            },
            Termination::Handle { id } => TerminationModel::Handle { id: id@ },
        }
    }
}

/// What a list of terminations holds.
pub open spec fn terminations_view(list: Seq<Termination>) -> Seq<TerminationModel> {
    Seq::new(list.len(), |i: int| list[i]@)
}

/// What a list of descriptions holds.
pub open spec fn infos_view(list: Seq<InstanceInfo>) -> Seq<InfoModel> {
    Seq::new(list.len(), |i: int| list[i]@)
}

struct InstanceEntry<K, H> {
    info: InstanceInfo,
    killer: K,
    buffer: RingBuffer,
    osc_parser: OscParser,
    lease: Option<H>,
}

/// What the table holds of one instance: its description, its kill
/// handle, its output history, its title scanner and, unless checked out,
/// its pseudo-terminal lease.
pub struct EntryModel<K, H> {
    pub info: InfoModel,
    pub killer: K,
    pub buffer: Seq<u8>,
    pub parser: OscModel,
    pub lease: Option<H>,
}

/// The table. `K` is the handle that signals a child, `H` the lease on a
/// pseudo-terminal (its master side and its writer).
pub struct SessionManager<K, H> {
    instances: Vec<InstanceEntry<K, H>>,
    counters: Vec<(String, u32)>,
    buffer_cap: usize,
}

/// Index of the entry of instance `id`, or the table's length when it
/// holds none.
pub open spec fn position<K, H>(t: Seq<EntryModel<K, H>>, id: Seq<char>) -> int
    decreases t.len(),
{
    if t.len() == 0 {
        0
    } else if t[0].info.id == id {
        0
    } else {
        1 + position(t.drop_first(), id)
    }
}

/// Whether the table holds an instance `id`.
pub open spec fn known<K, H>(t: Seq<EntryModel<K, H>>, id: Seq<char>) -> bool {
    0 <= position(t, id) < t.len()
}

/// No two entries have the same id.
pub open spec fn distinct_ids<K, H>(t: Seq<EntryModel<K, H>>) -> bool {
    forall|i: int, j: int|
        0 <= i < t.len() && 0 <= j < t.len() && i != j ==> (#[trigger] t[i]).info.id != (
        #[trigger] t[j]).info.id
}

/// The id of the `number`-th instance of a task: the task's id, `#`, and
/// the number in decimal.
pub open spec fn instance_id_text(task_id: Seq<char>, number: nat) -> Seq<char> {
    task_id + seq!['#'] + decimal_digits(number)
}

/// The entry of an instance just spawned: running since `now`, nothing
/// written yet, its lease with the caller.
pub open spec fn fresh_entry<K, H>(
    id: Seq<char>,
    task_id: Seq<char>,
    task_name: Seq<char>,
    child_pid: Option<u32>,
    killer: K,
    now: u64,
) -> EntryModel<K, H> {
    EntryModel {
        info: InfoModel {
            id: id,
            task_id: task_id,
            task_name: task_name,
            status: StatusModel::Running,
            started_at: now,
            ended_at: None,
            child_pid: child_pid,
            title: None,
        },
        killer: killer,
        buffer: Seq::empty(),
        parser: OscModel { state: OscState::Idle, buf: Seq::empty() },
        lease: None,
    }
}

/// The lease that a checkout of instance `id` hands out.
pub open spec fn lease_taken<K, H>(t: Seq<EntryModel<K, H>>, id: Seq<char>) -> Option<H> {
    if known(t, id) {
        t[position(t, id)].lease
    } else {
        None
    }
}

/// The table after a checkout of instance `id`.
pub open spec fn after_take<K, H>(t: Seq<EntryModel<K, H>>, id: Seq<char>) -> Seq<
    EntryModel<K, H>,
> {
    if known(t, id) {
        let i = position(t, id);
        t.update(i, EntryModel { lease: None, ..t[i] })
    } else {
        t
    }
}

/// The table after `lease` was handed back for instance `id`.
pub open spec fn after_return<K, H>(t: Seq<EntryModel<K, H>>, id: Seq<char>, lease: H) -> Seq<
    EntryModel<K, H>,
> {
    if known(t, id) {
        let i = position(t, id);
        t.update(i, EntryModel { lease: Some(lease), ..t[i] })
    } else {
        t
    }
}

/// The table without instance `id`.
pub open spec fn after_remove<K, H>(t: Seq<EntryModel<K, H>>, id: Seq<char>) -> Seq<
    EntryModel<K, H>,
> {
    if known(t, id) {
        t.remove(position(t, id))
    } else {
        t
    }
}

/// The description after the shell-state messages among `titles`, in order.
pub open spec fn messages_applied(info: InfoModel, titles: Seq<Seq<char>>, now: u64) -> InfoModel
    decreases titles.len(),
{
    if titles.len() == 0 {
        info
    } else {
        let before = messages_applied(info, titles.drop_last(), now);
        if is_shell_message(titles.last()) {
            message_applied(before, titles.last(), now)
        } else {
            before
        }
    }
}

/// The last of `titles` that is no shell-state message.
pub open spec fn last_plain_title(titles: Seq<Seq<char>>) -> Option<Seq<char>>
    decreases titles.len(),
{
    if titles.len() == 0 {
        None
    } else if !is_shell_message(titles.last()) {
        Some(titles.last())
    } else {
        last_plain_title(titles.drop_last())
    }
}

/// The description after the titles that one chunk of output completed:
/// every shell-state message is applied in order, and the last other
/// title, if any, becomes the instance's title.
pub open spec fn titles_applied(info: InfoModel, titles: Seq<Seq<char>>, now: u64) -> InfoModel {
    let after = messages_applied(info, titles, now);
    match last_plain_title(titles) {
        Some(title) => InfoModel { title: Some(title), ..after },
        None => after,
    }
}

/// The entry after `data` arrived from the instance at time `now`.
pub open spec fn entry_fed<K, H>(e: EntryModel<K, H>, data: Seq<u8>, cap: nat, now: u64)
    -> EntryModel<K, H> {
    EntryModel {
        info: titles_applied(e.info, osc_titles(e.parser, data), now),
        buffer: tail_of(e.buffer + data, cap),
        parser: osc_fed(e.parser, data),
        ..e
    }
}

/// The table after `data` arrived from instance `id` at time `now`.
pub open spec fn after_output<K, H>(
    t: Seq<EntryModel<K, H>>,
    id: Seq<char>,
    data: Seq<u8>,
    cap: nat,
    now: u64,
) -> Seq<EntryModel<K, H>> {
    if known(t, id) {
        let i = position(t, id);
        t.update(i, entry_fed(t[i], data, cap, now))
    } else {
        t
    }
}

/// The description once the child has ended: with its exit code, or with
/// the message of the failure to wait for it.
pub open spec fn exit_recorded(info: InfoModel, outcome: Result<u32, Seq<char>>, now: u64)
    -> InfoModel {
    InfoModel {
        status: match outcome {
            Ok(code) => StatusModel::Exited(code),
            Err(message) => StatusModel::Error(message),
        },
        ended_at: Some(now),
        ..info
    }
}

/// What a watcher's report holds.
pub open spec fn outcome_view(outcome: Result<u32, String>) -> Result<u32, Seq<char>> {
    match outcome {
        Ok(code) => Ok(code),
        Err(message) => Err(message@),
    }
}

/// The table after the watcher of instance `id` saw its child end.
pub open spec fn after_exit<K, H>(
    t: Seq<EntryModel<K, H>>,
    id: Seq<char>,
    outcome: Result<u32, Seq<char>>,
    now: u64,
) -> Seq<EntryModel<K, H>> {
    if known(t, id) {
        let i = position(t, id);
        t.update(i, EntryModel { info: exit_recorded(t[i].info, outcome, now), ..t[i] })
    } else {
        t
    }
}

/// How to end the child of an instance: by its process id when that is
/// known, else by the instance's kill handle.
pub open spec fn termination_of(info: InfoModel, signal: i32) -> TerminationModel {
    match info.child_pid {
        Some(pid) => TerminationModel::Signal { pid: pid, signal: signal },
        None => TerminationModel::Handle { id: info.id },
    }
}

/// An entry found by scanning is the one `position` names.
pub proof fn lemma_position<K, H>(t: Seq<EntryModel<K, H>>, id: Seq<char>, i: int)
    requires
        0 <= i <= t.len(),
        forall|j: int| 0 <= j < i ==> (#[trigger] t[j]).info.id != id,
        i == t.len() || t[i].info.id == id,
    ensures
        position(t, id) == i,
    decreases t.len(),
{
    if t.len() > 0 && i > 0 {
        let rest = t.drop_first();
        lemma_position(rest, id, i - 1);
    }
}

/// `position` names the first entry of that id, and no entry before it has
/// the id.
pub proof fn lemma_position_is_first<K, H>(t: Seq<EntryModel<K, H>>, id: Seq<char>)
    ensures
        0 <= position(t, id) <= t.len(),
        position(t, id) < t.len() ==> t[position(t, id)].info.id == id,
        forall|j: int| 0 <= j < position(t, id) ==> (#[trigger] t[j]).info.id != id,
    decreases t.len(),
{
    if t.len() > 0 && t[0].info.id != id {
        let rest = t.drop_first();
        lemma_position_is_first(rest, id);
        assert forall|j: int| 0 <= j < position(t, id) implies (#[trigger] t[j]).info.id
            != id by {
            if j > 0 {
                assert(rest[j - 1] == t[j]);
            }
        }
    }
}

/// An entry changed in place keeps its place as long as its id stays.
pub proof fn lemma_update_keeps_position<K, H>(
    t: Seq<EntryModel<K, H>>,
    i: int,
    e: EntryModel<K, H>,
    id: Seq<char>,
)
    requires
        0 <= i < t.len(),
        e.info.id == t[i].info.id,
    ensures
        position(t.update(i, e), id) == position(t, id),
        distinct_ids(t) ==> distinct_ids(t.update(i, e)),
{
    lemma_position_is_first(t, id);
    let u = t.update(i, e);
    let p = position(t, id);
    lemma_position(u, id, p);
}

/// A lease can be out with one holder at most: a checkout that directly
/// follows a checkout of the same instance hands out nothing.
pub proof fn lemma_second_take_gives_none<K, H>(t: Seq<EntryModel<K, H>>, id: Seq<char>)
    ensures
        lease_taken(after_take(t, id), id) is None,
        after_take(after_take(t, id), id) == after_take(t, id),
{
    if known(t, id) {
        let i = position(t, id);
        lemma_update_keeps_position(t, i, EntryModel { lease: None, ..t[i] }, id);
    }
}

/// Once a lease has been handed back for an instance that the table holds,
/// the next checkout hands out that very lease.
pub proof fn lemma_take_after_return<K, H>(t: Seq<EntryModel<K, H>>, id: Seq<char>, lease: H)
    requires
        known(t, id),
    ensures
        lease_taken(after_return(t, id, lease), id) == Some(lease),
        known(after_return(t, id, lease), id),
        lease_taken(after_return(after_take(t, id), id, lease), id) == Some(lease),
{
    let i = position(t, id);
    lemma_update_keeps_position(t, i, EntryModel { lease: Some(lease), ..t[i] }, id);
    let u = after_take(t, id);
    lemma_update_keeps_position(t, i, EntryModel { lease: None, ..t[i] }, id);
    lemma_update_keeps_position(u, i, EntryModel { lease: Some(lease), ..u[i] }, id);
}

/// A lease handed back for an instance that the table does not hold is
/// dropped: the table stays as it is.
pub proof fn lemma_stale_return_is_dropped<K, H>(t: Seq<EntryModel<K, H>>, id: Seq<char>, lease: H)
    requires
        !known(t, id),
    ensures
        after_return(t, id, lease) == t,
{
}

/// Where ids are distinct, removing an instance leaves none of that id,
/// keeps every other entry, and makes the table one shorter.
pub proof fn lemma_removed_is_gone<K, H>(t: Seq<EntryModel<K, H>>, id: Seq<char>)
    requires
        distinct_ids(t),
    ensures
        !known(after_remove(t, id), id),
        distinct_ids(after_remove(t, id)),
        known(t, id) ==> after_remove(t, id).len() == t.len() - 1,
        !known(t, id) ==> after_remove(t, id) == t,
{
    lemma_position_is_first(t, id);
    if known(t, id) {
        let i = position(t, id);
        let u = t.remove(i);
        lemma_position(u, id, u.len() as int);
    }
}

/// An instance that has ended keeps its output history, its title scanner
/// and its lease: the watcher's report touches the description alone, and
/// no other instance.
pub proof fn lemma_exit_keeps_output<K, H>(
    t: Seq<EntryModel<K, H>>,
    id: Seq<char>,
    outcome: Result<u32, Seq<char>>,
    now: u64,
)
    ensures
        after_exit(t, id, outcome, now).len() == t.len(),
        forall|i: int|
            0 <= i < t.len() ==> {
                &&& (#[trigger] after_exit(t, id, outcome, now)[i]).buffer == t[i].buffer
                &&& after_exit(t, id, outcome, now)[i].parser == t[i].parser
                &&& after_exit(t, id, outcome, now)[i].lease == t[i].lease
                &&& after_exit(t, id, outcome, now)[i].killer == t[i].killer
                &&& after_exit(t, id, outcome, now)[i].info.id == t[i].info.id
                &&& i != position(t, id) ==> after_exit(t, id, outcome, now)[i] == t[i]
            },
        known(t, id) ==> !(after_exit(t, id, outcome, now)[position(t, id)].info.status
            is Running),
{
}

/// How many instance ids the ledger `c` says were given out for the task
/// `key`.
pub open spec fn count_of(c: Seq<(String, u32)>, key: Seq<char>) -> nat
    decreases c.len(),
{
    if c.len() == 0 {
        0
    } else if c[0].0@ == key {
        c[0].1 as nat
    } else {
        count_of(c.drop_first(), key)
    }
}

proof fn lemma_count_scan(c: Seq<(String, u32)>, key: Seq<char>, i: int)
    requires
        0 <= i <= c.len(),
        forall|j: int| 0 <= j < i ==> (#[trigger] c[j]).0@ != key,
        i == c.len() || c[i].0@ == key,
    ensures
        count_of(c, key) == if i < c.len() {
            c[i].1 as nat
        } else {
            0
        },
    decreases c.len(),
{
    if c.len() > 0 && i > 0 {
        let rest = c.drop_first();
        lemma_count_scan(rest, key, i - 1);
    }
}

proof fn lemma_count_other_update(c: Seq<(String, u32)>, i: int, entry: (String, u32), other: Seq<char>)
    requires
        0 <= i < c.len(),
        entry.0@ == c[i].0@,
        other != entry.0@,
    ensures
        count_of(c.update(i, entry), other) == count_of(c, other),
    decreases c.len(),
{
    let u = c.update(i, entry);
    if i == 0 {
        assert(u.drop_first() =~= c.drop_first());
    } else {
        assert(u.drop_first() =~= c.drop_first().update(i - 1, entry));
        if c[0].0@ != other {
            lemma_count_other_update(c.drop_first(), i - 1, entry, other);
        }
    }
}

proof fn lemma_count_other_push(c: Seq<(String, u32)>, entry: (String, u32), other: Seq<char>)
    requires
        other != entry.0@,
    ensures
        count_of(c.push(entry), other) == count_of(c, other),
    decreases c.len(),
{
    let u = c.push(entry);
    if c.len() == 0 {
        assert(u.drop_first() =~= c);
    } else {
        assert(u.drop_first() =~= c.drop_first().push(entry));
        if c[0].0@ != other {
            lemma_count_other_push(c.drop_first(), entry, other);
        }
    }
}

/// Whether `id` is one of the ids that the ledger `c` says were given out
/// for the task `task_id`.
pub open spec fn was_issued(c: Seq<(String, u32)>, id: Seq<char>, task_id: Seq<char>) -> bool {
    exists|n: nat| 1 <= n <= count_of(c, task_id) && id == #[trigger] instance_id_text(task_id, n)
}

/// An instance id tells its task and its number: two ids are the same
/// only where both are.
pub proof fn lemma_instance_ids_differ(t1: Seq<char>, n1: nat, t2: Seq<char>, n2: nat)
    requires
        instance_id_text(t1, n1) == instance_id_text(t2, n2),
    ensures
        t1 == t2,
        n1 == n2,
{
    lemma_decimal_digits(n1);
    lemma_decimal_digits(n2);
    let d1 = decimal_digits(n1);
    let d2 = decimal_digits(n2);
    let s1 = instance_id_text(t1, n1);
    let s2 = instance_id_text(t2, n2);
    assert(s1[t1.len() as int] == '#');
    assert(s2[t2.len() as int] == '#');
    if t1.len() < t2.len() {
        let k = t2.len() - t1.len() - 1;
    } else if t2.len() < t1.len() {
        let k = t1.len() - t2.len() - 1;
    }
    assert(t1 =~= s1.take(t1.len() as int));
    assert(d1 =~= s1.skip(t1.len() as int + 1));
    assert(d2 =~= s2.skip(t2.len() as int + 1));
}

/// An entry of a new id goes to the end of the table: ids stay distinct,
/// and the new id is known and stands last.
pub proof fn lemma_pushed<K, H>(t: Seq<EntryModel<K, H>>, entry: EntryModel<K, H>)
    requires
        distinct_ids(t),
        !known(t, entry.info.id),
    ensures
        distinct_ids(t.push(entry)),
        known(t.push(entry), entry.info.id),
        position(t.push(entry), entry.info.id) == t.len(),
{
    let id = entry.info.id;
    let u = t.push(entry);
    lemma_position_is_first(t, id);
    lemma_position(u, id, t.len() as int);
}

impl<K, H> InstanceEntry<K, H> {
    closed spec fn model(self) -> EntryModel<K, H> {
        EntryModel {
            info: self.info@,
            killer: self.killer,
            buffer: self.buffer@,
            parser: self.osc_parser@,
            lease: self.lease,
        }
    }
}

impl<K, H> View for SessionManager<K, H> {
    type V = Seq<EntryModel<K, H>>;

    /// The entries, in the order in which their ids were first registered.
    closed spec fn view(&self) -> Seq<EntryModel<K, H>> {
        Seq::new(self.instances@.len(), |i: int| self.instances@[i].model())
    }
}

/// The number of a task's next instance, given how many ids it has had;
/// none when the count is at its highest.
pub fn next_number(issued: u32) -> (r: Result<u32, InstanceError>)
    ensures
        match r {
            Ok(n) => issued < u32::MAX && n == issued + 1,
            Err(e) => issued == u32::MAX && e == InstanceError::CounterExhausted,
        },
{
    if issued == u32::MAX {
        Err(InstanceError::CounterExhausted)
    } else {
        Ok(issued + 1)
    }
}

/// Applies the titles that one chunk of output completed to `info`.
fn apply_titles(info: &mut InstanceInfo, titles: &Vec<String>, now: u64)
    ensures
        final(info)@ == titles_applied(old(info)@, strings_view(titles@), now),
        final(info)@.id == old(info)@.id,
        final(info)@.task_id == old(info)@.task_id,
{
    let ghost all = strings_view(titles@);
    let mut last: Option<usize> = None;
    let mut i: usize = 0;
    while i < titles.len()
        invariant
            i <= titles@.len(),
            all == strings_view(titles@),
            info@ == messages_applied(old(info)@, all.take(i as int), now),
            info@.id == old(info)@.id,
            info@.task_id == old(info)@.task_id,
            match last {
                Some(k) => k < i && last_plain_title(all.take(i as int)) == Some(all[k as int]),
                None => last_plain_title(all.take(i as int)) is None,
            },
        decreases titles@.len() - i,
    {
        let ghost seen = all.take(i as int);
        let ghost next = all.take(i + 1);
        assert(next.drop_last() =~= seen);
        if is_cmdhub_title(titles[i].as_str()) {
            let _ = apply_cmdhub_title_at(titles[i].as_str(), info, now);
        } else {
            last = Some(i);
        }
        i += 1;
    }
    assert(all.take(titles@.len() as int) =~= all);
    match last {
        Some(k) => {
            info.title = Some(titles[k].clone());
        },
        None => {},
    }
}

impl<K, H> SessionManager<K, H> {
    /// Holds of every table that `new` made, whatever was done with it
    /// since: no two instances share an id, every instance's id is one
    /// that the ledger gave out for its task, and every instance's history
    /// has the table's capacity.
    pub closed spec fn wf(&self) -> bool {
        &&& distinct_ids(self@)
        &&& forall|i: int|
            0 <= i < self.instances@.len() ==> {
                &&& (#[trigger] self.instances@[i]).buffer.wf()
                &&& self.instances@[i].buffer.capacity() == self.buffer_cap
                &&& self.instances@[i].osc_parser.wf()
                &&& was_issued(
                    self.counters@,
                    self.instances@[i].info@.id,
                    self.instances@[i].info@.task_id,
                )
            }
    }

    /// The capacity, in bytes, of each instance's output history.
    pub closed spec fn capacity(&self) -> nat {
        self.buffer_cap as nat
    }

    /// The ledger of instance numbers: for each task that has had an
    /// instance, how many ids were given out.
    pub closed spec fn ledger(&self) -> Seq<(String, u32)> {
        self.counters@
    }

    /// How many instance ids were given out for the task `task_id`.
    pub open spec fn issued(&self, task_id: Seq<char>) -> nat {
        count_of(self.ledger(), task_id)
    }

    /// Capacity and ledger are those of `other`.
    pub open spec fn same_settings(&self, other: &Self) -> bool {
        self.capacity() == other.capacity() && self.ledger() == other.ledger()
    }

    /// An empty table whose instances will each keep `buffer_cap` bytes of
    /// output.
    pub fn new(buffer_cap: usize) -> (m: Self)
        ensures
            m.wf(),
            m@ == Seq::<EntryModel<K, H>>::empty(),
            m.capacity() == buffer_cap,
            forall|task_id: Seq<char>| m.issued(task_id) == 0,
    {
        let m = Self { instances: Vec::new(), counters: Vec::new(), buffer_cap };
        m
    }

    /// Number of instances in the table.
    pub fn len(&self) -> (n: usize)
        ensures
            n == self@.len(),
    {
        self.instances.len()
    }

    fn find(&self, id: &str) -> (r: Option<usize>)
        ensures
            match r {
                Some(i) => i < self@.len() && position(self@, id@) == i && known(self@, id@),
                None => !known(self@, id@),
            },
    {
        let key = chars_of(id);
        let mut i: usize = 0;
        while i < self.instances.len()
            invariant
                i <= self.instances@.len(),
                key@ == id@,
                forall|j: int| 0 <= j < i ==> (#[trigger] self@[j]).info.id != id@,
            decreases self.instances@.len() - i,
        {
            if is_text(&key, self.instances[i].info.id.as_str()) {
                proof {
                    lemma_position(self@, id@, i as int);
                }
                return Some(i);
            }
            i += 1;
        }
        proof {
            lemma_position(self@, id@, self@.len() as int);
        }
        None
    }

    /// Whether the table holds an instance `id`.
    pub fn contains(&self, id: &str) -> (b: bool)
        ensures
            b == known(self@, id@),
    {
        self.find(id).is_some()
    }

    /// Gives out the next instance id of the task `task_id`: the task's
    /// id, `#`, and the count of ids given out for it so far plus one.
    /// Fails, and changes nothing, when that count cannot grow.
    pub fn next_instance_id(&mut self, task_id: &str) -> (r: Result<String, InstanceError>)
        requires
            old(self).wf(),
        ensures
            final(self).wf(),
            final(self)@ == old(self)@,
            final(self).capacity() == old(self).capacity(),
            forall|other: Seq<char>|
                other != task_id@ ==> final(self).issued(other) == old(self).issued(other),
            match r {
                Ok(id) => {
                    &&& old(self).issued(task_id@) < u32::MAX
                    &&& final(self).issued(task_id@) == old(self).issued(task_id@) + 1
                    &&& id@ == instance_id_text(task_id@, final(self).issued(task_id@))
                    &&& !known(final(self)@, id@)
                },
                Err(e) => {
                    &&& e == InstanceError::CounterExhausted
                    &&& old(self).issued(task_id@) == u32::MAX
                    &&& final(self).ledger() == old(self).ledger()
                },
            },
    {
        let key = chars_of(task_id);
        let ghost before = self.counters@;
        let mut i: usize = 0;
        while i < self.counters.len() && !is_text(&key, self.counters[i].0.as_str())
            invariant
                i <= self.counters@.len(),
                key@ == task_id@,
                self.counters@ == before,
                *self == *old(self),
                forall|j: int| 0 <= j < i ==> (#[trigger] before[j]).0@ != task_id@,
            decreases self.counters@.len() - i,
        {
            i += 1;
        }
        proof {
            lemma_count_scan(before, task_id@, i as int);
        }
        let number: u32;
        if i < self.counters.len() {
            number = match next_number(self.counters[i].1) {
                Ok(n) => n,
                Err(e) => {
                    return Err(e);
                },
            };
            let entry = (task_id.to_owned(), number);
            self.counters.set(i, entry);
            proof {
                let after = self.counters@;
                lemma_count_scan(after, task_id@, i as int);
                assert forall|other: Seq<char>| other != task_id@ implies count_of(after, other)
                    == count_of(before, other) by {
                    lemma_count_other_update(before, i as int, entry, other);
                }
            }
        } else {
            number = 1;
            let entry = (task_id.to_owned(), number);
            self.counters.push(entry);
            proof {
                let after = self.counters@;
                lemma_count_scan(after, task_id@, i as int);
                assert forall|other: Seq<char>| other != task_id@ implies count_of(after, other)
                    == count_of(before, other) by {
                    lemma_count_other_push(before, entry, other);
                }
            }
        }
        let mut id = key;
        id.push('#');
        push_decimal(&mut id, number as u64);
        assert(id@ =~= instance_id_text(task_id@, number as nat));
        proof {
            let after = self.counters@;
            let table = self@;
            assert forall|j: int| 0 <= j < self.instances@.len() implies was_issued(
                after,
                (#[trigger] self.instances@[j]).info@.id,
                self.instances@[j].info@.task_id,
            ) && self.instances@[j].info@.id != id@ by {
                let held = self.instances@[j].info@;
                let n = choose|n: nat|
                    1 <= n <= count_of(before, held.task_id) && held.id == #[trigger] instance_id_text(
                        held.task_id,
                        n,
                    );
                if held.id == id@ {
                    lemma_instance_ids_differ(held.task_id, n, task_id@, number as nat);
                }
            }
            lemma_position(table, id@, table.len() as int);
        }
        Ok(text_of(&id))
    }

    /// Registers an instance of `task` whose child was just spawned with
    /// process id `child_pid` and kill handle `killer`: it is running since
    /// `now`, has no output yet, and its pseudo-terminal lease is with the
    /// caller until handed in by `return_master`. The instance gets an id
    /// that the table has never held and stands last in the table. Gives
    /// the instance's description. Registers nothing when the task's ids are
    /// exhausted.
    pub fn spawn_raw(&mut self, task: &Task, child_pid: Option<u32>, killer: K, now: u64) -> (r:
        Result<InstanceInfo, InstanceError>)
        requires
            old(self).wf(),
        ensures
            final(self).wf(),
            final(self).capacity() == old(self).capacity(),
            forall|other: Seq<char>|
                other != task.id@ ==> final(self).issued(other) == old(self).issued(other),
            match r {
                Ok(info) => {
                    &&& old(self).issued(task.id@) < u32::MAX
                    &&& final(self).issued(task.id@) == old(self).issued(task.id@) + 1
                    &&& info@.id == instance_id_text(task.id@, final(self).issued(task.id@))
                    &&& !known(old(self)@, info@.id)
                    &&& final(self)@ == old(self)@.push(
                        fresh_entry(info@.id, task.id@, task.name@, child_pid, killer, now),
                    )
                    &&& info@ == fresh_entry::<K, H>(
                        info@.id,
                        task.id@,
                        task.name@,
                        child_pid,
                        killer,
                        now,
                    ).info
                    &&& known(final(self)@, info@.id)
                    &&& position(final(self)@, info@.id) == old(self)@.len()
                },
                Err(e) => {
                    &&& e == InstanceError::CounterExhausted
                    &&& old(self).issued(task.id@) == u32::MAX
                    &&& final(self)@ == old(self)@
                    &&& final(self).ledger() == old(self).ledger()
                },
            },
    {
        let id = match self.next_instance_id(task.id.as_str()) {
            Ok(id) => id,
            Err(e) => {
                return Err(e);
            },
        };
        let info = InstanceInfo {
            id: id.clone(),
            task_id: task.id.clone(),
            task_name: task.name.clone(),
            status: InstanceStatus::Running,
            started_at: now,
            ended_at: None,
            child_pid: child_pid,
            title: None,
        };
        let copy = info.duplicate();
        let entry = InstanceEntry {
            info: info,
            killer: killer,
            buffer: RingBuffer::new(self.buffer_cap),
            osc_parser: OscParser::new(),
            lease: None,
        };
        let ghost model = fresh_entry::<K, H>(id@, task.id@, task.name@, child_pid, killer, now);
        let ghost before = self@;
        proof {
            lemma_pushed(before, model);
            assert(was_issued(self.counters@, id@, task.id@)) by {
            }
        }
        self.instances.push(entry);
        assert(self@ =~= before.push(model));
        Ok(copy)
    }

    /// Registers an instance as `spawn_raw` does and hands its lease in at
    /// once, so that the table holds it.
    pub fn spawn(
        &mut self,
        task: &Task,
        child_pid: Option<u32>,
        killer: K,
        lease: H,
        now: u64,
    ) -> (r: Result<InstanceInfo, InstanceError>)
        requires
            old(self).wf(),
        ensures
            final(self).wf(),
            final(self).capacity() == old(self).capacity(),
            forall|other: Seq<char>|
                other != task.id@ ==> final(self).issued(other) == old(self).issued(other),
            match r {
                Ok(info) => {
                    &&& old(self).issued(task.id@) < u32::MAX
                    &&& final(self).issued(task.id@) == old(self).issued(task.id@) + 1
                    &&& info@.id == instance_id_text(task.id@, final(self).issued(task.id@))
                    &&& !known(old(self)@, info@.id)
                    &&& final(self)@ == old(self)@.push(
                        EntryModel {
                            lease: Some(lease),
                            ..fresh_entry(info@.id, task.id@, task.name@, child_pid, killer, now)
                        },
                    )
                    &&& known(final(self)@, info@.id)
                    &&& lease_taken(final(self)@, info@.id) == Some(lease)
                },
                Err(e) => {
                    &&& e == InstanceError::CounterExhausted
                    &&& old(self).issued(task.id@) == u32::MAX
                    &&& final(self)@ == old(self)@
                    &&& final(self).ledger() == old(self).ledger()
                },
            },
    {
        match self.spawn_raw(task, child_pid, killer, now) {
            Ok(info) => {
                let ghost with_entry = self@;
                proof {
                    lemma_take_after_return(with_entry, info@.id, lease);
                }
                self.return_master(info.id.as_str(), lease);
                Ok(info)
            },
            Err(e) => Err(e),
        }
    }

    /// The descriptions of all instances, running or not, in the table's
    /// order.
    pub fn list_instances(&self) -> (list: Vec<InstanceInfo>)
        ensures
            list@.len() == self@.len(),
            forall|i: int| 0 <= i < self@.len() ==> (#[trigger] list@[i])@ == self@[i].info,
    {
        let mut list: Vec<InstanceInfo> = Vec::new();
        let mut i: usize = 0;
        while i < self.instances.len()
            invariant
                i <= self.instances@.len(),
                list@.len() == i,
                forall|j: int| 0 <= j < i ==> (#[trigger] list@[j])@ == self@[j].info,
            decreases self.instances@.len() - i,
        {
            list.push(self.instances[i].info.duplicate());
            i += 1;
        }
        list
    }

    /// The status of instance `id`; `None` when the table holds no such
    /// instance.
    pub fn get_status(&self, id: &str) -> (r: Option<InstanceStatus>)
        ensures
            match r {
                Some(status) => known(self@, id@) && status@ == self@[position(
                    self@,
                    id@,
                )].info.status,
                None => !known(self@, id@),
            },
    {
        match self.find(id) {
            Some(i) => Some(self.instances[i].info.status.duplicate()),
            None => None,
        }
    }

    /// Takes in `data`, which instance `id` wrote at time `now`: it goes
    /// into the instance's history and through its title scanner. A title
    /// that is a shell-state message updates status, end time and process
    /// id; the last other title becomes the instance's title. Nothing
    /// happens when the table holds no such instance.
    pub fn append_output_at(&mut self, id: &str, data: &[u8], now: u64)
        requires
            old(self).wf(),
        ensures
            final(self).wf(),
            final(self).same_settings(old(self)),
            final(self)@ == after_output(old(self)@, id@, data@, old(self).capacity(), now),
    {
        match self.find(id) {
            Some(i) => {
                let ghost before = self@;
                let ghost entry = before[i as int];
                self.instances[i].buffer.push(data);
                let mut titles: Vec<String> = Vec::new();
                self.instances[i].osc_parser.collect_titles(data, &mut titles);
                apply_titles(&mut self.instances[i].info, &titles, now);
                proof {
                    let fed = entry_fed(entry, data@, self.buffer_cap as nat, now);
                    assert(self@ =~= before.update(i as int, fed));
                    lemma_update_keeps_position(before, i as int, fed, id@);
                }
            },
            None => {},
        }
    }

    /// Takes in `data` from instance `id` as `append_output_at` does, at
    /// the time that the clock shows.
    pub fn append_output(&mut self, id: &str, data: &[u8])
        requires
            old(self).wf(),
        ensures
            final(self).wf(),
            final(self).same_settings(old(self)),
            exists|now: u64|
                final(self)@ == after_output(old(self)@, id@, data@, old(self).capacity(), now),
    {
        let now = now_epoch();
        self.append_output_at(id, data, now);
    }

    /// The output history of instance `id`, oldest byte first; empty when
    /// the table holds no such instance.
    pub fn buffer_snapshot(&self, id: &str) -> (out: Vec<u8>)
        requires
            self.wf(),
        ensures
            out@ == if known(self@, id@) {
                self@[position(self@, id@)].buffer
            } else {
                Seq::<u8>::empty()
            },
            out@.len() <= self.capacity(),
    {
        match self.find(id) {
            Some(i) => self.instances[i].buffer.snapshot(),
            None => Vec::new(),
        }
    }

    /// The kill handle of instance `id`, for the caller to signal the child
    /// with; `NotFound` when the table holds no such instance. The table
    /// does not wait for the child to end.
    pub fn kill(&self, id: &str) -> (r: Result<&K, InstanceError>)
        ensures
            match r {
                Ok(killer) => known(self@, id@) && *killer == self@[position(self@, id@)].killer,
                Err(e) => !known(self@, id@) && e == InstanceError::NotFound,
            },
    {
        match self.find(id) {
            Some(i) => Ok(&self.instances[i].killer),
            None => Err(InstanceError::NotFound),
        }
    }

    /// Takes instance `id` out of the table and hands its kill handle to
    /// the caller, who signals the child with it. Gives `None`, and changes
    /// nothing, when the table holds no such instance.
    pub fn kill_and_remove(&mut self, id: &str) -> (r: Option<K>)
        requires
            old(self).wf(),
        ensures
            final(self).wf(),
            final(self).same_settings(old(self)),
            final(self)@ == after_remove(old(self)@, id@),
            !known(final(self)@, id@),
            match r {
                Some(killer) => known(old(self)@, id@) && killer == old(self)@[position(
                    old(self)@,
                    id@,
                )].killer && final(self)@.len() == old(self)@.len() - 1,
                None => !known(old(self)@, id@) && final(self)@ == old(self)@,
            },
    {
        proof {
            lemma_removed_is_gone(self@, id@);
        }
        match self.find(id) {
            Some(i) => {
                let entry = self.instances.remove(i);
                assert(self@ =~= old(self)@.remove(i as int));
                Some(entry.killer)
            },
            None => None,
        }
    }

    /// Takes instance `id` out of the table; says whether there was one.
    pub fn remove(&mut self, id: &str) -> (removed: bool)
        requires
            old(self).wf(),
        ensures
            final(self).wf(),
            final(self).same_settings(old(self)),
            removed == known(old(self)@, id@),
            final(self)@ == after_remove(old(self)@, id@),
            !known(final(self)@, id@),
    {
        self.kill_and_remove(id).is_some()
    }

    /// Checks the pseudo-terminal lease of instance `id` out of the table.
    /// Gives `None` when the table holds no such instance or the lease is
    /// already out.
    pub fn take_master(&mut self, id: &str) -> (r: Option<H>)
        requires
            old(self).wf(),
        ensures
            final(self).wf(),
            final(self).same_settings(old(self)),
            r == lease_taken(old(self)@, id@),
            final(self)@ == after_take(old(self)@, id@),
            lease_taken(final(self)@, id@) is None,
    {
        proof {
            lemma_second_take_gives_none(self@, id@);
        }
        match self.find(id) {
            Some(i) => {
                let ghost before = self@;
                let r = self.instances[i].lease.take();
                proof {
                    let e = EntryModel { lease: None, ..before[i as int] };
                    assert(self@ =~= before.update(i as int, e));
                    lemma_update_keeps_position(before, i as int, e, id@);
                }
                r
            },
            None => None,
        }
    }

    /// Hands the lease of instance `id` back to the table. A lease for an
    /// instance that the table no longer holds is dropped.
    pub fn return_master(&mut self, id: &str, lease: H)
        requires
            old(self).wf(),
        ensures
            final(self).wf(),
            final(self).same_settings(old(self)),
            final(self)@ == after_return(old(self)@, id@, lease),
            known(old(self)@, id@) ==> lease_taken(final(self)@, id@) == Some(lease),
    {
        match self.find(id) {
            Some(i) => {
                let ghost before = self@;
                proof {
                    lemma_take_after_return(before, id@, lease);
                }
                self.instances[i].lease = Some(lease);
                proof {
                    let e = EntryModel { lease: Some(lease), ..before[i as int] };
                    assert(self@ =~= before.update(i as int, e));
                    lemma_update_keeps_position(before, i as int, e, id@);
                }
            },
            None => {},
        }
    }

    /// Takes instance `id` out of the table if it has ended; says whether
    /// it did. A running instance stays.
    pub fn remove_if_exited(&mut self, id: &str) -> (removed: bool)
        requires
            old(self).wf(),
        ensures
            final(self).wf(),
            final(self).same_settings(old(self)),
            removed == (known(old(self)@, id@) && !(old(self)@[position(
                old(self)@,
                id@,
            )].info.status is Running)),
            final(self)@ == if removed {
                after_remove(old(self)@, id@)
            } else {
                old(self)@
            },
            removed ==> !known(final(self)@, id@) && final(self)@.len() == old(self)@.len() - 1,
    {
        match self.find(id) {
            Some(i) => {
                if self.instances[i].info.status.ended() {
                    self.remove(id)
                } else {
                    false
                }
            },
            None => false,
        }
    }

    /// Writes down that the child of instance `id` ended at time `now`:
    /// with an exit code, or with the failure to wait for it. Nothing
    /// happens when the table holds no such instance.
    pub fn record_exit(&mut self, id: &str, outcome: Result<u32, String>, now: u64)
        requires
            old(self).wf(),
        ensures
            final(self).wf(),
            final(self).same_settings(old(self)),
            final(self)@ == after_exit(old(self)@, id@, outcome_view(outcome), now),
    {
        match self.find(id) {
            Some(i) => {
                let ghost before = self@;
                let ghost report = outcome_view(outcome);
                self.instances[i].info.ended_at = Some(now);
                self.instances[i].info.status = match outcome {
                    Ok(code) => InstanceStatus::Exited(code),
                    Err(message) => InstanceStatus::Error(message),
                };
                proof {
                    let e = EntryModel {
                        info: exit_recorded(before[i as int].info, report, now),
                        ..before[i as int]
                    };
                    assert(self@ =~= before.update(i as int, e));
                    lemma_update_keeps_position(before, i as int, e, id@);
                }
            },
            None => {},
        }
    }

    /// How to tell every tracked child to end with `signal`, one entry per
    /// instance in the table's order: by process id where it is known, else
    /// by the instance's kill handle. The caller carries them out and
    /// ignores failures.
    pub fn terminate_all(&self, signal: i32) -> (list: Vec<Termination>)
        ensures
            list@.len() == self@.len(),
            forall|i: int|
                0 <= i < self@.len() ==> (#[trigger] list@[i])@ == termination_of(
                    self@[i].info,
                    signal,
                ),
    {
        let mut list: Vec<Termination> = Vec::new();
        let mut i: usize = 0;
        while i < self.instances.len()
            invariant
                i <= self.instances@.len(),
                list@.len() == i,
                forall|j: int|
                    0 <= j < i ==> (#[trigger] list@[j])@ == termination_of(self@[j].info, signal),
            decreases self.instances@.len() - i,
        {
            let step = match self.instances[i].info.child_pid {
                Some(pid) => Termination::Signal { pid: pid, signal: signal },
                None => Termination::Handle { id: self.instances[i].info.id.clone() },
            };
            list.push(step);
            i += 1;
        }
        list
    }
}

} // verus!
