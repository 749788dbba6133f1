//! The task list of the interface: tasks grouped under their categories,
//! each followed by its running instances, and the selection that moves
//! over the list and skips the category headers.

use crate::models::Task;
use crate::order::{sort_stably, stably_sorted, Ranked};
use crate::text::{chars_of, same, text_of, trim, trimmed};
use vstd::prelude::*;

verus! {

/// What the list needs to know of a running instance.
#[derive(Clone, Copy, Debug, PartialEq, Eq)]
pub struct RunSummary {
    pub id: u64,
    pub task_index: usize,
    pub started_at: u64,
}

/// One row of the list.
#[derive(Clone, Debug, PartialEq, Eq)]
pub enum DisplayItem {
    /// The header of a category.
    Header(String),
    /// The task at this index of the catalogue.
    Task(usize),
    /// A running instance of the task above it; `ordinal` counts the
    /// task's instances from 1.
    Running { run_id: u64, ordinal: usize },
}

/// What a `DisplayItem` holds.
pub enum ItemModel {
    Header(Seq<char>),
    Task(usize),
    Running { run_id: u64, ordinal: usize },
}

impl View for DisplayItem {
    type V = ItemModel;

    open spec fn view(&self) -> ItemModel {
        match self {
            DisplayItem::Header(title) => ItemModel::Header(title@),
            DisplayItem::Task(index) => ItemModel::Task(*index),
            DisplayItem::Running { run_id, ordinal } => ItemModel::Running {
                run_id: *run_id,
                ordinal: *ordinal,
            },
        }
    }
}

/// What stands selected, named by what it is and not by its row.
#[derive(Clone, Copy, Debug, PartialEq, Eq)]
pub enum SelectedItem {
    Task(usize),
    Running(u64),
}

impl Ranked for RunSummary {
    /// Instances stand in order of start time, and in order of id where
    /// they started together.
    open spec fn no_later(&self, other: &Self) -> bool {
        self.started_at < other.started_at || (self.started_at == other.started_at && self.id
            <= other.id)
    }

    proof fn total(a: &Self, b: &Self) {
    }

    proof fn transitive(a: &Self, b: &Self, c: &Self) {
    }

    fn stands_before(&self, other: &Self) -> (b: bool) {
        self.started_at < other.started_at || (self.started_at == other.started_at && self.id
            <= other.id)
    }
}

/// What a list of rows holds.
pub open spec fn items_view(items: Seq<DisplayItem>) -> Seq<ItemModel> {
    Seq::new(items.len(), |i: int| items[i]@)
}

/// The name of a task's category: the category as written, trimmed;
/// `Uncategorized` for a task without one or with a blank one.
pub open spec fn category_name(category: Option<String>) -> Seq<char> {
    match category {
        Some(value) => if trimmed(value@).len() > 0 {
            trimmed(value@)
        } else {
            "Uncategorized"@
        },
        None => "Uncategorized"@,
    }
}

/// The category names of the tasks, task by task.
pub open spec fn categories(tasks: Seq<Task>) -> Seq<Seq<char>> {
    Seq::new(tasks.len(), |i: int| category_name(tasks[i].category))
}

/// The instances of the task at `task_index`, in the order given.
pub open spec fn of_task(runs: Seq<RunSummary>, task_index: usize) -> Seq<RunSummary>
    decreases runs.len(),
{
    if runs.len() == 0 {
        Seq::empty()
    } else if runs.last().task_index == task_index {
        of_task(runs.drop_last(), task_index).push(runs.last())
    } else {
        of_task(runs.drop_last(), task_index)
    }
}

/// The rows of a task's instances, numbered from 1.
pub open spec fn run_items(sorted: Seq<RunSummary>) -> Seq<ItemModel> {
    Seq::new(
        sorted.len(),
        |k: int| ItemModel::Running { run_id: sorted[k].id, ordinal: (k + 1) as usize },
    )
}

/// The rows of one task: the task, then its instances by start time.
pub open spec fn task_items(runs: Seq<RunSummary>, index: int) -> Seq<ItemModel> {
    seq![ItemModel::Task(index as usize)] + run_items(
        stably_sorted(of_task(runs, index as usize)),
    )
}

/// The rows of those of the first `upto` tasks that belong to `category`.
pub open spec fn group_items(
    cats: Seq<Seq<char>>,
    runs: Seq<RunSummary>,
    category: Seq<char>,
    upto: int,
) -> Seq<ItemModel>
    decreases upto,
{
    if upto <= 0 {
        Seq::empty()
    } else if cats[upto - 1] == category {
        group_items(cats, runs, category, upto - 1) + task_items(runs, upto - 1)
    } else {
        group_items(cats, runs, category, upto - 1)
    }
}

/// Whether the task at `i` is the first of its category.
pub open spec fn opens_category(cats: Seq<Seq<char>>, i: int) -> bool {
    forall|j: int| 0 <= j < i ==> #[trigger] cats[j] != cats[i]
}

/// The rows of the categories that the first `upto` tasks open: for each,
/// its header and then all the tasks of that category.
pub open spec fn listed_items(cats: Seq<Seq<char>>, runs: Seq<RunSummary>, upto: int) -> Seq<
    ItemModel,
>
    decreases upto,
{
    if upto <= 0 {
        Seq::empty()
    } else if opens_category(cats, upto - 1) {
        listed_items(cats, runs, upto - 1) + seq![ItemModel::Header(cats[upto - 1])]
            + group_items(cats, runs, cats[upto - 1], cats.len() as int)
    } else {
        listed_items(cats, runs, upto - 1)
    }
}

/// The rows of the list: the categories in the order in which the
/// catalogue first names them; under each header its tasks in catalogue
/// order; under each task its running instances by start time.
pub open spec fn display_rows(tasks: Seq<Task>, runs: Seq<RunSummary>) -> Seq<ItemModel> {
    listed_items(categories(tasks), runs, tasks.len() as int)
}

/// Whether the row is one that the selection skips.
pub open spec fn is_header(item: DisplayItem) -> bool {
    item is Header
}

/// Whether the row `item` shows what `selected` names.
pub open spec fn shows(item: DisplayItem, selected: SelectedItem) -> bool {
    match (item, selected) {
        (DisplayItem::Task(index), SelectedItem::Task(wanted)) => index == wanted,
        (DisplayItem::Running { run_id, ordinal }, SelectedItem::Running(wanted)) => run_id
            == wanted,
        _ => false,
    }
}

/// What the row names, if it can be selected.
pub open spec fn named_by(item: DisplayItem) -> Option<SelectedItem> {
    match item {
        DisplayItem::Header(_) => None,
        DisplayItem::Task(index) => Some(SelectedItem::Task(index)),
        DisplayItem::Running { run_id, ordinal } => Some(SelectedItem::Running(run_id)),
    }
}

/// The row after `i` in a list of `len` rows, going round.
pub open spec fn after(i: int, len: int) -> int {
    if i + 1 < len {
        i + 1
    } else {
        0
    }
}

/// The row before `i` in a list of `len` rows, going round.
pub open spec fn before(i: int, len: int) -> int {
    if i <= 0 {
        len - 1
    } else {
        i - 1
    }
}

/// The first row that is no header, going from the row `from` in the
/// direction given for at most `steps` rows and round the end of the list.
pub open spec fn sought(items: Seq<DisplayItem>, from: int, steps: nat, forward: bool) -> Option<
    int,
>
    decreases steps,
{
    if steps == 0 {
        None
    } else {
        let i = if forward {
            after(from, items.len() as int)
        } else {
            before(from, items.len() as int)
        };
        if 0 <= i < items.len() && !is_header(items[i]) {
            Some(i)
        } else {
            sought(items, i, (steps - 1) as nat, forward)
        }
    }
}

/// Whether `i` is the first row that is no header.
pub open spec fn is_first_selectable(items: Seq<DisplayItem>, r: Option<usize>) -> bool {
    match r {
        Some(i) => i < items.len() && !is_header(items[i as int]) && forall|j: int|
            0 <= j < i ==> is_header(#[trigger] items[j]),
        None => forall|j: int| 0 <= j < items.len() ==> is_header(#[trigger] items[j]),
    }
}

/// Whether `r` is the first row that shows what `selected` names.
pub open spec fn is_first_showing(
    items: Seq<DisplayItem>,
    selected: SelectedItem,
    r: Option<usize>,
) -> bool {
    match r {
        Some(i) => i < items.len() && shows(items[i as int], selected) && forall|j: int|
            0 <= j < i ==> !shows(#[trigger] items[j], selected),
        None => forall|j: int| 0 <= j < items.len() ==> !shows(#[trigger] items[j], selected),
    }
}

/// The selection after a move in the direction given: with nothing
/// selected, the first row that can be; else the next row that is no
/// header, going round; the selection stays where the list has no such
/// row. A selection beyond the list counts from its remainder.
pub open spec fn moved(
    items: Seq<DisplayItem>,
    selected: Option<usize>,
    forward: bool,
    r: Option<usize>,
) -> bool {
    match selected {
        None => is_first_selectable(items, r),
        Some(s) => if items.len() == 0 {
            r == Some(s)
        } else {
            match sought(items, s as int % items.len() as int, items.len(), forward) {
                Some(i) => r == Some(i as usize),
                None => r == Some(s),
            }
        },
    }
}

/// The name of a task's category.
pub fn normalize_category(category: &Option<String>) -> (name: String)
    ensures
        name@ == category_name(*category),
{
    match category {
        Some(value) => {
            let chars = chars_of(value.as_str());
            let t = trim(&chars);
            if t.len() > 0 {
                text_of(&t)
            } else {
                "Uncategorized".to_owned()
            }
        },
        None => "Uncategorized".to_owned(),
    }
}

/// The instances of the task at `task_index`, by start time.
pub fn runs_of_task(runs: &Vec<RunSummary>, task_index: usize) -> (sorted: Vec<RunSummary>)
    ensures
        sorted@ == stably_sorted(of_task(runs@, task_index)),
{
    let mut mine: Vec<RunSummary> = Vec::new();
    let mut i: usize = 0;
    while i < runs.len()
        invariant
            i <= runs@.len(),
            mine@ == of_task(runs@.take(i as int), task_index),
        decreases runs@.len() - i,
    {
        assert(runs@.take(i + 1).drop_last() =~= runs@.take(i as int));
        if runs[i].task_index == task_index {
            mine.push(runs[i]);
        }
        i += 1;
    }
    assert(runs@.take(runs@.len() as int) =~= runs@);
    sort_stably(mine)
}

/// Appends the rows of the task at `index`.
fn push_task_items(items: &mut Vec<DisplayItem>, runs: &Vec<RunSummary>, index: usize)
    ensures
        items_view(final(items)@) == items_view(old(items)@) + task_items(runs@, index as int),
{
    items.push(DisplayItem::Task(index));
    let sorted = runs_of_task(runs, index);
    let ghost head = items_view(items@);
    let mut k: usize = 0;
    while k < sorted.len()
        invariant
            k <= sorted@.len(),
            items_view(items@) == head + run_items(sorted@).take(k as int),
        decreases sorted@.len() - k,
    {
        let ghost had = items_view(items@);
        let row = DisplayItem::Running { run_id: sorted[k].id, ordinal: k + 1 };
        items.push(row);
        assert(items_view(items@) =~= had.push(row@));
        k += 1;
    }
}

/// The category names of the tasks, task by task.
fn task_categories(tasks: &Vec<Task>) -> (cats: Vec<Vec<char>>)
    ensures
        cats@.len() == tasks@.len(),
        forall|i: int| 0 <= i < tasks@.len() ==> (#[trigger] cats@[i])@ == categories(tasks@)[i],
{
    let mut cats: Vec<Vec<char>> = Vec::new();
    let mut i: usize = 0;
    while i < tasks.len()
        invariant
            i <= tasks@.len(),
            cats@.len() == i,
            forall|j: int| 0 <= j < i ==> (#[trigger] cats@[j])@ == categories(tasks@)[j],
        decreases tasks@.len() - i,
    {
        let name = normalize_category(&tasks[i].category);
        cats.push(chars_of(name.as_str()));
        i += 1;
    }
    cats
}

/// The rows of the list for the catalogue `tasks` and the running
/// instances `runs`.
pub fn build_display_items(tasks: &Vec<Task>, runs: &Vec<RunSummary>) -> (items: Vec<DisplayItem>)
    ensures
        items_view(items@) == display_rows(tasks@, runs@),
{
    let cats = task_categories(tasks);
    let n = tasks.len();
    let ghost names = categories(tasks@);
    let mut items: Vec<DisplayItem> = Vec::new();
    let mut i: usize = 0;
    while i < n
        invariant
            i <= n,
            n == tasks@.len(),
            cats@.len() == n,
            names == categories(tasks@),
            names.len() == n,
            forall|k: int| 0 <= k < n ==> (#[trigger] cats@[k])@ == names[k],
            items_view(items@) == listed_items(names, runs@, i as int),
        decreases n - i,
    {
        let mut j: usize = 0;
        while j < i && !same(&cats[j], &cats[i])
            invariant
                j <= i < n,
                cats@.len() == n,
                names.len() == n,
                forall|k: int| 0 <= k < n ==> (#[trigger] cats@[k])@ == names[k],
                forall|k: int| 0 <= k < j ==> #[trigger] names[k] != names[i as int],
            decreases i - j,
        {
            j += 1;
        }
        if j == i {
            let header = DisplayItem::Header(text_of(&cats[i]));
            items.push(header);
            let ghost with_header = items_view(items@);
            let mut t: usize = 0;
            while t < n
                invariant
                    t <= n,
                    i < n,
                    cats@.len() == n,
                    names.len() == n,
                    forall|k: int| 0 <= k < n ==> (#[trigger] cats@[k])@ == names[k],
                    items_view(items@) == with_header + group_items(
                        names,
                        runs@,
                        names[i as int],
                        t as int,
                    ),
                decreases n - t,
            {
                if same(&cats[t], &cats[i]) {
                    push_task_items(&mut items, runs, t);
                }
                t += 1;
            }
        }
        i += 1;
    }
    items
}

/// The first row that can be selected: the first that is no header.
pub fn first_selectable_index(items: &Vec<DisplayItem>) -> (r: Option<usize>)
    ensures
        is_first_selectable(items@, r),
{
    let mut i: usize = 0;
    while i < items.len()
        invariant
            i <= items@.len(),
            forall|j: int| 0 <= j < i ==> is_header(#[trigger] items@[j]),
        decreases items@.len() - i,
    {
        match &items[i] {
            DisplayItem::Header(_) => {},
            _ => {
                return Some(i);
            },
        }
        i += 1;
    }
    None
}

/// What the selected row names: nothing when no row is selected, the row
/// is a header, or the selection is beyond the list.
pub fn selected_item(items: &Vec<DisplayItem>, selected: Option<usize>) -> (r: Option<
    SelectedItem,
>)
    ensures
        r == match selected {
            Some(i) => if i < items@.len() {
                named_by(items@[i as int])
            } else {
                None
            },
            None => None,
        },
{
    match selected {
        Some(i) => {
            if i < items.len() {
                match &items[i] {
                    DisplayItem::Header(_) => None,
                    DisplayItem::Task(index) => Some(SelectedItem::Task(*index)),
                    DisplayItem::Running { run_id, ordinal: _ } => Some(
                        SelectedItem::Running(*run_id),
                    ),
                }
            } else {
                None
            }
        },
        None => None,
    }
}

/// The first row that shows what `selected` names.
pub fn find_selected_index(items: &Vec<DisplayItem>, selected: &SelectedItem) -> (r: Option<usize>)
    ensures
        is_first_showing(items@, *selected, r),
{
    let mut i: usize = 0;
    while i < items.len()
        invariant
            i <= items@.len(),
            forall|j: int| 0 <= j < i ==> !shows(#[trigger] items@[j], *selected),
        decreases items@.len() - i,
    {
        let hit = match (&items[i], selected) {
            (DisplayItem::Task(index), SelectedItem::Task(wanted)) => *index == *wanted,
            (DisplayItem::Running { run_id, ordinal: _ }, SelectedItem::Running(wanted)) => *run_id
                == *wanted,
            _ => false,
        };
        if hit {
            return Some(i);
        }
        i += 1;
    }
    None
}

/// Moves the selection one selectable row on (`forward`) or back.
pub fn move_selection(items: &Vec<DisplayItem>, selected: Option<usize>, forward: bool) -> (r:
    Option<usize>)
    ensures
        moved(items@, selected, forward, r),
{
    let s = match selected {
        Some(s) => s,
        None => {
            return first_selectable_index(items);
        },
    };
    let len = items.len();
    if len == 0 {
        return Some(s);
    }
    let mut i: usize = s % len;
    let mut left: usize = len;
    while left > 0
        invariant
            len == items@.len(),
            len > 0,
            i < len,
            left <= len,
            selected == Some(s),
            sought(items@, s as int % len as int, len as nat, forward) == sought(
                items@,
                i as int,
                left as nat,
                forward,
            ),
        decreases left,
    {
        if forward {
            i = if i + 1 < len {
                i + 1
            } else {
                0
            };
        } else {
            i = if i == 0 {
                len - 1
            } else {
                i - 1
            };
        }
        match &items[i] {
            DisplayItem::Header(_) => {},
            _ => {
                return Some(i);
            },
        }
        left -= 1;
    }
    Some(s)
}

/// The selection after a move to the next selectable row.
pub fn next(items: &Vec<DisplayItem>, selected: Option<usize>) -> (r: Option<usize>)
    ensures
        moved(items@, selected, true, r),
{
    move_selection(items, selected, true)
}

/// The selection after a move to the previous selectable row.
pub fn previous(items: &Vec<DisplayItem>, selected: Option<usize>) -> (r: Option<usize>)
    ensures
        moved(items@, selected, false, r),
{
    move_selection(items, selected, false)
}

/// The selection in a list that was rebuilt: the row that shows what was
/// selected before, else the first row that can be selected.
pub fn reselect(items: &Vec<DisplayItem>, previously: Option<SelectedItem>) -> (r: Option<usize>)
    ensures
        match previously {
            Some(what) => if exists|i: int| 0 <= i < items@.len() && shows(#[trigger] items@[i], what) {
                is_first_showing(items@, what, r) && r is Some
            } else {
                is_first_selectable(items@, r)
            },
            None => is_first_selectable(items@, r),
        },
{
    match previously {
        Some(what) => match find_selected_index(items, &what) {
            Some(i) => Some(i),
            None => first_selectable_index(items),
        },
        None => first_selectable_index(items),
    }
}

/// Gives out a run id and moves the counter on; the counter stops at its
/// highest value.
pub fn allocate_run_id(next_run_id: &mut u64) -> (id: u64)
    ensures
        id == *old(next_run_id),
        *final(next_run_id) == if *old(next_run_id) < u64::MAX {
            (*old(next_run_id) + 1) as u64
        } else {
            u64::MAX
        },
{
    let id = *next_run_id;
    if id < u64::MAX {
        *next_run_id = id + 1;
    }
    id
}

} // verus!
