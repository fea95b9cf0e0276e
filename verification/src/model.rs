//! Tasks, their priorities and states, the store that holds them, and the
//! order in which the list shows them.
use vstd::prelude::*;

use crate::clock::{parse_ymd, Date, Timestamp};
use crate::error::{not_found_message, not_found_text, AppError, AppResult, IoKind};
use crate::text::{
    contains_chars, contains_spec, chars_of, is_blank, is_blank_spec, lowercase, to_lowercase,
    trim, trim_spec,
};

pub use crate::clock::today_local;

verus! {

/// How urgent a task is; P1 is the most urgent.
#[derive(Clone, Copy, Debug, PartialEq, Eq, Structural)]
pub enum Priority {
    P1,
    P2,
    P3,
}

impl Priority {
    pub const ALL: [Priority; 3] = [Priority::P1, Priority::P2, Priority::P3];

    pub open spec fn code_spec(self) -> Seq<char> {
        match self {
            Priority::P1 => "P1"@,
            Priority::P2 => "P2"@,
            Priority::P3 => "P3"@,
        }
    }

    /// The short code shown for the priority.
    pub fn code(self) -> (r: &'static str)
        ensures
            r@ == self.code_spec(),
    {
        match self {
            Priority::P1 => "P1",
            Priority::P2 => "P2",
            Priority::P3 => "P3",
        }
    }

    pub open spec fn translation_key_spec(self) -> Seq<char> {
        match self {
            Priority::P1 => "form.priority.p1.short"@,
            Priority::P2 => "form.priority.p2.short"@,
            Priority::P3 => "form.priority.p3.short"@,
        }
    }

    /// The catalog key of the priority's short label.
    pub fn translation_key(self) -> (r: &'static str)
        ensures
            r@ == self.translation_key_spec(),
    {
        match self {
            Priority::P1 => "form.priority.p1.short",
            Priority::P2 => "form.priority.p2.short",
            Priority::P3 => "form.priority.p3.short",
        }
    }

    pub open spec fn rank_spec(self) -> int {
        match self {
            Priority::P1 => 0,
            Priority::P2 => 1,
            Priority::P3 => 2,
        }
    }

    /// 0 for P1, 1 for P2, 2 for P3: the order in which priorities sort.
    pub fn rank(self) -> (r: u8)
        ensures
            r as int == self.rank_spec(),
    {
        match self {
            Priority::P1 => 0,
            Priority::P2 => 1,
            Priority::P3 => 2,
        }
    }

    pub open spec fn next_spec(self) -> Priority {
        match self {
            Priority::P1 => Priority::P2,
            Priority::P2 => Priority::P3,
            Priority::P3 => Priority::P1,
        }
    }

    /// The following priority, P3 wrapping round to P1.
    pub fn next(self) -> (r: Priority)
        ensures
            r == self.next_spec(),
    {
        match self {
            Priority::P1 => Priority::P2,
            Priority::P2 => Priority::P3,
            Priority::P3 => Priority::P1,
        }
    }

    pub open spec fn previous_spec(self) -> Priority {
        match self {
            Priority::P1 => Priority::P3,
            Priority::P2 => Priority::P1,
            Priority::P3 => Priority::P2,
        }
    }

    /// The preceding priority, P1 wrapping round to P3.
    pub fn previous(self) -> (r: Priority)
        ensures
            r == self.previous_spec(),
    {
        match self {
            Priority::P1 => Priority::P3,
            Priority::P2 => Priority::P1,
            Priority::P3 => Priority::P2,
        }
    }
}

impl Default for Priority {
    fn default() -> (r: Priority)
        ensures
            r == Priority::P2,
    {
        Priority::P2
    }
}

/// Whether a task is still to do.
#[derive(Clone, Copy, Debug, PartialEq, Eq, Structural)]
pub enum TaskStatus {
    Active,
    Done,
}

impl TaskStatus {
    pub open spec fn translation_key_spec(self) -> Seq<char> {
        match self {
            TaskStatus::Active => "status.active"@,
            TaskStatus::Done => "status.done"@,
        }
    }

    /// The catalog key of the status label.
    pub fn translation_key(self) -> (r: &'static str)
        ensures
            r@ == self.translation_key_spec(),
    {
        match self {
            TaskStatus::Active => "status.active",
            TaskStatus::Done => "status.done",
        }
    }
}

/// A task as the store keeps it.
#[derive(Debug, Clone, PartialEq, Eq)]
pub struct Task {
    pub id: u64,
    pub title: String,
    pub notes: String,
    pub priority: Priority,
    pub due_date: Option<Date>,
    pub status: TaskStatus,
    pub created_at: Timestamp,
    pub updated_at: Timestamp,
    pub completed_at: Option<Timestamp>,
}

/// A task as a mathematical value: its texts as character sequences.
pub struct TaskView {
    pub id: u64,
    pub title: Seq<char>,
    pub notes: Seq<char>,
    pub priority: Priority,
    pub due_date: Option<Date>,
    pub status: TaskStatus,
    pub created_at: Timestamp,
    pub updated_at: Timestamp,
    pub completed_at: Option<Timestamp>,
}

impl View for Task {
    type V = TaskView;

    open spec fn view(&self) -> TaskView {
        TaskView {
            id: self.id,
            title: self.title@,
            notes: self.notes@,
            priority: self.priority,
            due_date: self.due_date,
            status: self.status,
            created_at: self.created_at,
            updated_at: self.updated_at,
            completed_at: self.completed_at,
        }
    }
}

/// The views of a list of tasks.
pub open spec fn task_views(s: Seq<Task>) -> Seq<TaskView> {
    s.map_values(|t: Task| t@)
}

/// Whether a task matches a search text: a blank text matches everything,
/// otherwise the lower-cased text must occur in the lower-cased title or notes.
pub open spec fn matches_query_spec(task: TaskView, query: Seq<char>) -> bool {
    ||| is_blank_spec(query)
    ||| contains_spec(lowercase(task.title), lowercase(query))
    ||| contains_spec(lowercase(task.notes), lowercase(query))
}

/// Whether a task is due on `today`.
pub open spec fn is_due_today_spec(task: TaskView, today: Date) -> bool {
    task.due_date == Some(today)
}

/// Whether a task is still active and was due before `today`.
pub open spec fn is_overdue_spec(task: TaskView, today: Date) -> bool {
    &&& task.status == TaskStatus::Active
    &&& task.due_date matches Some(d) && d.days_from_ce < today.days_from_ce
}

impl Task {
    /// Whether the task matches a search text (see `matches_query_spec`).
    pub fn matches_query(&self, query: &str) -> (r: bool)
        ensures
            r == matches_query_spec(self@, query@),
    {
        if is_blank(query) {
            return true;
        }
        let q = to_lowercase(query);
        let qc = chars_of(q.as_str());
        let title = to_lowercase(self.title.as_str());
        let tc = chars_of(title.as_str());
        if contains_chars(&tc, &qc) {
            return true;
        }
        let notes = to_lowercase(self.notes.as_str());
        let nc = chars_of(notes.as_str());
        contains_chars(&nc, &qc)
    }

    /// Whether the task is due on `today`.
    pub fn is_due_today(&self, today: Date) -> (r: bool)
        ensures
            r == is_due_today_spec(self@, today),
    {
        match self.due_date {
            Some(d) => d.days_from_ce == today.days_from_ce,
            None => false,
        }
    }

    /// Whether the task is active and was due before `today`.
    pub fn is_overdue(&self, today: Date) -> (r: bool)
        ensures
            r == is_overdue_spec(self@, today),
    {
        match self.status {
            TaskStatus::Active => match self.due_date {
                Some(d) => d.is_before(&today),
                None => false,
            },
            TaskStatus::Done => false,
        }
    }
}

/// Which tasks the list shows.
#[derive(Clone, Copy, Debug, PartialEq, Eq, Structural)]
pub enum Filter {
    All,
    Active,
    Done,
    DueToday,
    Overdue,
}

impl Filter {
    pub const ALL: [Filter; 5] = [
        Filter::All,
        Filter::Active,
        Filter::Done,
        Filter::DueToday,
        Filter::Overdue,
    ];

    pub open spec fn translation_key_spec(self) -> Seq<char> {
        match self {
            Filter::All => "filter.all"@,
            Filter::Active => "filter.active"@,
            Filter::Done => "filter.done"@,
            Filter::DueToday => "filter.due_today"@,
            Filter::Overdue => "filter.overdue"@,
        }
    }

    /// The catalog key of the filter's label.
    pub fn translation_key(self) -> (r: &'static str)
        ensures
            r@ == self.translation_key_spec(),
    {
        match self {
            Filter::All => "filter.all",
            Filter::Active => "filter.active",
            Filter::Done => "filter.done",
            Filter::DueToday => "filter.due_today",
            Filter::Overdue => "filter.overdue",
        }
    }

    pub open spec fn next_spec(self) -> Filter {
        match self {
            Filter::All => Filter::Active,
            Filter::Active => Filter::Done,
            Filter::Done => Filter::DueToday,
            Filter::DueToday => Filter::Overdue,
            Filter::Overdue => Filter::All,
        }
    }

    /// The following filter, in the cycle All, Active, Done, DueToday, Overdue.
    pub fn next(self) -> (r: Filter)
        ensures
            r == self.next_spec(),
    {
        match self {
            Filter::All => Filter::Active,
            Filter::Active => Filter::Done,
            Filter::Done => Filter::DueToday,
            Filter::DueToday => Filter::Overdue,
            Filter::Overdue => Filter::All,
        }
    }

    pub open spec fn admits_spec(self, task: TaskView, today: Date) -> bool {
        match self {
            Filter::All => true,
            Filter::Active => task.status == TaskStatus::Active,
            Filter::Done => task.status == TaskStatus::Done,
            Filter::DueToday => is_due_today_spec(task, today),
            Filter::Overdue => is_overdue_spec(task, today),
        }
    }

    /// Whether the filter lets `task` through on `today`.
    pub fn admits(self, task: &Task, today: Date) -> (r: bool)
        ensures
            r == self.admits_spec(task@, today),
    {
        match self {
            Filter::All => true,
            Filter::Active => task.status == TaskStatus::Active,
            Filter::Done => task.status == TaskStatus::Done,
            Filter::DueToday => task.is_due_today(today),
            Filter::Overdue => task.is_overdue(today),
        }
    }
}

/// What the user typed for a task: the fields a form submits.
#[derive(Debug, Clone, PartialEq, Eq)]
pub struct TaskDraft {
    pub title: String,
    pub notes: String,
    pub priority: Priority,
    pub due_date: Option<Date>,
}

/// A draft as a mathematical value.
pub struct DraftView {
    pub title: Seq<char>,
    pub notes: Seq<char>,
    pub priority: Priority,
    pub due_date: Option<Date>,
}

impl View for TaskDraft {
    type V = DraftView;

    open spec fn view(&self) -> DraftView {
        DraftView {
            title: self.title@,
            notes: self.notes@,
            priority: self.priority,
            due_date: self.due_date,
        }
    }
}

/// The task that `add_task` creates from a draft: trimmed texts, active,
/// created and updated at `now`.
pub open spec fn new_task_view(id: u64, draft: DraftView, now: Timestamp) -> TaskView {
    TaskView {
        id,
        title: trim_spec(draft.title),
        notes: trim_spec(draft.notes),
        priority: draft.priority,
        due_date: draft.due_date,
        status: TaskStatus::Active,
        created_at: now,
        updated_at: now,
        completed_at: None,
    }
}

/// `t` edited by a draft: new title, notes, priority, due date and update
/// time, the rest kept.
pub open spec fn edited(t: TaskView, draft: DraftView, now: Timestamp) -> TaskView {
    TaskView {
        title: trim_spec(draft.title),
        notes: trim_spec(draft.notes),
        priority: draft.priority,
        due_date: draft.due_date,
        updated_at: now,
        ..t
    }
}

/// `t` with its status flipped at `now`.
pub open spec fn toggled(t: TaskView, now: Timestamp) -> TaskView {
    match t.status {
        TaskStatus::Active => TaskView {
            status: TaskStatus::Done,
            completed_at: Some(now),
            updated_at: now,
            ..t
        },
        TaskStatus::Done => TaskView {
            status: TaskStatus::Active,
            completed_at: None,
            updated_at: now,
            ..t
        },
    }
}

/// `t` with a new priority set at `now`.
pub open spec fn reprioritized(t: TaskView, priority: Priority, now: Timestamp) -> TaskView {
    TaskView { priority, updated_at: now, ..t }
}

/// Whether some task in `s` has the id.
pub open spec fn has_id(s: Seq<TaskView>, id: u64) -> bool {
    exists|i: int| 0 <= i < s.len() && s[i].id == id
}

/// Whether `i` is the first position in `s` of a task with the id.
pub open spec fn is_first_index(s: Seq<TaskView>, id: u64, i: int) -> bool {
    &&& 0 <= i < s.len()
    &&& s[i].id == id
    &&& forall|j: int| 0 <= j < i ==> s[j].id != id
}

/// The first position in `s` of a task with the id (meaningful when `has_id`).
pub open spec fn first_index(s: Seq<TaskView>, id: u64) -> int {
    choose|i: int| is_first_index(s, id, i)
}

pub proof fn lemma_first_index_unique(s: Seq<TaskView>, id: u64, i: int, j: int)
    requires
        is_first_index(s, id, i),
        is_first_index(s, id, j),
    ensures
        i == j,
{
}

pub proof fn lemma_first_index(s: Seq<TaskView>, id: u64, i: int)
    requires
        is_first_index(s, id, i),
    ensures
        first_index(s, id) == i,
        has_id(s, id),
{
    let k = first_index(s, id);
    assert(is_first_index(s, id, k));
    lemma_first_index_unique(s, id, i, k);
}

/// The list's sort key of a task on `today`: status, due bucket, priority,
/// due date (none first), most recent update first, then id.
pub open spec fn task_key(t: TaskView, today: Date) -> Seq<int> {
    seq![
        if t.status == TaskStatus::Active { 0 } else { 1 },
        bucket_spec(t, today),
        t.priority.rank_spec(),
        if t.due_date is Some { 1 } else { 0 },
        if let Some(d) = t.due_date { d.days_from_ce as int } else { 0 },
        -(t.updated_at.secs as int),
        -(t.updated_at.nanos as int),
        t.id as int,
    ]
}

/// The due bucket: overdue 0, due today 1, due later 2, no due date 3, done 4.
pub open spec fn bucket_spec(t: TaskView, today: Date) -> int {
    match t.status {
        TaskStatus::Done => 4,
        TaskStatus::Active => match t.due_date {
            Some(d) => if d.days_from_ce < today.days_from_ce {
                0
            } else if d.days_from_ce == today.days_from_ce {
                1
            } else {
                2
            },
            None => 3,
        },
    }
}

/// Lexicographic "strictly less" on sequences of integers.
pub open spec fn lex_lt(a: Seq<int>, b: Seq<int>) -> bool
    decreases a.len(),
{
    if a.len() == 0 || b.len() == 0 {
        false
    } else if a[0] != b[0] {
        a[0] < b[0]
    } else {
        lex_lt(a.drop_first(), b.drop_first())
    }
}

/// Whether the list puts task `a` strictly before task `b` on `today`.
pub open spec fn task_lt(a: TaskView, b: TaskView, today: Date) -> bool {
    lex_lt(task_key(a, today), task_key(b, today))
}

/// Whether `s` is in list order: no task is strictly before an earlier one.
pub open spec fn sorted_by_key(s: Seq<TaskView>, today: Date) -> bool {
    forall|i: int, j: int| 0 <= i < j < s.len() ==> !task_lt(#[trigger] s[j], #[trigger] s[i], today)
}

pub proof fn lemma_lex_lt_transitive(a: Seq<int>, b: Seq<int>, c: Seq<int>)
    requires
        lex_lt(a, b),
        lex_lt(b, c),
    ensures
        lex_lt(a, c),
    decreases a.len(),
{
    if a[0] == b[0] && b[0] == c[0] {
        lemma_lex_lt_transitive(a.drop_first(), b.drop_first(), c.drop_first());
    }
}

pub proof fn lemma_lex_lt_irreflexive(a: Seq<int>)
    ensures
        !lex_lt(a, a),
    decreases a.len(),
{
    if a.len() > 0 {
        lemma_lex_lt_irreflexive(a.drop_first());
    }
}

pub proof fn lemma_task_lt_transitive(a: TaskView, b: TaskView, c: TaskView, today: Date)
    requires
        task_lt(a, b, today),
        task_lt(b, c, today),
    ensures
        task_lt(a, c, today),
{
    lemma_lex_lt_transitive(task_key(a, today), task_key(b, today), task_key(c, today));
}

/// The tasks the list shows: those that match the search and pass the filter,
/// in store order.
pub open spec fn shown_tasks(s: Seq<TaskView>, filter: Filter, query: Seq<char>, today: Date) -> Seq<
    TaskView,
> {
    s.filter(|t: TaskView| matches_query_spec(t, query) && filter.admits_spec(t, today))
}

/// The tasks behind a sequence of references.
pub open spec fn deref_tasks(s: Seq<&Task>) -> Seq<TaskView> {
    s.map_values(|t: &Task| t@)
}

/// The store's rule for a title: trimmed, and not blank.
fn normalize_title(input: &str) -> (r: AppResult<String>)
    ensures
        r matches Ok(t) ==> !is_blank_spec(input@) && t@ == trim_spec(input@),
        r matches Err(e) ==> is_blank_spec(input@) && e is EmptyTitle,
        r is Ok <==> !is_blank_spec(input@),
{
    let title = trim(input);
    if title.as_str().unicode_len() == 0 {
        return Err(AppError::EmptyTitle);
    }
    Ok(title)
}

/// Reads a due date typed as `YYYY-MM-DD`; blank input means no due date.
pub fn parse_due_date_input(input: &str) -> (r: AppResult<Option<Date>>)
    ensures
        is_blank_spec(input@) ==> (r matches Ok(None)),
        !is_blank_spec(input@) ==> match ymd_date_of(input@) {
            Some(days) => (r matches Ok(Some(d)) && d.days_from_ce as int == days),
            None => (r matches Err(e) && e is InvalidDueDate),
        },
{
    let trimmed = trim(input);
    if trimmed.as_str().unicode_len() == 0 {
        return Ok(None);
    }
    match parse_ymd(trimmed.as_str()) {
        Some(d) => Ok(Some(d)),
        None => Err(AppError::InvalidDueDate),
    }
}

/// The day number that a typed due date reads as: the `%Y-%m-%d` reading of
/// the trimmed text.
pub open spec fn ymd_date_of(input: Seq<char>) -> Option<int> {
    crate::clock::ymd_date(trim_spec(input))
}

/// All the tasks, and the id the next one will get.
#[derive(Debug, Clone, PartialEq, Eq, Default)]
pub struct TaskStore {
    pub next_id: u64,
    pub tasks: Vec<Task>,
}

/// A store as a mathematical value.
pub struct StoreView {
    pub next_id: u64,
    pub tasks: Seq<TaskView>,
}

impl View for TaskStore {
    type V = StoreView;

    open spec fn view(&self) -> StoreView {
        StoreView { next_id: self.next_id, tasks: task_views(self.tasks@) }
    }
}

impl StoreView {
    /// The store after `add_task` succeeds: the new task at the end, the next
    /// id one further.
    pub open spec fn added(self, draft: DraftView, now: Timestamp) -> StoreView {
        StoreView {
            next_id: (self.next_id + 1) as u64,
            tasks: self.tasks.push(new_task_view(self.next_id, draft, now)),
        }
    }

    /// The store after `update_task` succeeds: the first task with the id
    /// edited.
    pub open spec fn edited(self, id: u64, draft: DraftView, now: Timestamp) -> StoreView {
        let i = first_index(self.tasks, id);
        StoreView { tasks: self.tasks.update(i, edited(self.tasks[i], draft, now)), ..self }
    }

    /// The store after `delete_task`: every task with the id gone.
    pub open spec fn without(self, id: u64) -> StoreView {
        StoreView { tasks: self.tasks.filter(|t: TaskView| t.id != id), ..self }
    }

    /// The store after `toggle_task`: the first task with the id flipped, if
    /// there is one.
    pub open spec fn toggled(self, id: u64, now: Timestamp) -> StoreView {
        if has_id(self.tasks, id) {
            let i = first_index(self.tasks, id);
            StoreView { tasks: self.tasks.update(i, toggled(self.tasks[i], now)), ..self }
        } else {
            self
        }
    }

    /// The store after `set_priority`: the first task with the id given the
    /// priority, if there is one.
    pub open spec fn reprioritized(self, id: u64, priority: Priority, now: Timestamp) -> StoreView {
        if has_id(self.tasks, id) {
            let i = first_index(self.tasks, id);
            StoreView {
                tasks: self.tasks.update(i, reprioritized(self.tasks[i], priority, now)),
                ..self
            }
        } else {
            self
        }
    }
}

impl TaskStore {
    /// An empty store whose first task will get id 1.
    pub fn new() -> (r: TaskStore)
        ensures
            r@.next_id == 1,
            r@.tasks == Seq::<TaskView>::empty(),
    {
        let r = TaskStore { next_id: 1, tasks: Vec::new() };
        assert(r@.tasks =~= Seq::<TaskView>::empty());
        r
    }

    /// The first position of a task with the id.
    pub fn position(&self, id: u64) -> (r: Option<usize>)
        ensures
            r matches Some(i) ==> is_first_index(self@.tasks, id, i as int),
            r is None ==> !has_id(self@.tasks, id),
    {
        let mut i: usize = 0;
        while i < self.tasks.len()
            invariant
                i <= self.tasks@.len(),
                forall|j: int| 0 <= j < i ==> self@.tasks[j].id != id,
            decreases self.tasks.len() - i,
        {
            if self.tasks[i].id == id {
                return Some(i);
            }
            i = i + 1;
        }
        None
    }

    /// Adds a task made from the draft at `now`, with the next id; a blank
    /// title is refused.
    pub fn add_task(&mut self, draft: TaskDraft, now: Timestamp) -> (r: AppResult<u64>)
        requires
            !is_blank_spec(draft.title@) ==> old(self).next_id < u64::MAX,
        ensures
            is_blank_spec(draft.title@) ==> (r matches Err(e) && e is EmptyTitle) && final(self)@
                == old(self)@,
            !is_blank_spec(draft.title@) ==> r == Ok::<u64, AppError>(old(self).next_id)
                && final(self)@ == old(self)@.added(draft@, now),
    {
        let title = normalize_title(draft.title.as_str())?;
        let task = Task {
            id: self.next_id,
            title,
            notes: trim(draft.notes.as_str()),
            priority: draft.priority,
            due_date: draft.due_date,
            status: TaskStatus::Active,
            created_at: now,
            updated_at: now,
            completed_at: None,
        };
        self.next_id = self.next_id + 1;
        let id = task.id;
        self.tasks.push(task);
        proof {
            assert(self@.tasks =~= old(self)@.tasks.push(new_task_view(id, draft@, now)));
        }
        Ok(id)
    }

    /// Rewrites the first task with the id from the draft at `now`. A missing
    /// id is an I/O error "task {id} not found"; then a blank title is refused.
    pub fn update_task(&mut self, id: u64, draft: TaskDraft, now: Timestamp) -> (r: AppResult<()>)
        ensures
            !has_id(old(self)@.tasks, id) ==> (r matches Err(e) && e matches AppError::Io(IoKind::NotFound, msg)
                && msg@ == not_found_text(id)),
            has_id(old(self)@.tasks, id) && is_blank_spec(draft.title@) ==> (r matches Err(e)
                && e is EmptyTitle),
            r is Err ==> final(self)@ == old(self)@,
            has_id(old(self)@.tasks, id) && !is_blank_spec(draft.title@) ==> r is Ok
                && final(self)@ == old(self)@.edited(id, draft@, now),
    {
        let pos = self.position(id);
        let i = match pos {
            Some(i) => i,
            None => {
                return Err(AppError::Io(IoKind::NotFound, not_found_message(id)));
            },
        };
        let title = normalize_title(draft.title.as_str())?;
        let old_task = &self.tasks[i];
        let task = Task {
            id: old_task.id,
            title,
            notes: trim(draft.notes.as_str()),
            priority: draft.priority,
            due_date: draft.due_date,
            status: old_task.status,
            created_at: old_task.created_at,
            updated_at: now,
            completed_at: old_task.completed_at,
        };
        self.tasks.set(i, task);
        proof {
            lemma_first_index(old(self)@.tasks, id, i as int);
            assert(self@.tasks =~= old(self)@.edited(id, draft@, now).tasks);
        }
        Ok(())
    }

    /// Removes every task with the id; true when one was there.
    pub fn delete_task(&mut self, id: u64) -> (r: bool)
        ensures
            r == has_id(old(self)@.tasks, id),
            final(self)@ == old(self)@.without(id),
    {
        let ghost orig = self@.tasks;
        let ghost keep = |t: TaskView| t.id != id;
        let mut found = false;
        let mut i: usize = 0;
        let ghost mut j: int = 0;
        proof {
            assert(orig.take(0).filter(keep) =~= Seq::<TaskView>::empty());
            assert(orig.skip(0) =~= orig);
        }
        while i < self.tasks.len()
            invariant
                0 <= j <= orig.len(),
                self.next_id == old(self).next_id,
                orig == old(self)@.tasks,
                keep == (|t: TaskView| t.id != id),
                i as int == orig.take(j).filter(keep).len(),
                self@.tasks == orig.take(j).filter(keep) + orig.skip(j),
                found == has_id(orig.take(j), id),
            decreases self.tasks.len() - i,
        {
            let ghost before = orig.take(j);
            proof {
                assert(orig.take(j + 1).drop_last() =~= before);
                assert(orig.take(j + 1).last() == orig[j]);
                assert(orig.skip(j) =~= seq![orig[j]] + orig.skip(j + 1));
                assert(self@.tasks[i as int] == orig[j]);
                if has_id(orig.take(j + 1), id) && orig[j].id != id {
                    let t1 = orig.take(j + 1);
                    let k = choose|k: int| 0 <= k < t1.len() && t1[k].id == id;
                    assert(k < j);
                    assert(before[k] == t1[k]);
                }
                if has_id(before, id) {
                    let k = choose|k: int| 0 <= k < before.len() && before[k].id == id;
                    assert(orig.take(j + 1)[k] == before[k]);
                }
                if orig[j].id == id {
                    assert(orig.take(j + 1)[j] == orig[j]);
                }
            }
            let ghost cur = self.tasks@;
            if self.tasks[i].id == id {
                self.tasks.remove(i);
                found = true;
                proof {
                    assert(orig.take(j + 1) =~= before.push(orig[j]));
                    before.lemma_filter_push(orig[j], keep);
                    assert(orig.take(j + 1).filter(keep) == before.filter(keep));
                    assert(task_views(self.tasks@) =~= task_views(cur).remove(i as int));
                    assert(self@.tasks =~= orig.take(j + 1).filter(keep) + orig.skip(j + 1));
                }
            } else {
                i = i + 1;
                proof {
                    assert(orig.take(j + 1) =~= before.push(orig[j]));
                    before.lemma_filter_push(orig[j], keep);
                    assert(orig.take(j + 1).filter(keep) == before.filter(keep).push(orig[j]));
                    assert(self@.tasks =~= orig.take(j + 1).filter(keep) + orig.skip(j + 1));
                }
            }
            proof {
                j = j + 1;
            }
        }
        proof {
            assert(orig.skip(j).len() == 0);
            assert(orig.take(j) =~= orig);
            assert(self@.tasks =~= orig.filter(keep));
        }
        found
    }

    /// Flips the status of the first task with the id at `now`; false when
    /// no task has the id.
    pub fn toggle_task(&mut self, id: u64, now: Timestamp) -> (r: bool)
        ensures
            r == has_id(old(self)@.tasks, id),
            final(self)@ == old(self)@.toggled(id, now),
    {
        let i = match self.position(id) {
            Some(i) => i,
            None => {
                return false;
            },
        };
        let t = &self.tasks[i];
        let task = match t.status {
            TaskStatus::Active => Task {
                id: t.id,
                title: t.title.clone(),
                notes: t.notes.clone(),
                priority: t.priority,
                due_date: t.due_date,
                status: TaskStatus::Done,
                created_at: t.created_at,
                updated_at: now,
                completed_at: Some(now),
            },
            TaskStatus::Done => Task {
                id: t.id,
                title: t.title.clone(),
                notes: t.notes.clone(),
                priority: t.priority,
                due_date: t.due_date,
                status: TaskStatus::Active,
                created_at: t.created_at,
                updated_at: now,
                completed_at: None,
            },
        };
        self.tasks.set(i, task);
        proof {
            lemma_first_index(old(self)@.tasks, id, i as int);
            assert(self@.tasks =~= old(self)@.toggled(id, now).tasks);
        }
        true
    }

    /// Sets the priority of the first task with the id at `now`; false when
    /// no task has the id.
    pub fn set_priority(&mut self, id: u64, priority: Priority, now: Timestamp) -> (r: bool)
        ensures
            r == has_id(old(self)@.tasks, id),
            final(self)@ == old(self)@.reprioritized(id, priority, now),
    {
        let i = match self.position(id) {
            Some(i) => i,
            None => {
                return false;
            },
        };
        let t = &self.tasks[i];
        let task = Task {
            id: t.id,
            title: t.title.clone(),
            notes: t.notes.clone(),
            priority,
            due_date: t.due_date,
            status: t.status,
            created_at: t.created_at,
            updated_at: now,
            completed_at: t.completed_at,
        };
        self.tasks.set(i, task);
        proof {
            lemma_first_index(old(self)@.tasks, id, i as int);
            assert(self@.tasks =~= old(self)@.reprioritized(id, priority, now).tasks);
        }
        true
    }

    /// The first task with the id.
    pub fn get_task(&self, id: u64) -> (r: Option<&Task>)
        ensures
            r is Some <==> has_id(self@.tasks, id),
            r matches Some(t) ==> t@ == self@.tasks[first_index(self@.tasks, id)],
    {
        match self.position(id) {
            Some(i) => {
                proof {
                    lemma_first_index(self@.tasks, id, i as int);
                }
                Some(&self.tasks[i])
            },
            None => None,
        }
    }

    /// The tasks the list shows for a filter and search text on `today`, in
    /// list order.
    pub fn visible_tasks(&self, filter: Filter, query: &str, today: Date) -> (r: Vec<&Task>)
        ensures
            deref_tasks(r@) == visible_list(self@.tasks, filter, query@, today),
    {
        let ghost pred = |t: TaskView| matches_query_spec(t, query@) && filter.admits_spec(t, today);
        let mut picked: Vec<&Task> = Vec::new();
        let mut i: usize = 0;
        proof {
            assert(deref_tasks(picked@) =~= self@.tasks.take(0).filter(pred));
        }
        while i < self.tasks.len()
            invariant
                i <= self.tasks@.len(),
                pred == (|t: TaskView| matches_query_spec(t, query@) && filter.admits_spec(t, today)),
                deref_tasks(picked@) == self@.tasks.take(i as int).filter(pred),
            decreases self.tasks.len() - i,
        {
            let t = &self.tasks[i];
            let ghost old_picked = picked@;
            proof {
                assert(self@.tasks.take(i + 1) =~= self@.tasks.take(i as int).push(t@));
                self@.tasks.take(i as int).lemma_filter_push(t@, pred);
            }
            if t.matches_query(query) && filter.admits(t, today) {
                picked.push(t);
                proof {
                    assert(pred(t@));
                    assert(deref_tasks(picked@) =~= deref_tasks(old_picked).push(t@));
                }
            } else {
                proof {
                    assert(!pred(t@));
                }
            }
            i = i + 1;
        }
        proof {
            assert(self@.tasks.take(i as int) =~= self@.tasks);
        }
        sort_for_list(picked, today)
    }
}

/// Whether every task's id lies below the store's next id, so that the next
/// task added gets an id no task has.
pub open spec fn ids_below_next(s: StoreView) -> bool {
    forall|i: int| 0 <= i < s.tasks.len() ==> (#[trigger] s.tasks[i]).id < s.next_id
}

/// Whether no two tasks share an id.
pub open spec fn ids_unique(s: StoreView) -> bool {
    forall|i: int, j: int|
        0 <= i < j < s.tasks.len() ==> (#[trigger] s.tasks[i]).id != (#[trigger] s.tasks[j]).id
}

/// Law: adding a task to a store whose ids lie below the next id gives the
/// new task that id, finds it again under that id, and keeps every id below
/// the next one and all ids distinct.
pub proof fn law_add_task(s: StoreView, d: DraftView, now: Timestamp)
    requires
        ids_below_next(s),
        ids_unique(s),
        s.next_id < u64::MAX,
    ensures
        has_id(s.added(d, now).tasks, s.next_id),
        s.added(d, now).tasks[first_index(s.added(d, now).tasks, s.next_id)] == new_task_view(
            s.next_id,
            d,
            now,
        ),
        ids_below_next(s.added(d, now)),
        ids_unique(s.added(d, now)),
{
    let a = s.added(d, now);
    let n = s.tasks.len() as int;
    assert(a.tasks[n] == new_task_view(s.next_id, d, now));
    assert forall|j: int| 0 <= j < n implies a.tasks[j].id != s.next_id by {
        assert(a.tasks[j] == s.tasks[j]);
    }
    lemma_first_index(a.tasks, s.next_id, n);
    assert forall|i: int| 0 <= i < a.tasks.len() implies (#[trigger] a.tasks[i]).id < a.next_id by {
        if i < n {
            assert(a.tasks[i] == s.tasks[i]);
        }
    }
    assert forall|i: int, j: int| 0 <= i < j < a.tasks.len() implies (#[trigger] a.tasks[i]).id
        != (#[trigger] a.tasks[j]).id by {
        assert(a.tasks[i] == s.tasks[i]);
        if j < n {
            assert(a.tasks[j] == s.tasks[j]);
        }
    }
}

/// Law: editing, toggling or re-prioritising a task keeps its id, so every
/// id stays below the next one and all ids stay distinct.
pub proof fn law_edits_keep_ids(s: StoreView, id: u64, d: DraftView, p: Priority, now: Timestamp)
    requires
        ids_below_next(s),
        ids_unique(s),
    ensures
        has_id(s.tasks, id) ==> ids_below_next(s.edited(id, d, now)) && ids_unique(
            s.edited(id, d, now),
        ),
        ids_below_next(s.toggled(id, now)) && ids_unique(s.toggled(id, now)),
        ids_below_next(s.reprioritized(id, p, now)) && ids_unique(s.reprioritized(id, p, now)),
{
    if has_id(s.tasks, id) {
        let k = choose|k: int| is_first_index(s.tasks, id, k);
        assert(exists|k: int| is_first_index(s.tasks, id, k)) by {
            let w = choose|w: int| 0 <= w < s.tasks.len() && s.tasks[w].id == id;
            lemma_first_exists(s.tasks, id, w);
        }
        let i = first_index(s.tasks, id);
        assert(is_first_index(s.tasks, id, i));
        let e = s.edited(id, d, now);
        let t = s.toggled(id, now);
        let r = s.reprioritized(id, p, now);
        assert forall|j: int| 0 <= j < s.tasks.len() implies (#[trigger] e.tasks[j]).id
            == s.tasks[j].id && t.tasks[j].id == s.tasks[j].id && r.tasks[j].id
            == s.tasks[j].id by {}
    }
}

/// Some task has the id exactly when there is a first position of it.
pub proof fn lemma_first_exists(s: Seq<TaskView>, id: u64, w: int)
    requires
        0 <= w < s.len(),
        s[w].id == id,
    ensures
        exists|k: int| is_first_index(s, id, k),
    decreases w,
{
    if exists|j: int| 0 <= j < w && s[j].id == id {
        let j = choose|j: int| 0 <= j < w && s[j].id == id;
        lemma_first_exists(s, id, j);
    } else {
        assert(is_first_index(s, id, w));
    }
}

/// Law: after a delete no task has the id, and the other tasks stay in
/// order; ids stay below the next one and distinct.
pub proof fn law_delete_task(s: StoreView, id: u64)
    ensures
        !has_id(s.without(id).tasks, id),
        s.without(id).next_id == s.next_id,
        ids_below_next(s) ==> ids_below_next(s.without(id)),
        ids_unique(s) ==> ids_unique(s.without(id)),
{
    broadcast use vstd::seq_lib::group_filter_ensures;

    let keep = |t: TaskView| t.id != id;
    let w = s.without(id);
    assert(w.tasks == s.tasks.filter(keep));
    if has_id(w.tasks, id) {
        let k = choose|k: int| 0 <= k < w.tasks.len() && w.tasks[k].id == id;
        assert(keep(w.tasks[k]));
    }
    if ids_below_next(s) {
        assert forall|i: int| 0 <= i < w.tasks.len() implies (#[trigger] w.tasks[i]).id < w.next_id by {
            assert(w.tasks.contains(w.tasks[i]));
            s.tasks.lemma_filter_contains_rev(keep, w.tasks[i]);
        }
    }
    if ids_unique(s) {
        lemma_filter_keeps_ids_unique(s.tasks, keep);
    }
}

/// Keeping some of the tasks of a list with distinct ids leaves distinct ids.
proof fn lemma_filter_keeps_ids_unique(s: Seq<TaskView>, keep: spec_fn(TaskView) -> bool)
    requires
        forall|i: int, j: int|
            0 <= i < j < s.len() ==> (#[trigger] s[i]).id != (#[trigger] s[j]).id,
    ensures
        forall|i: int, j: int|
            0 <= i < j < s.filter(keep).len() ==> (#[trigger] s.filter(keep)[i]).id != (
            #[trigger] s.filter(keep)[j]).id,
    decreases s.len(),
{
    if s.len() == 0 {
        assert(s.filter(keep) =~= s) by {
            reveal(Seq::filter);
        }
    } else {
        let r = s.drop_last();
        let x = s.last();
        assert(r.push(x) =~= s);
        lemma_filter_keeps_ids_unique(r, keep);
        r.lemma_filter_push(x, keep);
        let f = r.filter(keep);
        if keep(x) {
            assert forall|i: int| 0 <= i < f.len() implies (#[trigger] f[i]).id != x.id by {
                assert(f.contains(f[i]));
                r.lemma_filter_contains_rev(keep, f[i]);
                let k = choose|k: int| 0 <= k < r.len() && r[k] == f[i];
                assert(s[k] == r[k]);
                assert(s[s.len() - 1] == x);
            }
            assert forall|i: int, j: int|
                0 <= i < j < s.filter(keep).len() implies (#[trigger] s.filter(keep)[i]).id != (
                #[trigger] s.filter(keep)[j]).id by {
                assert(s.filter(keep) == f.push(x));
                if j < f.len() {
                    assert(s.filter(keep)[i] == f[i]);
                    assert(s.filter(keep)[j] == f[j]);
                } else {
                    assert(s.filter(keep)[i] == f[i]);
                }
            }
        } else {
            assert forall|i: int, j: int|
                0 <= i < j < r.len() implies (#[trigger] r[i]).id != (#[trigger] r[j]).id by {
                assert(r[i] == s[i] && r[j] == s[j]);
            }
        }
    }
}

/// Law: toggling a task twice gives it back its status and leaves its id,
/// texts, priority, due date and creation time as they were.
pub proof fn law_toggle_twice(s: StoreView, id: u64, now1: Timestamp, now2: Timestamp)
    requires
        has_id(s.tasks, id),
    ensures
        ({
            let i = first_index(s.tasks, id);
            let t = s.toggled(id, now1).toggled(id, now2).tasks[i];
            let o = s.tasks[i];
            &&& s.toggled(id, now1).toggled(id, now2).tasks.len() == s.tasks.len()
            &&& t.status == o.status
            &&& t.id == o.id && t.title == o.title && t.notes == o.notes
            &&& t.priority == o.priority && t.due_date == o.due_date
            &&& t.created_at == o.created_at
            &&& t.updated_at == now2
        }),
{
    let w = choose|w: int| 0 <= w < s.tasks.len() && s.tasks[w].id == id;
    lemma_first_exists(s.tasks, id, w);
    let i = first_index(s.tasks, id);
    assert(is_first_index(s.tasks, id, i));
    let s1 = s.toggled(id, now1);
    assert(is_first_index(s1.tasks, id, i));
    lemma_first_index(s1.tasks, id, i);
}

/// Law: with a blank search and the `All` filter the list shows every task,
/// each as many times as the store holds it.
pub proof fn law_blank_search_shows_all(s: Seq<TaskView>, query: Seq<char>, today: Date)
    requires
        is_blank_spec(query),
    ensures
        visible_list(s, Filter::All, query, today).to_multiset() == s.to_multiset(),
        sorted_by_key(visible_list(s, Filter::All, query, today), today),
{
    let p = |t: TaskView| matches_query_spec(t, query) && Filter::All.admits_spec(t, today);
    lemma_filter_all(s, p);
    lemma_list_order_permutation(s, today);
    lemma_list_order_sorted(s, today);
}

proof fn lemma_filter_all(s: Seq<TaskView>, p: spec_fn(TaskView) -> bool)
    requires
        forall|t: TaskView| #[trigger] p(t),
    ensures
        s.filter(p) == s,
    decreases s.len(),
{
    if s.len() > 0 {
        lemma_filter_all(s.drop_last(), p);
        assert(s.drop_last().push(s.last()) =~= s);
        s.drop_last().lemma_filter_push(s.last(), p);
    } else {
        reveal(Seq::filter);
    }
}

/// Law: the list shows the tasks that match the search and pass the filter,
/// in an order sorted by the list key, each as often as the store holds it.
pub proof fn law_visible_list(s: Seq<TaskView>, filter: Filter, query: Seq<char>, today: Date)
    ensures
        visible_list(s, filter, query, today).to_multiset() == shown_tasks(
            s,
            filter,
            query,
            today,
        ).to_multiset(),
        sorted_by_key(visible_list(s, filter, query, today), today),
{
    lemma_list_order_permutation(shown_tasks(s, filter, query, today), today);
    lemma_list_order_sorted(shown_tasks(s, filter, query, today), today);
}

/// Law: moving a priority forward and back, or back and forward, returns to
/// it; three steps forward go round the cycle.
pub proof fn law_priority_cycle(p: Priority)
    ensures
        p.next_spec().previous_spec() == p,
        p.previous_spec().next_spec() == p,
        p.next_spec().next_spec().next_spec() == p,
{
}

/// Law: five steps of the filter go round the cycle, through every filter.
pub proof fn law_filter_cycle(f: Filter)
    ensures
        f.next_spec().next_spec().next_spec().next_spec().next_spec() == f,
        f.next_spec() != f,
{
}

/// Law: among active tasks of one priority whose due dates fall in the same
/// part of the calendar (both before today, or both after today), the one
/// due earlier is listed first.
pub proof fn law_earlier_due_first(a: TaskView, b: TaskView, da: Date, db: Date, today: Date)
    requires
        a.status == TaskStatus::Active,
        b.status == TaskStatus::Active,
        a.priority == b.priority,
        a.due_date == Some(da),
        b.due_date == Some(db),
        da.days_from_ce < db.days_from_ce,
        (db.days_from_ce < today.days_from_ce) || (today.days_from_ce < da.days_from_ce),
    ensures
        task_lt(a, b, today),
        !task_lt(b, a, today),
{
    reveal_with_fuel(lex_lt, 6);
    let ka = task_key(a, today);
    let kb = task_key(b, today);
    assert(ka[0] == kb[0] && ka[1] == kb[1] && ka[2] == kb[2] && ka[3] == kb[3]);
    assert(ka[4] < kb[4]);
    assert(ka.drop_first()[0] == ka[1] && kb.drop_first()[0] == kb[1]);
    assert(ka.drop_first().drop_first()[0] == ka[2]);
    assert(kb.drop_first().drop_first()[0] == kb[2]);
    assert(ka.drop_first().drop_first().drop_first()[0] == ka[3]);
    assert(kb.drop_first().drop_first().drop_first()[0] == kb[3]);
    assert(ka.drop_first().drop_first().drop_first().drop_first()[0] == ka[4]);
    assert(kb.drop_first().drop_first().drop_first().drop_first()[0] == kb[4]);
}

/// Law: what each filter lets through. `All` every task; `Active` and `Done`
/// the tasks with that status; `DueToday` the tasks due today; `Overdue` the
/// active tasks due before today, so never a finished one.
pub proof fn law_filters_admit(t: TaskView, today: Date)
    ensures
        Filter::All.admits_spec(t, today),
        Filter::Active.admits_spec(t, today) == (t.status == TaskStatus::Active),
        Filter::Done.admits_spec(t, today) == (t.status == TaskStatus::Done),
        Filter::DueToday.admits_spec(t, today) == (t.due_date == Some(today)),
        Filter::Overdue.admits_spec(t, today) == (t.status == TaskStatus::Active && match t.due_date {
            Some(d) => d.days_from_ce < today.days_from_ce,
            None => false,
        }),
        t.status == TaskStatus::Done ==> !Filter::Overdue.admits_spec(t, today),
{
}

/// Law: a successful edit rewrites the first task with the id from the
/// draft: trimmed title and notes, the draft's priority and due date, and
/// `now` as its update time; its id, status and times of creation and
/// completion stay, as do all other tasks and the next id.
pub proof fn law_update_rewrites_task(s: StoreView, id: u64, d: DraftView, now: Timestamp)
    requires
        has_id(s.tasks, id),
    ensures
        ({
            let e = s.edited(id, d, now);
            let i = first_index(s.tasks, id);
            let t = e.tasks[i];
            let o = s.tasks[i];
            &&& 0 <= i < s.tasks.len()
            &&& e.tasks.len() == s.tasks.len()
            &&& e.next_id == s.next_id
            &&& first_index(e.tasks, id) == i
            &&& t.title == trim_spec(d.title)
            &&& t.notes == trim_spec(d.notes)
            &&& t.priority == d.priority
            &&& t.due_date == d.due_date
            &&& t.updated_at == now
            &&& t.id == id && t.status == o.status && t.created_at == o.created_at
            &&& t.completed_at == o.completed_at
            &&& forall|j: int| 0 <= j < s.tasks.len() && j != i ==> e.tasks[j] == s.tasks[j]
        }),
{
    let w = choose|w: int| 0 <= w < s.tasks.len() && s.tasks[w].id == id;
    lemma_first_exists(s.tasks, id, w);
    let i = first_index(s.tasks, id);
    assert(is_first_index(s.tasks, id, i));
    let e = s.edited(id, d, now);
    assert(is_first_index(e.tasks, id, i));
    lemma_first_index(e.tasks, id, i);
}

/// Whether the list puts `left` strictly before `right` on `today`.
pub fn task_precedes(left: &Task, right: &Task, today: Date) -> (r: bool)
    ensures
        r == task_lt(left@, right@, today),
{
    let a = task_key_of(left, today);
    let b = task_key_of(right, today);
    let mut k: usize = 0;
    proof {
        assert(a@.map_values(|x: i128| x as int).skip(0) =~= task_key(left@, today));
        assert(b@.map_values(|x: i128| x as int).skip(0) =~= task_key(right@, today));
    }
    while k < 8
        invariant
            k <= 8,
            a@.len() == 8,
            b@.len() == 8,
            a@.map_values(|x: i128| x as int) == task_key(left@, today),
            b@.map_values(|x: i128| x as int) == task_key(right@, today),
            lex_lt(
                a@.map_values(|x: i128| x as int).skip(k as int),
                b@.map_values(|x: i128| x as int).skip(k as int),
            ) == task_lt(left@, right@, today),
        decreases 8 - k,
    {
        let ghost sa = a@.map_values(|x: i128| x as int).skip(k as int);
        let ghost sb = b@.map_values(|x: i128| x as int).skip(k as int);
        assert(sa[0] == a[k as int] as int);
        assert(sb[0] == b[k as int] as int);
        if a[k] != b[k] {
            return a[k] < b[k];
        }
        assert(sa.drop_first() =~= a@.map_values(|x: i128| x as int).skip(k + 1));
        assert(sb.drop_first() =~= b@.map_values(|x: i128| x as int).skip(k + 1));
        k = k + 1;
    }
    false
}

/// The sort key of a task, as machine integers.
fn task_key_of(t: &Task, today: Date) -> (r: [i128; 8])
    ensures
        r@.map_values(|x: i128| x as int) == task_key(t@, today),
{
    let status: i128 = match t.status {
        TaskStatus::Active => 0,
        TaskStatus::Done => 1,
    };
    let bucket: i128 = match t.status {
        TaskStatus::Done => 4,
        TaskStatus::Active => match t.due_date {
            Some(d) => if d.days_from_ce < today.days_from_ce {
                0
            } else if d.days_from_ce == today.days_from_ce {
                1
            } else {
                2
            },
            None => 3,
        },
    };
    let rank: i128 = match t.priority {
        Priority::P1 => 0,
        Priority::P2 => 1,
        Priority::P3 => 2,
    };
    let (has_due, due): (i128, i128) = match t.due_date {
        Some(d) => (1, d.days_from_ce as i128),
        None => (0, 0),
    };
    let secs: i128 = 0 - (t.updated_at.secs as i128);
    let nanos: i128 = 0 - (t.updated_at.nanos as i128);
    let id: i128 = t.id as i128;
    let r = [status, bucket, rank, has_due, due, secs, nanos, id];
    assert(r@.map_values(|x: i128| x as int) =~= task_key(t@, today));
    r
}

/// Inserts `x` into a list in list order, before the first task it precedes
/// and after every task it does not precede.
pub open spec fn insert_in_order(x: TaskView, s: Seq<TaskView>, today: Date) -> Seq<TaskView>
    decreases s.len(),
{
    if s.len() == 0 {
        seq![x]
    } else if task_lt(x, s[0], today) {
        seq![x] + s
    } else {
        seq![s[0]] + insert_in_order(x, s.drop_first(), today)
    }
}

/// The list order of tasks: a stable sort by `task_key`, tasks with equal
/// keys keeping their order.
pub open spec fn list_order(s: Seq<TaskView>, today: Date) -> Seq<TaskView>
    decreases s.len(),
{
    if s.len() == 0 {
        s
    } else {
        insert_in_order(s.last(), list_order(s.drop_last(), today), today)
    }
}

/// The tasks the list shows, in list order.
pub open spec fn visible_list(s: Seq<TaskView>, filter: Filter, query: Seq<char>, today: Date) -> Seq<
    TaskView,
> {
    list_order(shown_tasks(s, filter, query, today), today)
}

proof fn lemma_insert_in_order_at(x: TaskView, s: Seq<TaskView>, p: int, today: Date)
    requires
        0 <= p <= s.len(),
        forall|j: int| 0 <= j < p ==> !task_lt(x, #[trigger] s[j], today),
        p < s.len() ==> task_lt(x, s[p], today),
    ensures
        insert_in_order(x, s, today) == s.insert(p, x),
    decreases s.len(),
{
    if s.len() == 0 {
        assert(s.insert(p, x) =~= seq![x]);
    } else if p == 0 {
        assert(s.insert(p, x) =~= seq![x] + s);
    } else {
        let t = s.drop_first();
        assert forall|j: int| 0 <= j < p - 1 implies !task_lt(x, #[trigger] t[j], today) by {
            assert(t[j] == s[j + 1]);
        }
        if p - 1 < t.len() {
            assert(t[p - 1] == s[p]);
        }
        lemma_insert_in_order_at(x, t, p - 1, today);
        assert(s.insert(p, x) =~= seq![s[0]] + t.insert(p - 1, x));
    }
}

proof fn lemma_insert_in_order_members(x: TaskView, s: Seq<TaskView>, today: Date)
    ensures
        insert_in_order(x, s, today).len() == s.len() + 1,
        forall|i: int|
            0 <= i < insert_in_order(x, s, today).len() ==> #[trigger] insert_in_order(
                x,
                s,
                today,
            )[i] == x || s.contains(insert_in_order(x, s, today)[i]),
        insert_in_order(x, s, today).to_multiset() == s.to_multiset().insert(x),
    decreases s.len(),
{
    broadcast use vstd::seq_lib::group_to_multiset_ensures;

    let r = insert_in_order(x, s, today);
    if s.len() == 0 {
        assert(r.remove(0) =~= s);
        vstd::seq_lib::to_multiset_remove(r, 0);
        assert(r.contains(x));
        assert(r.to_multiset() =~= s.to_multiset().insert(x));
    } else if task_lt(x, s[0], today) {
        assert forall|i: int| 0 <= i < r.len() implies #[trigger] r[i] == x || s.contains(r[i]) by {
            if i > 0 {
                assert(r[i] == s[i - 1]);
            }
        }
        assert(r.remove(0) =~= s);
        vstd::seq_lib::to_multiset_remove(r, 0);
        assert(r.to_multiset().count(x) > 0) by {
            assert(r[0] == x);
            assert(r.contains(x));
        }
        assert(r.to_multiset() =~= s.to_multiset().insert(x));
    } else {
        let t = s.drop_first();
        lemma_insert_in_order_members(x, t, today);
        let rt = insert_in_order(x, t, today);
        assert(r == seq![s[0]] + rt);
        assert forall|i: int| 0 <= i < r.len() implies #[trigger] r[i] == x || s.contains(r[i]) by {
            if i == 0 {
                assert(s[0] == r[0]);
            } else {
                assert(r[i] == rt[i - 1]);
                if rt[i - 1] != x {
                    let k = choose|k: int| 0 <= k < t.len() && t[k] == rt[i - 1];
                    assert(s[k + 1] == t[k]);
                }
            }
        }
        assert(r.remove(0) =~= rt);
        assert(s.remove(0) =~= t);
        vstd::seq_lib::to_multiset_remove(r, 0);
        vstd::seq_lib::to_multiset_remove(s, 0);
        assert(r[0] == s[0]);
        assert(r.contains(s[0]));
        assert(s.contains(s[0]));
        assert(r.to_multiset().count(s[0]) > 0);
        assert(s.to_multiset().count(s[0]) > 0);
        assert(r.to_multiset() =~= rt.to_multiset().insert(s[0]));
        assert(s.to_multiset() =~= t.to_multiset().insert(s[0]));
        assert(r.to_multiset() =~= s.to_multiset().insert(x));
    }
}

/// Whether no two tasks in `s` share an id.
pub open spec fn distinct_task_ids(s: Seq<TaskView>) -> bool {
    forall|i: int, j: int| 0 <= i < j < s.len() ==> (#[trigger] s[i]).id != (#[trigger] s[j]).id
}

proof fn lemma_insert_keeps_ids_distinct(x: TaskView, l: Seq<TaskView>, today: Date)
    requires
        distinct_task_ids(l),
        forall|k: int| 0 <= k < l.len() ==> (#[trigger] l[k]).id != x.id,
    ensures
        distinct_task_ids(insert_in_order(x, l, today)),
    decreases l.len(),
{
    let r = insert_in_order(x, l, today);
    if l.len() == 0 {
    } else if task_lt(x, l[0], today) {
        assert forall|i: int, j: int| 0 <= i < j < r.len() implies (#[trigger] r[i]).id != (
        #[trigger] r[j]).id by {
            assert(r[j] == l[j - 1]);
            if i > 0 {
                assert(r[i] == l[i - 1]);
            }
        }
    } else {
        let t = l.drop_first();
        assert forall|i: int, j: int| 0 <= i < j < t.len() implies (#[trigger] t[i]).id != (
        #[trigger] t[j]).id by {
            assert(t[i] == l[i + 1] && t[j] == l[j + 1]);
        }
        assert forall|k: int| 0 <= k < t.len() implies (#[trigger] t[k]).id != x.id by {
            assert(t[k] == l[k + 1]);
        }
        lemma_insert_keeps_ids_distinct(x, t, today);
        lemma_insert_in_order_members(x, t, today);
        let rt = insert_in_order(x, t, today);
        assert(r == seq![l[0]] + rt);
        assert forall|i: int, j: int| 0 <= i < j < r.len() implies (#[trigger] r[i]).id != (
        #[trigger] r[j]).id by {
            assert(r[j] == rt[j - 1]);
            if i > 0 {
                assert(r[i] == rt[i - 1]);
            } else {
                assert(r[0] == l[0]);
                if rt[j - 1] != x {
                    assert(t.contains(rt[j - 1]));
                    let m = choose|m: int| 0 <= m < t.len() && t[m] == rt[j - 1];
                    assert(t[m] == l[m + 1]);
                }
            }
        }
    }
}

/// Putting tasks in list order keeps their ids distinct, and every task in
/// the result comes from the input.
pub proof fn lemma_list_order_keeps_ids_distinct(s: Seq<TaskView>, today: Date)
    requires
        distinct_task_ids(s),
    ensures
        distinct_task_ids(list_order(s, today)),
        forall|i: int|
            0 <= i < list_order(s, today).len() ==> s.contains(#[trigger] list_order(s, today)[i]),
    decreases s.len(),
{
    if s.len() > 0 {
        let d = s.drop_last();
        let x = s.last();
        assert forall|i: int, j: int| 0 <= i < j < d.len() implies (#[trigger] d[i]).id != (
        #[trigger] d[j]).id by {
            assert(d[i] == s[i] && d[j] == s[j]);
        }
        lemma_list_order_keeps_ids_distinct(d, today);
        let l = list_order(d, today);
        assert forall|k: int| 0 <= k < l.len() implies (#[trigger] l[k]).id != x.id by {
            assert(d.contains(l[k]));
            let m = choose|m: int| 0 <= m < d.len() && d[m] == l[k];
            assert(s[m] == d[m]);
            assert(s[s.len() - 1] == x);
        }
        lemma_insert_keeps_ids_distinct(x, l, today);
        lemma_insert_in_order_members(x, l, today);
        let r = list_order(s, today);
        assert forall|i: int| 0 <= i < r.len() implies s.contains(#[trigger] r[i]) by {
            if r[i] == x {
                assert(s[s.len() - 1] == x);
            } else {
                assert(l.contains(r[i]));
                let k = choose|k: int| 0 <= k < l.len() && l[k] == r[i];
                assert(d.contains(l[k]));
                let m = choose|m: int| 0 <= m < d.len() && d[m] == l[k];
                assert(s[m] == d[m]);
            }
        }
    }
}

/// The list a store shows has distinct ids when the store's ids are.
pub proof fn lemma_visible_ids_distinct(s: Seq<TaskView>, filter: Filter, query: Seq<char>, today: Date)
    requires
        distinct_task_ids(s),
    ensures
        distinct_task_ids(visible_list(s, filter, query, today)),
{
    let keep = |t: TaskView| matches_query_spec(t, query) && filter.admits_spec(t, today);
    lemma_filter_keeps_ids_unique(s, keep);
    assert(shown_tasks(s, filter, query, today) == s.filter(keep));
    lemma_list_order_keeps_ids_distinct(shown_tasks(s, filter, query, today), today);
}

proof fn lemma_insert_in_order_sorted(x: TaskView, s: Seq<TaskView>, today: Date)
    requires
        sorted_by_key(s, today),
    ensures
        sorted_by_key(insert_in_order(x, s, today), today),
    decreases s.len(),
{
    let r = insert_in_order(x, s, today);
    if s.len() == 0 {
    } else if task_lt(x, s[0], today) {
        assert forall|i: int, j: int| 0 <= i < j < r.len() implies !task_lt(
            #[trigger] r[j],
            #[trigger] r[i],
            today,
        ) by {
            assert(r[j] == s[j - 1]);
            if i == 0 {
                if task_lt(s[j - 1], x, today) {
                    lemma_task_lt_transitive(s[j - 1], x, s[0], today);
                    if j - 1 == 0 {
                        lemma_lex_lt_irreflexive(task_key(s[0], today));
                    }
                }
            } else {
                assert(r[i] == s[i - 1]);
            }
        }
    } else {
        let t = s.drop_first();
        assert forall|i: int, j: int| 0 <= i < j < t.len() implies !task_lt(
            #[trigger] t[j],
            #[trigger] t[i],
            today,
        ) by {
            assert(t[j] == s[j + 1]);
            assert(t[i] == s[i + 1]);
        }
        lemma_insert_in_order_sorted(x, t, today);
        lemma_insert_in_order_members(x, t, today);
        let rt = insert_in_order(x, t, today);
        assert forall|i: int, j: int| 0 <= i < j < r.len() implies !task_lt(
            #[trigger] r[j],
            #[trigger] r[i],
            today,
        ) by {
            assert(r[j] == rt[j - 1]);
            if i == 0 {
                assert(r[0] == s[0]);
                if rt[j - 1] != x {
                    assert(t.contains(rt[j - 1]));
                    let k = choose|k: int| 0 <= k < t.len() && t[k] == rt[j - 1];
                    assert(s[k + 1] == t[k]);
                }
            } else {
                assert(r[i] == rt[i - 1]);
            }
        }
    }
}

/// The list order is sorted by the task key.
pub proof fn lemma_list_order_sorted(s: Seq<TaskView>, today: Date)
    ensures
        sorted_by_key(list_order(s, today), today),
    decreases s.len(),
{
    if s.len() > 0 {
        lemma_list_order_sorted(s.drop_last(), today);
        lemma_insert_in_order_sorted(s.last(), list_order(s.drop_last(), today), today);
    }
}

/// The list order holds the same tasks, as many times each.
pub proof fn lemma_list_order_permutation(s: Seq<TaskView>, today: Date)
    ensures
        list_order(s, today).to_multiset() == s.to_multiset(),
        list_order(s, today).len() == s.len(),
    decreases s.len(),
{
    broadcast use vstd::seq_lib::group_to_multiset_ensures;

    if s.len() == 0 {
    } else {
        lemma_list_order_permutation(s.drop_last(), today);
        lemma_insert_in_order_members(s.last(), list_order(s.drop_last(), today), today);
        assert(s.drop_last().push(s.last()) =~= s);
        vstd::seq_lib::to_multiset_build(s.drop_last(), s.last());
    }
}

/// Sorts tasks into list order by inserting each, in turn, before the first
/// task it precedes.
fn sort_for_list<'a>(tasks: Vec<&'a Task>, today: Date) -> (r: Vec<&'a Task>)
    ensures
        deref_tasks(r@) == list_order(deref_tasks(tasks@), today),
{
    let mut out: Vec<&'a Task> = Vec::new();
    let mut i: usize = 0;
    let ghost all = deref_tasks(tasks@);
    proof {
        assert(all.take(0) =~= Seq::<TaskView>::empty());
        assert(deref_tasks(out@) =~= Seq::<TaskView>::empty());
    }
    while i < tasks.len()
        invariant
            i <= tasks@.len(),
            all == deref_tasks(tasks@),
            deref_tasks(out@) == list_order(all.take(i as int), today),
        decreases tasks.len() - i,
    {
        let x = tasks[i];
        let mut p: usize = 0;
        while p < out.len() && !task_precedes(x, out[p], today)
            invariant
                p <= out@.len(),
                forall|j: int| 0 <= j < p ==> !task_lt(x@, #[trigger] deref_tasks(out@)[j], today),
            decreases out.len() - p,
        {
            p = p + 1;
        }
        let ghost before = deref_tasks(out@);
        proof {
            lemma_insert_in_order_at(x@, before, p as int, today);
            assert(all.take(i + 1).drop_last() =~= all.take(i as int));
            assert(all.take(i + 1).last() == x@);
        }
        out.insert(p, x);
        proof {
            assert(deref_tasks(out@) =~= before.insert(p as int, x@));
        }
        i = i + 1;
    }
    proof {
        assert(all.take(i as int) =~= all);
    }
    out
}

} // verus!
