//! The interactive application: what each key does to the list, the form,
//! the search box, the delete prompt, the help screen and the language
//! picker, and which file work it asks the caller to perform.
//!
//! File work is not done here. A step that needs it returns a `Command`;
//! the caller performs it and hands the outcome to the matching `finish_*`
//! method, which completes the step.
use vstd::prelude::*;

use crate::clock::{iso_date, iso_date_text, now_utc, today_local, Date, Timestamp};
use crate::error::{AppError, AppResult, ErrorView, IoKind, not_found_text};
use crate::i18n::{
    available_locales, base_entries, custom_locale_path, custom_locale_path_spec, entries_map, fill_params,
    is_locale_option_list, lookup, options_view, texts, Entry, I18n, LocaleOption, LocaleSource,
    OptionView,
};
use crate::model::{
    deref_tasks, first_index, has_id, ids_below_next, ids_unique, law_add_task, law_delete_task,
    law_edits_keep_ids, is_overdue_spec, is_due_today_spec, lemma_first_index,
    parse_due_date_input, visible_list, ymd_date_of, DraftView, Filter, Priority, StoreView, Task,
    TaskDraft, TaskStatus, TaskStore, TaskView,
};
use crate::storage::Config;
use crate::text::{
    drop_last_char, is_blank_spec, owned, pop_char, push_char, trim, trim_spec,
};

verus! {

// ---------------------------------------------------------------------------
// Keys
// ---------------------------------------------------------------------------

/// Which key was pressed.
#[derive(Clone, Copy, Debug, PartialEq, Eq, Structural)]
pub enum KeyCode {
    Char(char),
    Up,
    Down,
    Left,
    Right,
    Tab,
    BackTab,
    Enter,
    Esc,
    Backspace,
    Other,
}

/// The modifier keys held, as a bit set: shift 1, control 2, alt 4, super 8,
/// hyper 16, meta 32.
#[derive(Clone, Copy, Debug, PartialEq, Eq, Structural)]
pub struct KeyModifiers {
    pub bits: u8,
}

impl KeyModifiers {
    /// No modifier.
    pub fn empty() -> (r: KeyModifiers)
        ensures
            r.bits == 0,
    {
        KeyModifiers { bits: 0 }
    }

    /// Shift alone.
    pub fn shift() -> (r: KeyModifiers)
        ensures
            r.bits == 1,
    {
        KeyModifiers { bits: 1 }
    }

    /// Whether no modifier is held.
    pub fn is_empty(&self) -> (r: bool)
        ensures
            r == (self.bits == 0),
    {
        self.bits == 0
    }
}

/// Whether a key was pressed, repeated or released.
#[derive(Clone, Copy, Debug, PartialEq, Eq, Structural)]
pub enum KeyEventKind {
    Press,
    Repeat,
    Release,
}

/// One key event.
#[derive(Clone, Copy, Debug, PartialEq, Eq, Structural)]
pub struct KeyEvent {
    pub code: KeyCode,
    pub modifiers: KeyModifiers,
    pub kind: KeyEventKind,
}

impl From<KeyCode> for KeyEvent {
    /// A press of the key with no modifier.
    fn from(code: KeyCode) -> (r: KeyEvent) {
        KeyEvent { code, modifiers: KeyModifiers { bits: 0 }, kind: KeyEventKind::Press }
    }
}

impl vstd::std_specs::convert::FromSpecImpl<KeyCode> for KeyEvent {
    open spec fn obeys_from_spec() -> bool {
        true
    }

    open spec fn from_spec(code: KeyCode) -> KeyEvent {
        KeyEvent { code, modifiers: KeyModifiers { bits: 0 }, kind: KeyEventKind::Press }
    }
}

/// Whether the key is the character `c` with no modifier.
pub open spec fn is_plain_char(key: KeyEvent, c: char) -> bool {
    key.code == KeyCode::Char(c) && key.modifiers.bits == 0
}

/// Whether the key types text: a character with no modifier or with shift.
pub open spec fn is_plain_text_input_spec(key: KeyEvent) -> bool {
    key.code is Char && (key.modifiers.bits == 0 || key.modifiers.bits == 1)
}

fn is_plain_text_input(key: KeyEvent) -> (r: bool)
    ensures
        r == is_plain_text_input_spec(key),
{
    match key.code {
        KeyCode::Char(_) => key.modifiers.bits == 0 || key.modifiers.bits == 1,
        _ => false,
    }
}

// ---------------------------------------------------------------------------
// The task form
// ---------------------------------------------------------------------------

/// The field of the task form that has the focus.
#[derive(Clone, Copy, Debug, PartialEq, Eq, Structural)]
pub enum FormField {
    Title,
    Notes,
    Priority,
    DueDate,
}

impl FormField {
    pub open spec fn translation_key_spec(self) -> Seq<char> {
        match self {
            FormField::Title => "form.field.title"@,
            FormField::Notes => "form.field.notes"@,
            FormField::Priority => "form.field.priority"@,
            FormField::DueDate => "form.field.due_date"@,
        }
    }

    /// The catalog key of the field's label.
    pub fn translation_key(self) -> (r: &'static str)
        ensures
            r@ == self.translation_key_spec(),
    {
        match self {
            FormField::Title => "form.field.title",
            FormField::Notes => "form.field.notes",
            FormField::Priority => "form.field.priority",
            FormField::DueDate => "form.field.due_date",
        }
    }

    pub open spec fn next_spec(self) -> FormField {
        match self {
            FormField::Title => FormField::Priority,
            FormField::Priority => FormField::Notes,
            FormField::Notes => FormField::DueDate,
            FormField::DueDate => FormField::Title,
        }
    }

    /// The following field, in the order Title, Priority, Notes, DueDate.
    pub fn next(self) -> (r: FormField)
        ensures
            r == self.next_spec(),
    {
        match self {
            FormField::Title => FormField::Priority,
            FormField::Priority => FormField::Notes,
            FormField::Notes => FormField::DueDate,
            FormField::DueDate => FormField::Title,
        }
    }

    pub open spec fn previous_spec(self) -> FormField {
        match self {
            FormField::Title => FormField::DueDate,
            FormField::Priority => FormField::Title,
            FormField::Notes => FormField::Priority,
            FormField::DueDate => FormField::Notes,
        }
    }

    /// The preceding field.
    pub fn previous(self) -> (r: FormField)
        ensures
            r == self.previous_spec(),
    {
        match self {
            FormField::Title => FormField::DueDate,
            FormField::Priority => FormField::Title,
            FormField::Notes => FormField::Priority,
            FormField::DueDate => FormField::Notes,
        }
    }
}

/// The task form: a new task when `task_id` is `None`, else an edit.
#[derive(Debug, Clone)]
pub struct TaskForm {
    pub task_id: Option<u64>,
    pub title: String,
    pub notes: String,
    pub priority: Priority,
    pub due_date: String,
    pub field: FormField,
    pub error: Option<String>,
}

/// A form as a mathematical value.
pub struct FormView {
    pub task_id: Option<u64>,
    pub title: Seq<char>,
    pub notes: Seq<char>,
    pub priority: Priority,
    pub due_date: Seq<char>,
    pub field: FormField,
    pub error: Option<Seq<char>>,
}

/// The text of an optional string.
pub open spec fn opt_text(o: Option<String>) -> Option<Seq<char>> {
    match o {
        Some(s) => Some(s@),
        None => None,
    }
}

impl View for TaskForm {
    type V = FormView;

    open spec fn view(&self) -> FormView {
        FormView {
            task_id: self.task_id,
            title: self.title@,
            notes: self.notes@,
            priority: self.priority,
            due_date: self.due_date@,
            field: self.field,
            error: opt_text(self.error),
        }
    }
}

/// The empty form for a new task.
pub open spec fn new_form_view() -> FormView {
    FormView {
        task_id: None,
        title: Seq::empty(),
        notes: Seq::empty(),
        priority: Priority::P2,
        due_date: Seq::empty(),
        field: FormField::Title,
        error: None,
    }
}

/// The text of a due date in the form: `YYYY-MM-DD`, or empty.
pub open spec fn due_text(d: Option<Date>) -> Seq<char> {
    match d {
        Some(date) => iso_date(date.days_from_ce as int),
        None => Seq::empty(),
    }
}

/// The form that edits a task.
pub open spec fn form_of(t: TaskView) -> FormView {
    FormView {
        task_id: Some(t.id),
        title: t.title,
        notes: t.notes,
        priority: t.priority,
        due_date: due_text(t.due_date),
        field: FormField::Title,
        error: None,
    }
}

/// The form's title key: new or edit.
pub open spec fn form_title_key(f: FormView) -> Seq<char> {
    if f.task_id is Some {
        "modal.form.edit"@
    } else {
        "modal.form.new"@
    }
}

impl TaskForm {
    /// The empty form for a new task.
    pub fn new() -> (r: TaskForm)
        ensures
            r@ == new_form_view(),
    {
        TaskForm {
            task_id: None,
            title: String::new(),
            notes: String::new(),
            priority: Priority::P2,
            due_date: String::new(),
            field: FormField::Title,
            error: None,
        }
    }

    /// The form that edits a task.
    pub fn from_task(task: &Task) -> (r: TaskForm)
        ensures
            r@ == form_of(task@),
    {
        TaskForm {
            task_id: Some(task.id),
            title: task.title.clone(),
            notes: task.notes.clone(),
            priority: task.priority,
            due_date: match task.due_date {
                Some(d) => iso_date_text(d),
                None => String::new(),
            },
            field: FormField::Title,
            error: None,
        }
    }

    /// The catalog key of the form's heading.
    pub fn title_key(&self) -> (r: &'static str)
        ensures
            r@ == form_title_key(self@),
    {
        if self.task_id.is_some() {
            "modal.form.edit"
        } else {
            "modal.form.new"
        }
    }

    fn duplicate(&self) -> (r: TaskForm)
        ensures
            r@ == self@,
    {
        TaskForm {
            task_id: self.task_id,
            title: self.title.clone(),
            notes: self.notes.clone(),
            priority: self.priority,
            due_date: self.due_date.clone(),
            field: self.field,
            error: match &self.error {
                Some(e) => Some(e.clone()),
                None => None,
            },
        }
    }

    /// The draft the form submits, its due date read from the text.
    fn into_draft(&self) -> (r: AppResult<TaskDraft>)
        ensures
            draft_of(self@) matches Some(d) ==> (r matches Ok(t) && t@ == d),
            draft_of(self@) is None ==> (r matches Err(e) && e is InvalidDueDate),
    {
        let due_date = parse_due_date_input(self.due_date.as_str())?;
        Ok(
            TaskDraft {
                title: self.title.clone(),
                notes: self.notes.clone(),
                priority: self.priority,
                due_date,
            },
        )
    }
}

/// The due date a form's text reads as: `None` inside when blank; `None`
/// outside when the text is not a date.
pub open spec fn due_of(text: Seq<char>) -> Option<Option<Date>> {
    if is_blank_spec(text) {
        Some(None)
    } else {
        match ymd_date_of(text) {
            Some(days) => Some(Some(Date { days_from_ce: days as i32 })),
            None => None,
        }
    }
}

/// The draft a form submits, when its due date reads.
pub open spec fn draft_of(f: FormView) -> Option<DraftView> {
    match due_of(f.due_date) {
        Some(due) => Some(
            DraftView { title: f.title, notes: f.notes, priority: f.priority, due_date: due },
        ),
        None => None,
    }
}

/// A text field after Backspace or a typed character.
pub open spec fn typed(text: Seq<char>, key: KeyEvent) -> Seq<char> {
    match key.code {
        KeyCode::Backspace => drop_last_char(text),
        KeyCode::Char(c) => text.push(c),
        _ => text,
    }
}

/// What a key does inside the form, Enter and Esc aside; the error line is
/// cleared in every case.
pub open spec fn form_edit(f: FormView, key: KeyEvent) -> FormView {
    let on_priority = f.field == FormField::Priority;
    let g = match key.code {
        KeyCode::Tab | KeyCode::Down => FormView { field: f.field.next_spec(), ..f },
        KeyCode::BackTab | KeyCode::Up => FormView { field: f.field.previous_spec(), ..f },
        KeyCode::Left if on_priority => FormView { priority: f.priority.previous_spec(), ..f },
        KeyCode::Right if on_priority => FormView { priority: f.priority.next_spec(), ..f },
        KeyCode::Char(c) if c == 'h' && key.modifiers.bits == 0 && on_priority => FormView {
            priority: f.priority.previous_spec(),
            ..f
        },
        KeyCode::Char(c) if c == 'l' && key.modifiers.bits == 0 && on_priority => FormView {
            priority: f.priority.next_spec(),
            ..f
        },
        KeyCode::Char(c) if c == '1' && on_priority => FormView { priority: Priority::P1, ..f },
        KeyCode::Char(c) if c == '2' && on_priority => FormView { priority: Priority::P2, ..f },
        KeyCode::Char(c) if c == '3' && on_priority => FormView { priority: Priority::P3, ..f },
        KeyCode::Backspace => text_edit(f, key),
        KeyCode::Char(_) if is_plain_text_input_spec(key) => text_edit(f, key),
        _ => f,
    };
    FormView { error: None, ..g }
}

/// Backspace or a typed character applied to the focused text field.
pub open spec fn text_edit(f: FormView, key: KeyEvent) -> FormView {
    match f.field {
        FormField::Title => FormView { title: typed(f.title, key), ..f },
        FormField::Notes => FormView { notes: typed(f.notes, key), ..f },
        FormField::Priority => f,
        FormField::DueDate => FormView { due_date: typed(f.due_date, key), ..f },
    }
}

// ---------------------------------------------------------------------------
// Application state
// ---------------------------------------------------------------------------

/// What the screen is showing.
#[derive(Debug, Clone)]
pub enum AppMode {
    List,
    CreateEditModal(TaskForm),
    DeleteConfirm,
    Search { draft: String },
    Help,
    LocalePicker { selected: usize, options: Vec<LocaleOption> },
}

/// A mode as a mathematical value.
pub enum ModeView {
    List,
    Form(FormView),
    DeleteConfirm,
    Search(Seq<char>),
    Help,
    LocalePicker(usize, Seq<OptionView>),
}

impl View for AppMode {
    type V = ModeView;

    open spec fn view(&self) -> ModeView {
        match self {
            AppMode::List => ModeView::List,
            AppMode::CreateEditModal(f) => ModeView::Form(f@),
            AppMode::DeleteConfirm => ModeView::DeleteConfirm,
            AppMode::Search { draft } => ModeView::Search(draft@),
            AppMode::Help => ModeView::Help,
            AppMode::LocalePicker { selected, options } => ModeView::LocalePicker(
                *selected,
                options_view(options@),
            ),
        }
    }
}

/// The step that waits for the outcome of file work.
#[derive(Debug, Clone)]
pub enum Pending {
    Nothing,
    SyncSelection,
    FinishDelete,
    FinishSubmit(u64),
    OpenLocalePicker,
    LoadLocale(String),
    ApplyLocale(I18n),
}

/// A waiting step as a mathematical value.
pub enum PendingView {
    Nothing,
    SyncSelection,
    FinishDelete,
    FinishSubmit(u64),
    OpenLocalePicker,
    LoadLocale(Seq<char>),
    ApplyLocale(Seq<char>, Seq<Entry>),
}

impl View for Pending {
    type V = PendingView;

    open spec fn view(&self) -> PendingView {
        match self {
            Pending::Nothing => PendingView::Nothing,
            Pending::SyncSelection => PendingView::SyncSelection,
            Pending::FinishDelete => PendingView::FinishDelete,
            Pending::FinishSubmit(id) => PendingView::FinishSubmit(*id),
            Pending::OpenLocalePicker => PendingView::OpenLocalePicker,
            Pending::LoadLocale(l) => PendingView::LoadLocale(l@),
            Pending::ApplyLocale(i) => PendingView::ApplyLocale(i.locale_spec(), i.entries()),
        }
    }
}

/// File work the caller must perform, then report with the matching
/// `finish_*` method.
#[derive(Debug, Clone, PartialEq, Eq)]
pub enum Command {
    /// Nothing to do.
    Idle,
    /// Write the store to the data file; then `finish_save`.
    SaveStore,
    /// List the stems of the `.json` files in the catalog directory; then
    /// `finish_locale_listing`.
    ListLocales,
    /// Read the custom locale pack at the path, if it exists; then
    /// `finish_locale_load`.
    ReadLocalePack { path: String },
    /// Write the configuration to its file; then `finish_config_save`.
    SaveConfig,
}

/// A command as a mathematical value.
pub enum CommandView {
    Idle,
    SaveStore,
    ListLocales,
    ReadLocalePack(Seq<char>),
    SaveConfig,
}

impl View for Command {
    type V = CommandView;

    open spec fn view(&self) -> CommandView {
        match self {
            Command::Idle => CommandView::Idle,
            Command::SaveStore => CommandView::SaveStore,
            Command::ListLocales => CommandView::ListLocales,
            Command::ReadLocalePack { path } => CommandView::ReadLocalePack(path@),
            Command::SaveConfig => CommandView::SaveConfig,
        }
    }
}

/// The whole application.
#[derive(Debug)]
pub struct App {
    store: TaskStore,
    data_file: String,
    config_path: String,
    i18n_dir: String,
    config: Config,
    i18n: I18n,
    filter: Filter,
    search_query: String,
    mode: AppMode,
    selected_task_id: Option<u64>,
    should_quit: bool,
    message: Option<String>,
    pending: Pending,
}

/// The application as a mathematical value.
pub struct AppView {
    pub store: StoreView,
    pub data_file: Seq<char>,
    pub config_path: Seq<char>,
    pub i18n_dir: Seq<char>,
    pub config_locale: Seq<char>,
    pub locale: Seq<char>,
    pub entries: Seq<Entry>,
    pub filter: Filter,
    pub query: Seq<char>,
    pub mode: ModeView,
    pub selected: Option<u64>,
    pub quit: bool,
    pub message: Option<Seq<char>>,
    pub pending: PendingView,
}

impl View for App {
    type V = AppView;

    closed spec fn view(&self) -> AppView {
        AppView {
            store: self.store@,
            data_file: self.data_file@,
            config_path: self.config_path@,
            i18n_dir: self.i18n_dir@,
            config_locale: self.config.i18n.locale@,
            locale: self.i18n.locale_spec(),
            entries: self.i18n.entries(),
            filter: self.filter,
            query: self.search_query@,
            mode: self.mode@,
            selected: self.selected_task_id,
            quit: self.should_quit,
            message: opt_text(self.message),
            pending: self.pending@,
        }
    }
}

/// The ids of a list of tasks.
pub open spec fn ids_of(s: Seq<TaskView>) -> Seq<u64> {
    s.map_values(|t: TaskView| t.id)
}

/// Whether `i` is the first position of `x` in `ids`.
pub open spec fn is_first_pos(ids: Seq<u64>, x: u64, i: int) -> bool {
    0 <= i < ids.len() && ids[i] == x && forall|j: int| 0 <= j < i ==> ids[j] != x
}

/// The first position of `x` in `ids` (meaningful when it occurs).
pub open spec fn first_pos(ids: Seq<u64>, x: u64) -> int {
    choose|i: int| is_first_pos(ids, x, i)
}

proof fn lemma_first_pos(ids: Seq<u64>, x: u64, i: int)
    requires
        is_first_pos(ids, x, i),
    ensures
        first_pos(ids, x) == i,
{
    let k = first_pos(ids, x);
    assert(is_first_pos(ids, x, k));
    if k < i {
        assert(ids[k] != x);
    } else if i < k {
        assert(ids[i] != x);
    }
}

/// The selection kept in view: none when nothing shows, the current one when
/// it shows, else the first shown.
pub open spec fn synced_selection(ids: Seq<u64>, sel: Option<u64>) -> Option<u64> {
    if ids.len() == 0 {
        None
    } else if sel matches Some(s) && ids.contains(s) {
        sel
    } else {
        Some(ids[0])
    }
}

/// The selection after moving down: the next shown task, wrapping round.
pub open spec fn next_selection(ids: Seq<u64>, sel: Option<u64>) -> Option<u64> {
    if ids.len() == 0 {
        None
    } else if sel matches Some(s) && ids.contains(s) {
        Some(ids[(first_pos(ids, sel->0) + 1) % (ids.len() as int)])
    } else {
        Some(ids[0])
    }
}

/// The selection after moving up: the previous shown task, wrapping round.
pub open spec fn previous_selection(ids: Seq<u64>, sel: Option<u64>) -> Option<u64> {
    if ids.len() == 0 {
        None
    } else if sel matches Some(s) && ids.contains(s) && first_pos(ids, s) > 0 {
        Some(ids[first_pos(ids, sel->0) - 1])
    } else {
        Some(ids.last())
    }
}

/// The text of an error in a catalog.
pub open spec fn error_message(cat: Map<Seq<char>, Seq<char>>, e: ErrorView) -> Seq<char> {
    match e {
        ErrorView::Io(_, d) => fill_params(lookup(cat, "error.io"@), seq![("details"@, d)]),
        ErrorView::Serde(d) => fill_params(lookup(cat, "error.json"@), seq![("details"@, d)]),
        ErrorView::MissingHomeDir => lookup(cat, "error.missing_home"@),
        ErrorView::InvalidDueDate => lookup(cat, "error.invalid_due_date"@),
        ErrorView::EmptyTitle => lookup(cat, "error.empty_title"@),
        ErrorView::CorruptedData(p) => fill_params(
            lookup(cat, "error.corrupted_data"@),
            seq![("path"@, p)],
        ),
        ErrorView::InvalidLocaleFile(p, _) => fill_params(
            lookup(cat, "error.invalid_locale_file"@),
            seq![("path"@, p)],
        ),
        ErrorView::InvalidConfig(p) => fill_params(
            lookup(cat, "error.invalid_config"@),
            seq![("path"@, p)],
        ),
    }
}

/// Whether the view is one the application can be in: a language picker
/// points at one of its options.
pub open spec fn wf_view(a: AppView) -> bool {
    a.mode matches ModeView::LocalePicker(sel, opts) ==> sel < opts.len()
}

impl AppView {
    /// The catalog in use.
    pub open spec fn catalog(self) -> Map<Seq<char>, Seq<char>> {
        entries_map(self.entries)
    }

    /// The ids of the tasks the list shows on `today`, in list order.
    pub open spec fn visible_ids(self, today: Date) -> Seq<u64> {
        ids_of(visible_list(self.store.tasks, self.filter, self.query, today))
    }

    /// The view with the selection kept in view on `today`.
    pub open spec fn synced(self, today: Date) -> AppView {
        AppView { selected: synced_selection(self.visible_ids(today), self.selected), ..self }
    }

    /// The selected task, if the selection names one.
    pub open spec fn selected_task(self) -> Option<TaskView> {
        match self.selected {
            Some(id) => if has_id(self.store.tasks, id) {
                Some(self.store.tasks[first_index(self.store.tasks, id)])
            } else {
                None
            },
            None => None,
        }
    }

    /// A step that only changes the mode.
    pub open spec fn with_mode(self, mode: ModeView) -> AppView {
        AppView { mode, ..self }
    }

    /// Setting the priority of the selected task at `now`: a store write when
    /// the selected task exists.
    pub open spec fn set_selected_priority(self, p: Priority, now: Timestamp) -> (AppView, CommandView) {
        match self.selected {
            Some(id) => if has_id(self.store.tasks, id) {
                (
                    AppView {
                        store: self.store.reprioritized(id, p, now),
                        pending: PendingView::SyncSelection,
                        ..self
                    },
                    CommandView::SaveStore,
                )
            } else {
                (self, CommandView::Idle)
            },
            None => (self, CommandView::Idle),
        }
    }

    /// Moving the selected task's priority up or down one step.
    pub open spec fn shift_selected_priority(self, up: bool, now: Timestamp) -> (AppView, CommandView) {
        match self.selected_task() {
            Some(t) => self.set_selected_priority(
                if up {
                    t.priority.next_spec()
                } else {
                    t.priority.previous_spec()
                },
                now,
            ),
            None => (self, CommandView::Idle),
        }
    }

    /// What a key does on the list.
    pub open spec fn list_key(self, key: KeyEvent, now: Timestamp, today: Date) -> (AppView, CommandView) {
        let ids = self.visible_ids(today);
        let idle = CommandView::Idle;
        if key.code == KeyCode::Up || is_plain_char(key, 'k') {
            (AppView { selected: previous_selection(ids, self.selected), ..self }, idle)
        } else if key.code == KeyCode::Down || is_plain_char(key, 'j') {
            (AppView { selected: next_selection(ids, self.selected), ..self }, idle)
        } else if is_plain_char(key, 'n') {
            (AppView { mode: ModeView::Form(new_form_view()), message: None, ..self }, idle)
        } else if is_plain_char(key, 'e') {
            match self.selected_task() {
                Some(t) => (AppView { mode: ModeView::Form(form_of(t)), message: None, ..self }, idle),
                None => (self, idle),
            }
        } else if is_plain_char(key, 'd') {
            if self.selected_task() is Some {
                (self.with_mode(ModeView::DeleteConfirm), idle)
            } else {
                (self, idle)
            }
        } else if is_plain_char(key, 'f') {
            (AppView { filter: self.filter.next_spec(), ..self }.synced(today), idle)
        } else if is_plain_char(key, '/') {
            (self.with_mode(ModeView::Search(self.query)), idle)
        } else if is_plain_char(key, '?') {
            (self.with_mode(ModeView::Help), idle)
        } else if is_plain_char(key, 'g') {
            (AppView { pending: PendingView::OpenLocalePicker, ..self }, CommandView::ListLocales)
        } else if key.code == KeyCode::Esc || is_plain_char(key, 'q') {
            (AppView { quit: true, ..self }, idle)
        } else if is_plain_char(key, ' ') {
            match self.selected {
                Some(id) => (
                    AppView {
                        store: self.store.toggled(id, now),
                        pending: PendingView::SyncSelection,
                        ..self
                    },
                    CommandView::SaveStore,
                ),
                None => (self, idle),
            }
        } else if key.code == KeyCode::Left || is_plain_char(key, 'h') {
            self.shift_selected_priority(false, now)
        } else if key.code == KeyCode::Right || is_plain_char(key, 'l') {
            self.shift_selected_priority(true, now)
        } else if is_plain_char(key, '1') {
            self.set_selected_priority(Priority::P1, now)
        } else if is_plain_char(key, '2') {
            self.set_selected_priority(Priority::P2, now)
        } else if is_plain_char(key, '3') {
            self.set_selected_priority(Priority::P3, now)
        } else {
            (self, idle)
        }
    }

    /// The form showing an error.
    pub open spec fn form_error(self, f: FormView, e: ErrorView) -> (AppView, CommandView) {
        (
            self.with_mode(ModeView::Form(FormView { error: Some(error_message(self.catalog(), e)), ..f })),
            CommandView::Idle,
        )
    }

    /// Submitting the form at `now`: an unreadable due date, a missing task or
    /// a blank title shows an error; otherwise the store changes and is written.
    pub open spec fn submit(self, f: FormView, now: Timestamp) -> (AppView, CommandView) {
        match draft_of(f) {
            None => self.form_error(f, ErrorView::InvalidDueDate),
            Some(d) => match f.task_id {
                Some(id) => if !has_id(self.store.tasks, id) {
                    self.form_error(f, ErrorView::Io(IoKind::NotFound, not_found_text(id)))
                } else if is_blank_spec(d.title) {
                    self.form_error(f, ErrorView::EmptyTitle)
                } else {
                    (
                        AppView {
                            store: self.store.edited(id, d, now),
                            pending: PendingView::FinishSubmit(id),
                            ..self
                        },
                        CommandView::SaveStore,
                    )
                },
                None => if is_blank_spec(d.title) {
                    self.form_error(f, ErrorView::EmptyTitle)
                } else {
                    (
                        AppView {
                            store: self.store.added(d, now),
                            pending: PendingView::FinishSubmit(self.store.next_id),
                            ..self
                        },
                        CommandView::SaveStore,
                    )
                },
            },
        }
    }

    /// What a key does in the form.
    pub open spec fn form_key(self, f: FormView, key: KeyEvent, now: Timestamp) -> (AppView, CommandView) {
        if key.code == KeyCode::Esc {
            (self.with_mode(ModeView::List), CommandView::Idle)
        } else if key.code == KeyCode::Enter {
            let g = FormView { error: None, ..f };
            self.with_mode(ModeView::Form(g)).submit(g, now)
        } else {
            (self.with_mode(ModeView::Form(form_edit(f, key))), CommandView::Idle)
        }
    }

    /// What a key does in the delete prompt.
    pub open spec fn delete_key(self, key: KeyEvent) -> (AppView, CommandView) {
        if key.code == KeyCode::Esc || is_plain_char(key, 'n') {
            (self.with_mode(ModeView::List), CommandView::Idle)
        } else if is_plain_char(key, 'y') || key.code == KeyCode::Enter {
            match self.selected {
                Some(id) => (
                    AppView {
                        store: self.store.without(id),
                        pending: PendingView::FinishDelete,
                        ..self
                    },
                    CommandView::SaveStore,
                ),
                None => (self.with_mode(ModeView::List), CommandView::Idle),
            }
        } else {
            (self, CommandView::Idle)
        }
    }

    /// What a key does in the search box.
    pub open spec fn search_key(self, draft: Seq<char>, key: KeyEvent, today: Date) -> (AppView, CommandView) {
        if key.code == KeyCode::Esc {
            (self.with_mode(ModeView::List), CommandView::Idle)
        } else if key.code == KeyCode::Enter {
            (
                AppView { query: trim_spec(draft), ..self }.synced(today).with_mode(ModeView::List),
                CommandView::Idle,
            )
        } else if key.code == KeyCode::Backspace || is_plain_text_input_spec(key) {
            (self.with_mode(ModeView::Search(typed(draft, key))), CommandView::Idle)
        } else {
            (self, CommandView::Idle)
        }
    }

    /// What a key does on the help screen.
    pub open spec fn help_key(self, key: KeyEvent) -> (AppView, CommandView) {
        if key.code == KeyCode::Esc || key.code == KeyCode::Enter || key.code == KeyCode::Char('?') {
            (self.with_mode(ModeView::List), CommandView::Idle)
        } else {
            (self, CommandView::Idle)
        }
    }

    /// What a key does in the language picker.
    pub open spec fn picker_key(self, sel: usize, opts: Seq<OptionView>, key: KeyEvent) -> (
        AppView,
        CommandView,
    ) {
        if key.code == KeyCode::Esc {
            (self.with_mode(ModeView::List), CommandView::Idle)
        } else if key.code == KeyCode::Up || is_plain_char(key, 'k') {
            let s = if sel == 0 {
                if opts.len() > 0 {
                    (opts.len() - 1) as usize
                } else {
                    0usize
                }
            } else {
                (sel - 1) as usize
            };
            (self.with_mode(ModeView::LocalePicker(s, opts)), CommandView::Idle)
        } else if key.code == KeyCode::Down || is_plain_char(key, 'j') {
            let n = if opts.len() > 0 {
                opts.len() as int
            } else {
                1
            };
            (
                self.with_mode(ModeView::LocalePicker(((sel + 1) % n) as usize, opts)),
                CommandView::Idle,
            )
        } else if key.code == KeyCode::Enter && sel < opts.len() {
            (
                AppView { pending: PendingView::LoadLocale(opts[sel as int].locale), ..self },
                CommandView::ReadLocalePack(
                    custom_locale_path_spec(self.i18n_dir, opts[sel as int].locale),
                ),
            )
        } else {
            (self, CommandView::Idle)
        }
    }

    /// What a key does, at `now` and on `today`.
    pub open spec fn on_key(self, key: KeyEvent, now: Timestamp, today: Date) -> (AppView, CommandView) {
        if key.kind == KeyEventKind::Release {
            (self, CommandView::Idle)
        } else {
            let s = AppView { pending: PendingView::Nothing, ..self };
            match self.mode {
                ModeView::List => s.list_key(key, now, today),
                ModeView::Form(f) => s.form_key(f, key, now),
                ModeView::DeleteConfirm => s.delete_key(key),
                ModeView::Search(d) => s.search_key(d, key, today),
                ModeView::Help => s.help_key(key),
                ModeView::LocalePicker(sel, opts) => s.picker_key(sel, opts, key),
            }
        }
    }

    /// Whether the key submits a form that would add a task.
    pub open spec fn key_adds_task(self, key: KeyEvent) -> bool {
        &&& key.kind != KeyEventKind::Release
        &&& key.code == KeyCode::Enter
        &&& self.mode matches ModeView::Form(f)
        &&& f.task_id is None
        &&& draft_of(f) matches Some(d)
        &&& !is_blank_spec(d.title)
    }
}

/// An outcome of file work as a mathematical value.
pub open spec fn outcome_view(r: AppResult<()>) -> Result<(), ErrorView> {
    match r {
        Ok(_) => Ok(()),
        Err(e) => Err(e@),
    }
}

impl AppView {
    /// The form, if open, showing the text of an error.
    pub open spec fn with_form_error(self, e: ErrorView) -> AppView {
        match self.mode {
            ModeView::Form(f) => self.with_mode(
                ModeView::Form(FormView { error: Some(error_message(self.catalog(), e)), ..f }),
            ),
            _ => self,
        }
    }

    /// The step after the store was written (or failed to be), on `today`.
    pub open spec fn after_save(self, outcome: Result<(), ErrorView>, today: Date) -> (
        AppView,
        Result<(), ErrorView>,
    ) {
        let s = AppView { pending: PendingView::Nothing, ..self };
        match self.pending {
            PendingView::SyncSelection => match outcome {
                Ok(_) => (s.synced(today), Ok(())),
                Err(e) => (s, Err(e)),
            },
            PendingView::FinishDelete => match outcome {
                Ok(_) => (s.synced(today).with_mode(ModeView::List), Ok(())),
                Err(e) => (s, Err(e)),
            },
            PendingView::FinishSubmit(id) => match outcome {
                Ok(_) => (
                    AppView { selected: Some(id), ..s }.synced(today).with_mode(ModeView::List),
                    Ok(()),
                ),
                Err(e) => (s.with_form_error(e), Ok(())),
            },
            _ => (self, Ok(())),
        }
    }
}

/// The first option marked current, else 0.
pub open spec fn current_index(opts: Seq<OptionView>) -> int {
    if exists|i: int| 0 <= i < opts.len() && opts[i].is_current {
        choose|i: int|
            0 <= i < opts.len() && opts[i].is_current && forall|j: int|
                0 <= j < i ==> !opts[j].is_current
    } else {
        0
    }
}

/// The text of an error in a catalog.
pub fn translate_error(i18n: &I18n, error: &AppError) -> (r: String)
    ensures
        r@ == error_message(i18n.catalog(), error@),
{
    match error {
        AppError::Io(_, source) => {
            let params = [("details", source.clone())];
            proof {
                assert(crate::i18n::params_view(params@) =~= seq![("details"@, source@)]);
            }
            i18n.t_fmt("error.io", &params)
        },
        AppError::Serde(source) => {
            let params = [("details", source.clone())];
            proof {
                assert(crate::i18n::params_view(params@) =~= seq![("details"@, source@)]);
            }
            i18n.t_fmt("error.json", &params)
        },
        AppError::MissingHomeDir => i18n.t("error.missing_home"),
        AppError::InvalidDueDate => i18n.t("error.invalid_due_date"),
        AppError::EmptyTitle => i18n.t("error.empty_title"),
        AppError::CorruptedData { path } => {
            let params = [("path", path.clone())];
            proof {
                assert(crate::i18n::params_view(params@) =~= seq![("path"@, path@)]);
            }
            i18n.t_fmt("error.corrupted_data", &params)
        },
        AppError::InvalidLocaleFile { path, .. } => {
            let params = [("path", path.clone())];
            proof {
                assert(crate::i18n::params_view(params@) =~= seq![("path"@, path@)]);
            }
            i18n.t_fmt("error.invalid_locale_file", &params)
        },
        AppError::InvalidConfig { path } => {
            let params = [("path", path.clone())];
            proof {
                assert(crate::i18n::params_view(params@) =~= seq![("path"@, path@)]);
            }
            i18n.t_fmt("error.invalid_config", &params)
        },
    }
}

/// The label of where a locale option comes from.
pub fn locale_source_label(app: &App, source: LocaleSource) -> (r: String)
    ensures
        r@ == lookup(app@.catalog(), match source {
            LocaleSource::Builtin => "modal.locale.builtin"@,
            LocaleSource::Custom => "modal.locale.custom"@,
        }),
{
    match source {
        LocaleSource::Builtin => app.t("modal.locale.builtin"),
        LocaleSource::Custom => app.t("modal.locale.custom"),
    }
}

/// A form after a key other than Enter and Esc.
fn edit_form(form: TaskForm, key: KeyEvent) -> (r: TaskForm)
    ensures
        r@ == form_edit(form@, key),
{
    let mut f = form;
    let on_priority = f.field == FormField::Priority;
    let plain = key.modifiers.is_empty();
    match key.code {
        KeyCode::Tab | KeyCode::Down => {
            f.field = f.field.next();
        },
        KeyCode::BackTab | KeyCode::Up => {
            f.field = f.field.previous();
        },
        KeyCode::Left if on_priority => {
            f.priority = f.priority.previous();
        },
        KeyCode::Right if on_priority => {
            f.priority = f.priority.next();
        },
        KeyCode::Char(c) if c == 'h' && plain && on_priority => {
            f.priority = f.priority.previous();
        },
        KeyCode::Char(c) if c == 'l' && plain && on_priority => {
            f.priority = f.priority.next();
        },
        KeyCode::Char(c) if c == '1' && on_priority => {
            f.priority = Priority::P1;
        },
        KeyCode::Char(c) if c == '2' && on_priority => {
            f.priority = Priority::P2;
        },
        KeyCode::Char(c) if c == '3' && on_priority => {
            f.priority = Priority::P3;
        },
        KeyCode::Backspace => {
            match f.field {
                FormField::Title => {
                    pop_char(&mut f.title);
                },
                FormField::Notes => {
                    pop_char(&mut f.notes);
                },
                FormField::Priority => {},
                FormField::DueDate => {
                    pop_char(&mut f.due_date);
                },
            }
        },
        KeyCode::Char(c) if is_plain_text_input(key) => {
            match f.field {
                FormField::Title => push_char(&mut f.title, c),
                FormField::Notes => push_char(&mut f.notes, c),
                FormField::Priority => {},
                FormField::DueDate => push_char(&mut f.due_date, c),
            }
        },
        _ => {},
    }
    f.error = None;
    f
}

impl App {
    /// A new application on the given store and catalog, the first shown task
    /// selected on `today`.
    pub fn new_at(
        store: TaskStore,
        data_file: String,
        config_path: String,
        i18n_dir: String,
        config: Config,
        i18n: I18n,
        today: Date,
    ) -> (r: App)
        ensures
            r@ == (AppView {
                store: store@,
                data_file: data_file@,
                config_path: config_path@,
                i18n_dir: i18n_dir@,
                config_locale: config.i18n.locale@,
                locale: i18n.locale_spec(),
                entries: i18n.entries(),
                filter: Filter::All,
                query: Seq::empty(),
                mode: ModeView::List,
                selected: None,
                quit: false,
                message: None,
                pending: PendingView::Nothing,
            }).synced(today),
            wf_view(r@),
    {
        let mut app = App {
            store,
            data_file,
            config_path,
            i18n_dir,
            config,
            i18n,
            filter: Filter::All,
            search_query: String::new(),
            mode: AppMode::List,
            selected_task_id: None,
            should_quit: false,
            message: None,
            pending: Pending::Nothing,
        };
        app.sync_selection_at(today);
        app
    }

    /// A new application on the given store and catalog, the first shown task
    /// selected.
    pub fn new(
        store: TaskStore,
        data_file: String,
        config_path: String,
        i18n_dir: String,
        config: Config,
        i18n: I18n,
    ) -> (r: App)
        ensures
            exists|today: Date|
                #![trigger r@.visible_ids(today)]
                r@ == (AppView {
                    store: store@,
                    data_file: data_file@,
                    config_path: config_path@,
                    i18n_dir: i18n_dir@,
                    config_locale: config.i18n.locale@,
                    locale: i18n.locale_spec(),
                    entries: i18n.entries(),
                    filter: Filter::All,
                    query: Seq::empty(),
                    mode: ModeView::List,
                    selected: None,
                    quit: false,
                    message: None,
                    pending: PendingView::Nothing,
                }).synced(today),
            wf_view(r@),
    {
        let today = today_local();
        let r = Self::new_at(store, data_file, config_path, i18n_dir, config, i18n, today);
        assert(r@.visible_ids(today) == r@.visible_ids(today));
        r
    }

    /// An application on an empty store with the built-in English catalog,
    /// every task shown, no search and no message.
    pub fn test_app() -> (r: App)
        ensures
            r@.store.tasks.len() == 0,
            r@.store.next_id == 1,
            r@.selected is None,
            r@.mode is List,
            r@.locale == "en_US"@,
            r@.entries == base_entries("en_US"@),
            r@.config_locale == "en_US"@,
            r@.filter == Filter::All,
            r@.query == Seq::<char>::empty(),
            r@.message is None,
            r@.pending is Nothing,
            r@.data_file == "test.json"@,
            r@.config_path == "config.json"@,
            r@.i18n_dir == "i18n"@,
            !r@.quit,
            wf_view(r@),
    {
        let data_file = owned("test.json");
        let config_path = owned("config.json");
        let i18n_dir = owned("i18n");
        let config = Config::default();
        let i18n = I18n::builtin(config.i18n.locale.as_str());
        proof {
            reveal_strlit("en_US");
        }
        Self::new_at(TaskStore::new(), data_file, config_path, i18n_dir, config, i18n, Date { days_from_ce: 0 })
    }

    /// The tasks.
    pub fn store(&self) -> (r: &TaskStore)
        ensures
            r@ == self@.store,
    {
        &self.store
    }

    /// The configuration in memory.
    pub fn config(&self) -> (r: &Config)
        ensures
            r.i18n.locale@ == self@.config_locale,
    {
        &self.config
    }

    /// The data file.
    pub fn data_file(&self) -> (r: &str)
        ensures
            r@ == self@.data_file,
    {
        self.data_file.as_str()
    }

    /// The configuration file.
    pub fn config_path(&self) -> (r: &str)
        ensures
            r@ == self@.config_path,
    {
        self.config_path.as_str()
    }

    /// The directory of custom locale packs.
    pub fn i18n_dir(&self) -> (r: &str)
        ensures
            r@ == self@.i18n_dir,
    {
        self.i18n_dir.as_str()
    }

    /// The filter in use.
    pub fn filter(&self) -> (r: Filter)
        ensures
            r == self@.filter,
    {
        self.filter
    }

    /// The search text in use.
    pub fn search_query(&self) -> (r: &str)
        ensures
            r@ == self@.query,
    {
        self.search_query.as_str()
    }

    /// What the screen shows.
    pub fn mode(&self) -> (r: &AppMode)
        ensures
            r@ == self@.mode,
    {
        &self.mode
    }

    /// The locale of the catalog in use.
    pub fn locale(&self) -> (r: &str)
        ensures
            r@ == self@.locale,
    {
        self.i18n.locale()
    }

    /// The text for a key in the catalog in use.
    pub fn t(&self, key: &str) -> (r: String)
        ensures
            r@ == lookup(self@.catalog(), key@),
    {
        self.i18n.t(key)
    }

    /// The text for a key with placeholders filled.
    pub fn t_fmt(&self, key: &str, params: &[(&str, String)]) -> (r: String)
        ensures
            r@ == fill_params(lookup(self@.catalog(), key@), crate::i18n::params_view(params@)),
    {
        self.i18n.t_fmt(key, params)
    }

    /// The text of an error in the catalog in use.
    pub fn tr_error(&self, error: &AppError) -> (r: String)
        ensures
            r@ == error_message(self@.catalog(), error@),
    {
        translate_error(&self.i18n, error)
    }

    /// The status message.
    pub fn message(&self) -> (r: Option<&str>)
        ensures
            r is Some <==> self@.message is Some,
            r matches Some(m) ==> m@ == self@.message->0,
    {
        match &self.message {
            Some(m) => Some(m.as_str()),
            None => None,
        }
    }

    /// Clears the status message.
    pub fn clear_message(&mut self)
        ensures
            final(self)@ == (AppView { message: None, ..old(self)@ }),
    {
        self.message = None;
    }

    /// Sets the status message.
    pub fn set_message(&mut self, message: String)
        ensures
            final(self)@ == (AppView { message: Some(message@), ..old(self)@ }),
    {
        self.message = Some(message);
    }

    /// Whether the application should end.
    pub fn should_quit(&self) -> (r: bool)
        ensures
            r == self@.quit,
    {
        self.should_quit
    }

    /// The number of tasks.
    pub fn total_count(&self) -> (r: usize)
        ensures
            r == self@.store.tasks.len(),
    {
        self.store.tasks.len()
    }

    /// The number of active tasks.
    pub fn active_count(&self) -> (r: usize)
        ensures
            r == self@.store.tasks.filter(|t: TaskView| t.status == TaskStatus::Active).len(),
    {
        let ghost p = |t: TaskView| t.status == TaskStatus::Active;
        let mut n: usize = 0;
        let mut i: usize = 0;
        while i < self.store.tasks.len()
            invariant
                i <= self.store.tasks@.len(),
                p == (|t: TaskView| t.status == TaskStatus::Active),
                n == self@.store.tasks.take(i as int).filter(p).len(),
                n <= i,
            decreases self.store.tasks.len() - i,
        {
            proof {
                let s = self@.store.tasks;
                assert(s.take(i + 1) =~= s.take(i as int).push(s[i as int]));
                s.take(i as int).lemma_filter_push(s[i as int], p);
            }
            if self.store.tasks[i].status == TaskStatus::Active {
                n = n + 1;
            }
            i = i + 1;
        }
        proof {
            assert(self@.store.tasks.take(i as int) =~= self@.store.tasks);
        }
        n
    }

    /// The number of finished tasks.
    pub fn done_count(&self) -> (r: usize)
        ensures
            r == self@.store.tasks.filter(|t: TaskView| t.status == TaskStatus::Done).len(),
    {
        let ghost p = |t: TaskView| t.status == TaskStatus::Done;
        let mut n: usize = 0;
        let mut i: usize = 0;
        while i < self.store.tasks.len()
            invariant
                i <= self.store.tasks@.len(),
                p == (|t: TaskView| t.status == TaskStatus::Done),
                n == self@.store.tasks.take(i as int).filter(p).len(),
                n <= i,
            decreases self.store.tasks.len() - i,
        {
            proof {
                let s = self@.store.tasks;
                assert(s.take(i + 1) =~= s.take(i as int).push(s[i as int]));
                s.take(i as int).lemma_filter_push(s[i as int], p);
            }
            if self.store.tasks[i].status == TaskStatus::Done {
                n = n + 1;
            }
            i = i + 1;
        }
        proof {
            assert(self@.store.tasks.take(i as int) =~= self@.store.tasks);
        }
        n
    }

    /// The number of tasks due on `today`.
    pub fn due_today_count_at(&self, today: Date) -> (r: usize)
        ensures
            r == count_due_today(self@.store.tasks, today),
    {
        let ghost p = |t: TaskView| is_due_today_spec(t, today);
        let mut n: usize = 0;
        let mut i: usize = 0;
        while i < self.store.tasks.len()
            invariant
                i <= self.store.tasks@.len(),
                p == (|t: TaskView| is_due_today_spec(t, today)),
                n == self@.store.tasks.take(i as int).filter(p).len(),
                n <= i,
            decreases self.store.tasks.len() - i,
        {
            proof {
                let s = self@.store.tasks;
                assert(s.take(i + 1) =~= s.take(i as int).push(s[i as int]));
                s.take(i as int).lemma_filter_push(s[i as int], p);
            }
            if self.store.tasks[i].is_due_today(today) {
                n = n + 1;
            }
            i = i + 1;
        }
        proof {
            assert(self@.store.tasks.take(i as int) =~= self@.store.tasks);
        }
        n
    }

    /// The number of tasks due today by the machine's clock.
    pub fn due_today_count(&self) -> (r: usize)
        ensures
            exists|today: Date| r == #[trigger] count_due_today(self@.store.tasks, today),
    {
        let today = today_local();
        let r = self.due_today_count_at(today);
        assert(r == count_due_today(self@.store.tasks, today));
        r
    }

    /// The number of overdue tasks on `today`.
    pub fn overdue_count_at(&self, today: Date) -> (r: usize)
        ensures
            r == count_overdue(self@.store.tasks, today),
    {
        let ghost p = |t: TaskView| is_overdue_spec(t, today);
        let mut n: usize = 0;
        let mut i: usize = 0;
        while i < self.store.tasks.len()
            invariant
                i <= self.store.tasks@.len(),
                p == (|t: TaskView| is_overdue_spec(t, today)),
                n == self@.store.tasks.take(i as int).filter(p).len(),
                n <= i,
            decreases self.store.tasks.len() - i,
        {
            proof {
                let s = self@.store.tasks;
                assert(s.take(i + 1) =~= s.take(i as int).push(s[i as int]));
                s.take(i as int).lemma_filter_push(s[i as int], p);
            }
            if self.store.tasks[i].is_overdue(today) {
                n = n + 1;
            }
            i = i + 1;
        }
        proof {
            assert(self@.store.tasks.take(i as int) =~= self@.store.tasks);
        }
        n
    }

    /// The number of overdue tasks by the machine's clock.
    pub fn overdue_count(&self) -> (r: usize)
        ensures
            exists|today: Date| r == #[trigger] count_overdue(self@.store.tasks, today),
    {
        let today = today_local();
        let r = self.overdue_count_at(today);
        assert(r == count_overdue(self@.store.tasks, today));
        r
    }

    /// The tasks the list shows on `today`, in list order.
    pub fn visible_tasks_at(&self, today: Date) -> (r: Vec<&Task>)
        ensures
            deref_tasks(r@) == visible_list(self@.store.tasks, self@.filter, self@.query, today),
    {
        self.store.visible_tasks(self.filter, self.search_query.as_str(), today)
    }

    /// The tasks the list shows today by the machine's clock, in list order.
    pub fn visible_tasks(&self) -> (r: Vec<&Task>)
        ensures
            exists|today: Date|
                deref_tasks(r@) == #[trigger] visible_list(
                    self@.store.tasks,
                    self@.filter,
                    self@.query,
                    today,
                ),
    {
        let today = today_local();
        let r = self.visible_tasks_at(today);
        assert(visible_list(self@.store.tasks, self@.filter, self@.query, today) == visible_list(
            self@.store.tasks,
            self@.filter,
            self@.query,
            today,
        ));
        r
    }

    /// The ids of the shown tasks on `today`, in list order.
    fn visible_task_ids_at(&self, today: Date) -> (r: Vec<u64>)
        ensures
            r@ == self@.visible_ids(today),
    {
        let tasks = self.visible_tasks_at(today);
        let mut ids: Vec<u64> = Vec::new();
        let mut i: usize = 0;
        while i < tasks.len()
            invariant
                i <= tasks@.len(),
                ids@ == ids_of(deref_tasks(tasks@)).take(i as int),
            decreases tasks.len() - i,
        {
            ids.push(tasks[i].id);
            i = i + 1;
            proof {
                assert(ids@ =~= ids_of(deref_tasks(tasks@)).take(i as int));
            }
        }
        proof {
            assert(ids_of(deref_tasks(tasks@)).take(i as int) =~= ids_of(deref_tasks(tasks@)));
        }
        ids
    }

    /// The position of the selected task in the list on `today`.
    pub fn selected_visible_index_at(&self, today: Date) -> (r: Option<usize>)
        ensures
            match self@.selected {
                Some(s) => if self@.visible_ids(today).contains(s) {
                    r == Some(first_pos(self@.visible_ids(today), s) as usize)
                } else {
                    r is None
                },
                None => r is None,
            },
    {
        let selected = match self.selected_task_id {
            Some(s) => s,
            None => {
                return None;
            },
        };
        let ids = self.visible_task_ids_at(today);
        position_of(&ids, selected)
    }

    /// The position of the selected task in the list today by the machine's
    /// clock.
    pub fn selected_visible_index(&self) -> (r: Option<usize>)
        ensures
            exists|today: Date|
                #![trigger self@.visible_ids(today)]
                match self@.selected {
                    Some(s) => if self@.visible_ids(today).contains(s) {
                        r == Some(first_pos(self@.visible_ids(today), s) as usize)
                    } else {
                        r is None
                    },
                    None => r is None,
                },
    {
        let today = today_local();
        let r = self.selected_visible_index_at(today);
        assert(self@.visible_ids(today) == self@.visible_ids(today));
        r
    }

    /// The selected task, if the selection names one.
    pub fn selected_task(&self) -> (r: Option<&Task>)
        ensures
            match self@.selected_task() {
                Some(t) => r matches Some(x) && x@ == t,
                None => r is None,
            },
    {
        match self.selected_task_id {
            Some(id) => self.store.get_task(id),
            None => None,
        }
    }

    /// Keeps the selection in view on `today`.
    pub fn sync_selection_at(&mut self, today: Date)
        ensures
            final(self)@ == old(self)@.synced(today),
    {
        let ids = self.visible_task_ids_at(today);
        if ids.len() == 0 {
            self.selected_task_id = None;
            return ;
        }
        if let Some(s) = self.selected_task_id {
            if position_of(&ids, s).is_some() {
                return ;
            }
        }
        self.selected_task_id = Some(ids[0]);
    }

    /// Moves the selection to the next shown task on `today`, wrapping round.
    pub fn select_next_at(&mut self, today: Date)
        ensures
            final(self)@ == (AppView {
                selected: next_selection(old(self)@.visible_ids(today), old(self)@.selected),
                ..old(self)@
            }),
    {
        let ids = self.visible_task_ids_at(today);
        if ids.len() == 0 {
            self.selected_task_id = None;
            return ;
        }
        let pos = match self.selected_task_id {
            Some(s) => position_of(&ids, s),
            None => None,
        };
        let next = match pos {
            Some(i) => (i + 1) % ids.len(),
            None => 0,
        };
        self.selected_task_id = Some(ids[next]);
    }

    /// Moves the selection to the next shown task, wrapping round.
    pub fn select_next(&mut self)
        ensures
            exists|today: Date|
                #![trigger old(self)@.visible_ids(today)]
                final(self)@ == (AppView {
                    selected: next_selection(old(self)@.visible_ids(today), old(self)@.selected),
                    ..old(self)@
                }),
    {
        let today = today_local();
        let ghost before = self@;
        self.select_next_at(today);
        assert(before.visible_ids(today) == before.visible_ids(today));
    }

    /// Moves the selection to the previous shown task on `today`, wrapping
    /// round.
    pub fn select_previous_at(&mut self, today: Date)
        ensures
            final(self)@ == (AppView {
                selected: previous_selection(old(self)@.visible_ids(today), old(self)@.selected),
                ..old(self)@
            }),
    {
        let ids = self.visible_task_ids_at(today);
        if ids.len() == 0 {
            self.selected_task_id = None;
            return ;
        }
        let pos = match self.selected_task_id {
            Some(s) => position_of(&ids, s),
            None => None,
        };
        let prev = match pos {
            Some(i) => if i == 0 {
                ids.len() - 1
            } else {
                i - 1
            },
            None => ids.len() - 1,
        };
        self.selected_task_id = Some(ids[prev]);
    }

    /// Moves the selection to the previous shown task, wrapping round.
    pub fn select_previous(&mut self)
        ensures
            exists|today: Date|
                #![trigger old(self)@.visible_ids(today)]
                final(self)@ == (AppView {
                    selected: previous_selection(old(self)@.visible_ids(today), old(self)@.selected),
                    ..old(self)@
                }),
    {
        let today = today_local();
        let ghost before = self@;
        self.select_previous_at(today);
        assert(before.visible_ids(today) == before.visible_ids(today));
    }

    /// The options and selection of the language picker, when it is open.
    pub fn locale_picker_options(&self) -> (r: Option<(&[LocaleOption], usize)>)
        ensures
            match self@.mode {
                ModeView::LocalePicker(sel, opts) => r matches Some(p) && options_view(p.0@)
                    == opts && p.1 == sel,
                _ => r is None,
            },
    {
        match &self.mode {
            AppMode::LocalePicker { selected, options } => Some((options.as_slice(), *selected)),
            _ => None,
        }
    }

    /// The due label of a task on `today`: overdue, today, upcoming or none.
    pub fn format_due_label(&self, task: &Task, today: Date) -> (r: String)
        ensures
            r@ == due_label_spec(self@.catalog(), task@.due_date, today),
    {
        match task.due_date {
            Some(date) => {
                let params = [("date", iso_date_text(date))];
                proof {
                    assert(crate::i18n::params_view(params@) =~= seq![
                        ("date"@, iso_date(date.days_from_ce as int)),
                    ]);
                }
                if date.is_before(&today) {
                    self.t_fmt("due.overdue", &params)
                } else if date.days_from_ce == today.days_from_ce {
                    self.t_fmt("due.today", &params)
                } else {
                    self.t_fmt("due.upcoming", &params)
                }
            },
            None => self.t("due.none"),
        }
    }
}

/// The number of tasks due on `today`.
pub open spec fn count_due_today(s: Seq<TaskView>, today: Date) -> nat {
    s.filter(|t: TaskView| is_due_today_spec(t, today)).len()
}

/// The number of tasks overdue on `today`.
pub open spec fn count_overdue(s: Seq<TaskView>, today: Date) -> nat {
    s.filter(|t: TaskView| is_overdue_spec(t, today)).len()
}

/// The due label of a due date on `today`.
pub open spec fn due_label_spec(cat: Map<Seq<char>, Seq<char>>, due: Option<Date>, today: Date) -> Seq<char> {
    match due {
        Some(d) => {
            let key = if d.days_from_ce < today.days_from_ce {
                "due.overdue"@
            } else if d.days_from_ce == today.days_from_ce {
                "due.today"@
            } else {
                "due.upcoming"@
            };
            fill_params(lookup(cat, key), seq![("date"@, iso_date(d.days_from_ce as int))])
        },
        None => lookup(cat, "due.none"@),
    }
}

/// Whether the key is the character `c` with no modifier.
fn is_plain(key: KeyEvent, c: char) -> (r: bool)
    ensures
        r == is_plain_char(key, c),
{
    key.code == KeyCode::Char(c) && key.modifiers.is_empty()
}

impl App {
    fn set_selected_priority_at(&mut self, priority: Priority, now: Timestamp) -> (r: Command)
        ensures
            (final(self)@, r@) == old(self)@.set_selected_priority(priority, now),
    {
        match self.selected_task_id {
            Some(id) => {
                if self.store.set_priority(id, priority, now) {
                    self.pending = Pending::SyncSelection;
                    Command::SaveStore
                } else {
                    Command::Idle
                }
            },
            None => Command::Idle,
        }
    }

    fn shift_selected_priority_at(&mut self, up: bool, now: Timestamp) -> (r: Command)
        ensures
            (final(self)@, r@) == old(self)@.shift_selected_priority(up, now),
    {
        let p = match self.selected_task() {
            Some(t) => if up {
                t.priority.next()
            } else {
                t.priority.previous()
            },
            None => {
                return Command::Idle;
            },
        };
        self.set_selected_priority_at(p, now)
    }

    fn handle_list_key(&mut self, key: KeyEvent, now: Timestamp, today: Date) -> (r: Command)
        requires
            old(self)@.mode is List,
        ensures
            (final(self)@, r@) == old(self)@.list_key(key, now, today),
    {
        if key.code == KeyCode::Up || is_plain(key, 'k') {
            self.select_previous_at(today);
            Command::Idle
        } else if key.code == KeyCode::Down || is_plain(key, 'j') {
            self.select_next_at(today);
            Command::Idle
        } else if is_plain(key, 'n') {
            self.mode = AppMode::CreateEditModal(TaskForm::new());
            self.message = None;
            Command::Idle
        } else if is_plain(key, 'e') {
            let form = match self.selected_task() {
                Some(t) => TaskForm::from_task(t),
                None => {
                    return Command::Idle;
                },
            };
            self.mode = AppMode::CreateEditModal(form);
            self.message = None;
            Command::Idle
        } else if is_plain(key, 'd') {
            if self.selected_task().is_some() {
                self.mode = AppMode::DeleteConfirm;
            }
            Command::Idle
        } else if is_plain(key, 'f') {
            self.filter = self.filter.next();
            self.sync_selection_at(today);
            Command::Idle
        } else if is_plain(key, '/') {
            self.mode = AppMode::Search { draft: self.search_query.clone() };
            Command::Idle
        } else if is_plain(key, '?') {
            self.mode = AppMode::Help;
            Command::Idle
        } else if is_plain(key, 'g') {
            self.pending = Pending::OpenLocalePicker;
            Command::ListLocales
        } else if key.code == KeyCode::Esc || is_plain(key, 'q') {
            self.should_quit = true;
            Command::Idle
        } else if is_plain(key, ' ') {
            match self.selected_task_id {
                Some(id) => {
                    self.store.toggle_task(id, now);
                    self.pending = Pending::SyncSelection;
                    Command::SaveStore
                },
                None => Command::Idle,
            }
        } else if key.code == KeyCode::Left || is_plain(key, 'h') {
            self.shift_selected_priority_at(false, now)
        } else if key.code == KeyCode::Right || is_plain(key, 'l') {
            self.shift_selected_priority_at(true, now)
        } else if is_plain(key, '1') {
            self.set_selected_priority_at(Priority::P1, now)
        } else if is_plain(key, '2') {
            self.set_selected_priority_at(Priority::P2, now)
        } else if is_plain(key, '3') {
            self.set_selected_priority_at(Priority::P3, now)
        } else {
            Command::Idle
        }
    }

    fn submit_form(&mut self, form: TaskForm, now: Timestamp) -> (r: Command)
        requires
            (form@.task_id is None && (draft_of(form@) matches Some(d) && !is_blank_spec(
                d.title,
            ))) ==> old(self)@.store.next_id < u64::MAX,
        ensures
            (final(self)@, r@) == (AppView { mode: ModeView::Form(form@), ..old(self)@ }).submit(
                form@,
                now,
            ),
    {
        let mut form = form;
        let draft = match form.into_draft() {
            Ok(d) => d,
            Err(e) => {
                form.error = Some(self.tr_error(&e));
                self.mode = AppMode::CreateEditModal(form);
                return Command::Idle;
            },
        };
        let result = match form.task_id {
            Some(id) => match self.store.update_task(id, draft, now) {
                Ok(()) => Ok(id),
                Err(e) => Err(e),
            },
            None => self.store.add_task(draft, now),
        };
        match result {
            Ok(id) => {
                self.pending = Pending::FinishSubmit(id);
                self.mode = AppMode::CreateEditModal(form);
                Command::SaveStore
            },
            Err(e) => {
                form.error = Some(self.tr_error(&e));
                self.mode = AppMode::CreateEditModal(form);
                Command::Idle
            },
        }
    }

    fn handle_form_key(&mut self, form: TaskForm, key: KeyEvent, now: Timestamp) -> (r: Command)
        requires
            (AppView { mode: ModeView::Form(form@), ..old(self)@ }).key_adds_task(key)
                ==> old(self)@.store.next_id < u64::MAX,
            key.kind != KeyEventKind::Release,
        ensures
            (final(self)@, r@) == (AppView { mode: ModeView::Form(form@), ..old(self)@ }).form_key(
                form@,
                key,
                now,
            ),
    {
        if key.code == KeyCode::Esc {
            self.mode = AppMode::List;
            Command::Idle
        } else if key.code == KeyCode::Enter {
            let mut f = form;
            f.error = None;
            self.mode = AppMode::CreateEditModal(f.duplicate());
            self.submit_form(f, now)
        } else {
            self.mode = AppMode::CreateEditModal(edit_form(form, key));
            Command::Idle
        }
    }

    fn handle_delete_confirm_key(&mut self, key: KeyEvent) -> (r: Command)
        ensures
            (final(self)@, r@) == old(self)@.delete_key(key),
    {
        if key.code == KeyCode::Esc || is_plain(key, 'n') {
            self.mode = AppMode::List;
            Command::Idle
        } else if is_plain(key, 'y') || key.code == KeyCode::Enter {
            match self.selected_task_id {
                Some(id) => {
                    self.store.delete_task(id);
                    self.pending = Pending::FinishDelete;
                    Command::SaveStore
                },
                None => {
                    self.mode = AppMode::List;
                    Command::Idle
                },
            }
        } else {
            Command::Idle
        }
    }

    fn handle_search_key(&mut self, draft: String, key: KeyEvent, today: Date) -> (r: Command)
        ensures
            (final(self)@, r@) == (AppView { mode: ModeView::Search(draft@), ..old(self)@ }).search_key(
                draft@,
                key,
                today,
            ),
    {
        let mut draft = draft;
        if key.code == KeyCode::Esc {
            self.mode = AppMode::List;
            Command::Idle
        } else if key.code == KeyCode::Enter {
            self.search_query = trim(draft.as_str());
            self.sync_selection_at(today);
            self.mode = AppMode::List;
            Command::Idle
        } else if key.code == KeyCode::Backspace {
            pop_char(&mut draft);
            self.mode = AppMode::Search { draft };
            Command::Idle
        } else if is_plain_text_input(key) {
            match key.code {
                KeyCode::Char(c) => push_char(&mut draft, c),
                _ => {},
            }
            self.mode = AppMode::Search { draft };
            Command::Idle
        } else {
            self.mode = AppMode::Search { draft };
            Command::Idle
        }
    }

    fn handle_help_key(&mut self, key: KeyEvent) -> (r: Command)
        ensures
            (final(self)@, r@) == old(self)@.help_key(key),
    {
        if key.code == KeyCode::Esc || key.code == KeyCode::Enter || key.code == KeyCode::Char('?') {
            self.mode = AppMode::List;
        }
        Command::Idle
    }

    fn handle_locale_picker_key(&mut self, selected: usize, options: Vec<LocaleOption>, key: KeyEvent) -> (r: Command)
        requires
            selected < options@.len(),
        ensures
            (final(self)@, r@) == (AppView {
                mode: ModeView::LocalePicker(selected, options_view(options@)),
                ..old(self)@
            }).picker_key(selected, options_view(options@), key),
    {
        if key.code == KeyCode::Esc {
            self.mode = AppMode::List;
            Command::Idle
        } else if key.code == KeyCode::Up || is_plain(key, 'k') {
            let s = if selected == 0 {
                options.len() - 1
            } else {
                selected - 1
            };
            self.mode = AppMode::LocalePicker { selected: s, options };
            Command::Idle
        } else if key.code == KeyCode::Down || is_plain(key, 'j') {
            let n = options.len();
            let s = (selected + 1) % n;
            self.mode = AppMode::LocalePicker { selected: s, options };
            Command::Idle
        } else if key.code == KeyCode::Enter {
            let locale = options[selected].locale.clone();
            let path = custom_locale_path(self.i18n_dir.as_str(), locale.as_str());
            self.pending = Pending::LoadLocale(locale);
            self.mode = AppMode::LocalePicker { selected, options };
            Command::ReadLocalePack { path }
        } else {
            self.mode = AppMode::LocalePicker { selected, options };
            Command::Idle
        }
    }

    /// Handles one key at `now` on `today`: changes the state as `on_key`
    /// says and returns the file work to perform.
    pub fn handle_key_at(&mut self, key: KeyEvent, now: Timestamp, today: Date) -> (r: Command)
        requires
            wf_view(old(self)@),
            old(self)@.key_adds_task(key) ==> old(self)@.store.next_id < u64::MAX,
        ensures
            (final(self)@, r@) == old(self)@.on_key(key, now, today),
            wf_view(final(self)@),
    {
        if key.kind == KeyEventKind::Release {
            return Command::Idle;
        }
        self.pending = Pending::Nothing;
        let mut mode = AppMode::List;
        std::mem::swap(&mut mode, &mut self.mode);
        match mode {
            AppMode::List => self.handle_list_key(key, now, today),
            AppMode::CreateEditModal(form) => self.handle_form_key(form, key, now),
            AppMode::DeleteConfirm => {
                self.mode = AppMode::DeleteConfirm;
                self.handle_delete_confirm_key(key)
            },
            AppMode::Search { draft } => self.handle_search_key(draft, key, today),
            AppMode::Help => {
                self.mode = AppMode::Help;
                self.handle_help_key(key)
            },
            AppMode::LocalePicker { selected, options } => self.handle_locale_picker_key(selected, options, key),
        }
    }

    /// Handles one key at the current time: changes the state as `on_key`
    /// says and returns the file work to perform.
    pub fn handle_key_event(&mut self, key: KeyEvent) -> (r: Command)
        requires
            wf_view(old(self)@),
            old(self)@.key_adds_task(key) ==> old(self)@.store.next_id < u64::MAX,
        ensures
            exists|now: Timestamp, today: Date|
                (final(self)@, r@) == #[trigger] old(self)@.on_key(key, now, today),
            wf_view(final(self)@),
    {
        let now = now_utc();
        let today = today_local();
        let r = self.handle_key_at(key, now, today);
        assert((self@, r@) == old(self)@.on_key(key, now, today));
        r
    }

    /// Completes a store write on `today`, given its outcome.
    pub fn finish_save_at(&mut self, result: AppResult<()>, today: Date) -> (r: AppResult<()>)
        requires
            wf_view(old(self)@),
        ensures
            (final(self)@, outcome_view(r)) == old(self)@.after_save(outcome_view(result), today),
            wf_view(final(self)@),
    {
        let mut pending = Pending::Nothing;
        std::mem::swap(&mut pending, &mut self.pending);
        match pending {
            Pending::SyncSelection => match result {
                Ok(()) => {
                    self.sync_selection_at(today);
                    Ok(())
                },
                Err(e) => Err(e),
            },
            Pending::FinishDelete => match result {
                Ok(()) => {
                    self.sync_selection_at(today);
                    self.mode = AppMode::List;
                    Ok(())
                },
                Err(e) => Err(e),
            },
            Pending::FinishSubmit(id) => {
                match result {
                    Ok(()) => {
                        self.selected_task_id = Some(id);
                        self.sync_selection_at(today);
                        self.mode = AppMode::List;
                    },
                    Err(e) => {
                        let msg = self.tr_error(&e);
                        let mut mode = AppMode::List;
                        std::mem::swap(&mut mode, &mut self.mode);
                        match mode {
                            AppMode::CreateEditModal(form) => {
                                let mut f = form;
                                f.error = Some(msg);
                                self.mode = AppMode::CreateEditModal(f);
                            },
                            other => {
                                self.mode = other;
                            },
                        }
                    },
                }
                Ok(())
            },
            other => {
                self.pending = other;
                Ok(())
            },
        }
    }

    /// Completes a store write at the current date, given its outcome.
    pub fn finish_save(&mut self, result: AppResult<()>) -> (r: AppResult<()>)
        requires
            wf_view(old(self)@),
        ensures
            exists|today: Date|
                (final(self)@, outcome_view(r)) == #[trigger] old(self)@.after_save(
                    outcome_view(result),
                    today,
                ),
            wf_view(final(self)@),
    {
        let today = today_local();
        let ghost before = self@;
        let ghost outcome = outcome_view(result);
        let r = self.finish_save_at(result, today);
        assert((self@, outcome_view(r)) == before.after_save(outcome, today));
        r
    }

    /// Completes opening the language picker, given the stems of the `.json`
    /// files in the catalog directory (or the error listing it).
    pub fn finish_locale_listing(&mut self, result: AppResult<Vec<String>>) -> (r: AppResult<()>)
        requires
            wf_view(old(self)@),
        ensures
            wf_view(final(self)@),
            old(self)@.pending is OpenLocalePicker ==> match result {
                Ok(stems) => r is Ok && (final(self)@.mode matches ModeView::LocalePicker(sel, opts)
                    && is_locale_option_list(opts, texts(stems@), old(self)@.locale) && sel
                    == current_index(opts)) && final(self)@ == (AppView {
                    mode: final(self)@.mode,
                    pending: PendingView::Nothing,
                    ..old(self)@
                }),
                Err(e) => (r matches Err(e2) && e2@ == e@) && final(self)@ == (AppView {
                    pending: PendingView::Nothing,
                    ..old(self)@
                }),
            },
            !(old(self)@.pending is OpenLocalePicker) ==> r is Ok && final(self)@ == old(self)@,
    {
        let open = match self.pending {
            Pending::OpenLocalePicker => true,
            _ => false,
        };
        if !open {
            return Ok(());
        }
        self.pending = Pending::Nothing;
        let stems = match result {
            Ok(s) => s,
            Err(e) => {
                return Err(e);
            },
        };
        let options = available_locales(stems, self.i18n.locale());
        let mut selected: usize = 0;
        let mut found = false;
        let mut i: usize = 0;
        let ghost ov = options_view(options@);
        while i < options.len()
            invariant
                i <= options@.len(),
                ov == options_view(options@),
                ov.len() >= 2,
                found ==> selected < i && ov[selected as int].is_current && forall|j: int|
                    0 <= j < selected ==> !(#[trigger] ov[j]).is_current,
                !found ==> selected == 0 && forall|j: int| 0 <= j < i ==> !(#[trigger] ov[j]).is_current,
            decreases options.len() - i,
        {
            if !found && options[i].is_current {
                selected = i;
                found = true;
            }
            i = i + 1;
        }
        proof {
            if found {
                let k = choose|k: int|
                    0 <= k < ov.len() && ov[k].is_current && forall|j: int|
                        0 <= j < k ==> !ov[j].is_current;
                assert(ov[selected as int].is_current);
                if k < selected {
                    assert(!ov[k].is_current);
                }
                if k > selected {
                    assert(!ov[selected as int].is_current);
                }
            } else {
                assert(!exists|j: int| 0 <= j < ov.len() && ov[j].is_current);
            }
        }
        self.mode = AppMode::LocalePicker { selected, options };
        Ok(())
    }

    /// Completes reading a custom locale pack: its bytes when the file exists
    /// (or the error reading it). On success the configuration takes the new
    /// locale and must be written.
    pub fn finish_locale_load(&mut self, read: AppResult<Option<Vec<u8>>>) -> (r: Command)
        requires
            wf_view(old(self)@),
        ensures
            wf_view(final(self)@),
            old(self)@.pending matches PendingView::LoadLocale(loc) ==> match read {
                Err(e) => r@ == CommandView::Idle && final(self)@ == (AppView {
                    pending: PendingView::Nothing,
                    message: Some(error_message(old(self)@.catalog(), e@)),
                    ..old(self)@
                }),
                Ok(c) => match crate::i18n::load_spec(
                    loc,
                    old(self)@.i18n_dir,
                    match c {
                        Some(b) => Some(b@),
                        None => None,
                    },
                ) {
                    Err(e) => r@ == CommandView::Idle && final(self)@ == (AppView {
                        pending: PendingView::Nothing,
                        message: Some(error_message(old(self)@.catalog(), e)),
                        ..old(self)@
                    }),
                    Ok((l, es)) => r@ == CommandView::SaveConfig && final(self)@ == (AppView {
                        pending: PendingView::ApplyLocale(l, es),
                        config_locale: loc,
                        ..old(self)@
                    }),
                },
            },
            !(old(self)@.pending is LoadLocale) ==> r@ == CommandView::Idle && final(self)@ == old(
                self,
            )@,
    {
        let mut pending = Pending::Nothing;
        std::mem::swap(&mut pending, &mut self.pending);
        let locale = match pending {
            Pending::LoadLocale(l) => l,
            other => {
                self.pending = other;
                return Command::Idle;
            },
        };
        let custom = match read {
            Ok(c) => c,
            Err(e) => {
                self.message = Some(self.tr_error(&e));
                return Command::Idle;
            },
        };
        let bytes: Option<&[u8]> = match &custom {
            Some(b) => Some(b.as_slice()),
            None => None,
        };
        match I18n::load(locale.as_str(), self.i18n_dir.as_str(), bytes) {
            Ok(i) => {
                self.config.i18n.locale = locale;
                self.pending = Pending::ApplyLocale(i);
                Command::SaveConfig
            },
            Err(e) => {
                self.message = Some(self.tr_error(&e));
                Command::Idle
            },
        }
    }

    /// Completes writing the configuration: on success the new catalog is used
    /// and the picker closes; a failure becomes the status message.
    pub fn finish_config_save(&mut self, result: AppResult<()>)
        requires
            wf_view(old(self)@),
        ensures
            wf_view(final(self)@),
            old(self)@.pending matches PendingView::ApplyLocale(l, es) ==> match result {
                Ok(_) => final(self)@ == (AppView {
                    pending: PendingView::Nothing,
                    locale: l,
                    entries: es,
                    mode: ModeView::List,
                    ..old(self)@
                }),
                Err(e) => final(self)@ == (AppView {
                    pending: PendingView::Nothing,
                    message: Some(error_message(old(self)@.catalog(), e@)),
                    ..old(self)@
                }),
            },
            !(old(self)@.pending is ApplyLocale) ==> final(self)@ == old(self)@,
    {
        let mut pending = Pending::Nothing;
        std::mem::swap(&mut pending, &mut self.pending);
        match pending {
            Pending::ApplyLocale(i) => match result {
                Ok(()) => {
                    self.i18n = i;
                    self.mode = AppMode::List;
                },
                Err(e) => {
                    self.message = Some(self.tr_error(&e));
                },
            },
            other => {
                self.pending = other;
            },
        }
    }
}

/// The first position of `x` in `ids`.
fn position_of(ids: &Vec<u64>, x: u64) -> (r: Option<usize>)
    ensures
        ids@.contains(x) ==> r == Some(first_pos(ids@, x) as usize),
        !ids@.contains(x) ==> r is None,
        r matches Some(i) ==> is_first_pos(ids@, x, i as int) && first_pos(ids@, x) == i,
{
    let mut i: usize = 0;
    while i < ids.len()
        invariant
            i <= ids@.len(),
            forall|j: int| 0 <= j < i ==> ids@[j] != x,
        decreases ids.len() - i,
    {
        if ids[i] == x {
            proof {
                lemma_first_pos(ids@, x, i as int);
            }
            return Some(i);
        }
        i = i + 1;
    }
    None
}

// ---------------------------------------------------------------------------
// Laws
// ---------------------------------------------------------------------------

/// A value that occurs in `ids` has a first position there.
proof fn lemma_first_pos_exists(ids: Seq<u64>, x: u64)
    requires
        ids.contains(x),
    ensures
        is_first_pos(ids, x, first_pos(ids, x)),
{
    let w = choose|w: int| 0 <= w < ids.len() && ids[w] == x;
    lemma_first_pos_from(ids, x, w);
}

proof fn lemma_first_pos_from(ids: Seq<u64>, x: u64, w: int)
    requires
        0 <= w < ids.len(),
        ids[w] == x,
    ensures
        is_first_pos(ids, x, first_pos(ids, x)),
    decreases w,
{
    if exists|j: int| 0 <= j < w && ids[j] == x {
        let j = choose|j: int| 0 <= j < w && ids[j] == x;
        lemma_first_pos_from(ids, x, j);
    } else {
        assert(is_first_pos(ids, x, w));
        lemma_first_pos(ids, x, w);
    }
}

/// Law: the selection always names a task the list shows, and is empty
/// only when the list is. Keeping it in view leaves a shown selection as it
/// is; moving down or up lands on a shown task.
pub proof fn law_selection_in_view(ids: Seq<u64>, sel: Option<u64>)
    ensures
        synced_selection(ids, sel) is None <==> ids.len() == 0,
        next_selection(ids, sel) is None <==> ids.len() == 0,
        previous_selection(ids, sel) is None <==> ids.len() == 0,
        synced_selection(ids, sel) matches Some(x) ==> ids.contains(x),
        next_selection(ids, sel) matches Some(x) ==> ids.contains(x),
        previous_selection(ids, sel) matches Some(x) ==> ids.contains(x),
        sel matches Some(s) && ids.contains(s) ==> synced_selection(ids, sel) == sel,
{
    if ids.len() > 0 {
        assert(ids.contains(ids[0]));
        assert(ids.contains(ids[ids.len() - 1]));
        if sel is Some && ids.contains(sel->0) {
            let s = sel->0;
            lemma_first_pos_exists(ids, s);
            let p = first_pos(ids, s);
            let q = (p + 1) % (ids.len() as int);
            assert(0 <= q < ids.len());
            assert(ids.contains(ids[q]));
            if p > 0 {
                assert(ids.contains(ids[p - 1]));
            }
        }
    }
}

/// Whether no id occurs twice.
pub open spec fn distinct_ids(ids: Seq<u64>) -> bool {
    forall|i: int, j: int| 0 <= i < j < ids.len() ==> ids[i] != ids[j]
}

/// Law: in a list whose ids are distinct, moving up after moving down, or
/// down after up, returns to the task that was selected.
pub proof fn law_down_then_up(ids: Seq<u64>, s: u64)
    requires
        distinct_ids(ids),
        ids.contains(s),
    ensures
        previous_selection(ids, next_selection(ids, Some(s))) == Some(s),
        next_selection(ids, previous_selection(ids, Some(s))) == Some(s),
{
    let n = ids.len() as int;
    lemma_first_pos_exists(ids, s);
    let p = first_pos(ids, s);
    assert forall|k: int| 0 <= k < n implies #[trigger] first_pos(ids, ids[k]) == k by {
        assert(is_first_pos(ids, ids[k], k));
        lemma_first_pos(ids, ids[k], k);
    }
    // Down, then up.
    if p + 1 < n {
        assert((p + 1) % n == p + 1) by {
            vstd::arithmetic::div_mod::lemma_small_mod((p + 1) as nat, n as nat);
        }
        let d = ids[p + 1];
        assert(ids.contains(d));
        assert(first_pos(ids, d) == p + 1);
    } else {
        assert((p + 1) % n == 0) by {
            vstd::arithmetic::div_mod::lemma_mod_self_0(n);
        }
        let d = ids[0];
        assert(ids.contains(d));
        assert(first_pos(ids, d) == 0);
        assert(ids.last() == ids[p]);
    }
    // Up, then down.
    if p > 0 {
        let u = ids[p - 1];
        assert(ids.contains(u));
        assert(first_pos(ids, u) == p - 1);
        assert(p % n == p) by {
            vstd::arithmetic::div_mod::lemma_small_mod(p as nat, n as nat);
        }
    } else {
        let u = ids[n - 1];
        assert(ids.contains(u));
        assert(first_pos(ids, u) == n - 1);
        assert(n % n == 0) by {
            vstd::arithmetic::div_mod::lemma_mod_self_0(n);
        }
    }
}

/// Law: a key release changes nothing and asks for no file work.
pub proof fn law_release_ignored(a: AppView, key: KeyEvent, now: Timestamp, today: Date)
    requires
        key.kind == KeyEventKind::Release,
    ensures
        a.on_key(key, now, today) == (a, CommandView::Idle),
{
}

/// Law: moving through the form's fields forward and back returns to the
/// field; four steps forward go through every field and back.
pub proof fn law_form_field_cycle(f: FormField)
    ensures
        f.next_spec().previous_spec() == f,
        f.previous_spec().next_spec() == f,
        f.next_spec().next_spec().next_spec().next_spec() == f,
        f.next_spec() != f,
{
}

/// Law: every key keeps the store's ids below its next id and distinct, so
/// a task added later never takes an id a task already has.
pub proof fn law_keys_keep_store_ids(a: AppView, key: KeyEvent, now: Timestamp, today: Date)
    requires
        ids_below_next(a.store),
        ids_unique(a.store),
        a.key_adds_task(key) ==> a.store.next_id < u64::MAX,
    ensures
        ids_below_next(a.on_key(key, now, today).0.store),
        ids_unique(a.on_key(key, now, today).0.store),
{
    let st = a.store;
    match a.selected {
        Some(id) => {
            let d = DraftView { title: Seq::empty(), notes: Seq::empty(), priority: Priority::P2, due_date: None };
            law_edits_keep_ids(st, id, d, Priority::P1, now);
            law_edits_keep_ids(st, id, d, Priority::P2, now);
            law_edits_keep_ids(st, id, d, Priority::P3, now);
            law_delete_task(st, id);
        },
        None => {},
    }
    if let ModeView::Form(f) = a.mode {
        if let Some(d) = draft_of(f) {
            match f.task_id {
                Some(id) => {
                    law_edits_keep_ids(st, id, d, Priority::P1, now);
                },
                None => {
                    if key.kind != KeyEventKind::Release && key.code == KeyCode::Enter
                        && !is_blank_spec(d.title) {
                        law_add_task(st, d, now);
                    }
                },
            }
        }
    }
}

/// Law: a form submission that is refused (a due date that does not read,
/// a task that is gone, a blank title) leaves the store as it was, asks for
/// no file work, and keeps the form open with the error's text; Esc leaves
/// the form without touching the store.
pub proof fn law_refused_submit_changes_nothing(
    a: AppView,
    f: FormView,
    key: KeyEvent,
    now: Timestamp,
    today: Date,
)
    requires
        a.mode == ModeView::Form(f),
        key.kind != KeyEventKind::Release,
    ensures
        key.code == KeyCode::Enter && (draft_of(f) is None || (f.task_id matches Some(id)
            && !has_id(a.store.tasks, id)) || is_blank_spec(f.title)) ==> {
            let (b, c) = a.on_key(key, now, today);
            &&& b.store == a.store
            &&& c == CommandView::Idle
            &&& b.mode matches ModeView::Form(g) && g.error is Some && g.title == f.title
                && g.notes == f.notes && g.due_date == f.due_date && g.priority == f.priority
        },
        key.code == KeyCode::Esc ==> a.on_key(key, now, today).0.store == a.store
            && a.on_key(key, now, today).0.mode == ModeView::List && a.on_key(key, now, today).1
            == CommandView::Idle,
{
}

/// Law: on the list, with the store's ids distinct and a shown task
/// selected, moving down and then up (or up and then down) selects that task
/// again and leaves everything else as it was.
pub proof fn law_list_down_then_up(
    a: AppView,
    down: KeyEvent,
    up: KeyEvent,
    now: Timestamp,
    today: Date,
)
    requires
        a.mode == ModeView::List,
        a.pending == PendingView::Nothing,
        ids_unique(a.store),
        a.selected matches Some(s) && a.visible_ids(today).contains(s),
        down.code == KeyCode::Down && down.kind != KeyEventKind::Release,
        up.code == KeyCode::Up && up.kind != KeyEventKind::Release,
    ensures
        a.on_key(down, now, today).0.on_key(up, now, today) == (a, CommandView::Idle),
        a.on_key(up, now, today).0.on_key(down, now, today) == (a, CommandView::Idle),
{
    let v = visible_list(a.store.tasks, a.filter, a.query, today);
    crate::model::lemma_visible_ids_distinct(a.store.tasks, a.filter, a.query, today);
    let ids = a.visible_ids(today);
    assert(ids == ids_of(v));
    assert forall|i: int, j: int| 0 <= i < j < ids.len() implies ids[i] != ids[j] by {
        assert(ids[i] == v[i].id && ids[j] == v[j].id);
    }
    law_down_then_up(ids, a.selected->0);
    let b = a.on_key(down, now, today).0;
    assert(b == AppView { selected: next_selection(ids, a.selected), ..a });
    assert(b.visible_ids(today) == ids);
    let c = a.on_key(up, now, today).0;
    assert(c == AppView { selected: previous_selection(ids, a.selected), ..a });
    assert(c.visible_ids(today) == ids);
}

/// Law: in the delete prompt with a task selected, Enter confirms just as
/// `y` does: no task with the selected id is left, every other task stays,
/// and the store is to be written.
pub proof fn law_delete_prompt_enter_confirms(
    a: AppView,
    id: u64,
    key: KeyEvent,
    yes: KeyEvent,
    now: Timestamp,
    today: Date,
)
    requires
        a.mode == ModeView::DeleteConfirm,
        a.selected == Some(id),
        key.code == KeyCode::Enter,
        key.kind != KeyEventKind::Release,
        yes.code == KeyCode::Char('y'),
        yes.modifiers.bits == 0,
        yes.kind != KeyEventKind::Release,
    ensures
        ({
            let (b, c) = a.on_key(key, now, today);
            &&& c == CommandView::SaveStore
            &&& !has_id(b.store.tasks, id)
            &&& forall|t: TaskView|
                a.store.tasks.contains(t) && t.id != id ==> #[trigger] b.store.tasks.contains(t)
            &&& forall|t: TaskView| #[trigger] b.store.tasks.contains(t) ==> a.store.tasks.contains(t)
            &&& b.store.next_id == a.store.next_id
            &&& a.on_key(yes, now, today) == (b, c)
        }),
{
    broadcast use vstd::seq_lib::group_filter_ensures;

    law_delete_task(a.store, id);
    let keep = |t: TaskView| t.id != id;
    let w = a.store.without(id);
    assert forall|t: TaskView| a.store.tasks.contains(t) && t.id != id implies #[trigger] w.tasks.contains(t) by {
        let k = choose|k: int| 0 <= k < a.store.tasks.len() && a.store.tasks[k] == t;
        a.store.tasks.lemma_filter_contains(keep, k);
    }
    assert forall|t: TaskView| #[trigger] w.tasks.contains(t) implies a.store.tasks.contains(t) by {
        a.store.tasks.lemma_filter_contains_rev(keep, t);
    }
}

/// Law: on the list, the plain keys `1`, `2` and `3` give the selected task
/// priority P1, P2 and P3 and ask for the store to be written; the task
/// stays selected and its id, texts and status stay.
pub proof fn law_digit_sets_priority(a: AppView, id: u64, key: KeyEvent, now: Timestamp, today: Date)
    requires
        a.mode == ModeView::List,
        a.selected == Some(id),
        has_id(a.store.tasks, id),
        key.kind != KeyEventKind::Release,
        key.modifiers.bits == 0,
        key.code == KeyCode::Char('1') || key.code == KeyCode::Char('2') || key.code
            == KeyCode::Char('3'),
    ensures
        ({
            let (b, c) = a.on_key(key, now, today);
            let want = if key.code == KeyCode::Char('1') {
                Priority::P1
            } else if key.code == KeyCode::Char('2') {
                Priority::P2
            } else {
                Priority::P3
            };
            &&& c == CommandView::SaveStore
            &&& b.selected == Some(id)
            &&& b.selected_task() matches Some(t) && t.priority == want && t.id == id
                && t.title == a.selected_task()->0.title && t.notes == a.selected_task()->0.notes
                && t.status == a.selected_task()->0.status && t.updated_at == now
        }),
{
    let w = choose|w: int| 0 <= w < a.store.tasks.len() && a.store.tasks[w].id == id;
    crate::model::lemma_first_exists(a.store.tasks, id, w);
    let i = first_index(a.store.tasks, id);
    assert(crate::model::is_first_index(a.store.tasks, id, i));
    let b = a.on_key(key, now, today).0;
    assert(crate::model::is_first_index(b.store.tasks, id, i));
    lemma_first_index(b.store.tasks, id, i);
}

} // verus!
