use chrono::Datelike;
use todox::app::{App, AppMode, Command, FormField, KeyCode, KeyEvent, KeyEventKind, KeyModifiers};
use todox::clock::{Date, Timestamp};
use todox::error::{AppError, IoKind};
use todox::i18n::I18n;
use todox::model::{Filter, Priority, TaskDraft, TaskStatus, TaskStore};
use todox::storage::Config;

fn fixed_time(input: &str) -> Timestamp {
    let t = chrono::DateTime::parse_from_rfc3339(input).unwrap();
    Timestamp { secs: t.timestamp(), nanos: t.timestamp_subsec_nanos() }
}

fn day(y: i32, m: u32, d: u32) -> Date {
    Date { days_from_ce: chrono::NaiveDate::from_ymd_opt(y, m, d).unwrap().num_days_from_ce() }
}

fn draft(title: &str, priority: Priority) -> TaskDraft {
    TaskDraft { title: title.into(), notes: String::new(), priority, due_date: None }
}

fn make_app(store: TaskStore, path: &str) -> App {
    let config_path = "/tmp/todox-test/config.json".to_string();
    let i18n_dir = "/tmp/todox-test/i18n".to_string();
    let config = Config::default();
    let i18n = I18n::load(&config.i18n.locale, &i18n_dir, None).unwrap();
    App::new(store, path.to_string(), config_path, i18n_dir, config, i18n)
}

/// Performs the file work a key asks for as if it succeeded, with an empty
/// catalog directory.
fn press(app: &mut App, code: KeyCode) -> Command {
    let command = app.handle_key_event(KeyEvent::from(code));
    match &command {
        Command::SaveStore => {
            app.finish_save(Ok(())).unwrap();
        }
        Command::ListLocales => {
            app.finish_locale_listing(Ok(Vec::new())).unwrap();
        }
        _ => {}
    }
    command
}

fn form_of(app: &App) -> &todox::app::TaskForm {
    match app.mode() {
        AppMode::CreateEditModal(form) => form,
        _ => panic!("expected edit modal"),
    }
}

/// The JSON file is written by the program around the library when it
/// performs `SaveStore`; here the step asks for that write and the store
/// it would write holds the new priority.
#[test]
fn editing_priority_updates_store_and_json_file() {
    let mut store = TaskStore::new();
    store
        .add_task(draft("准备写一个 rust 程序", Priority::P2), fixed_time("2026-03-08T10:00:00Z"))
        .unwrap();

    let mut app = make_app(store, "/tmp/todox-test/tasks.json");
    press(&mut app, KeyCode::Char('e'));
    assert!(matches!(app.mode(), AppMode::CreateEditModal(_)));

    press(&mut app, KeyCode::Tab);
    assert_eq!(form_of(&app).field, FormField::Priority);

    press(&mut app, KeyCode::Char('1'));
    let command = press(&mut app, KeyCode::Enter);
    assert_eq!(command, Command::SaveStore);

    assert_eq!(app.selected_task().unwrap().priority, Priority::P1);
    assert_eq!(app.store().get_task(1).unwrap().priority, Priority::P1);
}

#[test]
fn right_arrow_only_cycles_priority_when_priority_field_is_focused() {
    let mut store = TaskStore::new();
    store.add_task(draft("任务 A", Priority::P2), fixed_time("2026-03-08T10:00:00Z")).unwrap();

    let mut app = make_app(store, "/tmp/todox-test/tasks.json");
    press(&mut app, KeyCode::Char('e'));
    press(&mut app, KeyCode::Right);
    assert_eq!(form_of(&app).field, FormField::Title);
    assert_eq!(form_of(&app).priority, Priority::P2);

    press(&mut app, KeyCode::Tab);
    press(&mut app, KeyCode::Right);
    assert_eq!(form_of(&app).field, FormField::Priority);
    assert_eq!(form_of(&app).priority, Priority::P3);
}

/// As above: the step asks for the store to be written, and the store to
/// write holds the new priority.
#[test]
fn list_view_numeric_shortcuts_update_priority_and_persist() {
    let mut store = TaskStore::new();
    store.add_task(draft("任务 B", Priority::P3), fixed_time("2026-03-08T10:00:00Z")).unwrap();

    let mut app = make_app(store, "/tmp/todox-test/tasks.json");
    let command = press(&mut app, KeyCode::Char('1'));
    assert_eq!(command, Command::SaveStore);

    assert_eq!(app.selected_task().unwrap().priority, Priority::P1);
    assert_eq!(app.store().get_task(1).unwrap().priority, Priority::P1);
}

#[test]
fn up_and_down_move_between_form_fields() {
    let mut store = TaskStore::new();
    store.add_task(draft("任务 C", Priority::P2), fixed_time("2026-03-08T10:00:00Z")).unwrap();

    let mut app = make_app(store, "/tmp/todox-test/tasks.json");
    press(&mut app, KeyCode::Char('e'));
    press(&mut app, KeyCode::Down);
    assert_eq!(form_of(&app).field, FormField::Priority);

    press(&mut app, KeyCode::Down);
    assert_eq!(form_of(&app).field, FormField::Notes);

    press(&mut app, KeyCode::Up);
    assert_eq!(form_of(&app).field, FormField::Priority);
}

#[test]
fn g_opens_locale_picker() {
    let mut app = App::test_app();
    let command = press(&mut app, KeyCode::Char('g'));
    assert_eq!(command, Command::ListLocales);
    assert!(matches!(app.mode(), AppMode::LocalePicker { .. }));
}

#[test]
fn esc_quits_from_list_view() {
    let mut app = App::test_app();
    assert!(!app.should_quit());
    press(&mut app, KeyCode::Esc);
    assert!(app.should_quit());
}

#[test]
fn q_quits_too() {
    let mut app = App::test_app();
    press(&mut app, KeyCode::Char('q'));
    assert!(app.should_quit());
}

#[test]
fn key_release_changes_nothing() {
    let mut app = App::test_app();
    let key = KeyEvent { code: KeyCode::Esc, modifiers: KeyModifiers::empty(), kind: KeyEventKind::Release };
    assert_eq!(app.handle_key_event(key), Command::Idle);
    assert!(!app.should_quit());
}

#[test]
fn new_task_form_adds_a_task_and_selects_it() {
    let mut app = App::test_app();
    press(&mut app, KeyCode::Char('n'));
    assert!(form_of(&app).task_id.is_none());
    assert_eq!(form_of(&app).priority, Priority::P2);
    for c in "Buy milk".chars() {
        press(&mut app, KeyCode::Char(c));
    }
    assert_eq!(form_of(&app).title, "Buy milk");
    press(&mut app, KeyCode::Backspace);
    assert_eq!(form_of(&app).title, "Buy mil");
    let command = press(&mut app, KeyCode::Enter);
    assert_eq!(command, Command::SaveStore);
    assert!(matches!(app.mode(), AppMode::List));
    assert_eq!(app.total_count(), 1);
    let task = app.selected_task().unwrap();
    assert_eq!(task.id, 1);
    assert_eq!(task.title, "Buy mil");
    assert_eq!(task.status, TaskStatus::Active);
}

#[test]
fn blank_title_shows_error_in_form() {
    let mut app = App::test_app();
    press(&mut app, KeyCode::Char('n'));
    press(&mut app, KeyCode::Char(' '));
    let command = press(&mut app, KeyCode::Enter);
    assert_eq!(command, Command::Idle);
    assert_eq!(form_of(&app).error.as_deref(), Some("Title cannot be empty"));
    assert_eq!(app.total_count(), 0);
}

#[test]
fn bad_due_date_shows_error_in_form() {
    let mut app = App::test_app();
    press(&mut app, KeyCode::Char('n'));
    press(&mut app, KeyCode::Char('x'));
    press(&mut app, KeyCode::Tab);
    press(&mut app, KeyCode::Tab);
    press(&mut app, KeyCode::Tab);
    assert_eq!(form_of(&app).field, FormField::DueDate);
    for c in "2026-13-01".chars() {
        press(&mut app, KeyCode::Char(c));
    }
    press(&mut app, KeyCode::Enter);
    assert_eq!(
        form_of(&app).error.as_deref(),
        Some("Invalid due date. Use YYYY-MM-DD")
    );
}

#[test]
fn esc_cancels_the_form() {
    let mut app = App::test_app();
    press(&mut app, KeyCode::Char('n'));
    press(&mut app, KeyCode::Char('a'));
    press(&mut app, KeyCode::Esc);
    assert!(matches!(app.mode(), AppMode::List));
    assert_eq!(app.total_count(), 0);
    assert!(!app.should_quit());
}

#[test]
fn space_toggles_done_and_back() {
    let mut store = TaskStore::new();
    store.add_task(draft("A", Priority::P2), fixed_time("2026-03-08T10:00:00Z")).unwrap();
    let mut app = make_app(store, "/tmp/todox-test/tasks.json");
    press(&mut app, KeyCode::Char(' '));
    assert_eq!(app.store().get_task(1).unwrap().status, TaskStatus::Done);
    assert!(app.store().get_task(1).unwrap().completed_at.is_some());
    assert_eq!(app.done_count(), 1);
    assert_eq!(app.active_count(), 0);
    press(&mut app, KeyCode::Char(' '));
    assert_eq!(app.store().get_task(1).unwrap().status, TaskStatus::Active);
    assert!(app.store().get_task(1).unwrap().completed_at.is_none());
}

#[test]
fn delete_asks_then_removes() {
    let mut store = TaskStore::new();
    store.add_task(draft("A", Priority::P2), fixed_time("2026-03-08T10:00:00Z")).unwrap();
    store.add_task(draft("B", Priority::P2), fixed_time("2026-03-08T11:00:00Z")).unwrap();
    let mut app = make_app(store, "/tmp/todox-test/tasks.json");
    let first = app.selected_task().unwrap().id;
    press(&mut app, KeyCode::Char('d'));
    assert!(matches!(app.mode(), AppMode::DeleteConfirm));
    press(&mut app, KeyCode::Char('n'));
    assert!(matches!(app.mode(), AppMode::List));
    assert_eq!(app.total_count(), 2);
    press(&mut app, KeyCode::Char('d'));
    let command = press(&mut app, KeyCode::Char('y'));
    assert_eq!(command, Command::SaveStore);
    assert!(matches!(app.mode(), AppMode::List));
    assert_eq!(app.total_count(), 1);
    assert!(app.store().get_task(first).is_none());
    assert!(app.selected_task().is_some());
}

#[test]
fn down_then_up_returns_to_the_selected_task() {
    let mut store = TaskStore::new();
    for title in ["A", "B", "C"] {
        store.add_task(draft(title, Priority::P2), fixed_time("2026-03-08T10:00:00Z")).unwrap();
    }
    let mut app = make_app(store, "/tmp/todox-test/tasks.json");
    let start = app.selected_task().unwrap().id;
    press(&mut app, KeyCode::Down);
    let moved = app.selected_task().unwrap().id;
    assert_ne!(moved, start);
    press(&mut app, KeyCode::Up);
    assert_eq!(app.selected_task().unwrap().id, start);
    press(&mut app, KeyCode::Char('k'));
    press(&mut app, KeyCode::Char('j'));
    assert_eq!(app.selected_task().unwrap().id, start);
}

#[test]
fn selection_wraps_round_the_list() {
    let mut store = TaskStore::new();
    for title in ["A", "B"] {
        store.add_task(draft(title, Priority::P2), fixed_time("2026-03-08T10:00:00Z")).unwrap();
    }
    let mut app = make_app(store, "/tmp/todox-test/tasks.json");
    let start = app.selected_task().unwrap().id;
    press(&mut app, KeyCode::Down);
    press(&mut app, KeyCode::Down);
    assert_eq!(app.selected_task().unwrap().id, start);
    press(&mut app, KeyCode::Up);
    assert_ne!(app.selected_task().unwrap().id, start);
}

#[test]
fn filter_key_cycles_filters() {
    let mut app = App::test_app();
    assert_eq!(app.filter(), Filter::All);
    press(&mut app, KeyCode::Char('f'));
    assert_eq!(app.filter(), Filter::Active);
    for _ in 0..4 {
        press(&mut app, KeyCode::Char('f'));
    }
    assert_eq!(app.filter(), Filter::All);
}

#[test]
fn search_box_sets_trimmed_query() {
    let mut app = App::test_app();
    press(&mut app, KeyCode::Char('/'));
    assert!(matches!(app.mode(), AppMode::Search { .. }));
    for c in " milk ".chars() {
        press(&mut app, KeyCode::Char(c));
    }
    press(&mut app, KeyCode::Enter);
    assert!(matches!(app.mode(), AppMode::List));
    assert_eq!(app.search_query(), "milk");
}

#[test]
fn help_opens_and_closes() {
    let mut app = App::test_app();
    press(&mut app, KeyCode::Char('?'));
    assert!(matches!(app.mode(), AppMode::Help));
    press(&mut app, KeyCode::Esc);
    assert!(matches!(app.mode(), AppMode::List));
    assert!(!app.should_quit());
}

#[test]
fn left_and_right_cycle_priority_in_list() {
    let mut store = TaskStore::new();
    store.add_task(draft("A", Priority::P2), fixed_time("2026-03-08T10:00:00Z")).unwrap();
    let mut app = make_app(store, "/tmp/todox-test/tasks.json");
    press(&mut app, KeyCode::Right);
    assert_eq!(app.selected_task().unwrap().priority, Priority::P3);
    press(&mut app, KeyCode::Right);
    assert_eq!(app.selected_task().unwrap().priority, Priority::P1);
    press(&mut app, KeyCode::Char('h'));
    assert_eq!(app.selected_task().unwrap().priority, Priority::P3);
}

#[test]
fn failed_save_is_reported() {
    let mut store = TaskStore::new();
    store.add_task(draft("A", Priority::P2), fixed_time("2026-03-08T10:00:00Z")).unwrap();
    let mut app = make_app(store, "/tmp/todox-test/tasks.json");
    let command = app.handle_key_event(KeyEvent::from(KeyCode::Char('1')));
    assert_eq!(command, Command::SaveStore);
    let result = app.finish_save(Err(AppError::Io(IoKind::Other, "disk full".to_string())));
    match result {
        Err(AppError::Io(k, d)) => {
            assert_eq!(k, IoKind::Other);
            assert_eq!(d, "disk full");
        }
        other => panic!("unexpected outcome {:?}", other),
    }
    assert_eq!(app.tr_error(&AppError::Io(IoKind::Other, "disk full".to_string())), "I/O error: disk full");
}

#[test]
fn locale_picker_loads_builtin_chinese() {
    let mut app = App::test_app();
    press(&mut app, KeyCode::Char('g'));
    press(&mut app, KeyCode::Down);
    match app.mode() {
        AppMode::LocalePicker { selected, options } => {
            assert_eq!(*selected, 1);
            assert_eq!(options[1].locale, "zh_CN");
        }
        _ => panic!("expected locale picker"),
    }
    let command = app.handle_key_event(KeyEvent::from(KeyCode::Enter));
    match command {
        Command::ReadLocalePack { path } => assert!(path.ends_with("zh_CN.json")),
        other => panic!("unexpected command {:?}", other),
    }
    let next = app.finish_locale_load(Ok(None));
    assert_eq!(next, Command::SaveConfig);
    app.finish_config_save(Ok(()));
    assert_eq!(app.locale(), "zh_CN");
    assert_eq!(app.config().i18n.locale, "zh_CN");
    assert!(matches!(app.mode(), AppMode::List));
    assert_eq!(app.t("form.field.title"), "标题");
}

#[test]
fn due_counts_follow_today() {
    let mut store = TaskStore::new();
    let mut a = draft("due today", Priority::P2);
    a.due_date = Some(day(2026, 3, 8));
    let mut b = draft("overdue", Priority::P2);
    b.due_date = Some(day(2026, 3, 1));
    let c = draft("no date", Priority::P2);
    store.add_task(a, fixed_time("2026-03-08T10:00:00Z")).unwrap();
    store.add_task(b, fixed_time("2026-03-08T10:00:00Z")).unwrap();
    store.add_task(c, fixed_time("2026-03-08T10:00:00Z")).unwrap();
    let app = make_app(store, "/tmp/todox-test/tasks.json");
    assert_eq!(app.due_today_count_at(day(2026, 3, 8)), 1);
    assert_eq!(app.overdue_count_at(day(2026, 3, 8)), 1);
    assert_eq!(app.overdue_count_at(day(2026, 3, 9)), 2);
    assert_eq!(app.total_count(), 3);
}
