use chrono::Datelike;
use todox::clock::{Date, Timestamp};
use todox::error::{AppError, IoKind};
use todox::model::{
    parse_due_date_input, task_precedes, Filter, Priority, TaskDraft, TaskStatus, TaskStore,
};

fn at(secs: i64) -> Timestamp {
    Timestamp { secs, nanos: 0 }
}

fn day(y: i32, m: u32, d: u32) -> Date {
    Date { days_from_ce: chrono::NaiveDate::from_ymd_opt(y, m, d).unwrap().num_days_from_ce() }
}

fn draft(title: &str, priority: Priority, due: Option<Date>) -> TaskDraft {
    TaskDraft { title: title.into(), notes: String::new(), priority, due_date: due }
}

#[test]
fn new_store_is_empty_and_starts_at_one() {
    let store = TaskStore::new();
    assert_eq!(store.next_id, 1);
    assert!(store.tasks.is_empty());
}

#[test]
fn add_assigns_increasing_ids_and_trims() {
    let mut store = TaskStore::new();
    let mut d = draft("  Write report  ", Priority::P1, None);
    d.notes = "  by friday ".into();
    assert_eq!(store.add_task(d, at(10)).unwrap(), 1);
    assert_eq!(store.add_task(draft("Second", Priority::P2, None), at(20)).unwrap(), 2);
    assert_eq!(store.next_id, 3);
    let t = store.get_task(1).unwrap();
    assert_eq!(t.title, "Write report");
    assert_eq!(t.notes, "by friday");
    assert_eq!(t.status, TaskStatus::Active);
    assert_eq!(t.created_at, at(10));
    assert_eq!(t.updated_at, at(10));
    assert!(t.completed_at.is_none());
}

#[test]
fn blank_title_is_refused() {
    let mut store = TaskStore::new();
    let r = store.add_task(draft(" \t ", Priority::P2, None), at(1));
    assert!(matches!(r, Err(AppError::EmptyTitle)));
    assert_eq!(store, TaskStore::new());
}

#[test]
fn update_of_missing_task_reports_not_found() {
    let mut store = TaskStore::new();
    let r = store.update_task(7, draft("x", Priority::P2, None), at(1));
    match r {
        Err(AppError::Io(kind, msg)) => {
            assert_eq!(kind, IoKind::NotFound);
            assert_eq!(msg, "task 7 not found");
        }
        other => panic!("unexpected {:?}", other),
    }
}

#[test]
fn update_rewrites_fields_and_keeps_status() {
    let mut store = TaskStore::new();
    store.add_task(draft("a", Priority::P2, None), at(1)).unwrap();
    store.toggle_task(1, at(2));
    store.update_task(1, draft(" b ", Priority::P3, Some(day(2026, 3, 8))), at(3)).unwrap();
    let t = store.get_task(1).unwrap();
    assert_eq!(t.title, "b");
    assert_eq!(t.priority, Priority::P3);
    assert_eq!(t.due_date, Some(day(2026, 3, 8)));
    assert_eq!(t.status, TaskStatus::Done);
    assert_eq!(t.created_at, at(1));
    assert_eq!(t.updated_at, at(3));
    let r = store.update_task(1, draft("", Priority::P3, None), at(4));
    assert!(matches!(r, Err(AppError::EmptyTitle)));
    assert_eq!(store.get_task(1).unwrap().title, "b");
}

#[test]
fn delete_removes_only_that_task() {
    let mut store = TaskStore::new();
    for t in ["a", "b", "c"] {
        store.add_task(draft(t, Priority::P2, None), at(1)).unwrap();
    }
    assert!(store.delete_task(2));
    assert!(!store.delete_task(2));
    let ids = store.tasks.iter().map(|t| t.id).collect::<Vec<_>>();
    assert_eq!(ids, vec![1, 3]);
    assert_eq!(store.next_id, 4);
}

#[test]
fn toggle_twice_restores_status() {
    let mut store = TaskStore::new();
    store.add_task(draft("a", Priority::P2, None), at(1)).unwrap();
    assert!(store.toggle_task(1, at(5)));
    assert_eq!(store.get_task(1).unwrap().status, TaskStatus::Done);
    assert_eq!(store.get_task(1).unwrap().completed_at, Some(at(5)));
    assert!(store.toggle_task(1, at(6)));
    let t = store.get_task(1).unwrap();
    assert_eq!(t.status, TaskStatus::Active);
    assert_eq!(t.completed_at, None);
    assert_eq!(t.updated_at, at(6));
    assert!(!store.toggle_task(9, at(7)));
}

#[test]
fn set_priority_changes_only_priority() {
    let mut store = TaskStore::new();
    store.add_task(draft("a", Priority::P2, None), at(1)).unwrap();
    assert!(store.set_priority(1, Priority::P1, at(2)));
    assert_eq!(store.get_task(1).unwrap().priority, Priority::P1);
    assert_eq!(store.get_task(1).unwrap().updated_at, at(2));
    assert!(!store.set_priority(2, Priority::P1, at(2)));
}

#[test]
fn list_order_puts_overdue_first_and_done_last() {
    let today = day(2026, 3, 8);
    let mut store = TaskStore::new();
    store.add_task(draft("later", Priority::P1, Some(day(2026, 3, 20))), at(1)).unwrap();
    store.add_task(draft("overdue", Priority::P3, Some(day(2026, 3, 1))), at(1)).unwrap();
    store.add_task(draft("nodate", Priority::P1, None), at(1)).unwrap();
    store.add_task(draft("today", Priority::P3, Some(today)), at(1)).unwrap();
    store.add_task(draft("finished", Priority::P1, Some(day(2026, 3, 1))), at(1)).unwrap();
    store.toggle_task(5, at(2));
    let titles = store
        .visible_tasks(Filter::All, "", today)
        .iter()
        .map(|t| t.title.clone())
        .collect::<Vec<_>>();
    assert_eq!(titles, vec!["overdue", "today", "later", "nodate", "finished"]);
    let a = store.get_task(2).unwrap();
    let b = store.get_task(1).unwrap();
    assert!(task_precedes(a, b, today));
    assert!(!task_precedes(b, a, today));
    assert!(!task_precedes(a, a, today));
}

#[test]
fn newer_updates_come_first_among_equals() {
    let today = day(2026, 3, 8);
    let mut store = TaskStore::new();
    store.add_task(draft("old", Priority::P2, None), at(1)).unwrap();
    store.add_task(draft("new", Priority::P2, None), at(2)).unwrap();
    let titles = store
        .visible_tasks(Filter::All, "", today)
        .iter()
        .map(|t| t.title.clone())
        .collect::<Vec<_>>();
    assert_eq!(titles, vec!["new", "old"]);
}

#[test]
fn search_ignores_case_and_looks_at_notes() {
    let today = day(2026, 3, 8);
    let mut store = TaskStore::new();
    store.add_task(draft("Buy MILK", Priority::P2, None), at(1)).unwrap();
    let mut d = draft("Call", Priority::P2, None);
    d.notes = "about the Milkman".into();
    store.add_task(d, at(1)).unwrap();
    store.add_task(draft("Other", Priority::P2, None), at(1)).unwrap();
    assert_eq!(store.visible_tasks(Filter::All, "milk", today).len(), 2);
    assert_eq!(store.visible_tasks(Filter::All, "  ", today).len(), 3);
    assert_eq!(store.visible_tasks(Filter::All, "zzz", today).len(), 0);
    assert!(store.get_task(1).unwrap().matches_query("Milk"));
    assert!(!store.get_task(3).unwrap().matches_query("milk"));
}

#[test]
fn filters_select_tasks() {
    let today = day(2026, 3, 8);
    let mut store = TaskStore::new();
    store.add_task(draft("a", Priority::P2, Some(today)), at(1)).unwrap();
    store.add_task(draft("b", Priority::P2, Some(day(2026, 3, 1))), at(1)).unwrap();
    store.add_task(draft("c", Priority::P2, None), at(1)).unwrap();
    store.toggle_task(3, at(2));
    assert_eq!(store.visible_tasks(Filter::Active, "", today).len(), 2);
    assert_eq!(store.visible_tasks(Filter::Done, "", today).len(), 1);
    assert_eq!(store.visible_tasks(Filter::DueToday, "", today).len(), 1);
    assert_eq!(store.visible_tasks(Filter::Overdue, "", today).len(), 1);
    assert_eq!(store.visible_tasks(Filter::All, "", today).len(), 3);
    assert!(store.get_task(1).unwrap().is_due_today(today));
    assert!(store.get_task(2).unwrap().is_overdue(today));
    assert!(!store.get_task(1).unwrap().is_overdue(today));
}

#[test]
fn due_date_input_parsing() {
    assert_eq!(parse_due_date_input("  ").unwrap(), None);
    assert_eq!(parse_due_date_input(" 2026-03-08 ").unwrap(), Some(day(2026, 3, 8)));
    assert!(matches!(parse_due_date_input("2026-02-30"), Err(AppError::InvalidDueDate)));
    assert!(matches!(parse_due_date_input("tomorrow"), Err(AppError::InvalidDueDate)));
}

#[test]
fn priorities_and_filters_cycle() {
    assert_eq!(Priority::P1.next(), Priority::P2);
    assert_eq!(Priority::P3.next(), Priority::P1);
    assert_eq!(Priority::P1.previous(), Priority::P3);
    assert_eq!(Priority::P2.code(), "P2");
    assert_eq!(Priority::P3.rank(), 2);
    assert_eq!(Priority::P1.translation_key(), "form.priority.p1.short");
    assert_eq!(TaskStatus::Done.translation_key(), "status.done");
    let mut f = Filter::All;
    for _ in 0..5 {
        f = f.next();
    }
    assert_eq!(f, Filter::All);
    assert_eq!(Filter::DueToday.translation_key(), "filter.due_today");
}

#[test]
fn not_found_message_writes_the_id_in_decimal() {
    let mut store = TaskStore::new();
    for (id, text) in [(0u64, "task 0 not found"), (1234, "task 1234 not found"), (u64::MAX, "task 18446744073709551615 not found")] {
        match store.update_task(id, draft("x", Priority::P2, None), at(1)) {
            Err(AppError::Io(IoKind::NotFound, msg)) => assert_eq!(msg, text),
            other => panic!("unexpected {:?}", other),
        }
    }
}
