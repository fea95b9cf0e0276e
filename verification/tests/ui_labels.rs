use chrono::Datelike;
use todox::app::App;
use todox::clock::{Date, Timestamp};
use todox::model::{Priority, Task, TaskStatus};
use todox::ui::{
    centered_rect, due_tone, focus_alert, footer_height, header_height, preview_text,
    priority_label, task_due_chip_label, task_due_label, truncate_text, AlertTone, DueTone, Rect,
};

fn day(y: i32, m: u32, d: u32) -> Date {
    Date { days_from_ce: chrono::NaiveDate::from_ymd_opt(y, m, d).unwrap().num_days_from_ce() }
}

fn task(status: TaskStatus, due: Option<Date>) -> Task {
    let t = Timestamp { secs: 0, nanos: 0 };
    Task {
        id: 1,
        title: "A".to_string(),
        notes: String::new(),
        priority: Priority::P2,
        due_date: due,
        status,
        created_at: t,
        updated_at: t,
        completed_at: None,
    }
}

#[test]
fn centered_rect_keeps_requested_size_when_terminal_is_large_enough() {
    let rect = centered_rect(60, 18, Rect::new(0, 0, 80, 24));
    assert_eq!(rect, Rect::new(10, 3, 60, 18));
}

#[test]
fn centered_rect_clamps_to_available_space_on_small_terminal() {
    let rect = centered_rect(60, 18, Rect::new(0, 0, 40, 10));
    assert_eq!(rect, Rect::new(1, 1, 38, 8));
}

#[test]
fn centered_rect_on_a_tiny_area() {
    let rect = centered_rect(60, 18, Rect::new(5, 7, 2, 1));
    assert_eq!(rect, Rect::new(5, 7, 1, 1));
}

#[test]
fn priority_labels_compact_gracefully_for_narrow_widths() {
    let app = App::test_app();
    assert_eq!(priority_label(&app, Priority::P1, false, false), "P1 Critical");
    assert_eq!(priority_label(&app, Priority::P2, true, false), "P2 Important");
    assert_eq!(priority_label(&app, Priority::P3, true, true), "P3");
}

#[test]
fn header_and_footer_heights() {
    let app = App::test_app();
    assert_eq!(header_height(120), 3);
    assert_eq!(footer_height(&app, 120), 6);
    assert_eq!(footer_height(&app, 80), 7);
}

#[test]
fn truncation_adds_an_ellipsis() {
    assert_eq!(truncate_text("abcdef", 3), "abc...");
    assert_eq!(truncate_text("abc", 3), "abc");
    assert_eq!(truncate_text("任务清单", 2), "任务...");
}

#[test]
fn preview_collapses_white_space() {
    assert_eq!(preview_text("  a \n\t b  ", 10, "(none)"), "a b");
    assert_eq!(preview_text(" \n ", 10, "(none)"), "(none)");
    assert_eq!(preview_text("one two three", 7, "-"), "one two...");
}

#[test]
fn due_labels_follow_today() {
    let app = App::test_app();
    let today = day(2026, 3, 8);
    let overdue = task(TaskStatus::Active, Some(day(2026, 3, 1)));
    let due_today = task(TaskStatus::Active, Some(today));
    let later = task(TaskStatus::Active, Some(day(2026, 3, 9)));
    let done = task(TaskStatus::Done, Some(day(2026, 3, 1)));
    let none = task(TaskStatus::Active, None);
    assert_eq!(task_due_label(&app, &overdue, today), "Overdue 2026-03-01");
    assert_eq!(task_due_label(&app, &due_today, today), "Today 2026-03-08");
    assert_eq!(task_due_label(&app, &later, today), "Due 2026-03-09");
    assert_eq!(task_due_label(&app, &done, today), "Due 2026-03-01");
    assert_eq!(task_due_label(&app, &none, today), "No due date");
    assert_eq!(task_due_chip_label(&app, &overdue, today), "Overdue");
    assert_eq!(task_due_chip_label(&app, &due_today, today), "Today");
    assert_eq!(task_due_chip_label(&app, &later, today), "03-09");
    assert_eq!(task_due_chip_label(&app, &done, today), "03-01");
    assert_eq!(task_due_chip_label(&app, &none, today), "No due");
    assert_eq!(app.format_due_label(&later, today), "Due 2026-03-09");
}

#[test]
fn tones_and_alerts() {
    let today = day(2026, 3, 8);
    let overdue = task(TaskStatus::Active, Some(day(2026, 3, 1)));
    let due_today = task(TaskStatus::Active, Some(today));
    let later = task(TaskStatus::Active, Some(day(2026, 3, 9)));
    let done = task(TaskStatus::Done, Some(day(2026, 3, 1)));
    let none = task(TaskStatus::Active, None);
    assert_eq!(due_tone(&overdue, today), DueTone::Overdue);
    assert_eq!(due_tone(&due_today, today), DueTone::Today);
    assert_eq!(due_tone(&later, today), DueTone::Upcoming);
    assert_eq!(due_tone(&done, today), DueTone::Done);
    assert_eq!(due_tone(&none, today), DueTone::NoDue);
    assert_eq!(focus_alert(&overdue, today), ("focus.alert.overdue", AlertTone::Danger));
    assert_eq!(focus_alert(&due_today, today), ("focus.alert.today", AlertTone::Warning));
    assert_eq!(focus_alert(&done, today), ("focus.alert.done", AlertTone::Success));
    assert_eq!(focus_alert(&none, today), ("focus.alert.active", AlertTone::Accent));
}

#[test]
fn centered_rect_near_the_edge_of_the_coordinate_range() {
    let rect = centered_rect(60, 18, Rect::new(65000, 0, 535, 24));
    assert_eq!(rect, Rect::new(65000 + (535 - 60) / 2, 3, 60, 18));
    let clipped = centered_rect(60, 18, Rect { x: 65500, y: 0, width: 30, height: 24 });
    assert_eq!(clipped, Rect::new(65500 + 1, 3, 28, 18));
}

#[test]
fn test_app_has_english_texts_and_no_state() {
    let app = App::test_app();
    assert_eq!(app.t("form.priority.p1.short"), "P1");
    assert_eq!(app.filter(), todox::model::Filter::All);
    assert_eq!(app.search_query(), "");
    assert!(app.message().is_none());
    assert_eq!(app.config().i18n.locale, "en_US");
}
