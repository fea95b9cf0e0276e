//! What the screen shows, apart from drawing it: labels, shortened texts,
//! the tone a task is shown in, and where a dialog sits.
use vstd::prelude::*;

use crate::app::{due_label_spec, App, AppView, ModeView};
use crate::clock::{iso_date, iso_date_text, month_day, month_day_text, Date};
use crate::i18n::{fill_params, lookup, params_view};
use crate::model::{is_due_today_spec, is_overdue_spec, Priority, Task, TaskStatus, TaskView};
use crate::text::{append_str, chars_of, is_white_space, is_white_space_spec, owned, push_char};

verus! {

/// A rectangle of terminal cells.
#[derive(Clone, Copy, Debug, PartialEq, Eq, Structural)]
pub struct Rect {
    pub x: u16,
    pub y: u16,
    pub width: u16,
    pub height: u16,
}

impl Rect {
    /// A rectangle, its size cut so that it ends within the `u16` range.
    pub fn new(x: u16, y: u16, width: u16, height: u16) -> (r: Rect)
        ensures
            r.x == x && r.y == y,
            r.width == if x + width > u16::MAX { u16::MAX - x } else { width as int },
            r.height == if y + height > u16::MAX { u16::MAX - y } else { height as int },
    {
        let w = if width > u16::MAX - x {
            u16::MAX - x
        } else {
            width
        };
        let h = if height > u16::MAX - y {
            u16::MAX - y
        } else {
            height
        };
        Rect { x, y, width: w, height: h }
    }
}

/// The tone in which a due date is shown.
#[derive(Clone, Copy, Debug, PartialEq, Eq, Structural)]
pub enum DueTone {
    Done,
    Overdue,
    Today,
    Upcoming,
    NoDue,
}

/// The tone of the focus badge.
#[derive(Clone, Copy, Debug, PartialEq, Eq, Structural)]
pub enum AlertTone {
    Success,
    Danger,
    Warning,
    Accent,
}

/// The height of the header.
pub fn header_height(_width: u16) -> (r: u16)
    ensures
        r == 3,
{
    3
}

/// The height of the footer: three rows of hints while a form is open, else
/// five below 110 columns and four from there, plus two for the border.
pub fn footer_height(app: &App, width: u16) -> (r: u16)
    ensures
        r == if app@.mode is Form {
            5u16
        } else if width < 110 {
            7u16
        } else {
            6u16
        },
{
    let content_rows: u16 = match app.mode() {
        crate::app::AppMode::CreateEditModal(_) => 3,
        _ => if width < 110 {
            5
        } else {
            4
        },
    };
    content_rows + 2
}

/// The extent (width or height) of a dialog asked to be `size` cells in an
/// area `area_size` cells: at most two cells less than the area, and at
/// least one.
pub open spec fn dialog_extent(size: u16, area_size: u16) -> int {
    let max = if area_size >= 3 { area_size - 2 } else { 1 };
    if size < max { size as int } else { max }
}

/// How far a dialog of extent `w` sits from the area's edge: half the room
/// left, none when there is none.
pub open spec fn dialog_offset(w: int, area_size: u16) -> int {
    (if area_size >= w { area_size - w } else { 0 }) / 2
}

/// A dialog of the given size centred in `area`, shrunk to leave a border of
/// one cell when the area is too small, as `Rect::new` builds it.
pub open spec fn centered_rect_spec(width: u16, height: u16, area: Rect) -> Rect {
    let w = dialog_extent(width, area.width);
    let h = dialog_extent(height, area.height);
    let x = area.x + dialog_offset(w, area.width);
    let y = area.y + dialog_offset(h, area.height);
    Rect {
        x: x as u16,
        y: y as u16,
        width: (if x + w > u16::MAX { u16::MAX - x } else { w }) as u16,
        height: (if y + h > u16::MAX { u16::MAX - y } else { h }) as u16,
    }
}

/// A dialog of the given size centred in `area`. The corner's coordinates
/// must fit in `u16`.
pub fn centered_rect(width: u16, height: u16, area: Rect) -> (r: Rect)
    requires
        area.x + dialog_offset(dialog_extent(width, area.width), area.width) <= u16::MAX,
        area.y + dialog_offset(dialog_extent(height, area.height), area.height) <= u16::MAX,
    ensures
        r == centered_rect_spec(width, height, area),
{
    let max_width = {
        let m = area.width.saturating_sub(2);
        if m < 1 {
            1
        } else {
            m
        }
    };
    let max_height = {
        let m = area.height.saturating_sub(2);
        if m < 1 {
            1
        } else {
            m
        }
    };
    let w = if width < max_width {
        width
    } else {
        max_width
    };
    let h = if height < max_height {
        height
    } else {
        max_height
    };
    let x = area.x + area.width.saturating_sub(w) / 2;
    let y = area.y + area.height.saturating_sub(h) / 2;
    Rect::new(x, y, w, h)
}

/// A text cut to `max` characters, with `...` after it when it was longer.
pub open spec fn truncate_spec(s: Seq<char>, max: nat) -> Seq<char> {
    if s.len() > max {
        s.take(max as int) + "..."@
    } else {
        s
    }
}

/// A text cut to `max_chars` characters, with `...` when it was longer.
pub fn truncate_text(input: &str, max_chars: usize) -> (r: String)
    ensures
        r@ == truncate_spec(input@, max_chars as nat),
{
    let cs = chars_of(input);
    let mut out = String::new();
    let mut i: usize = 0;
    while i < cs.len() && i < max_chars
        invariant
            i <= cs@.len(),
            i <= max_chars,
            cs@ == input@,
            out@ == input@.take(i as int),
        decreases cs.len() - i,
    {
        push_char(&mut out, cs[i]);
        i = i + 1;
        assert(out@ =~= input@.take(i as int));
    }
    if i < cs.len() {
        append_str(&mut out, "...");
    } else {
        assert(input@.take(i as int) =~= input@);
    }
    out
}

/// The words of a text: its maximal runs of non-white-space characters.
pub open spec fn words(s: Seq<char>) -> Seq<Seq<char>>
    decreases s.len(),
{
    if s.len() == 0 {
        Seq::empty()
    } else if is_white_space_spec(s.last()) {
        words(s.drop_last())
    } else if s.len() >= 2 && !is_white_space_spec(s[s.len() - 2]) {
        let w = words(s.drop_last());
        w.update(w.len() - 1, w.last().push(s.last()))
    } else {
        words(s.drop_last()).push(seq![s.last()])
    }
}

/// Words joined by single spaces.
pub open spec fn join_words(ws: Seq<Seq<char>>) -> Seq<char>
    decreases ws.len(),
{
    if ws.len() == 0 {
        Seq::empty()
    } else if ws.len() == 1 {
        ws[0]
    } else {
        join_words(ws.drop_last()) + seq![' '] + ws.last()
    }
}

/// A text with its runs of white space collapsed to single spaces and its
/// ends trimmed (`split_whitespace` joined by spaces).
pub open spec fn collapse_spec(s: Seq<char>) -> Seq<char> {
    join_words(words(s))
}

/// A short preview of a text: white space collapsed, cut to `max` characters
/// with `...`, or the empty label when nothing is left.
pub open spec fn preview_spec(s: Seq<char>, max: nat, empty_label: Seq<char>) -> Seq<char> {
    let c = collapse_spec(s);
    if c.len() == 0 {
        empty_label
    } else {
        truncate_spec(c, max)
    }
}

proof fn lemma_words_nonempty(s: Seq<char>)
    requires
        s.len() >= 1 && !is_white_space_spec(s.last()),
    ensures
        words(s).len() >= 1,
    decreases s.len(),
{
    if s.len() >= 2 && !is_white_space_spec(s[s.len() - 2]) {
        assert(s.drop_last().last() == s[s.len() - 2]);
        lemma_words_nonempty(s.drop_last());
    }
}

proof fn lemma_join_update_last(ws: Seq<Seq<char>>, c: char)
    requires
        ws.len() >= 1,
    ensures
        join_words(ws.update(ws.len() - 1, ws.last().push(c))) == join_words(ws).push(c),
{
    let u = ws.update(ws.len() - 1, ws.last().push(c));
    if ws.len() == 1 {
        assert(u[0] == ws[0].push(c));
    } else {
        assert(u.drop_last() =~= ws.drop_last());
        assert(u.last() == ws.last().push(c));
        assert(join_words(u) =~= join_words(ws).push(c));
    }
}

/// Collapses white space as `split_whitespace` followed by a join with spaces.
fn collapse_white_space(input: &str) -> (r: String)
    ensures
        r@ == collapse_spec(input@),
{
    let cs = chars_of(input);
    let mut out = String::new();
    let mut i: usize = 0;
    let mut prev_ws = true;
    assert(input@.take(0) =~= Seq::<char>::empty());
    while i < cs.len()
        invariant
            i <= cs@.len(),
            cs@ == input@,
            out@ == collapse_spec(input@.take(i as int)),
            prev_ws == (i == 0 || is_white_space_spec(cs@[i - 1])),
            out@.len() == 0 <==> words(input@.take(i as int)).len() == 0,
        decreases cs.len() - i,
    {
        let c = cs[i];
        let ghost pre = input@.take(i as int);
        let ghost post = input@.take(i + 1);
        proof {
            assert(post.drop_last() =~= pre);
            assert(post.last() == c);
            if i >= 1 {
                assert(post[post.len() - 2] == cs@[i - 1]);
            }
        }
        if is_white_space(c) {
            prev_ws = true;
        } else {
            if prev_ws {
                if out.as_str().unicode_len() > 0 {
                    push_char(&mut out, ' ');
                }
                push_char(&mut out, c);
                proof {
                    let w = words(pre);
                    assert(words(post) == w.push(seq![c]));
                    if w.len() == 0 {
                        assert(join_words(w.push(seq![c])) =~= seq![c]);
                    } else {
                        assert(w.push(seq![c]).drop_last() =~= w);
                        assert(out@ =~= join_words(w.push(seq![c])));
                    }
                }
            } else {
                push_char(&mut out, c);
                proof {
                    lemma_words_nonempty(pre);
                    lemma_join_update_last(words(pre), c);
                }
            }
            prev_ws = false;
        }
        i = i + 1;
    }
    assert(input@.take(i as int) =~= input@);
    out
}

/// A short preview of a text: white space collapsed, cut to `max_chars`
/// characters with `...`, or the empty label when nothing is left.
pub fn preview_text(input: &str, max_chars: usize, empty_label: &str) -> (r: String)
    ensures
        r@ == preview_spec(input@, max_chars as nat, empty_label@),
{
    let compact = collapse_white_space(input);
    if compact.as_str().unicode_len() == 0 {
        return owned(empty_label);
    }
    truncate_text(compact.as_str(), max_chars)
}

/// The catalog key of a priority's label at a width: short, medium or long.
pub open spec fn priority_label_key(priority: Priority, compact: bool, ultra_compact: bool) -> Seq<char> {
    if ultra_compact {
        priority.translation_key_spec()
    } else if compact {
        match priority {
            Priority::P1 => "form.priority.p1.medium"@,
            Priority::P2 => "form.priority.p2.medium"@,
            Priority::P3 => "form.priority.p3.medium"@,
        }
    } else {
        match priority {
            Priority::P1 => "form.priority.p1.long"@,
            Priority::P2 => "form.priority.p2.long"@,
            Priority::P3 => "form.priority.p3.long"@,
        }
    }
}

/// The label of a priority, shorter on narrow screens.
pub fn priority_label(app: &App, priority: Priority, compact: bool, ultra_compact: bool) -> (r: String)
    ensures
        r@ == lookup(app@.catalog(), priority_label_key(priority, compact, ultra_compact)),
{
    let key = if ultra_compact {
        priority.translation_key()
    } else if compact {
        match priority {
            Priority::P1 => "form.priority.p1.medium",
            Priority::P2 => "form.priority.p2.medium",
            Priority::P3 => "form.priority.p3.medium",
        }
    } else {
        match priority {
            Priority::P1 => "form.priority.p1.long",
            Priority::P2 => "form.priority.p2.long",
            Priority::P3 => "form.priority.p3.long",
        }
    };
    app.t(key)
}

/// The due label of a task: a finished task shows its date as upcoming.
pub open spec fn task_due_label_spec(a: AppView, t: TaskView, today: Date) -> Seq<char> {
    if t.status == TaskStatus::Done {
        match t.due_date {
            Some(d) => fill_params(
                lookup(a.catalog(), "due.upcoming"@),
                seq![("date"@, iso_date(d.days_from_ce as int))],
            ),
            None => lookup(a.catalog(), "due.none"@),
        }
    } else {
        due_label_spec(a.catalog(), t.due_date, today)
    }
}

/// The due label of a task in the detail panel.
pub fn task_due_label(app: &App, task: &Task, today: Date) -> (r: String)
    ensures
        r@ == task_due_label_spec(app@, task@, today),
{
    if task.status == TaskStatus::Done {
        return match task.due_date {
            Some(date) => {
                let params = [("date", iso_date_text(date))];
                proof {
                    assert(params_view(params@) =~= seq![
                        ("date"@, iso_date(date.days_from_ce as int)),
                    ]);
                }
                app.t_fmt("due.upcoming", &params)
            },
            None => app.t("due.none"),
        };
    }
    app.format_due_label(task, today)
}

/// The short due label of a task in the list.
pub open spec fn task_due_chip_spec(a: AppView, t: TaskView, today: Date) -> Seq<char> {
    match t.due_date {
        Some(d) => if t.status != TaskStatus::Done && d.days_from_ce < today.days_from_ce {
            lookup(a.catalog(), "list.due.overdue"@)
        } else if t.status != TaskStatus::Done && d.days_from_ce == today.days_from_ce {
            lookup(a.catalog(), "list.due.today"@)
        } else {
            fill_params(
                lookup(a.catalog(), "list.due.date"@),
                seq![("date"@, month_day(d.days_from_ce as int))],
            )
        },
        None => lookup(a.catalog(), "list.due.none"@),
    }
}

/// The short due label of a task in the list.
pub fn task_due_chip_label(app: &App, task: &Task, today: Date) -> (r: String)
    ensures
        r@ == task_due_chip_spec(app@, task@, today),
{
    match task.due_date {
        Some(date) => {
            let done = task.status == TaskStatus::Done;
            if !done && date.is_before(&today) {
                app.t("list.due.overdue")
            } else if !done && date.days_from_ce == today.days_from_ce {
                app.t("list.due.today")
            } else {
                let params = [("date", month_day_text(date))];
                proof {
                    assert(params_view(params@) =~= seq![
                        ("date"@, month_day(date.days_from_ce as int)),
                    ]);
                }
                app.t_fmt("list.due.date", &params)
            }
        },
        None => app.t("list.due.none"),
    }
}

/// The badge of the focus panel: done, overdue, due today, or active.
pub open spec fn focus_alert_spec(t: TaskView, today: Date) -> (Seq<char>, AlertTone) {
    if t.status == TaskStatus::Done {
        ("focus.alert.done"@, AlertTone::Success)
    } else if is_overdue_spec(t, today) {
        ("focus.alert.overdue"@, AlertTone::Danger)
    } else if is_due_today_spec(t, today) {
        ("focus.alert.today"@, AlertTone::Warning)
    } else {
        ("focus.alert.active"@, AlertTone::Accent)
    }
}

/// The badge of the focus panel: its catalog key and tone.
pub fn focus_alert(task: &Task, today: Date) -> (r: (&'static str, AlertTone))
    ensures
        (r.0@, r.1) == focus_alert_spec(task@, today),
{
    if task.status == TaskStatus::Done {
        return ("focus.alert.done", AlertTone::Success);
    }
    if task.is_overdue(today) {
        return ("focus.alert.overdue", AlertTone::Danger);
    }
    if task.is_due_today(today) {
        return ("focus.alert.today", AlertTone::Warning);
    }
    ("focus.alert.active", AlertTone::Accent)
}

/// The tone of a task's due chip.
pub open spec fn due_tone_spec(t: TaskView, today: Date) -> DueTone {
    if t.status == TaskStatus::Done {
        DueTone::Done
    } else {
        match t.due_date {
            Some(d) => if d.days_from_ce < today.days_from_ce {
                DueTone::Overdue
            } else if d.days_from_ce == today.days_from_ce {
                DueTone::Today
            } else {
                DueTone::Upcoming
            },
            None => DueTone::NoDue,
        }
    }
}

/// The tone of a task's due chip.
pub fn due_tone(task: &Task, today: Date) -> (r: DueTone)
    ensures
        r == due_tone_spec(task@, today),
{
    if task.status == TaskStatus::Done {
        return DueTone::Done;
    }
    match task.due_date {
        Some(d) => if d.is_before(&today) {
            DueTone::Overdue
        } else if d.days_from_ce == today.days_from_ce {
            DueTone::Today
        } else {
            DueTone::Upcoming
        },
        None => DueTone::NoDue,
    }
}

} // verus!
