use chrono::NaiveDate;
use gressus::calendar::Weekday;
use gressus::model::{Event, Task, Timespan};
use gressus::placement::{
    clamp_time, day_index_of, day_rows, month_day_range, place_in_day, place_records,
    row_index_of, RowPlacement,
};
use gressus::views::{get_day_events, get_month_events};
use gressus::window::{resolve_day_window, resolve_month_window, ViewError, ViewWindow};

fn at(y: i32, m: u32, d: u32, h: u32, min: u32) -> i64 {
    NaiveDate::from_ymd_opt(y, m, d)
        .unwrap()
        .and_hms_opt(h, min, 0)
        .unwrap()
        .and_utc()
        .timestamp()
}

fn event(name: &str, start: i64, end: i64) -> Event {
    Event {
        name: name.to_string(),
        description: String::new(),
        timespan: Timespan::new(start, end),
        category: 1,
        user: 7,
        uuid: 100,
    }
}

fn task(name: &str, start: i64, end: i64) -> Task {
    Task {
        name: name.to_string(),
        description: "task_description".to_string(),
        timespan: Timespan::new(start, end),
        category: 2,
        completed: false,
        user: 7,
        uuid: 200,
    }
}

fn may_2023() -> ViewWindow {
    resolve_month_window(2023, 5, Weekday::Monday).unwrap()
}

fn cells_holding(cells: &[Vec<usize>], index: usize) -> Vec<usize> {
    (0..cells.len()).filter(|&b| cells[b].contains(&index)).collect()
}

#[test]
fn one_hour_task_lands_in_first_cell_only() {
    let tasks = vec![task("test_task", at(2023, 5, 1, 10, 0), at(2023, 5, 1, 11, 0))];
    let cells = place_records(&tasks, &may_2023());
    assert_eq!(cells.len(), 42);
    assert_eq!(cells[0], vec![0]);
    assert_eq!(cells_holding(&cells, 0), vec![0]);
}

#[test]
fn record_before_window_is_in_no_cell() {
    let events = vec![
        event("early", at(2023, 4, 1, 9, 0), at(2023, 4, 2, 9, 0)),
        event("just_before", at(2023, 4, 30, 9, 0), at(2023, 4, 30, 23, 59)),
    ];
    let cells = place_records(&events, &may_2023());
    assert!(cells.iter().all(|c| c.is_empty()));
}

#[test]
fn record_after_window_is_in_no_cell() {
    let events = vec![event("late", at(2023, 6, 12, 0, 1), at(2023, 6, 13, 0, 0))];
    let cells = place_records(&events, &may_2023());
    assert!(cells.iter().all(|c| c.is_empty()));
}

#[test]
fn three_day_record_lands_in_three_cells() {
    let events = vec![
        event("other", at(2023, 5, 10, 8, 0), at(2023, 5, 10, 9, 0)),
        event("trip", at(2023, 5, 3, 0, 0), at(2023, 5, 5, 23, 59)),
    ];
    let cells = place_records(&events, &may_2023());
    assert_eq!(cells_holding(&cells, 1), vec![2, 3, 4]);
    assert_eq!(cells_holding(&cells, 0), vec![9]);
}

#[test]
fn record_on_the_window_edges_is_clamped() {
    let w = may_2023();
    let events = vec![
        event("ends_at_start", at(2023, 4, 20, 0, 0), w.start_inclusive),
        event("starts_at_end", w.end_exclusive, w.end_exclusive + 3600),
        event("covers_all", at(2023, 1, 1, 0, 0), at(2023, 12, 31, 0, 0)),
    ];
    let cells = place_records(&events, &w);
    assert_eq!(cells_holding(&cells, 0), vec![0]);
    assert_eq!(cells_holding(&cells, 1), vec![41]);
    assert_eq!(cells_holding(&cells, 2), (0..42).collect::<Vec<_>>());
    assert_eq!(cells[0], vec![0, 2]);
    assert_eq!(cells[41], vec![1, 2]);
}

#[test]
fn cells_keep_input_order() {
    let events = vec![
        event("b", at(2023, 5, 2, 12, 0), at(2023, 5, 2, 13, 0)),
        event("a", at(2023, 5, 2, 8, 0), at(2023, 5, 2, 9, 0)),
        event("c", at(2023, 5, 1, 8, 0), at(2023, 5, 3, 9, 0)),
    ];
    let cells = place_records(&events, &may_2023());
    assert_eq!(cells[0], vec![2]);
    assert_eq!(cells[1], vec![0, 1, 2]);
    assert_eq!(cells[2], vec![2]);
}

#[test]
fn no_records_give_empty_cells() {
    let events: Vec<Event> = Vec::new();
    let cells = place_records(&events, &may_2023());
    assert_eq!(cells.len(), 42);
    assert!(cells.iter().all(|c| c.is_empty()));
}

#[test]
fn window_without_cells_places_nothing() {
    let w = ViewWindow { start_inclusive: 0, end_exclusive: 0, bucket_count: 0 };
    let events = vec![event("x", 0, 10)];
    assert!(place_records(&events, &w).is_empty());
}

#[test]
fn month_day_range_and_index() {
    let w = may_2023();
    let s = Timespan::new(at(2023, 5, 7, 23, 0), at(2023, 5, 8, 1, 0));
    assert_eq!(month_day_range(s, &w), Some((6, 7)));
    assert_eq!(month_day_range(Timespan::new(0, 1), &w), None);
    assert_eq!(day_index_of(i64::MIN, &w), 0);
    assert_eq!(day_index_of(i64::MAX, &w), 41);
    assert_eq!(clamp_time(i64::MIN, &w), w.start_inclusive);
    assert_eq!(clamp_time(i64::MAX, &w), w.end_exclusive);
    assert_eq!(clamp_time(w.start_inclusive + 5, &w), w.start_inclusive + 5);
}

#[test]
fn day_rows_of_quarter_hours() {
    let w = resolve_day_window("2023-05-01").unwrap();
    assert_eq!(w.bucket_count, 96);
    let events = vec![event("test_event", at(2023, 5, 1, 9, 0), at(2023, 5, 1, 9, 45))];
    assert_eq!(
        place_in_day(&events, &w),
        vec![RowPlacement { index: 0, start_row: 36, end_row: 39 }]
    );
}

#[test]
fn day_record_starting_before_window_is_clipped() {
    let w = resolve_day_window("2023-05-01").unwrap();
    let s = Timespan::new(at(2023, 4, 30, 23, 0), at(2023, 5, 1, 1, 0));
    assert_eq!(day_rows(s, &w), Some((0, 4)));
    let s = Timespan::new(at(2023, 5, 1, 22, 0), at(2023, 5, 2, 3, 0));
    assert_eq!(day_rows(s, &w), Some((88, 96)));
    assert_eq!(row_index_of(i64::MIN, &w), 0);
    assert_eq!(row_index_of(i64::MAX, &w), 96);
}

#[test]
fn day_view_leaves_out_hidden_records() {
    let w = resolve_day_window("2023-05-01").unwrap();
    let tasks = vec![
        task("yesterday", at(2023, 4, 30, 9, 0), at(2023, 4, 30, 10, 0)),
        task("inverted", at(2023, 5, 1, 10, 0), at(2023, 5, 1, 9, 0)),
        task("tomorrow", at(2023, 5, 2, 9, 0), at(2023, 5, 2, 10, 0)),
        task("whole_day", at(2023, 4, 1, 0, 0), at(2023, 6, 1, 0, 0)),
        task("midnight", at(2023, 5, 2, 0, 0), at(2023, 5, 2, 0, 30)),
    ];
    assert_eq!(
        place_in_day(&tasks, &w),
        vec![
            RowPlacement { index: 3, start_row: 0, end_row: 96 },
            RowPlacement { index: 4, start_row: 96, end_row: 96 },
        ]
    );
}

#[test]
fn month_events_by_cell() {
    let events = vec![
        event("test_event", at(2023, 5, 1, 10, 0), at(2023, 5, 1, 11, 0)),
        event("long", at(2023, 5, 31, 20, 0), at(2023, 6, 2, 8, 0)),
        event("old", at(2022, 5, 1, 10, 0), at(2022, 5, 1, 11, 0)),
    ];
    let cells = get_month_events(&events, (2023, 5)).unwrap();
    assert_eq!(cells.len(), 42);
    let names = |b: usize| cells[b].iter().map(|e| e.name.clone()).collect::<Vec<_>>();
    assert_eq!(names(0), vec!["test_event"]);
    assert_eq!(names(30), vec!["long"]);
    assert_eq!(names(31), vec!["long"]);
    assert_eq!(names(32), vec!["long"]);
    assert_eq!(names(33), Vec::<String>::new());
    assert_eq!(cells.iter().map(|c| c.len()).sum::<usize>(), 4);
    assert_eq!(cells[31][0].timespan, events[1].timespan);
    assert_eq!(cells[31][0].uuid, events[1].uuid);
}

#[test]
fn month_events_of_invalid_month() {
    let events = vec![event("test_event", 0, 1)];
    assert!(matches!(get_month_events(&events, (2023, 13)), Err(ViewError::InvalidDate)));
}

#[test]
fn day_events_keep_overlapping_ones() {
    let day = 19_478;
    let events = vec![
        event("morning", at(2023, 5, 1, 9, 0), at(2023, 5, 1, 9, 45)),
        event("before", at(2023, 4, 30, 9, 0), at(2023, 4, 30, 9, 45)),
        event("night", at(2023, 4, 30, 22, 0), at(2023, 5, 1, 2, 0)),
        event("next", at(2023, 5, 2, 0, 0), at(2023, 5, 2, 1, 0)),
        event("after", at(2023, 5, 2, 0, 1), at(2023, 5, 2, 1, 0)),
    ];
    let shown = get_day_events(&events, day);
    let names: Vec<String> = shown.iter().map(|e| e.name.clone()).collect();
    assert_eq!(names, vec!["morning", "night", "next"]);
}

#[test]
fn event_duplicate_keeps_fields() {
    let e = event("test_event", 5, 9);
    let d = e.duplicate();
    assert_eq!(d.name, "test_event");
    assert_eq!(d.timespan, Timespan { start: 5, end: 9 });
    assert_eq!((d.category, d.user, d.uuid), (1, 7, 100));
}
