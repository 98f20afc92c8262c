use isek_rs::app::IsekCalendars;
use isek_rs::config::{CalendarConfig, FilterConfig, ShowDoneOptions, SortingConfig, SortingVariant, VdirCalendarConfig};
use isek_rs::helper::DueDate;
use isek_rs::store::{file_status, is_ics_file_name, load_item, FileStatus, IsekCalendar};
use isek_rs::todo::Rgb;

const TODO_ICS: &str = "BEGIN:VCALENDAR\r\nVERSION:2.0\r\nPRODID:-//isek//test//EN\r\nBEGIN:VTODO\r\nUID:task-1\r\nSUMMARY:Write report\r\nPRIORITY:5\r\nDUE;VALUE=DATE:20240103\r\nEND:VTODO\r\nEND:VCALENDAR\r\n";

const DONE_ICS: &str = "BEGIN:VCALENDAR\r\nVERSION:2.0\r\nPRODID:-//isek//test//EN\r\nBEGIN:VTODO\r\nUID:task-2\r\nSUMMARY:Buy milk\r\nCOMPLETED:20240102T100000Z\r\nSTATUS:COMPLETED\r\nEND:VTODO\r\nEND:VCALENDAR\r\n";

const EVENT_ICS: &str = "BEGIN:VCALENDAR\r\nVERSION:2.0\r\nPRODID:-//isek//test//EN\r\nBEGIN:VEVENT\r\nUID:event-1\r\nSUMMARY:Meeting\r\nDTSTART:20240101T100000Z\r\nEND:VEVENT\r\nEND:VCALENDAR\r\n";

fn config() -> CalendarConfig {
    CalendarConfig::VDIR(VdirCalendarConfig { path: "cal".to_string() })
}

fn calendar(name: &str, files: Vec<(&str, &str)>) -> IsekCalendar {
    let files = files.into_iter().map(|(n, t)| (n.to_string(), t.to_string())).collect();
    IsekCalendar::from_config(config(), name.to_string(), Rgb { red: 255, green: 0, blue: 0 }, files)
}

#[test]
fn ics_extension_is_case_insensitive() {
    assert!(is_ics_file_name("task.ics"));
    assert!(is_ics_file_name("task.ICS"));
    assert!(is_ics_file_name("a.IcS"));
    assert!(!is_ics_file_name(".ics"));
    assert!(!is_ics_file_name("task.txt"));
    assert!(!is_ics_file_name("displayname"));
}

#[test]
fn load_reads_both_forms() {
    let item = load_item("task-1.ics", TODO_ICS).unwrap();
    assert_eq!(item.id, "task-1");
    assert_eq!(item.todos.len(), 1);
    let t = &item.todos[0];
    assert_eq!(t.uid.as_deref(), Some("task-1"));
    assert_eq!(t.summary.as_deref(), Some("Write report"));
    assert_eq!(t.priority, Some(5));
    assert_eq!(t.due, Some(DueDate::Date { days_from_ce: 738888 }));
    assert_eq!(t.completed, None);
}

#[test]
fn load_reads_completion_instant() {
    let item = load_item("task-2.ics", DONE_ICS).unwrap();
    assert_eq!(item.todos[0].completed, Some(1704189600));
}

#[test]
fn load_skips_calendar_without_todos() {
    let cal = calendar("Work", vec![("event.ics", EVENT_ICS), ("task-1.ics", TODO_ICS)]);
    assert_eq!(cal.items.len(), 1);
    assert_eq!(cal.items[0].id, "task-1");
    assert!(load_item("event.ics", EVENT_ICS).is_none());
}

#[test]
fn load_skips_other_and_malformed_files() {
    let cal = calendar("Work", vec![("notes.txt", TODO_ICS), ("bad.ics", "not a calendar"), ("b.ICS", TODO_ICS)]);
    assert_eq!(cal.items.len(), 1);
    assert_eq!(cal.items[0].id, "b");
}

#[test]
fn later_file_with_same_identifier_replaces_earlier() {
    let cal = calendar("Work", vec![("x.ics", TODO_ICS), ("x.ics", DONE_ICS)]);
    assert_eq!(cal.items.len(), 1);
    assert_eq!(cal.items[0].todos[0].uid.as_deref(), Some("task-2"));
}

#[test]
fn toggle_marks_completed_and_refreshes_query_form() {
    let mut cal = calendar("Work", vec![("task-1.ics", TODO_ICS)]);
    assert_eq!(cal.toggle_done_at("task-1", "20240105T120000Z".to_string()), Some(()));
    let t = cal.get_todo("task-1").unwrap();
    assert_eq!(t.completed, Some(1704456000));
    assert_eq!(t.percent_complete, Some(100));
    let files = cal.generated_files();
    assert_eq!(files.len(), 1);
    assert_eq!(files[0].0, "task-1");
    let text = files[0].1.as_ref().unwrap();
    assert!(text.contains("COMPLETED:20240105T120000Z"));
    assert!(text.contains("STATUS:COMPLETED"));
    assert!(text.contains("PERCENT-COMPLETE:100"));
    assert_eq!(cal.toggle_done_at("task-1", "20240106T120000Z".to_string()), Some(()));
    let t = cal.get_todo("task-1").unwrap();
    assert_eq!(t.completed, None);
    assert_eq!(t.percent_complete, None);
    let text = cal.generated_files()[0].1.clone().unwrap();
    assert!(!text.contains("COMPLETED"));
    assert!(!text.contains("PERCENT-COMPLETE"));
}

#[test]
fn toggle_with_current_time_completes() {
    let mut cal = calendar("Work", vec![("task-1.ics", TODO_ICS)]);
    assert_eq!(cal.toggle_done("task-1"), Some(()));
    assert!(cal.get_todo("task-1").unwrap().completed.is_some());
}

#[test]
fn toggle_unknown_item_is_not_found() {
    let mut cal = calendar("Work", vec![("task-1.ics", TODO_ICS)]);
    assert_eq!(cal.toggle_done_at("missing", "20240105T120000Z".to_string()), None);
    assert_eq!(cal.get_todo("task-1").unwrap().completed, None);
}

#[test]
fn refresh_rereads_generated_text() {
    let mut cal = calendar("Work", vec![("task-2.ics", DONE_ICS)]);
    assert_eq!(cal.refresh_item(0), Ok(()));
    assert_eq!(cal.items[0].todos[0].summary.as_deref(), Some("Buy milk"));
}

#[test]
fn calendars_aggregate_filter_and_sort() {
    let work = calendar("Work", vec![("task-1.ics", TODO_ICS), ("task-2.ics", DONE_ICS)]);
    let home = calendar("Home", vec![("task-2.ics", DONE_ICS)]);
    let cals = IsekCalendars::from_calendars(vec![work, home]);
    assert_eq!(cals.all_todos().len(), 3);
    let sort = SortingConfig { by: SortingVariant::Priority, ascending: true, ignore_done: true };
    let filter = FilterConfig { show_done: ShowDoneOptions::Hide, show_done_for: 5 };
    let shown = cals.get_todos(Some(&sort), Some(&filter), 1704283200, &vec![]);
    assert_eq!(shown.len(), 1);
    assert_eq!(shown[0].calendar_name, "Work");
    assert_eq!(*shown[0].color, Rgb { red: 255, green: 0, blue: 0 });
    let all = cals.get_todos(Some(&sort), None, 1704283200, &vec![]);
    assert_eq!(all.len(), 3);
    assert_eq!(all[0].get().uid.as_deref(), Some("task-1"));
}

#[test]
fn calendars_toggle_by_name() {
    let work = calendar("Work", vec![("task-1.ics", TODO_ICS)]);
    let mut cals = IsekCalendars::from_calendars(vec![work]);
    assert_eq!(cals.toggle_done("Home", "task-1"), None);
    assert_eq!(cals.toggle_done("Work", "task-1"), Some(()));
    assert!(cals.get_todo("Work", "task-1").unwrap().completed.is_some());
    assert!(cals.get_todo("Home", "task-1").is_none());
}

#[test]
fn file_status_tells_why() {
    assert_eq!(file_status("a.txt", TODO_ICS), FileStatus::NotIcs);
    assert_eq!(file_status("a.ics", "not a calendar"), FileStatus::EditableInvalid);
    assert_eq!(file_status("a.ics", EVENT_ICS), FileStatus::NoTodos);
    assert_eq!(file_status("a.ics", TODO_ICS), FileStatus::Loaded);
}

const ODD_PARAM_ICS: &str = "BEGIN:VCALENDAR\r\nVERSION:2.0\r\nBEGIN:VTODO\r\nUID:task-3\r\nSUMMARY;X-A=:text\r\nEND:VTODO\r\nEND:VCALENDAR\r\n";

const QUOTED_PARAM_ICS: &str = "BEGIN:VCALENDAR\r\nVERSION:2.0\r\nBEGIN:VTODO\r\nUID:task-4\r\nSUMMARY;LANGUAGE=en:text\r\nEND:VTODO\r\nEND:VCALENDAR\r\n";

const TZ_FIRST_ICS: &str = "BEGIN:VCALENDAR\r\nVERSION:2.0\r\nBEGIN:VTIMEZONE\r\nTZID:Europe/Berlin\r\nEND:VTIMEZONE\r\nBEGIN:VTODO\r\nUID:task-5\r\nSUMMARY:later\r\nEND:VTODO\r\nEND:VCALENDAR\r\n";

#[test]
fn empty_parameter_value_is_loaded_but_not_written() {
    assert_eq!(file_status("task-3.ics", ODD_PARAM_ICS), FileStatus::Loaded);
    assert!(load_item("task-3.ics", ODD_PARAM_ICS).is_some());
    let mut cal = calendar("Work", vec![("task-3.ics", ODD_PARAM_ICS), ("task-1.ics", TODO_ICS)]);
    assert_eq!(cal.items.len(), 2);
    assert_eq!(cal.toggle_done_at("task-3", "20240105T120000Z".to_string()), None);
    let files = cal.generated_files();
    assert_eq!(files[0].1, None);
    assert!(files[1].1.is_some());
    assert!(cal.refresh_item(0).is_err());
    let item = load_item("task-4.ics", QUOTED_PARAM_ICS).unwrap();
    assert_eq!(item.todos.len(), 1);
}

#[test]
fn upper_case_extension_is_stripped() {
    let item = load_item("Task.ICS", TODO_ICS).unwrap();
    assert_eq!(item.id, "Task");
}

#[test]
fn get_todo_needs_a_todo_first() {
    let item = load_item("task-5.ics", TZ_FIRST_ICS).unwrap();
    assert_eq!(item.todos.len(), 1);
    let cal = IsekCalendar::from_config(config(), "Work".to_string(), Rgb { red: 0, green: 0, blue: 0 }, vec![("task-5.ics".to_string(), TZ_FIRST_ICS.to_string())]);
    assert!(cal.get_todo("task-5").is_none());
    let cal = calendar("Work", vec![("task-1.ics", TODO_ICS)]);
    assert_eq!(cal.get_todo("task-1").unwrap().summary.as_deref(), Some("Write report"));
}

#[test]
fn toggle_done_uncompletes_without_stamp() {
    let mut cal = calendar("Work", vec![("task-2.ics", DONE_ICS)]);
    assert_eq!(cal.toggle_done("task-2"), Some(()));
    let t = cal.get_todo("task-2").unwrap();
    assert_eq!(t.completed, None);
    let text = cal.generated_files()[0].1.clone().unwrap();
    assert!(!text.contains("COMPLETED"));
    assert_eq!(cal.toggle_done("task-2"), Some(()));
    assert!(cal.get_todo("task-2").unwrap().completed.is_some());
}
