use isek_rs::config::{FilterConfig, ShowDoneOptions, SortingConfig, SortingVariant};
use isek_rs::engine::{filter_todos, index_inputs, sort_todos};
use isek_rs::helper::DueDate;
use isek_rs::todo::{IsekTodo, Rgb, TodoInfo};

const DAY: i64 = 86400;
const NOW: i64 = 1704283200;

fn todo(uid: &str) -> TodoInfo {
    TodoInfo {
        uid: Some(uid.to_string()),
        summary: None,
        due: None,
        priority: None,
        completed: None,
        percent_complete: None,
    }
}

fn entries<'a>(name: &'a String, color: &'a Rgb, todos: &'a [TodoInfo]) -> Vec<IsekTodo<'a>> {
    todos
        .iter()
        .map(|t| IsekTodo { calendar_name: name, color, item_id: t.uid.as_ref().unwrap(), data: t })
        .collect()
}

fn uids(list: &[IsekTodo]) -> Vec<String> {
    list.iter().map(|t| t.get().uid.clone().unwrap()).collect()
}

fn date(days_from_ce: i32) -> Option<DueDate> {
    Some(DueDate::Date { days_from_ce })
}

#[test]
fn hide_done_keeps_open_todos_in_order() {
    let name = "work".to_string();
    let color = Rgb { red: 1, green: 2, blue: 3 };
    let mut todos = vec![todo("a"), todo("b"), todo("c"), todo("d")];
    todos[1].completed = Some(NOW - DAY);
    todos[3].completed = Some(NOW);
    let list = entries(&name, &color, &todos);
    let filter = FilterConfig { show_done: ShowDoneOptions::Hide, show_done_for: 5 };
    assert_eq!(uids(&filter_todos(list, &filter, NOW)), vec!["a", "c"]);
}

#[test]
fn recent_window_of_five_days() {
    let name = "work".to_string();
    let color = Rgb { red: 0, green: 0, blue: 0 };
    let mut todos = vec![todo("four"), todo("six"), todo("open")];
    todos[0].completed = Some(NOW - 4 * DAY);
    todos[1].completed = Some(NOW - 6 * DAY);
    let list = entries(&name, &color, &todos);
    let filter = FilterConfig { show_done: ShowDoneOptions::Recent, show_done_for: 5 };
    assert_eq!(uids(&filter_todos(list, &filter, NOW)), vec!["four", "open"]);
}

#[test]
fn show_all_keeps_everything() {
    let name = "work".to_string();
    let color = Rgb { red: 0, green: 0, blue: 0 };
    let mut todos = vec![todo("a"), todo("b")];
    todos[0].completed = Some(0);
    let list = entries(&name, &color, &todos);
    let filter = FilterConfig { show_done: ShowDoneOptions::Show, show_done_for: 0 };
    assert_eq!(uids(&filter_todos(list, &filter, NOW)), vec!["a", "b"]);
}

#[test]
fn date_sort_puts_missing_due_then_completed_last() {
    let name = "work".to_string();
    let color = Rgb { red: 0, green: 0, blue: 0 };
    let mut todos = vec![todo("jan3"), todo("jan1"), todo("none"), todo("done")];
    todos[0].due = date(738888);
    todos[1].due = date(738886);
    todos[3].due = date(738880);
    todos[3].completed = Some(NOW);
    let list = entries(&name, &color, &todos);
    let sort = SortingConfig { by: SortingVariant::Date, ascending: true, ignore_done: false };
    assert_eq!(uids(&sort_todos(list, &sort, &vec![])), vec!["jan1", "jan3", "none", "done"]);
}

#[test]
fn date_sort_ignores_time_of_day() {
    let name = "work".to_string();
    let color = Rgb { red: 0, green: 0, blue: 0 };
    let mut todos = vec![todo("late"), todo("early")];
    todos[0].due = Some(DueDate::Utc { seconds: 1704240000 + 80000 });
    todos[1].due = Some(DueDate::Utc { seconds: 1704240000 + 10 });
    let list = entries(&name, &color, &todos);
    let sort = SortingConfig { by: SortingVariant::Date, ascending: true, ignore_done: false };
    assert_eq!(uids(&sort_todos(list, &sort, &vec![])), vec!["late", "early"]);
}

#[test]
fn priority_sort_treats_missing_as_ten() {
    let name = "work".to_string();
    let color = Rgb { red: 0, green: 0, blue: 0 };
    let mut todos = vec![todo("five"), todo("none"), todo("one")];
    todos[0].priority = Some(5);
    todos[2].priority = Some(1);
    let list = entries(&name, &color, &todos);
    let sort = SortingConfig { by: SortingVariant::Priority, ascending: true, ignore_done: true };
    assert_eq!(uids(&sort_todos(list, &sort, &vec![])), vec!["one", "five", "none"]);
}

#[test]
fn descending_reverses_the_whole_list() {
    let name = "work".to_string();
    let color = Rgb { red: 0, green: 0, blue: 0 };
    let mut todos = vec![todo("five"), todo("none"), todo("one"), todo("done")];
    todos[0].priority = Some(5);
    todos[2].priority = Some(1);
    todos[3].completed = Some(NOW);
    let list = entries(&name, &color, &todos);
    let sort = SortingConfig { by: SortingVariant::Priority, ascending: false, ignore_done: true };
    assert_eq!(uids(&sort_todos(list, &sort, &vec![])), vec!["done", "none", "five", "one"]);
}

#[test]
fn index_sort_orders_by_score_and_keeps_ties() {
    let name = "work".to_string();
    let color = Rgb { red: 0, green: 0, blue: 0 };
    let mut todos = vec![todo("a"), todo("b"), todo("c"), todo("d")];
    todos[1].completed = Some(NOW);
    let list = entries(&name, &color, &todos);
    let sort = SortingConfig { by: SortingVariant::Index, ascending: true, ignore_done: true };
    let scores = vec![7, -100, 3, 7];
    assert_eq!(uids(&sort_todos(list, &sort, &scores)), vec!["c", "a", "d", "b"]);
}

#[test]
fn empty_list_stays_empty() {
    let sort = SortingConfig { by: SortingVariant::Date, ascending: false, ignore_done: true };
    assert!(sort_todos(Vec::new(), &sort, &vec![]).is_empty());
    let filter = FilterConfig { show_done: ShowDoneOptions::Hide, show_done_for: 1 };
    assert!(filter_todos(Vec::new(), &filter, NOW).is_empty());
}

#[test]
fn index_inputs_default_to_ten_and_now() {
    let mut t = todo("a");
    assert_eq!(index_inputs(&t, NOW), (10, NOW));
    t.priority = Some(3);
    t.due = date(738888);
    assert_eq!(index_inputs(&t, NOW), (3, 1704240000));
}
