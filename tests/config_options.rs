use isek_rs::config::{CalendarConfig, IsekConfig, ShowDoneOptions, SortingVariant};

#[test]
fn show_done_rotates() {
    assert_eq!(ShowDoneOptions::Show.next(), ShowDoneOptions::Recent);
    assert_eq!(ShowDoneOptions::Recent.next(), ShowDoneOptions::Hide);
    assert_eq!(ShowDoneOptions::Hide.next(), ShowDoneOptions::Show);
}

#[test]
fn show_done_labels() {
    assert_eq!(ShowDoneOptions::Show.label(), "Show");
    assert_eq!(ShowDoneOptions::Recent.label(), "Some");
    assert_eq!(ShowDoneOptions::Hide.label(), "Hide");
}

#[test]
fn default_config() {
    let c = IsekConfig::default();
    assert_eq!(c.calendars.len(), 2);
    match &c.calendars[0] {
        CalendarConfig::VDIR(v) => assert_eq!(v.path, "path/a"),
    }
    assert_eq!(c.display.sort.by, SortingVariant::Priority);
    assert!(c.display.sort.ascending);
    assert_eq!(c.display.filter.show_done, ShowDoneOptions::Hide);
    assert_eq!(c.display.filter.show_done_for, 5);
    assert_eq!(c.display.date_format.date, "%Y-%m-%d");
    assert_eq!(c.display.date_format.datetime, "%Y-%m-%d %H:%M");
}
