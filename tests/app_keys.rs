use isek_rs::app::{App, IsekCalendars, State};
use isek_rs::config::{DateFormatConfig, DisplayOptions, FilterConfig, ShowDoneOptions, SortingConfig, SortingVariant};
use isek_rs::view::{Key, KeyAction, MainView};

fn app() -> App {
    let display = DisplayOptions {
        sort: SortingConfig { by: SortingVariant::Priority, ascending: true, ignore_done: true },
        date_format: DateFormatConfig { date: "%Y-%m-%d".to_string(), datetime: "%Y-%m-%d %H:%M".to_string() },
        filter: FilterConfig { show_done: ShowDoneOptions::Hide, show_done_for: 5 },
    };
    App::new(IsekCalendars::from_calendars(vec![]), display)
}

#[test]
fn normal_mode_keys() {
    let view = MainView;
    let mut a = app();
    assert_eq!(view.handle_key_event(&mut a, Key::Char('j')), KeyAction::Done);
    assert_eq!(a.selected, Some(0));
    view.handle_key_event(&mut a, Key::Char('j'));
    assert_eq!(a.selected, Some(1));
    view.handle_key_event(&mut a, Key::Char('k'));
    assert_eq!(a.selected, Some(0));
    view.handle_key_event(&mut a, Key::Char('k'));
    assert_eq!(a.selected, Some(0));
    assert_eq!(view.handle_key_event(&mut a, Key::Char('x')), KeyAction::ToggleDone);
    view.handle_key_event(&mut a, Key::Esc);
    assert_eq!(a.selected, None);
    view.handle_key_event(&mut a, Key::Char('k'));
    assert_eq!(a.selected, Some(usize::MAX));
    view.handle_key_event(&mut a, Key::Char('q'));
    assert!(a.exit);
}

#[test]
fn sort_menu_keys() {
    let view = MainView;
    let mut a = app();
    view.handle_key_event(&mut a, Key::Char('s'));
    assert_eq!(a.state, State::ConfigSort);
    view.handle_key_event(&mut a, Key::Char('d'));
    assert_eq!(a.display.sort.by, SortingVariant::Date);
    assert_eq!(a.state, State::Normal);
    view.handle_key_event(&mut a, Key::Char('s'));
    view.handle_key_event(&mut a, Key::Char('a'));
    assert!(!a.display.sort.ascending);
    assert_eq!(a.display.sort.by, SortingVariant::Date);
    view.handle_key_event(&mut a, Key::Char('s'));
    view.handle_key_event(&mut a, Key::Other);
    assert_eq!(a.state, State::Normal);
}

#[test]
fn filter_menu_rotates_visibility() {
    let view = MainView;
    let mut a = app();
    view.handle_key_event(&mut a, Key::Char('f'));
    assert_eq!(a.state, State::ConfigFilter);
    view.handle_key_event(&mut a, Key::Char('d'));
    assert_eq!(a.display.filter.show_done, ShowDoneOptions::Show);
    assert_eq!(a.display.filter.show_done_for, 5);
    assert_eq!(a.state, State::Normal);
}

#[test]
fn toggle_without_selection_does_nothing() {
    let mut a = app();
    assert_eq!(a.toggle_done(0, &vec![]), None);
    a.selected = Some(3);
    assert_eq!(a.toggle_done(0, &vec![]), None);
}
