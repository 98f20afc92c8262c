//! Key handling of the main view: which command each key stands for in each mode.
use vstd::prelude::*;
use crate::app::{App, State};
use crate::config::{FilterConfig, ShowDoneOptions, SortingConfig, SortingVariant};

verus! {

/// A key press, as far as the view tells keys apart.
#[derive(Clone, Copy, Debug, PartialEq, Eq, Structural)]
pub enum Key {
    Char(char),
    Esc,
    Other,
}

/// Work that a key leaves to the caller.
#[derive(Clone, Copy, Debug, PartialEq, Eq, Structural)]
pub enum KeyAction {
    /// Nothing more to do.
    Done,
    /// Toggle the selected todo and save its calendar.
    ToggleDone,
}

/// The main view, which shows the todo list.
#[derive(Clone, Copy, Debug, Default)]
pub struct MainView;

/// The selection after moving down: the first entry where none is selected.
pub open spec fn next_selection(s: Option<usize>) -> usize {
    match s {
        Some(i) => if i == usize::MAX {
            i
        } else {
            (i + 1) as usize
        },
        None => 0,
    }
}

/// The selection after moving up: the last possible entry where none is
/// selected (the list clamps it when it is drawn).
pub open spec fn previous_selection(s: Option<usize>) -> usize {
    match s {
        Some(i) => if i == 0 {
            0
        } else {
            (i - 1) as usize
        },
        None => usize::MAX,
    }
}

/// The parts of the application that a key can change.
pub ghost struct Ui {
    pub exit: bool,
    pub state: State,
    pub sort: SortingConfig,
    pub filter: FilterConfig,
    pub selected: Option<usize>,
}

/// What a key changes.
pub open spec fn ui_of(a: App) -> Ui {
    Ui {
        exit: a.exit,
        state: a.state,
        sort: a.display.sort,
        filter: a.display.filter,
        selected: a.selected,
    }
}

/// `u` back in normal mode with nothing selected.
pub open spec fn escaped(u: Ui) -> Ui {
    Ui { selected: None, state: State::Normal, ..u }
}

/// The effect of key `k` in the state `u`. Normal mode: q quits, j and k move
/// the selection, s and f open the sort and filter menus, x asks for a toggle,
/// Esc clears the selection. Sort menu: d, p and i choose the strategy, a
/// flips the direction. Filter menu: d rotates the visibility of completed
/// todos. Any other key in a menu closes it.
pub open spec fn key_step(u: Ui, k: Key) -> (Ui, KeyAction) {
    match u.state {
        State::Normal => match k {
            Key::Char('q') => (Ui { exit: true, ..u }, KeyAction::Done),
            Key::Char('j') => (Ui { selected: Some(next_selection(u.selected)), ..u }, KeyAction::Done),
            Key::Char('k') => (
                Ui { selected: Some(previous_selection(u.selected)), ..u },
                KeyAction::Done,
            ),
            Key::Char('s') => (Ui { state: State::ConfigSort, ..u }, KeyAction::Done),
            Key::Char('f') => (Ui { state: State::ConfigFilter, ..u }, KeyAction::Done),
            Key::Char('x') => (u, KeyAction::ToggleDone),
            Key::Esc => (escaped(u), KeyAction::Done),
            _ => (u, KeyAction::Done),
        },
        State::ConfigSort => match k {
            Key::Char('d') => (
                escaped(Ui { sort: SortingConfig { by: SortingVariant::Date, ..u.sort }, ..u }),
                KeyAction::Done,
            ),
            Key::Char('p') => (
                escaped(Ui { sort: SortingConfig { by: SortingVariant::Priority, ..u.sort }, ..u }),
                KeyAction::Done,
            ),
            Key::Char('i') => (
                escaped(Ui { sort: SortingConfig { by: SortingVariant::Index, ..u.sort }, ..u }),
                KeyAction::Done,
            ),
            Key::Char('a') => (
                escaped(Ui { sort: SortingConfig { ascending: !u.sort.ascending, ..u.sort }, ..u }),
                KeyAction::Done,
            ),
            _ => (escaped(u), KeyAction::Done),
        },
        State::ConfigFilter => match k {
            Key::Char('d') => (
                escaped(
                    Ui {
                        filter: FilterConfig {
                            show_done: match u.filter.show_done {
                                ShowDoneOptions::Show => ShowDoneOptions::Recent,
                                ShowDoneOptions::Recent => ShowDoneOptions::Hide,
                                ShowDoneOptions::Hide => ShowDoneOptions::Show,
                            },
                            ..u.filter
                        },
                        ..u
                    },
                ),
                KeyAction::Done,
            ),
            _ => (escaped(u), KeyAction::Done),
        },
        State::Interactive => (u, KeyAction::Done),
    }
}

impl MainView {
    /// Applies key `key` to the application, as `key_step` says; the toggle
    /// itself, which writes to disk, is left to the caller.
    pub fn handle_key_event(&self, app: &mut App, key: Key) -> (r: KeyAction)
        ensures
            (ui_of(*final(app)), r) == key_step(ui_of(*old(app)), key),
            final(app).calendars == old(app).calendars,
            final(app).display.date_format == old(app).display.date_format,
    {
        match app.state {
            State::Normal => match key {
                Key::Char('q') => {
                    app.exit();
                    KeyAction::Done
                },
                Key::Char('j') => {
                    app.selected = Some(
                        match app.selected {
                            Some(i) => i.saturating_add(1),
                            None => 0,
                        },
                    );
                    KeyAction::Done
                },
                Key::Char('k') => {
                    app.selected = Some(
                        match app.selected {
                            Some(i) => i.saturating_sub(1),
                            None => usize::MAX,
                        },
                    );
                    KeyAction::Done
                },
                Key::Char('s') => {
                    app.switch_state(State::ConfigSort);
                    KeyAction::Done
                },
                Key::Char('f') => {
                    app.switch_state(State::ConfigFilter);
                    KeyAction::Done
                },
                Key::Char('x') => KeyAction::ToggleDone,
                Key::Esc => {
                    app.escape();
                    KeyAction::Done
                },
                _ => KeyAction::Done,
            },
            State::ConfigSort => {
                let cur = app.display.sort;
                match key {
                    Key::Char('d') => app.configure_sort(SortingConfig { by: SortingVariant::Date, ..cur }),
                    Key::Char('p') => app.configure_sort(
                        SortingConfig { by: SortingVariant::Priority, ..cur },
                    ),
                    Key::Char('i') => app.configure_sort(SortingConfig { by: SortingVariant::Index, ..cur }),
                    Key::Char('a') => app.configure_sort(
                        SortingConfig { ascending: !cur.ascending, ..cur },
                    ),
                    _ => app.escape(),
                }
                KeyAction::Done
            },
            State::ConfigFilter => {
                match key {
                    Key::Char('d') => {
                        let f = app.display.filter;
                        app.configure_filter(FilterConfig { show_done: f.show_done.next(), ..f })
                    },
                    _ => app.escape(),
                }
                KeyAction::Done
            },
            State::Interactive => KeyAction::Done,
        }
    }
}

} // verus!
