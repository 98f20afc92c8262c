//! Configuration values: which calendars to load and how the list is shown.
use vstd::prelude::*;

verus! {

/// Strategy used to order the todo list.
#[derive(Clone, Copy, Debug, PartialEq, Eq, Structural)]
pub enum SortingVariant {
    /// By calendar date of the due date.
    Date,
    /// By numeric priority (1 is the most urgent).
    Priority,
    /// By the score that blends priority and due-date proximity.
    Index,
}

/// How the todo list is ordered.
#[derive(Clone, Copy, Debug, PartialEq, Eq, Structural)]
pub struct SortingConfig {
    pub by: SortingVariant,
    pub ascending: bool,
    /// Declared for configuration files; the ordering does not consult it.
    pub ignore_done: bool,
}

/// Which completed todos stay visible.
#[derive(Clone, Copy, Debug, PartialEq, Eq, Structural)]
pub enum ShowDoneOptions {
    /// Every todo is shown.
    Show,
    /// Completed todos are shown only within the recent window.
    Recent,
    /// Completed todos are hidden.
    Hide,
}

impl ShowDoneOptions {
    /// The option that follows this one in the rotation Show, Recent, Hide.
    pub fn next(&self) -> (r: Self)
        ensures
            r == match *self {
                ShowDoneOptions::Show => ShowDoneOptions::Recent,
                ShowDoneOptions::Recent => ShowDoneOptions::Hide,
                ShowDoneOptions::Hide => ShowDoneOptions::Show,
            },
    {
        match self {
            ShowDoneOptions::Show => ShowDoneOptions::Recent,
            ShowDoneOptions::Recent => ShowDoneOptions::Hide,
            ShowDoneOptions::Hide => ShowDoneOptions::Show,
        }
    }

    /// The text shown for this option in the status line.
    pub fn label(&self) -> (r: String)
        ensures
            r@ == match *self {
                ShowDoneOptions::Show => "Show"@,
                ShowDoneOptions::Recent => "Some"@,
                ShowDoneOptions::Hide => "Hide"@,
            },
    {
        match self {
            ShowDoneOptions::Show => "Show".to_owned(),
            ShowDoneOptions::Recent => "Some".to_owned(),
            ShowDoneOptions::Hide => "Hide".to_owned(),
        }
    }
}

/// Which todos are shown.
#[derive(Clone, Copy, Debug, PartialEq, Eq, Structural)]
pub struct FilterConfig {
    pub show_done: ShowDoneOptions,
    /// Window, in days, for `ShowDoneOptions::Recent`.
    pub show_done_for: u64,
}

/// Format patterns for dates and date-times.
#[derive(Clone, Debug)]
pub struct DateFormatConfig {
    pub date: String,
    pub datetime: String,
}

/// Display settings: ordering, date formats and filtering.
#[derive(Clone, Debug)]
pub struct DisplayOptions {
    pub sort: SortingConfig,
    pub date_format: DateFormatConfig,
    pub filter: FilterConfig,
}

/// A calendar stored as a VDIR directory.
#[derive(Clone, Debug)]
pub struct VdirCalendarConfig {
    pub path: String,
}

/// Where a calendar comes from.
#[derive(Clone, Debug)]
pub enum CalendarConfig {
    VDIR(VdirCalendarConfig),
}

/// The whole configuration.
#[derive(Clone, Debug)]
pub struct IsekConfig {
    pub calendars: Vec<CalendarConfig>,
    pub display: DisplayOptions,
}

impl Default for IsekConfig {
    /// Two VDIR calendars, priority order, completed todos hidden.
    fn default() -> (r: Self)
        ensures
            r.calendars@.len() == 2,
            r.calendars@[0] matches CalendarConfig::VDIR(c) && c.path@ == "path/a"@,
            r.calendars@[1] matches CalendarConfig::VDIR(c) && c.path@ == "path/b"@,
            r.display.sort == (SortingConfig {
                by: SortingVariant::Priority,
                ascending: true,
                ignore_done: true,
            }),
            r.display.filter == (FilterConfig { show_done: ShowDoneOptions::Hide, show_done_for: 5 }),
            r.display.date_format.date@ == "%Y-%m-%d"@,
            r.display.date_format.datetime@ == "%Y-%m-%d %H:%M"@,
    {
        let mut calendars: Vec<CalendarConfig> = Vec::new();
        calendars.push(CalendarConfig::VDIR(VdirCalendarConfig { path: "path/a".to_owned() }));
        calendars.push(CalendarConfig::VDIR(VdirCalendarConfig { path: "path/b".to_owned() }));
        IsekConfig {
            calendars,
            display: DisplayOptions {
                sort: SortingConfig { by: SortingVariant::Priority, ascending: true, ignore_done: true },
                filter: FilterConfig { show_done: ShowDoneOptions::Hide, show_done_for: 5 },
                date_format: DateFormatConfig {
                    date: "%Y-%m-%d".to_owned(),
                    datetime: "%Y-%m-%d %H:%M".to_owned(),
                },
            },
        }
    }
}

} // verus!
