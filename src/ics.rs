//! The two outside forms of one calendar file: the editable property lists of
//! the `ical` crate and the typed todos of the `icalendar` crate.
use vstd::prelude::*;
use ical::generator::Emitter;
use std::fmt::Write;
use icalendar::Component;
use chrono::Datelike;
use icalendar::{CalendarDateTime as C, DatePerhapsTime as D};
use crate::helper::DueDate;
use crate::props::{
    are_props_safe, is_param_value_safe, param_value_safe, props_safe, props_view, Property,
    PropertyView,
};
use crate::todo::TodoInfo;

verus! {

#[verifier::external_type_specification]
#[verifier::external_body]
pub struct ExIcalCalendar(ical::parser::ical::component::IcalCalendar);

#[verifier::external_type_specification]
#[verifier::external_body]
pub struct ExTodo(icalendar::Todo);

/// The calendar that the `ical` parser reads from `text`, if it reads one.
pub uninterp spec fn editable_of(text: Seq<char>) -> Option<
    ical::parser::ical::component::IcalCalendar,
>;

/// The property list of each todo component of an editable calendar, in order.
pub uninterp spec fn todo_properties(c: ical::parser::ical::component::IcalCalendar) -> Seq<
    Seq<PropertyView>,
>;

/// The editable calendar with the property list of every todo emptied: all
/// that a change of todo properties leaves as it is.
pub uninterp spec fn calendar_rest(c: ical::parser::ical::component::IcalCalendar) -> ical::parser::ical::component::IcalCalendar;

/// The values of the parameters of every alarm property (of the calendar, its
/// events and its todos) of an editable calendar.
pub uninterp spec fn alarm_params(c: ical::parser::ical::component::IcalCalendar) -> Seq<Seq<char>>;

/// The values of the parameters of the calendar's own properties and of its
/// events, journals, free/busy components, time zones and their transitions.
pub uninterp spec fn other_params(c: ical::parser::ical::component::IcalCalendar) -> Seq<Seq<char>>;

/// The `ical` generator can write the calendar: every parameter value of every
/// property is safe to write.
pub open spec fn generation_safe(c: ical::parser::ical::component::IcalCalendar) -> bool {
    &&& forall|i: int| 0 <= i < alarm_params(c).len() ==> param_value_safe(#[trigger] alarm_params(c)[i])
    &&& forall|i: int| 0 <= i < other_params(c).len() ==> param_value_safe(#[trigger] other_params(c)[i])
    &&& forall|i: int| 0 <= i < todo_properties(c).len() ==> props_safe(#[trigger] todo_properties(c)[i])
}

/// The text that the `ical` generator writes for an editable calendar.
pub uninterp spec fn ical_text(c: ical::parser::ical::component::IcalCalendar) -> Seq<char>;

#[verifier::external_type_specification]
#[verifier::external_body]
pub struct ExCalendar(icalendar::Calendar);

#[verifier::external_type_specification]
#[verifier::external_body]
pub struct ExCalendarComponent(icalendar::CalendarComponent);

/// The calendar that `icalendar` parses from `text`, or `None` where it
/// rejects the text.
pub uninterp spec fn calendar_of(text: Seq<char>) -> Option<icalendar::Calendar>;

/// The components of an `icalendar` calendar, in order: the todo for a todo
/// component, `None` for any other.
pub uninterp spec fn components_of(c: icalendar::Calendar) -> Seq<Option<icalendar::Todo>>;

/// The UID that `icalendar` reads from a todo.
pub uninterp spec fn uid_of(t: icalendar::Todo) -> Option<String>;

/// The summary that `icalendar` reads from a todo.
pub uninterp spec fn summary_of(t: icalendar::Todo) -> Option<String>;

/// The due value that `icalendar` reads from a todo, in chrono's day and second counts.
pub uninterp spec fn due_of(t: icalendar::Todo) -> Option<DueDate>;

/// The priority that `icalendar` reads from a todo.
pub uninterp spec fn priority_of(t: icalendar::Todo) -> Option<u32>;

/// The completion instant that `icalendar` reads from a todo, in seconds since the epoch.
pub uninterp spec fn completed_of(t: icalendar::Todo) -> Option<i64>;

/// The percent-complete value that `icalendar` reads from a todo.
pub uninterp spec fn percent_of(t: icalendar::Todo) -> Option<u8>;

/// The typed fields of one todo.
pub open spec fn info_of(t: icalendar::Todo) -> TodoInfo {
    TodoInfo {
        uid: uid_of(t),
        summary: summary_of(t),
        due: due_of(t),
        priority: priority_of(t),
        completed: completed_of(t),
        percent_complete: percent_of(t),
    }
}

/// The typed fields of the todo components among `comps`, in order.
pub open spec fn todos_in(comps: Seq<Option<icalendar::Todo>>) -> Seq<TodoInfo>
    decreases comps.len(),
{
    if comps.len() == 0 {
        Seq::empty()
    } else {
        todos_in(comps.drop_last()) + match comps.last() {
            Some(t) => seq![info_of(t)],
            None => Seq::empty(),
        }
    }
}

/// The todos, in order, of the calendar that `icalendar` parses from `text`,
/// or `None` where it rejects the text.
pub open spec fn query_of(text: Seq<char>) -> Option<Seq<TodoInfo>> {
    match calendar_of(text) {
        Some(c) => Some(todos_in(components_of(c))),
        None => None,
    }
}

/// The typed fields of the first component of a calendar, where it is a todo.
pub open spec fn first_component_todo(c: icalendar::Calendar) -> Option<TodoInfo> {
    if components_of(c).len() > 0 && components_of(c)[0] is Some {
        Some(info_of(components_of(c)[0]->Some_0))
    } else {
        None
    }
}

/// The text that chrono formats for the UTC instant `seconds` with pattern
/// `fmt`, or `None` where the instant is out of chrono's range or the pattern
/// holds a specifier that chrono rejects.
pub uninterp spec fn utc_formatted(seconds: i64, fmt: Seq<char>) -> Option<Seq<char>>;

/// Relies on `ical::IcalParser`: the last calendar that it reads from the text.
#[verifier::external_body]
pub(crate) fn parse_editable(text: &str) -> (r: Option<ical::parser::ical::component::IcalCalendar>)
    ensures
        r == editable_of(text@),
{
    match ical::IcalParser::new(text.as_bytes()).last() {
        Some(Ok(c)) => Some(c),
        _ => None,
    }
}

/// Relies on the `todos` field of `ical`'s calendar: its number of todos.
#[verifier::external_body]
pub(crate) fn todo_count(c: &ical::parser::ical::component::IcalCalendar) -> (r: usize)
    ensures
        r == todo_properties(*c).len(),
{
    c.todos.len()
}

/// Relies on the `todos` field of `ical`'s calendar: a copy of the properties
/// of todo `i`.
#[verifier::external_body]
pub(crate) fn todo_properties_at(c: &ical::parser::ical::component::IcalCalendar, i: usize) -> (r: Vec<Property>)
    requires
        i < todo_properties(*c).len(),
    ensures
        props_view(r@) == todo_properties(*c)[i as int],
{
    c.todos[i].properties.iter().map(|p| Property { name: p.name.clone(), params: p.params.clone(), value: p.value.clone() }).collect()
}

/// Relies on the `todos` field of `ical`'s calendar: replaces the properties of
/// its first todo, if it has one, and changes nothing else.
#[verifier::external_body]
pub(crate) fn set_first_todo_properties(
    c: &mut ical::parser::ical::component::IcalCalendar,
    props: Vec<Property>,
)
    ensures
        todo_properties(*final(c)) == if todo_properties(*old(c)).len() > 0 {
            todo_properties(*old(c)).update(0, props_view(props@))
        } else {
            todo_properties(*old(c))
        },
        calendar_rest(*final(c)) == calendar_rest(*old(c)),
        alarm_params(*final(c)) == alarm_params(*old(c)),
        other_params(*final(c)) == other_params(*old(c)),
{
    if let Some(t) = c.todos.first_mut() {
        t.properties = props.into_iter().map(|p| ical::property::Property { name: p.name, params: p.params, value: p.value }).collect();
    }
}

/// Relies on the `alarms` fields of `ical`'s calendar, events and todos: the
/// values of the parameters of their properties.
#[verifier::external_body]
fn alarm_param_values(c: &ical::parser::ical::component::IcalCalendar) -> (r: Vec<String>)
    ensures
        strings_view(r@) == alarm_params(*c),
{
    c.alarms.iter().chain(c.events.iter().flat_map(|e| &e.alarms)).chain(c.todos.iter().flat_map(|t| &t.alarms))
        .flat_map(|a| &a.properties).flat_map(|p| p.params.iter().flatten()).flat_map(|(_, vs)| vs.iter().cloned()).collect()
}

/// Relies on the `properties`, `events`, `journals`, `free_busys` and
/// `timezones` fields of `ical`'s calendar: the values of the parameters of
/// those properties.
#[verifier::external_body]
fn other_param_values(c: &ical::parser::ical::component::IcalCalendar) -> (r: Vec<String>)
    ensures
        strings_view(r@) == other_params(*c),
{
    c.properties.iter().chain(c.events.iter().flat_map(|e| &e.properties)).chain(c.journals.iter().flat_map(|j| &j.properties))
        .chain(c.free_busys.iter().flat_map(|f| &f.properties))
        .chain(c.timezones.iter().flat_map(|z| z.properties.iter().chain(z.transitions.iter().flat_map(|t| &t.properties))))
        .flat_map(|p| p.params.iter().flatten()).flat_map(|(_, vs)| vs.iter().cloned()).collect()
}

/// The character sequences of a list of strings.
pub open spec fn strings_view(v: Seq<String>) -> Seq<Seq<char>> {
    v.map_values(|s: String| s@)
}

fn all_values_safe(vs: &Vec<String>) -> (r: bool)
    ensures
        r == forall|i: int| 0 <= i < vs@.len() ==> param_value_safe(#[trigger] strings_view(vs@)[i]),
{
    let mut i: usize = 0;
    while i < vs.len()
        invariant
            0 <= i <= vs@.len(),
            forall|a: int| 0 <= a < i ==> param_value_safe(#[trigger] strings_view(vs@)[a]),
        decreases vs@.len() - i,
    {
        if !is_param_value_safe(&vs[i]) {
            assert(!param_value_safe(strings_view(vs@)[i as int]));
            return false;
        }
        i = i + 1;
    }
    true
}

/// Whether the `ical` generator can write the calendar: see `generation_safe`.
pub(crate) fn is_generation_safe(c: &ical::parser::ical::component::IcalCalendar) -> (r: bool)
    ensures
        r == generation_safe(*c),
{
    let alarms = alarm_param_values(c);
    if !all_values_safe(&alarms) {
        return false;
    }
    let others = other_param_values(c);
    if !all_values_safe(&others) {
        return false;
    }
    let n = todo_count(c);
    let mut i: usize = 0;
    while i < n
        invariant
            0 <= i <= n,
            n == todo_properties(*c).len(),
            forall|a: int| 0 <= a < i ==> props_safe(#[trigger] todo_properties(*c)[a]),
        decreases n - i,
    {
        let props = todo_properties_at(c, i);
        if !are_props_safe(&props) {
            return false;
        }
        i = i + 1;
    }
    true
}

/// Relies on `ical::generator::Emitter::generate` for a calendar, which
/// panics on an empty parameter value and on some non-ASCII ones.
#[verifier::external_body]
pub(crate) fn generate_text(c: &ical::parser::ical::component::IcalCalendar) -> (r: String)
    requires
        generation_safe(*c),
    ensures
        r@ == ical_text(*c),
{
    c.generate()
}

/// Relies on `icalendar`'s `FromStr` for `Calendar`.
#[verifier::external_body]
pub(crate) fn parse_calendar(text: &str) -> (r: Option<icalendar::Calendar>)
    ensures
        r == calendar_of(text@),
{
    text.parse().ok()
}

/// Relies on the `components` field of `icalendar`'s calendar: their number.
#[verifier::external_body]
pub(crate) fn component_count(c: &icalendar::Calendar) -> (r: usize)
    ensures
        r == components_of(*c).len(),
{
    c.components.len()
}

/// Relies on `icalendar::CalendarComponent::as_todo` for component `i`.
#[verifier::external_body]
pub(crate) fn component_todo(c: &icalendar::Calendar, i: usize) -> (r: Option<&icalendar::Todo>)
    requires
        i < components_of(*c).len(),
    ensures
        match r {
            Some(t) => components_of(*c)[i as int] == Some(*t),
            None => components_of(*c)[i as int] is None,
        },
{
    c.components[i].as_todo()
}

/// Relies on `icalendar::Component::get_uid`.
#[verifier::external_body]
fn todo_uid(t: &icalendar::Todo) -> (r: Option<String>)
    ensures
        r == uid_of(*t),
{
    t.get_uid().map(|s| s.to_owned())
}

/// Relies on `icalendar::Component::get_summary`.
#[verifier::external_body]
fn todo_summary(t: &icalendar::Todo) -> (r: Option<String>)
    ensures
        r == summary_of(*t),
{
    t.get_summary().map(|s| s.to_owned())
}

/// Relies on `icalendar::Component::get_priority`, which gives only values up to 10.
#[verifier::external_body]
fn todo_priority(t: &icalendar::Todo) -> (r: Option<u32>)
    ensures
        r == priority_of(*t),
        r matches Some(p) ==> p <= 10,
{
    t.get_priority()
}

/// Relies on `icalendar::Todo::get_completed`, as seconds since the epoch.
#[verifier::external_body]
fn todo_completed(t: &icalendar::Todo) -> (r: Option<i64>)
    ensures
        r == completed_of(*t),
{
    t.get_completed().map(|c| c.timestamp())
}

/// Relies on `icalendar::Todo::get_percent_complete`.
#[verifier::external_body]
fn todo_percent_complete(t: &icalendar::Todo) -> (r: Option<u8>)
    ensures
        r == percent_of(*t),
{
    t.get_percent_complete()
}

/// Relies on `icalendar::Todo::get_due`, with chrono's day and second counts.
#[verifier::external_body]
fn todo_due(t: &icalendar::Todo) -> (r: Option<DueDate>)
    ensures
        r == due_of(*t),
{
    Some(match t.get_due()? {
        D::Date(d) => DueDate::Date { days_from_ce: d.num_days_from_ce() },
        D::DateTime(C::Floating(n)) => DueDate::Floating { seconds: n.and_utc().timestamp() },
        D::DateTime(C::Utc(u)) => DueDate::Utc { seconds: u.timestamp() },
        D::DateTime(C::WithTimezone { date_time, tzid }) => DueDate::WithTimezone { date_time: date_time.and_utc().timestamp(), tzid },
    })
}

/// The typed fields of one `icalendar` todo.
pub(crate) fn todo_info(t: &icalendar::Todo) -> (r: TodoInfo)
    ensures
        r == info_of(*t),
{
    TodoInfo {
        uid: todo_uid(t),
        summary: todo_summary(t),
        due: todo_due(t),
        priority: todo_priority(t),
        completed: todo_completed(t),
        percent_complete: todo_percent_complete(t),
    }
}

/// The typed fields of the todo components of a calendar, in order.
pub(crate) fn query_todos(c: &icalendar::Calendar) -> (r: Vec<TodoInfo>)
    ensures
        r@ == todos_in(components_of(*c)),
{
    let n = component_count(c);
    let ghost comps = components_of(*c);
    let mut r: Vec<TodoInfo> = Vec::new();
    let mut i: usize = 0;
    while i < n
        invariant
            0 <= i <= n,
            n == comps.len(),
            comps == components_of(*c),
            r@ == todos_in(comps.take(i as int)),
        decreases n - i,
    {
        assert(comps.take(i as int + 1).drop_last() =~= comps.take(i as int));
        match component_todo(c, i) {
            Some(t) => {
                let info = todo_info(t);
                r.push(info);
                assert(r@ =~= todos_in(comps.take(i as int)) + seq![info_of(*t)]);
            },
            None => {
                assert(todos_in(comps.take(i as int)) =~= todos_in(comps.take(i as int))
                    + Seq::<TodoInfo>::empty());
            },
        }
        i = i + 1;
    }
    assert(comps.take(n as int) =~= comps);
    r
}

/// The calendar that `icalendar` parses from `text` and its todos, in order.
pub(crate) fn parse_query(text: &str) -> (r: Option<(icalendar::Calendar, Vec<TodoInfo>)>)
    ensures
        match r {
            Some((c, v)) => calendar_of(text@) == Some(c) && query_of(text@) == Some(v@),
            None => calendar_of(text@) is None && query_of(text@) is None,
        },
{
    match parse_calendar(text) {
        Some(c) => {
            let todos = query_todos(&c);
            Some((c, todos))
        },
        None => None,
    }
}

/// The typed fields of the first component of a calendar, where it is a todo.
pub(crate) fn first_todo_of(c: &icalendar::Calendar) -> (r: Option<TodoInfo>)
    ensures
        r == first_component_todo(*c),
{
    if component_count(c) == 0 {
        return None;
    }
    match component_todo(c, 0) {
        Some(t) => Some(todo_info(t)),
        None => None,
    }
}

/// Relies on chrono's `DateTime::from_timestamp` and `format` in UTC; a
/// formatting error is returned as `None`.
#[verifier::external_body]
pub(crate) fn format_utc(seconds: i64, fmt: &str) -> (r: Option<String>)
    ensures
        match r {
            Some(s) => utc_formatted(seconds, fmt@) == Some(s@),
            None => utc_formatted(seconds, fmt@) is None,
        },
{
    let mut out = String::new();
    match write!(out, "{}", chrono::DateTime::from_timestamp(seconds, 0)?.format(fmt)) {
        Ok(()) => Some(out),
        Err(_) => None,
    }
}

/// Relies on `chrono::Utc::now`, in seconds since the epoch.
#[verifier::external_body]
pub(crate) fn utc_now() -> i64 {
    chrono::Utc::now().timestamp()
}

} // verus!
