//! The query form of a todo and the aggregated view entry that tags it with
//! its calendar.
use vstd::prelude::*;
use crate::helper::DueDate;

verus! {

/// A colour as red, green and blue channels.
#[derive(Clone, Copy, Debug, PartialEq, Eq, Structural)]
pub struct Rgb {
    pub red: u8,
    pub green: u8,
    pub blue: u8,
}

/// The typed fields of one todo, as read from its calendar text.
#[derive(Clone, Debug, PartialEq, Eq)]
pub struct TodoInfo {
    pub uid: Option<String>,
    pub summary: Option<String>,
    pub due: Option<DueDate>,
    /// Priority from 0 to 10; 1 is the most urgent.
    pub priority: Option<u32>,
    /// Completion instant, in seconds since the epoch (UTC).
    pub completed: Option<i64>,
    pub percent_complete: Option<u8>,
}

/// One entry of the aggregated list: a todo with its calendar's name and
/// colour and the identifier of the item that holds it.
#[derive(Clone, Copy, Debug)]
pub struct IsekTodo<'a> {
    pub calendar_name: &'a String,
    pub color: &'a Rgb,
    pub item_id: &'a String,
    pub data: &'a TodoInfo,
}

/// What an aggregated entry holds.
pub ghost struct IsekTodoView {
    pub calendar_name: Seq<char>,
    pub color: Rgb,
    pub item_id: Seq<char>,
    pub data: TodoInfo,
}

impl<'a> View for IsekTodo<'a> {
    type V = IsekTodoView;

    open spec fn view(&self) -> IsekTodoView {
        IsekTodoView {
            calendar_name: self.calendar_name@,
            color: *self.color,
            item_id: self.item_id@,
            data: *self.data,
        }
    }
}

/// The views of a list of aggregated entries.
pub open spec fn todos_view<'a>(ts: Seq<IsekTodo<'a>>) -> Seq<IsekTodoView> {
    ts.map_values(|t: IsekTodo<'a>| t@)
}

impl<'a> IsekTodo<'a> {
    /// The todo itself.
    pub fn get(&self) -> (r: &'a TodoInfo)
        ensures
            *r == *self.data,
    {
        self.data
    }
}

} // verus!
