//! One calendar loaded from a VDIR directory: its items, each held in an
//! editable and a query form, and the completion toggle on them.
use vstd::prelude::*;
use vstd::string::*;
use crate::config::CalendarConfig;
use crate::ics::{
    calendar_of, components_of, first_component_todo, first_todo_of, todos_in, editable_of, format_utc, generate_text, generation_safe, is_generation_safe, todo_properties_at, utc_formatted, calendar_rest, ical_text, parse_editable,
    parse_query, query_of, set_first_todo_properties, todo_count, todo_properties, utc_now,
};
use crate::props::{
    is_completed, is_marked_completed, lemma_toggle_params, props_view, toggle_properties, toggled,
};
use crate::todo::{todos_view, IsekTodo, IsekTodoView, Rgb, TodoInfo};

verus! {

/// Pattern of the completion timestamp written into a todo.
pub const ICAL_UTC_DATE_TIME_FORMAT: &'static str = "%Y%m%dT%H%M%SZ";

/// `stamp` is the completion timestamp that chrono writes for some instant.
pub open spec fn clock_stamp(stamp: Seq<char>) -> bool {
    exists|now: i64| utc_formatted(now, ICAL_UTC_DATE_TIME_FORMAT@) == Some(stamp)
}

/// One `.ics` file of a calendar: its identifier (the file name without
/// `.ics`), its editable form and the todos of its query form.
pub struct CalItem {
    pub id: String,
    pub ical: ical::parser::ical::component::IcalCalendar,
    pub query: icalendar::Calendar,
    pub todos: Vec<TodoInfo>,
}

/// What an item holds.
pub ghost struct CalItemView {
    pub id: Seq<char>,
    pub ical: ical::parser::ical::component::IcalCalendar,
    pub query: icalendar::Calendar,
    pub todos: Seq<TodoInfo>,
}

impl View for CalItem {
    type V = CalItemView;

    open spec fn view(&self) -> CalItemView {
        CalItemView { id: self.id@, ical: self.ical, query: self.query, todos: self.todos@ }
    }
}

/// The views of a list of items.
pub open spec fn items_view(s: Seq<CalItem>) -> Seq<CalItemView> {
    s.map_values(|x: CalItem| x@)
}

/// `c` is one of `lower` and `upper`.
pub open spec fn either(c: char, lower: char, upper: char) -> bool {
    c == lower || c == upper
}

/// The file name has a non-empty stem and the extension `ics`, in any case.
pub open spec fn has_ics_extension(n: Seq<char>) -> bool {
    &&& n.len() >= 5
    &&& n[n.len() - 4] == '.'
    &&& either(n[n.len() - 3], 'i', 'I')
    &&& either(n[n.len() - 2], 'c', 'C')
    &&& either(n[n.len() - 1], 's', 'S')
}

/// The identifier of an item: its file name without its `ics` extension
/// (in whatever case), i.e. without the last four characters.
pub open spec fn item_id(n: Seq<char>) -> Seq<char> {
    if has_ics_extension(n) {
        n.subrange(0, n.len() - 4)
    } else {
        n
    }
}

/// The item that a file yields: one whose name has the extension `ics`, that
/// both parsers accept and whose editable form holds at least one todo.
pub open spec fn loaded(file_name: Seq<char>, text: Seq<char>) -> Option<CalItemView> {
    if !has_ics_extension(file_name) {
        None
    } else {
        match editable_of(text) {
            None => None,
            Some(e) => if todo_properties(e).len() == 0 {
                None
            } else {
                match calendar_of(text) {
                    None => None,
                    Some(q) => Some(
                        CalItemView {
                            id: item_id(file_name),
                            ical: e,
                            query: q,
                            todos: todos_in(components_of(q)),
                        },
                    ),
                }
            },
        }
    }
}

/// Index of the first item with identifier `id`, or -1.
pub open spec fn find_id(items: Seq<CalItemView>, id: Seq<char>) -> int
    decreases items.len(),
{
    if items.len() == 0 {
        -1
    } else if items[0].id == id {
        0
    } else {
        let k = find_id(items.drop_first(), id);
        if k < 0 {
            -1
        } else {
            k + 1
        }
    }
}

/// No two items share an identifier.
pub open spec fn ids_unique(items: Seq<CalItemView>) -> bool {
    forall|i: int, j: int|
        0 <= i < items.len() && 0 <= j < items.len() && items[i].id == items[j].id ==> i == j
}

/// Every item's todos are those of its query form.
pub open spec fn queries_match(items: Seq<CalItemView>) -> bool {
    forall|i: int| 0 <= i < items.len() ==> (#[trigger] items[i]).todos == todos_in(components_of(items[i].query))
}

/// The items with `x` stored under its identifier, replacing an item with the
/// same identifier.
pub open spec fn upsert(items: Seq<CalItemView>, x: CalItemView) -> Seq<CalItemView> {
    let k = find_id(items, x.id);
    if k >= 0 {
        items.update(k, x)
    } else {
        items.push(x)
    }
}

/// The items that a list of (file name, text) pairs yields, in order, a later
/// file replacing an earlier one with the same identifier.
pub open spec fn load_all(files: Seq<(Seq<char>, Seq<char>)>) -> Seq<CalItemView>
    decreases files.len(),
{
    if files.len() == 0 {
        Seq::empty()
    } else {
        let acc = load_all(files.drop_last());
        match loaded(files.last().0, files.last().1) {
            Some(x) => upsert(acc, x),
            None => acc,
        }
    }
}

/// The (name, text) views of a list of file pairs.
pub open spec fn files_view(files: Seq<(String, String)>) -> Seq<(Seq<char>, Seq<char>)> {
    files.map_values(|f: (String, String)| (f.0@, f.1@))
}

proof fn lemma_find_id(items: Seq<CalItemView>, id: Seq<char>)
    ensures
        find_id(items, id) < 0 <==> forall|i: int| 0 <= i < items.len() ==> items[i].id != id,
        find_id(items, id) >= 0 ==> {
            let k = find_id(items, id);
            &&& 0 <= k < items.len()
            &&& items[k].id == id
            &&& forall|j: int| 0 <= j < k ==> items[j].id != id
        },
    decreases items.len(),
{
    if items.len() > 0 && items[0].id != id {
        lemma_find_id(items.drop_first(), id);
        assert forall|i: int| 0 < i < items.len() implies items[i] == items.drop_first()[i - 1] by {}
    }
}

proof fn lemma_upsert_unique(items: Seq<CalItemView>, x: CalItemView)
    requires
        ids_unique(items),
        queries_match(items),
        x.todos == todos_in(components_of(x.query)),
    ensures
        ids_unique(upsert(items, x)),
        queries_match(upsert(items, x)),
{
    lemma_find_id(items, x.id);
}

/// A file whose calendar holds no todo adds no item, whatever files came before.
pub proof fn lemma_todo_free_file_skipped(
    files: Seq<(Seq<char>, Seq<char>)>,
    file_name: Seq<char>,
    text: Seq<char>,
)
    requires
        editable_of(text) matches Some(e) && todo_properties(e).len() == 0,
    ensures
        load_all(files.push((file_name, text))) == load_all(files),
{
    assert(files.push((file_name, text)).drop_last() =~= files);
}

/// A file that yields an item adds it under its identifier.
pub proof fn lemma_todo_file_loaded(
    files: Seq<(Seq<char>, Seq<char>)>,
    file_name: Seq<char>,
    text: Seq<char>,
)
    requires
        loaded(file_name, text) is Some,
    ensures
        load_all(files.push((file_name, text))) == upsert(
            load_all(files),
            loaded(file_name, text)->Some_0,
        ),
{
    assert(files.push((file_name, text)).drop_last() =~= files);
}

/// A directory with one file whose calendar holds no todo and one file that
/// yields an item, in either order, loads exactly one item.
pub proof fn lemma_one_item_of_two_files(
    skipped: (Seq<char>, Seq<char>),
    kept: (Seq<char>, Seq<char>),
)
    requires
        editable_of(skipped.1) matches Some(e) && todo_properties(e).len() == 0,
        loaded(kept.0, kept.1) is Some,
    ensures
        load_all(seq![skipped, kept]).len() == 1,
        load_all(seq![kept, skipped]).len() == 1,
{
    let empty = Seq::<(Seq<char>, Seq<char>)>::empty();
    let x = loaded(kept.0, kept.1)->Some_0;
    lemma_todo_free_file_skipped(empty, skipped.0, skipped.1);
    assert(empty.push(skipped) =~= seq![skipped]);
    lemma_todo_file_loaded(seq![skipped], kept.0, kept.1);
    assert(seq![skipped].push(kept) =~= seq![skipped, kept]);
    assert(find_id(Seq::<CalItemView>::empty(), x.id) == -1);
    lemma_todo_file_loaded(empty, kept.0, kept.1);
    assert(empty.push(kept) =~= seq![kept]);
    assert(load_all(seq![kept]) =~= seq![x]);
    lemma_todo_free_file_skipped(seq![kept], skipped.0, skipped.1);
    assert(seq![kept].push(skipped) =~= seq![kept, skipped]);
}

/// Whether the file name has a non-empty stem and the extension `ics`, in any case.
pub fn is_ics_file_name(file_name: &str) -> (r: bool)
    ensures
        r == has_ics_extension(file_name@),
{
    let n = file_name.unicode_len();
    if n < 5 {
        return false;
    }
    let dot = file_name.get_char(n - 4);
    let i = file_name.get_char(n - 3);
    let c = file_name.get_char(n - 2);
    let s = file_name.get_char(n - 1);
    dot == '.' && (i == 'i' || i == 'I') && (c == 'c' || c == 'C') && (s == 's' || s == 'S')
}

fn strip_ics(file_name: &str) -> (r: String)
    ensures
        r@ == item_id(file_name@),
{
    if is_ics_file_name(file_name) {
        let n = file_name.unicode_len();
        file_name.substring_char(0, n - 4).to_owned()
    } else {
        file_name.to_owned()
    }
}

/// Why a file does or does not become an item.
#[derive(Clone, Copy, Debug, PartialEq, Eq, Structural)]
pub enum FileStatus {
    /// The name does not have the extension `ics`.
    NotIcs,
    /// The `ical` parser rejects the text.
    EditableInvalid,
    /// The calendar holds no todo; such files are skipped silently.
    NoTodos,
    /// `icalendar` rejects the text.
    QueryInvalid,
    /// The file becomes an item.
    Loaded,
}

/// The status of a file, in the order in which `loaded` decides it.
pub open spec fn status_of(file_name: Seq<char>, text: Seq<char>) -> FileStatus {
    if !has_ics_extension(file_name) {
        FileStatus::NotIcs
    } else {
        match editable_of(text) {
            None => FileStatus::EditableInvalid,
            Some(e) => if todo_properties(e).len() == 0 {
                FileStatus::NoTodos
            } else if query_of(text) is None {
                FileStatus::QueryInvalid
            } else {
                FileStatus::Loaded
            },
        }
    }
}

/// Tells why a file does or does not become an item, for reporting.
pub fn file_status(file_name: &str, text: &str) -> (r: FileStatus)
    ensures
        r == status_of(file_name@, text@),
        (r == FileStatus::Loaded) == (loaded(file_name@, text@) is Some),
{
    if !is_ics_file_name(file_name) {
        return FileStatus::NotIcs;
    }
    let ical = match parse_editable(text) {
        Some(c) => c,
        None => return FileStatus::EditableInvalid,
    };
    if todo_count(&ical) == 0 {
        return FileStatus::NoTodos;
    }
    match parse_query(text) {
        Some(_) => FileStatus::Loaded,
        None => FileStatus::QueryInvalid,
    }
}

/// The item that one file yields, if any: see `loaded`.
pub fn load_item(file_name: &str, text: &str) -> (r: Option<CalItem>)
    ensures
        match r {
            Some(x) => loaded(file_name@, text@) == Some(x@),
            None => loaded(file_name@, text@) is None,
        },
{
    if !is_ics_file_name(file_name) {
        return None;
    }
    let ical = match parse_editable(text) {
        Some(c) => c,
        None => return None,
    };
    if todo_count(&ical) == 0 {
        return None;
    }
    let (query, todos) = match parse_query(text) {
        Some(q) => q,
        None => return None,
    };
    Some(CalItem { id: strip_ics(file_name), ical, query, todos })
}

/// A calendar: its configuration, display name, colour and items.
pub struct IsekCalendar {
    pub config: CalendarConfig,
    pub name: String,
    pub color: Rgb,
    pub items: Vec<CalItem>,
}

/// The entries that a calendar contributes to the aggregated list: the todos
/// of each item in turn, tagged with the calendar's name and colour.
pub open spec fn calendar_entries(name: Seq<char>, color: Rgb, items: Seq<CalItemView>) -> Seq<
    IsekTodoView,
>
    decreases items.len(),
{
    if items.len() == 0 {
        Seq::empty()
    } else {
        calendar_entries(name, color, items.drop_last()) + items.last().todos.map_values(
            |t: TodoInfo| IsekTodoView { calendar_name: name, color, item_id: items.last().id, data: t },
        )
    }
}

/// The item `f` is the item `o` after one completion toggle with timestamp
/// `stamp`: the first todo's properties are toggled, the rest of the editable
/// form stays as it was, and the query form is re-read from the text generated
/// for the edited calendar where that text parses (`refreshed`), else kept.
pub open spec fn toggled_item(o: CalItemView, f: CalItemView, stamp: Seq<char>, refreshed: bool) -> bool {
    &&& f.id == o.id
    &&& todo_properties(o.ical).len() > 0
    &&& calendar_rest(f.ical) == calendar_rest(o.ical)
    &&& todo_properties(f.ical) == todo_properties(o.ical).update(
        0,
        toggled(todo_properties(o.ical)[0], stamp),
    )
    &&& refreshed <==> calendar_of(ical_text(f.ical)) is Some
    &&& refreshed ==> calendar_of(ical_text(f.ical)) == Some(f.query) && f.todos == todos_in(
        components_of(f.query),
    )
    &&& !refreshed ==> f.query == o.query && f.todos == o.todos
}

impl IsekCalendar {
    /// The items of the calendar.
    pub open spec fn items_spec(&self) -> Seq<CalItemView> {
        items_view(self.items@)
    }

    /// Item identifiers are unique, and each item's todos are those of its
    /// query form.
    pub open spec fn wf(&self) -> bool {
        ids_unique(self.items_spec()) && queries_match(self.items_spec())
    }

    /// Builds a calendar from the files of its directory, given as (file name,
    /// text) pairs: each file that `loaded` accepts becomes an item, a later one
    /// replacing an earlier one with the same identifier; the others are skipped.
    pub fn from_config(config: CalendarConfig, name: String, color: Rgb, files: Vec<(String, String)>) -> (r: Self)
        ensures
            r.wf(),
            r.config == config,
            r.name == name,
            r.color == color,
            r.items_spec() == load_all(files_view(files@)),
    {
        let mut items: Vec<CalItem> = Vec::new();
        let mut i: usize = 0;
        while i < files.len()
            invariant
                0 <= i <= files@.len(),
                items_view(items@) == load_all(files_view(files@).take(i as int)),
                ids_unique(items_view(items@)),
                queries_match(items_view(items@)),
            decreases files@.len() - i,
        {
            let ghost fv = files_view(files@).take(i as int + 1);
            assert(fv.drop_last() =~= files_view(files@).take(i as int));
            match load_item(files[i].0.as_str(), files[i].1.as_str()) {
                Some(x) => {
                    let ghost before = items_view(items@);
                    proof {
                        lemma_find_id(before, x@.id);
                        lemma_upsert_unique(before, x@);
                    }
                    match find_item(&items, &x.id) {
                        Some(k) => {
                            items.remove(k);
                            items.insert(k, x);
                            assert(items_view(items@) =~= before.update(k as int, x@));
                        },
                        None => {
                            items.push(x);
                            assert(items_view(items@) =~= before.push(x@));
                        },
                    }
                },
                None => {},
            }
            i = i + 1;
        }
        assert(files_view(files@).take(files@.len() as int) =~= files_view(files@));
        IsekCalendar { config, name, color, items }
    }

    /// The todos of every item, each tagged with this calendar's name and colour.
    pub fn get_todos(&self) -> (r: Vec<IsekTodo<'_>>)
        ensures
            todos_view(r@) == calendar_entries(self.name@, self.color, self.items_spec()),
    {
        let mut r: Vec<IsekTodo<'_>> = Vec::new();
        let mut k: usize = 0;
        while k < self.items.len()
            invariant
                0 <= k <= self.items@.len(),
                todos_view(r@) == calendar_entries(
                    self.name@,
                    self.color,
                    self.items_spec().take(k as int),
                ),
            decreases self.items@.len() - k,
        {
            let item = &self.items[k];
            let ghost start = todos_view(r@);
            let mut j: usize = 0;
            while j < item.todos.len()
                invariant
                    0 <= j <= item.todos@.len(),
                    todos_view(r@) == start + item.todos@.take(j as int).map_values(
                        |t: TodoInfo|
                            IsekTodoView {
                                calendar_name: self.name@,
                                color: self.color,
                                item_id: item.id@,
                                data: t,
                            },
                    ),
                decreases item.todos@.len() - j,
            {
                let ghost before = todos_view(r@);
                r.push(
                    IsekTodo {
                        calendar_name: &self.name,
                        color: &self.color,
                        item_id: &item.id,
                        data: &item.todos[j],
                    },
                );
                assert(todos_view(r@) =~= before.push(
                    IsekTodoView {
                        calendar_name: self.name@,
                        color: self.color,
                        item_id: item.id@,
                        data: item.todos@[j as int],
                    },
                ));
                assert(item.todos@.take(j as int + 1) =~= item.todos@.take(j as int).push(item.todos@[j as int]));
                j = j + 1;
            }
            assert(item.todos@.take(item.todos@.len() as int) =~= item.todos@);
            assert(self.items_spec().take(k as int + 1).drop_last() =~= self.items_spec().take(k as int));
            k = k + 1;
        }
        assert(self.items_spec().take(self.items@.len() as int) =~= self.items_spec());
        r
    }
}

/// The items `f` are the items `o` after toggling item `id` with timestamp
/// `stamp`, with result `r`: an unknown identifier, an item without a todo, or
/// an item that the `ical` generator cannot write back, leaves the items as
/// they are and gives `None`; otherwise only that item
/// changes, as `toggled_item` says, and the result is `Some` exactly where its
/// query form was re-read.
pub open spec fn toggle_outcome(
    o: Seq<CalItemView>,
    f: Seq<CalItemView>,
    id: Seq<char>,
    stamp: Seq<char>,
    r: Option<()>,
) -> bool {
    let k = find_id(o, id);
    if k < 0 || todo_properties(o[k].ical).len() == 0 || !generation_safe(o[k].ical) {
        r is None && f == o
    } else {
        &&& f.len() == o.len()
        &&& forall|j: int| 0 <= j < o.len() && j != k ==> f[j] == o[j]
        &&& toggled_item(o[k], f[k], stamp, r is Some)
    }
}

/// Item `id` exists and its first todo is marked completed.
pub open spec fn first_completed(o: Seq<CalItemView>, id: Seq<char>) -> bool {
    let k = find_id(o, id);
    k >= 0 && todo_properties(o[k].ical).len() > 0 && is_completed(todo_properties(o[k].ical)[0])
}

/// The items `f` are the items `o` after toggling item `id` at the current
/// time, with result `r`. Un-completing needs no timestamp and is a toggle
/// as `toggle_outcome` says; completing records a timestamp that chrono
/// formatted from a clock reading, or changes nothing where the clock could
/// not be formatted.
pub open spec fn toggled_now(o: Seq<CalItemView>, f: Seq<CalItemView>, id: Seq<char>, r: Option<()>) -> bool {
    if first_completed(o, id) {
        toggle_outcome(o, f, id, Seq::empty(), r)
    } else {
        (r is None && f == o) || exists|stamp: Seq<char>|
            clock_stamp(stamp) && toggle_outcome(o, f, id, stamp, r)
    }
}

impl IsekCalendar {
    /// Toggles the completion of item `id`, recording `stamp` as the completion
    /// timestamp where it becomes completed, and re-reads its query form from
    /// the regenerated text. Nothing is written to disk.
    pub fn toggle_done_at(&mut self, id: &str, stamp: String) -> (r: Option<()>)
        requires
            old(self).wf(),
        ensures
            final(self).wf(),
            final(self).config == old(self).config,
            final(self).name == old(self).name,
            final(self).color == old(self).color,
            toggle_outcome(old(self).items_spec(), final(self).items_spec(), id@, stamp@, r),
    {
        let key = id.to_owned();
        let ghost o = self.items_spec();
        proof {
            lemma_find_id(o, id@);
        }
        let k = match find_item(&self.items, &key) {
            Some(k) => k,
            None => return None,
        };
        if todo_count(&self.items[k].ical) == 0 || !is_generation_safe(&self.items[k].ical) {
            return None;
        }
        let mut props = todo_properties_at(&self.items[k].ical, 0);
        let mut item = self.items.remove(k);
        assert(item@ == o[k as int]);
        let ghost before = props_view(props@);
        let ghost st = stamp@;
        toggle_properties(&mut props, stamp);
        set_first_todo_properties(&mut item.ical, props);
        proof {
            assert(generation_safe(o[k as int].ical));
            assert(crate::props::props_safe(todo_properties(o[k as int].ical)[0]));
            lemma_toggle_params(before, st);
            let tp = todo_properties(item.ical);
            assert forall|i: int| 0 <= i < tp.len() implies crate::props::props_safe(#[trigger] tp[i]) by {
                if i == 0 {
                } else {
                    assert(tp[i] == todo_properties(o[k as int].ical)[i]);
                }
            }
            assert(generation_safe(item.ical));
        }
        let text = generate_text(&item.ical);
        let r = match parse_query(text.as_str()) {
            Some((query, todos)) => {
                item.query = query;
                item.todos = todos;
                Some(())
            },
            None => None,
        };
        self.items.insert(k, item);
        proof {
            let f = self.items_spec();
            assert(f.len() == o.len());
            assert forall|j: int| 0 <= j < o.len() && j != k implies f[j] == o[j] by {}
            assert(f[k as int] == item@);
            assert forall|i: int, j: int|
                0 <= i < f.len() && 0 <= j < f.len() && f[i].id == f[j].id implies i == j by {
                if i != k && j != k {
                    assert(o[i].id == o[j].id);
                } else if i == k && j != k {
                    assert(o[k as int].id == o[j].id);
                } else if j == k && i != k {
                    assert(o[k as int].id == o[i].id);
                }
            }
            assert forall|j: int| 0 <= j < f.len() implies (#[trigger] f[j]).todos == todos_in(
                components_of(f[j].query),
            ) by {
                if j != k {
                    assert(f[j] == o[j]);
                } else {
                    assert(o[k as int].todos == todos_in(components_of(o[k as int].query)));
                }
            }
        }
        r
    }

    /// Whether item `id` exists and its first todo is marked completed.
    fn first_todo_completed(&self, id: &str) -> (r: bool)
        ensures
            r == first_completed(self.items_spec(), id@),
    {
        let key = id.to_owned();
        proof {
            lemma_find_id(self.items_spec(), id@);
        }
        match find_item(&self.items, &key) {
            Some(k) => {
                if todo_count(&self.items[k].ical) == 0 {
                    false
                } else {
                    let props = todo_properties_at(&self.items[k].ical, 0);
                    is_marked_completed(&props)
                }
            },
            None => false,
        }
    }

    /// Toggles the completion of item `id` as `toggle_done_at` does. A
    /// completed todo is un-completed without reading the clock; an open one
    /// is completed with the current time as timestamp, and nothing changes
    /// where that time cannot be formatted. Nothing is written to disk.
    pub fn toggle_done(&mut self, id: &str) -> (r: Option<()>)
        requires
            old(self).wf(),
        ensures
            final(self).wf(),
            final(self).config == old(self).config,
            final(self).name == old(self).name,
            final(self).color == old(self).color,
            find_id(old(self).items_spec(), id@) < 0 ==> r is None && final(self).items_spec()
                == old(self).items_spec(),
            toggled_now(old(self).items_spec(), final(self).items_spec(), id@, r),
    {
        if self.first_todo_completed(id) {
            let stamp = String::new();
            return self.toggle_done_at(id, stamp);
        }
        let now = utc_now();
        match format_utc(now, ICAL_UTC_DATE_TIME_FORMAT) {
            Some(stamp) => {
                let ghost st = stamp@;
                let r = self.toggle_done_at(id, stamp);
                assert(utc_formatted(now, ICAL_UTC_DATE_TIME_FORMAT@) == Some(st));
                assert(clock_stamp(st));
                assert(toggle_outcome(old(self).items_spec(), self.items_spec(), id@, st, r));
                r
            },
            None => None,
        }
    }

    /// The first component of item `id`'s query form, where the item exists
    /// and that component is a todo.
    pub open spec fn get_todo_spec(&self, id: Seq<char>) -> Option<TodoInfo> {
        let k = find_id(self.items_spec(), id);
        if k >= 0 {
            first_component_todo(self.items_spec()[k].query)
        } else {
            None
        }
    }

    /// The first component of item `id`'s query form, where it is a todo.
    pub fn get_todo(&self, id: &str) -> (r: Option<TodoInfo>)
        ensures
            r == self.get_todo_spec(id@),
    {
        let key = id.to_owned();
        proof {
            lemma_find_id(self.items_spec(), id@);
        }
        match find_item(&self.items, &key) {
            Some(k) => first_todo_of(&self.items[k].query),
            None => None,
        }
    }

    /// The text to write for each item, as (identifier, text) pairs in item
    /// order: the text that the `ical` generator writes for its editable form,
    /// or `None` for an item that the generator cannot write back.
    pub fn generated_files(&self) -> (r: Vec<(String, Option<String>)>)
        ensures
            r@.len() == self.items@.len(),
            forall|k: int|
                0 <= k < r@.len() ==> {
                    &&& (#[trigger] r@[k]).0@ == self.items_spec()[k].id
                    &&& (r@[k].1 is Some <==> generation_safe(self.items_spec()[k].ical))
                    &&& (r@[k].1 matches Some(t) ==> t@ == ical_text(self.items_spec()[k].ical))
                },
    {
        let mut r: Vec<(String, Option<String>)> = Vec::new();
        let mut k: usize = 0;
        while k < self.items.len()
            invariant
                0 <= k <= self.items@.len(),
                r@.len() == k,
                forall|j: int|
                    0 <= j < k ==> {
                        &&& (#[trigger] r@[j]).0@ == self.items_spec()[j].id
                        &&& (r@[j].1 is Some <==> generation_safe(self.items_spec()[j].ical))
                        &&& (r@[j].1 matches Some(t) ==> t@ == ical_text(self.items_spec()[j].ical))
                    },
            decreases self.items@.len() - k,
        {
            let id = self.items[k].id.clone();
            let text = if is_generation_safe(&self.items[k].ical) {
                Some(generate_text(&self.items[k].ical))
            } else {
                None
            };
            r.push((id, text));
            k = k + 1;
        }
        r
    }

    /// Re-reads the query form of item `k` from the text generated for its
    /// editable form; fails, leaving the item as it is, where the generator
    /// cannot write that form or its text does not parse.
    pub fn refresh_item(&mut self, k: usize) -> (r: Result<(), String>)
        requires
            old(self).wf(),
            k < old(self).items@.len(),
        ensures
            final(self).wf(),
            final(self).config == old(self).config,
            final(self).name == old(self).name,
            final(self).color == old(self).color,
            final(self).items_spec().len() == old(self).items_spec().len(),
            forall|j: int|
                0 <= j < old(self).items_spec().len() && j != k ==> final(self).items_spec()[j]
                    == old(self).items_spec()[j],
            final(self).items_spec()[k as int].id == old(self).items_spec()[k as int].id,
            final(self).items_spec()[k as int].ical == old(self).items_spec()[k as int].ical,
            r is Ok <==> generation_safe(old(self).items_spec()[k as int].ical) && calendar_of(
                ical_text(old(self).items_spec()[k as int].ical),
            ) is Some,
            !generation_safe(old(self).items_spec()[k as int].ical) ==> final(self).items_spec()
                == old(self).items_spec(),
            generation_safe(old(self).items_spec()[k as int].ical) ==> match calendar_of(
                ical_text(old(self).items_spec()[k as int].ical),
            ) {
                Some(q) => final(self).items_spec()[k as int].query == q
                    && final(self).items_spec()[k as int].todos == todos_in(components_of(q)),
                None => final(self).items_spec()[k as int].query == old(
                    self,
                ).items_spec()[k as int].query && final(self).items_spec()[k as int].todos == old(
                    self,
                ).items_spec()[k as int].todos,
            },
    {
        let ghost o = self.items_spec();
        if !is_generation_safe(&self.items[k].ical) {
            return Err("The calendar cannot be written back".to_owned());
        }
        let text = generate_text(&self.items[k].ical);
        match parse_query(text.as_str()) {
            Some((query, todos)) => {
                let mut item = self.items.remove(k);
                item.query = query;
                item.todos = todos;
                self.items.insert(k, item);
                proof {
                    let f = self.items_spec();
                    assert forall|j: int| 0 <= j < o.len() && j != k implies f[j] == o[j] by {}
                    assert forall|i: int, j: int|
                        0 <= i < f.len() && 0 <= j < f.len() && f[i].id == f[j].id implies i == j by {
                        assert(o[i].id == f[i].id && o[j].id == f[j].id);
                    }
                    assert forall|j: int| 0 <= j < f.len() implies (#[trigger] f[j]).todos
                        == todos_in(components_of(f[j].query)) by {
                        if j != k {
                            assert(f[j] == o[j]);
                        }
                    }
                }
                Ok(())
            },
            None => Err("Could not update iCalendar from ical representation".to_owned()),
        }
    }
}

fn find_item(items: &Vec<CalItem>, id: &String) -> (r: Option<usize>)
    ensures
        match r {
            Some(k) => k == find_id(items_view(items@), id@) && k < items@.len(),
            None => find_id(items_view(items@), id@) < 0,
        },
{
    let ghost iv = items_view(items@);
    proof {
        lemma_find_id(iv, id@);
    }
    let mut i: usize = 0;
    while i < items.len()
        invariant
            0 <= i <= items@.len(),
            iv == items_view(items@),
            forall|j: int| 0 <= j < i ==> iv[j].id != id@,
            find_id(iv, id@) < 0 <==> forall|j: int| 0 <= j < iv.len() ==> iv[j].id != id@,
            find_id(iv, id@) >= 0 ==> {
                let k = find_id(iv, id@);
                &&& 0 <= k < iv.len()
                &&& iv[k].id == id@
                &&& forall|j: int| 0 <= j < k ==> iv[j].id != id@
            },
        decreases items@.len() - i,
    {
        if items[i].id == *id {
            assert(iv[i as int].id == id@);
            return Some(i);
        }
        i = i + 1;
    }
    None
}

} // verus!
