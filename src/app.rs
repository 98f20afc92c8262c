//! All calendars together, the filtered and ordered todo list over them, and
//! the application state that user commands change.
use vstd::prelude::*;
use crate::config::{DisplayOptions, FilterConfig, SortingConfig};
use crate::engine::{arranged, entry_keys, is_kept, keeps, sort_todos};
use crate::store::{calendar_entries, toggled_now, IsekCalendar};
use crate::todo::{todos_view, IsekTodo, IsekTodoView, TodoInfo};

verus! {

/// The entries of all calendars, one calendar after the other.
pub open spec fn all_entries(cals: Seq<IsekCalendar>) -> Seq<IsekTodoView>
    decreases cals.len(),
{
    if cals.len() == 0 {
        Seq::empty()
    } else {
        all_entries(cals.drop_last()) + calendar_entries(
            cals.last().name@,
            cals.last().color,
            cals.last().items_spec(),
        )
    }
}

/// Positions, among the first `n` entries, of those that the filter keeps
/// (all of them where there is no filter), in order.
pub open spec fn kept_positions(
    all: Seq<IsekTodoView>,
    filter: Option<FilterConfig>,
    now: int,
    n: int,
) -> Seq<int>
    decreases n,
{
    if n <= 0 {
        Seq::empty()
    } else {
        let acc = kept_positions(all, filter, now, n - 1);
        let kept = match filter {
            None => true,
            Some(f) => keeps(all[n - 1].data, f, now),
        };
        if kept {
            acc.push(n - 1)
        } else {
            acc
        }
    }
}

/// The score given for position `i`, or 0 where `scores` is shorter.
pub open spec fn score_at(scores: Seq<i64>, i: int) -> i64 {
    if 0 <= i < scores.len() {
        scores[i]
    } else {
        0
    }
}

/// The list that `get_todos` shows: the kept entries of `all`, in order; with
/// a sorting configuration, ordered as `sort_todos` orders them with the
/// scores of the kept positions.
pub open spec fn shown_list(
    r: Seq<IsekTodoView>,
    all: Seq<IsekTodoView>,
    sort: Option<SortingConfig>,
    filter: Option<FilterConfig>,
    now: int,
    scores: Seq<i64>,
) -> bool {
    let pos = kept_positions(all, filter, now, all.len() as int);
    let shown = pos.map_values(|i: int| all[i]);
    let shown_scores = pos.map_values(|i: int| score_at(scores, i));
    match sort {
        None => r == shown,
        Some(s) => exists|p: Seq<int>|
            arranged(r, shown, entry_keys(shown, s.by, shown_scores), p, s.ascending),
    }
}

/// All loaded calendars, with distinct names.
pub struct IsekCalendars {
    pub data: Vec<IsekCalendar>,
}

/// Index of the first calendar named `name`, or -1.
pub open spec fn find_name(cals: Seq<IsekCalendar>, name: Seq<char>) -> int
    decreases cals.len(),
{
    if cals.len() == 0 {
        -1
    } else if cals[0].name@ == name {
        0
    } else {
        let k = find_name(cals.drop_first(), name);
        if k < 0 {
            -1
        } else {
            k + 1
        }
    }
}

proof fn lemma_find_name(cals: Seq<IsekCalendar>, name: Seq<char>)
    ensures
        find_name(cals, name) < 0 <==> forall|i: int| 0 <= i < cals.len() ==> cals[i].name@ != name,
        find_name(cals, name) >= 0 ==> {
            let k = find_name(cals, name);
            &&& 0 <= k < cals.len()
            &&& cals[k].name@ == name
            &&& forall|j: int| 0 <= j < k ==> cals[j].name@ != name
        },
    decreases cals.len(),
{
    if cals.len() > 0 && cals[0].name@ != name {
        lemma_find_name(cals.drop_first(), name);
        assert forall|i: int| 0 < i < cals.len() implies cals[i] == cals.drop_first()[i - 1] by {}
    }
}

fn find_calendar(cals: &Vec<IsekCalendar>, name: &String) -> (r: Option<usize>)
    ensures
        match r {
            Some(k) => k == find_name(cals@, name@) && k < cals@.len(),
            None => find_name(cals@, name@) < 0,
        },
{
    proof {
        lemma_find_name(cals@, name@);
    }
    let mut i: usize = 0;
    while i < cals.len()
        invariant
            0 <= i <= cals@.len(),
            forall|j: int| 0 <= j < i ==> cals@[j].name@ != name@,
            find_name(cals@, name@) < 0 <==> forall|j: int|
                0 <= j < cals@.len() ==> cals@[j].name@ != name@,
            find_name(cals@, name@) >= 0 ==> {
                let k = find_name(cals@, name@);
                &&& 0 <= k < cals@.len()
                &&& cals@[k].name@ == name@
                &&& forall|j: int| 0 <= j < k ==> cals@[j].name@ != name@
            },
        decreases cals@.len() - i,
    {
        if cals[i].name == *name {
            return Some(i);
        }
        i = i + 1;
    }
    None
}

impl IsekCalendars {
    /// Calendar names are distinct and every calendar is well formed.
    pub open spec fn wf(&self) -> bool {
        &&& forall|i: int, j: int|
            0 <= i < self.data@.len() && 0 <= j < self.data@.len() && self.data@[i].name@
                == self.data@[j].name@ ==> i == j
        &&& forall|i: int| 0 <= i < self.data@.len() ==> (#[trigger] self.data@[i]).wf()
    }

    /// Index of the calendar named `name`, or -1.
    pub open spec fn index_of(&self, name: Seq<char>) -> int {
        find_name(self.data@, name)
    }

    /// Gathers calendars; a later calendar replaces an earlier one of the same name.
    pub fn from_calendars(cals: Vec<IsekCalendar>) -> (r: Self)
        requires
            forall|i: int| 0 <= i < cals@.len() ==> (#[trigger] cals@[i]).wf(),
        ensures
            r.wf(),
            forall|i: int| 0 <= i < cals@.len() ==> r.index_of((#[trigger] cals@[i]).name@) >= 0,
            forall|i: int|
                0 <= i < cals@.len() && (forall|j: int|
                    i < j < cals@.len() ==> cals@[j].name@ != cals@[i].name@) ==> r.data@[r.index_of(
                    (#[trigger] cals@[i]).name@,
                )] == cals@[i],
            forall|k: int| 0 <= k < r.data@.len() ==> cals@.contains(#[trigger] r.data@[k]),
    {
        let mut rest = cals;
        let ghost src = rest@;
        let mut data: Vec<IsekCalendar> = Vec::new();
        let ghost mut i: int = 0;
        while rest.len() > 0
            invariant
                0 <= i,
                src.len() == i + rest@.len(),
                rest@ == src.subrange(i, src.len() as int),
                forall|a: int| 0 <= a < src.len() ==> (#[trigger] src[a]).wf(),
                forall|x: int, y: int|
                    0 <= x < data@.len() && 0 <= y < data@.len() && data@[x].name@ == data@[y].name@
                        ==> x == y,
                forall|x: int| 0 <= x < data@.len() ==> (#[trigger] data@[x]).wf(),
                forall|a: int|
                    0 <= a < i && (forall|j: int| a < j < i ==> src[j].name@ != src[a].name@)
                        ==> data@[find_name(data@, (#[trigger] src[a]).name@)] == src[a],
                forall|a: int| 0 <= a < i ==> find_name(data@, (#[trigger] src[a]).name@) >= 0,
                forall|k: int|
                    0 <= k < data@.len() ==> exists|a: int| 0 <= a < i && (#[trigger] data@[k]) == src[a],
            decreases rest@.len(),
        {
            let c = rest.remove(0);
            assert(c == src[i]);
            let ghost before = data@;
            proof {
                lemma_find_name(before, c.name@);
                assert forall|a: int| 0 <= a < i implies find_name(before, (#[trigger] src[a]).name@) >= 0 by {}
            }
            let pos = find_calendar(&data, &c.name);
            match pos {
                Some(k) => {
                    data.remove(k);
                    data.insert(k, c);
                    assert(data@ =~= before.update(k as int, src[i]));
                },
                None => {
                    data.push(c);
                    assert(data@ =~= before.push(src[i]));
                },
            }
            proof {
                assert forall|a: int| 0 <= a <= i implies find_name(data@, (#[trigger] src[a]).name@) >= 0 && (
                (forall|j: int| a < j <= i ==> src[j].name@ != src[a].name@) ==> data@[find_name(
                    data@,
                    src[a].name@,
                )] == src[a]) by {
                    lemma_find_name(before, src[a].name@);
                    lemma_find_name(data@, src[a].name@);
                    if a < i {
                        let kb = find_name(before, src[a].name@);
                        assert(data@[kb].name@ == src[a].name@);
                    } else {
                        if let Some(k) = pos {
                            assert(data@[k as int].name@ == src[a].name@);
                        } else {
                            assert(data@[before.len() as int].name@ == src[a].name@);
                        }
                    }
                }
                assert forall|k: int| 0 <= k < data@.len() implies exists|a: int|
                    0 <= a < i + 1 && (#[trigger] data@[k]) == src[a] by {
                    if data@[k] == src[i] {
                    } else {
                        assert(data@[k] == before[k]);
                        let a = choose|a: int| 0 <= a < i && before[k] == src[a];
                        assert(data@[k] == src[a]);
                    }
                }
                assert forall|x: int, y: int|
                    0 <= x < data@.len() && 0 <= y < data@.len() && data@[x].name@ == data@[y].name@
                    implies x == y by {
                    if pos is None {
                        if x < before.len() && y < before.len() {
                        } else if x < before.len() {
                            assert(before[x].name@ == c.name@);
                        } else if y < before.len() {
                            assert(before[y].name@ == c.name@);
                        }
                    } else {
                        let k = pos->Some_0 as int;
                        if x != k && y != k {
                        } else if x == k && y != k {
                            assert(before[y].name@ == before[k].name@);
                        } else if y == k && x != k {
                            assert(before[x].name@ == before[k].name@);
                        }
                    }
                }
            }
            proof {
                i = i + 1;
            }
            assert(rest@ =~= src.subrange(i, src.len() as int));
        }
        assert(src == cals@);
        assert(i == src.len());
        assert forall|k: int| 0 <= k < data@.len() implies exists|a: int|
            0 <= a < cals@.len() && (#[trigger] data@[k]) == cals@[a] by {
            let a = choose|a: int| 0 <= a < i && data@[k] == src[a];
            assert(data@[k] == cals@[a]);
        }
        let r = IsekCalendars { data };
        assert forall|k: int| 0 <= k < r.data@.len() implies cals@.contains(#[trigger] r.data@[k]) by {
            let a = choose|a: int| 0 <= a < i && data@[k] == src[a];
            assert(cals@[a] == r.data@[k]);
        }
        r
    }
}

impl IsekCalendars {
    /// The todos of all calendars, one calendar after the other.
    pub fn all_todos(&self) -> (r: Vec<IsekTodo<'_>>)
        ensures
            todos_view(r@) == all_entries(self.data@),
    {
        let mut r: Vec<IsekTodo<'_>> = Vec::new();
        let mut c: usize = 0;
        while c < self.data.len()
            invariant
                0 <= c <= self.data@.len(),
                todos_view(r@) == all_entries(self.data@.take(c as int)),
            decreases self.data@.len() - c,
        {
            let mut part = self.data[c].get_todos();
            let ghost before = r@;
            let ghost added = part@;
            r.append(&mut part);
            assert(todos_view(r@) =~= todos_view(before) + todos_view(added));
            assert(self.data@.take(c as int + 1).drop_last() =~= self.data@.take(c as int));
            c = c + 1;
        }
        assert(self.data@.take(self.data@.len() as int) =~= self.data@);
        r
    }

    /// The todo list to show at instant `now` (seconds since the epoch): the
    /// todos of all calendars, reduced by `filter` where given and ordered by
    /// `sort` where given. `scores[i]` is the Index score of the `i`-th entry of
    /// `all_todos` (0 where absent).
    pub fn get_todos(
        &self,
        sort: Option<&SortingConfig>,
        filter: Option<&FilterConfig>,
        now: i64,
        scores: &Vec<i64>,
    ) -> (r: Vec<IsekTodo<'_>>)
        ensures
            shown_list(
                todos_view(r@),
                all_entries(self.data@),
                match sort {
                    Some(s) => Some(*s),
                    None => None,
                },
                match filter {
                    Some(f) => Some(*f),
                    None => None,
                },
                now as int,
                scores@,
            ),
    {
        let all = self.all_todos();
        let ghost av = todos_view(all@);
        let ghost fo: Option<FilterConfig> = match filter {
            Some(f) => Some(*f),
            None => None,
        };
        let mut shown: Vec<IsekTodo<'_>> = Vec::new();
        let mut shown_scores: Vec<i64> = Vec::new();
        let mut i: usize = 0;
        while i < all.len()
            invariant
                0 <= i <= all@.len(),
                av == todos_view(all@),
                fo == match filter {
                    Some(f) => Some(*f),
                    None => None::<FilterConfig>,
                },
                todos_view(shown@) == kept_positions(av, fo, now as int, i as int).map_values(
                    |j: int| av[j],
                ),
                shown_scores@ == kept_positions(av, fo, now as int, i as int).map_values(
                    |j: int| score_at(scores@, j),
                ),
            decreases all@.len() - i,
        {
            let keep = match filter {
                Some(f) => is_kept(all[i].data, f, now),
                None => true,
            };
            let ghost before_t = todos_view(shown@);
            let ghost before_s = shown_scores@;
            if keep {
                shown.push(all[i]);
                let sc: i64 = if i < scores.len() {
                    scores[i]
                } else {
                    0
                };
                shown_scores.push(sc);
                assert(todos_view(shown@) =~= before_t.push(av[i as int]));
                assert(shown_scores@ =~= before_s.push(score_at(scores@, i as int)));
            }
            assert(kept_positions(av, fo, now as int, i as int + 1) == if keep {
                kept_positions(av, fo, now as int, i as int).push(i as int)
            } else {
                kept_positions(av, fo, now as int, i as int)
            });
            i = i + 1;
        }
        let ghost pos = kept_positions(av, fo, now as int, av.len() as int);
        assert(todos_view(shown@) == pos.map_values(|j: int| av[j]));
        assert(shown_scores@ == pos.map_values(|j: int| score_at(scores@, j)));
        match sort {
            Some(s) => {
                let ghost sv = todos_view(shown@);
                let ghost ks = entry_keys(sv, s.by, shown_scores@);
                let r = sort_todos(shown, s, &shown_scores);
                let ghost p = choose|p: Seq<int>|
                    arranged(todos_view(r@), sv, ks, p, s.ascending);
                assert(arranged(todos_view(r@), sv, ks, p, s.ascending));
                r
            },
            None => shown,
        }
    }

    /// The first component of item `id` of the calendar named `calendar_id`,
    /// where it is a todo.
    pub fn get_todo(&self, calendar_id: &str, id: &str) -> (r: Option<TodoInfo>)
        ensures
            r == if self.index_of(calendar_id@) >= 0 {
                self.data@[self.index_of(calendar_id@)].get_todo_spec(id@)
            } else {
                None
            },
    {
        let name = calendar_id.to_owned();
        proof {
            lemma_find_name(self.data@, calendar_id@);
        }
        match find_calendar(&self.data, &name) {
            Some(k) => self.data[k].get_todo(id),
            None => None,
        }
    }
}

/// The calendars `f` are the calendars `o` after toggling item `id` of the
/// calendar named `cal`, with result `r`: an unknown calendar changes nothing
/// and gives `None`; otherwise only that calendar's items change, as
/// `toggled_now` says.
pub open spec fn calendars_toggled(
    o: Seq<IsekCalendar>,
    f: Seq<IsekCalendar>,
    cal: Seq<char>,
    id: Seq<char>,
    r: Option<()>,
) -> bool {
    let k = find_name(o, cal);
    if k < 0 {
        r is None && f == o
    } else {
        &&& f.len() == o.len()
        &&& forall|j: int| 0 <= j < o.len() && j != k ==> f[j] == o[j]
        &&& f[k].config == o[k].config
        &&& f[k].name == o[k].name
        &&& f[k].color == o[k].color
        &&& toggled_now(o[k].items_spec(), f[k].items_spec(), id, r)
    }
}

impl IsekCalendars {
    /// Toggles the completion of item `id` of the calendar named
    /// `calendar_id`, with the current time as completion timestamp; `None`
    /// where the calendar or item is unknown. Nothing is written to disk.
    pub fn toggle_done(&mut self, calendar_id: &str, id: &str) -> (r: Option<()>)
        requires
            old(self).wf(),
        ensures
            final(self).wf(),
            calendars_toggled(old(self).data@, final(self).data@, calendar_id@, id@, r),
    {
        let name = calendar_id.to_owned();
        let ghost o = self.data@;
        proof {
            lemma_find_name(o, calendar_id@);
        }
        match find_calendar(&self.data, &name) {
            Some(k) => {
                let mut cal = self.data.remove(k);
                assert(cal == o[k as int]);
                let r = cal.toggle_done(id);
                self.data.insert(k, cal);
                proof {
                    let f = self.data@;
                    assert forall|j: int| 0 <= j < o.len() && j != k implies f[j] == o[j] by {}
                    assert(f[k as int] == cal);
                    assert forall|x: int, y: int|
                        0 <= x < f.len() && 0 <= y < f.len() && f[x].name@ == f[y].name@ implies x
                        == y by {
                        assert(o[x].name@ == f[x].name@ && o[y].name@ == f[y].name@);
                    }
                    assert forall|x: int| 0 <= x < f.len() implies (#[trigger] f[x]).wf() by {
                        if x != k {
                            assert(f[x] == o[x]);
                        }
                    }
                }
                r
            },
            None => None,
        }
    }
}

/// What the application is doing.
#[derive(Clone, Copy, Debug, PartialEq, Eq, Structural)]
pub enum State {
    Normal,
    Interactive,
    ConfigSort,
    ConfigFilter,
}

/// The application: calendars, display settings, the selected list position
/// and the mode that user commands change.
pub struct App {
    pub exit: bool,
    pub state: State,
    pub calendars: IsekCalendars,
    pub display: DisplayOptions,
    pub selected: Option<usize>,
}

impl App {
    /// The calendars are well formed.
    pub open spec fn wf(&self) -> bool {
        self.calendars.wf()
    }

    /// A running application over loaded calendars, in normal mode with
    /// nothing selected.
    pub fn new(calendars: IsekCalendars, display: DisplayOptions) -> (r: Self)
        ensures
            !r.exit,
            r.state == State::Normal,
            r.calendars == calendars,
            r.display == display,
            r.selected is None,
    {
        App { exit: false, state: State::Normal, calendars, display, selected: None }
    }

    /// Switches to another mode.
    pub fn switch_state(&mut self, state: State)
        ensures
            *final(self) == (App { state, ..*old(self) }),
    {
        self.state = state;
    }

    /// Asks the main loop to end.
    pub fn exit(&mut self)
        ensures
            *final(self) == (App { exit: true, ..*old(self) }),
    {
        self.exit = true;
    }

    /// Clears the selection and goes back to normal mode.
    pub fn escape(&mut self)
        ensures
            *final(self) == (App { selected: None, state: State::Normal, ..*old(self) }),
    {
        self.selected = None;
        self.state = State::Normal;
    }

    /// Sets the ordering for the rest of the session and goes back to normal mode.
    pub fn configure_sort(&mut self, sort: SortingConfig)
        ensures
            *final(self) == (App {
                display: DisplayOptions { sort, ..old(self).display },
                selected: None,
                state: State::Normal,
                ..*old(self)
            }),
    {
        self.display.sort = sort;
        self.escape();
    }

    /// Sets the filter for the rest of the session and goes back to normal mode.
    pub fn configure_filter(&mut self, filter: FilterConfig)
        ensures
            *final(self) == (App {
                display: DisplayOptions { filter, ..old(self).display },
                selected: None,
                state: State::Normal,
                ..*old(self)
            }),
    {
        self.display.filter = filter;
        self.escape();
    }

    /// Toggles the completion of the selected todo of the list shown at `now`
    /// (with Index scores `scores`, as `IsekCalendars::get_todos` takes them),
    /// identified by its calendar's name and its item identifier. Returns the
    /// name of the calendar to save where the toggle happened; `None` where
    /// nothing is selected, the selection is past the end of the list, or the
    /// toggle reported "not found".
    pub fn toggle_done(&mut self, now: i64, scores: &Vec<i64>) -> (r: Option<String>)
        requires
            old(self).wf(),
        ensures
            final(self).wf(),
            final(self).exit == old(self).exit,
            final(self).state == old(self).state,
            final(self).display == old(self).display,
            final(self).selected == old(self).selected,
            match old(self).selected {
                None => r is None && final(self).calendars.data@ == old(self).calendars.data@,
                Some(i) => exists|lst: Seq<IsekTodoView>|
                    {
                        &&& shown_list(
                            lst,
                            all_entries(old(self).calendars.data@),
                            Some(old(self).display.sort),
                            Some(old(self).display.filter),
                            now as int,
                            scores@,
                        )
                        &&& i >= lst.len() ==> r is None && final(self).calendars.data@ == old(
                            self,
                        ).calendars.data@
                        &&& i < lst.len() ==> exists|res: Option<()>|
                            {
                                &&& calendars_toggled(
                                    old(self).calendars.data@,
                                    final(self).calendars.data@,
                                    lst[i as int].calendar_name,
                                    lst[i as int].item_id,
                                    res,
                                )
                                &&& r is Some <==> res is Some
                                &&& r matches Some(name) ==> name@ == lst[i as int].calendar_name
                            }
                    },
            },
    {
        let i = match self.selected {
            Some(i) => i,
            None => return None,
        };
        let sort = self.display.sort;
        let filter = self.display.filter;
        let ghost mut lst: Seq<IsekTodoView> = Seq::empty();
        let (cal_id, item_id) = {
            let tasks = self.calendars.get_todos(Some(&sort), Some(&filter), now, scores);
            proof {
                lst = todos_view(tasks@);
            }
            if i >= tasks.len() {
                return None;
            }
            let task = tasks[i];
            assert(lst[i as int] == task@);
            (task.calendar_name.clone(), task.item_id.clone())
        };
        let res = self.calendars.toggle_done(cal_id.as_str(), item_id.as_str());
        let ghost cid = cal_id@;
        assert(calendars_toggled(
            old(self).calendars.data@,
            self.calendars.data@,
            cid,
            lst[i as int].item_id,
            res,
        ));
        assert(cid == lst[i as int].calendar_name);
        let r = match res {
            Some(()) => Some(cal_id),
            None => None,
        };
        assert(r matches Some(n) ==> n@ == cid);
        r
    }
}

} // verus!
