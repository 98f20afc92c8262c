//! Filtering and ordering of the aggregated todo list.
use vstd::prelude::*;
use crate::config::{FilterConfig, ShowDoneOptions, SortingConfig, SortingVariant};
use crate::helper::{due_date_day, due_day, due_instant, ical_datetime_to_chrono, SECONDS_PER_DAY};
use crate::todo::{todos_view, IsekTodo, IsekTodoView, TodoInfo};

verus! {

/// Priority that a todo without one is ordered by.
pub const DEFAULT_PRIORITY: u32 = 10;

/// Whether the filter keeps a todo, at instant `now` (seconds since the epoch).
/// A completed todo is dropped by `Hide`, and by `Recent` where it was completed
/// more than `show_done_for` days before `now`; an open todo is always kept.
pub open spec fn keeps(t: TodoInfo, filter: FilterConfig, now: int) -> bool {
    match t.completed {
        None => true,
        Some(c) => match filter.show_done {
            ShowDoneOptions::Show => true,
            ShowDoneOptions::Hide => false,
            ShowDoneOptions::Recent => now - c <= filter.show_done_for * SECONDS_PER_DAY,
        },
    }
}

/// `keeps` on an aggregated entry.
pub open spec fn entry_kept(filter: FilterConfig, now: int) -> spec_fn(IsekTodoView) -> bool {
    |t: IsekTodoView| keeps(t.data, filter, now)
}

/// Decides `keeps`.
pub fn is_kept(t: &TodoInfo, filter: &FilterConfig, now: i64) -> (r: bool)
    ensures
        r == keeps(*t, *filter, now as int),
{
    match t.completed {
        None => true,
        Some(c) => match filter.show_done {
            ShowDoneOptions::Show => true,
            ShowDoneOptions::Hide => false,
            ShowDoneOptions::Recent => {
                let elapsed: i128 = now as i128 - c as i128;
                assert(filter.show_done_for as int * 86400 <= 18446744073709551615 * 86400)
                    by (nonlinear_arith)
                    requires
                        filter.show_done_for as int <= 18446744073709551615,
                ;
                elapsed <= filter.show_done_for as i128 * SECONDS_PER_DAY as i128
            },
        },
    }
}

/// Keeps the todos that the filter keeps, in their order.
pub fn filter_todos<'a>(todos: Vec<IsekTodo<'a>>, filter: &FilterConfig, now: i64) -> (r: Vec<
    IsekTodo<'a>,
>)
    ensures
        todos_view(r@) == todos_view(todos@).filter(entry_kept(*filter, now as int)),
{
    let ghost pred = entry_kept(*filter, now as int);
    let mut r: Vec<IsekTodo<'a>> = Vec::new();
    let mut i: usize = 0;
    while i < todos.len()
        invariant
            0 <= i <= todos@.len(),
            pred == entry_kept(*filter, now as int),
            todos_view(r@) == todos_view(todos@.take(i as int)).filter(pred),
        decreases todos@.len() - i,
    {
        let t = todos[i];
        let ghost before = r@;
        let ghost s1 = todos_view(todos@.take(i as int + 1));
        proof {
            reveal(Seq::filter);
            assert(s1.drop_last() =~= todos_view(todos@.take(i as int)));
            assert(s1.last() == t@);
            assert(pred(t@) == keeps(*t.data, *filter, now as int));
            assert(s1.filter(pred) == if pred(s1.last()) {
                s1.drop_last().filter(pred).push(s1.last())
            } else {
                s1.drop_last().filter(pred)
            });
        }
        if is_kept(t.data, filter, now) {
            r.push(t);
            assert(todos_view(r@) =~= todos_view(before).push(t@));
        }
        i = i + 1;
    }
    assert(todos@.take(todos@.len() as int) =~= todos@);
    r
}

/// Where a todo stands in the order of strategy `by`, compared
/// lexicographically: a completed todo after every open one, and all completed
/// todos equal; among open ones, by calendar day of the due date with todos
/// without one last (Date), by priority with 10 where it is absent (Priority),
/// or by the score given for the todo (Index).
pub open spec fn sort_key(t: TodoInfo, by: SortingVariant, score: i64) -> (int, int, int) {
    if t.completed is Some {
        (1, 0, 0)
    } else {
        match by {
            SortingVariant::Date => match t.due {
                Some(d) => (0, 0, due_day(d)),
                None => (0, 1, 0),
            },
            SortingVariant::Priority => (0, 0, match t.priority {
                Some(p) => p as int,
                None => DEFAULT_PRIORITY as int,
            }),
            SortingVariant::Index => (0, 0, score as int),
        }
    }
}

/// Strict lexicographic order on keys.
pub open spec fn key_less(a: (int, int, int), b: (int, int, int)) -> bool {
    a.0 < b.0 || (a.0 == b.0 && (a.1 < b.1 || (a.1 == b.1 && a.2 < b.2)))
}

/// Entry `ia` with key `a` comes before entry `ib` with key `b` in a stable
/// ascending order: by key, then by original position.
pub open spec fn precedes(a: (int, int, int), ia: int, b: (int, int, int), ib: int) -> bool {
    key_less(a, b) || (a == b && ia < ib)
}

/// The key of each entry; entry `i` has score `scores[i]`, or 0 where
/// `scores` is shorter.
pub open spec fn entry_keys(ts: Seq<IsekTodoView>, by: SortingVariant, scores: Seq<i64>) -> Seq<
    (int, int, int),
> {
    Seq::new(
        ts.len(),
        |i: int| sort_key(ts[i].data, by, if i < scores.len() { scores[i] } else { 0 }),
    )
}

/// `r` holds the entries of `src` in the order `p` of their positions, which
/// is strictly increasing by (key, position), and reversed where not
/// `ascending`.
pub open spec fn arranged<T>(
    r: Seq<T>,
    src: Seq<T>,
    keys: Seq<(int, int, int)>,
    p: Seq<int>,
    ascending: bool,
) -> bool {
    &&& p.len() == src.len()
    &&& r.len() == src.len()
    &&& keys.len() == src.len()
    &&& forall|i: int| 0 <= i < p.len() ==> 0 <= #[trigger] p[i] < src.len()
    &&& forall|i: int, j: int|
        0 <= i < j < p.len() ==> precedes(keys[p[i]], p[i], keys[p[j]], p[j])
    &&& forall|i: int|
        0 <= i < r.len() ==> r[i] == src[if ascending {
            p[i]
        } else {
            p[p.len() - 1 - i]
        }]
}

/// The mathematical value of an executable key.
pub open spec fn key_value(k: (u8, u8, i64)) -> (int, int, int) {
    (k.0 as int, k.1 as int, k.2 as int)
}

fn key_of(t: &TodoInfo, by: SortingVariant, score: i64) -> (k: (u8, u8, i64))
    ensures
        key_value(k) == sort_key(*t, by, score),
{
    if t.completed.is_some() {
        (1, 0, 0)
    } else {
        match by {
            SortingVariant::Date => match &t.due {
                Some(d) => (0, 0, due_date_day(d)),
                None => (0, 1, 0),
            },
            SortingVariant::Priority => (0, 0, match t.priority {
                Some(p) => p as i64,
                None => DEFAULT_PRIORITY as i64,
            }),
            SortingVariant::Index => (0, 0, score),
        }
    }
}

fn key_is_less(a: &(u8, u8, i64), b: &(u8, u8, i64)) -> (r: bool)
    ensures
        r == key_less(key_value(*a), key_value(*b)),
{
    a.0 < b.0 || (a.0 == b.0 && (a.1 < b.1 || (a.1 == b.1 && a.2 < b.2)))
}

proof fn lemma_precedes_trans(a: (int, int, int), ia: int, b: (int, int, int), ib: int, c: (int, int, int), ic: int)
    requires
        precedes(a, ia, b, ib),
        precedes(b, ib, c, ic),
    ensures
        precedes(a, ia, c, ic),
{
}

/// Positions 0..keys.len() in stable ascending order of their keys.
fn sorted_order(keys: &Vec<(u8, u8, i64)>) -> (order: Vec<usize>)
    ensures
        order@.len() == keys@.len(),
        forall|i: int| 0 <= i < order@.len() ==> order@[i] < keys@.len(),
        forall|i: int, j: int|
            0 <= i < j < order@.len() ==> precedes(
                key_value(keys@[order@[i] as int]),
                order@[i] as int,
                key_value(keys@[order@[j] as int]),
                order@[j] as int,
            ),
{
    let mut order: Vec<usize> = Vec::new();
    let mut i: usize = 0;
    while i < keys.len()
        invariant
            0 <= i <= keys@.len(),
            order@.len() == i,
            forall|a: int| 0 <= a < order@.len() ==> order@[a] < i,
            forall|a: int, b: int|
                0 <= a < b < order@.len() ==> precedes(
                    key_value(keys@[order@[a] as int]),
                    order@[a] as int,
                    key_value(keys@[order@[b] as int]),
                    order@[b] as int,
                ),
        decreases keys@.len() - i,
    {
        let ghost ki = key_value(keys@[i as int]);
        let mut j: usize = i;
        while j > 0 && key_is_less(&keys[i], &keys[order[j - 1]])
            invariant
                0 <= j <= i,
                i < keys@.len(),
                order@.len() == i,
                ki == key_value(keys@[i as int]),
                forall|a: int| 0 <= a < order@.len() ==> order@[a] < i,
                forall|m: int| j <= m < i ==> key_less(ki, key_value(keys@[order@[m] as int])),
            decreases j,
        {
            j = j - 1;
        }
        let ghost old_order = order@;
        order.insert(j, i);
        proof {
            let o = order@;
            assert forall|a: int| 0 <= a < o.len() implies o[a] == (if a < j {
                old_order[a]
            } else if a == j {
                i as usize
            } else {
                old_order[a - 1]
            }) by {}
            if j > 0 {
                assert(precedes(
                    key_value(keys@[old_order[j - 1] as int]),
                    old_order[j - 1] as int,
                    ki,
                    i as int,
                ));
            }
            assert forall|a: int, b: int| 0 <= a < b < o.len() implies precedes(
                key_value(keys@[o[a] as int]),
                o[a] as int,
                key_value(keys@[o[b] as int]),
                o[b] as int,
            ) by {
                if b == j {
                    if a < j - 1 {
                        lemma_precedes_trans(
                            key_value(keys@[o[a] as int]),
                            o[a] as int,
                            key_value(keys@[old_order[j - 1] as int]),
                            old_order[j - 1] as int,
                            ki,
                            i as int,
                        );
                    }
                } else if a == j {
                    assert(key_less(ki, key_value(keys@[old_order[b - 1] as int])));
                } else if a < j && b > j {
                    assert(precedes(
                        key_value(keys@[old_order[a] as int]),
                        old_order[a] as int,
                        key_value(keys@[old_order[b - 1] as int]),
                        old_order[b - 1] as int,
                    ));
                }
            }
        }
        i = i + 1;
    }
    order
}

/// Orders the todos by strategy `sort.by`, stably (equal keys keep their
/// relative order), then reverses the whole list where `sort.ascending` is
/// false. `scores[i]` is the Index score of `todos[i]` (0 where absent); the
/// other strategies do not read it.
pub fn sort_todos<'a>(todos: Vec<IsekTodo<'a>>, sort: &SortingConfig, scores: &Vec<i64>) -> (r: Vec<
    IsekTodo<'a>,
>)
    ensures
        exists|p: Seq<int>|
            arranged(
                todos_view(r@),
                todos_view(todos@),
                entry_keys(todos_view(todos@), sort.by, scores@),
                p,
                sort.ascending,
            ),
{
    let ghost src = todos_view(todos@);
    let ghost ks = entry_keys(src, sort.by, scores@);
    let mut keys: Vec<(u8, u8, i64)> = Vec::new();
    let mut i: usize = 0;
    while i < todos.len()
        invariant
            0 <= i <= todos@.len(),
            keys@.len() == i,
            src == todos_view(todos@),
            ks == entry_keys(src, sort.by, scores@),
            forall|a: int| 0 <= a < i ==> key_value(#[trigger] keys@[a]) == ks[a],
        decreases todos@.len() - i,
    {
        let score: i64 = if i < scores.len() {
            scores[i]
        } else {
            0
        };
        let k = key_of(todos[i].data, sort.by, score);
        keys.push(k);
        i = i + 1;
    }
    let order = sorted_order(&keys);
    let ghost p = order@.map_values(|x: usize| x as int);
    let n = order.len();
    let mut r: Vec<IsekTodo<'a>> = Vec::new();
    let mut m: usize = 0;
    while m < n
        invariant
            0 <= m <= n,
            n == order@.len(),
            n == todos@.len(),
            r@.len() == m,
            p == order@.map_values(|x: usize| x as int),
            forall|a: int| 0 <= a < n ==> order@[a] < n,
            forall|a: int|
                0 <= a < m ==> r@[a] == todos@[if sort.ascending {
                    p[a]
                } else {
                    p[n - 1 - a]
                }],
        decreases n - m,
    {
        let k = if sort.ascending {
            order[m]
        } else {
            order[n - 1 - m]
        };
        r.push(todos[k]);
        m = m + 1;
    }
    proof {
        assert(forall|a: int| 0 <= a < n ==> key_value(#[trigger] keys@[a]) == ks[a]);
        assert(p.len() == src.len());
        assert(ks.len() == src.len());
        assert(forall|a: int| 0 <= a < p.len() ==> 0 <= #[trigger] p[a] < src.len());
        assert forall|a: int, b: int| 0 <= a < b < p.len() implies precedes(
            ks[p[a]],
            p[a],
            ks[p[b]],
            p[b],
        ) by {
            assert(key_value(keys@[order@[a] as int]) == ks[p[a]]);
            assert(key_value(keys@[order@[b] as int]) == ks[p[b]]);
        }
        assert forall|a: int| 0 <= a < n implies todos_view(r@)[a] == src[if sort.ascending {
            p[a]
        } else {
            p[p.len() - 1 - a]
        }] by {}
        assert(arranged(todos_view(r@), src, ks, p, sort.ascending));
    }
    r
}

/// In an ascending arrangement of entries under any strategy, every completed
/// todo comes after every open one.
pub proof fn lemma_completed_sink(
    r: Seq<IsekTodoView>,
    src: Seq<IsekTodoView>,
    by: SortingVariant,
    scores: Seq<i64>,
    p: Seq<int>,
    i: int,
    j: int,
)
    requires
        arranged(r, src, entry_keys(src, by, scores), p, true),
        0 <= i < r.len(),
        0 <= j < r.len(),
        r[i].data.completed is Some,
        r[j].data.completed is None,
    ensures
        j < i,
{
    let ks = entry_keys(src, by, scores);
    assert(r[i] == src[p[i]] && r[j] == src[p[j]]);
    assert(ks[p[i]].0 == 1 && ks[p[j]].0 == 0);
    if i < j {
        assert(precedes(ks[p[i]], p[i], ks[p[j]], p[j]));
    }
}

/// Under `Hide`, the filter keeps exactly the open todos, in their order.
pub proof fn lemma_hide_keeps_open(ts: Seq<IsekTodoView>, filter: FilterConfig, now: int)
    requires
        filter.show_done == ShowDoneOptions::Hide,
    ensures
        ts.filter(entry_kept(filter, now)) == ts.filter(|t: IsekTodoView| t.data.completed is None),
{
    assert(entry_kept(filter, now) =~= (|t: IsekTodoView| t.data.completed is None));
}

/// The inputs of a todo's Index score at instant `now`: its priority, 10
/// where it has none, and its resolved due instant, `now` where it has none.
pub fn index_inputs(t: &TodoInfo, now: i64) -> (r: (u32, i64))
    ensures
        r.0 == match t.priority {
            Some(p) => p,
            None => DEFAULT_PRIORITY,
        },
        r.1 == match t.due {
            Some(d) => due_instant(d),
            None => now as int,
        },
{
    let priority = match t.priority {
        Some(p) => p,
        None => DEFAULT_PRIORITY,
    };
    let due = match &t.due {
        Some(d) => ical_datetime_to_chrono(d),
        None => now,
    };
    (priority, due)
}

} // verus!
