//! The editable form of a todo: its ordered list of named properties, and the
//! completion toggle as surgery on that list.
use vstd::prelude::*;
use vstd::string::*;

verus! {

/// One iCalendar content line: name, parameters and value.
#[derive(Clone, Debug, PartialEq, Eq)]
pub struct Property {
    pub name: String,
    pub params: Option<Vec<(String, Vec<String>)>>,
    pub value: Option<String>,
}

/// What a property holds, with its name and value as character sequences.
pub ghost struct PropertyView {
    pub name: Seq<char>,
    pub params: Option<Vec<(String, Vec<String>)>>,
    pub value: Option<Seq<char>>,
}

impl View for Property {
    type V = PropertyView;

    open spec fn view(&self) -> PropertyView {
        PropertyView {
            name: self.name@,
            params: self.params,
            value: match self.value {
                Some(v) => Some(v@),
                None => None,
            },
        }
    }
}

/// The views of a list of properties.
pub open spec fn props_view(ps: Seq<Property>) -> Seq<PropertyView> {
    ps.map_values(|p: Property| p@)
}

/// Name of the completion-timestamp property.
pub open spec fn completed_key() -> Seq<char> {
    "COMPLETED"@
}

/// Name of the status property.
pub open spec fn status_key() -> Seq<char> {
    "STATUS"@
}

/// Name of the percent-complete property.
pub open spec fn percent_key() -> Seq<char> {
    "PERCENT-COMPLETE"@
}

/// Index of the first property named `n`, or -1 where there is none.
pub open spec fn index_of(ps: Seq<PropertyView>, n: Seq<char>) -> int
    decreases ps.len(),
{
    if ps.len() == 0 {
        -1
    } else if ps[0].name == n {
        0
    } else {
        let k = index_of(ps.drop_first(), n);
        if k < 0 {
            -1
        } else {
            k + 1
        }
    }
}

/// Some property of the list is named `n`.
pub open spec fn has_name(ps: Seq<PropertyView>, n: Seq<char>) -> bool {
    exists|i: int| 0 <= i < ps.len() && ps[i].name == n
}

/// At most one property of the list is named `n`.
pub open spec fn at_most_one(ps: Seq<PropertyView>, n: Seq<char>) -> bool {
    forall|i: int, j: int|
        0 <= i < ps.len() && 0 <= j < ps.len() && ps[i].name == n && ps[j].name == n ==> i == j
}

/// Removes the element at `i` by moving the last element into its place.
pub open spec fn swap_remove<A>(s: Seq<A>, i: int) -> Seq<A> {
    s.update(i, s.last()).drop_last()
}

/// The list without its first property named `n` (unchanged where there is none).
pub open spec fn without_name(ps: Seq<PropertyView>, n: Seq<char>) -> Seq<PropertyView> {
    let k = index_of(ps, n);
    if k >= 0 {
        swap_remove(ps, k)
    } else {
        ps
    }
}

/// The list where the first property named `n` takes the value `v`, or where a
/// property `n` with value `v` and no parameters is appended if there is none.
pub open spec fn with_value(ps: Seq<PropertyView>, n: Seq<char>, v: Seq<char>) -> Seq<PropertyView> {
    let k = index_of(ps, n);
    if k >= 0 {
        ps.update(k, PropertyView { value: Some(v), ..ps[k] })
    } else {
        ps.push(PropertyView { name: n, params: None, value: Some(v) })
    }
}

/// The todo's properties are marked completed.
pub open spec fn is_completed(ps: Seq<PropertyView>) -> bool {
    has_name(ps, completed_key())
}

/// The completion toggle: a completed todo loses its COMPLETED, STATUS and
/// PERCENT-COMPLETE properties; any other gets COMPLETED set to `stamp`, STATUS
/// set to COMPLETED and PERCENT-COMPLETE set to 100.
pub open spec fn toggled(ps: Seq<PropertyView>, stamp: Seq<char>) -> Seq<PropertyView> {
    if is_completed(ps) {
        without_name(without_name(without_name(ps, completed_key()), status_key()), percent_key())
    } else {
        with_value(
            with_value(with_value(ps, completed_key(), stamp), status_key(), "COMPLETED"@),
            percent_key(),
            "100"@,
        )
    }
}

proof fn lemma_index_of(ps: Seq<PropertyView>, n: Seq<char>)
    ensures
        index_of(ps, n) < 0 <==> !has_name(ps, n),
        index_of(ps, n) >= 0 ==> {
            let k = index_of(ps, n);
            &&& 0 <= k < ps.len()
            &&& ps[k].name == n
            &&& forall|j: int| 0 <= j < k ==> ps[j].name != n
        },
    decreases ps.len(),
{
    if ps.len() > 0 && ps[0].name != n {
        lemma_index_of(ps.drop_first(), n);
        if has_name(ps, n) {
            let i = choose|i: int| 0 <= i < ps.len() && ps[i].name == n;
            assert(ps.drop_first()[i - 1].name == n);
        }
        if has_name(ps.drop_first(), n) {
            let i = choose|i: int| 0 <= i < ps.len() - 1 && ps.drop_first()[i].name == n;
            assert(ps[i + 1].name == n);
        }
        let k = index_of(ps, n);
        if k >= 0 {
            assert forall|j: int| 0 <= j < k implies ps[j].name != n by {
                if j > 0 {
                    assert(ps[j] == ps.drop_first()[j - 1]);
                }
            }
        }
    }
}

/// Index of the first property named `name`.
fn position(props: &Vec<Property>, name: &String) -> (r: Option<usize>)
    ensures
        match r {
            Some(k) => k == index_of(props_view(props@), name@) && k < props@.len(),
            None => index_of(props_view(props@), name@) < 0,
        },
{
    let ghost pv = props_view(props@);
    proof {
        lemma_index_of(pv, name@);
    }
    let mut i: usize = 0;
    while i < props.len()
        invariant
            0 <= i <= props@.len(),
            pv == props_view(props@),
            forall|j: int| 0 <= j < i ==> pv[j].name != name@,
            index_of(pv, name@) < 0 <==> !has_name(pv, name@),
            index_of(pv, name@) >= 0 ==> {
                let k = index_of(pv, name@);
                &&& 0 <= k < pv.len()
                &&& pv[k].name == name@
                &&& forall|j: int| 0 <= j < k ==> pv[j].name != name@
            },
        decreases props@.len() - i,
    {
        if props[i].name == *name {
            assert(pv[i as int].name == name@);
            return Some(i);
        }
        i = i + 1;
    }
    None
}

/// Removes the first property named `name`, moving the last property into its place.
fn remove_named(props: &mut Vec<Property>, name: &String)
    ensures
        props_view(final(props)@) == without_name(props_view(old(props)@), name@),
{
    match position(props, name) {
        Some(k) => {
            let ghost before = props@;
            props.swap_remove(k);
            assert(props_view(props@) =~= swap_remove(props_view(before), k as int));
        },
        None => {},
    }
}

/// Gives the first property named `name` the value `value`, or appends such a
/// property without parameters.
fn set_named(props: &mut Vec<Property>, name: String, value: String)
    ensures
        props_view(final(props)@) == with_value(props_view(old(props)@), name@, value@),
{
    match position(props, &name) {
        Some(k) => {
            let ghost before = props@;
            let old_p = props.remove(k);
            let ghost vv = value@;
            let p = Property { name: old_p.name, params: old_p.params, value: Some(value) };
            props.insert(k, p);
            assert(props_view(props@) =~= props_view(before).update(
                k as int,
                PropertyView { value: Some(vv), ..props_view(before)[k as int] },
            ));
        },
        None => {
            let ghost before = props@;
            props.push(Property { name, params: None, value: Some(value) });
            assert(props_view(props@) =~= props_view(before).push(
                PropertyView { name: name@, params: None, value: Some(value@) },
            ));
        },
    }
}

/// Toggles the completion of a todo given by its properties, where `stamp`
/// is the completion timestamp to record. Returns whether the todo is now
/// completed.
pub fn toggle_properties(props: &mut Vec<Property>, stamp: String) -> (done: bool)
    ensures
        props_view(final(props)@) == toggled(props_view(old(props)@), stamp@),
        done == !is_completed(props_view(old(props)@)),
{
    let completed = "COMPLETED".to_owned();
    let status = "STATUS".to_owned();
    let percent = "PERCENT-COMPLETE".to_owned();
    proof {
        lemma_index_of(props_view(props@), completed_key());
    }
    match position(props, &completed) {
        Some(_) => {
            remove_named(props, &completed);
            remove_named(props, &status);
            remove_named(props, &percent);
            false
        },
        None => {
            set_named(props, completed, stamp);
            set_named(props, status, "COMPLETED".to_owned());
            set_named(props, percent, "100".to_owned());
            true
        },
    }
}

proof fn lemma_keys_distinct()
    ensures
        completed_key() != status_key(),
        completed_key() != percent_key(),
        status_key() != percent_key(),
{
    reveal_strlit("COMPLETED");
    reveal_strlit("STATUS");
    reveal_strlit("PERCENT-COMPLETE");
    assert(completed_key().len() != status_key().len());
    assert(completed_key().len() != percent_key().len());
    assert(status_key().len() != percent_key().len());
}

proof fn lemma_without_name(ps: Seq<PropertyView>, n: Seq<char>, m: Seq<char>)
    requires
        at_most_one(ps, n),
    ensures
        !has_name(without_name(ps, n), n),
        m != n ==> has_name(without_name(ps, n), m) == has_name(ps, m),
        m != n && at_most_one(ps, m) ==> at_most_one(without_name(ps, n), m),
{
    lemma_index_of(ps, n);
    let k = index_of(ps, n);
    if k >= 0 {
        let r = without_name(ps, n);
        let last = ps.len() - 1;
        assert(r.len() == last);
        assert forall|i: int| 0 <= i < r.len() implies r[i] == (if i == k { ps[last] } else { ps[i] }) by {}
        if has_name(r, n) {
            let i = choose|i: int| 0 <= i < r.len() && r[i].name == n;
            if i == k {
                assert(ps[last].name == n);
            } else {
                assert(ps[i].name == n);
            }
        }
        if m != n {
            if has_name(ps, m) {
                let i = choose|i: int| 0 <= i < ps.len() && ps[i].name == m;
                if i == last {
                    if k < last {
                        assert(r[k].name == m);
                    }
                } else {
                    assert(r[i].name == m);
                }
            }
            if has_name(r, m) {
                let i = choose|i: int| 0 <= i < r.len() && r[i].name == m;
                if i == k {
                    assert(ps[last].name == m);
                } else {
                    assert(ps[i].name == m);
                }
            }
        }
    }
}

proof fn lemma_with_value(ps: Seq<PropertyView>, n: Seq<char>, v: Seq<char>, m: Seq<char>)
    requires
        at_most_one(ps, n),
    ensures
        has_name(with_value(ps, n, v), n),
        at_most_one(with_value(ps, n, v), n),
        m != n ==> has_name(with_value(ps, n, v), m) == has_name(ps, m),
        m != n && at_most_one(ps, m) ==> at_most_one(with_value(ps, n, v), m),
{
    lemma_index_of(ps, n);
    let k = index_of(ps, n);
    let r = with_value(ps, n, v);
    if k >= 0 {
        assert(r[k].name == n);
        assert forall|i: int| 0 <= i < r.len() implies r[i].name == ps[i].name by {}
        if m != n && has_name(ps, m) {
            let i = choose|i: int| 0 <= i < ps.len() && ps[i].name == m;
            assert(r[i].name == m);
        }
    } else {
        assert(r[ps.len() as int].name == n);
        assert forall|i: int| 0 <= i < ps.len() implies r[i] == ps[i] by {}
        if m != n && has_name(ps, m) {
            let i = choose|i: int| 0 <= i < ps.len() && ps[i].name == m;
            assert(r[i].name == m);
        }
    }
}

/// One toggle of a todo that holds at most one COMPLETED, STATUS and
/// PERCENT-COMPLETE property flips its completion and still holds at most one
/// of each.
pub proof fn lemma_toggle_flips(ps: Seq<PropertyView>, stamp: Seq<char>)
    requires
        at_most_one(ps, completed_key()),
        at_most_one(ps, status_key()),
        at_most_one(ps, percent_key()),
    ensures
        is_completed(toggled(ps, stamp)) == !is_completed(ps),
        at_most_one(toggled(ps, stamp), completed_key()),
        at_most_one(toggled(ps, stamp), status_key()),
        at_most_one(toggled(ps, stamp), percent_key()),
{
    lemma_keys_distinct();
    let c = completed_key();
    let s = status_key();
    let p = percent_key();
    if is_completed(ps) {
        let a = without_name(ps, c);
        lemma_without_name(ps, c, s);
        lemma_without_name(ps, c, p);
        let b = without_name(a, s);
        lemma_without_name(a, s, c);
        lemma_without_name(a, s, p);
        lemma_without_name(b, p, c);
        lemma_without_name(b, p, s);
    } else {
        let a = with_value(ps, c, stamp);
        lemma_with_value(ps, c, stamp, s);
        lemma_with_value(ps, c, stamp, p);
        let b = with_value(a, s, "COMPLETED"@);
        lemma_with_value(a, s, "COMPLETED"@, c);
        lemma_with_value(a, s, "COMPLETED"@, p);
        lemma_with_value(b, p, "100"@, c);
        lemma_with_value(b, p, "100"@, s);
    }
}

/// Toggling twice in a row gives back the original completion state, and a todo
/// with at most one COMPLETED, STATUS and PERCENT-COMPLETE property holds at
/// most one of each after either toggle.
pub proof fn lemma_toggle_twice(ps: Seq<PropertyView>, first: Seq<char>, second: Seq<char>)
    requires
        at_most_one(ps, completed_key()),
        at_most_one(ps, status_key()),
        at_most_one(ps, percent_key()),
    ensures
        is_completed(toggled(toggled(ps, first), second)) == is_completed(ps),
        at_most_one(toggled(ps, first), completed_key()),
        at_most_one(toggled(ps, first), status_key()),
        at_most_one(toggled(ps, first), percent_key()),
        at_most_one(toggled(toggled(ps, first), second), completed_key()),
        at_most_one(toggled(toggled(ps, first), second), status_key()),
        at_most_one(toggled(toggled(ps, first), second), percent_key()),
{
    lemma_toggle_flips(ps, first);
    lemma_toggle_flips(toggled(ps, first), second);
}

/// A todo without COMPLETED, STATUS and PERCENT-COMPLETE properties, toggled to
/// completed and back, has exactly its original properties again, so none of
/// the three.
pub proof fn lemma_toggle_round_trip(ps: Seq<PropertyView>, first: Seq<char>, second: Seq<char>)
    requires
        !has_name(ps, completed_key()),
        !has_name(ps, status_key()),
        !has_name(ps, percent_key()),
    ensures
        toggled(toggled(ps, first), second) == ps,
        !has_name(toggled(toggled(ps, first), second), completed_key()),
        !has_name(toggled(toggled(ps, first), second), status_key()),
        !has_name(toggled(toggled(ps, first), second), percent_key()),
{
    lemma_keys_distinct();
    let c = completed_key();
    let s = status_key();
    let p = percent_key();
    let n: int = ps.len() as int;
    lemma_index_of(ps, c);
    let pc = PropertyView { name: c, params: None, value: Some(first) };
    let a = ps.push(pc);
    assert(with_value(ps, c, first) == a);
    lemma_index_of(a, s);
    assert forall|i: int| 0 <= i < a.len() implies a[i].name != s by {
        if i < n {
            assert(a[i] == ps[i]);
        }
    }
    let ps_ = PropertyView { name: s, params: None, value: Some("COMPLETED"@) };
    let b = a.push(ps_);
    assert(with_value(a, s, "COMPLETED"@) == b);
    lemma_index_of(b, p);
    assert forall|i: int| 0 <= i < b.len() implies b[i].name != p by {
        if i < n {
            assert(b[i] == ps[i]);
        }
    }
    let pp = PropertyView { name: p, params: None, value: Some("100"@) };
    let t = b.push(pp);
    assert(with_value(b, p, "100"@) == t);
    assert(!is_completed(ps));
    assert(toggled(ps, first) == t);
    assert(t[n] == pc);
    assert(is_completed(t));
    lemma_index_of(t, c);
    assert forall|j: int| 0 <= j < n implies t[j].name != c by {
        assert(t[j] == ps[j]);
    }
    assert(index_of(t, c) == n);
    let u = swap_remove(t, n as int);
    assert(u =~= ps.push(pp).push(ps_));
    lemma_index_of(u, s);
    assert forall|j: int| 0 <= j < n + 1 implies u[j].name != s by {
        if j < n {
            assert(u[j] == ps[j]);
        } else {
            assert(u[j] == pp);
        }
    }
    assert(u[n + 1] == ps_);
    assert(index_of(u, s) == n + 1);
    let w = swap_remove(u, n + 1);
    assert(w =~= ps.push(pp));
    lemma_index_of(w, p);
    assert forall|j: int| 0 <= j < n implies w[j].name != p by {
        assert(w[j] == ps[j]);
    }
    assert(w[n] == pp);
    assert(index_of(w, p) == n);
    assert(swap_remove(w, n as int) =~= ps);
}

/// A character that the `ical` generator escapes inside a parameter value.
pub open spec fn escapable(c: char) -> bool {
    c == '"' || c == '\n' || c == ';' || c == ':' || c == ',' || c == '\\'
}

/// The character is ASCII.
pub open spec fn ascii(c: char) -> bool {
    (c as u32) < 128
}

/// A parameter value that the `ical` generator can write: it is not empty,
/// and either all ASCII, or starting with an ASCII character and holding no
/// character that the generator escapes (it indexes such values by byte).
pub open spec fn param_value_safe(v: Seq<char>) -> bool {
    &&& v.len() > 0
    &&& (forall|k: int| 0 <= k < v.len() ==> ascii(#[trigger] v[k])) || (ascii(v[0]) && forall|k: int|
        0 <= k < v.len() ==> !escapable(#[trigger] v[k]))
}

/// Every value of every parameter is safe to write.
pub open spec fn params_safe(params: Option<Vec<(String, Vec<String>)>>) -> bool {
    match params {
        None => true,
        Some(ps) => forall|i: int, j: int|
            0 <= i < ps@.len() && 0 <= j < ps@[i].1@.len() ==> param_value_safe(
                #[trigger] ps@[i].1@[j]@,
            ),
    }
}

/// Every property of the list has safe parameter values.
pub open spec fn props_safe(ps: Seq<PropertyView>) -> bool {
    forall|i: int| 0 <= i < ps.len() ==> params_safe(#[trigger] ps[i].params)
}

/// Every parameter list of `r` is absent or is that of some property of `ps`.
pub open spec fn params_from(r: Seq<PropertyView>, ps: Seq<PropertyView>) -> bool {
    forall|i: int|
        0 <= i < r.len() ==> (#[trigger] r[i]).params is None || exists|j: int|
            0 <= j < ps.len() && r[i].params == ps[j].params
}

proof fn lemma_params_from_trans(a: Seq<PropertyView>, b: Seq<PropertyView>, c: Seq<PropertyView>)
    requires
        params_from(b, a),
        params_from(c, b),
    ensures
        params_from(c, a),
{
    assert forall|i: int| 0 <= i < c.len() implies (#[trigger] c[i]).params is None || exists|j: int|
        0 <= j < a.len() && c[i].params == a[j].params by {
        if c[i].params is Some {
            let j = choose|j: int| 0 <= j < b.len() && c[i].params == b[j].params;
            assert(b[j].params is Some);
            let m = choose|m: int| 0 <= m < a.len() && b[j].params == a[m].params;
        }
    }
}

proof fn lemma_without_params(ps: Seq<PropertyView>, n: Seq<char>)
    ensures
        params_from(without_name(ps, n), ps),
{
    lemma_index_of(ps, n);
    let r = without_name(ps, n);
    let k = index_of(ps, n);
    assert forall|i: int| 0 <= i < r.len() implies (#[trigger] r[i]).params is None || exists|j: int|
        0 <= j < ps.len() && r[i].params == ps[j].params by {
        if k >= 0 && i == k {
            assert(r[i] == ps[ps.len() - 1]);
        } else {
            assert(r[i] == ps[i]);
        }
    }
}

proof fn lemma_with_value_params(ps: Seq<PropertyView>, n: Seq<char>, v: Seq<char>)
    ensures
        params_from(with_value(ps, n, v), ps),
{
    lemma_index_of(ps, n);
    let r = with_value(ps, n, v);
    assert forall|i: int| 0 <= i < r.len() implies (#[trigger] r[i]).params is None || exists|j: int|
        0 <= j < ps.len() && r[i].params == ps[j].params by {
        if i < ps.len() {
            assert(r[i].params == ps[i].params);
        }
    }
}

/// The toggle introduces no parameter: each property of the result has no
/// parameters or those of a property of the input.
pub proof fn lemma_toggle_params(ps: Seq<PropertyView>, stamp: Seq<char>)
    ensures
        params_from(toggled(ps, stamp), ps),
        props_safe(ps) ==> props_safe(toggled(ps, stamp)),
{
    let c = completed_key();
    let s = status_key();
    let p = percent_key();
    let t = toggled(ps, stamp);
    if is_completed(ps) {
        let a = without_name(ps, c);
        let b = without_name(a, s);
        lemma_without_params(ps, c);
        lemma_without_params(a, s);
        lemma_without_params(b, p);
        lemma_params_from_trans(ps, a, b);
        lemma_params_from_trans(ps, b, t);
    } else {
        let a = with_value(ps, c, stamp);
        let b = with_value(a, s, "COMPLETED"@);
        lemma_with_value_params(ps, c, stamp);
        lemma_with_value_params(a, s, "COMPLETED"@);
        lemma_with_value_params(b, p, "100"@);
        lemma_params_from_trans(ps, a, b);
        lemma_params_from_trans(ps, b, t);
    }
    if props_safe(ps) {
        assert forall|i: int| 0 <= i < t.len() implies params_safe(#[trigger] t[i].params) by {
            if t[i].params is Some {
                let j = choose|j: int| 0 <= j < ps.len() && t[i].params == ps[j].params;
                assert(params_safe(ps[j].params));
            }
        }
    }
}

/// Whether a parameter value is safe to write: see `param_value_safe`.
pub fn is_param_value_safe(v: &String) -> (r: bool)
    ensures
        r == param_value_safe(v@),
{
    let n = v.as_str().unicode_len();
    if n == 0 {
        return false;
    }
    let mut all_ascii = true;
    let mut none_escapable = true;
    let mut k: usize = 0;
    while k < n
        invariant
            0 <= k <= n,
            n == v@.len(),
            all_ascii == forall|m: int| 0 <= m < k ==> ascii(#[trigger] v@[m]),
            none_escapable == forall|m: int| 0 <= m < k ==> !escapable(#[trigger] v@[m]),
        decreases n - k,
    {
        let c = v.as_str().get_char(k);
        if (c as u32) >= 128 {
            all_ascii = false;
        }
        if c == '"' || c == '\n' || c == ';' || c == ':' || c == ',' || c == '\\' {
            none_escapable = false;
        }
        k = k + 1;
    }
    let first = v.as_str().get_char(0);
    all_ascii || ((first as u32) < 128 && none_escapable)
}

/// Whether every value of every parameter is safe to write.
pub fn are_params_safe(params: &Option<Vec<(String, Vec<String>)>>) -> (r: bool)
    ensures
        r == params_safe(*params),
{
    match params {
        None => true,
        Some(ps) => {
            let mut i: usize = 0;
            while i < ps.len()
                invariant
                    0 <= i <= ps@.len(),
                    *params == Some(*ps),
                    forall|a: int, b: int|
                        0 <= a < i && 0 <= b < ps@[a].1@.len() ==> param_value_safe(
                            #[trigger] ps@[a].1@[b]@,
                        ),
                decreases ps@.len() - i,
            {
                let vs = &ps[i].1;
                let mut j: usize = 0;
                while j < vs.len()
                    invariant
                        0 <= j <= vs@.len(),
                        i < ps@.len(),
                        *params == Some(*ps),
                        vs == ps@[i as int].1,
                        forall|a: int, b: int|
                            0 <= a < i && 0 <= b < ps@[a].1@.len() ==> param_value_safe(
                                #[trigger] ps@[a].1@[b]@,
                            ),
                        forall|b: int| 0 <= b < j ==> param_value_safe(#[trigger] vs@[b]@),
                    decreases vs@.len() - j,
                {
                    if !is_param_value_safe(&vs[j]) {
                        assert(!param_value_safe(ps@[i as int].1@[j as int]@));
                        assert(vs@.len() == ps@[i as int].1@.len());
                        assert(params->Some_0 == *ps);
                        assert(!param_value_safe(params->Some_0@[i as int].1@[j as int]@));
                        assert(!params_safe(*params));
                        return false;
                    }
                    j = j + 1;
                }
                i = i + 1;
            }
            true
        },
    }
}

/// Whether every property of the list has safe parameter values.
pub fn are_props_safe(props: &Vec<Property>) -> (r: bool)
    ensures
        r == props_safe(props_view(props@)),
{
    let mut i: usize = 0;
    while i < props.len()
        invariant
            0 <= i <= props@.len(),
            forall|a: int| 0 <= a < i ==> params_safe(#[trigger] props_view(props@)[a].params),
        decreases props@.len() - i,
    {
        if !are_params_safe(&props[i].params) {
            assert(!params_safe(props_view(props@)[i as int].params));
            return false;
        }
        i = i + 1;
    }
    true
}

/// Whether the todo given by its properties is marked completed.
pub fn is_marked_completed(props: &Vec<Property>) -> (r: bool)
    ensures
        r == is_completed(props_view(props@)),
{
    let completed = "COMPLETED".to_owned();
    proof {
        lemma_index_of(props_view(props@), completed_key());
    }
    position(props, &completed).is_some()
}

} // verus!
