//! Browsing state of the JSON object widget: which object entries are
//! expanded, the text previews of values, and the rows that the widget shows.
use vstd::prelude::*;
use crate::json_path::{IndexView, JsonIndex, JsonPath};
use crate::text::{decimal, push_decimal, push_str};

verus! {

/// A JSON value as the widget reads it. A number is held as the text that
/// the JSON library prints for it; object entries keep their iteration order.
#[derive(Debug)]
pub enum JsonValue {
    Null,
    Bool(bool),
    Number(String),
    String(String),
    Array(Vec<JsonValue>),
    Object(Vec<(String, JsonValue)>),
}

/// `"null"`
pub open spec fn null_text() -> Seq<char> {
    seq!['n', 'u', 'l', 'l']
}

/// `"true"` or `"false"`
pub open spec fn bool_text(b: bool) -> Seq<char> {
    if b {
        seq!['t', 'r', 'u', 'e']
    } else {
        seq!['f', 'a', 'l', 's', 'e']
    }
}

/// `"[...](len="`
pub open spec fn array_prefix() -> Seq<char> {
    seq!['[', '.', '.', '.', ']', '(', 'l', 'e', 'n', '=']
}

/// `"{...}(len="`
pub open spec fn object_prefix() -> Seq<char> {
    seq!['{', '.', '.', '.', '}', '(', 'l', 'e', 'n', '=']
}

/// The one-line preview of a value shown beside an object key.
pub open spec fn preview(v: JsonValue) -> Seq<char> {
    match v {
        JsonValue::Null => null_text(),
        JsonValue::Bool(b) => bool_text(b),
        JsonValue::Number(t) => t@,
        JsonValue::String(s) => s@,
        JsonValue::Array(vs) => array_prefix() + decimal(vs@.len()) + seq![')'],
        JsonValue::Object(es) => object_prefix() + decimal(es@.len()) + seq![')'],
    }
}

/// Whether the entry at path `p` is expanded, given the remembered states:
/// the last remembered state for `p`, and expanded when none is remembered.
pub open spec fn is_open(states: Seq<(Seq<IndexView>, bool)>, p: Seq<IndexView>) -> bool {
    match state_of(states, p) {
        Some(b) => b,
        None => true,
    }
}

/// The last remembered state for path `p`, if any.
pub open spec fn state_of(states: Seq<(Seq<IndexView>, bool)>, p: Seq<IndexView>) -> Option<bool>
    decreases states.len(),
{
    if states.len() == 0 {
        None
    } else if states.last().0 == p {
        Some(states.last().1)
    } else {
        state_of(states.drop_last(), p)
    }
}

/// Remembered expansion state of one path.
#[derive(Debug)]
pub struct PerPathState {
    pub open: bool,
}

proof fn lemma_state_of_push(s: Seq<(Seq<IndexView>, bool)>, p: Seq<IndexView>, b: bool, q: Seq<IndexView>)
    ensures
        state_of(s.push((p, b)), q) == if q == p { Some(b) } else { state_of(s, q) },
{
    assert(s.push((p, b)).drop_last() =~= s);
}

proof fn lemma_state_of_update(s: Seq<(Seq<IndexView>, bool)>, i: int, p: Seq<IndexView>, b: bool, q: Seq<IndexView>)
    requires
        0 <= i < s.len(),
        s[i].0 == p,
        forall|j: int| i < j < s.len() ==> s[j].0 != p,
    ensures
        state_of(s.update(i, (p, b)), q) == if q == p { Some(b) } else { state_of(s, q) },
    decreases s.len(),
{
    let u = s.update(i, (p, b));
    if i == s.len() - 1 {
        assert(u.drop_last() =~= s.drop_last());
    } else {
        assert(u.drop_last() =~= s.drop_last().update(i, (p, b)));
        assert(u.last() == s.last());
        lemma_state_of_update(s.drop_last(), i, p, b, q);
    }
}

proof fn lemma_state_of_absent(s: Seq<(Seq<IndexView>, bool)>, p: Seq<IndexView>)
    requires
        forall|j: int| 0 <= j < s.len() ==> s[j].0 != p,
    ensures
        state_of(s, p) is None,
    decreases s.len(),
{
    if s.len() > 0 {
        lemma_state_of_absent(s.drop_last(), p);
    }
}

/// The remembered states as (path, expanded) pairs.
pub open spec fn states_view(v: Seq<(JsonPath, PerPathState)>) -> Seq<(Seq<IndexView>, bool)> {
    v.map_values(|e: (JsonPath, PerPathState)| (e.0@, e.1.open))
}

/// Looks up the state remembered for `path`, remembering "expanded" first if
/// there is none, and hands it out for reading or changing.
pub fn path_state_in<'a>(states: &'a mut Vec<(JsonPath, PerPathState)>, path: &JsonPath) -> (r: &'a mut PerPathState)
    ensures
        r.open == is_open(states_view(old(states)@), path@),
        forall|q: Seq<IndexView>| #[trigger] state_of(states_view(final(states)@), q)
            == if q == path@ { Some(final(r).open) } else { state_of(states_view(old(states)@), q) },
{
    let n = states.len();
    let mut k = n;
    while k > 0
        invariant
            k <= n,
            n == states@.len(),
            forall|j: int| k <= j < n ==> (#[trigger] states@[j]).0@ != path@,
        ensures
            k > 0 ==> states@[k - 1].0@ == path@,
            forall|j: int| k <= j < n ==> (#[trigger] states@[j]).0@ != path@,
        decreases k,
    {
        if states[k - 1].0.same_as(path) {
            break;
        }
        k = k - 1;
    }
    let ghost sv = states_view(states@);
    if k == 0 {
        proof {
            lemma_state_of_absent(sv, path@);
        }
        let p = path.clone_path();
        let ghost pv = p@;
        states.push((p, PerPathState { open: true }));
        let i = states.len() - 1;
        proof {
            let s1 = states_view(states@);
            assert forall|x: (JsonPath, PerPathState)| #[trigger] states_view(states@.update(i as int, x))
                == s1.update(i as int, (x.0@, x.1.open)) by {
                assert(states_view(states@.update(i as int, x)) =~= s1.update(i as int, (x.0@, x.1.open)));
            }
            assert(s1 =~= sv.push((pv, true)));
            assert forall|b: bool, q: Seq<IndexView>| #[trigger] state_of(sv.push((pv, true)).update(i as int, (pv, b)), q)
                == if q == path@ { Some(b) } else { state_of(sv, q) } by {
                assert(sv.push((pv, true)).update(i as int, (pv, b)) =~= sv.push((pv, b)));
                lemma_state_of_push(sv, pv, b, q);
            }
        }
        &mut states[i].1
    } else {
        proof {
            assert forall|x: (JsonPath, PerPathState)| #[trigger] states_view(states@.update(k - 1, x))
                == sv.update(k - 1, (x.0@, x.1.open)) by {
                assert(states_view(states@.update(k - 1, x)) =~= sv.update(k - 1, (x.0@, x.1.open)));
            }
            assert forall|b: bool, q: Seq<IndexView>| #[trigger] state_of(sv.update(k - 1, (path@, b)), q)
                == if q == path@ { Some(b) } else { state_of(sv, q) } by {
                lemma_state_of_update(sv, k - 1, path@, b, q);
            }
            assert(state_of(sv, path@) == Some(states@[k - 1].1.open)) by {
                lemma_state_of_update(sv, k - 1, path@, states@[k - 1].1.open, path@);
                assert(sv.update(k - 1, (path@, states@[k - 1].1.open)) =~= sv);
            }
        }
        &mut states[k - 1].1
    }
}

/// Builds the preview text of a value (see [`preview`]).
pub fn preview_text(value: &JsonValue) -> (s: String)
    ensures
        s@ == preview(*value),
{
    let mut s = String::new();
    match value {
        JsonValue::Null => {
            push_str(&mut s, "null");
            proof { reveal_strlit("null"); }
        },
        JsonValue::Bool(b) => {
            if *b {
                push_str(&mut s, "true");
                proof { reveal_strlit("true"); }
            } else {
                push_str(&mut s, "false");
                proof { reveal_strlit("false"); }
            }
        },
        JsonValue::Number(t) => {
            push_str(&mut s, t.as_str());
        },
        JsonValue::String(t) => {
            push_str(&mut s, t.as_str());
        },
        JsonValue::Array(vs) => {
            push_str(&mut s, "[...](len=");
            proof { reveal_strlit("[...](len="); }
            push_decimal(&mut s, vs.len());
            push_str(&mut s, ")");
            proof { reveal_strlit(")"); }
        },
        JsonValue::Object(es) => {
            push_str(&mut s, "{...}(len=");
            proof { reveal_strlit("{...}(len="); }
            push_decimal(&mut s, es.len());
            push_str(&mut s, ")");
            proof { reveal_strlit(")"); }
        },
    }
    assert(s@ =~= preview(*value));
    s
}

/// One row that the widget shows.
#[derive(Debug)]
pub enum OutlineRow {
    /// An object entry: its path, key, value preview, and whether its value's
    /// rows are shown under it.
    Entry { path: JsonPath, key: String, preview: String, open: bool },
    /// An array element: its path and position. The element's own rows follow.
    Element { path: JsonPath, index: usize },
}

/// What an [`OutlineRow`] shows, as a mathematical value.
pub enum RowView {
    Entry { path: Seq<IndexView>, key: Seq<char>, preview: Seq<char>, open: bool },
    Element { path: Seq<IndexView>, index: nat },
}

impl View for OutlineRow {
    type V = RowView;

    open spec fn view(&self) -> RowView {
        match self {
            OutlineRow::Entry { path, key, preview, open } => RowView::Entry {
                path: path@,
                key: key@,
                preview: preview@,
                open: *open,
            },
            OutlineRow::Element { path, index } => RowView::Element { path: path@, index: *index as nat },
        }
    }
}

/// The rows of a list of rows.
pub open spec fn rows_view(rows: Seq<OutlineRow>) -> Seq<RowView> {
    rows.map_values(|r: OutlineRow| r@)
}

/// The rows shown for value `v` located at `path`, where `open` says which
/// object entries are expanded: each object entry gives one row, followed by
/// its value's rows when expanded; each array element gives one row followed
/// by its value's rows; other values give no rows.
pub open spec fn outline(v: JsonValue, path: Seq<IndexView>, open: spec_fn(Seq<IndexView>) -> bool) -> Seq<RowView>
    decreases v,
{
    match v {
        JsonValue::Array(vs) => element_rows(vs@, path, open),
        JsonValue::Object(es) => entry_rows(es@, path, open),
        _ => Seq::empty(),
    }
}

/// The rows shown for the elements `vs` of an array at `path`.
pub open spec fn element_rows(vs: Seq<JsonValue>, path: Seq<IndexView>, open: spec_fn(Seq<IndexView>) -> bool) -> Seq<RowView>
    decreases vs,
{
    if vs.len() == 0 {
        Seq::empty()
    } else {
        let i = vs.len() - 1;
        let p = path.push(IndexView::Number(i as nat));
        element_rows(vs.subrange(0, i), path, open)
            + seq![RowView::Element { path: p, index: i as nat }]
            + outline(vs[i], p, open)
    }
}

/// The rows shown for the entries `es` of an object at `path`.
pub open spec fn entry_rows(es: Seq<(String, JsonValue)>, path: Seq<IndexView>, open: spec_fn(Seq<IndexView>) -> bool) -> Seq<RowView>
    decreases es,
{
    if es.len() == 0 {
        Seq::empty()
    } else {
        let i = es.len() - 1;
        let p = path.push(IndexView::Key(es[i].0@));
        let o = open(p);
        entry_rows(es.subrange(0, i), path, open)
            + seq![RowView::Entry { path: p, key: es[i].0@, preview: preview(es[i].1), open: o }]
            + if o { outline(es[i].1, p, open) } else { Seq::empty() }
    }
}

/// The location a row stands for.
pub open spec fn row_path(r: RowView) -> Seq<IndexView> {
    match r {
        RowView::Entry { path, .. } => path,
        RowView::Element { path, .. } => path,
    }
}

/// Every object entry passed on the way from `base` down to `p` (each prefix
/// of `p` longer than `base` and shorter than `p` that ends in a key) is
/// expanded.
pub open spec fn entries_open_between(base: Seq<IndexView>, p: Seq<IndexView>, open: spec_fn(Seq<IndexView>) -> bool) -> bool {
    forall|k: int| base.len() < k < p.len() && (#[trigger] p.subrange(0, k)).last() is Key ==> open(p.subrange(0, k))
}

/// The rows shown below `base`: each row's location lies strictly below
/// `base`, only under expanded entries, and each entry row is shown
/// expanded exactly when `open` says so.
pub open spec fn rows_follow_states(rows: Seq<RowView>, base: Seq<IndexView>, open: spec_fn(Seq<IndexView>) -> bool) -> bool {
    forall|i: int| 0 <= i < rows.len() ==> {
        let p = #[trigger] row_path(rows[i]);
        &&& base.len() < p.len()
        &&& p.subrange(0, base.len() as int) == base
        &&& entries_open_between(base, p, open)
        &&& (rows[i] matches RowView::Entry { path, open: o, .. } ==> o == open(path))
    }
}

proof fn lemma_rows_concat(a: Seq<RowView>, b: Seq<RowView>, base: Seq<IndexView>, open: spec_fn(Seq<IndexView>) -> bool)
    requires
        rows_follow_states(a, base, open),
        rows_follow_states(b, base, open),
    ensures
        rows_follow_states(a + b, base, open),
{
    assert forall|i: int| 0 <= i < (a + b).len() implies {
        let p = #[trigger] row_path((a + b)[i]);
        &&& base.len() < p.len()
        &&& p.subrange(0, base.len() as int) == base
        &&& entries_open_between(base, p, open)
        &&& ((a + b)[i] matches RowView::Entry { path, open: o, .. } ==> o == open(path))
    } by {
        if i < a.len() {
            assert((a + b)[i] == a[i]);
            assert(row_path(a[i]) == row_path(a[i]));
        } else {
            assert((a + b)[i] == b[i - a.len()]);
            assert(row_path(b[i - a.len()]) == row_path(b[i - a.len()]));
        }
    }
}

proof fn lemma_rows_lift(rows: Seq<RowView>, base: Seq<IndexView>, x: IndexView, open: spec_fn(Seq<IndexView>) -> bool)
    requires
        rows_follow_states(rows, base.push(x), open),
        x is Key ==> open(base.push(x)),
    ensures
        rows_follow_states(rows, base, open),
{
    let p = base.push(x);
    assert forall|i: int| 0 <= i < rows.len() implies {
        let q = #[trigger] row_path(rows[i]);
        &&& base.len() < q.len()
        &&& q.subrange(0, base.len() as int) == base
        &&& entries_open_between(base, q, open)
        &&& (rows[i] matches RowView::Entry { path, open: o, .. } ==> o == open(path))
    } by {
        let q = row_path(rows[i]);
        assert(q.subrange(0, p.len() as int) == p);
        assert(q.subrange(0, base.len() as int) =~= p.subrange(0, base.len() as int));
        assert(p.subrange(0, base.len() as int) =~= base);
        assert forall|k: int| base.len() < k < q.len() && (#[trigger] q.subrange(0, k)).last() is Key implies open(q.subrange(0, k)) by {
            if k > p.len() {
                assert(entries_open_between(p, q, open));
            } else {
                assert(k == p.len());
                assert(q.subrange(0, k) == p);
                assert(p.last() == x);
            }
        }
    }
}

proof fn lemma_single_row(r: RowView, base: Seq<IndexView>, x: IndexView, open: spec_fn(Seq<IndexView>) -> bool)
    requires
        row_path(r) == base.push(x),
        r matches RowView::Entry { path, open: o, .. } ==> o == open(path),
    ensures
        rows_follow_states(seq![r], base, open),
{
    let p = base.push(x);
    assert(p.subrange(0, base.len() as int) =~= base);
    assert(seq![r][0] == r);
}

proof fn lemma_outline_follows(v: JsonValue, path: Seq<IndexView>, open: spec_fn(Seq<IndexView>) -> bool)
    ensures
        rows_follow_states(outline(v, path, open), path, open),
    decreases v,
{
    match v {
        JsonValue::Array(vs) => lemma_element_rows_follow(vs@, path, open),
        JsonValue::Object(es) => lemma_entry_rows_follow(es@, path, open),
        _ => {},
    }
}

proof fn lemma_element_rows_follow(vs: Seq<JsonValue>, path: Seq<IndexView>, open: spec_fn(Seq<IndexView>) -> bool)
    ensures
        rows_follow_states(element_rows(vs, path, open), path, open),
    decreases vs,
{
    if vs.len() > 0 {
        let i = vs.len() - 1;
        let x = IndexView::Number(i as nat);
        let p = path.push(x);
        lemma_element_rows_follow(vs.subrange(0, i), path, open);
        lemma_outline_follows(vs[i], p, open);
        lemma_rows_lift(outline(vs[i], p, open), path, x, open);
        lemma_single_row(RowView::Element { path: p, index: i as nat }, path, x, open);
        lemma_rows_concat(element_rows(vs.subrange(0, i), path, open), seq![RowView::Element { path: p, index: i as nat }], path, open);
        lemma_rows_concat(
            element_rows(vs.subrange(0, i), path, open) + seq![RowView::Element { path: p, index: i as nat }],
            outline(vs[i], p, open),
            path,
            open,
        );
    }
}

proof fn lemma_entry_rows_follow(es: Seq<(String, JsonValue)>, path: Seq<IndexView>, open: spec_fn(Seq<IndexView>) -> bool)
    ensures
        rows_follow_states(entry_rows(es, path, open), path, open),
    decreases es,
{
    if es.len() > 0 {
        let i = es.len() - 1;
        let x = IndexView::Key(es[i].0@);
        let p = path.push(x);
        let o = open(p);
        let row = RowView::Entry { path: p, key: es[i].0@, preview: preview(es[i].1), open: o };
        lemma_entry_rows_follow(es.subrange(0, i), path, open);
        lemma_single_row(row, path, x, open);
        lemma_rows_concat(entry_rows(es.subrange(0, i), path, open), seq![row], path, open);
        let below = if o { outline(es[i].1, p, open) } else { Seq::<RowView>::empty() };
        if o {
            lemma_outline_follows(es[i].1, p, open);
            lemma_rows_lift(outline(es[i].1, p, open), path, x, open);
        }
        lemma_rows_concat(entry_rows(es.subrange(0, i), path, open) + seq![row], below, path, open);
    }
}

/// The browser's rows follow the remembered states at every depth: each
/// object entry row is shown expanded exactly when its state says so, and
/// every row lies below `base` and under expanded entries only, so a
/// collapsed entry shows none of its value's rows.
pub proof fn law_outline_follows_states(v: JsonValue, base: Seq<IndexView>, open: spec_fn(Seq<IndexView>) -> bool)
    ensures
        forall|i: int| 0 <= i < outline(v, base, open).len() ==> (#[trigger] outline(v, base, open)[i] matches
            RowView::Entry { path, open: o, .. } ==> o == open(path)),
        forall|i: int, k: int| 0 <= i < outline(v, base, open).len() && base.len() < k < row_path(outline(v, base, open)[i]).len()
            && (#[trigger] row_path(#[trigger] outline(v, base, open)[i]).subrange(0, k)).last() is Key
            ==> open(row_path(outline(v, base, open)[i]).subrange(0, k)),
{
    lemma_outline_follows(v, base, open);
    let rows = outline(v, base, open);
    assert forall|i: int| 0 <= i < rows.len() implies (#[trigger] rows[i] matches
        RowView::Entry { path, open: o, .. } ==> o == open(path)) by {
        assert(row_path(rows[i]) == row_path(rows[i]));
    }
    assert forall|i: int, k: int| 0 <= i < rows.len() && base.len() < k < row_path(rows[i]).len()
        && (#[trigger] row_path(#[trigger] rows[i]).subrange(0, k)).last() is Key
        implies open(row_path(rows[i]).subrange(0, k)) by {
        let q = row_path(rows[i]);
        assert(entries_open_between(base, q, open));
        assert(q.subrange(0, k) == q.subrange(0, k));
    }
}

fn walk(
    v: &JsonValue,
    cur: &mut JsonPath,
    states: &mut Vec<(JsonPath, PerPathState)>,
    rows: &mut Vec<OutlineRow>,
    expand_all: bool,
    Ghost(open): Ghost<spec_fn(Seq<IndexView>) -> bool>,
)
    requires
        expand_all ==> forall|q: Seq<IndexView>| #[trigger] open(q),
        !expand_all ==> forall|q: Seq<IndexView>| #[trigger] is_open(states_view(old(states)@), q) == open(q),
    ensures
        expand_all ==> final(states)@ == old(states)@,
        final(cur)@ == old(cur)@,
        !expand_all ==> forall|q: Seq<IndexView>| #[trigger] is_open(states_view(final(states)@), q) == open(q),
        rows_view(final(rows)@) == rows_view(old(rows)@) + outline(*v, old(cur)@, open),
    decreases v,
{
    let ghost base = cur@;
    let ghost rows0 = rows_view(rows@);
    match v {
        JsonValue::Array(vs) => {
            let n = vs.len();
            for i in 0..n
                invariant
                    n == vs@.len(),
                    *v == JsonValue::Array(*vs),
                    cur@ == base,
                    expand_all ==> forall|q: Seq<IndexView>| #[trigger] open(q),
                    expand_all ==> states@ == old(states)@,
                    !expand_all ==> forall|q: Seq<IndexView>| #[trigger] is_open(states_view(states@), q) == open(q),
                    rows_view(rows@) == rows0 + element_rows(vs@.subrange(0, i as int), base, open),
            {
                cur.push_index(JsonIndex::Number(i));
                let ghost p = cur@;
                let ghost before = rows_view(rows@);
                rows.push(OutlineRow::Element { path: cur.clone_path(), index: i });
                assert(rows_view(rows@) =~= before + seq![RowView::Element { path: p, index: i as nat }]);
                proof {
                    assert(decreases_to!(*v => (*v)->Array_0));
                    assert(decreases_to!(*vs => vs@));
                    assert(decreases_to!(vs@ => vs@[i as int]));
                    assert(decreases_to!(*v => vs@[i as int]));
                }
                walk(&vs[i], cur, states, rows, expand_all, Ghost(open));
                cur.pop();
                proof {
                    let s = vs@.subrange(0, i + 1);
                    assert(s.subrange(0, i as int) =~= vs@.subrange(0, i as int));
                    assert(s[i as int] == vs@[i as int]);
                    assert(rows_view(rows@) =~= rows0 + element_rows(s, base, open));
                }
            }
            assert(vs@.subrange(0, n as int) =~= vs@);
        },
        JsonValue::Object(es) => {
            let n = es.len();
            for i in 0..n
                invariant
                    n == es@.len(),
                    *v == JsonValue::Object(*es),
                    cur@ == base,
                    expand_all ==> forall|q: Seq<IndexView>| #[trigger] open(q),
                    expand_all ==> states@ == old(states)@,
                    !expand_all ==> forall|q: Seq<IndexView>| #[trigger] is_open(states_view(states@), q) == open(q),
                    rows_view(rows@) == rows0 + entry_rows(es@.subrange(0, i as int), base, open),
            {
                let entry = &es[i];
                cur.push_index(JsonIndex::Key(entry.0.clone()));
                let ghost p = cur@;
                let o = if expand_all {
                    assert(open(p));
                    true
                } else {
                    let ghost st0 = states_view(states@);
                    let st = path_state_in(states, cur);
                    let o = st.open;
                    assert(o == open(p));
                    assert forall|q: Seq<IndexView>| #[trigger] is_open(states_view(states@), q) == open(q) by {
                        if q != p {
                            assert(is_open(st0, q) == open(q));
                        }
                    }
                    o
                };
                assert(o == open(p));
                let ghost before = rows_view(rows@);
                let pv = preview_text(&entry.1);
                rows.push(OutlineRow::Entry { path: cur.clone_path(), key: entry.0.clone(), preview: pv, open: o });
                assert(rows_view(rows@) =~= before + seq![RowView::Entry { path: p, key: entry.0@, preview: preview(entry.1), open: o }]);
                if o {
                    proof {
                        assert(decreases_to!(*v => (*v)->Object_0));
                        assert(decreases_to!(*es => es@));
                        assert(decreases_to!(es@ => es@[i as int]));
                        assert(decreases_to!(es@[i as int] => es@[i as int].1));
                        assert(decreases_to!(*v => es@[i as int].1));
                    }
                    walk(&entry.1, cur, states, rows, expand_all, Ghost(open));
                } else {
                    assert(rows_view(rows@) =~= rows_view(rows@) + Seq::<RowView>::empty());
                }
                cur.pop();
                proof {
                    let s = es@.subrange(0, i + 1);
                    assert(s.subrange(0, i as int) =~= es@.subrange(0, i as int));
                    assert(s[i as int] == es@[i as int]);
                    assert(rows_view(rows@) =~= rows0 + entry_rows(s, base, open));
                }
            }
            assert(es@.subrange(0, n as int) =~= es@);
        },
        _ => {
            assert(rows_view(rows@) =~= rows0 + outline(*v, base, open));
        },
    }
}

/// The widget's state: the value shown, the location being visited while
/// rendering, and the remembered expansion state of object entries.
pub struct ObjectWidget {
    pub value: JsonValue,
    pub current_path: JsonPath,
    pub by_path: Vec<(JsonPath, PerPathState)>,
}

/// The remembered expansion states of a widget.
pub open spec fn widget_states(w: &ObjectWidget) -> Seq<(Seq<IndexView>, bool)> {
    states_view(w.by_path@)
}

impl ObjectWidget {
    /// A widget showing `value`, at the root, with nothing remembered.
    pub fn new(value: JsonValue) -> (w: ObjectWidget)
        ensures
            w.value == value,
            w.current_path@ == Seq::<IndexView>::empty(),
            w.by_path@.len() == 0,
    {
        ObjectWidget { value, current_path: JsonPath::new(), by_path: Vec::new() }
    }

    /// The state remembered for the current location, remembering
    /// "expanded" first if there is none.
    pub fn path_state(&mut self) -> (r: &mut PerPathState)
        ensures
            r.open == is_open(widget_states(old(self)), old(self).current_path@),
            final(self).current_path@ == old(self).current_path@,
            final(self).value == old(self).value,
            forall|q: Seq<IndexView>| #[trigger] state_of(widget_states(final(self)), q)
                == if q == old(self).current_path@ { Some(final(r).open) } else { state_of(widget_states(old(self)), q) },
    {
        path_state_in(&mut self.by_path, &self.current_path)
    }

    /// Expands a collapsed entry, or collapses an expanded one: the entry
    /// one step `index` below the current location.
    pub fn toggle(&mut self, index: JsonIndex)
        ensures
            final(self).current_path@ == old(self).current_path@,
            final(self).value == old(self).value,
            forall|q: Seq<IndexView>| #[trigger] is_open(widget_states(final(self)), q)
                == if q == old(self).current_path@.push(index@) {
                    !is_open(widget_states(old(self)), q)
                } else {
                    is_open(widget_states(old(self)), q)
                },
    {
        let ghost p = old(self).current_path@.push(index@);
        self.current_path.push_index(index);
        let ghost s0 = widget_states(self);
        let st = path_state_in(&mut self.by_path, &self.current_path);
        st.open = !st.open;
        self.current_path.pop();
        assert forall|q: Seq<IndexView>| #[trigger] is_open(widget_states(self), q)
            == if q == p { !is_open(s0, q) } else { is_open(s0, q) } by {}
    }

    /// The preview text shown beside an object key for `value`.
    pub fn value_text_preview(&mut self, value: &JsonValue) -> (s: String)
        ensures
            s@ == preview(*value),
            *final(self) == *old(self),
    {
        preview_text(value)
    }

    /// The rows shown for the value, object entries expanded as remembered;
    /// every entry visited gets "expanded" remembered if nothing was.
    pub fn outline(&mut self) -> (rows: Vec<OutlineRow>)
        ensures
            rows_view(rows@) == outline(
                old(self).value,
                old(self).current_path@,
                |q: Seq<IndexView>| is_open(widget_states(old(self)), q),
            ),
            final(self).value == old(self).value,
            final(self).current_path@ == old(self).current_path@,
            forall|q: Seq<IndexView>| #[trigger] is_open(widget_states(final(self)), q)
                == is_open(widget_states(old(self)), q),
    {
        let ghost open = |q: Seq<IndexView>| is_open(widget_states(old(self)), q);
        let mut rows: Vec<OutlineRow> = Vec::new();
        walk(&self.value, &mut self.current_path, &mut self.by_path, &mut rows, false, Ghost(open));
        assert(rows_view(rows@) =~= Seq::<RowView>::empty() + outline(self.value, old(self).current_path@, open));
        rows
    }

    /// The rows shown for the value with every object entry expanded; no
    /// state is consulted or changed.
    pub fn outline_expanded(&mut self) -> (rows: Vec<OutlineRow>)
        ensures
            rows_view(rows@) == outline(old(self).value, old(self).current_path@, |q: Seq<IndexView>| true),
            final(self).value == old(self).value,
            final(self).current_path@ == old(self).current_path@,
            final(self).by_path@ == old(self).by_path@,
    {
        let ghost open = |q: Seq<IndexView>| true;
        let mut rows: Vec<OutlineRow> = Vec::new();
        walk(&self.value, &mut self.current_path, &mut self.by_path, &mut rows, true, Ghost(open));
        assert(rows_view(rows@) =~= Seq::<RowView>::empty() + outline(self.value, old(self).current_path@, open));
        rows
    }
}

/// Toggling the same entry twice leaves every entry as expanded or collapsed
/// as it was.
pub proof fn law_toggle_twice_restores(
    s0: Seq<(Seq<IndexView>, bool)>,
    s1: Seq<(Seq<IndexView>, bool)>,
    s2: Seq<(Seq<IndexView>, bool)>,
    p: Seq<IndexView>,
)
    requires
        forall|q: Seq<IndexView>| #[trigger] is_open(s1, q) == if q == p { !is_open(s0, q) } else { is_open(s0, q) },
        forall|q: Seq<IndexView>| #[trigger] is_open(s2, q) == if q == p { !is_open(s1, q) } else { is_open(s1, q) },
    ensures
        forall|q: Seq<IndexView>| #[trigger] is_open(s2, q) == is_open(s0, q),
{
    assert forall|q: Seq<IndexView>| #[trigger] is_open(s2, q) == is_open(s0, q) by {
        assert(is_open(s1, q) == if q == p { !is_open(s0, q) } else { is_open(s0, q) });
    }
}

/// An entry that nothing has been remembered for is shown expanded.
pub proof fn law_unremembered_is_expanded(p: Seq<IndexView>)
    ensures
        is_open(Seq::empty(), p),
{
}

} // verus!
