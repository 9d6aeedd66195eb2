//! Paths into a JSON value: a stack of object keys and array indices.
use vstd::prelude::*;
use crate::text::{decimal, push_decimal, push_str};

verus! {

/// One step into a JSON value: an object key or an array position.
#[derive(Debug)]
pub enum JsonIndex {
    Key(String),
    Number(usize),
}

/// What a [`JsonIndex`] denotes, as a mathematical value.
pub enum IndexView {
    Key(Seq<char>),
    Number(nat),
}

impl View for JsonIndex {
    type V = IndexView;

    open spec fn view(&self) -> IndexView {
        match self {
            JsonIndex::Key(k) => IndexView::Key(k@),
            JsonIndex::Number(n) => IndexView::Number(*n as nat),
        }
    }
}

/// The text a step is displayed as: the key itself, or the index in decimal.
pub open spec fn index_text(i: IndexView) -> Seq<char> {
    match i {
        IndexView::Key(k) => k,
        IndexView::Number(n) => decimal(n),
    }
}

/// The text of a path: its steps' texts joined with `/`.
pub open spec fn path_text(p: Seq<IndexView>) -> Seq<char>
    decreases p.len(),
{
    if p.len() == 0 {
        Seq::empty()
    } else if p.len() == 1 {
        index_text(p[0])
    } else {
        path_text(p.drop_last()) + seq!['/'] + index_text(p.last())
    }
}

impl JsonIndex {
    /// An independent copy of this step.
    pub fn to_owned(&self) -> (r: JsonIndex)
        ensures
            r@ == self@,
    {
        match self {
            JsonIndex::Key(key) => JsonIndex::Key(key.clone()),
            JsonIndex::Number(n) => JsonIndex::Number(*n),
        }
    }

    /// Whether two steps denote the same key or the same position.
    pub fn same_as(&self, other: &JsonIndex) -> (r: bool)
        ensures
            r == (self@ == other@),
    {
        match (self, other) {
            (JsonIndex::Key(a), JsonIndex::Key(b)) => a.eq(b),
            (JsonIndex::Number(a), JsonIndex::Number(b)) => *a == *b,
            _ => false,
        }
    }

    /// The display text of this step.
    pub fn to_text(&self) -> (s: String)
        ensures
            s@ == index_text(self@),
    {
        let mut s = String::new();
        self.push_text(&mut s);
        assert(Seq::<char>::empty() + index_text(self@) =~= index_text(self@));
        s
    }

    fn push_text(&self, out: &mut String)
        ensures
            final(out)@ == old(out)@ + index_text(self@),
    {
        match self {
            JsonIndex::Key(key) => push_str(out, key.as_str()),
            JsonIndex::Number(n) => push_decimal(out, *n),
        }
    }
}

impl From<usize> for JsonIndex {
    fn from(value: usize) -> (r: JsonIndex) {
        JsonIndex::Number(value)
    }
}

impl vstd::std_specs::convert::FromSpecImpl<usize> for JsonIndex {
    open spec fn obeys_from_spec() -> bool {
        true
    }

    open spec fn from_spec(v: usize) -> JsonIndex {
        JsonIndex::Number(v)
    }
}

impl From<String> for JsonIndex {
    fn from(value: String) -> (r: JsonIndex) {
        JsonIndex::Key(value)
    }
}

impl vstd::std_specs::convert::FromSpecImpl<String> for JsonIndex {
    open spec fn obeys_from_spec() -> bool {
        true
    }

    open spec fn from_spec(v: String) -> JsonIndex {
        JsonIndex::Key(v)
    }
}

/// A location inside a JSON value; the empty path is the root.
#[derive(Debug)]
pub struct JsonPath {
    pub path: Vec<JsonIndex>,
}

impl View for JsonPath {
    type V = Seq<IndexView>;

    open spec fn view(&self) -> Seq<IndexView> {
        self.path@.map_values(|i: JsonIndex| i@)
    }
}

impl JsonPath {
    /// The root path.
    pub fn new() -> (p: JsonPath)
        ensures
            p@ == Seq::<IndexView>::empty(),
    {
        let p = JsonPath { path: Vec::new() };
        assert(p@ =~= Seq::<IndexView>::empty());
        p
    }

    /// Descends one step; returns the path for chaining.
    pub fn push_index(&mut self, index: JsonIndex) -> (r: &mut Self)
        ensures
            (*r)@ == old(self)@.push(index@),
            *final(self) == *final(r),
    {
        self.path.push(index);
        proof {
            assert(self@ =~= old(self)@.push(index@));
        }
        self
    }

    /// Goes back up one step, returning the step removed; `None` at the root.
    pub fn pop(&mut self) -> (r: Option<JsonIndex>)
        ensures
            old(self)@.len() == 0 ==> r is None && final(self)@ == old(self)@,
            old(self)@.len() > 0 ==> (r matches Some(i) && i@ == old(self)@.last()
                && final(self)@ == old(self)@.drop_last()),
    {
        let r = self.path.pop();
        proof {
            if old(self)@.len() > 0 {
                assert(self@ =~= old(self)@.drop_last());
            }
        }
        r
    }

    /// An independent copy of this path.
    pub fn clone_path(&self) -> (r: JsonPath)
        ensures
            r@ == self@,
    {
        let mut out: Vec<JsonIndex> = Vec::new();
        let n = self.path.len();
        for i in 0..n
            invariant
                n == self.path@.len(),
                out@.len() == i,
                forall|j: int| 0 <= j < i ==> (#[trigger] out@[j])@ == self.path@[j]@,
        {
            out.push(self.path[i].to_owned());
        }
        let r = JsonPath { path: out };
        assert(r@ =~= self@);
        r
    }

    /// Whether two paths denote the same location.
    pub fn same_as(&self, other: &JsonPath) -> (r: bool)
        ensures
            r == (self@ == other@),
    {
        let n = self.path.len();
        if n != other.path.len() {
            assert(self@.len() != other@.len());
            return false;
        }
        for i in 0..n
            invariant
                n == self.path@.len(),
                n == other.path@.len(),
                forall|j: int| 0 <= j < i ==> self@[j] == other@[j],
        {
            if !self.path[i].same_as(&other.path[i]) {
                assert(self@[i as int] != other@[i as int]);
                return false;
            }
        }
        assert(self@ =~= other@);
        true
    }

    /// The display text of this path: the steps joined with `/`.
    pub fn to_text(&self) -> (s: String)
        ensures
            s@ == path_text(self@),
    {
        let mut s = String::new();
        let n = self.path.len();
        for i in 0..n
            invariant
                n == self.path@.len(),
                s@ == path_text(self@.subrange(0, i as int)),
        {
            if i > 0 {
                push_str(&mut s, "/");
                proof { reveal_strlit("/"); }
            }
            self.path[i].push_text(&mut s);
            proof {
                let p = self@.subrange(0, i + 1);
                assert(p.drop_last() =~= self@.subrange(0, i as int));
                assert(p.last() == self@[i as int]);
                if i == 0 {
                    assert(self@.subrange(0, 0) =~= Seq::<IndexView>::empty());
                }
            }
        }
        assert(self@.subrange(0, n as int) =~= self@);
        s
    }
}

/// Going down one step and back up returns the step taken and leaves the
/// path as it was.
pub proof fn law_pop_undoes_push(path: Seq<IndexView>, index: IndexView)
    ensures
        path.push(index).len() > 0,
        path.push(index).last() == index,
        path.push(index).drop_last() == path,
{
    assert(path.push(index).drop_last() =~= path);
}

/// The root path displays as the empty text; one more step adds `/` and
/// the step's text, except below the root.
pub proof fn law_path_text_push(path: Seq<IndexView>, index: IndexView)
    ensures
        path_text(Seq::empty()) == Seq::<char>::empty(),
        path.len() == 0 ==> path_text(path.push(index)) == index_text(index),
        path.len() > 0 ==> path_text(path.push(index)) == path_text(path) + seq!['/'] + index_text(index),
{
    assert(path.push(index).drop_last() =~= path);
}

} // verus!
