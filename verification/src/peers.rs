//! Tables keyed by 32-byte ids (endpoints, topics, discovered peers), kept in
//! ascending id order so that every listing of them comes out sorted.
use vstd::prelude::*;

verus! {

/// Byte-wise lexicographic order of ids, from position `i` on.
pub open spec fn key_lt_from(a: Seq<u8>, b: Seq<u8>, i: int) -> bool
    decreases a.len() - i,
{
    if i < 0 || i >= a.len() || i >= b.len() {
        false
    } else if a[i] < b[i] {
        true
    } else if a[i] > b[i] {
        false
    } else {
        key_lt_from(a, b, i + 1)
    }
}

/// `a` comes before `b` in ascending id order.
pub open spec fn key_lt(a: Seq<u8>, b: Seq<u8>) -> bool {
    key_lt_from(a, b, 0)
}

proof fn lemma_key_lt_from_irreflexive(a: Seq<u8>, i: int)
    ensures
        !key_lt_from(a, a, i),
    decreases a.len() - i,
{
    if 0 <= i < a.len() {
        lemma_key_lt_from_irreflexive(a, i + 1);
    }
}

proof fn lemma_key_lt_from_transitive(a: Seq<u8>, b: Seq<u8>, c: Seq<u8>, i: int)
    requires
        a.len() == b.len() == c.len(),
        key_lt_from(a, b, i),
        key_lt_from(b, c, i),
    ensures
        key_lt_from(a, c, i),
    decreases a.len() - i,
{
    if a[i] == b[i] && b[i] == c[i] {
        lemma_key_lt_from_transitive(a, b, c, i + 1);
    }
}

/// Ordering of two ids.
#[derive(PartialEq, Eq, Structural)]
pub enum KeyOrder {
    Less,
    Equal,
    Greater,
}

/// Compares two ids in ascending id order.
pub fn compare_keys(a: &[u8; 32], b: &[u8; 32]) -> (o: KeyOrder)
    ensures
        (o == KeyOrder::Less) == key_lt(a@, b@),
        (o == KeyOrder::Equal) == (a@ == b@),
        (o == KeyOrder::Greater) == key_lt(b@, a@),
{
    let mut i: usize = 0;
    while i < 32
        invariant
            i <= 32,
            a@.len() == 32,
            b@.len() == 32,
            a@.subrange(0, i as int) == b@.subrange(0, i as int),
            key_lt(a@, b@) == key_lt_from(a@, b@, i as int),
            key_lt(b@, a@) == key_lt_from(b@, a@, i as int),
        decreases 32 - i,
    {
        if a[i] < b[i] {
            proof {
                lemma_key_lt_from_irreflexive(a@, 0);
                assert(a@ != b@);
            }
            return KeyOrder::Less;
        } else if a[i] > b[i] {
            proof {
                assert(a@[i as int] != b@[i as int]);
            }
            return KeyOrder::Greater;
        }
        assert(a@.subrange(0, i + 1) =~= a@.subrange(0, i as int).push(a@[i as int]));
        assert(b@.subrange(0, i + 1) =~= b@.subrange(0, i as int).push(b@[i as int]));
        i = i + 1;
    }
    assert(a@ =~= a@.subrange(0, 32));
    assert(b@ =~= b@.subrange(0, 32));
    proof {
        lemma_key_lt_from_irreflexive(a@, 0);
    }
    KeyOrder::Equal
}

/// The ids of a list of entries.
pub open spec fn entry_keys<V>(e: Seq<([u8; 32], V)>) -> Seq<Seq<u8>> {
    e.map_values(|x: ([u8; 32], V)| x.0@)
}

/// Ids in strictly ascending order.
pub open spec fn strictly_ascending(k: Seq<Seq<u8>>) -> bool {
    forall|i: int, j: int| 0 <= i < j < k.len() ==> key_lt(#[trigger] k[i], #[trigger] k[j])
}

/// What a table holds: the state of each id that has one (the last entry
/// for an id, though a well-formed table has one entry per id).
pub open spec fn table_map<V>(e: Seq<([u8; 32], V)>) -> Map<Seq<u8>, V>
    decreases e.len(),
{
    if e.len() == 0 {
        Map::empty()
    } else {
        table_map(e.drop_last()).insert(e.last().0@, e.last().1)
    }
}

proof fn lemma_map_dom_k<V>(e: Seq<([u8; 32], V)>, k: Seq<u8>)
    ensures
        table_map(e).dom().contains(k) <==> exists|i: int| 0 <= i < e.len() && #[trigger] e[i].0@ == k,
    decreases e.len(),
{
    if e.len() > 0 {
        let d = e.drop_last();
        lemma_map_dom_k(d, k);
        assert(table_map(e) == table_map(d).insert(e.last().0@, e.last().1));
        if table_map(e).dom().contains(k) {
            if k == e.last().0@ {
                assert(e[e.len() - 1].0@ == k);
            } else {
                assert(table_map(d).dom().contains(k));
                let i = choose|i: int| 0 <= i < d.len() && #[trigger] d[i].0@ == k;
                assert(e[i] == d[i]);
                assert(e[i].0@ == k);
            }
        }
        if exists|i: int| 0 <= i < e.len() && #[trigger] e[i].0@ == k {
            let i = choose|i: int| 0 <= i < e.len() && #[trigger] e[i].0@ == k;
            if i < e.len() - 1 {
                assert(d[i] == e[i]);
                assert(d[i].0@ == k);
            } else {
                assert(e.last() == e[i]);
            }
        }
    }
}

proof fn lemma_map_dom<V>(e: Seq<([u8; 32], V)>)
    ensures
        forall|k: Seq<u8>| #[trigger] table_map(e).dom().contains(k)
            <==> exists|i: int| 0 <= i < e.len() && #[trigger] e[i].0@ == k,
{
    assert forall|k: Seq<u8>| #[trigger] table_map(e).dom().contains(k)
        <==> exists|i: int| 0 <= i < e.len() && #[trigger] e[i].0@ == k by {
        lemma_map_dom_k(e, k);
    }
}

proof fn lemma_ascending_distinct<V>(e: Seq<([u8; 32], V)>, i: int, j: int)
    requires
        strictly_ascending(entry_keys(e)),
        0 <= i < e.len(),
        0 <= j < e.len(),
        e[i].0@ == e[j].0@,
    ensures
        i == j,
{
    if i < j {
        assert(key_lt(entry_keys(e)[i], entry_keys(e)[j]));
        lemma_key_lt_from_irreflexive(e[i].0@, 0);
    } else if j < i {
        assert(key_lt(entry_keys(e)[j], entry_keys(e)[i]));
        lemma_key_lt_from_irreflexive(e[i].0@, 0);
    }
}

proof fn lemma_map_at<V>(e: Seq<([u8; 32], V)>, i: int)
    requires
        strictly_ascending(entry_keys(e)),
        0 <= i < e.len(),
    ensures
        table_map(e).dom().contains(e[i].0@),
        table_map(e)[e[i].0@] == e[i].1,
    decreases e.len(),
{
    lemma_map_dom(e);
    assert(e[i].0@ == e[i].0@);
    if i < e.len() - 1 {
        let d = e.drop_last();
        assert(entry_keys(d) =~= entry_keys(e).drop_last());
        lemma_map_at(d, i);
        if e.last().0@ == e[i].0@ {
            lemma_ascending_distinct(e, i, e.len() - 1);
        }
    }
}

/// A table of peers keyed by endpoint id, in ascending id order.
pub struct PeerTable<V> {
    pub entries: Vec<([u8; 32], V)>,
}

impl<V> PeerTable<V> {
    /// The table's entries are in strictly ascending id order.
    pub open spec fn wf(&self) -> bool {
        strictly_ascending(entry_keys(self.entries@))
    }

    /// What the table holds.
    pub open spec fn view_map(&self) -> Map<Seq<u8>, V> {
        table_map(self.entries@)
    }

    /// An empty table.
    pub fn new() -> (t: PeerTable<V>)
        ensures
            t.wf(),
            t.view_map() == Map::<Seq<u8>, V>::empty(),
    {
        let t = PeerTable { entries: Vec::new() };
        assert(t.view_map() =~= Map::<Seq<u8>, V>::empty());
        t
    }

    /// Where `key` is, or where it would go.
    fn find(&self, key: &[u8; 32]) -> (r: (usize, bool))
        requires
            self.wf(),
        ensures
            r.0 <= self.entries@.len(),
            forall|j: int| 0 <= j < r.0 ==> key_lt(#[trigger] self.entries@[j].0@, key@),
            r.1 ==> r.0 < self.entries@.len() && self.entries@[r.0 as int].0@ == key@,
            !r.1 ==> forall|j: int| r.0 <= j < self.entries@.len() ==> key_lt(key@, #[trigger] self.entries@[j].0@),
    {
        let n = self.entries.len();
        let mut pos: usize = 0;
        while pos < n
            invariant
                pos <= n,
                n == self.entries@.len(),
                self.wf(),
                forall|j: int| 0 <= j < pos ==> key_lt(#[trigger] self.entries@[j].0@, key@),
            decreases n - pos,
        {
            match compare_keys(&self.entries[pos].0, key) {
                KeyOrder::Less => {},
                KeyOrder::Equal => {
                    return (pos, true);
                },
                KeyOrder::Greater => {
                    proof {
                        assert forall|j: int| pos <= j < self.entries@.len() implies key_lt(key@, #[trigger] self.entries@[j].0@) by {
                            if j > pos {
                                assert(key_lt(entry_keys(self.entries@)[pos as int], entry_keys(self.entries@)[j]));
                                lemma_key_lt_from_transitive(key@, self.entries@[pos as int].0@, self.entries@[j].0@, 0);
                            }
                        }
                    }
                    return (pos, false);
                },
            }
            pos = pos + 1;
        }
        (pos, false)
    }

    /// Whether `key` has an entry.
    pub fn contains(&self, key: &[u8; 32]) -> (b: bool)
        requires
            self.wf(),
        ensures
            b == self.view_map().dom().contains(key@),
    {
        let (pos, found) = self.find(key);
        proof {
            if found {
                lemma_map_at(self.entries@, pos as int);
            } else {
                if self.view_map().dom().contains(key@) {
                    lemma_map_dom(self.entries@);
                    let c = choose|c: int| 0 <= c < self.entries@.len() && #[trigger] self.entries@[c].0@ == key@;
                    lemma_key_lt_from_irreflexive(key@, 0);
                    if c < pos {
                        assert(key_lt(self.entries@[c].0@, key@));
                    } else {
                        assert(key_lt(key@, self.entries@[c].0@));
                    }
                }
            }
        }
        found
    }

    /// The entry for `key`, if any.
    pub fn get(&self, key: &[u8; 32]) -> (r: Option<&V>)
        requires
            self.wf(),
        ensures
            r is Some == self.view_map().dom().contains(key@),
            r matches Some(v) ==> *v == self.view_map()[key@],
    {
        let (pos, found) = self.find(key);
        proof {
            if found {
                lemma_map_at(self.entries@, pos as int);
            } else if self.view_map().dom().contains(key@) {
                lemma_map_dom(self.entries@);
                let c = choose|c: int| 0 <= c < self.entries@.len() && #[trigger] self.entries@[c].0@ == key@;
                lemma_key_lt_from_irreflexive(key@, 0);
                if c < pos {
                    assert(key_lt(self.entries@[c].0@, key@));
                } else {
                    assert(key_lt(key@, self.entries@[c].0@));
                }
            }
        }
        if found {
            Some(&self.entries[pos].1)
        } else {
            None
        }
    }

    proof fn lemma_insert_at(&self, pos: int, key: [u8; 32], v: V)
        requires
            self.wf(),
            0 <= pos <= self.entries@.len(),
            forall|j: int| 0 <= j < pos ==> key_lt(#[trigger] self.entries@[j].0@, key@),
            forall|j: int| pos <= j < self.entries@.len() ==> key_lt(key@, #[trigger] self.entries@[j].0@),
        ensures
            strictly_ascending(entry_keys(self.entries@.insert(pos, (key, v)))),
            table_map(self.entries@.insert(pos, (key, v))) == self.view_map().insert(key@, v),
    {
        let e = self.entries@;
        let f = e.insert(pos, (key, v));
        let kf = entry_keys(f);
        assert forall|i: int, j: int| 0 <= i < j < kf.len() implies key_lt(#[trigger] kf[i], #[trigger] kf[j]) by {
            if i < pos && j < pos {
                assert(key_lt(entry_keys(e)[i], entry_keys(e)[j]));
            } else if i < pos && j == pos {
            } else if i < pos && j > pos {
                assert(key_lt(entry_keys(e)[i], entry_keys(e)[j - 1]));
            } else if i == pos {
                assert(kf[j] == e[j - 1].0@);
            } else {
                assert(key_lt(entry_keys(e)[i - 1], entry_keys(e)[j - 1]));
            }
        }
        let m = self.view_map().insert(key@, v);
        lemma_map_dom(e);
        lemma_map_dom(f);
        assert forall|k: Seq<u8>| table_map(f).dom().contains(k) <==> m.dom().contains(k) by {
            if table_map(f).dom().contains(k) {
                let c = choose|c: int| 0 <= c < f.len() && #[trigger] f[c].0@ == k;
                if c < pos {
                    assert(e[c].0@ == k);
                } else if c > pos {
                    assert(e[c - 1].0@ == k);
                }
            }
            if m.dom().contains(k) {
                if k == key@ {
                    assert(f[pos].0@ == k);
                } else {
                    lemma_map_dom(e);
                    let c = choose|c: int| 0 <= c < e.len() && #[trigger] e[c].0@ == k;
                    if c < pos {
                        assert(f[c].0@ == k);
                    } else {
                        assert(f[c + 1].0@ == k);
                    }
                }
            }
        }
        assert(strictly_ascending(kf));
        assert forall|k: Seq<u8>| table_map(f).dom().contains(k) implies table_map(f)[k] == m[k] by {
            lemma_map_dom(f);
            let c = choose|c: int| 0 <= c < f.len() && #[trigger] f[c].0@ == k;
            lemma_map_at(f, c);
            if k == key@ {
                assert(f[pos].0@ == key@);
                lemma_ascending_distinct(f, c, pos);
            } else if c < pos {
                assert(f[c] == e[c]);
                lemma_map_at(e, c);
            } else if c > pos {
                assert(f[c] == e[c - 1]);
                lemma_map_at(e, c - 1);
            }
        }
        assert(table_map(f) =~= m);
    }

    proof fn lemma_replace_at(&self, pos: int, key: [u8; 32], v: V)
        requires
            self.wf(),
            0 <= pos < self.entries@.len(),
            self.entries@[pos].0@ == key@,
        ensures
            strictly_ascending(entry_keys(self.entries@.update(pos, (key, v)))),
            table_map(self.entries@.update(pos, (key, v))) == self.view_map().insert(key@, v),
    {
        let e = self.entries@;
        let f = e.update(pos, (key, v));
        assert(entry_keys(f) =~= entry_keys(e));
        let m = self.view_map().insert(key@, v);
        lemma_map_dom(e);
        lemma_map_dom(f);
        assert forall|k: Seq<u8>| table_map(f).dom().contains(k) <==> m.dom().contains(k) by {
            if table_map(f).dom().contains(k) {
                let c = choose|c: int| 0 <= c < f.len() && #[trigger] f[c].0@ == k;
                assert(e[c].0@ == k);
            }
            if m.dom().contains(k) {
                if k == key@ {
                    assert(f[pos].0@ == k);
                } else {
                    lemma_map_dom(e);
                    let c = choose|c: int| 0 <= c < e.len() && #[trigger] e[c].0@ == k;
                    assert(f[c].0@ == k);
                }
            }
        }
        assert forall|k: Seq<u8>| table_map(f).dom().contains(k) implies table_map(f)[k] == m[k] by {
            let c = choose|c: int| 0 <= c < f.len() && #[trigger] f[c].0@ == k;
            lemma_map_at(f, c);
            if k == key@ {
                assert(f[pos].0@ == key@);
                lemma_ascending_distinct(f, c, pos);
            } else if c != pos {
                lemma_map_at(e, c);
            }
        }
        assert(table_map(f) =~= m);
    }

    /// Sets the entry for `key`, replacing any earlier one.
    pub fn insert(&mut self, key: [u8; 32], v: V)
        requires
            old(self).wf(),
        ensures
            final(self).wf(),
            final(self).view_map() == old(self).view_map().insert(key@, v),
    {
        let (pos, found) = self.find(&key);
        if found {
            proof {
                self.lemma_replace_at(pos as int, key, v);
            }
            let ghost e = self.entries@;
            let _ = self.entries.remove(pos);
            self.entries.insert(pos, (key, v));
            assert(e.remove(pos as int).insert(pos as int, (key, v)) =~= e.update(pos as int, (key, v)));
        } else {
            proof {
                self.lemma_insert_at(pos as int, key, v);
            }
            self.entries.insert(pos, (key, v));
        }
    }

    /// Adds an entry for `key` unless it has one; an existing entry is kept.
    /// Returns whether an entry was added.
    pub fn insert_if_absent(&mut self, key: [u8; 32], v: V) -> (added: bool)
        requires
            old(self).wf(),
        ensures
            final(self).wf(),
            added == !old(self).view_map().dom().contains(key@),
            added ==> final(self).view_map() == old(self).view_map().insert(key@, v),
            !added ==> final(self).view_map() == old(self).view_map(),
    {
        let (pos, found) = self.find(&key);
        if found {
            proof {
                lemma_map_at(self.entries@, pos as int);
            }
            false
        } else {
            proof {
                self.lemma_insert_at(pos as int, key, v);
                if self.view_map().dom().contains(key@) {
                    lemma_map_dom(self.entries@);
                    let c = choose|c: int| 0 <= c < self.entries@.len() && #[trigger] self.entries@[c].0@ == key@;
                    lemma_key_lt_from_irreflexive(key@, 0);
                    if c < pos {
                        assert(key_lt(self.entries@[c].0@, key@));
                    } else {
                        assert(key_lt(key@, self.entries@[c].0@));
                    }
                }
            }
            self.entries.insert(pos, (key, v));
            true
        }
    }

    /// Removes the entry for `key`, if any; returns whether there was one.
    pub fn remove(&mut self, key: &[u8; 32]) -> (removed: bool)
        requires
            old(self).wf(),
        ensures
            final(self).wf(),
            removed == old(self).view_map().dom().contains(key@),
            final(self).view_map() == old(self).view_map().remove(key@),
    {
        let (pos, found) = self.find(key);
        let ghost e = self.entries@;
        if found {
            proof {
                lemma_map_at(e, pos as int);
            }
            let _ = self.entries.remove(pos);
            proof {
                let f = self.entries@;
                assert forall|i: int, j: int| 0 <= i < j < entry_keys(f).len() implies key_lt(#[trigger] entry_keys(f)[i], #[trigger] entry_keys(f)[j]) by {
                    let oi = if i < pos { i } else { i + 1 };
                    let oj = if j < pos { j } else { j + 1 };
                    assert(key_lt(entry_keys(e)[oi], entry_keys(e)[oj]));
                }
                let m = table_map(e).remove(key@);
                lemma_map_dom(e);
                lemma_map_dom(f);
                assert forall|k: Seq<u8>| table_map(f).dom().contains(k) <==> m.dom().contains(k) by {
                    if table_map(f).dom().contains(k) {
                        let c = choose|c: int| 0 <= c < f.len() && #[trigger] f[c].0@ == k;
                        let oc = if c < pos { c } else { c + 1 };
                        assert(e[oc].0@ == k);
                        if k == key@ {
                            lemma_ascending_distinct(e, oc, pos as int);
                        }
                    }
                    if m.dom().contains(k) {
                        lemma_map_dom(e);
                        let c = choose|c: int| 0 <= c < e.len() && #[trigger] e[c].0@ == k;
                        if c < pos {
                            assert(f[c].0@ == k);
                        } else if c > pos {
                            assert(f[c - 1].0@ == k);
                        }
                    }
                }
                assert(strictly_ascending(entry_keys(f)));
                assert forall|k: Seq<u8>| table_map(f).dom().contains(k) implies table_map(f)[k] == m[k] by {
                    lemma_map_dom(f);
                    let c = choose|c: int| 0 <= c < f.len() && #[trigger] f[c].0@ == k;
                    lemma_map_at(f, c);
                    let oc = if c < pos { c } else { c + 1 };
                    assert(f[c] == e[oc]);
                    lemma_map_at(e, oc);
                    assert(m.dom().contains(k));
                    assert(k != key@);
                    assert(m[k] == table_map(e)[k]);
                }
                assert(table_map(f) =~= m);
            }
            true
        } else {
            proof {
                if table_map(e).dom().contains(key@) {
                    lemma_map_dom(e);
                    let c = choose|c: int| 0 <= c < e.len() && #[trigger] e[c].0@ == key@;
                    lemma_key_lt_from_irreflexive(key@, 0);
                    if c < pos {
                        assert(key_lt(e[c].0@, key@));
                    } else {
                        assert(key_lt(key@, e[c].0@));
                    }
                }
                assert(table_map(e) =~= table_map(e).remove(key@));
            }
            false
        }
    }

    /// The ids that have entries, in ascending order.
    pub fn keys(&self) -> (ks: Vec<[u8; 32]>)
        requires
            self.wf(),
        ensures
            ks@.map_values(|k: [u8; 32]| k@) == entry_keys(self.entries@),
            strictly_ascending(ks@.map_values(|k: [u8; 32]| k@)),
            forall|k: Seq<u8>| #[trigger] self.view_map().dom().contains(k)
                <==> exists|i: int| 0 <= i < ks@.len() && #[trigger] ks@[i]@ == k,
    {
        let mut ks: Vec<[u8; 32]> = Vec::new();
        let n = self.entries.len();
        for i in 0..n
            invariant
                n == self.entries@.len(),
                ks@.len() == i,
                forall|j: int| 0 <= j < i ==> #[trigger] ks@[j] == self.entries@[j].0,
        {
            ks.push(self.entries[i].0);
        }
        assert(ks@.map_values(|k: [u8; 32]| k@) =~= entry_keys(self.entries@));
        assert forall|k: Seq<u8>| #[trigger] self.view_map().dom().contains(k)
            <==> exists|i: int| 0 <= i < ks@.len() && #[trigger] ks@[i]@ == k by {
            lemma_map_dom(self.entries@);
            if self.view_map().dom().contains(k) {
                lemma_map_dom(self.entries@);
                let c = choose|c: int| 0 <= c < self.entries@.len() && #[trigger] self.entries@[c].0@ == k;
                assert(ks@[c]@ == k);
            }
            if exists|i: int| 0 <= i < ks@.len() && #[trigger] ks@[i]@ == k {
                let c = choose|i: int| 0 <= i < ks@.len() && #[trigger] ks@[i]@ == k;
                assert(self.entries@[c].0@ == k);
            }
        }
        ks
    }
}

} // verus!
