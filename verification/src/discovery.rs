//! Peers found on the local network by the peer-to-peer demo panel. Their
//! ids are byte strings of any length (multihash-encoded keys), kept without
//! repeats in ascending byte-string order, the order in which the panel
//! lists them.
use vstd::prelude::*;
use crate::peers::KeyOrder;

verus! {

/// Byte-string order from position `i` on: the first differing byte
/// decides, and a proper prefix comes first.
pub open spec fn bytes_lt_from(a: Seq<u8>, b: Seq<u8>, i: int) -> bool
    decreases a.len() - i,
{
    if i < 0 {
        false
    } else if i >= a.len() {
        i < b.len()
    } else if i >= b.len() {
        false
    } else if a[i] < b[i] {
        true
    } else if a[i] > b[i] {
        false
    } else {
        bytes_lt_from(a, b, i + 1)
    }
}

/// `a` comes before `b` in byte-string order.
pub open spec fn bytes_lt(a: Seq<u8>, b: Seq<u8>) -> bool {
    bytes_lt_from(a, b, 0)
}

proof fn lemma_bytes_lt_from_irreflexive(a: Seq<u8>, i: int)
    ensures
        !bytes_lt_from(a, a, i),
    decreases a.len() - i,
{
    if 0 <= i < a.len() {
        lemma_bytes_lt_from_irreflexive(a, i + 1);
    }
}

proof fn lemma_bytes_lt_from_transitive(a: Seq<u8>, b: Seq<u8>, c: Seq<u8>, i: int)
    requires
        bytes_lt_from(a, b, i),
        bytes_lt_from(b, c, i),
    ensures
        bytes_lt_from(a, c, i),
    decreases a.len() - i,
{
    if 0 <= i < a.len() && i < b.len() && i < c.len() && a[i] == b[i] && b[i] == c[i] {
        lemma_bytes_lt_from_transitive(a, b, c, i + 1);
    }
}

/// Compares two ids in byte-string order.
pub fn compare_bytes(a: &Vec<u8>, b: &Vec<u8>) -> (o: KeyOrder)
    ensures
        (o == KeyOrder::Less) == bytes_lt(a@, b@),
        (o == KeyOrder::Equal) == (a@ == b@),
        (o == KeyOrder::Greater) == bytes_lt(b@, a@),
{
    let mut i: usize = 0;
    while i < a.len() && i < b.len()
        invariant
            i <= a@.len(),
            i <= b@.len(),
            a@.subrange(0, i as int) == b@.subrange(0, i as int),
            bytes_lt(a@, b@) == bytes_lt_from(a@, b@, i as int),
            bytes_lt(b@, a@) == bytes_lt_from(b@, a@, i as int),
        decreases a@.len() - i,
    {
        if a[i] < b[i] {
            assert(a@[i as int] != b@[i as int]);
            return KeyOrder::Less;
        } else if a[i] > b[i] {
            assert(a@[i as int] != b@[i as int]);
            return KeyOrder::Greater;
        }
        assert(a@.subrange(0, i + 1) =~= a@.subrange(0, i as int).push(a@[i as int]));
        assert(b@.subrange(0, i + 1) =~= b@.subrange(0, i as int).push(b@[i as int]));
        i = i + 1;
    }
    if a.len() == b.len() {
        assert(a@ =~= a@.subrange(0, i as int));
        assert(b@ =~= b@.subrange(0, i as int));
        KeyOrder::Equal
    } else if a.len() < b.len() {
        assert(a@.len() != b@.len());
        KeyOrder::Less
    } else {
        assert(a@.len() != b@.len());
        KeyOrder::Greater
    }
}

/// Byte strings in strictly ascending order.
pub open spec fn strictly_ascending_bytes(s: Seq<Seq<u8>>) -> bool {
    forall|i: int, j: int| 0 <= i < j < s.len() ==> bytes_lt(#[trigger] s[i], #[trigger] s[j])
}

/// The texts of a list of ids.
pub open spec fn id_views(v: Seq<Vec<u8>>) -> Seq<Seq<u8>> {
    v.map_values(|k: Vec<u8>| k@)
}

/// The peers found on the local network, ascending, without repeats.
pub struct DiscoveredPeers {
    pub ids: Vec<Vec<u8>>,
}

impl DiscoveredPeers {
    /// The ids are in strictly ascending order.
    pub open spec fn wf(&self) -> bool {
        strictly_ascending_bytes(id_views(self.ids@))
    }

    /// The ids in the set.
    pub open spec fn members(&self) -> Set<Seq<u8>> {
        id_views(self.ids@).to_set()
    }

    /// No peers.
    pub fn new() -> (s: DiscoveredPeers)
        ensures
            s.wf(),
            s.members() == Set::<Seq<u8>>::empty(),
    {
        let s = DiscoveredPeers { ids: Vec::new() };
        assert(s.members() =~= Set::<Seq<u8>>::empty());
        s
    }

    /// Where `key` is, or where it would go.
    fn find(&self, key: &Vec<u8>) -> (r: (usize, bool))
        requires
            self.wf(),
        ensures
            r.0 <= self.ids@.len(),
            forall|j: int| 0 <= j < r.0 ==> bytes_lt(#[trigger] self.ids@[j]@, key@),
            r.1 ==> r.0 < self.ids@.len() && self.ids@[r.0 as int]@ == key@,
            !r.1 ==> forall|j: int| r.0 <= j < self.ids@.len() ==> bytes_lt(key@, #[trigger] self.ids@[j]@),
    {
        let n = self.ids.len();
        let mut pos: usize = 0;
        while pos < n
            invariant
                pos <= n,
                n == self.ids@.len(),
                self.wf(),
                forall|j: int| 0 <= j < pos ==> bytes_lt(#[trigger] self.ids@[j]@, key@),
            decreases n - pos,
        {
            match compare_bytes(&self.ids[pos], key) {
                KeyOrder::Less => {},
                KeyOrder::Equal => {
                    return (pos, true);
                },
                KeyOrder::Greater => {
                    proof {
                        assert forall|j: int| pos <= j < self.ids@.len() implies bytes_lt(key@, #[trigger] self.ids@[j]@) by {
                            if j > pos {
                                assert(bytes_lt(id_views(self.ids@)[pos as int], id_views(self.ids@)[j]));
                                lemma_bytes_lt_from_transitive(key@, self.ids@[pos as int]@, self.ids@[j]@, 0);
                            }
                        }
                    }
                    return (pos, false);
                },
            }
            pos = pos + 1;
        }
        (pos, false)
    }

    proof fn lemma_absent(&self, key: Seq<u8>, pos: int)
        requires
            0 <= pos <= self.ids@.len(),
            forall|j: int| 0 <= j < pos ==> bytes_lt(#[trigger] self.ids@[j]@, key),
            forall|j: int| pos <= j < self.ids@.len() ==> bytes_lt(key, #[trigger] self.ids@[j]@),
        ensures
            !self.members().contains(key),
    {
        let v = id_views(self.ids@);
        if self.members().contains(key) {
            assert(v.contains(key));
            let c = choose|c: int| 0 <= c < v.len() && v[c] == key;
            lemma_bytes_lt_from_irreflexive(key, 0);
            if c < pos {
                assert(bytes_lt(self.ids@[c]@, key));
            } else {
                assert(bytes_lt(key, self.ids@[c]@));
            }
        }
    }

    /// Whether `peer` is in the set.
    pub fn contains(&self, peer: &Vec<u8>) -> (b: bool)
        requires
            self.wf(),
        ensures
            b == self.members().contains(peer@),
    {
        let (pos, found) = self.find(peer);
        proof {
            if found {
                assert(id_views(self.ids@)[pos as int] == peer@);
            } else {
                self.lemma_absent(peer@, pos as int);
            }
        }
        found
    }

    /// Adds `peer`; nothing changes when it is there already.
    pub fn insert(&mut self, peer: Vec<u8>)
        requires
            old(self).wf(),
        ensures
            final(self).wf(),
            final(self).members() == old(self).members().insert(peer@),
    {
        let (pos, found) = self.find(&peer);
        if found {
            proof {
                assert(id_views(self.ids@)[pos as int] == peer@);
                assert(self.members().insert(peer@) =~= self.members());
            }
            return;
        }
        let ghost e = id_views(self.ids@);
        let ghost p = peer@;
        self.ids.insert(pos, peer);
        proof {
            let f = id_views(self.ids@);
            assert(f =~= e.insert(pos as int, p));
            assert forall|i: int, j: int| 0 <= i < j < f.len() implies bytes_lt(#[trigger] f[i], #[trigger] f[j]) by {
                if i < pos && j < pos {
                    assert(bytes_lt(e[i], e[j]));
                } else if i < pos && j == pos {
                    assert(bytes_lt(old(self).ids@[i]@, p));
                } else if i < pos && j > pos {
                    assert(bytes_lt(e[i], e[j - 1]));
                } else if i == pos {
                    assert(bytes_lt(p, old(self).ids@[j - 1]@));
                } else {
                    assert(bytes_lt(e[i - 1], e[j - 1]));
                }
            }
            assert forall|k: Seq<u8>| f.to_set().contains(k) <==> e.to_set().insert(p).contains(k) by {
                if f.to_set().contains(k) {
                    assert(f.contains(k));
                    let c = choose|c: int| 0 <= c < f.len() && f[c] == k;
                    if c < pos {
                        assert(e[c] == k);
                        assert(e.contains(k));
                    } else if c > pos {
                        assert(e[c - 1] == k);
                        assert(e.contains(k));
                    }
                }
                if e.to_set().insert(p).contains(k) {
                    if k == p {
                        assert(f[pos as int] == k);
                        assert(f.contains(k));
                    } else {
                        assert(e.contains(k));
                        let c = choose|c: int| 0 <= c < e.len() && e[c] == k;
                        if c < pos {
                            assert(f[c] == k);
                        } else {
                            assert(f[c + 1] == k);
                        }
                        assert(f.contains(k));
                    }
                }
            }
            assert(f.to_set() =~= e.to_set().insert(p));
        }
    }

    /// Removes `peer`, if it is there.
    pub fn remove(&mut self, peer: &Vec<u8>)
        requires
            old(self).wf(),
        ensures
            final(self).wf(),
            final(self).members() == old(self).members().remove(peer@),
    {
        let (pos, found) = self.find(peer);
        if !found {
            proof {
                self.lemma_absent(peer@, pos as int);
                assert(self.members().remove(peer@) =~= self.members());
            }
            return;
        }
        let ghost e = id_views(self.ids@);
        let _ = self.ids.remove(pos);
        proof {
            let f = id_views(self.ids@);
            assert(f =~= e.remove(pos as int));
            assert forall|i: int, j: int| 0 <= i < j < f.len() implies bytes_lt(#[trigger] f[i], #[trigger] f[j]) by {
                let oi = if i < pos { i } else { i + 1 };
                let oj = if j < pos { j } else { j + 1 };
                assert(bytes_lt(e[oi], e[oj]));
            }
            assert forall|k: Seq<u8>| f.to_set().contains(k) <==> e.to_set().remove(peer@).contains(k) by {
                if f.to_set().contains(k) {
                    assert(f.contains(k));
                    let c = choose|c: int| 0 <= c < f.len() && f[c] == k;
                    let oc = if c < pos { c } else { c + 1 };
                    assert(e[oc] == k);
                    assert(e.contains(k));
                    if k == peer@ {
                        lemma_bytes_lt_from_irreflexive(k, 0);
                        if oc < pos {
                            assert(bytes_lt(e[oc], e[pos as int]));
                        } else {
                            assert(bytes_lt(e[pos as int], e[oc]));
                        }
                    }
                }
                if e.to_set().remove(peer@).contains(k) {
                    assert(e.contains(k));
                    let c = choose|c: int| 0 <= c < e.len() && e[c] == k;
                    if c < pos {
                        assert(f[c] == k);
                    } else {
                        assert(c != pos);
                        assert(f[c - 1] == k);
                    }
                    assert(f.contains(k));
                }
            }
            assert(f.to_set() =~= e.to_set().remove(peer@));
        }
    }

    /// Peers found on the local network are added.
    pub fn discovered(&mut self, found: &Vec<Vec<u8>>)
        requires
            old(self).wf(),
        ensures
            final(self).wf(),
            final(self).members() == old(self).members() + id_views(found@).to_set(),
    {
        let n = found.len();
        proof {
            assert(id_views(found@).subrange(0, 0) =~= Seq::<Seq<u8>>::empty());
            assert(old(self).members() + id_views(found@).subrange(0, 0).to_set() =~= old(self).members());
        }
        for i in 0..n
            invariant
                n == found@.len(),
                self.wf(),
                self.members() == old(self).members() + id_views(found@).subrange(0, i as int).to_set(),
        {
            let peer = found[i].clone();
            assert(peer@ =~= found@[i as int]@);
            self.insert(peer);
            proof {
                let s0 = id_views(found@).subrange(0, i as int);
                assert(id_views(found@).subrange(0, i + 1) =~= s0.push(found@[i as int]@));
                s0.lemma_push_to_set_commute(found@[i as int]@);
                assert(self.members() =~= old(self).members() + id_views(found@).subrange(0, i + 1).to_set());
            }
        }
        assert(id_views(found@).subrange(0, n as int) =~= id_views(found@));
    }

    /// Peers that expired on the local network are removed.
    pub fn expired(&mut self, gone: &Vec<Vec<u8>>)
        requires
            old(self).wf(),
        ensures
            final(self).wf(),
            final(self).members() == old(self).members() - id_views(gone@).to_set(),
    {
        let n = gone.len();
        proof {
            assert(id_views(gone@).subrange(0, 0) =~= Seq::<Seq<u8>>::empty());
            assert(old(self).members() - id_views(gone@).subrange(0, 0).to_set() =~= old(self).members());
        }
        for i in 0..n
            invariant
                n == gone@.len(),
                self.wf(),
                self.members() == old(self).members() - id_views(gone@).subrange(0, i as int).to_set(),
        {
            self.remove(&gone[i]);
            proof {
                let s0 = id_views(gone@).subrange(0, i as int);
                assert(id_views(gone@).subrange(0, i + 1) =~= s0.push(gone@[i as int]@));
                s0.lemma_push_to_set_commute(gone@[i as int]@);
                assert(self.members() =~= old(self).members() - id_views(gone@).subrange(0, i + 1).to_set());
            }
        }
        assert(id_views(gone@).subrange(0, n as int) =~= id_views(gone@));
    }

    /// The ids, ascending.
    pub fn ids(&self) -> (v: &Vec<Vec<u8>>)
        requires
            self.wf(),
        ensures
            strictly_ascending_bytes(id_views(v@)),
            id_views(v@).to_set() == self.members(),
    {
        &self.ids
    }
}

} // verus!
