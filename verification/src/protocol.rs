//! Decisions of the peer protocols: the shared-document handshake with each
//! connected peer, the automerge sync peers, and peers found on the local
//! network.
use vstd::prelude::*;
use crate::peers::PeerTable;
use dashmap::DashMap;

verus! {

/// What is known of one peer: the document shared with it, if any.
#[derive(Debug)]
pub struct PeerState {
    pub doc: Option<String>,
}

/// A protocol message between peers.
#[derive(Debug)]
pub enum GalvanizedMessage {
    /// Sent first on a new stream, so that the other side accepts it.
    CreatedStream,
    /// The sender created the shared document with this id.
    CreatedDoc(String),
}

/// A message as sent on the wire.
#[derive(Debug)]
pub struct Envelope {
    pub message: GalvanizedMessage,
}

impl Envelope {
    /// The envelope carrying `message`.
    pub fn from(message: GalvanizedMessage) -> (e: Envelope)
        ensures
            e.message == message,
    {
        Envelope { message }
    }
}

/// Why a protocol step failed.
#[derive(Debug, PartialEq, Eq, Structural)]
pub enum PeerError {
    /// Nothing is known of the peer.
    NoPeerState,
}

/// What opening the document shared with a peer does.
#[derive(Debug)]
pub enum DocStep {
    /// A document is already shared: open it.
    Open(String),
    /// None is shared yet: create one, record it, and tell the peer.
    Create,
}

/// The peers known after `peer` connected to us, given those known before:
/// a new peer is recorded without document; a known one keeps its state.
pub open spec fn accept_peer(m: Map<Seq<u8>, PeerState>, peer: Seq<u8>) -> Map<Seq<u8>, PeerState> {
    if m.dom().contains(peer) {
        m
    } else {
        m.insert(peer, PeerState { doc: None })
    }
}

#[verifier::external_type_specification]
#[verifier::external_body]
#[verifier::reject_recursive_types(K)]
#[verifier::reject_recursive_types(V)]
#[verifier::reject_recursive_types(S)]
pub struct ExDashMap<K, V, S>(DashMap<K, V, S>);

/// What a concurrent map of peer states holds: the state of each peer id.
pub uninterp spec fn peer_states(m: DashMap<[u8; 32], PeerState>) -> Map<Seq<u8>, PeerState>;

/// `dashmap::DashMap::new`: an empty map.
#[verifier::external_body]
fn new_peer_map() -> (r: DashMap<[u8; 32], PeerState>)
    ensures
        peer_states(r).dom() == Set::<Seq<u8>>::empty(),
{
    DashMap::new()
}

/// `dashmap::DashMap::insert`: `key` now maps to `v`, replacing any earlier
/// state; other entries are kept.
#[verifier::external_body]
fn peer_map_insert(m: &mut DashMap<[u8; 32], PeerState>, key: [u8; 32], v: PeerState)
    ensures
        peer_states(*final(m)) == peer_states(*old(m)).insert(key@, v),
{
    m.insert(key, v);
}

/// `dashmap::DashMap::entry(key).or_insert(v)`: `key` maps to `v` when it
/// had no entry; otherwise nothing changes.
#[verifier::external_body]
fn peer_map_insert_if_absent(m: &mut DashMap<[u8; 32], PeerState>, key: [u8; 32], v: PeerState)
    ensures
        peer_states(*old(m)).dom().contains(key@) ==> peer_states(*final(m)) == peer_states(*old(m)),
        !peer_states(*old(m)).dom().contains(key@) ==> peer_states(*final(m)) == peer_states(*old(m)).insert(key@, v),
{
    m.entry(key).or_insert(v);
}

/// `dashmap::DashMap::contains_key`: whether `key` has an entry.
#[verifier::external_body]
fn peer_map_contains(m: &DashMap<[u8; 32], PeerState>, key: &[u8; 32]) -> (b: bool)
    ensures
        b == peer_states(*m).dom().contains(key@),
{
    m.contains_key(key)
}

/// `dashmap::DashMap::get`, reading the entry's document: `None` when `key`
/// has no entry, else a copy of its document.
#[verifier::external_body]
fn peer_map_doc(m: &DashMap<[u8; 32], PeerState>, key: &[u8; 32]) -> (r: Option<Option<String>>)
    ensures
        r is Some == peer_states(*m).dom().contains(key@),
        r matches Some(d) ==> d == peer_states(*m)[key@].doc,
{
    m.get(key).map(|entry| entry.doc.clone())
}

/// `dashmap::DashMap::iter`, taking each entry's key: the ids with an
/// entry, in the map's own order.
#[verifier::external_body]
fn peer_map_ids(m: &DashMap<[u8; 32], PeerState>) -> (ks: Vec<[u8; 32]>)
    ensures
        forall|k: Seq<u8>| #[trigger] peer_states(*m).dom().contains(k)
            <==> exists|i: int| 0 <= i < ks@.len() && #[trigger] ks@[i]@ == k,
{
    m.iter().map(|entry| *entry.key()).collect()
}

/// The document-sharing protocol's state: each connected peer by id.
pub struct GalvanizedProtocol {
    pub peer_state: DashMap<[u8; 32], PeerState>,
}

impl GalvanizedProtocol {
    /// No peers.
    pub fn new() -> (p: GalvanizedProtocol)
        ensures
            peer_states(p.peer_state) == Map::<Seq<u8>, PeerState>::empty(),
    {
        let p = GalvanizedProtocol { peer_state: new_peer_map() };
        assert(peer_states(p.peer_state) =~= Map::<Seq<u8>, PeerState>::empty());
        p
    }

    /// We connected to `peer`: it is recorded afresh, without document,
    /// replacing what was known. Returns the message to send first on the
    /// new stream, so that the peer accepts it.
    pub fn connected(&mut self, peer: [u8; 32]) -> (first: Envelope)
        ensures
            peer_states(final(self).peer_state) == peer_states(old(self).peer_state).insert(peer@, PeerState { doc: None }),
            first.message is CreatedStream,
    {
        peer_map_insert(&mut self.peer_state, peer, PeerState { doc: None });
        Envelope::from(GalvanizedMessage::CreatedStream)
    }

    /// `peer` connected to us: it is recorded without document unless it is
    /// known already, in which case what is known stays.
    pub fn accepted(&mut self, peer: [u8; 32])
        ensures
            peer_states(final(self).peer_state) == accept_peer(peer_states(old(self).peer_state), peer@),
    {
        peer_map_insert_if_absent(&mut self.peer_state, peer, PeerState { doc: None });
    }

    /// The ids of the connected peers, ascending.
    pub fn remote_peers(&self) -> (ks: Vec<[u8; 32]>)
        ensures
            crate::peers::strictly_ascending(ks@.map_values(|k: [u8; 32]| k@)),
            forall|k: Seq<u8>| #[trigger] peer_states(self.peer_state).dom().contains(k)
                <==> exists|i: int| 0 <= i < ks@.len() && #[trigger] ks@[i]@ == k,
    {
        let ids = peer_map_ids(&self.peer_state);
        let mut set = PeerSet::new();
        set.discovered(&ids);
        let ks = set.to_vec();
        proof {
            let found = ids@.map_values(|k: [u8; 32]| k@);
            assert forall|k: Seq<u8>| #[trigger] peer_states(self.peer_state).dom().contains(k)
                <==> exists|i: int| 0 <= i < ks@.len() && #[trigger] ks@[i]@ == k by {
                if peer_states(self.peer_state).dom().contains(k) {
                    let i = choose|i: int| 0 <= i < ids@.len() && #[trigger] ids@[i]@ == k;
                    assert(found[i] == k);
                    assert(found.to_set().contains(k));
                    assert(set.ids().contains(k));
                }
                if exists|i: int| 0 <= i < ks@.len() && #[trigger] ks@[i]@ == k {
                    assert(set.ids().contains(k));
                    assert(found.to_set().contains(k));
                    assert(found.contains(k));
                    let j = choose|j: int| 0 <= j < found.len() && found[j] == k;
                    assert(ids@[j]@ == k);
                }
            }
        }
        ks
    }

    /// The first step of opening the document shared with `peer`.
    pub fn open_doc_step(&self, peer: &[u8; 32]) -> (r: Result<DocStep, PeerError>)
        ensures
            !peer_states(self.peer_state).dom().contains(peer@) ==> r == Err::<DocStep, PeerError>(PeerError::NoPeerState),
            peer_states(self.peer_state).dom().contains(peer@) ==> match peer_states(self.peer_state)[peer@].doc {
                Some(d) => r matches Ok(DocStep::Open(o)) && o@ == d@,
                None => r matches Ok(DocStep::Create),
            },
    {
        match peer_map_doc(&self.peer_state, peer) {
            None => Err(PeerError::NoPeerState),
            Some(Some(d)) => Ok(DocStep::Open(d)),
            Some(None) => Ok(DocStep::Create),
        }
    }

    /// Records `doc` as the document shared with `peer` (after creating it,
    /// or when the peer says it created it). Fails when the peer is unknown.
    pub fn set_doc(&mut self, peer: [u8; 32], doc: String) -> (r: Result<(), PeerError>)
        ensures
            peer_states(old(self).peer_state).dom().contains(peer@) ==> r is Ok
                && peer_states(final(self).peer_state) == peer_states(old(self).peer_state).insert(peer@, PeerState { doc: Some(doc) }),
            !peer_states(old(self).peer_state).dom().contains(peer@) ==> r == Err::<(), PeerError>(PeerError::NoPeerState)
                && peer_states(final(self).peer_state) == peer_states(old(self).peer_state),
    {
        if peer_map_contains(&self.peer_state, &peer) {
            peer_map_insert(&mut self.peer_state, peer, PeerState { doc: Some(doc) });
            Ok(())
        } else {
            Err(PeerError::NoPeerState)
        }
    }

    /// We created `doc` to share with `peer`: it is recorded as the peer's
    /// document, and the message telling the peer is returned. Fails, and
    /// changes nothing, when the peer is unknown.
    pub fn doc_created(&mut self, peer: [u8; 32], doc: String) -> (r: Result<Envelope, PeerError>)
        ensures
            peer_states(old(self).peer_state).dom().contains(peer@) ==> (r matches Ok(e)
                && (e.message matches GalvanizedMessage::CreatedDoc(d) && d@ == doc@)
                && peer_states(final(self).peer_state) == peer_states(old(self).peer_state).insert(peer@, PeerState { doc: Some(doc) })),
            !peer_states(old(self).peer_state).dom().contains(peer@) ==> r is Err
                && r == Err::<Envelope, PeerError>(PeerError::NoPeerState)
                && peer_states(final(self).peer_state) == peer_states(old(self).peer_state),
    {
        let id = doc.clone();
        match self.set_doc(peer, doc) {
            Ok(()) => Ok(Envelope::from(GalvanizedMessage::CreatedDoc(id))),
            Err(e) => Err(e),
        }
    }

    /// Handles a message received from `peer`: a created document is
    /// recorded as shared with it; the stream opener needs nothing.
    pub fn handle_message(&mut self, peer: [u8; 32], message: GalvanizedMessage) -> (r: Result<(), PeerError>)
        ensures
            message is CreatedStream ==> r is Ok && peer_states(final(self).peer_state) == peer_states(old(self).peer_state),
            message matches GalvanizedMessage::CreatedDoc(d) ==> (
                (peer_states(old(self).peer_state).dom().contains(peer@) ==> r is Ok
                    && peer_states(final(self).peer_state) == peer_states(old(self).peer_state).insert(peer@, PeerState { doc: Some(d) }))
                && (!peer_states(old(self).peer_state).dom().contains(peer@) ==> r == Err::<(), PeerError>(PeerError::NoPeerState)
                    && peer_states(final(self).peer_state) == peer_states(old(self).peer_state))),
    {
        match message {
            GalvanizedMessage::CreatedStream => Ok(()),
            GalvanizedMessage::CreatedDoc(d) => self.set_doc(peer, d),
        }
    }
}

/// Endpoints known by id alone, ascending: those with a document sync
/// connection open.
pub struct PeerSet {
    pub peers: PeerTable<()>,
}

impl PeerSet {
    /// The set is well formed.
    pub open spec fn wf(&self) -> bool {
        self.peers.wf()
    }

    /// The ids in the set.
    pub open spec fn ids(&self) -> Set<Seq<u8>> {
        self.peers.view_map().dom()
    }

    /// No peers.
    pub fn new() -> (s: PeerSet)
        ensures
            s.wf(),
            s.ids() == Set::<Seq<u8>>::empty(),
    {
        let s = PeerSet { peers: PeerTable::new() };
        assert(s.ids() =~= Set::<Seq<u8>>::empty());
        s
    }

    /// Adds `peer` (a sync connection was accepted).
    pub fn insert(&mut self, peer: [u8; 32])
        requires
            old(self).wf(),
        ensures
            final(self).wf(),
            final(self).ids() == old(self).ids().insert(peer@),
    {
        self.peers.insert(peer, ());
        assert(self.ids() =~= old(self).ids().insert(peer@));
    }

    /// Removes `peer` (its sync connection closed).
    pub fn remove(&mut self, peer: &[u8; 32])
        requires
            old(self).wf(),
        ensures
            final(self).wf(),
            final(self).ids() == old(self).ids().remove(peer@),
    {
        let _ = self.peers.remove(peer);
        assert(self.ids() =~= old(self).ids().remove(peer@));
    }

    /// Whether `peer` is in the set.
    pub fn contains(&self, peer: &[u8; 32]) -> (b: bool)
        requires
            self.wf(),
        ensures
            b == self.ids().contains(peer@),
    {
        self.peers.contains(peer)
    }

    /// Adds each endpoint of `found`.
    pub fn discovered(&mut self, found: &Vec<[u8; 32]>)
        requires
            old(self).wf(),
        ensures
            final(self).wf(),
            final(self).ids() == old(self).ids() + found@.map_values(|k: [u8; 32]| k@).to_set(),
    {
        let n = found.len();
        for i in 0..n
            invariant
                n == found@.len(),
                self.wf(),
                self.ids() == old(self).ids() + found@.subrange(0, i as int).map_values(|k: [u8; 32]| k@).to_set(),
        {
            self.insert(found[i]);
            assert(found@.subrange(0, i + 1).map_values(|k: [u8; 32]| k@)
                =~= found@.subrange(0, i as int).map_values(|k: [u8; 32]| k@).push(found@[i as int]@));
            proof { found@.subrange(0, i as int).map_values(|k: [u8; 32]| k@).lemma_push_to_set_commute(found@[i as int]@); }
            assert(self.ids() =~= old(self).ids() + found@.subrange(0, i + 1).map_values(|k: [u8; 32]| k@).to_set());
        }
        assert(found@.subrange(0, n as int) =~= found@);
    }

    /// Removes each endpoint of `gone`.
    pub fn expired(&mut self, gone: &Vec<[u8; 32]>)
        requires
            old(self).wf(),
        ensures
            final(self).wf(),
            final(self).ids() == old(self).ids() - gone@.map_values(|k: [u8; 32]| k@).to_set(),
    {
        let n = gone.len();
        for i in 0..n
            invariant
                n == gone@.len(),
                self.wf(),
                self.ids() == old(self).ids() - gone@.subrange(0, i as int).map_values(|k: [u8; 32]| k@).to_set(),
        {
            self.remove(&gone[i]);
            assert(gone@.subrange(0, i + 1).map_values(|k: [u8; 32]| k@)
                =~= gone@.subrange(0, i as int).map_values(|k: [u8; 32]| k@).push(gone@[i as int]@));
            proof { gone@.subrange(0, i as int).map_values(|k: [u8; 32]| k@).lemma_push_to_set_commute(gone@[i as int]@); }
            assert(self.ids() =~= old(self).ids() - gone@.subrange(0, i + 1).map_values(|k: [u8; 32]| k@).to_set());
        }
        assert(gone@.subrange(0, n as int) =~= gone@);
    }

    /// The ids, ascending.
    pub fn to_vec(&self) -> (ks: Vec<[u8; 32]>)
        requires
            self.wf(),
        ensures
            crate::peers::strictly_ascending(ks@.map_values(|k: [u8; 32]| k@)),
            forall|k: Seq<u8>| #[trigger] self.ids().contains(k)
                <==> exists|i: int| 0 <= i < ks@.len() && #[trigger] ks@[i]@ == k,
    {
        self.peers.keys()
    }
}

/// A peer that connected to us keeps the document already shared with it,
/// and accepting the same peer again changes nothing.
pub proof fn law_accept_keeps_known_peer(m: Map<Seq<u8>, PeerState>, peer: Seq<u8>)
    ensures
        accept_peer(m, peer).dom().contains(peer),
        m.dom().contains(peer) ==> accept_peer(m, peer)[peer] == m[peer],
        !m.dom().contains(peer) ==> accept_peer(m, peer)[peer].doc is None,
        accept_peer(accept_peer(m, peer), peer) == accept_peer(m, peer),
{
}

/// Accepting a peer changes no other peer: every other id is known after
/// the acceptance exactly when it was known before, with the same state; the
/// accepted peer is known afterwards, and keeps its state if it had one.
pub proof fn law_accept_keeps_other_peers(m: Map<Seq<u8>, PeerState>, peer: Seq<u8>, q: Seq<u8>)
    requires
        q != peer,
    ensures
        accept_peer(m, peer).dom().contains(q) == m.dom().contains(q),
        m.dom().contains(q) ==> accept_peer(m, peer)[q] == m[q],
        accept_peer(m, peer).dom().contains(peer),
        m.dom().contains(peer) ==> accept_peer(m, peer)[peer] == m[peer],
        accept_peer(m, peer).dom() == m.dom().insert(peer),
{
    assert(accept_peer(m, peer).dom() =~= m.dom().insert(peer));
}

/// After a document is recorded for a known peer, opening the peer's
/// document opens that one.
pub proof fn law_recorded_doc_is_opened(before: Map<Seq<u8>, PeerState>, after: Map<Seq<u8>, PeerState>, peer: Seq<u8>, doc: String)
    requires
        before.dom().contains(peer),
        after == before.insert(peer, PeerState { doc: Some(doc) }),
    ensures
        after.dom().contains(peer),
        after[peer].doc == Some(doc),
        forall|q: Seq<u8>| q != peer && before.dom().contains(q) ==> after.dom().contains(q) && #[trigger] after[q] == before[q],
{
}

/// Peers that are removed after being added are gone, and the others stay
/// as they were (for endpoint sets and for discovered peers alike).
pub proof fn law_discovered_then_expired(start: Set<Seq<u8>>, found: Set<Seq<u8>>)
    ensures
        forall|k: Seq<u8>| #[trigger] ((start + found) - found).contains(k) <==> start.contains(k) && !found.contains(k),
{
}

} // verus!
