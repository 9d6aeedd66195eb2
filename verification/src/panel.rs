//! The p2p panel's own state: the spaces listed, the gossip topics it has
//! chats for, and the shared documents it has opened.
use vstd::prelude::*;
use crate::chat::TopicChat;
use crate::peers::PeerTable;
use crate::text::{last_eight, push_char, push_str};

verus! {

/// `rand::random::<[u8; 32]>()`: 32 random bytes for a new topic id.
/// Nothing is promised of them: they are random.
#[verifier::external_body]
fn random_topic_id() -> (id: [u8; 32]) {
    rand::random::<[u8; 32]>()
}

/// What the panel holds for one remote endpoint: whether a document lookup
/// was started with it, whether a document sync runs with it, and whether
/// a chat over the found document is open.
#[derive(Debug, Clone, Copy, PartialEq, Eq, Structural)]
pub struct EndpointState {
    pub doc_lookup: bool,
    pub doc_sync: bool,
    pub has_chat: bool,
}

/// Nothing started with an endpoint.
pub open spec fn no_endpoint_state() -> EndpointState {
    EndpointState { doc_lookup: false, doc_sync: false, has_chat: false }
}

/// What is held for endpoint `k` in `m`, or nothing started when `k` is not there.
pub open spec fn endpoint_or_default(m: Map<Seq<u8>, EndpointState>, k: Seq<u8>) -> EndpointState {
    if m.dom().contains(k) { m[k] } else { no_endpoint_state() }
}

/// `e` with a document lookup started.
pub open spec fn with_lookup(e: EndpointState) -> EndpointState {
    EndpointState { doc_lookup: true, ..e }
}

/// `m` is `m0` with a document lookup started with each endpoint in `ids`:
/// those gain an entry if they had none, and nothing else changes.
pub open spec fn lookups_started(m: Map<Seq<u8>, EndpointState>, m0: Map<Seq<u8>, EndpointState>, ids: Set<Seq<u8>>) -> bool {
    &&& m.dom() == m0.dom() + ids
    &&& forall|k: Seq<u8>| #[trigger] ids.contains(k) ==> m[k] == with_lookup(endpoint_or_default(m0, k))
    &&& forall|k: Seq<u8>| !ids.contains(k) && #[trigger] m0.dom().contains(k) ==> m[k] == m0[k]
}

/// The ids of a list of endpoints.
pub open spec fn id_seq(ids: Seq<[u8; 32]>) -> Seq<Seq<u8>> {
    ids.map_values(|k: [u8; 32]| k@)
}

/// The p2p panel: whether the node is up, the spaces shown, the topic chats
/// by topic id, the opened documents, and what is held per remote endpoint.
pub struct IrohPanelState {
    pub iroh_ready: bool,
    pub spaces: Vec<String>,
    pub topics: PeerTable<TopicChat>,
    pub docs: Vec<String>,
    pub endpoints: PeerTable<EndpointState>,
}

impl IrohPanelState {
    /// The topic and endpoint tables are well formed.
    pub open spec fn wf(&self) -> bool {
        self.topics.wf() && self.endpoints.wf()
    }

    /// A panel whose node is not up yet, listing the spaces Home, Family
    /// and Work, with no topics or documents.
    pub fn new() -> (p: IrohPanelState)
        ensures
            p.wf(),
            !p.iroh_ready,
            p.spaces@.len() == 3,
            p.spaces@[0]@ == seq!['H', 'o', 'm', 'e'],
            p.spaces@[1]@ == seq!['F', 'a', 'm', 'i', 'l', 'y'],
            p.spaces@[2]@ == seq!['W', 'o', 'r', 'k'],
            p.topics.view_map() == Map::<Seq<u8>, TopicChat>::empty(),
            p.docs@.len() == 0,
            p.endpoints.view_map() == Map::<Seq<u8>, EndpointState>::empty(),
    {
        proof {
            reveal_strlit("Home");
            reveal_strlit("Family");
            reveal_strlit("Work");
        }
        let mut spaces: Vec<String> = Vec::new();
        spaces.push("Home".to_owned());
        spaces.push("Family".to_owned());
        spaces.push("Work".to_owned());
        let p = IrohPanelState {
            iroh_ready: false,
            spaces,
            topics: PeerTable::new(),
            docs: Vec::new(),
            endpoints: PeerTable::new(),
        };
        assert(p.spaces@[0]@ =~= seq!['H', 'o', 'm', 'e']);
        assert(p.spaces@[1]@ =~= seq!['F', 'a', 'm', 'i', 'l', 'y']);
        assert(p.spaces@[2]@ =~= seq!['W', 'o', 'r', 'k']);
        p
    }

    /// Records that the node is up.
    pub fn set_ready(&mut self)
        ensures
            final(self).iroh_ready,
            final(self).topics == old(self).topics,
            final(self).docs == old(self).docs,
            final(self).spaces == old(self).spaces,
            final(self).endpoints == old(self).endpoints,
    {
        self.iroh_ready = true;
    }

    /// Opens a chat for topic `topic_id` titled `title`, replacing any chat
    /// for that topic; without a node nothing happens. Returns whether a
    /// chat was opened.
    pub fn create_topic_ui(&mut self, topic_id: [u8; 32], title: String) -> (opened: bool)
        requires
            old(self).wf(),
        ensures
            final(self).wf(),
            opened == old(self).iroh_ready,
            final(self).iroh_ready == old(self).iroh_ready,
            final(self).endpoints == old(self).endpoints,
            !opened ==> final(self).topics.view_map() == old(self).topics.view_map(),
            opened ==> final(self).topics.view_map()
                == old(self).topics.view_map().insert(topic_id@, final(self).topics.view_map()[topic_id@]),
            opened ==> final(self).topics.view_map()[topic_id@].title@ == title@
                && !final(self).topics.view_map()[topic_id@].has_sender
                && final(self).topics.view_map()[topic_id@].messages@.len() == 0,
    {
        if !self.iroh_ready {
            return false;
        }
        self.topics.insert(topic_id, TopicChat::new(title));
        true
    }

    /// Records an opened document.
    pub fn add_doc(&mut self, doc: String)
        ensures
            final(self).docs@ == old(self).docs@.push(doc),
            final(self).topics == old(self).topics,
            final(self).endpoints == old(self).endpoints,
    {
        self.docs.push(doc);
    }

    /// Connecting to a shared document from its ticket: without a node
    /// nothing happens; otherwise a document lookup is started with each of
    /// the ticket's endpoints. Returns whether lookups were started.
    pub fn connect_doc(&mut self, endpoints: &Vec<[u8; 32]>) -> (started: bool)
        requires
            old(self).wf(),
        ensures
            final(self).wf(),
            started == old(self).iroh_ready,
            final(self).iroh_ready == old(self).iroh_ready,
            final(self).topics == old(self).topics,
            final(self).docs == old(self).docs,
            !started ==> final(self).endpoints.view_map() == old(self).endpoints.view_map(),
            started ==> lookups_started(final(self).endpoints.view_map(), old(self).endpoints.view_map(), id_seq(endpoints@).to_set()),
    {
        if !self.iroh_ready {
            return false;
        }
        let ghost m0 = self.endpoints.view_map();
        let n = endpoints.len();
        proof {
            let e = id_seq(endpoints@).subrange(0, 0).to_set();
            assert(e =~= Set::<Seq<u8>>::empty());
            assert(m0.dom() + e =~= m0.dom());
        }
        for i in 0..n
            invariant
                n == endpoints@.len(),
                self.endpoints.wf(),
                self.topics == old(self).topics,
                self.docs == old(self).docs,
                self.iroh_ready == old(self).iroh_ready,
                m0 == old(self).endpoints.view_map(),
                lookups_started(self.endpoints.view_map(), m0, id_seq(endpoints@).subrange(0, i as int).to_set()),
        {
            let key = endpoints[i];
            let ghost kv = key@;
            let ghost before = self.endpoints.view_map();
            let current = match self.endpoints.get(&key) {
                Some(e) => *e,
                None => EndpointState { doc_lookup: false, doc_sync: false, has_chat: false },
            };
            self.endpoints.insert(key, EndpointState { doc_lookup: true, doc_sync: current.doc_sync, has_chat: current.has_chat });
            proof {
                let s0 = id_seq(endpoints@).subrange(0, i as int);
                let s1 = id_seq(endpoints@).subrange(0, i + 1);
                let t0 = s0.to_set();
                let t1 = s1.to_set();
                let after = self.endpoints.view_map();
                assert(s1 =~= s0.push(kv));
                s0.lemma_push_to_set_commute(kv);
                assert(t1 =~= t0.insert(kv));
                assert(current == endpoint_or_default(before, kv));
                if t0.contains(kv) {
                    assert(before[kv] == with_lookup(endpoint_or_default(m0, kv)));
                } else if m0.dom().contains(kv) {
                    assert(before[kv] == m0[kv]);
                } else {
                    assert(!before.dom().contains(kv));
                }
                assert(after[kv] == with_lookup(endpoint_or_default(m0, kv)));
                assert(after.dom() =~= m0.dom() + t1);
                assert forall|k: Seq<u8>| #[trigger] t1.contains(k) implies after[k] == with_lookup(endpoint_or_default(m0, k)) by {
                    if k != kv {
                        assert(t0.contains(k));
                    }
                }
                assert forall|k: Seq<u8>| !t1.contains(k) && #[trigger] m0.dom().contains(k) implies after[k] == m0[k] by {
                    assert(!t0.contains(k));
                }
            }
        }
        assert(id_seq(endpoints@).subrange(0, n as int) =~= id_seq(endpoints@));
        true
    }

    /// The shared document was found through `endpoint`: a chat over it is
    /// open and it is kept in sync with that endpoint.
    pub fn doc_found(&mut self, endpoint: [u8; 32])
        requires
            old(self).wf(),
        ensures
            final(self).wf(),
            final(self).endpoints.view_map() == old(self).endpoints.view_map().insert(
                endpoint@,
                EndpointState {
                    doc_sync: true,
                    has_chat: true,
                    ..endpoint_or_default(old(self).endpoints.view_map(), endpoint@)
                },
            ),
            final(self).iroh_ready == old(self).iroh_ready,
            final(self).topics == old(self).topics,
            final(self).docs == old(self).docs,
    {
        let current = match self.endpoints.get(&endpoint) {
            Some(e) => *e,
            None => EndpointState { doc_lookup: false, doc_sync: false, has_chat: false },
        };
        self.endpoints.insert(endpoint, EndpointState { doc_sync: true, has_chat: true, ..current });
    }

    /// The ids of the topics with chats, ascending.
    pub fn topic_ids(&self) -> (ks: Vec<[u8; 32]>)
        requires
            self.wf(),
        ensures
            crate::peers::strictly_ascending(ks@.map_values(|k: [u8; 32]| k@)),
            forall|k: Seq<u8>| #[trigger] self.topics.view_map().dom().contains(k)
                <==> exists|i: int| 0 <= i < ks@.len() && #[trigger] ks@[i]@ == k,
    {
        self.topics.keys()
    }
}

/// A fresh random topic id, for the create-topic button.
pub fn new_topic_id() -> (id: [u8; 32]) {
    random_topic_id()
}

/// The endpoint a pasted ticket connects to: its first one, if it has any.
pub fn endpoint_to_sync(endpoints: &Vec<[u8; 32]>) -> (r: Option<[u8; 32]>)
    ensures
        endpoints@.len() == 0 ==> r is None,
        endpoints@.len() > 0 ==> r == Some(endpoints@[0]),
{
    if endpoints.len() == 0 {
        None
    } else {
        Some(endpoints[0])
    }
}

/// `"Local endpoint unavailable"`
pub open spec fn no_local_endpoint_text() -> Seq<char> {
    seq![
        'L', 'o', 'c', 'a', 'l', ' ', 'e', 'n', 'd', 'p', 'o', 'i', 'n', 't', ' ',
        'u', 'n', 'a', 'v', 'a', 'i', 'l', 'a', 'b', 'l', 'e',
    ]
}

/// The connections view's label of the local endpoint: the last eight bytes
/// of its id's text, or `Local endpoint unavailable` when there is no node.
pub fn local_endpoint_label(id_text: Option<&str>) -> (s: String)
    requires
        id_text matches Some(t) ==> 8 <= vstd::utf8::encode_utf8(t@).len() <= usize::MAX
            && vstd::utf8::is_char_boundary(vstd::utf8::encode_utf8(t@), vstd::utf8::encode_utf8(t@).len() - 8),
    ensures
        id_text is None ==> s@ == no_local_endpoint_text(),
        id_text matches Some(t) ==> s@ == vstd::utf8::decode_utf8(
            vstd::utf8::encode_utf8(t@).subrange(vstd::utf8::encode_utf8(t@).len() - 8, vstd::utf8::encode_utf8(t@).len() as int),
        ),
{
    match id_text {
        Some(t) => last_eight(t),
        None => {
            let fallback = "Local endpoint unavailable";
            proof {
                reveal_strlit("Local endpoint unavailable");
                assert(fallback@ =~= no_local_endpoint_text());
            }
            fallback.to_owned()
        },
    }
}

/// `"Endpoint ID: .+"`
pub open spec fn endpoint_label_prefix() -> Seq<char> {
    seq!['E', 'n', 'd', 'p', 'o', 'i', 'n', 't', ' ', 'I', 'D', ':', ' ', '.', '+']
}

/// The label of the local endpoint: `Endpoint ID: .+` and the first eight
/// characters of the id's text (all of it when it is shorter).
pub fn endpoint_id_label(id_text: &str) -> (s: String)
    ensures
        s@ == endpoint_label_prefix() + id_text@.subrange(0, if id_text@.len() < 8 { id_text@.len() as int } else { 8 }),
{
    let mut s = String::new();
    push_str(&mut s, "Endpoint ID: .+");
    proof { reveal_strlit("Endpoint ID: .+"); }
    let n = id_text.unicode_len();
    let k = if n < 8 { n } else { 8 };
    let ghost start = s@;
    assert(start =~= endpoint_label_prefix());
    for i in 0..k
        invariant
            k <= n,
            n == id_text@.len(),
            s@ == start + id_text@.subrange(0, i as int),
    {
        push_char(&mut s, id_text.get_char(i));
        assert(id_text@.subrange(0, i + 1) =~= id_text@.subrange(0, i as int).push(id_text@[i as int]));
    }
    s
}

/// The label of a topic's copy-ticket button: `Copy Ticket .+` and the last
/// eight bytes of the topic's text.
pub fn copy_ticket_label(topic_text: &str) -> (s: String)
    requires
        8 <= vstd::utf8::encode_utf8(topic_text@).len() <= usize::MAX,
        vstd::utf8::is_char_boundary(vstd::utf8::encode_utf8(topic_text@), vstd::utf8::encode_utf8(topic_text@).len() - 8),
    ensures
        s@ == seq!['C', 'o', 'p', 'y', ' ', 'T', 'i', 'c', 'k', 'e', 't', ' ', '.', '+'] + vstd::utf8::decode_utf8(
            vstd::utf8::encode_utf8(topic_text@).subrange(
                vstd::utf8::encode_utf8(topic_text@).len() - 8,
                vstd::utf8::encode_utf8(topic_text@).len() as int,
            ),
        ),
{
    let tail = last_eight(topic_text);
    let mut s = String::new();
    push_str(&mut s, "Copy Ticket .+");
    proof { reveal_strlit("Copy Ticket .+"); }
    push_str(&mut s, tail.as_str());
    s
}

/// Starting document lookups never closes a chat or stops a sync that runs
/// with an endpoint, and every endpoint looked up ends with a lookup started.
pub proof fn law_lookup_keeps_open_chat(
    m0: Map<Seq<u8>, EndpointState>,
    m: Map<Seq<u8>, EndpointState>,
    ids: Set<Seq<u8>>,
    k: Seq<u8>,
)
    requires
        lookups_started(m, m0, ids),
        m0.dom().contains(k),
    ensures
        m.dom().contains(k),
        m[k].has_chat == m0[k].has_chat,
        m[k].doc_sync == m0[k].doc_sync,
        ids.contains(k) ==> m[k].doc_lookup,
{
    if ids.contains(k) {
        assert(m[k] == with_lookup(endpoint_or_default(m0, k)));
    } else {
        assert(m[k] == m0[k]);
    }
}

} // verus!
