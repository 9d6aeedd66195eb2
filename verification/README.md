# galvanized

The verified core of a set of desktop experiments around Willow stores and
peer-to-peer chat: the decisions and data that the panels, dialogs and peer
protocols work with, each function stated in `requires`/`ensures` and proved
with Verus.

- `src/` is the library. Modules follow the panels they serve: `object_widget`
  and `json_path` (JSON browsing), `ticket` (share-ticket text), `profile`,
  `spaces`, `forms`, `navigation` and `onboarding` (Willow profiles and spaces),
  `chat`, `protocol`, `peers` and `panel` (peer chat and documents), `vault`
  (unlocking), `directory` and `widgets` (demo panels), `text` (string helpers).
  Calls into `willow25`, `data-encoding`, `hex`, `uuid`, `rand` and `dashmap`
  (the protocol's per-peer state) stand behind small trusted wrappers whose
  doc comments say what they promise. The panel's topic and endpoint tables
  and the set of endpoints with a sync connection are `peers::PeerTable`, a
  verified table keyed by 32-byte ids and kept in ascending id order; peers
  found on the local network, whose ids are byte strings of any length, are
  `discovery::DiscoveredPeers`, kept the same way. vstd specifies `HashMap`
  only for keys whose hashing it models (integers and `bool`), not for byte
  arrays or paths, so these tables, and the object browser's remembered
  expansion states (keyed by JSON path), are the library's own verified
  structures.
- `tests/` runs the library on concrete values.
- `app/` is a small command-line front end: it turns parsed JSON into the
  library's values, prints the object browser's rows, and carries the peer
  protocol's JSON wire form.
