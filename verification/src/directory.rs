//! The Willow directory panel's model: namespaces holding entries, and
//! profiles that have joined namespaces and may have one of them open.
use vstd::prelude::*;
use crate::text::{push_char, push_str};

verus! {

/// A namespace: its name and its entries (paths), in creation order.
pub struct Namespace {
    pub name: String,
    pub entries: Vec<String>,
}

/// The texts of a list of strings.
pub open spec fn strs(v: Seq<String>) -> Seq<Seq<char>> {
    v.map_values(|s: String| s@)
}

impl Namespace {
    /// An empty namespace named `name`.
    pub fn new(name: String) -> (ns: Namespace)
        ensures
            ns.name@ == name@,
            ns.entries@.len() == 0,
    {
        Namespace { name, entries: Vec::new() }
    }

    /// Adds an entry at the end.
    pub fn create_entry(&mut self, entry: String)
        ensures
            final(self).entries@ == old(self).entries@.push(entry),
            final(self).name == old(self).name,
    {
        self.entries.push(entry);
    }

    /// The namespace's name.
    pub fn name(&self) -> (n: String)
        ensures
            n@ == self.name@,
    {
        self.name.clone()
    }

    /// The entries, in creation order.
    pub fn entries(&self) -> (e: &Vec<String>)
        ensures
            e@ == self.entries@,
    {
        &self.entries
    }

    /// The rows the namespace shows: `name/entry` for each entry.
    pub fn entry_labels(&self) -> (labels: Vec<String>)
        ensures
            labels@.len() == self.entries@.len(),
            forall|i: int| 0 <= i < labels@.len() ==> #[trigger] labels@[i]@
                == self.name@ + seq!['/'] + self.entries@[i]@,
    {
        let mut labels: Vec<String> = Vec::new();
        let n = self.entries.len();
        for i in 0..n
            invariant
                n == self.entries@.len(),
                labels@.len() == i,
                forall|j: int| 0 <= j < i ==> #[trigger] labels@[j]@
                    == self.name@ + seq!['/'] + self.entries@[j]@,
        {
            let mut s = self.name.clone();
            push_char(&mut s, '/');
            push_str(&mut s, self.entries[i].as_str());
            labels.push(s);
        }
        labels
    }
}

/// A profile in the directory: identity, joined namespaces (positions in the
/// directory's namespace list), the one it has open, and whether its
/// namespaces are shown.
pub struct Profile {
    pub active_namespace: Option<usize>,
    pub id: String,
    pub name: String,
    pub namespaces: Vec<usize>,
    pub open: bool,
}

impl Profile {
    /// A profile with id `id` and name `name`, in no namespace, shown open.
    pub fn new(id: String, name: String) -> (p: Profile)
        ensures
            p.id@ == id@,
            p.name@ == name@,
            p.namespaces@.len() == 0,
            p.active_namespace is None,
            p.open,
    {
        Profile { active_namespace: None, id, name, namespaces: Vec::new(), open: true }
    }

    /// The profile's id.
    pub fn id(&self) -> (s: String)
        ensures
            s@ == self.id@,
    {
        self.id.clone()
    }

    /// The profile's name.
    pub fn name(&self) -> (s: String)
        ensures
            s@ == self.name@,
    {
        self.name.clone()
    }

    /// Joins namespace `namespace`.
    pub fn join_namespace(&mut self, namespace: usize)
        ensures
            final(self).namespaces@ == old(self).namespaces@.push(namespace),
            final(self).id == old(self).id,
            final(self).name == old(self).name,
            final(self).active_namespace == old(self).active_namespace,
            final(self).open == old(self).open,
    {
        self.namespaces.push(namespace);
    }

    /// The joined namespaces, in joining order.
    pub fn namespaces(&self) -> (v: Vec<usize>)
        ensures
            v@ == self.namespaces@,
    {
        self.namespaces.clone()
    }

    /// Clicking the profile header shows or hides its namespaces.
    pub fn toggle_open(&mut self)
        ensures
            final(self).open == !old(self).open,
            final(self).id == old(self).id,
            final(self).name == old(self).name,
            final(self).namespaces@ == old(self).namespaces@,
            final(self).active_namespace == old(self).active_namespace,
    {
        self.open = !self.open;
    }

    /// Clicking a namespace in the bar opens it.
    pub fn select_namespace(&mut self, namespace: usize)
        ensures
            final(self).active_namespace == Some(namespace),
            final(self).id == old(self).id,
            final(self).name == old(self).name,
            final(self).namespaces@ == old(self).namespaces@,
            final(self).open == old(self).open,
    {
        self.active_namespace = Some(namespace);
    }
}

/// The directory: where the store lives, and its namespaces and profiles.
pub struct WillowDirectory {
    pub path: String,
    pub namespaces: Vec<Namespace>,
    pub profiles: Vec<Profile>,
}

impl WillowDirectory {
    /// Every namespace a profile refers to exists.
    pub open spec fn wf(&self) -> bool {
        forall|i: int, j: int| 0 <= i < self.profiles@.len() && 0 <= j < self.profiles@[i].namespaces@.len()
            ==> #[trigger] self.profiles@[i].namespaces@[j] < self.namespaces@.len()
    }

    /// The directory at `path` with its sample content: namespaces `ns0`
    /// (entries `entry/0`, `entry/1`) and `ns1` (`entry/2`, `entry/3`), and
    /// profiles `0` ("Profile 0", in both), `1` ("Profile 1", in `ns0`) and
    /// `2` ("Profile 2", in `ns1`).
    pub fn new(path: String) -> (d: WillowDirectory)
        ensures
            d.wf(),
            d.path@ == path@,
            d.namespaces@.len() == 2,
            d.namespaces@[0].name@ == seq!['n', 's', '0'],
            strs(d.namespaces@[0].entries@) == seq![seq!['e', 'n', 't', 'r', 'y', '/', '0'], seq!['e', 'n', 't', 'r', 'y', '/', '1']],
            d.namespaces@[1].name@ == seq!['n', 's', '1'],
            strs(d.namespaces@[1].entries@) == seq![seq!['e', 'n', 't', 'r', 'y', '/', '2'], seq!['e', 'n', 't', 'r', 'y', '/', '3']],
            d.profiles@.len() == 3,
            d.profiles@[0].id@ == seq!['0'],
            d.profiles@[0].name@ == seq!['P', 'r', 'o', 'f', 'i', 'l', 'e', ' ', '0'],
            d.profiles@[0].namespaces@ == seq![0usize, 1usize],
            d.profiles@[1].id@ == seq!['1'],
            d.profiles@[1].name@ == seq!['P', 'r', 'o', 'f', 'i', 'l', 'e', ' ', '1'],
            d.profiles@[1].namespaces@ == seq![0usize],
            d.profiles@[2].id@ == seq!['2'],
            d.profiles@[2].name@ == seq!['P', 'r', 'o', 'f', 'i', 'l', 'e', ' ', '2'],
            d.profiles@[2].namespaces@ == seq![1usize],
            forall|i: int| 0 <= i < 3 ==> (#[trigger] d.profiles@[i]).open && d.profiles@[i].active_namespace is None,
    {
        proof {
            reveal_strlit("ns0");
            reveal_strlit("ns1");
            reveal_strlit("entry/0");
            reveal_strlit("entry/1");
            reveal_strlit("entry/2");
            reveal_strlit("entry/3");
            reveal_strlit("0");
            reveal_strlit("1");
            reveal_strlit("2");
            reveal_strlit("Profile 0");
            reveal_strlit("Profile 1");
            reveal_strlit("Profile 2");
        }
        let mut ns0 = Namespace::new("ns0".to_owned());
        ns0.create_entry("entry/0".to_owned());
        ns0.create_entry("entry/1".to_owned());
        let mut ns1 = Namespace::new("ns1".to_owned());
        ns1.create_entry("entry/2".to_owned());
        ns1.create_entry("entry/3".to_owned());
        let mut namespaces: Vec<Namespace> = Vec::new();
        namespaces.push(ns0);
        namespaces.push(ns1);

        let mut p0 = Profile::new("0".to_owned(), "Profile 0".to_owned());
        p0.join_namespace(0);
        p0.join_namespace(1);
        let mut p1 = Profile::new("1".to_owned(), "Profile 1".to_owned());
        p1.join_namespace(0);
        let mut p2 = Profile::new("2".to_owned(), "Profile 2".to_owned());
        p2.join_namespace(1);
        let mut profiles: Vec<Profile> = Vec::new();
        profiles.push(p0);
        profiles.push(p1);
        profiles.push(p2);
        let d = WillowDirectory { path, namespaces, profiles };
        assert(d.namespaces@[0].entries@[0]@ =~= seq!['e', 'n', 't', 'r', 'y', '/', '0']);
        assert(d.namespaces@[0].entries@[1]@ =~= seq!['e', 'n', 't', 'r', 'y', '/', '1']);
        assert(d.namespaces@[1].entries@[0]@ =~= seq!['e', 'n', 't', 'r', 'y', '/', '2']);
        assert(d.namespaces@[1].entries@[1]@ =~= seq!['e', 'n', 't', 'r', 'y', '/', '3']);
        assert(strs(d.namespaces@[0].entries@) =~= seq![seq!['e', 'n', 't', 'r', 'y', '/', '0'], seq!['e', 'n', 't', 'r', 'y', '/', '1']]);
        assert(strs(d.namespaces@[1].entries@) =~= seq![seq!['e', 'n', 't', 'r', 'y', '/', '2'], seq!['e', 'n', 't', 'r', 'y', '/', '3']]);
        assert(d.profiles@[0].id@ =~= seq!['0']);
        assert(d.profiles@[0].name@ =~= seq!['P', 'r', 'o', 'f', 'i', 'l', 'e', ' ', '0']);
        assert(d.profiles@[1].id@ =~= seq!['1']);
        assert(d.profiles@[1].name@ =~= seq!['P', 'r', 'o', 'f', 'i', 'l', 'e', ' ', '1']);
        assert(d.profiles@[2].id@ =~= seq!['2']);
        assert(d.profiles@[2].name@ =~= seq!['P', 'r', 'o', 'f', 'i', 'l', 'e', ' ', '2']);
        assert(d.namespaces@[0].name@ =~= seq!['n', 's', '0']);
        assert(d.namespaces@[1].name@ =~= seq!['n', 's', '1']);
        assert(d.profiles@[0].namespaces@ =~= seq![0usize, 1usize]);
        assert(d.profiles@[1].namespaces@ =~= seq![0usize]);
        assert(d.profiles@[2].namespaces@ =~= seq![1usize]);
        d
    }

    /// Adds a namespace named `name` and returns its position.
    pub fn create_namespace(&mut self, name: String) -> (i: usize)
        requires
            old(self).wf(),
        ensures
            final(self).wf(),
            i == old(self).namespaces@.len(),
            final(self).namespaces@.len() == i + 1,
            final(self).namespaces@.subrange(0, i as int) == old(self).namespaces@,
            final(self).namespaces@[i as int].name@ == name@,
            final(self).namespaces@[i as int].entries@.len() == 0,
            final(self).profiles@ == old(self).profiles@,
    {
        let i = self.namespaces.len();
        self.namespaces.push(Namespace::new(name));
        assert(self.namespaces@.subrange(0, i as int) =~= old(self).namespaces@);
        i
    }

    /// Adds a profile with id `id` and name `name` and returns its position.
    pub fn create_profile(&mut self, id: String, name: String) -> (i: usize)
        requires
            old(self).wf(),
        ensures
            final(self).wf(),
            i == old(self).profiles@.len(),
            final(self).profiles@.len() == i + 1,
            final(self).profiles@.subrange(0, i as int) == old(self).profiles@,
            final(self).profiles@[i as int].id@ == id@,
            final(self).profiles@[i as int].name@ == name@,
            final(self).profiles@[i as int].namespaces@.len() == 0,
            final(self).namespaces@ == old(self).namespaces@,
    {
        let i = self.profiles.len();
        self.profiles.push(Profile::new(id, name));
        assert(self.profiles@.subrange(0, i as int) =~= old(self).profiles@);
        i
    }

    /// A profile's create-namespace input was submitted with `name`: a
    /// namespace of that name is added and the profile at position `p`
    /// joins it. Returns the namespace's position.
    pub fn create_namespace_for(&mut self, p: usize, name: String) -> (i: usize)
        requires
            old(self).wf(),
            p < old(self).profiles@.len(),
        ensures
            final(self).wf(),
            i == old(self).namespaces@.len(),
            final(self).namespaces@.len() == i + 1,
            final(self).namespaces@.subrange(0, i as int) == old(self).namespaces@,
            final(self).namespaces@[i as int].name@ == name@,
            final(self).namespaces@[i as int].entries@.len() == 0,
            final(self).profiles@.len() == old(self).profiles@.len(),
            final(self).profiles@[p as int].namespaces@ == old(self).profiles@[p as int].namespaces@.push(i),
            final(self).profiles@[p as int].id == old(self).profiles@[p as int].id,
            final(self).profiles@[p as int].name == old(self).profiles@[p as int].name,
            final(self).profiles@[p as int].open == old(self).profiles@[p as int].open,
            final(self).profiles@[p as int].active_namespace == old(self).profiles@[p as int].active_namespace,
            forall|j: int| 0 <= j < old(self).profiles@.len() && j != p ==> #[trigger] final(self).profiles@[j] == old(self).profiles@[j],
    {
        let i = self.create_namespace(name);
        let ghost before = self.profiles@;
        self.profiles[p].join_namespace(i);
        assert forall|a: int, b: int| 0 <= a < self.profiles@.len() && 0 <= b < self.profiles@[a].namespaces@.len()
            implies #[trigger] self.profiles@[a].namespaces@[b] < self.namespaces@.len() by {
            if a != p && b < before[a].namespaces@.len() {
                assert(before[a].namespaces@[b] < old(self).namespaces@.len());
            } else if a == p && b < before[a].namespaces@.len() {
                assert(before[a].namespaces@[b] < old(self).namespaces@.len());
            }
        }
        i
    }

    /// The namespaces, in creation order.
    pub fn namespaces(&self) -> (v: &Vec<Namespace>)
        ensures
            v@ == self.namespaces@,
    {
        &self.namespaces
    }

    /// The profiles, in creation order.
    pub fn profiles(&self) -> (v: &Vec<Profile>)
        ensures
            v@ == self.profiles@,
    {
        &self.profiles
    }
}

} // verus!
