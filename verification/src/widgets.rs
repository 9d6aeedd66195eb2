//! Small models behind the demo panels: contacts, model schemas, feeds and
//! canvases, the calendar grid, protocol handlers and background tasks.
use vstd::prelude::*;
use crate::text::{decimal, decimal_string, push_str};

verus! {

/// A contact: a name and a key.
pub struct Contact {
    pub name: String,
    pub key: String,
}

impl Contact {
    /// The contact `name` with key `key`.
    pub fn new(name: String, key: String) -> (c: Contact)
        ensures
            c.name@ == name@,
            c.key@ == key@,
    {
        Contact { name, key }
    }

    /// The first line shown: `Name: ` and the name.
    pub fn name_line(&self) -> (s: String)
        ensures
            s@ == seq!['N', 'a', 'm', 'e', ':', ' '] + self.name@,
    {
        let mut s = String::new();
        push_str(&mut s, "Name: ");
        proof { reveal_strlit("Name: "); }
        push_str(&mut s, self.name.as_str());
        s
    }

    /// The second line shown: `Key: ` and the key.
    pub fn key_line(&self) -> (s: String)
        ensures
            s@ == seq!['K', 'e', 'y', ':', ' '] + self.key@,
    {
        let mut s = String::new();
        push_str(&mut s, "Key: ");
        proof { reveal_strlit("Key: "); }
        push_str(&mut s, self.key.as_str());
        s
    }
}

/// The contacts panel's list.
pub struct Contacts {
    pub contacts: Vec<Contact>,
}

impl Contacts {
    /// The sample contacts: Apple, Banana and Cranberry, each keyed by its
    /// lower-case name followed by `key`.
    pub fn new() -> (c: Contacts)
        ensures
            c.contacts@.len() == 3,
            c.contacts@[0].name@ == seq!['A', 'p', 'p', 'l', 'e'],
            c.contacts@[0].key@ == seq!['a', 'p', 'p', 'l', 'e', 'k', 'e', 'y'],
            c.contacts@[1].name@ == seq!['B', 'a', 'n', 'a', 'n', 'a'],
            c.contacts@[1].key@ == seq!['b', 'a', 'n', 'a', 'n', 'a', 'k', 'e', 'y'],
            c.contacts@[2].name@ == seq!['C', 'r', 'a', 'n', 'b', 'e', 'r', 'r', 'y'],
            c.contacts@[2].key@ == seq!['c', 'r', 'a', 'n', 'b', 'e', 'r', 'r', 'y', 'k', 'e', 'y'],
    {
        proof {
            reveal_strlit("Apple");
            reveal_strlit("applekey");
            reveal_strlit("Banana");
            reveal_strlit("bananakey");
            reveal_strlit("Cranberry");
            reveal_strlit("cranberrykey");
        }
        let mut contacts: Vec<Contact> = Vec::new();
        contacts.push(Contact::new("Apple".to_owned(), "applekey".to_owned()));
        contacts.push(Contact::new("Banana".to_owned(), "bananakey".to_owned()));
        contacts.push(Contact::new("Cranberry".to_owned(), "cranberrykey".to_owned()));
        let c = Contacts { contacts };
        assert(c.contacts@[0].name@ =~= seq!['A', 'p', 'p', 'l', 'e']);
        assert(c.contacts@[0].key@ =~= seq!['a', 'p', 'p', 'l', 'e', 'k', 'e', 'y']);
        assert(c.contacts@[1].name@ =~= seq!['B', 'a', 'n', 'a', 'n', 'a']);
        assert(c.contacts@[1].key@ =~= seq!['b', 'a', 'n', 'a', 'n', 'a', 'k', 'e', 'y']);
        assert(c.contacts@[2].name@ =~= seq!['C', 'r', 'a', 'n', 'b', 'e', 'r', 'r', 'y']);
        assert(c.contacts@[2].key@ =~= seq!['c', 'r', 'a', 'n', 'b', 'e', 'r', 'r', 'y', 'k', 'e', 'y']);
        c
    }
}

impl Contacts {
    /// The panel's feed: its contacts, in order.
    pub fn feed(&self) -> (f: &Vec<Contact>)
        ensures
            f@ == self.contacts@,
    {
        &self.contacts
    }
}

/// The schema of a modelled type (the type itself is only a marker).
pub struct Schema<T> {
    pub _phantom: core::marker::PhantomData<T>,
}

/// Builds a [`Schema`]; fields are declared for documentation only.
pub struct SchemaBuilder {}

impl SchemaBuilder {
    /// A builder with no fields.
    pub fn new() -> (b: SchemaBuilder) {
        SchemaBuilder {}
    }

    /// Declares a field named `name`; the builder is unchanged.
    pub fn field(self, name: &str) -> (b: SchemaBuilder) {
        self
    }

    /// The schema of `T`.
    pub fn finish<T>(&self) -> (s: Schema<T>) {
        Schema { _phantom: core::marker::PhantomData }
    }
}

/// A type stored as a Willow model.
pub trait WillowModel: Sized {
    /// The type's schema.
    fn model() -> Schema<Self>;
}

impl WillowModel for () {
    fn model() -> Schema<Self> {
        SchemaBuilder::new().finish()
    }
}

impl WillowModel for String {
    fn model() -> Schema<Self> {
        SchemaBuilder::new().finish()
    }
}

impl WillowModel for Contact {
    fn model() -> Schema<Self> {
        SchemaBuilder::new().field("name").field("key").finish()
    }
}

/// Handle to an object of a modelled type stored in Willow.
pub struct WillowEntity<T> {
    pub _phantom: core::marker::PhantomData<T>,
}

/// Context for reading modelled objects.
pub struct WillowContext<T> {
    pub _phantom: core::marker::PhantomData<T>,
}

impl<T> WillowEntity<T> {
    /// The object, once loaded; nothing is loaded yet.
    pub fn read<'a>(&self, cx: &'a mut WillowContext<T>) -> (r: Option<&'a T>)
        ensures
            r is None,
    {
        None
    }
}

/// A column of items.
pub struct Feed<T> {
    pub children: Vec<T>,
}

impl<T> Feed<T> {
    /// The feed showing `children`, in order.
    pub fn new(children: Vec<T>) -> (f: Feed<T>)
        ensures
            f.children@ == children@,
    {
        Feed { children }
    }
}

/// A canvas of widgets, in the order added.
pub struct Canvas<T> {
    pub widgets: Vec<T>,
}

impl<T> Canvas<T> {
    /// An empty canvas.
    pub fn new() -> (c: Canvas<T>)
        ensures
            c.widgets@.len() == 0,
    {
        Canvas { widgets: Vec::new() }
    }

    /// Adds a widget at the end.
    pub fn add(&mut self, widget: T)
        ensures
            final(self).widgets@ == old(self).widgets@.push(widget),
    {
        self.widgets.push(widget);
    }
}

/// The day labels of the calendar grid: `1` to `35`, five weeks of seven.
pub fn calendar_day_labels() -> (labels: Vec<String>)
    ensures
        labels@.len() == 35,
        forall|i: int| 0 <= i < 35 ==> #[trigger] labels@[i]@ == decimal((i + 1) as nat),
{
    let mut labels: Vec<String> = Vec::new();
    for ix in 0..35usize
        invariant
            labels@.len() == ix,
            forall|i: int| 0 <= i < ix ==> #[trigger] labels@[i]@ == decimal((i + 1) as nat),
    {
        labels.push(decimal_string(ix + 1));
    }
    labels
}

/// Events the calendar emits (none yet).
pub struct CalendarEvent {}

/// State shared by the clones of a [`CustomHandler`].
pub struct HandlerState {}

/// A test protocol handler that accepts a stream and does nothing more.
pub struct CustomHandler(pub std::sync::Arc<HandlerState>);

impl CustomHandler {
    /// A new handler.
    pub fn new() -> (h: CustomHandler) {
        CustomHandler(std::sync::Arc::new(HandlerState {}))
    }
}

/// The inputs a background Willow task handles.
#[derive(Debug, PartialEq, Eq, Structural)]
pub enum WillowTaskInput {
    Shutdown,
}

/// Handles one task input: shutting down needs no work.
pub fn handle_task_input(input: WillowTaskInput) -> (r: Result<(), ()>)
    ensures
        r is Ok,
{
    match input {
        WillowTaskInput::Shutdown => Ok(()),
    }
}

/// Something that reacts to task events; by default it does nothing.
pub trait Handler {
    fn handle_event(&self) {
    }
}

/// An event that background tasks exchange.
pub trait WillowTaskEvent {}

/// A namespace opened through the experimental Willow API.
pub struct WillowNamespace {}

impl WillowNamespace {
    /// A namespace handle.
    pub fn new() -> (n: WillowNamespace) {
        WillowNamespace {}
    }
}

/// A profile in the experimental Willow API.
pub struct Soul {}

/// All profiles that are awake.
pub struct SoulRing {}

impl SoulRing {
    /// The profiles on the ring; there are none yet.
    pub fn souls(&self) -> (s: Vec<Soul>)
        ensures
            s@.len() == 0,
    {
        Vec::new()
    }
}

} // verus!
