//! Chat documents and topic chats: messages, sending and receiving.
use vstd::prelude::*;
use crate::text::push_str;

verus! {

/// `uuid::Uuid::new_v4().as_u128()`: a fresh random message id. Nothing is
/// promised of it: it is random.
#[verifier::external_body]
fn new_message_id() -> (id: u128) {
    uuid::Uuid::new_v4().as_u128()
}

/// The text that `String::from_utf8_lossy` makes of `bytes`.
pub uninterp spec fn utf8_lossy(bytes: Seq<u8>) -> Seq<char>;

/// `String::from_utf8_lossy(bytes).to_string()`: the text of `bytes`, with
/// invalid sequences replaced by U+FFFD. Its documentation promises that
/// valid UTF-8 is decoded unchanged.
#[verifier::external_body]
fn from_utf8_lossy(bytes: &[u8]) -> (s: String)
    ensures
        s@ == utf8_lossy(bytes@),
        vstd::utf8::valid_utf8(bytes@) ==> s@ == vstd::utf8::decode_utf8(bytes@),
{
    String::from_utf8_lossy(bytes).to_string()
}

/// One chat message: a random id, who sent it, and its text.
#[derive(Debug)]
pub struct ChatMessage {
    pub id: u128,
    pub sender_id: String,
    pub sender_name: String,
    pub body: String,
}

impl ChatMessage {
    /// A message from `sender_id`/`sender_name` with text `message` and a
    /// fresh random id.
    pub fn new(sender_id: String, sender_name: String, message: String) -> (m: ChatMessage)
        ensures
            m.sender_id@ == sender_id@,
            m.sender_name@ == sender_name@,
            m.body@ == message@,
    {
        ChatMessage { id: new_message_id(), sender_id, sender_name, body: message }
    }
}

/// A chat document: its messages, oldest first.
#[derive(Debug)]
pub struct ChatDocument {
    pub messages: Vec<ChatMessage>,
}

impl ChatDocument {
    /// No messages.
    pub fn new() -> (d: ChatDocument)
        ensures
            d.messages@.len() == 0,
    {
        ChatDocument { messages: Vec::new() }
    }

    /// Appends a message.
    pub fn add_message(&mut self, message: ChatMessage)
        ensures
            final(self).messages@ == old(self).messages@.push(message),
    {
        self.messages.push(message);
    }

    /// Sends typed text: empty text is ignored; otherwise a message from
    /// sender `ID` named `Name` is appended. Returns whether one was.
    pub fn send_message(&mut self, text: String) -> (sent: bool)
        ensures
            sent == (text@.len() > 0),
            !sent ==> final(self).messages@ == old(self).messages@,
            sent ==> final(self).messages@.len() == old(self).messages@.len() + 1
                && final(self).messages@.subrange(0, old(self).messages@.len() as int) == old(self).messages@
                && final(self).messages@.last().body@ == text@
                && final(self).messages@.last().sender_id@ == seq!['I', 'D']
                && final(self).messages@.last().sender_name@ == seq!['N', 'a', 'm', 'e'],
    {
        if text.as_str().is_empty() {
            return false;
        }
        let id = "ID";
        let name = "Name";
        proof {
            reveal_strlit("ID");
            reveal_strlit("Name");
        }
        let message = ChatMessage::new(id.to_owned(), name.to_owned(), text);
        self.messages.push(message);
        assert(self.messages@.subrange(0, old(self).messages@.len() as int) =~= old(self).messages@);
        true
    }
}

/// One message as shown: who it is from and its text.
pub struct ChatBubble {
    pub from: String,
    pub message: String,
}

impl ChatBubble {
    /// The bubble for `message`: from its sender id, showing its text.
    pub fn new(message: &ChatMessage) -> (b: ChatBubble)
        ensures
            b.from@ == message.sender_id@,
            b.message@ == message.body@,
    {
        ChatBubble { from: message.sender_id.clone(), message: message.body.clone() }
    }

    /// The bubble's first line: `From: ` and the sender.
    pub fn from_line(&self) -> (s: String)
        ensures
            s@ == seq!['F', 'r', 'o', 'm', ':', ' '] + self.from@,
    {
        let mut s = String::new();
        push_str(&mut s, "From: ");
        proof { reveal_strlit("From: "); }
        push_str(&mut s, self.from.as_str());
        s
    }

    /// The bubble's second line: `Message: ` and the text.
    pub fn message_line(&self) -> (s: String)
        ensures
            s@ == seq!['M', 'e', 's', 's', 'a', 'g', 'e', ':', ' '] + self.message@,
    {
        let mut s = String::new();
        push_str(&mut s, "Message: ");
        proof { reveal_strlit("Message: "); }
        push_str(&mut s, self.message.as_str());
        s
    }
}

/// The content of a shared document: its list of messages.
#[derive(Debug)]
pub struct DocContent {
    pub messages: Vec<String>,
}

impl DocContent {
    /// No messages.
    pub fn new() -> (d: DocContent)
        ensures
            d.messages@.len() == 0,
    {
        DocContent { messages: Vec::new() }
    }

    /// The content a newly created shared document starts with: the one
    /// message `Hello`.
    pub fn with_greeting() -> (d: DocContent)
        ensures
            d.messages@.len() == 1,
            d.messages@[0]@ == seq!['H', 'e', 'l', 'l', 'o'],
    {
        let hello = "Hello";
        proof { reveal_strlit("Hello"); }
        let mut d = DocContent::new();
        d.messages.push(hello.to_owned());
        d
    }
}

/// A gossip topic chat: the messages seen, whether the sending task is
/// connected yet, and the title (the topic id).
pub struct TopicChat {
    pub messages: Vec<String>,
    pub has_sender: bool,
    pub title: String,
}

/// The texts of a list of messages.
pub open spec fn texts(v: Seq<String>) -> Seq<Seq<char>> {
    v.map_values(|s: String| s@)
}

impl TopicChat {
    /// A chat titled `title`, not yet connected, without messages.
    pub fn new(title: String) -> (c: TopicChat)
        ensures
            c.title@ == title@,
            !c.has_sender,
            c.messages@.len() == 0,
    {
        TopicChat { messages: Vec::new(), has_sender: false, title }
    }

    /// Records that the sending task is connected.
    pub fn set_sender(&mut self)
        ensures
            final(self).has_sender,
            final(self).messages@ == old(self).messages@,
            final(self).title@ == old(self).title@,
    {
        self.has_sender = true;
    }

    /// Sends `text`: without a connected sender nothing happens; otherwise the
    /// text is shown and handed to the sender. Returns whether it was sent.
    pub fn send_message(&mut self, text: String) -> (sent: bool)
        ensures
            sent == old(self).has_sender,
            final(self).has_sender == old(self).has_sender,
            final(self).title@ == old(self).title@,
            !sent ==> texts(final(self).messages@) == texts(old(self).messages@),
            sent ==> texts(final(self).messages@) == texts(old(self).messages@).push(text@),
    {
        if !self.has_sender {
            return false;
        }
        let ghost before = self.messages@;
        self.messages.push(text);
        assert(texts(self.messages@) =~= texts(before).push(text@));
        true
    }

    /// Shows a message received from the topic: its bytes as text.
    pub fn handle_received_message(&mut self, content: &[u8])
        ensures
            texts(final(self).messages@) == texts(old(self).messages@).push(utf8_lossy(content@)),
            final(self).has_sender == old(self).has_sender,
            final(self).title@ == old(self).title@,
    {
        let text = from_utf8_lossy(content);
        let ghost before = self.messages@;
        self.messages.push(text);
        assert(texts(self.messages@) =~= texts(before).push(utf8_lossy(content@)));
    }
}

} // verus!
