//! First-run onboarding and the small input widgets of the panels: which tab
//! action to take, when typed names are accepted, and the button/input toggle.
use vstd::prelude::*;

verus! {

/// Whether a character has Unicode's White_Space property: U+0009 to U+000D,
/// U+0020, U+0085, U+00A0, U+1680, U+2000 to U+200A, U+2028, U+2029,
/// U+202F, U+205F and U+3000.
pub open spec fn unicode_whitespace(c: char) -> bool {
    let u = c as u32;
    ||| 0x9 <= u <= 0xD
    ||| u == 0x20
    ||| u == 0x85
    ||| u == 0xA0
    ||| u == 0x1680
    ||| 0x2000 <= u <= 0x200A
    ||| u == 0x2028
    ||| u == 0x2029
    ||| u == 0x202F
    ||| u == 0x205F
    ||| u == 0x3000
}

/// Whether `c` has Unicode's White_Space property (what `char::is_whitespace`
/// answers).
fn char_is_whitespace(c: char) -> (b: bool)
    ensures
        b == unicode_whitespace(c),
{
    let u = c as u32;
    (0x9 <= u && u <= 0xD) || u == 0x20 || u == 0x85 || u == 0xA0 || u == 0x1680
        || (0x2000 <= u && u <= 0x200A) || u == 0x2028 || u == 0x2029 || u == 0x202F
        || u == 0x205F || u == 0x3000
}

/// A name is blank when it is empty after trimming white space: when every
/// character is white space.
pub open spec fn is_blank(s: Seq<char>) -> bool {
    forall|i: int| 0 <= i < s.len() ==> unicode_whitespace(#[trigger] s[i])
}

/// Whether `text` is blank (`text.trim().is_empty()`).
pub fn is_blank_text(text: &str) -> (b: bool)
    ensures
        b == is_blank(text@),
{
    let n = text.unicode_len();
    for i in 0..n
        invariant
            n == text@.len(),
            forall|j: int| 0 <= j < i ==> unicode_whitespace(#[trigger] text@[j]),
    {
        if !char_is_whitespace(text.get_char(i)) {
            return false;
        }
    }
    true
}

/// What opening the onboarding tab does.
#[derive(Debug, PartialEq, Eq, Structural)]
pub enum TabAction {
    /// The onboarding tab is the active one: nothing to do.
    Nothing,
    /// It is open but not active: activate it.
    Activate,
    /// It is not open: create it and activate it.
    Create,
}

/// Decides what opening the onboarding tab does, given whether it is the
/// active tab and whether it is open at all.
pub fn onboarding_tab_action(is_active: bool, is_open: bool) -> (a: TabAction)
    ensures
        is_active ==> a == TabAction::Nothing,
        !is_active && is_open ==> a == TabAction::Activate,
        !is_active && !is_open ==> a == TabAction::Create,
{
    if is_active {
        TabAction::Nothing
    } else if is_open {
        TabAction::Activate
    } else {
        TabAction::Create
    }
}

/// A user's first interaction: the profile and space made so far, by
/// position in the store's lists.
pub struct Onboarding {
    pub profile: Option<usize>,
    pub space: Option<usize>,
}

impl Onboarding {
    /// Nothing made yet.
    pub fn new() -> (o: Onboarding)
        ensures
            o.profile is None,
            o.space is None,
    {
        Onboarding { profile: None, space: None }
    }

    /// Whether both a profile and a space have been made.
    pub fn is_complete(&self) -> (b: bool)
        ensures
            b == (self.profile is Some && self.space is Some),
    {
        self.profile.is_some() && self.space.is_some()
    }
}

/// Whether a typed profile name is taken: any non-empty text is.
pub fn accepts_profile_name(name: &str) -> (b: bool)
    ensures
        b == (name@.len() > 0),
{
    !name.is_empty()
}

/// Whether a typed space or profile name is taken in the creation dialogs:
/// any text that is not blank is.
pub fn accepts_dialog_name(name: &str) -> (b: bool)
    ensures
        b == !is_blank(name@),
{
    !is_blank_text(name)
}

/// `after` is `before` showing the input when `input`, the button otherwise,
/// with its label and placeholder kept.
pub open spec fn shows_as(before: ButtonInput, after: ButtonInput, input: bool) -> bool {
    &&& after.editing == input
    &&& after.name == before.name
    &&& after.placeholder == before.placeholder
}

/// A button that turns into a text input when clicked, and back.
pub struct ButtonInput {
    pub name: String,
    pub placeholder: Option<String>,
    pub editing: bool,
}

impl ButtonInput {
    /// A button labelled `name`, showing as a button.
    pub fn new(name: String) -> (b: ButtonInput)
        ensures
            b.name@ == name@,
            b.placeholder is None,
            !b.editing,
    {
        ButtonInput { name, placeholder: None, editing: false }
    }

    /// Sets the input's placeholder text.
    pub fn placeholder_text(self, text: String) -> (b: ButtonInput)
        ensures
            b.placeholder == Some(text),
            b.name == self.name,
            b.editing == self.editing,
    {
        ButtonInput { name: self.name, placeholder: Some(text), editing: self.editing }
    }

    /// Back to a button.
    pub fn clear(&mut self)
        ensures
            shows_as(*old(self), *final(self), false),
    {
        self.editing = false;
    }

    /// Shows a fresh text input.
    pub fn fresh_input(&mut self)
        ensures
            shows_as(*old(self), *final(self), true),
    {
        self.editing = true;
    }

    /// Whether the input is showing.
    pub fn is_input(&self) -> (b: bool)
        ensures
            b == self.editing,
    {
        self.editing
    }

    /// Whether the button is showing.
    pub fn is_button(&self) -> (b: bool)
        ensures
            b == !self.editing,
    {
        !self.editing
    }

    /// Whether a submission of `text` reaches the submit handlers: empty
    /// text is ignored.
    pub fn submits(&self, text: &str) -> (b: bool)
        ensures
            b == (text@.len() > 0),
    {
        !text.is_empty()
    }
}

/// Opening the input and clearing it gives back the button as it was.
pub proof fn law_input_then_clear_restores(b0: ButtonInput, b1: ButtonInput, b2: ButtonInput)
    requires
        !b0.editing,
        shows_as(b0, b1, true),
        shows_as(b1, b2, false),
    ensures
        b2 == b0,
{
}

} // verus!
