//! The failures that a scan absorbs, as the text in which it reports them.

use vstd::prelude::*;
use vstd::string::StringExecFns;

verus! {

/// What a branch reports that found its scan cancelled.
pub open spec fn cancelled_text() -> Seq<char> {
    "cancelled"@
}

/// What is reported of the entry at `path` that could not be read because
/// of `cause`.
pub open spec fn entry_error_text(path: Seq<char>, cause: Seq<char>) -> Seq<char> {
    path + ": "@ + cause
}

/// The texts of a sequence of strings, one by one.
pub open spec fn texts(messages: Seq<String>) -> Seq<Seq<char>> {
    Seq::new(messages.len(), |i: int| messages[i]@)
}

/// The message of a branch that found its scan cancelled.
pub fn cancelled_message() -> (message: String)
    ensures
        message@ == cancelled_text(),
{
    "cancelled".to_owned()
}

/// The message for the entry at `path` that could not be read because of
/// `cause`: the path, a colon and a space, the cause.
pub fn entry_error(path: &str, cause: &str) -> (message: String)
    ensures
        message@ == entry_error_text(path@, cause@),
{
    let mut message = path.to_owned();
    message.append(": ");
    message.append(cause);
    message
}

/// The failures of one scan, in the order in which they came. Nothing is
/// ever merged or dropped.
pub struct ErrorCollector {
    messages: Vec<String>,
}

impl View for ErrorCollector {
    type V = Seq<Seq<char>>;

    closed spec fn view(&self) -> Seq<Seq<char>> {
        texts(self.messages@)
    }
}

impl ErrorCollector {
    /// A collector that holds nothing.
    pub fn new() -> (collector: ErrorCollector)
        ensures
            collector@ == Seq::<Seq<char>>::empty(),
    {
        let collector = ErrorCollector { messages: Vec::new() };
        collector
    }

    /// Appends `message`.
    pub fn record(&mut self, message: String)
        ensures
            final(self)@ == old(self)@.push(message@),
    {
        self.messages.push(message);
    }

    /// The number of failures held.
    pub fn len(&self) -> (count: usize)
        ensures
            count == self@.len(),
    {
        self.messages.len()
    }

    /// The failures held, first come first.
    pub fn messages(&self) -> (messages: &Vec<String>)
        ensures
            texts(messages@) == self@,
    {
        &self.messages
    }

    /// Hands the failures out, first come first.
    pub fn into_messages(self) -> (messages: Vec<String>)
        ensures
            texts(messages@) == self@,
    {
        self.messages
    }
}

} // verus!
