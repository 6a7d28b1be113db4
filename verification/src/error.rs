//! Errors as they are shown: a message for what went wrong and, behind it, a
//! message for each cause.

use vstd::prelude::*;

verus! {

/// An error with its causes: what went wrong, and why, and why that.
#[derive(Debug)]
pub struct ErrorChain {
    /// The messages, the outermost first.
    pub messages: Vec<String>,
}

/// The texts of a sequence of strings.
pub open spec fn texts(messages: Seq<String>) -> Seq<Seq<char>> {
    messages.map_values(|m: String| m@)
}

impl View for ErrorChain {
    type V = Seq<Seq<char>>;

    open spec fn view(&self) -> Seq<Seq<char>> {
        texts(self.messages@)
    }
}

impl ErrorChain {
    /// An error without a known cause.
    pub fn new(message: String) -> (chain: ErrorChain)
        ensures
            chain@ == seq![message@],
    {
        let mut messages: Vec<String> = Vec::new();
        messages.push(message);
        assert(texts(messages@) =~= seq![message@]);
        ErrorChain { messages }
    }

    /// The error that this one has caused: `message` in front of the chain.
    pub fn context(self, message: String) -> (chain: ErrorChain)
        ensures
            chain@ == seq![message@] + self@,
    {
        let ghost before = self@;
        let mut messages = self.messages;
        messages.insert(0, message);
        assert(texts(messages@) =~= seq![message@] + before);
        ErrorChain { messages }
    }
}

} // verus!
