//! Errors as chains of messages.
use crate::model::{group_views, views};
use crate::text::{join, joined};
use vstd::prelude::*;

verus! {

broadcast use group_views;

/// What went wrong, followed by what caused it, cause by cause.
#[derive(Debug)]
pub struct ErrorChain {
    pub message: String,
    pub causes: Vec<String>,
}

impl View for ErrorChain {
    type V = Seq<Seq<char>>;

    /// The messages, outermost first.
    open spec fn view(&self) -> Seq<Seq<char>> {
        seq![self.message@] + views(self.causes@)
    }
}

/// The chain `error` behind one more message.
pub open spec fn explained(error: Seq<Seq<char>>, message: Seq<char>) -> Seq<Seq<char>> {
    seq![message] + error
}

impl ErrorChain {
    /// An error without a cause.
    pub fn new(message: String) -> (error: ErrorChain)
        ensures
            error@ == seq![message@],
    {
        ErrorChain { message, causes: Vec::new() }
    }

    /// Says what was being done when the error came up.
    pub fn context(self, message: String) -> (error: ErrorChain)
        ensures
            error@ == explained(self@, message@),
    {
        let mut causes: Vec<String> = Vec::new();
        causes.push(self.message);
        let mut rest = self.causes;
        causes.append(&mut rest);
        let error = ErrorChain { message, causes };
        assert(error@ == explained(self@, message@));
        error
    }

    /// All messages in one line, a colon and a space between each two.
    pub fn in_full(&self) -> (text: String)
        ensures
            text@ == joined(self@, ": "@),
    {
        let mut messages: Vec<String> = Vec::new();
        messages.push(self.message.clone());
        let mut i: usize = 0;
        while i < self.causes.len()
            invariant
                i <= self.causes@.len(),
                views(messages@) == self@.take(i + 1),
            decreases self.causes@.len() - i,
        {
            messages.push(self.causes[i].clone());
            i += 1;
            assert(self@.take(i + 1) == self@.take(i as int).push(self.causes@[i - 1]@));
        }
        assert(self@.take(self@.len() as int) == self@);
        join(&messages, ": ")
    }
}

} // verus!
