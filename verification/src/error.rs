//! The crate's error: what went wrong, and what was being done when it did.

use crate::text;
use crate::text::Text;
use vstd::prelude::*;
use vstd::string::*;

verus! {

/// A failure, as a chain of messages: the outermost context first, the root cause last.
#[derive(Debug)]
pub struct Error {
    chain: Vec<String>,
}

impl View for Error {
    type V = Seq<Text>;

    closed spec fn view(&self) -> Seq<Text> {
        text::views(self.chain@)
    }
}

/// The messages of the error in `r`, or `None` where `r` is a success.
pub open spec fn failure<T>(r: Result<T, Error>) -> Option<Seq<Text>> {
    match r {
        Ok(_) => None,
        Err(e) => Some(e@),
    }
}

impl Error {
    #[verifier::type_invariant]
    spec fn has_message(&self) -> bool {
        self.chain@.len() > 0
    }

    /// An error with a single message.
    pub fn msg(message: String) -> (r: Error)
        ensures
            r@ == seq![message@],
    {
        let mut chain: Vec<String> = Vec::new();
        chain.push(message);
        assert(text::views(chain@) == seq![message@]);
        Error { chain }
    }

    /// The error that `message` puts in context.
    pub fn context(self, message: String) -> (r: Error)
        ensures
            r@ == seq![message@] + self@,
    {
        let mut chain: Vec<String> = Vec::new();
        chain.push(message);
        for i in 0..self.chain.len()
            invariant
                chain@.len() == i + 1,
                chain@[0]@ == message@,
                forall|j: int| 1 <= j <= i ==> (#[trigger] chain@[j])@ == self.chain@[j - 1]@,
        {
            chain.push(self.chain[i].clone());
        }
        assert(text::views(chain@) == seq![message@] + self@);
        Error { chain }
    }

    /// The outermost message.
    pub fn to_string(&self) -> (r: String)
        ensures
            self@.len() > 0,
            r@ == self@[0],
    {
        proof {
            use_type_invariant(self);
        }
        self.chain[0].clone()
    }

    /// The innermost message.
    pub fn root_cause(&self) -> (r: String)
        ensures
            self@.len() > 0,
            r@ == self@.last(),
    {
        proof {
            use_type_invariant(self);
        }
        self.chain[self.chain.len() - 1].clone()
    }

    /// All messages, the outermost first.
    pub fn messages(&self) -> (r: Vec<String>)
        ensures
            text::views(r@) == self@,
            r@.len() > 0,
    {
        proof {
            use_type_invariant(self);
        }
        let mut out: Vec<String> = Vec::new();
        for i in 0..self.chain.len()
            invariant
                out@.len() == i,
                forall|j: int| 0 <= j < i ==> (#[trigger] out@[j])@ == self.chain@[j]@,
        {
            out.push(self.chain[i].clone());
        }
        assert(text::views(out@) == self@);
        out
    }

    /// All messages in one line, the outermost first, with `: ` between them.
    pub fn full_text(&self) -> (r: String)
        ensures
            r@ == text::join(self@, ": "@),
    {
        text::join_strings(&self.chain, ": ")
    }
}

} // verus!
