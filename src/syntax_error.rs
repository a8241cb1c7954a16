use crate::text::{push_chars, push_str, string_of};
use vstd::prelude::*;

verus! {

/// An error raised for malformed input, carrying only a message.
#[derive(Debug)]
pub struct SyntaxError {
    pub message: String,
}

impl SyntaxError {
    pub fn new(message: String) -> (r: SyntaxError)
        ensures
            r.message == message,
    {
        SyntaxError { message }
    }

    /// The error as displayed: `ParserError: ` followed by the message.
    pub fn render(&self) -> (r: String)
        ensures
            r@ == "ParserError: "@ + self.message@,
    {
        let mut out: Vec<char> = Vec::new();
        push_str(&mut out, "ParserError: ");
        let message = crate::text::chars_of(self.message.as_str());
        push_chars(&mut out, &message);
        string_of(&out)
    }
}

} // verus!
