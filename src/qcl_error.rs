use crate::span::{shows_span, Span};
use crate::text::{bright_red, chars_of, painted, push_chars, push_str, string_of};
use vstd::prelude::*;

verus! {

/// The kind of a diagnostic.
#[derive(Debug, Clone, Copy, PartialEq, Eq, Structural)]
pub enum QclErrorType {
    SyntaxError,
    DivisionByZeroError,
}

/// A diagnostic: its kind, the span of source it points at, and a message.
#[derive(Debug)]
pub struct QclError {
    pub error_type: QclErrorType,
    pub span: Span,
    pub message: String,
}

/// The name of an error kind, as diagnostics print it.
pub open spec fn kind_name(k: QclErrorType) -> Seq<char> {
    match k {
        QclErrorType::SyntaxError => "SyntaxError"@,
        QclErrorType::DivisionByZeroError => "DivisionByZeroError"@,
    }
}

impl QclError {
    pub fn new(error_type: QclErrorType, span: Span, message: String) -> (r: QclError)
        ensures
            r.error_type == error_type,
            r.span == span,
            r.message == message,
    {
        QclError { error_type, span, message }
    }

    /// Whether this is a syntax error at `start..=end` with the given message.
    pub open spec fn is_syntax_error(&self, start: int, end: int, message: Seq<char>) -> bool {
        &&& self.error_type == QclErrorType::SyntaxError
        &&& self.span.start == start
        &&& self.span.end == end
        &&& self.message@ == message
    }

    /// The label printed under the excerpt: `<kind>: <message>`.
    pub open spec fn label(&self) -> Seq<char> {
        kind_name(self.error_type) + ": "@ + self.message@
    }

    /// Renders the diagnostic: the span's excerpt and carets, a newline, and
    /// the label in bright red.
    pub fn render(&self) -> (r: String)
        requires
            self.span.start <= self.span.end <= self.span.source@.len(),
        ensures
            exists|k: int|
                0 <= k < r@.len() && r@[k] == '\n' && #[trigger] shows_span(
                    self.span.source@,
                    self.span.start as int,
                    self.span.end as int,
                    r@.subrange(0, k),
                ) && (!self.message@.contains('\x1b') ==> painted(
                    self.label(),
                    r@.subrange(k + 1, r@.len() as int),
                )),
    {
        let shown = self.span.render();
        let mut out = chars_of(shown.as_str());
        let k = out.len();
        out.push('\n');
        let mut label: Vec<char> = Vec::new();
        match self.error_type {
            QclErrorType::SyntaxError => push_str(&mut label, "SyntaxError"),
            QclErrorType::DivisionByZeroError => push_str(&mut label, "DivisionByZeroError"),
        }
        push_str(&mut label, ": ");
        push_chars(&mut label, &chars_of(self.message.as_str()));
        assert(label@ =~= self.label());
        proof {
            if !self.message@.contains('\x1b') {
                assert(!label@.contains('\x1b')) by {
                    if label@.contains('\x1b') {
                        let j = choose|j: int| 0 <= j < label@.len() && label@[j] == '\x1b';
                        let head = kind_name(self.error_type) + ": "@;
                        if j >= head.len() {
                            assert(self.message@[j - head.len()] == '\x1b');
                        } else {
                            reveal_strlit("SyntaxError");
                            reveal_strlit("DivisionByZeroError");
                            reveal_strlit(": ");
                        }
                    }
                }
            }
        }
        let colored = bright_red(string_of(&label).as_str());
        push_chars(&mut out, &chars_of(colored.as_str()));
        assert(out@.subrange(0, k as int) =~= shown@);
        assert(out@.subrange(k + 1, out@.len() as int) =~= colored@);
        string_of(&out)
    }
}

} // verus!
