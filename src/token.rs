use crate::text::{chars_of, push_chars, push_str, string_of};
use vstd::prelude::*;

verus! {

/// A lexical token of the language.
#[derive(Debug)]
pub enum Token {
    End,
    Newline,
    Print,
    Number(String),
    Identifier(String),
    Plus,
    Minus,
    Star,
    Slash,
    LeftParen,
    RightParen,
    LeftCurly,
    RightCurly,
}

/// The mathematical model of a token: texts are character sequences.
pub enum Lexeme {
    End,
    Newline,
    Print,
    Number(Seq<char>),
    Identifier(Seq<char>),
    Plus,
    Minus,
    Star,
    Slash,
    LeftParen,
    RightParen,
    LeftCurly,
    RightCurly,
}

impl View for Token {
    type V = Lexeme;

    open spec fn view(&self) -> Lexeme {
        match self {
            Token::End => Lexeme::End,
            Token::Newline => Lexeme::Newline,
            Token::Print => Lexeme::Print,
            Token::Number(s) => Lexeme::Number(s@),
            Token::Identifier(s) => Lexeme::Identifier(s@),
            Token::Plus => Lexeme::Plus,
            Token::Minus => Lexeme::Minus,
            Token::Star => Lexeme::Star,
            Token::Slash => Lexeme::Slash,
            Token::LeftParen => Lexeme::LeftParen,
            Token::RightParen => Lexeme::RightParen,
            Token::LeftCurly => Lexeme::LeftCurly,
            Token::RightCurly => Lexeme::RightCurly,
        }
    }
}

impl PartialEq for Token {
    fn eq(&self, other: &Token) -> (r: bool)
        ensures
            r == (self@ == other@),
    {
        match (self, other) {
            (Token::Number(a), Token::Number(b)) => (*a).eq(b),
            (Token::Identifier(a), Token::Identifier(b)) => (*a).eq(b),
            (Token::End, Token::End) => true,
            (Token::Newline, Token::Newline) => true,
            (Token::Print, Token::Print) => true,
            (Token::Plus, Token::Plus) => true,
            (Token::Minus, Token::Minus) => true,
            (Token::Star, Token::Star) => true,
            (Token::Slash, Token::Slash) => true,
            (Token::LeftParen, Token::LeftParen) => true,
            (Token::RightParen, Token::RightParen) => true,
            (Token::LeftCurly, Token::LeftCurly) => true,
            (Token::RightCurly, Token::RightCurly) => true,
            _ => false,
        }
    }
}

impl vstd::std_specs::cmp::PartialEqSpecImpl for Token {
    open spec fn obeys_eq_spec() -> bool {
        true
    }

    open spec fn eq_spec(&self, other: &Token) -> bool {
        self@ == other@
    }
}

/// How a token is written in messages: its variant name, and the text in
/// quotes for a numeral or an identifier.
pub open spec fn debug_text(l: Lexeme) -> Seq<char> {
    match l {
        Lexeme::End => "End"@,
        Lexeme::Newline => "Newline"@,
        Lexeme::Print => "Print"@,
        Lexeme::Plus => "Plus"@,
        Lexeme::Minus => "Minus"@,
        Lexeme::Star => "Star"@,
        Lexeme::Slash => "Slash"@,
        Lexeme::LeftParen => "LeftParen"@,
        Lexeme::RightParen => "RightParen"@,
        Lexeme::LeftCurly => "LeftCurly"@,
        Lexeme::RightCurly => "RightCurly"@,
        Lexeme::Number(t) => "Number(\""@ + t + "\")"@,
        Lexeme::Identifier(t) => "Identifier(\""@ + t + "\")"@,
    }
}

/// How a token is named for a reader.
pub open spec fn describe_text(l: Lexeme) -> Seq<char> {
    match l {
        Lexeme::End => "the end"@,
        Lexeme::Newline => "a newline"@,
        Lexeme::Print => "the print keyword"@,
        Lexeme::Plus => "+"@,
        Lexeme::Minus => "-"@,
        Lexeme::Star => "*"@,
        Lexeme::Slash => "/"@,
        Lexeme::LeftParen => "("@,
        Lexeme::RightParen => ")"@,
        Lexeme::LeftCurly => "{"@,
        Lexeme::RightCurly => "}"@,
        Lexeme::Number(t) => "the number "@ + t,
        Lexeme::Identifier(t) => "the identifier "@ + t,
    }
}

impl Token {
    /// Names the token for a reader: `describe_text`.
    pub fn describe(&self) -> (r: String)
        ensures
            r@ == describe_text(self@),
    {
        let mut out: Vec<char> = Vec::new();
        match self {
            Token::End => push_str(&mut out, "the end"),
            Token::Newline => push_str(&mut out, "a newline"),
            Token::Print => push_str(&mut out, "the print keyword"),
            Token::Plus => push_str(&mut out, "+"),
            Token::Minus => push_str(&mut out, "-"),
            Token::Star => push_str(&mut out, "*"),
            Token::Slash => push_str(&mut out, "/"),
            Token::LeftParen => push_str(&mut out, "("),
            Token::RightParen => push_str(&mut out, ")"),
            Token::LeftCurly => push_str(&mut out, "{"),
            Token::RightCurly => push_str(&mut out, "}"),
            Token::Number(t) => {
                push_str(&mut out, "the number ");
                push_chars(&mut out, &chars_of(t.as_str()));
            },
            Token::Identifier(t) => {
                push_str(&mut out, "the identifier ");
                push_chars(&mut out, &chars_of(t.as_str()));
            },
        }
        string_of(&out)
    }

    /// A token equal to this one.
    pub fn copy(&self) -> (r: Token)
        ensures
            r@ == self@,
    {
        match self {
            Token::End => Token::End,
            Token::Newline => Token::Newline,
            Token::Print => Token::Print,
            Token::Plus => Token::Plus,
            Token::Minus => Token::Minus,
            Token::Star => Token::Star,
            Token::Slash => Token::Slash,
            Token::LeftParen => Token::LeftParen,
            Token::RightParen => Token::RightParen,
            Token::LeftCurly => Token::LeftCurly,
            Token::RightCurly => Token::RightCurly,
            Token::Number(t) => Token::Number(t.clone()),
            Token::Identifier(t) => Token::Identifier(t.clone()),
        }
    }

    /// Appends `debug_text` of this token to `out`.
    pub fn push_debug(&self, out: &mut Vec<char>)
        ensures
            final(out)@ == old(out)@ + debug_text(self@),
    {
        match self {
            Token::End => push_str(out, "End"),
            Token::Newline => push_str(out, "Newline"),
            Token::Print => push_str(out, "Print"),
            Token::Plus => push_str(out, "Plus"),
            Token::Minus => push_str(out, "Minus"),
            Token::Star => push_str(out, "Star"),
            Token::Slash => push_str(out, "Slash"),
            Token::LeftParen => push_str(out, "LeftParen"),
            Token::RightParen => push_str(out, "RightParen"),
            Token::LeftCurly => push_str(out, "LeftCurly"),
            Token::RightCurly => push_str(out, "RightCurly"),
            Token::Number(t) => {
                push_str(out, "Number(\"");
                push_chars(out, &chars_of(t.as_str()));
                push_str(out, "\")");
            },
            Token::Identifier(t) => {
                push_str(out, "Identifier(\"");
                push_chars(out, &chars_of(t.as_str()));
                push_str(out, "\")");
            },
        }
    }
}

} // verus!
