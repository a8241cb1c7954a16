use crate::qcl_error::{QclError, QclErrorType};
use crate::span::{Span, Spanned};
use crate::text::{chars_of, push_str, string_of};
use crate::token::{Lexeme, Token};
use std::rc::Rc;
use vstd::prelude::*;

verus! {

/// What `char::is_alphabetic` answers: the Unicode `Alphabetic` property.
pub uninterp spec fn alphabetic(c: char) -> bool;

/// Relies on `char::is_alphabetic`, which depends on the character alone.
#[verifier::external_body]
fn is_alphabetic(c: char) -> (r: bool)
    ensures
        r == alphabetic(c),
{
    c.is_alphabetic()
}

pub open spec fn is_digit(c: char) -> bool {
    '0' <= c && c <= '9'
}

pub open spec fn is_name_char(c: char) -> bool {
    alphabetic(c) || c == '_'
}

pub open spec fn is_blank(c: char) -> bool {
    c == ' ' || c == '\r'
}

/// The first position at or after `i` that is not a blank.
pub open spec fn skip_blanks(s: Seq<char>, i: int) -> int
    decreases s.len() - i,
{
    if 0 <= i < s.len() && is_blank(s[i]) {
        skip_blanks(s, i + 1)
    } else {
        i
    }
}

/// The end of the run of digits that starts at `i`.
pub open spec fn digits_end(s: Seq<char>, i: int) -> int
    decreases s.len() - i,
{
    if 0 <= i < s.len() && is_digit(s[i]) {
        digits_end(s, i + 1)
    } else {
        i
    }
}

/// The end of the numeral that starts at `i`: digits, then optionally one
/// `.` and more digits.
pub open spec fn numeral_end(s: Seq<char>, i: int) -> int {
    let j = digits_end(s, i);
    if 0 <= j < s.len() && s[j] == '.' {
        digits_end(s, j + 1)
    } else {
        j
    }
}

/// The end of the run of name characters that starts at `i`.
pub open spec fn name_end(s: Seq<char>, i: int) -> int
    decreases s.len() - i,
{
    if 0 <= i < s.len() && is_name_char(s[i]) {
        name_end(s, i + 1)
    } else {
        i
    }
}

pub open spec fn print_keyword() -> Seq<char> {
    seq!['p', 'r', 'i', 'n', 't']
}

/// The token of a single-character symbol.
pub open spec fn symbol(c: char) -> Option<Lexeme> {
    if c == '\n' {
        Some(Lexeme::Newline)
    } else if c == '+' {
        Some(Lexeme::Plus)
    } else if c == '-' {
        Some(Lexeme::Minus)
    } else if c == '*' {
        Some(Lexeme::Star)
    } else if c == '/' {
        Some(Lexeme::Slash)
    } else if c == '(' {
        Some(Lexeme::LeftParen)
    } else if c == ')' {
        Some(Lexeme::RightParen)
    } else if c == '{' {
        Some(Lexeme::LeftCurly)
    } else if c == '}' {
        Some(Lexeme::RightCurly)
    } else {
        None
    }
}

/// The token that starts at the non-blank position `i` and the position
/// just after it, or `None` where the character there starts no token.
pub open spec fn scan_token(s: Seq<char>, i: int) -> Option<(Lexeme, int)> {
    let c = s[i];
    if is_digit(c) {
        let e = numeral_end(s, i);
        Some((Lexeme::Number(s.subrange(i, e)), e))
    } else if is_name_char(c) {
        let e = name_end(s, i);
        let t = s.subrange(i, e);
        if t == print_keyword() {
            Some((Lexeme::Print, e))
        } else {
            Some((Lexeme::Identifier(t), e))
        }
    } else {
        match symbol(c) {
            Some(l) => Some((l, i + 1)),
            None => None,
        }
    }
}

/// The next token from position `i` on, with its inclusive span, and the
/// position after it; `Err(p)` where the character at `p` starts no token.
pub open spec fn next_spec(s: Seq<char>, i: int) -> Result<(Lexeme, int, int, int), int> {
    let j = skip_blanks(s, i);
    if j >= s.len() {
        Ok((Lexeme::End, j, j, j))
    } else {
        match scan_token(s, j) {
            Some((l, e)) => Ok((l, j, e - 1, e)),
            None => Err(j),
        }
    }
}

/// The tokens of `s` from position `i` on, each with its inclusive span,
/// ending with `End`; or `Err(p)` for the first character `p` that starts
/// no token.
pub open spec fn lex_spec(s: Seq<char>, i: int) -> Result<Seq<(Lexeme, int, int)>, int>
    decreases s.len() - i,
{
    match next_spec(s, i) {
        Err(p) => Err(p),
        Ok((l, start, end, next)) => {
            if l is End {
                Ok(seq![(l, start, end)])
            } else if i < next <= s.len() {
                match lex_spec(s, next) {
                    Ok(rest) => Ok(seq![(l, start, end)] + rest),
                    Err(p) => Err(p),
                }
            } else {
                Err(start)
            }
        },
    }
}

/// The message of the lexical error for character `c`.
pub open spec fn bad_char_message(c: char) -> Seq<char> {
    "Could not handle character: '"@ + seq![c] + "'"@
}

/// Whether `e` is the lexical error at position `p` of `s`.
pub open spec fn is_lex_error(e: QclError, s: Seq<char>, p: int) -> bool {
    0 <= p < s.len() && e.is_syntax_error(p, p, bad_char_message(s[p]))
}

pub open spec fn token_view(t: Spanned<Token>) -> (Lexeme, int, int) {
    (t.item@, t.span.start as int, t.span.end as int)
}

pub proof fn lemma_digits_end(s: Seq<char>, i: int)
    requires
        0 <= i <= s.len(),
    ensures
        i <= digits_end(s, i) <= s.len(),
        forall|k: int| i <= k < digits_end(s, i) ==> is_digit(#[trigger] s[k]),
    decreases s.len() - i,
{
    if i < s.len() && is_digit(s[i]) {
        lemma_digits_end(s, i + 1);
    }
}

pub proof fn lemma_name_end(s: Seq<char>, i: int)
    requires
        0 <= i <= s.len(),
    ensures
        i <= name_end(s, i) <= s.len(),
        forall|k: int| i <= k < name_end(s, i) ==> is_name_char(#[trigger] s[k]),
    decreases s.len() - i,
{
    if i < s.len() && is_name_char(s[i]) {
        lemma_name_end(s, i + 1);
    }
}

pub proof fn lemma_skip_blanks(s: Seq<char>, i: int)
    requires
        0 <= i,
    ensures
        i <= skip_blanks(s, i),
        i <= s.len() ==> skip_blanks(s, i) <= s.len(),
    decreases s.len() - i,
{
    if 0 <= i < s.len() && is_blank(s[i]) {
        lemma_skip_blanks(s, i + 1);
    }
}

/// A token that is not `End` ends after the position it was scanned from.
pub proof fn lemma_next_advances(s: Seq<char>, i: int)
    requires
        0 <= i <= s.len(),
    ensures
        next_spec(s, i) matches Ok((l, start, end, next)) ==> {
            &&& i <= start
            &&& l is End ==> start == end == next == s.len()
            &&& !(l is End) ==> start <= end < next <= s.len()
        },
        next_spec(s, i) matches Err(p) ==> i <= p < s.len(),
{
    lemma_skip_blanks(s, i);
    let j = skip_blanks(s, i);
    if j < s.len() {
        lemma_digits_end(s, j);
        lemma_digits_end(s, j + 1);
        lemma_name_end(s, j);
        lemma_name_end(s, j + 1);
        let d = digits_end(s, j);
        if d < s.len() {
            lemma_digits_end(s, d + 1);
        }
    }
}

/// A successful tokenization is never empty and ends with `End`.
pub proof fn lemma_lex_ends(s: Seq<char>, i: int)
    requires
        0 <= i <= s.len(),
        lex_spec(s, i) is Ok,
    ensures
        lex_spec(s, i)->Ok_0.len() > 0,
        lex_spec(s, i)->Ok_0.last().0 is End,
    decreases s.len() - i,
{
    lemma_next_advances(s, i);
    let (l, a, b, e) = next_spec(s, i)->Ok_0;
    if !(l is End) {
        lemma_lex_ends(s, e);
    }
}

/// Whether `s[a..b]` is a non-empty run of digits.
pub open spec fn digit_run(s: Seq<char>, a: int, b: int) -> bool {
    0 <= a < b <= s.len() && forall|k: int| a <= k < b ==> is_digit(#[trigger] s[k])
}

/// Whether `n` is a numeral: `digits ('.' digits)?`.
pub open spec fn is_numeral(n: Seq<char>) -> bool {
    ||| digit_run(n, 0, n.len() as int)
    ||| exists|k: int| 0 < k < n.len() && #[trigger] n[k] == '.' && digit_run(n, 0, k) && digit_run(n, k + 1, n.len() as int)
}

proof fn lemma_digits_end_at(s: Seq<char>, i: int, k: int)
    requires
        0 <= i <= k <= s.len(),
        forall|m: int| i <= m < k ==> is_digit(#[trigger] s[m]),
        k == s.len() || !is_digit(s[k]),
    ensures
        digits_end(s, i) == k,
    decreases k - i,
{
    if i < k {
        lemma_digits_end_at(s, i + 1, k);
    }
}

/// A numeral is tokenized as one `Number` token spanning all of it,
/// followed by `End`.
pub proof fn lemma_numeral_tokenizes(n: Seq<char>)
    requires
        is_numeral(n),
    ensures
        lex_spec(n, 0) == Ok::<Seq<(Lexeme, int, int)>, int>(
            seq![(Lexeme::Number(n), 0, n.len() - 1), (Lexeme::End, n.len() as int, n.len() as int)],
        ),
{
    let len = n.len() as int;
    if digit_run(n, 0, len) {
        lemma_digits_end_at(n, 0, len);
    } else {
        let k = choose|k: int| 0 < k < n.len() && #[trigger] n[k] == '.' && digit_run(n, 0, k) && digit_run(n, k + 1, n.len() as int);
        lemma_digits_end_at(n, 0, k);
        lemma_digits_end_at(n, k + 1, len);
    }
    assert(numeral_end(n, 0) == len);
    assert(skip_blanks(n, 0) == 0);
    assert(n.subrange(0, len) =~= n);
    assert(next_spec(n, 0) == Ok::<(Lexeme, int, int, int), int>((Lexeme::Number(n), 0, len - 1, len)));
    assert(next_spec(n, len) == Ok::<(Lexeme, int, int, int), int>((Lexeme::End, len, len, len)));
    assert(lex_spec(n, len) == Ok::<Seq<(Lexeme, int, int)>, int>(seq![(Lexeme::End, len, len)]));
    assert(seq![(Lexeme::Number(n), 0, len - 1)] + seq![(Lexeme::End, len, len)] =~= seq![(Lexeme::Number(n), 0, len - 1), (Lexeme::End, len, len)]);
}

proof fn lemma_skip_blanks_stops(s: Seq<char>, i: int)
    requires
        0 <= i,
        skip_blanks(s, i) < s.len(),
    ensures
        !is_blank(s[skip_blanks(s, i)]),
    decreases s.len() - i,
{
    if 0 <= i < s.len() && is_blank(s[i]) {
        lemma_skip_blanks_stops(s, i + 1);
    }
}

/// Scanning digits in the piece `s[j..e]` stops where scanning them in `s`
/// does, or at the end of the piece.
proof fn lemma_digits_end_piece(s: Seq<char>, j: int, e: int, x: int)
    requires
        0 <= j <= x <= e <= s.len(),
    ensures
        digits_end(s.subrange(j, e), x - j) == (if digits_end(s, x) < e { digits_end(s, x) } else { e }) - j,
    decreases e - x,
{
    lemma_digits_end(s, x);
    if x < e {
        if is_digit(s[x]) {
            lemma_digits_end_piece(s, j, e, x + 1);
        }
    }
}

proof fn lemma_name_end_piece(s: Seq<char>, j: int, e: int, x: int)
    requires
        0 <= j <= x <= e <= s.len(),
    ensures
        name_end(s.subrange(j, e), x - j) == (if name_end(s, x) < e { name_end(s, x) } else { e }) - j,
    decreases e - x,
{
    lemma_name_end(s, x);
    if x < e {
        if is_name_char(s[x]) {
            lemma_name_end_piece(s, j, e, x + 1);
        }
    }
}

/// Whether tokenizing the source text under the span of `t` gives `t`
/// back (moved to offset 0), followed by `End`; `End` itself has no text.
pub open spec fn retokenizes(s: Seq<char>, t: (Lexeme, int, int)) -> bool {
    let piece = s.subrange(t.1, t.2 + 1);
    t.0 is End || lex_spec(piece, 0) == Ok::<Seq<(Lexeme, int, int)>, int>(
        seq![(t.0, 0, t.2 - t.1), (Lexeme::End, piece.len() as int, piece.len() as int)],
    )
}

proof fn lemma_next_retokenizes(s: Seq<char>, i: int)
    requires
        0 <= i <= s.len(),
        next_spec(s, i) is Ok,
    ensures
        ({
            let (l, a, b, e) = next_spec(s, i)->Ok_0;
            retokenizes(s, (l, a, b))
        }),
{
    lemma_next_advances(s, i);
    let (l, j, b, e) = next_spec(s, i)->Ok_0;
    if !(l is End) {
        lemma_skip_blanks(s, i);
        lemma_skip_blanks_stops(s, i);
        let t = s.subrange(j, e);
        let n = e - j;
        assert(t.len() == n);
        assert(t[0] == s[j]);
        assert(skip_blanks(t, 0) == 0);
        lemma_digits_end(s, j);
        lemma_name_end(s, j);
        if is_digit(s[j]) {
            lemma_digits_end_piece(s, j, e, j);
            let d = digits_end(s, j);
            if d < e {
                assert(s[d] == '.');
                assert(t[d - j] == s[d]);
                lemma_digits_end(s, d + 1);
                lemma_digits_end_piece(s, j, e, d + 1);
            }
            assert(numeral_end(t, 0) == n);
        } else if is_name_char(s[j]) {
            lemma_name_end_piece(s, j, e, j);
            assert(name_end(t, 0) == n);
        }
        assert(t.subrange(0, n) =~= s.subrange(j, e));
        assert(next_spec(t, 0) == Ok::<(Lexeme, int, int, int), int>((l, 0, n - 1, n)));
        assert(next_spec(t, n) == Ok::<(Lexeme, int, int, int), int>((Lexeme::End, n, n, n)));
        assert(lex_spec(t, n) == Ok::<Seq<(Lexeme, int, int)>, int>(seq![(Lexeme::End, n, n)]));
        assert(seq![(l, 0, n - 1)] + seq![(Lexeme::End, n, n)] =~= seq![(l, 0, n - 1), (Lexeme::End, n, n)]);
    }
}

proof fn lemma_lex_retokenizes(s: Seq<char>, i: int)
    requires
        0 <= i <= s.len(),
        lex_spec(s, i) is Ok,
    ensures
        forall|k: int| 0 <= k < lex_spec(s, i)->Ok_0.len() ==> retokenizes(s, #[trigger] lex_spec(s, i)->Ok_0[k]),
    decreases s.len() - i,
{
    lemma_next_advances(s, i);
    lemma_next_retokenizes(s, i);
    let (l, a, b, e) = next_spec(s, i)->Ok_0;
    if !(l is End) {
        lemma_lex_retokenizes(s, e);
        let rest = lex_spec(s, e)->Ok_0;
        let ts = lex_spec(s, i)->Ok_0;
        assert forall|k: int| 0 <= k < ts.len() implies retokenizes(s, #[trigger] ts[k]) by {
            if k > 0 {
                assert(ts[k] == rest[k - 1]);
            }
        }
    }
}

/// Tokenizing the source text under the span of any token but `End` gives
/// that token back, followed by `End`.
pub proof fn lemma_token_round_trip(s: Seq<char>, k: int)
    requires
        lex_spec(s, 0) is Ok,
        0 <= k < lex_spec(s, 0)->Ok_0.len(),
    ensures
        retokenizes(s, lex_spec(s, 0)->Ok_0[k]),
{
    lemma_lex_retokenizes(s, 0);
}

/// A tokenizer over the characters of one source text.
pub struct Lexer {
    chars: Vec<char>,
    index: usize,
    source: Rc<String>,
}

impl Lexer {
    /// The characters being tokenized.
    pub closed spec fn text(&self) -> Seq<char> {
        self.chars@
    }

    /// The position of the next character to read.
    pub closed spec fn position(&self) -> int {
        self.index as int
    }

    /// The shared source that spans refer to.
    pub closed spec fn shared_source(&self) -> Rc<String> {
        self.source
    }

    pub fn new(source: String) -> (r: Self)
        ensures
            r.text() == source@,
            r.position() == 0,
            r.shared_source()@ == source@,
    {
        let chars = chars_of(source.as_str());
        Lexer { chars, index: 0, source: Rc::new(source) }
    }

    /// All tokens from the current position on, ending with `End`, or the
    /// first lexical error.
    pub fn lex(&mut self) -> (r: Result<Vec<Spanned<Token>>, QclError>)
        ensures
            final(self).text() == old(self).text(),
            final(self).shared_source() == old(self).shared_source(),
            match (r, lex_spec(old(self).text(), old(self).position())) {
                (Ok(v), Ok(ts)) => {
                    &&& v@.map_values(|t: Spanned<Token>| token_view(t)) == ts
                    &&& forall|k: int|
                        0 <= k < v@.len() ==> (#[trigger] v@[k]).span.source
                            == old(self).shared_source()
                },
                (Err(e), Err(p)) => is_lex_error(e, old(self).text(), p),
                _ => false,
            },
    {
        let mut tokens: Vec<Spanned<Token>> = Vec::new();
        let ghost s = self.text();
        let ghost i0 = self.position();
        if self.index > self.chars.len() {
            let end = Span::new(self.source.clone(), self.index, self.index);
            tokens.push(Spanned::new(Token::End, end));
            assert(tokens@.map_values(|t: Spanned<Token>| token_view(t)) =~= seq![(Lexeme::End, i0, i0)]);
            return Ok(tokens);
        }
        loop
            invariant
                s == old(self).text(),
                i0 == old(self).position(),
                self.text() == s,
                self.shared_source() == old(self).shared_source(),
                i0 <= self.position() <= s.len(),
                forall|k: int|
                    0 <= k < tokens@.len() ==> (#[trigger] tokens@[k]).span.source
                        == old(self).shared_source(),
                match lex_spec(s, self.position()) {
                    Ok(rest) => lex_spec(s, i0) == Ok::<Seq<(Lexeme, int, int)>, int>(
                        tokens@.map_values(|t: Spanned<Token>| token_view(t)) + rest,
                    ),
                    Err(p) => lex_spec(s, i0) == Err::<Seq<(Lexeme, int, int)>, int>(p),
                },
            decreases s.len() - self.position(),
        {
            let ghost before = tokens@;
            let ghost pos = self.position();
            proof {
                lemma_next_advances(s, pos);
            }
            let next_token = self.next_token();
            match next_token {
                Err(e) => {
                    return Err(e);
                },
                Ok(t) => {
                    let is_end = match t.item {
                        Token::End => true,
                        _ => false,
                    };
                    tokens.push(t);
                    proof {
                        assert(tokens@.map_values(|t: Spanned<Token>| token_view(t))
                            =~= before.map_values(|t: Spanned<Token>| token_view(t)) + seq![
                            token_view(tokens@.last())]);
                    }
                    if is_end {
                        assert(lex_spec(s, pos) == Ok::<Seq<(Lexeme, int, int)>, int>(
                            seq![token_view(tokens@.last())]));
                        return Ok(tokens);
                    }
                    proof {
                        match lex_spec(s, self.position()) {
                            Ok(rest) => {
                                assert(tokens@.map_values(|t: Spanned<Token>| token_view(t))
                                    + rest =~= before.map_values(
                                    |t: Spanned<Token>| token_view(t),
                                ) + (seq![token_view(tokens@.last())] + rest));
                            },
                            Err(p) => {},
                        }
                    }
                },
            }
        }
    }

    /// The next token, skipping blanks, or the lexical error at the first
    /// character that starts no token.
    pub fn next_token(&mut self) -> (r: Result<Spanned<Token>, QclError>)
        ensures
            final(self).text() == old(self).text(),
            final(self).shared_source() == old(self).shared_source(),
            old(self).position() <= old(self).text().len() ==> final(self).position()
                <= final(self).text().len(),
            match (r, next_spec(old(self).text(), old(self).position())) {
                (Ok(t), Ok((l, start, end, next))) => {
                    &&& token_view(t) == (l, start, end)
                    &&& t.span.source == old(self).shared_source()
                    &&& final(self).position() == next
                },
                (Err(e), Err(p)) => is_lex_error(e, old(self).text(), p),
                _ => false,
            },
        decreases old(self).text().len() - old(self).position(),
    {
        proof {
            if self.position() <= self.text().len() {
                lemma_next_advances(self.text(), self.position());
            }
        }
        if self.index < self.chars.len() {
            let ch = self.chars[self.index];
            if ch == ' ' || ch == '\r' {
                self.advance();
                return self.next_token();
            }
            if '0' <= ch && ch <= '9' {
                return self.next_number();
            }
            if is_alphabetic(ch) || ch == '_' {
                return self.next_name();
            }
            let item = match ch {
                '\n' => Token::Newline,
                '+' => Token::Plus,
                '-' => Token::Minus,
                '*' => Token::Star,
                '/' => Token::Slash,
                '(' => Token::LeftParen,
                ')' => Token::RightParen,
                '{' => Token::LeftCurly,
                '}' => Token::RightCurly,
                _ => {
                    let mut message: Vec<char> = Vec::new();
                    push_str(&mut message, "Could not handle character: '");
                    message.push(ch);
                    push_str(&mut message, "'");
                    assert(message@ =~= bad_char_message(ch));
                    let span = Span::new(self.source.clone(), self.index, self.index);
                    return Err(QclError::new(QclErrorType::SyntaxError, span, string_of(&message)));
                },
            };
            let token = Spanned::new(item, Span::new(self.source.clone(), self.index, self.index));
            self.advance();
            Ok(token)
        } else {
            Ok(Spanned::new(Token::End, Span::new(self.source.clone(), self.index, self.index)))
        }
    }

    /// The numeral that starts at the current position, which holds a digit.
    pub fn next_number(&mut self) -> (r: Result<Spanned<Token>, QclError>)
        requires
            old(self).position() < old(self).text().len(),
            is_digit(old(self).text()[old(self).position()]),
        ensures
            final(self).text() == old(self).text(),
            final(self).shared_source() == old(self).shared_source(),
            final(self).position() == numeral_end(old(self).text(), old(self).position()),
            r matches Ok(t) && {
                let s = old(self).text();
                let i = old(self).position();
                &&& token_view(t) == (Lexeme::Number(s.subrange(i, numeral_end(s, i))), i, numeral_end(s, i) - 1)
                &&& t.span.source == old(self).shared_source()
            },
    {
        let ghost s = self.text();
        let start_index = self.index;
        let mut text: Vec<char> = Vec::new();
        proof {
            lemma_digits_end(s, start_index as int);
        }
        while self.index < self.chars.len() && '0' <= self.chars[self.index] && self.chars[self.index] <= '9'
            invariant
                self.text() == s,
                self.shared_source() == old(self).shared_source(),
                start_index <= self.index <= digits_end(s, start_index as int),
                digits_end(s, self.index as int) == digits_end(s, start_index as int),
                text@ == s.subrange(start_index as int, self.index as int),
            decreases s.len() - self.index,
        {
            proof {
                lemma_digits_end(s, self.index + 1);
                lemma_name_end(s, self.index + 1);
            }
            text.push(self.chars[self.index]);
            self.advance();
            assert(text@ =~= s.subrange(start_index as int, self.index as int));
        }
        let j = self.index;
        if self.index < self.chars.len() && self.chars[self.index] == '.' {
            self.advance();
            text.push('.');
            assert(text@ =~= s.subrange(start_index as int, self.index as int));
            proof {
                lemma_digits_end(s, self.index as int);
            }
            while self.index < self.chars.len() && '0' <= self.chars[self.index] && self.chars[self.index] <= '9'
                invariant
                    self.text() == s,
                    self.shared_source() == old(self).shared_source(),
                    start_index <= j < self.index <= digits_end(s, j + 1),
                    digits_end(s, self.index as int) == digits_end(s, j + 1),
                    text@ == s.subrange(start_index as int, self.index as int),
                decreases s.len() - self.index,
            {
                proof {
                    lemma_digits_end(s, self.index + 1);
                }
                text.push(self.chars[self.index]);
                self.advance();
                assert(text@ =~= s.subrange(start_index as int, self.index as int));
            }
        }
        let span = Span::new(self.source.clone(), start_index, self.index - 1);
        Ok(Spanned::new(Token::Number(string_of(&text)), span))
    }

    /// The name that starts at the current position, which holds a name
    /// character: the `print` keyword or an identifier.
    pub fn next_name(&mut self) -> (r: Result<Spanned<Token>, QclError>)
        requires
            old(self).position() < old(self).text().len(),
            is_name_char(old(self).text()[old(self).position()]),
        ensures
            final(self).text() == old(self).text(),
            final(self).shared_source() == old(self).shared_source(),
            final(self).position() == name_end(old(self).text(), old(self).position()),
            r matches Ok(t) && {
                let s = old(self).text();
                let i = old(self).position();
                let n = s.subrange(i, name_end(s, i));
                &&& token_view(t) == (
                    if n == print_keyword() { Lexeme::Print } else { Lexeme::Identifier(n) },
                    i,
                    name_end(s, i) - 1,
                )
                &&& t.span.source == old(self).shared_source()
            },
    {
        let ghost s = self.text();
        let start_index = self.index;
        let mut text: Vec<char> = Vec::new();
        proof {
            lemma_name_end(s, start_index as int);
        }
        while self.index < self.chars.len() && (is_alphabetic(self.chars[self.index]) || self.chars[self.index] == '_')
            invariant
                self.text() == s,
                self.shared_source() == old(self).shared_source(),
                start_index <= self.index <= name_end(s, start_index as int),
                name_end(s, self.index as int) == name_end(s, start_index as int),
                text@ == s.subrange(start_index as int, self.index as int),
            decreases s.len() - self.index,
        {
            proof {
                lemma_digits_end(s, self.index + 1);
                lemma_name_end(s, self.index + 1);
            }
            text.push(self.chars[self.index]);
            self.advance();
            assert(text@ =~= s.subrange(start_index as int, self.index as int));
        }
        let span = Span::new(self.source.clone(), start_index, self.index - 1);
        let is_print = text.len() == 5 && text[0] == 'p' && text[1] == 'r' && text[2] == 'i'
            && text[3] == 'n' && text[4] == 't';
        proof {
            if is_print {
                assert(text@ =~= print_keyword());
            } else {
                assert(text@ != print_keyword()) by {
                    if text@ == print_keyword() {
                        assert(text@[4] == 't');
                    }
                }
            }
        }
        if is_print {
            Ok(Spanned::new(Token::Print, span))
        } else {
            Ok(Spanned::new(Token::Identifier(string_of(&text)), span))
        }
    }

    pub fn advance(&mut self)
        requires
            old(self).position() < usize::MAX,
        ensures
            final(self).position() == old(self).position() + 1,
            final(self).text() == old(self).text(),
            final(self).shared_source() == old(self).shared_source(),
    {
        self.index += 1;
    }

    /// The character at the current position, if there is one.
    pub fn peek(&self) -> (r: Option<&char>)
        ensures
            0 <= self.position() < self.text().len() ==> r == Some(&self.text()[self.position()]),
            !(0 <= self.position() < self.text().len()) ==> r is None,
    {
        if self.index < self.chars.len() {
            Some(&self.chars[self.index])
        } else {
            None
        }
    }
}

} // verus!
