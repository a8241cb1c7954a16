use crate::text::{
    bright_red, chars_of, decimal, painted, push_chars, push_decimal, push_repeated, push_slice,
    push_str, string_of,
};
use std::rc::Rc;
use vstd::prelude::*;

verus! {

/// A range of character offsets `start..=end` into a shared source text.
#[derive(Debug)]
pub struct Span {
    pub source: Rc<String>,
    pub start: usize,
    pub end: usize,
}

/// A value paired with the span of source text it came from.
#[derive(Debug)]
pub struct Spanned<T> {
    pub item: T,
    pub span: Span,
}

impl Span {
    pub fn new(source: Rc<String>, start: usize, end: usize) -> (r: Span)
        ensures
            r.source == source,
            r.start == start,
            r.end == end,
    {
        Span { source, start, end }
    }

    pub fn copy(&self) -> (r: Span)
        ensures
            r == *self,
    {
        Span { source: self.source.clone(), start: self.start, end: self.end }
    }
}

/// The number of newlines in `s[0..i]`.
pub open spec fn newlines_before(s: Seq<char>, i: int) -> nat
    decreases i,
{
    if i <= 0 {
        0
    } else {
        newlines_before(s, i - 1) + if s[i - 1] == '\n' { 1nat } else { 0nat }
    }
}

/// The start of the line that holds position `i`.
pub open spec fn line_begin(s: Seq<char>, i: int) -> int
    decreases i,
{
    if i <= 0 {
        0
    } else if s[i - 1] == '\n' {
        i
    } else {
        line_begin(s, i - 1)
    }
}

/// The end of the line that holds position `i`: its newline, or the end of
/// the text.
pub open spec fn line_finish(s: Seq<char>, i: int) -> int
    decreases s.len() - i,
{
    if i >= s.len() || s[i] == '\n' {
        i
    } else {
        line_finish(s, i + 1)
    }
}

pub open spec fn spaces(n: int) -> Seq<char> {
    Seq::new(n as nat, |k: int| ' ')
}

pub open spec fn carets(n: int) -> Seq<char> {
    Seq::new(n as nat, |k: int| '^')
}

/// The excerpt above the carets: a gutter with the zero-based line number,
/// the whole line that holds `start`, then a newline and the spaces that
/// bring the carets under `start`.
pub open spec fn excerpt(s: Seq<char>, start: int) -> Seq<char> {
    let gutter = decimal(newlines_before(s, start)) + " | "@;
    let begin = line_begin(s, start);
    gutter + s.subrange(begin, line_finish(s, start)) + "\n"@ + spaces(gutter.len() + start - begin)
}

/// Whether `r` shows the span `start..=end` of `s`: `excerpt`, then one
/// caret for each position of the span, painted bright red.
pub open spec fn shows_span(s: Seq<char>, start: int, end: int, r: Seq<char>) -> bool {
    let x = excerpt(s, start);
    &&& x.len() <= r.len()
    &&& r.subrange(0, x.len() as int) == x
    &&& painted(carets(end - start + 1), r.subrange(x.len() as int, r.len() as int))
}

impl Span {
    /// Renders the span: `excerpt`, then one caret for each position of the
    /// span, in bright red where colors are on.
    pub fn render(&self) -> (r: String)
        requires
            self.start <= self.end <= self.source@.len(),
        ensures
            shows_span(self.source@, self.start as int, self.end as int, r@),
    {
        let chars = chars_of(self.source.as_str());
        let ghost s = chars@;
        let start = self.start;
        let mut count: usize = 0;
        let mut begin: usize = 0;
        let mut i: usize = 0;
        while i < start
            invariant
                s == chars@,
                i <= start <= s.len(),
                count <= i,
                count == newlines_before(s, i as int),
                begin == line_begin(s, i as int),
                begin <= i,
            decreases start - i,
        {
            if chars[i] == '\n' {
                count += 1;
                begin = i + 1;
            }
            i += 1;
        }
        let mut finish: usize = start;
        while finish < chars.len() && chars[finish] != '\n'
            invariant
                s == chars@,
                start <= finish <= s.len(),
                line_finish(s, finish as int) == line_finish(s, start as int),
            decreases s.len() - finish,
        {
            finish += 1;
        }
        let mut out: Vec<char> = Vec::new();
        push_decimal(&mut out, count);
        push_str(&mut out, " | ");
        let gutter = out.len();
        push_slice(&mut out, &chars, begin, finish);
        push_str(&mut out, "\n");
        push_repeated(&mut out, ' ', gutter);
        push_repeated(&mut out, ' ', start - begin);
        let ghost x = out@;
        assert(x =~= excerpt(s, start as int));
        let mut marks: Vec<char> = Vec::new();
        push_repeated(&mut marks, '^', self.end - self.start);
        marks.push('^');
        assert(marks@ =~= carets(self.end - self.start + 1));
        assert(!marks@.contains('\x1b'));
        let colored = bright_red(string_of(&marks).as_str());
        push_chars(&mut out, &chars_of(colored.as_str()));
        assert(out@.subrange(0, x.len() as int) =~= x);
        assert(out@.subrange(x.len() as int, out@.len() as int) =~= colored@);
        string_of(&out)
    }
}

impl<T> Spanned<T> {
    pub fn new(item: T, span: Span) -> (r: Spanned<T>)
        ensures
            r.item == item,
            r.span == span,
    {
        Spanned { item, span }
    }
}

} // verus!
