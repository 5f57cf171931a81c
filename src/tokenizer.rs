//! The line scanner: turns input text into a sequence of tokens.

use vstd::prelude::*;
use vstd::string::StrSliceExecFns;
use vstd::string::StringExecFns;

use crate::text::{is_white_space, is_whitespace, trim, trim_end, trim_start};
use crate::token::{heading_kind, heading_kind_of, token_views, Token, TokenKind};

verus! {

/// The index of the first `'\n'` at or after `i`, or the length of `s` when
/// there is none.
pub open spec fn line_end(s: Seq<char>, i: int) -> int
    decreases s.len() - i,
{
    if i >= s.len() {
        s.len() as int
    } else if s[i] == '\n' {
        i
    } else {
        line_end(s, i + 1)
    }
}

/// The number of `#` characters that `s` starts with.
pub open spec fn leading_hashes(s: Seq<char>) -> int
    decreases s.len(),
{
    if s.len() > 0 && s[0] == '#' {
        1 + leading_hashes(s.drop_first())
    } else {
        0
    }
}

/// A line opened by `#`: the length of the marker run picks the kind, and the
/// text is what follows the run, trimmed.
pub open spec fn heading_token(line: Seq<char>) -> (TokenKind, Seq<char>) {
    let n = leading_hashes(line);
    (heading_kind(n), trim(line.skip(n)))
}

/// A line opened by `-`: the text is what follows the marker, trimmed.
pub open spec fn list_token(line: Seq<char>) -> (TokenKind, Seq<char>) {
    (TokenKind::ListItem, trim(line.skip(1)))
}

/// Any other line: the text is the whole line, trimmed.
pub open spec fn paragraph_token(line: Seq<char>) -> (TokenKind, Seq<char>) {
    (TokenKind::Paragraph, trim(line))
}

/// The token of a line, chosen by its first character.
pub open spec fn classify(line: Seq<char>) -> (TokenKind, Seq<char>) {
    if line.len() > 0 && line[0] == '#' {
        heading_token(line)
    } else if line.len() > 0 && line[0] == '-' {
        list_token(line)
    } else {
        paragraph_token(line)
    }
}

/// The tokens of `s` from index `i` on: whitespace, newlines included, is
/// skipped, and each non-whitespace character starts a token that runs to the
/// end of its line.
pub open spec fn tokens_from(s: Seq<char>, i: int) -> Seq<(TokenKind, Seq<char>)>
    decreases s.len() - i,
    via tokens_from_decreases
{
    if i >= s.len() {
        Seq::empty()
    } else if is_white_space(s[i]) {
        tokens_from(s, i + 1)
    } else {
        seq![classify(s.subrange(i, line_end(s, i)))] + tokens_from(s, line_end(s, i))
    }
}

#[via_fn]
proof fn tokens_from_decreases(s: Seq<char>, i: int) {
    if i < s.len() && !is_white_space(s[i]) {
        lemma_line_end_bounds(s, i);
    }
}

/// The tokens of the whole of `s`.
pub open spec fn tokens_of(s: Seq<char>) -> Seq<(TokenKind, Seq<char>)> {
    tokens_from(s, 0)
}

/// `line_end` lies between `i` and the end of `s`, and past `i` when the
/// character at `i` is not a newline.
pub proof fn lemma_line_end_bounds(s: Seq<char>, i: int)
    ensures
        i <= s.len() ==> i <= line_end(s, i) <= s.len(),
        0 <= i < s.len() && s[i] != '\n' ==> i < line_end(s, i),
        0 <= i < line_end(s, i) ==> s[i] != '\n',
        i <= line_end(s, i) < s.len() ==> s[line_end(s, i)] == '\n',
    decreases s.len() - i,
{
    if i < s.len() && s[i] != '\n' {
        lemma_line_end_bounds(s, i + 1);
    }
}

/// A cursor over input text, moving forward only.
pub struct Tokenizer {
    input: String,
    position: usize,
}

impl Tokenizer {
    /// The text being scanned.
    pub closed spec fn source(&self) -> Seq<char> {
        self.input@
    }

    /// The index, in characters, of the next character to scan.
    pub closed spec fn cursor(&self) -> int {
        self.position as int
    }

    /// The cursor lies within the text, whose length fits in a `usize`.
    pub open spec fn wf(&self) -> bool {
        0 <= self.cursor() <= self.source().len() <= usize::MAX
    }

    /// A cursor at the start of `input`.
    pub fn new(input: String) -> (t: Tokenizer)
        ensures
            t.wf(),
            t.source() == input@,
            t.cursor() == 0,
    {
        // Counting the characters shows that their number fits in a `usize`.
        let _ = input.as_str().unicode_len();
        Tokenizer { input, position: 0 }
    }

    /// The character under the cursor, if any.
    pub fn peek(&self) -> (r: Option<char>)
        requires
            self.wf(),
        ensures
            r == (if self.cursor() < self.source().len() {
                Some(self.source()[self.cursor()])
            } else {
                None
            }),
    {
        if self.position < self.input.as_str().unicode_len() {
            Some(self.input.as_str().get_char(self.position))
        } else {
            None
        }
    }

    /// Returns the character under the cursor, if any, and moves past it.
    pub fn next(&mut self) -> (r: Option<char>)
        requires
            old(self).wf(),
        ensures
            final(self).wf(),
            final(self).source() == old(self).source(),
            r == (if old(self).cursor() < old(self).source().len() {
                Some(old(self).source()[old(self).cursor()])
            } else {
                None
            }),
            final(self).cursor() == old(self).cursor() + (if r is Some { 1int } else { 0 }),
    {
        let ch = self.peek();
        if ch.is_some() {
            self.position = self.position + 1;
        }
        ch
    }

    /// Whether the cursor has reached the end of the text.
    pub fn eof(&self) -> (r: bool)
        requires
            self.wf(),
        ensures
            r == (self.cursor() == self.source().len()),
    {
        self.position >= self.input.as_str().unicode_len()
    }

    /// Moves the cursor past whitespace, newlines included, to the next
    /// non-whitespace character or the end of the text. The tokens still to
    /// come are unchanged by that.
    pub fn skip_whitespace(&mut self)
        requires
            old(self).wf(),
        ensures
            final(self).wf(),
            final(self).source() == old(self).source(),
            old(self).cursor() <= final(self).cursor(),
            forall|k: int|
                old(self).cursor() <= k < final(self).cursor() ==> is_white_space(
                    #[trigger] old(self).source()[k],
                ),
            final(self).cursor() < final(self).source().len() ==> !is_white_space(
                final(self).source()[final(self).cursor()],
            ),
            tokens_from(final(self).source(), final(self).cursor()) == tokens_from(
                old(self).source(),
                old(self).cursor(),
            ),
    {
        let ghost s = self.source();
        let ghost start = self.cursor();
        loop
            invariant
                self.wf(),
                self.source() == s,
                start <= self.cursor(),
                forall|k: int| start <= k < self.cursor() ==> is_white_space(#[trigger] s[k]),
                tokens_from(s, self.cursor()) == tokens_from(s, start),
            ensures
                self.wf(),
                self.source() == s,
                start <= self.cursor(),
                forall|k: int| start <= k < self.cursor() ==> is_white_space(#[trigger] s[k]),
                self.cursor() < s.len() ==> !is_white_space(s[self.cursor()]),
                tokens_from(s, self.cursor()) == tokens_from(s, start),
            decreases s.len() - self.cursor(),
        {
            match self.peek() {
                Some(ch) => {
                    if !is_whitespace(ch) {
                        break;
                    }
                    self.next();
                },
                None => {
                    break;
                },
            }
        }
    }

    /// Moves the cursor to the end of the current line: onto the next `'\n'`,
    /// or to the end of the text.
    fn skip_to_line_end(&mut self)
        requires
            old(self).wf(),
        ensures
            final(self).wf(),
            final(self).source() == old(self).source(),
            final(self).cursor() == line_end(old(self).source(), old(self).cursor()),
    {
        let ghost s = self.source();
        let ghost e = line_end(s, self.cursor());
        loop
            invariant
                self.wf(),
                self.source() == s,
                line_end(s, self.cursor()) == e,
            ensures
                self.wf(),
                self.source() == s,
                self.cursor() == e,
            decreases s.len() - self.cursor(),
        {
            match self.peek() {
                Some(ch) => {
                    if ch == '\n' {
                        break;
                    }
                    self.next();
                },
                None => {
                    break;
                },
            }
        }
    }

    /// The characters from `a` to `b`, trimmed of whitespace at both ends.
    fn trimmed_text(&self, a: usize, b: usize) -> (r: String)
        requires
            self.wf(),
            a <= b <= self.source().len(),
        ensures
            r@ == trim(self.source().subrange(a as int, b as int)),
    {
        let ghost s = self.source();
        let text = self.input.as_str();
        let mut i: usize = a;
        while i < b && is_whitespace(text.get_char(i))
            invariant
                a <= i <= b <= s.len(),
                text@ == s,
                trim_start(s.subrange(i as int, b as int)) == trim_start(
                    s.subrange(a as int, b as int),
                ),
            decreases b - i,
        {
            assert(s.subrange(i as int, b as int).drop_first() =~= s.subrange(
                i + 1,
                b as int,
            ));
            i = i + 1;
        }
        assert(trim_start(s.subrange(i as int, b as int)) == s.subrange(i as int, b as int));
        let mut j: usize = b;
        while j > i && is_whitespace(text.get_char(j - 1))
            invariant
                a <= i <= j <= b <= s.len(),
                text@ == s,
                trim_start(s.subrange(a as int, b as int)) == s.subrange(i as int, b as int),
                trim_end(s.subrange(i as int, j as int)) == trim(s.subrange(a as int, b as int)),
            decreases j - i,
        {
            assert(s.subrange(i as int, j as int).drop_last() =~= s.subrange(
                i as int,
                j - 1,
            ));
            j = j - 1;
        }
        String::from_str(text.substring_char(i, j))
    }

    /// Reads a heading line: the run of `#` under the cursor, then the rest
    /// of the line. Leaves the cursor at the end of the line.
    pub fn parse_heading(tokenizer: &mut Tokenizer) -> (t: Token)
        requires
            old(tokenizer).wf(),
            old(tokenizer).cursor() < old(tokenizer).source().len(),
            old(tokenizer).source()[old(tokenizer).cursor()] == '#',
        ensures
            final(tokenizer).wf(),
            final(tokenizer).source() == old(tokenizer).source(),
            final(tokenizer).cursor() == line_end(old(tokenizer).source(), old(tokenizer).cursor()),
            t@ == heading_token(
                old(tokenizer).source().subrange(old(tokenizer).cursor(), final(tokenizer).cursor()),
            ),
    {
        let ghost s = tokenizer.source();
        let ghost e = line_end(s, tokenizer.cursor());
        proof {
            lemma_line_end_bounds(s, tokenizer.cursor());
        }
        let start = tokenizer.position;
        let mut hash_count: usize = 0;
        while tokenizer.peek() == Some('#')
            invariant
                tokenizer.wf(),
                tokenizer.source() == s,
                tokenizer.cursor() == start + hash_count,
                tokenizer.cursor() <= e <= s.len(),
                line_end(s, tokenizer.cursor()) == e,
                leading_hashes(s.subrange(start as int, e)) == hash_count + leading_hashes(
                    s.subrange(tokenizer.cursor(), e),
                ),
            decreases s.len() - tokenizer.cursor(),
        {
            proof {
                lemma_line_end_bounds(s, tokenizer.cursor());
                assert(s.subrange(tokenizer.cursor(), e).drop_first() =~= s.subrange(
                    tokenizer.cursor() + 1,
                    e,
                ));
            }
            tokenizer.next();
            hash_count = hash_count + 1;
        }
        proof {
            lemma_line_end_bounds(s, tokenizer.cursor());
        }
        let kind = heading_kind_of(hash_count);
        tokenizer.skip_to_line_end();
        let text = tokenizer.trimmed_text(start + hash_count, tokenizer.position);
        assert(s.subrange(start as int, e).skip(hash_count as int) =~= s.subrange(
            start + hash_count,
            e,
        ));
        Token { kind, text }
    }

    /// Reads a paragraph line: everything up to the end of the line. Leaves
    /// the cursor at the end of the line.
    pub fn parse_paragraph(tokenizer: &mut Tokenizer) -> (t: Token)
        requires
            old(tokenizer).wf(),
        ensures
            final(tokenizer).wf(),
            final(tokenizer).source() == old(tokenizer).source(),
            final(tokenizer).cursor() == line_end(old(tokenizer).source(), old(tokenizer).cursor()),
            t@ == paragraph_token(
                old(tokenizer).source().subrange(old(tokenizer).cursor(), final(tokenizer).cursor()),
            ),
    {
        proof {
            lemma_line_end_bounds(tokenizer.source(), tokenizer.cursor());
        }
        let start = tokenizer.position;
        tokenizer.skip_to_line_end();
        let text = tokenizer.trimmed_text(start, tokenizer.position);
        Token { kind: TokenKind::Paragraph, text }
    }

    /// Reads a list item line: the `-` under the cursor, then the rest of the
    /// line. Leaves the cursor at the end of the line.
    pub fn parse_list(tokenizer: &mut Tokenizer) -> (t: Token)
        requires
            old(tokenizer).wf(),
            old(tokenizer).cursor() < old(tokenizer).source().len(),
            old(tokenizer).source()[old(tokenizer).cursor()] == '-',
        ensures
            final(tokenizer).wf(),
            final(tokenizer).source() == old(tokenizer).source(),
            final(tokenizer).cursor() == line_end(old(tokenizer).source(), old(tokenizer).cursor()),
            t@ == list_token(
                old(tokenizer).source().subrange(old(tokenizer).cursor(), final(tokenizer).cursor()),
            ),
    {
        let ghost s = tokenizer.source();
        let ghost e = line_end(s, tokenizer.cursor());
        proof {
            lemma_line_end_bounds(s, tokenizer.cursor());
        }
        let start = tokenizer.position;
        tokenizer.next();
        tokenizer.skip_to_line_end();
        let text = tokenizer.trimmed_text(start + 1, tokenizer.position);
        assert(s.subrange(start as int, e).skip(1) =~= s.subrange(start + 1, e));
        Token { kind: TokenKind::ListItem, text }
    }

    /// Skips whitespace and reads the token of the next non-blank line, if
    /// any.
    pub fn next_token(&mut self) -> (r: Option<Token>)
        requires
            old(self).wf(),
        ensures
            final(self).wf(),
            final(self).source() == old(self).source(),
            match r {
                None => {
                    &&& tokens_from(old(self).source(), old(self).cursor()) == Seq::<
                        (TokenKind, Seq<char>),
                    >::empty()
                    &&& final(self).cursor() == final(self).source().len()
                },
                Some(t) => {
                    &&& old(self).cursor() < final(self).cursor()
                    &&& tokens_from(old(self).source(), old(self).cursor()) == seq![t@]
                        + tokens_from(final(self).source(), final(self).cursor())
                },
            },
    {
        self.skip_whitespace();
        if self.eof() {
            return None;
        }
        let ghost s = self.source();
        let ghost j = self.cursor();
        proof {
            lemma_line_end_bounds(s, j);
        }
        let token = match self.peek() {
            Some('#') => Self::parse_heading(self),
            Some('-') => Self::parse_list(self),
            _ => Self::parse_paragraph(self),
        };
        Some(token)
    }

    /// Reads every token from the cursor to the end of the text.
    pub fn tokenize(&mut self) -> (r: Vec<Token>)
        requires
            old(self).wf(),
        ensures
            final(self).wf(),
            final(self).source() == old(self).source(),
            final(self).cursor() == final(self).source().len(),
            token_views(r@) == tokens_from(old(self).source(), old(self).cursor()),
    {
        let ghost s = self.source();
        let ghost start = self.cursor();
        let mut tokens: Vec<Token> = Vec::new();
        loop
            invariant
                self.wf(),
                self.source() == s,
                token_views(tokens@) + tokens_from(s, self.cursor()) == tokens_from(s, start),
            ensures
                self.wf(),
                self.source() == s,
                self.cursor() == s.len(),
                token_views(tokens@) == tokens_from(s, start),
            decreases s.len() - self.cursor(),
        {
            match self.next_token() {
                Some(token) => {
                    let ghost before = token_views(tokens@);
                    tokens.push(token);
                    proof {
                        assert(token_views(tokens@) =~= before + seq![token@]);
                    }
                },
                None => {
                    assert(token_views(tokens@) + Seq::<(TokenKind, Seq<char>)>::empty()
                        =~= token_views(tokens@));
                    break;
                },
            }
        }
        tokens
    }
}

} // verus!
