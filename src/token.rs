//! Tokens: one classified line of input each.

use vstd::prelude::*;

verus! {

/// The block form a line was classified as.
#[derive(Clone, Copy, Debug, PartialEq, Eq, Structural)]
pub enum TokenKind {
    Heading1,
    Heading2,
    Heading3,
    Heading4,
    Heading5,
    Heading6,
    Paragraph,
    ListItem,
    /// A run of seven or more `#`: kept as bare text, not a heading.
    Text,
}

/// One classified line: its kind and its content with the leading marker and
/// the surrounding whitespace removed.
#[derive(Clone, Debug, PartialEq)]
pub struct Token {
    pub kind: TokenKind,
    pub text: String,
}

impl View for Token {
    type V = (TokenKind, Seq<char>);

    open spec fn view(&self) -> (TokenKind, Seq<char>) {
        (self.kind, self.text@)
    }
}

/// The views of a sequence of tokens.
pub open spec fn token_views(ts: Seq<Token>) -> Seq<(TokenKind, Seq<char>)> {
    ts.map_values(|t: Token| t@)
}

/// The kind of a heading opened by `n` `#` characters.
pub open spec fn heading_kind(n: int) -> TokenKind {
    if n == 1 {
        TokenKind::Heading1
    } else if n == 2 {
        TokenKind::Heading2
    } else if n == 3 {
        TokenKind::Heading3
    } else if n == 4 {
        TokenKind::Heading4
    } else if n == 5 {
        TokenKind::Heading5
    } else if n == 6 {
        TokenKind::Heading6
    } else {
        TokenKind::Text
    }
}

/// The kind of a heading opened by `n` `#` characters: levels one to six,
/// and `Text` for longer runs.
pub fn heading_kind_of(n: usize) -> (k: TokenKind)
    ensures
        k == heading_kind(n as int),
{
    match n {
        1 => TokenKind::Heading1,
        2 => TokenKind::Heading2,
        3 => TokenKind::Heading3,
        4 => TokenKind::Heading4,
        5 => TokenKind::Heading5,
        6 => TokenKind::Heading6,
        _ => TokenKind::Text,
    }
}

} // verus!
