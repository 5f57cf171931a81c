//! The renderer: maps a token sequence to an HTML fragment.

use vstd::prelude::*;
use vstd::string::StringExecFns;

use crate::token::{token_views, Token, TokenKind};
use crate::tokenizer::{tokens_of, Tokenizer};

verus! {

/// The tag that opens the element of a token of kind `k`; empty for `Text`.
pub open spec fn open_tag(k: TokenKind) -> Seq<char> {
    match k {
        TokenKind::Heading1 => "<h1>"@,
        TokenKind::Heading2 => "<h2>"@,
        TokenKind::Heading3 => "<h3>"@,
        TokenKind::Heading4 => "<h4>"@,
        TokenKind::Heading5 => "<h5>"@,
        TokenKind::Heading6 => "<h6>"@,
        TokenKind::Paragraph => "<p>"@,
        TokenKind::ListItem => "<li>"@,
        TokenKind::Text => ""@,
    }
}

/// The tag that closes the element of a token of kind `k`; empty for `Text`.
pub open spec fn close_tag(k: TokenKind) -> Seq<char> {
    match k {
        TokenKind::Heading1 => "</h1>"@,
        TokenKind::Heading2 => "</h2>"@,
        TokenKind::Heading3 => "</h3>"@,
        TokenKind::Heading4 => "</h4>"@,
        TokenKind::Heading5 => "</h5>"@,
        TokenKind::Heading6 => "</h6>"@,
        TokenKind::Paragraph => "</p>"@,
        TokenKind::ListItem => "</li>"@,
        TokenKind::Text => ""@,
    }
}

/// The element of one token: its text between the tags of its kind, embedded
/// as it is.
pub open spec fn element(t: (TokenKind, Seq<char>)) -> Seq<char> {
    open_tag(t.0) + t.1 + close_tag(t.0)
}

/// The HTML of `ts`, rendered by a two-state machine: `in_list` holds while
/// a `<ul>` is open. A list item opens one when none is open; any other token,
/// and the end of the stream, closes an open one.
pub open spec fn render_from(ts: Seq<(TokenKind, Seq<char>)>, in_list: bool) -> Seq<char>
    decreases ts.len(),
{
    if ts.len() == 0 {
        if in_list {
            "</ul>"@
        } else {
            Seq::empty()
        }
    } else if ts[0].0 == TokenKind::ListItem {
        (if in_list {
            Seq::empty()
        } else {
            "<ul>"@
        }) + element(ts[0]) + render_from(ts.drop_first(), true)
    } else {
        (if in_list {
            "</ul>"@
        } else {
            Seq::empty()
        }) + element(ts[0]) + render_from(ts.drop_first(), false)
    }
}

/// The HTML of a whole token stream.
pub open spec fn html_of(ts: Seq<(TokenKind, Seq<char>)>) -> Seq<char> {
    render_from(ts, false)
}

/// The opening tag of the element of kind `k`.
fn open_tag_of(k: TokenKind) -> (r: &'static str)
    ensures
        r@ == open_tag(k),
{
    match k {
        TokenKind::Heading1 => "<h1>",
        TokenKind::Heading2 => "<h2>",
        TokenKind::Heading3 => "<h3>",
        TokenKind::Heading4 => "<h4>",
        TokenKind::Heading5 => "<h5>",
        TokenKind::Heading6 => "<h6>",
        TokenKind::Paragraph => "<p>",
        TokenKind::ListItem => "<li>",
        TokenKind::Text => "",
    }
}

/// The closing tag of the element of kind `k`.
fn close_tag_of(k: TokenKind) -> (r: &'static str)
    ensures
        r@ == close_tag(k),
{
    match k {
        TokenKind::Heading1 => "</h1>",
        TokenKind::Heading2 => "</h2>",
        TokenKind::Heading3 => "</h3>",
        TokenKind::Heading4 => "</h4>",
        TokenKind::Heading5 => "</h5>",
        TokenKind::Heading6 => "</h6>",
        TokenKind::Paragraph => "</p>",
        TokenKind::ListItem => "</li>",
        TokenKind::Text => "",
    }
}

/// Appends the element of `t` to `out`.
fn push_element(out: &mut String, t: &Token)
    ensures
        final(out)@ == old(out)@ + element(t@),
{
    out.append(open_tag_of(t.kind));
    out.append(t.text.as_str());
    out.append(close_tag_of(t.kind));
    assert(final(out)@ =~= old(out)@ + element(t@));
}

/// Renders `tokens` to HTML, one `<ul>` around each maximal run of list
/// items.
pub fn render(tokens: &Vec<Token>) -> (r: String)
    ensures
        r@ == html_of(token_views(tokens@)),
{
    let ghost ts = token_views(tokens@);
    let mut output = String::new();
    let mut i: usize = 0;
    assert(ts.skip(0) =~= ts);
    assert(output@ + html_of(ts) =~= html_of(ts));
    while i < tokens.len()
        invariant
            i <= tokens@.len(),
            ts == token_views(tokens@),
            output@ + render_from(ts.skip(i as int), false) == html_of(ts),
        decreases tokens@.len() - i,
    {
        assert(ts.skip(i as int).drop_first() =~= ts.skip(i + 1));
        if tokens[i].kind == TokenKind::ListItem {
            let ghost before = output@;
            let ghost run_start = i;
            output.append("<ul>");
            assert(output@ + render_from(ts.skip(i as int), true) =~= before + render_from(
                ts.skip(i as int),
                false,
            ));
            while i < tokens.len() && tokens[i].kind == TokenKind::ListItem
                invariant
                    i <= tokens@.len(),
                    ts == token_views(tokens@),
                    output@ + render_from(ts.skip(i as int), true) == html_of(ts),
                    run_start <= i,
                    run_start < tokens@.len(),
                    tokens@[run_start as int].kind == TokenKind::ListItem,
                decreases tokens@.len() - i,
            {
                assert(ts.skip(i as int).drop_first() =~= ts.skip(i + 1));
                let ghost before = output@;
                push_element(&mut output, &tokens[i]);
                assert(output@ + render_from(ts.skip(i + 1), true) =~= before + render_from(
                    ts.skip(i as int),
                    true,
                ));
                i = i + 1;
            }
            let ghost before = output@;
            output.append("</ul>");
            if i < tokens.len() {
                assert(ts.skip(i as int).drop_first() =~= ts.skip(i + 1));
            }
            assert(output@ + render_from(ts.skip(i as int), false) =~= before + render_from(
                ts.skip(i as int),
                true,
            ));
        } else {
            let ghost before = output@;
            push_element(&mut output, &tokens[i]);
            assert(output@ + render_from(ts.skip(i + 1), false) =~= before + render_from(
                ts.skip(i as int),
                false,
            ));
            i = i + 1;
        }
    }
    assert(output@ + render_from(ts.skip(i as int), false) =~= output@);
    output
}

/// Converts Markdown text to an HTML fragment: tokenizes it, then renders
/// the tokens.
#[allow(non_snake_case)]
pub fn renderMDToHTML(input: String) -> (r: String)
    ensures
        r@ == html_of(tokens_of(input@)),
{
    let mut tokenizer = Tokenizer::new(input);
    let tokens = tokenizer.tokenize();
    render(&tokens)
}

} // verus!
