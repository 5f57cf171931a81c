use mdhtml::token::{Token, TokenKind};
use mdhtml::tokenizer::Tokenizer;

fn tokens(input: &str) -> Vec<Token> {
    Tokenizer::new(input.to_string()).tokenize()
}

fn tok(kind: TokenKind, text: &str) -> Token {
    Token { kind, text: text.to_string() }
}

#[test]
fn heading_level_is_exact() {
    assert_eq!(tokens("### Title"), vec![tok(TokenKind::Heading3, "Title")]);
}

#[test]
fn every_heading_level() {
    let input = "# a\n## b\n### c\n#### d\n##### e\n###### f";
    assert_eq!(
        tokens(input),
        vec![
            tok(TokenKind::Heading1, "a"),
            tok(TokenKind::Heading2, "b"),
            tok(TokenKind::Heading3, "c"),
            tok(TokenKind::Heading4, "d"),
            tok(TokenKind::Heading5, "e"),
            tok(TokenKind::Heading6, "f"),
        ]
    );
}

#[test]
fn seven_hashes_degrade_to_text() {
    assert_eq!(tokens("####### Oops"), vec![tok(TokenKind::Text, "Oops")]);
    assert_eq!(tokens("##########x"), vec![tok(TokenKind::Text, "x")]);
}

#[test]
fn heading_without_space_or_text() {
    assert_eq!(tokens("##x"), vec![tok(TokenKind::Heading2, "x")]);
    assert_eq!(tokens("#"), vec![tok(TokenKind::Heading1, "")]);
    assert_eq!(tokens("###### \n"), vec![tok(TokenKind::Heading6, "")]);
}

#[test]
fn heading_text_stays_on_its_line() {
    assert_eq!(
        tokens("#\nfoo"),
        vec![tok(TokenKind::Heading1, ""), tok(TokenKind::Paragraph, "foo")]
    );
}

#[test]
fn heading_text_may_hold_hashes() {
    assert_eq!(tokens("##  #x# "), vec![tok(TokenKind::Heading2, "#x#")]);
}

#[test]
fn list_marker_is_stripped() {
    assert_eq!(tokens("- one"), vec![tok(TokenKind::ListItem, "one")]);
    assert_eq!(tokens("-two"), vec![tok(TokenKind::ListItem, "two")]);
    assert_eq!(tokens("  -   three  "), vec![tok(TokenKind::ListItem, "three")]);
    assert_eq!(tokens("-"), vec![tok(TokenKind::ListItem, "")]);
}

#[test]
fn paragraph_is_trimmed() {
    assert_eq!(
        tokens("   hello world \t\n"),
        vec![tok(TokenKind::Paragraph, "hello world")]
    );
}

#[test]
fn unicode_whitespace_is_trimmed() {
    assert_eq!(
        tokens("\u{3000}x y\u{a0}\u{2003}"),
        vec![tok(TokenKind::Paragraph, "x y")]
    );
}

#[test]
fn crlf_line_endings() {
    assert_eq!(
        tokens("# A\r\nb\r\n"),
        vec![tok(TokenKind::Heading1, "A"), tok(TokenKind::Paragraph, "b")]
    );
}

#[test]
fn empty_input_gives_no_tokens() {
    assert_eq!(tokens(""), Vec::<Token>::new());
}

#[test]
fn whitespace_only_gives_no_tokens() {
    assert_eq!(tokens("\n\n\n"), Vec::<Token>::new());
    assert_eq!(tokens(" \t \n  \r\n"), Vec::<Token>::new());
}

#[test]
fn last_character_without_newline_is_kept() {
    assert_eq!(
        tokens("x\ny"),
        vec![tok(TokenKind::Paragraph, "x"), tok(TokenKind::Paragraph, "y")]
    );
    assert_eq!(tokens("a"), vec![tok(TokenKind::Paragraph, "a")]);
}

#[test]
fn one_token_per_non_blank_line() {
    let input = "a\n\n   \nb\n- c\n\t\n# d\n";
    assert_eq!(tokens(input).len(), 4);
    for line in input.split('\n').filter(|l| !l.trim().is_empty()) {
        assert_eq!(tokens(line).len(), 1);
    }
}

#[test]
fn paragraph_text_retokenizes_to_itself() {
    let first = tokens("  plain words here  \n# h\n");
    assert_eq!(first[0], tok(TokenKind::Paragraph, "plain words here"));
    let again = tokens(&first[0].text);
    assert_eq!(again, vec![first[0].clone()]);
}

#[test]
fn cursor_operations() {
    let mut t = Tokenizer::new("a\u{e9}".to_string());
    assert_eq!(t.peek(), Some('a'));
    assert!(!t.eof());
    assert_eq!(t.next(), Some('a'));
    assert_eq!(t.peek(), Some('\u{e9}'));
    assert_eq!(t.next(), Some('\u{e9}'));
    assert!(t.eof());
    assert_eq!(t.peek(), None);
    assert_eq!(t.next(), None);
}

#[test]
fn skip_whitespace_stops_at_text() {
    let mut t = Tokenizer::new(" \n\t x".to_string());
    t.skip_whitespace();
    assert_eq!(t.peek(), Some('x'));
}

#[test]
fn parse_functions_read_one_line() {
    let mut t = Tokenizer::new("## Hi there \nnext".to_string());
    assert_eq!(Tokenizer::parse_heading(&mut t), tok(TokenKind::Heading2, "Hi there"));
    assert_eq!(t.peek(), Some('\n'));
    let mut t = Tokenizer::new("- item\nnext".to_string());
    assert_eq!(Tokenizer::parse_list(&mut t), tok(TokenKind::ListItem, "item"));
    assert_eq!(t.next(), Some('\n'));
    assert_eq!(Tokenizer::parse_paragraph(&mut t), tok(TokenKind::Paragraph, "next"));
    assert!(t.eof());
    let mut t = Tokenizer::new(" text # - \n".to_string());
    assert_eq!(Tokenizer::parse_paragraph(&mut t), tok(TokenKind::Paragraph, "text # -"));
}

#[test]
fn next_token_skips_blank_lines() {
    let mut t = Tokenizer::new("\n\n  - x\n\n".to_string());
    assert_eq!(t.next_token(), Some(tok(TokenKind::ListItem, "x")));
    assert_eq!(t.next_token(), None);
    assert!(t.eof());
}
