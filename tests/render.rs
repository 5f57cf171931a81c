use mdhtml::render::{render, renderMDToHTML};
use mdhtml::token::{Token, TokenKind};

fn html(input: &str) -> String {
    renderMDToHTML(input.to_string())
}

fn tok(kind: TokenKind, text: &str) -> Token {
    Token { kind, text: text.to_string() }
}

#[test]
fn list_run_is_one_ul() {
    assert_eq!(html("- a\n- b\n- c"), "<ul><li>a</li><li>b</li><li>c</li></ul>");
}

#[test]
fn list_runs_split_by_paragraph() {
    assert_eq!(
        html("- a\nparagraph\n- b"),
        "<ul><li>a</li></ul><p>paragraph</p><ul><li>b</li></ul>"
    );
}

#[test]
fn blank_lines_render_to_nothing() {
    assert_eq!(html("\n\n\n"), "");
}

#[test]
fn empty_input_renders_to_nothing() {
    assert_eq!(html(""), "");
}

#[test]
fn end_to_end_document() {
    assert_eq!(
        html("# Hello\n\nThis is text.\n- one\n- two"),
        "<h1>Hello</h1><p>This is text.</p><ul><li>one</li><li>two</li></ul>"
    );
}

#[test]
fn heading_levels_render() {
    assert_eq!(
        html("# 1\n## 2\n### 3\n#### 4\n##### 5\n###### 6"),
        "<h1>1</h1><h2>2</h2><h3>3</h3><h4>4</h4><h5>5</h5><h6>6</h6>"
    );
}

#[test]
fn degraded_heading_renders_bare() {
    assert_eq!(html("####### Oops"), "Oops");
    assert_eq!(html("####### Oops\nnext"), "Oops<p>next</p>");
}

#[test]
fn text_is_not_escaped() {
    assert_eq!(html("a <b> & c"), "<p>a <b> & c</p>");
}

#[test]
fn list_closes_before_heading() {
    assert_eq!(html("- x\n# H"), "<ul><li>x</li></ul><h1>H</h1>");
}

#[test]
fn list_separated_by_blank_line_stays_one_run() {
    assert_eq!(html("- x\n\n- y"), "<ul><li>x</li><li>y</li></ul>");
}

#[test]
fn render_tokens_directly() {
    let tokens = vec![
        tok(TokenKind::Paragraph, "p"),
        tok(TokenKind::ListItem, "a"),
        tok(TokenKind::ListItem, "b"),
        tok(TokenKind::Text, "t"),
        tok(TokenKind::ListItem, "c"),
    ];
    assert_eq!(
        render(&tokens),
        "<p>p</p><ul><li>a</li><li>b</li></ul>t<ul><li>c</li></ul>"
    );
    assert_eq!(render(&Vec::new()), "");
}
