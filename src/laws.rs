//! Properties of tokenization that hold for every input.

use vstd::prelude::*;

use crate::text::{
    is_white_space, lemma_trim_end_prefix, lemma_trim_start_suffix, trim, trim_end, trim_start,
};
use crate::token::TokenKind;
use crate::tokenizer::{
    classify, leading_hashes, lemma_line_end_bounds, line_end, tokens_from, tokens_of,
};

verus! {

/// Whether every character of `t` is whitespace.
pub open spec fn is_blank(t: Seq<char>) -> bool {
    forall|k: int| 0 <= k < t.len() ==> is_white_space(#[trigger] t[k])
}

/// Whether `t` holds no `'\n'`.
pub open spec fn is_single_line(t: Seq<char>) -> bool {
    forall|k: int| 0 <= k < t.len() ==> #[trigger] t[k] != '\n'
}

/// The number of lines of `s`, from index `i` on, that hold a non-whitespace
/// character. Lines are separated by `'\n'`.
pub open spec fn non_blank_lines_from(s: Seq<char>, i: int) -> nat
    decreases s.len() + 1 - i,
    via non_blank_lines_from_decreases
{
    if i >= s.len() {
        0
    } else {
        (if is_blank(s.subrange(i, line_end(s, i))) {
            0nat
        } else {
            1nat
        }) + non_blank_lines_from(s, line_end(s, i) + 1)
    }
}

#[via_fn]
proof fn non_blank_lines_from_decreases(s: Seq<char>, i: int) {
    lemma_line_end_bounds(s, i);
}

/// The number of lines of `s` that hold a non-whitespace character.
pub open spec fn non_blank_lines(s: Seq<char>) -> nat {
    non_blank_lines_from(s, 0)
}

/// A line that tokenizes to a paragraph carrying the line itself: not empty,
/// on one line, starting with neither marker, and with no whitespace at
/// either end.
pub open spec fn is_plain_line(t: Seq<char>) -> bool {
    &&& t.len() > 0
    &&& !is_white_space(t[0])
    &&& t[0] != '#'
    &&& t[0] != '-'
    &&& !is_white_space(t.last())
    &&& is_single_line(t)
}

/// No character before the end of the line starting at `i` is a newline.
proof fn lemma_line_has_no_newline(s: Seq<char>, i: int)
    requires
        0 <= i,
    ensures
        forall|x: int| i <= x < line_end(s, i) ==> #[trigger] s[x] != '\n',
    decreases s.len() - i,
{
    if i < s.len() && s[i] != '\n' {
        lemma_line_has_no_newline(s, i + 1);
    }
}

/// Without a newline from `i` on, the line starting at `i` runs to the end.
proof fn lemma_last_line(s: Seq<char>, i: int)
    requires
        0 <= i <= s.len(),
        forall|x: int| i <= x < s.len() ==> #[trigger] s[x] != '\n',
    ensures
        line_end(s, i) == s.len(),
    decreases s.len() - i,
{
    if i < s.len() {
        lemma_last_line(s, i + 1);
    }
}

/// Whitespace before `k` contributes no token.
proof fn lemma_skip_blank(s: Seq<char>, i: int, k: int)
    requires
        0 <= i <= k <= s.len(),
        forall|x: int| i <= x < k ==> is_white_space(#[trigger] s[x]),
    ensures
        tokens_from(s, i) == tokens_from(s, k),
    decreases k - i,
{
    if i < k {
        lemma_skip_blank(s, i + 1, k);
    }
}

/// The tokens from the end of a line are those from the start of the next.
proof fn lemma_past_line_end(s: Seq<char>, i: int)
    requires
        0 <= i <= s.len(),
    ensures
        line_end(s, i) < s.len() ==> tokens_from(s, line_end(s, i)) == tokens_from(
            s,
            line_end(s, i) + 1,
        ),
        line_end(s, i) == s.len() ==> tokens_from(s, line_end(s, i)).len() == 0,
{
    lemma_line_end_bounds(s, i);
    assert(line_end(s, i) < s.len() ==> is_white_space(s[line_end(s, i)]));
}

/// A line from `k` that is not blank gives exactly one token.
proof fn lemma_non_blank_line(s: Seq<char>, k: int)
    requires
        0 <= k <= s.len(),
        !is_blank(s.subrange(k, line_end(s, k))),
    ensures
        tokens_from(s, k).len() == 1 + tokens_from(s, line_end(s, k)).len(),
    decreases line_end(s, k) - k,
{
    lemma_line_end_bounds(s, k);
    let e = line_end(s, k);
    let x = choose|x: int| 0 <= x < e - k && !is_white_space(#[trigger] s.subrange(k, e)[x]);
    if is_white_space(s[k]) {
        assert(x != 0);
        assert(s.subrange(k + 1, e)[x - 1] == s.subrange(k, e)[x]);
        lemma_non_blank_line(s, k + 1);
    }
}

/// Each non-blank line from `i` on gives one token, and nothing else does.
proof fn lemma_tokens_count_from(s: Seq<char>, i: int)
    requires
        0 <= i <= s.len(),
    ensures
        tokens_from(s, i).len() == non_blank_lines_from(s, i),
    decreases s.len() - i,
{
    if i < s.len() {
        lemma_line_end_bounds(s, i);
        let e = line_end(s, i);
        if is_blank(s.subrange(i, e)) {
            assert forall|x: int| i <= x < e implies is_white_space(#[trigger] s[x]) by {
                assert(s.subrange(i, e)[x - i] == s[x]);
            }
            lemma_skip_blank(s, i, e);
        } else {
            lemma_non_blank_line(s, i);
        }
        lemma_past_line_end(s, i);
        if e < s.len() {
            lemma_tokens_count_from(s, e + 1);
        } else {
            assert(non_blank_lines_from(s, e + 1) == 0);
        }
    }
}

/// Tokenizing yields one token per non-blank line of the input, so never more
/// tokens than the input has non-blank lines.
pub proof fn lemma_token_count(s: Seq<char>)
    ensures
        tokens_of(s).len() == non_blank_lines(s),
        tokens_of(s).len() <= non_blank_lines(s),
{
    lemma_tokens_count_from(s, 0);
}

/// Trimming a single line leaves a single line.
proof fn lemma_trim_single_line(t: Seq<char>)
    requires
        is_single_line(t),
    ensures
        is_single_line(trim(t)),
{
    lemma_trim_start_suffix(t);
    lemma_trim_end_prefix(trim_start(t));
    let u = trim_start(t);
    assert forall|k: int| 0 <= k < trim(t).len() implies #[trigger] trim(t)[k] != '\n' by {
        assert(trim(t)[k] == u[k]);
        assert(u[k] == t[t.len() - u.len() + k]);
    }
}

/// The token of a non-blank line, whose first character is not whitespace:
/// its text is a single line, and plain when the token is a paragraph.
proof fn lemma_classify_line(s: Seq<char>, i: int)
    requires
        0 <= i < s.len(),
        !is_white_space(s[i]),
    ensures
        is_single_line(classify(s.subrange(i, line_end(s, i))).1),
        classify(s.subrange(i, line_end(s, i))).0 == TokenKind::Paragraph ==> is_plain_line(
            classify(s.subrange(i, line_end(s, i))).1,
        ),
{
    lemma_line_end_bounds(s, i);
    lemma_line_has_no_newline(s, i);
    let e = line_end(s, i);
    let line = s.subrange(i, e);
    assert(is_single_line(line)) by {
        assert forall|k: int| 0 <= k < line.len() implies #[trigger] line[k] != '\n' by {
            assert(line[k] == s[i + k]);
        }
    }
    assert forall|n: int| 0 <= n <= line.len() implies is_single_line(#[trigger] line.skip(n)) by {
        assert forall|k: int| 0 <= k < line.skip(n).len() implies #[trigger] line.skip(n)[k]
            != '\n' by {
            assert(line.skip(n)[k] == line[n + k]);
        }
    }
    lemma_trim_single_line(line);
    lemma_trim_single_line(line.skip(1));
    if line[0] == '#' {
        lemma_leading_hashes_bounds(line);
        lemma_trim_single_line(line.skip(leading_hashes(line)));
    }
    lemma_trim_start_suffix(line);
    lemma_trim_end_prefix(line);
    assert(trim_start(line) == line);
    let m = trim(line).len() as int;
    assert(trim(line) == line.take(m));
    assert(trim(line)[0] == line[0]);
}

/// A run of `#` is no longer than the line it opens.
proof fn lemma_leading_hashes_bounds(t: Seq<char>)
    ensures
        0 <= leading_hashes(t) <= t.len(),
    decreases t.len(),
{
    if t.len() > 0 && t[0] == '#' {
        lemma_leading_hashes_bounds(t.drop_first());
    }
}

/// Every token text from `i` on is a single line, and plain for paragraphs.
proof fn lemma_token_texts_from(s: Seq<char>, i: int)
    requires
        0 <= i <= s.len(),
    ensures
        forall|k: int|
            0 <= k < tokens_from(s, i).len() ==> is_single_line(#[trigger] tokens_from(s, i)[k].1),
        forall|k: int|
            0 <= k < tokens_from(s, i).len() && #[trigger] tokens_from(s, i)[k].0
                == TokenKind::Paragraph ==> is_plain_line(tokens_from(s, i)[k].1),
    decreases s.len() - i,
{
    if i < s.len() {
        if is_white_space(s[i]) {
            lemma_token_texts_from(s, i + 1);
        } else {
            lemma_line_end_bounds(s, i);
            lemma_classify_line(s, i);
            let e = line_end(s, i);
            lemma_token_texts_from(s, e);
            let rest = tokens_from(s, e);
            assert forall|k: int| 0 < k < tokens_from(s, i).len() implies tokens_from(s, i)[k]
                == rest[k - 1] by {}
        }
    }
}

/// No token text holds a line break: each token stands for one line.
pub proof fn lemma_token_text_single_line(s: Seq<char>, k: int)
    requires
        0 <= k < tokens_of(s).len(),
    ensures
        is_single_line(tokens_of(s)[k].1),
{
    lemma_token_texts_from(s, 0);
}

/// A plain line tokenizes to one paragraph that carries the line itself.
proof fn lemma_plain_line_tokens(p: Seq<char>)
    requires
        is_plain_line(p),
    ensures
        tokens_of(p) == seq![(TokenKind::Paragraph, p)],
{
    lemma_last_line(p, 0);
    assert(p.subrange(0, p.len() as int) =~= p);
    lemma_trim_start_suffix(p);
    assert(trim_end(p) == p);
    assert(tokens_from(p, p.len() as int).len() == 0);
    assert(tokens_of(p) =~= seq![(TokenKind::Paragraph, p)]);
}

/// Tokenizing the text of a paragraph token again gives back that same
/// paragraph token, alone.
pub proof fn lemma_paragraph_retokenizes(s: Seq<char>, k: int)
    requires
        0 <= k < tokens_of(s).len(),
        tokens_of(s)[k].0 == TokenKind::Paragraph,
    ensures
        tokens_of(tokens_of(s)[k].1) == seq![tokens_of(s)[k]],
{
    lemma_token_texts_from(s, 0);
    lemma_plain_line_tokens(tokens_of(s)[k].1);
}

} // verus!
