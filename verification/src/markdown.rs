//! The markdown-to-HTML conversion used by the render-time operations.
//!
//! The conversion itself is the pulldown parser's; the post-processing that
//! strips a single wrapping paragraph — so the operation can be used inline
//! inside existing HTML structure — is verified.

use vstd::prelude::*;
use vstd::string::*;
use crate::text;

verus! {

/// What the pulldown renderer emits for a given text under the fixed option
/// set; a function of the text alone.
pub uninterp spec fn md_html_of(s: Seq<char>) -> Seq<char>;

/// Relies on `pulldown_cmark::{Parser::new_ext, html::push_html}` with the
/// strikethrough, table, footnote and task-list options: the emitted HTML is
/// a function of the input text alone.
#[verifier::external_body]
fn push_markdown_html(text: &str) -> (r: String)
    ensures
        r@ == md_html_of(text@),
{
    let options = pulldown_cmark::Options::ENABLE_STRIKETHROUGH
        | pulldown_cmark::Options::ENABLE_TABLES | pulldown_cmark::Options::ENABLE_FOOTNOTES
        | pulldown_cmark::Options::ENABLE_TASKLISTS;
    let parser = pulldown_cmark::Parser::new_ext(text, options);
    let mut out = String::new();
    pulldown_cmark::html::push_html(&mut out, parser);
    out
}

/// ASCII whitespace as it occurs around the renderer's output.
pub open spec fn is_ws(c: char) -> bool {
    c == ' ' || c == '\t' || c == '\n' || c == '\r'
}

/// The sequence with leading and trailing whitespace removed.
pub open spec fn spec_trim(s: Seq<char>) -> Seq<char>
    decreases s.len(),
{
    if s.len() > 0 && is_ws(s[0]) {
        spec_trim(s.subrange(1, s.len() as int))
    } else if s.len() > 0 && is_ws(s.last()) {
        spec_trim(s.subrange(0, s.len() - 1))
    } else {
        s
    }
}

/// The number of non-overlapping occurrences of `pat`, scanning from the
/// left, as `str::matches` counts them.
pub open spec fn count_matches(s: Seq<char>, pat: Seq<char>) -> nat
    decreases s.len()
        when pat.len() >= 1
{
    if s.len() < pat.len() {
        0
    } else if s.subrange(0, pat.len() as int) == pat {
        1 + count_matches(s.skip(pat.len() as int), pat)
    } else {
        count_matches(s.skip(1), pat)
    }
}

/// The converted output: the renderer's HTML, with the wrapping paragraph
/// tags removed when the trimmed output is exactly one paragraph.
pub open spec fn spec_markdown_html(s: Seq<char>) -> Seq<char> {
    let h = md_html_of(s);
    let t = spec_trim(h);
    if t.len() >= 7 && text::is_prefix_of("<p>"@, t) && text::is_suffix_of("</p>"@, t)
        && count_matches(t, "<p>"@) == 1 {
        t.subrange(3, t.len() - 4)
    } else {
        h
    }
}

/// Whitespace test.
fn is_ws_char(c: char) -> (r: bool)
    ensures
        r == is_ws(c),
{
    c == ' ' || c == '\t' || c == '\n' || c == '\r'
}

/// Trim leading and trailing whitespace.
#[verifier::loop_isolation(false)]
fn trim_chars(s: &Vec<char>) -> (r: Vec<char>)
    ensures
        r@ == spec_trim(s@),
{
    let mut i: usize = 0;
    proof {
        assert(s@.subrange(0, s@.len() as int) =~= s@);
    }
    while i < s.len() && is_ws_char(s[i])
        invariant
            i <= s@.len(),
            spec_trim(s@) == spec_trim(s@.subrange(i as int, s@.len() as int)),
        decreases s@.len() - i,
    {
        proof {
            let ghost sub = s@.subrange(i as int, s@.len() as int);
            assert(sub[0] == s@[i as int]);
            assert(sub.subrange(1, sub.len() as int) =~= s@.subrange(
                i as int + 1,
                s@.len() as int,
            ));
        }
        i += 1;
    }
    let mut j: usize = s.len();
    while j > i && is_ws_char(s[j - 1])
        invariant
            i <= j <= s@.len(),
            spec_trim(s@) == spec_trim(s@.subrange(i as int, j as int)),
            i < s@.len() ==> !is_ws(s@[i as int]),
            i == j || !is_ws(s@[i as int]),
        decreases j,
    {
        proof {
            let ghost sub = s@.subrange(i as int, j as int);
            assert(sub.last() == s@[j - 1]);
            assert(sub.subrange(0, sub.len() - 1) =~= s@.subrange(i as int, j as int - 1));
        }
        j -= 1;
    }
    proof {
        let ghost sub = s@.subrange(i as int, j as int);
        if sub.len() > 0 {
            assert(sub[0] == s@[i as int]);
            assert(!is_ws(sub[0]));
            assert(sub.last() == s@[j - 1]);
        }
        assert(spec_trim(sub) == sub);
    }
    text::sub_chars(s, i, j)
}

/// Count non-overlapping occurrences of `pat`.
#[verifier::loop_isolation(false)]
fn count_occurrences(s: &Vec<char>, pat: &Vec<char>) -> (r: usize)
    requires
        pat@.len() >= 1,
    ensures
        r == count_matches(s@, pat@),
{
    let mut cnt: usize = 0;
    let mut i: usize = 0;
    proof {
        assert(s@.skip(0) =~= s@);
    }
    while i < s.len()
        invariant
            i <= s@.len(),
            cnt <= i,
            count_matches(s@, pat@) == cnt + count_matches(s@.skip(i as int), pat@),
        decreases s@.len() - i,
    {
        let ghost rest = s@.skip(i as int);
        if text::matches_at(s, pat, i) {
            proof {
                assert(rest.subrange(0, pat@.len() as int) =~= s@.subrange(
                    i as int,
                    i + pat@.len(),
                ));
                assert(rest.skip(pat@.len() as int) =~= s@.skip(i + pat@.len()));
            }
            cnt += 1;
            i += pat.len();
        } else {
            proof {
                if rest.len() >= pat@.len() {
                    assert(rest.subrange(0, pat@.len() as int) =~= s@.subrange(
                        i as int,
                        i + pat@.len(),
                    ));
                } else {
                    assert(count_matches(rest, pat@) == 0);
                }
                assert(rest.skip(1) =~= s@.skip(i as int + 1));
                if rest.len() < pat@.len() && rest.len() > 0 {
                    assert(count_matches(rest.skip(1), pat@) == 0);
                }
            }
            i += 1;
        }
    }
    proof {
        assert(s@.skip(s@.len() as int) =~= Seq::<char>::empty());
    }
    cnt
}

/// Convert markdown text to HTML through the pulldown renderer, stripping a
/// single wrapping paragraph so the result can stand inline.
pub fn markdown_to_html(text: &str) -> (r: String)
    ensures
        r@ == spec_markdown_html(text@),
{
    let h = push_markdown_html(text);
    let hc = text::to_chars(h.as_str());
    let t = trim_chars(&hc);
    let po = text::to_chars("<p>");
    let pc = text::to_chars("</p>");
    proof {
        reveal_strlit("<p>");
        reveal_strlit("</p>");
    }
    if t.len() >= 7 && text::starts_with(&t, &po) && text::ends_with(&t, &pc)
        && count_occurrences(&t, &po) == 1 {
        let inner = text::sub_chars(&t, 3, t.len() - 4);
        text::from_chars(&inner)
    } else {
        h
    }
}

} // verus!
