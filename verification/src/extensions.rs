//! The extension resolver: the fixed, priority-ordered table of recognized
//! template file suffixes.
//!
//! The order is longest-first, so that a file named `x.html.twig` is
//! recognized as suffix `.html.twig` rather than `.twig`.  The same table
//! drives the expansion of a pattern written with the bare `.html` suffix
//! into one candidate pattern per recognized suffix.

use vstd::prelude::*;
use vstd::string::*;
use crate::text;

verus! {

/// The recognized suffixes, in priority order.
pub open spec fn spec_extensions() -> Seq<Seq<char>> {
    seq![
        ".html.twig"@,
        ".html.jinja2"@,
        ".html.jinja"@,
        ".jinja2"@,
        ".jinja"@,
        ".twig"@,
        ".html"@,
    ]
}

/// The recognized suffixes as strings, in priority order.
pub fn template_extensions() -> (r: Vec<String>)
    ensures
        r@.map_values(|s: String| s@) == spec_extensions(),
{
    let mut r: Vec<String> = Vec::new();
    r.push((".html.twig").to_owned());
    r.push((".html.jinja2").to_owned());
    r.push((".html.jinja").to_owned());
    r.push((".jinja2").to_owned());
    r.push((".jinja").to_owned());
    r.push((".twig").to_owned());
    r.push((".html").to_owned());
    proof {
        assert(r@.map_values(|s: String| s@) =~= spec_extensions());
    }
    r
}

/// The first suffix in `exts` that `f` ends with.
pub open spec fn first_matching_ext(f: Seq<char>, exts: Seq<Seq<char>>) -> Option<Seq<char>>
    decreases exts.len(),
{
    if exts.len() == 0 {
        None
    } else if text::is_suffix_of(exts[0], f) {
        Some(exts[0])
    } else {
        first_matching_ext(f, exts.subrange(1, exts.len() as int))
    }
}

/// The recognized suffix of a filename, if it has one.
pub open spec fn spec_template_extension(f: Seq<char>) -> Option<Seq<char>> {
    first_matching_ext(f, spec_extensions())
}

/// Return the recognized template suffix of `filename`, if any: the first
/// entry of the priority-ordered table that `filename` ends with.
pub fn get_template_extension(filename: &str) -> (r: Option<String>)
    ensures
        match r {
            Some(e) => spec_template_extension(filename@) == Some(e@) && text::is_suffix_of(
                e@,
                filename@,
            ),
            None => spec_template_extension(filename@) is None,
        },
{
    let f = text::to_chars(filename);
    let exts = template_extensions();
    let ghost evs = exts@.map_values(|s: String| s@);
    let mut i: usize = 0;
    proof {
        assert(evs.subrange(0, evs.len() as int) =~= evs);
    }
    while i < exts.len()
        invariant
            i <= exts@.len(),
            f@ == filename@,
            evs == exts@.map_values(|s: String| s@),
            evs == spec_extensions(),
            first_matching_ext(filename@, evs) == first_matching_ext(
                filename@,
                evs.subrange(i as int, evs.len() as int),
            ),
        decreases exts@.len() - i,
    {
        let e = text::to_chars(exts[i].as_str());
        proof {
            assert(evs.subrange(i as int, evs.len() as int)[0] == evs[i as int]);
            assert(evs.subrange(i as int, evs.len() as int).subrange(
                1,
                evs.subrange(i as int, evs.len() as int).len() as int,
            ) =~= evs.subrange(i as int + 1, evs.len() as int));
        }
        if text::ends_with(&f, &e) {
            return Some(exts[i].clone());
        }
        i += 1;
    }
    proof {
        assert(evs.subrange(evs.len() as int, evs.len() as int) =~= Seq::<Seq<char>>::empty());
    }
    None
}

/// The expansion of one pattern: a pattern ending in the bare `.html` suffix
/// becomes one candidate per recognized suffix, substituting the suffix for
/// `.html` and preserving the table's order; any other pattern stands alone.
pub open spec fn spec_expand_pattern(p: Seq<char>) -> Seq<Seq<char>> {
    if text::is_suffix_of(".html"@, p) {
        spec_extensions().map_values(|e: Seq<char>| p.subrange(0, p.len() - ".html"@.len()) + e)
    } else {
        seq![p]
    }
}

/// Expand a pattern through the suffix table.
pub fn expand_pattern(pattern: &str) -> (r: Vec<String>)
    ensures
        r@.map_values(|s: String| s@) == spec_expand_pattern(pattern@),
{
    let p = text::to_chars(pattern);
    let html = text::to_chars(".html");
    proof {
        reveal_strlit(".html");
    }
    if text::ends_with(&p, &html) {
        let base = text::sub_chars(&p, 0, p.len() - html.len());
        let exts = template_extensions();
        let ghost evs = exts@.map_values(|s: String| s@);
        let mut r: Vec<String> = Vec::new();
        let mut i: usize = 0;
        while i < exts.len()
            invariant
                i <= exts@.len(),
                evs == exts@.map_values(|s: String| s@),
                base@ == pattern@.subrange(0, pattern@.len() - ".html"@.len()),
                r@.len() == i,
                forall|j: int| 0 <= j < i ==> r@[j]@ == base@ + evs[j],
            decreases exts@.len() - i,
        {
            let e = text::to_chars(exts[i].as_str());
            let mut one = base.clone();
            text::extend_chars(&mut one, &e);
            r.push(text::from_chars(&one));
            i += 1;
        }
        proof {
            assert(r@.map_values(|s: String| s@) =~= spec_expand_pattern(pattern@));
        }
        r
    } else {
        let mut r: Vec<String> = Vec::new();
        r.push(pattern.to_owned());
        proof {
            assert(r@.map_values(|s: String| s@) =~= spec_expand_pattern(pattern@));
        }
        r
    }
}

} // verus!
