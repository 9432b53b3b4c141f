//! Slide discovery: expanding one manifest pattern into the deduplicated,
//! ordered list of slide records it selects from the template tree.
//!
//! The template tree is handed in as a list of forward-slash paths relative
//! to the templates root, in the walker's order.  Pattern matching itself is
//! the glob crate's; everything around it — suffix recognition, base-name
//! deduplication across the expansion branches, record construction — is
//! verified.

use vstd::prelude::*;
use vstd::string::*;
use crate::extensions;
use crate::text;

verus! {

/// A single slide: its template path relative to the templates root, and the
/// section key it was declared under, if any.
#[derive(Debug)]
pub struct Slide {
    pub template: String,
    pub section_key: Option<String>,
}

impl View for Slide {
    type V = (Seq<char>, Option<Seq<char>>);

    open spec fn view(&self) -> (Seq<char>, Option<Seq<char>>) {
        (
            self.template@,
            match self.section_key {
                Some(k) => Some(k@),
                None => None,
            },
        )
    }
}

/// The view of an optional section key.
pub open spec fn section_view(k: Option<String>) -> Option<Seq<char>> {
    match k {
        Some(s) => Some(s@),
        None => None,
    }
}

/// What `glob::Pattern::new` plus `matches_with` decide for a pattern and a
/// path; `None` stands for a pattern that does not compile.  With fixed
/// options the decision is a function of the two texts alone.
pub uninterp spec fn glob_match(pattern: Seq<char>, path: Seq<char>) -> Option<bool>;

/// Relies on `glob::Pattern::{new, matches_with}`, with literal separators
/// required, case sensitivity on and leading dots unrestricted — the options
/// the glob crate's own directory walker applies; the result is a function
/// of pattern and path text alone.
#[verifier::external_body]
fn glob_match_path(pattern: &str, path: &str) -> (r: Option<bool>)
    ensures
        r == glob_match(pattern@, path@),
{
    let options = glob::MatchOptions {
        case_sensitive: true,
        require_literal_separator: true,
        require_literal_leading_dot: false,
    };
    match glob::Pattern::new(pattern) {
        Ok(p) => Some(p.matches_with(path, options)),
        Err(_) => None,
    }
}

/// A compiling pattern selects the path.
pub open spec fn glob_matched(pat: Seq<char>, f: Seq<char>) -> bool {
    glob_match(pat, f) == Some(true)
}

/// The path with its recognized suffix stripped; the dedup key.
pub open spec fn spec_base_name(f: Seq<char>) -> Seq<char> {
    match extensions::spec_template_extension(f) {
        Some(e) => f.subrange(0, f.len() - e.len()),
        None => f,
    }
}

/// The templates one expanded pattern selects from `files`, in file order,
/// together with the base names seen afterwards: a file is taken when the
/// pattern selects it, its name carries a recognized suffix, and its base
/// name has not been taken before.
pub open spec fn collect_pat(pat: Seq<char>, files: Seq<Seq<char>>, seen: Set<Seq<char>>) -> (
    Seq<Seq<char>>,
    Set<Seq<char>>,
)
    decreases files.len(),
{
    if files.len() == 0 {
        (Seq::empty(), seen)
    } else {
        let f = files[0];
        let rest = files.subrange(1, files.len() as int);
        if glob_matched(pat, f) && extensions::spec_template_extension(f) is Some
            && !seen.contains(spec_base_name(f)) {
            let next = collect_pat(pat, rest, seen.insert(spec_base_name(f)));
            (seq![f] + next.0, next.1)
        } else {
            collect_pat(pat, rest, seen)
        }
    }
}

/// The templates a list of expanded patterns selects, pattern by pattern,
/// carrying the seen base names across the branches.
pub open spec fn collect_pats(pats: Seq<Seq<char>>, files: Seq<Seq<char>>, seen: Set<Seq<char>>)
    -> (Seq<Seq<char>>, Set<Seq<char>>)
    decreases pats.len(),
{
    if pats.len() == 0 {
        (Seq::empty(), seen)
    } else {
        let one = collect_pat(pats[0], files, seen);
        let next = collect_pats(pats.subrange(1, pats.len() as int), files, one.1);
        (one.0 + next.0, next.1)
    }
}

/// The templates one manifest pattern selects after expansion.
pub open spec fn spec_collect_templates(pattern: Seq<char>, files: Seq<Seq<char>>) -> Seq<
    Seq<char>,
> {
    collect_pats(extensions::spec_expand_pattern(pattern), files, Set::empty()).0
}

/// Membership of a character sequence in the seen list.
fn contains_chars(seen: &Vec<Vec<char>>, b: &Vec<char>) -> (r: bool)
    ensures
        r == exists|j: int| 0 <= j < seen@.len() && seen@[j]@ == b@,
{
    let mut j: usize = 0;
    while j < seen.len()
        invariant
            j <= seen@.len(),
            forall|k: int| 0 <= k < j ==> seen@[k]@ != b@,
        decreases seen@.len() - j,
    {
        if text::eq_chars(&seen[j], b) {
            return true;
        }
        j += 1;
    }
    false
}

impl Slide {
    /// Load the collection of slides one manifest pattern selects from the
    /// template tree, tagged with the pattern's section key.  The pattern is
    /// expanded through the suffix table; files are deduplicated by base
    /// name across all expansion branches, first match kept.
    pub fn load_collection(
        pattern: &str,
        section_key: Option<String>,
        files: &Vec<String>,
    ) -> (r: Vec<Slide>)
        ensures
            r@.map_values(|s: Slide| s@.0) == spec_collect_templates(
                pattern@,
                files@.map_values(|f: String| f@),
            ),
            forall|i: int| 0 <= i < r@.len() ==> #[trigger] r@[i]@.1 == section_view(
                section_key,
            ),
    {
        let ghost fvs = files@.map_values(|f: String| f@);
        let pats = extensions::expand_pattern(pattern);
        let ghost pvs = pats@.map_values(|s: String| s@);
        let mut out: Vec<Slide> = Vec::new();
        let mut seen: Vec<Vec<char>> = Vec::new();
        let ghost mut seen_set = Set::<Seq<char>>::empty();
        let ghost mut sel = Seq::<Seq<char>>::empty();
        let ghost total = collect_pats(pvs, fvs, Set::empty());
        let mut k: usize = 0;
        proof {
            assert(pvs.subrange(0, pvs.len() as int) =~= pvs);
            assert(out@.map_values(|s: Slide| s@.0) =~= sel);
            assert(sel + collect_pats(pvs, fvs, seen_set).0 =~= collect_pats(
                pvs,
                fvs,
                seen_set,
            ).0);
        }
        while k < pats.len()
            invariant
                k <= pats@.len(),
                pvs == pats@.map_values(|s: String| s@),
                fvs == files@.map_values(|f: String| f@),
                total == collect_pats(pvs, fvs, Set::<Seq<char>>::empty()),
                out@.map_values(|s: Slide| s@.0) == sel,
                forall|b: Seq<char>| #[trigger] seen_set.contains(b) <==> exists|j: int|
                    0 <= j < seen@.len() && seen@[j]@ == b,
                total.0 == sel + collect_pats(
                    pvs.subrange(k as int, pvs.len() as int),
                    fvs,
                    seen_set,
                ).0,
                total.1 == collect_pats(pvs.subrange(k as int, pvs.len() as int), fvs, seen_set).1,
                forall|i: int| 0 <= i < out@.len() ==> #[trigger] out@[i]@.1 == section_view(
                    section_key,
                ),
            decreases pats@.len() - k,
        {
            let ghost rem_pats = pvs.subrange(k as int, pvs.len() as int);
            let ghost one = collect_pat(pvs[k as int], fvs, seen_set);
            let ghost next_pats = pvs.subrange(k as int + 1, pvs.len() as int);
            proof {
                assert(rem_pats[0] == pvs[k as int]);
                assert(rem_pats.subrange(1, rem_pats.len() as int) =~= next_pats);
                assert(collect_pats(rem_pats, fvs, seen_set).0 == one.0 + collect_pats(
                    next_pats,
                    fvs,
                    one.1,
                ).0);
                assert(collect_pats(rem_pats, fvs, seen_set).1 == collect_pats(
                    next_pats,
                    fvs,
                    one.1,
                ).1);
            }
            let ghost sel_at_k = sel;
            let ghost mut inner_sel = Seq::<Seq<char>>::empty();
            let mut t: usize = 0;
            proof {
                assert(fvs.subrange(0, fvs.len() as int) =~= fvs);
                assert(inner_sel + collect_pat(pvs[k as int], fvs, seen_set).0 =~= collect_pat(
                    pvs[k as int],
                    fvs,
                    seen_set,
                ).0);
            }
            while t < files.len()
                invariant
                    t <= files@.len(),
                    k < pats@.len(),
                    pvs == pats@.map_values(|s: String| s@),
                    fvs == files@.map_values(|f: String| f@),
                    forall|b: Seq<char>| #[trigger] seen_set.contains(b) <==> exists|j: int|
                        0 <= j < seen@.len() && seen@[j]@ == b,
                    sel == sel_at_k + inner_sel,
                    out@.map_values(|s: Slide| s@.0) == sel,
                    one.0 == inner_sel + collect_pat(
                        pvs[k as int],
                        fvs.subrange(t as int, fvs.len() as int),
                        seen_set,
                    ).0,
                    one.1 == collect_pat(
                        pvs[k as int],
                        fvs.subrange(t as int, fvs.len() as int),
                        seen_set,
                    ).1,
                    forall|i: int| 0 <= i < out@.len() ==> #[trigger] out@[i]@.1 == section_view(
                        section_key,
                    ),
                decreases files@.len() - t,
            {
                let ghost pat = pvs[k as int];
                let ghost rem_files = fvs.subrange(t as int, fvs.len() as int);
                let ghost next_files = fvs.subrange(t as int + 1, fvs.len() as int);
                let ghost cond = glob_matched(pat, fvs[t as int])
                    && extensions::spec_template_extension(fvs[t as int]) is Some
                    && !seen_set.contains(spec_base_name(fvs[t as int]));
                proof {
                    assert(rem_files[0] == fvs[t as int]);
                    assert(rem_files.subrange(1, rem_files.len() as int) =~= next_files);
                }
                let f = &files[t];
                let mut take = false;
                let mut base: Vec<char> = Vec::new();
                match glob_match_path(pats[k].as_str(), f.as_str()) {
                    Some(true) => {
                        match extensions::get_template_extension(f.as_str()) {
                            Some(ext) => {
                                let fc = text::to_chars(f.as_str());
                                let ec = text::to_chars(ext.as_str());
                                base = text::sub_chars(&fc, 0, fc.len() - ec.len());
                                proof {
                                    assert(base@ == spec_base_name(fvs[t as int]));
                                }
                                if !contains_chars(&seen, &base) {
                                    take = true;
                                }
                                proof {
                                    assert(take == cond);
                                }
                            },
                            None => {
                                proof {
                                    assert(!cond);
                                }
                            },
                        }
                    },
                    _ => {
                        proof {
                            assert(!cond);
                        }
                    },
                }
                if take {
                    let ghost old_seen_vec = seen@;
                    let ghost fb = spec_base_name(fvs[t as int]);
                    out.push(
                        Slide {
                            template: f.clone(),
                            section_key: match &section_key {
                                Some(s) => Some(s.clone()),
                                None => None,
                            },
                        },
                    );
                    seen.push(base);
                    proof {
                        seen_set = seen_set.insert(fb);
                        let ghost old_inner = inner_sel;
                        inner_sel = inner_sel.push(fvs[t as int]);
                        sel = sel.push(fvs[t as int]);
                        assert(out@.map_values(|s: Slide| s@.0) =~= sel);
                        assert(sel =~= sel_at_k + inner_sel);
                        assert forall|b: Seq<char>| #[trigger] seen_set.contains(b) implies
                            exists|j: int| 0 <= j < seen@.len() && seen@[j]@ == b by {
                            if b == fb {
                                assert(seen@[seen@.len() - 1]@ == b);
                            } else {
                                let j = choose|j: int|
                                    0 <= j < old_seen_vec.len() && old_seen_vec[j]@ == b;
                                assert(seen@[j]@ == b);
                            }
                        }
                        assert forall|b: Seq<char>|
                            (exists|j: int| 0 <= j < seen@.len() && seen@[j]@ == b) implies
                            #[trigger] seen_set.contains(b) by {
                            let j = choose|j: int| 0 <= j < seen@.len() && seen@[j]@ == b;
                            if j < seen@.len() - 1 {
                                assert(old_seen_vec[j]@ == b);
                            } else {
                                assert(b == fb);
                            }
                        }
                        assert(one.0 == old_inner + (seq![fvs[t as int]] + collect_pat(
                            pat,
                            next_files,
                            seen_set,
                        ).0));
                        assert(old_inner + (seq![fvs[t as int]] + collect_pat(
                            pat,
                            next_files,
                            seen_set,
                        ).0) =~= inner_sel + collect_pat(pat, next_files, seen_set).0);
                    }
                } else {
                    proof {
                        assert(collect_pat(pat, rem_files, seen_set).0 == collect_pat(
                            pat,
                            next_files,
                            seen_set,
                        ).0);
                        assert(collect_pat(pat, rem_files, seen_set).1 == collect_pat(
                            pat,
                            next_files,
                            seen_set,
                        ).1);
                    }
                }
                t += 1;
            }
            proof {
                assert(fvs.subrange(fvs.len() as int, fvs.len() as int) =~= Seq::<
                    Seq<char>,
                >::empty());
                assert(collect_pat(pvs[k as int], Seq::<Seq<char>>::empty(), seen_set).0 =~= Seq::<
                    Seq<char>,
                >::empty());
                assert(inner_sel + Seq::<Seq<char>>::empty() =~= inner_sel);
                assert(inner_sel == one.0);
                assert(sel_at_k + one.0 + collect_pats(next_pats, fvs, one.1).0 =~= sel_at_k + (
                one.0 + collect_pats(next_pats, fvs, one.1).0));
            }
            k += 1;
        }
        proof {
            assert(pvs.subrange(pvs.len() as int, pvs.len() as int) =~= Seq::<Seq<char>>::empty());
            assert(collect_pats(Seq::<Seq<char>>::empty(), fvs, seen_set).0 =~= Seq::<
                Seq<char>,
            >::empty());
            assert(sel + Seq::<Seq<char>>::empty() =~= sel);
        }
        out
    }
}

/// Stable insertion of a slide into a run already sorted by template path:
/// the slide goes after every element whose path orders at or before its
/// own, so that elements with equal paths keep their arrival order.
pub open spec fn spec_insert_slide(
    s: Seq<(Seq<char>, Option<Seq<char>>)>,
    x: (Seq<char>, Option<Seq<char>>),
) -> Seq<(Seq<char>, Option<Seq<char>>)>
    decreases s.len(),
{
    if s.len() == 0 {
        seq![x]
    } else if text::lex_le(s[0].0, x.0) {
        seq![s[0]] + spec_insert_slide(s.subrange(1, s.len() as int), x)
    } else {
        seq![x] + s
    }
}

/// The stable sort of a slide list by template path, ascending.
pub open spec fn spec_sort_slides(s: Seq<(Seq<char>, Option<Seq<char>>)>) -> Seq<
    (Seq<char>, Option<Seq<char>>),
>
    decreases s.len(),
{
    if s.len() == 0 {
        Seq::empty()
    } else {
        spec_insert_slide(spec_sort_slides(s.drop_last()), s.last())
    }
}

/// Inserting at the position found by walking past every element at or
/// before `x` splits the run around `x`.
proof fn lemma_insert_slide_at(
    s: Seq<(Seq<char>, Option<Seq<char>>)>,
    x: (Seq<char>, Option<Seq<char>>),
    idx: int,
)
    requires
        0 <= idx <= s.len(),
        forall|j: int| 0 <= j < idx ==> text::lex_le(#[trigger] s[j].0, x.0),
        idx < s.len() ==> !text::lex_le(s[idx].0, x.0),
    ensures
        spec_insert_slide(s, x) == s.insert(idx, x),
    decreases idx,
{
    if idx == 0 {
        if s.len() == 0 {
            assert(spec_insert_slide(s, x) =~= s.insert(0, x));
        } else {
            assert(spec_insert_slide(s, x) =~= s.insert(0, x));
        }
    } else {
        let rest = s.subrange(1, s.len() as int);
        lemma_insert_slide_at(rest, x, idx - 1);
        assert(seq![s[0]] + rest.insert(idx - 1, x) =~= s.insert(idx, x));
    }
}

/// Sort slides by template path, ascending and stably.
pub fn sort_slides(slides: Vec<Slide>) -> (r: Vec<Slide>)
    ensures
        r@.map_values(|s: Slide| s@) == spec_sort_slides(slides@.map_values(|s: Slide| s@)),
{
    let ghost svs = slides@.map_values(|s: Slide| s@);
    let mut r: Vec<Slide> = Vec::new();
    let mut rest = slides;
    proof {
        assert(svs.subrange(0, 0) =~= Seq::<(Seq<char>, Option<Seq<char>>)>::empty());
        assert(r@.map_values(|s: Slide| s@) =~= spec_sort_slides(svs.subrange(0, 0)));
    }
    let mut i: usize = 0;
    while i < rest.len()
        invariant
            i <= rest@.len(),
            rest@.map_values(|s: Slide| s@) == svs,
            r@.map_values(|s: Slide| s@) == spec_sort_slides(svs.subrange(0, i as int)),
        decreases rest@.len() - i,
    {
        let ghost rvs = r@.map_values(|s: Slide| s@);
        let x = rest[i].clone_slide();
        let ghost xv = x@;
        proof {
            assert(xv == svs[i as int]);
        }
        let mut idx: usize = 0;
        while idx < r.len() && text::chars_le(
            &text::to_chars(r[idx].template.as_str()),
            &text::to_chars(x.template.as_str()),
        )
            invariant
                idx <= r@.len(),
                r@.map_values(|s: Slide| s@) == rvs,
                xv == x@,
                forall|j: int| 0 <= j < idx ==> text::lex_le(#[trigger] rvs[j].0, xv.0),
            decreases r@.len() - idx,
        {
            idx += 1;
        }
        r.insert(idx, x);
        proof {
            lemma_insert_slide_at(rvs, xv, idx as int);
            assert(r@.map_values(|s: Slide| s@) =~= rvs.insert(idx as int, xv));
            assert(svs.subrange(0, i as int + 1).drop_last() =~= svs.subrange(0, i as int));
            assert(svs.subrange(0, i as int + 1).last() == svs[i as int]);
        }
        i += 1;
    }
    proof {
        assert(svs.subrange(0, svs.len() as int) =~= svs);
    }
    r
}

/// The result of a stable sort is ordered.
pub proof fn lemma_insert_slide_sorted(
    s: Seq<(Seq<char>, Option<Seq<char>>)>,
    x: (Seq<char>, Option<Seq<char>>),
)
    requires
        forall|i: int, j: int| 0 <= i < j < s.len() ==> text::lex_le(
            #[trigger] s[i].0,
            #[trigger] s[j].0,
        ),
    ensures
        forall|i: int, j: int|
            0 <= i < j < spec_insert_slide(s, x).len() ==> text::lex_le(
                #[trigger] spec_insert_slide(s, x)[i].0,
                #[trigger] spec_insert_slide(s, x)[j].0,
            ),
    decreases s.len(),
{
    let out = spec_insert_slide(s, x);
    if s.len() == 0 {
    } else if text::lex_le(s[0].0, x.0) {
        let rest = s.subrange(1, s.len() as int);
        lemma_insert_slide_sorted(rest, x);
        let sub = spec_insert_slide(rest, x);
        assert forall|i: int, j: int| 0 <= i < j < out.len() implies text::lex_le(
            #[trigger] out[i].0,
            #[trigger] out[j].0,
        ) by {
            if i == 0 {
                if j >= 1 {
                    assert(out[j] == sub[j - 1]);
                    if exists|m: int| 0 <= m < rest.len() && sub[j - 1] == rest[m] {
                        let m = choose|m: int| 0 <= m < rest.len() && sub[j - 1] == rest[m];
                        assert(text::lex_le(s[0].0, rest[m].0));
                    } else {
                        lemma_insert_slide_membership(rest, x, j - 1);
                    }
                }
            } else {
                assert(out[i] == sub[i - 1]);
                assert(out[j] == sub[j - 1]);
            }
        }
    } else {
        assert forall|i: int, j: int| 0 <= i < j < out.len() implies text::lex_le(
            #[trigger] out[i].0,
            #[trigger] out[j].0,
        ) by {
            if i == 0 {
                assert(out[j] == s[j - 1]);
                text::lemma_lex_total(s[0].0, x.0);
                if j - 1 > 0 {
                    assert(text::lex_le(s[0].0, s[j - 1].0));
                    text::lemma_lex_trans(x.0, s[0].0, s[j - 1].0);
                } else {
                }
            } else {
                assert(out[i] == s[i - 1]);
                assert(out[j] == s[j - 1]);
            }
        }
    }
}

/// Every element of an insertion result is the inserted element or one of
/// the run's own; used to carry order bounds through the recursion.
proof fn lemma_insert_slide_membership(
    s: Seq<(Seq<char>, Option<Seq<char>>)>,
    x: (Seq<char>, Option<Seq<char>>),
    i: int,
)
    requires
        0 <= i < spec_insert_slide(s, x).len(),
    ensures
        spec_insert_slide(s, x)[i] == x || exists|m: int|
            0 <= m < s.len() && spec_insert_slide(s, x)[i] == s[m],
    decreases s.len(),
{
    let out = spec_insert_slide(s, x);
    if s.len() == 0 {
    } else if text::lex_le(s[0].0, x.0) {
        let rest = s.subrange(1, s.len() as int);
        if i == 0 {
            assert(out[0] == s[0]);
        } else {
            lemma_insert_slide_membership(rest, x, i - 1);
            let sub = spec_insert_slide(rest, x);
            assert(out[i] == sub[i - 1]);
            if sub[i - 1] == x {
            } else {
                let m = choose|m: int| 0 <= m < rest.len() && sub[i - 1] == rest[m];
                assert(out[i] == s[m + 1]);
            }
        }
    } else {
        if i == 0 {
        } else {
            assert(out[i] == s[i - 1]);
        }
    }
}

/// The sorted list is ordered by template path.
pub proof fn lemma_sort_slides_sorted(s: Seq<(Seq<char>, Option<Seq<char>>)>)
    ensures
        forall|i: int, j: int|
            0 <= i < j < spec_sort_slides(s).len() ==> text::lex_le(
                #[trigger] spec_sort_slides(s)[i].0,
                #[trigger] spec_sort_slides(s)[j].0,
            ),
    decreases s.len(),
{
    if s.len() > 0 {
        lemma_sort_slides_sorted(s.drop_last());
        lemma_insert_slide_sorted(spec_sort_slides(s.drop_last()), s.last());
    }
}

impl Slide {
    /// An identical copy of this slide.
    pub fn clone_slide(&self) -> (r: Slide)
        ensures
            r@ == self@,
    {
        Slide {
            template: self.template.clone(),
            section_key: match &self.section_key {
                Some(s) => Some(s.clone()),
                None => None,
            },
        }
    }
}

} // verus!
