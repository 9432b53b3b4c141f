//! The library's laws: properties that relate several stages of the
//! pipeline, stated and proved over the same specifications the functions'
//! own contracts use.

use vstd::prelude::*;
use vstd::string::*;
use crate::deck;
use crate::manifest;
use crate::manifest::DeckConfigView;
use crate::render;
use crate::slide;
use crate::strmap;
use crate::text;

verus! {

/// Determinism: a build's outputs are functions of the manifest
/// configuration, the template tree and the locale document.  Two builds
/// whose deck specification, tree and translation document coincide load
/// identical slide lists and produce identical deck pages, overview,
/// presenter pages and print page, filename for filename and byte for
/// byte.
pub proof fn lemma_build_deterministic(
    c: DeckConfigView,
    tree: Seq<(Seq<char>, Seq<char>)>,
    translation: Option<Seq<char>>,
    s1: Seq<(Seq<char>, Option<Seq<char>>)>,
    s2: Seq<(Seq<char>, Option<Seq<char>>)>,
    b1: deck::BuiltPages,
    b2: deck::BuiltPages,
)
    requires
        s1 == manifest::spec_deck_slides(c, tree.map_values(|f: (Seq<char>, Seq<char>)| f.0)),
        s2 == manifest::spec_deck_slides(c, tree.map_values(|f: (Seq<char>, Seq<char>)| f.0)),
        deck::built_as_specified(b1, tree, translation, s1),
        deck::built_as_specified(b2, tree, translation, s2),
    ensures
        s1 == s2,
        b1.pages.entry_views() == b2.pages.entry_views(),
        render::opt_html(b1.overview) == render::opt_html(b2.overview),
        b1.presenter.entry_views() == b2.presenter.entry_views(),
        render::opt_html(b1.print) == render::opt_html(b2.print),
{
}

/// Ordering: the deck's final slide list ascends by template path,
/// whatever order the filesystem enumerated the matches in.
pub proof fn lemma_slides_ordered(c: DeckConfigView, files: Seq<Seq<char>>)
    ensures
        forall|i: int, j: int|
            0 <= i < j < manifest::spec_deck_slides(c, files).len() ==> text::lex_le(
                #[trigger] manifest::spec_deck_slides(c, files)[i].0,
                #[trigger] manifest::spec_deck_slides(c, files)[j].0,
            ),
{
    slide::lemma_sort_slides_sorted(
        manifest::slides_for_pairs(manifest::spec_resolve(c), files),
    );
}

/// The selections of one expanded pattern carry base names outside `seen`,
/// pairwise distinct, and the carried-out seen set is exactly `seen` plus
/// those base names.
proof fn lemma_collect_pat_distinct(pat: Seq<char>, files: Seq<Seq<char>>, seen: Set<Seq<char>>)
    ensures
        forall|a: int|
            0 <= a < slide::collect_pat(pat, files, seen).0.len() ==> !seen.contains(
                slide::spec_base_name(#[trigger] slide::collect_pat(pat, files, seen).0[a]),
            ),
        forall|a: int, b: int|
            0 <= a < b < slide::collect_pat(pat, files, seen).0.len()
                ==> slide::spec_base_name(
                #[trigger] slide::collect_pat(pat, files, seen).0[a],
            ) != slide::spec_base_name(#[trigger] slide::collect_pat(pat, files, seen).0[b]),
        forall|x: Seq<char>|
            #[trigger] slide::collect_pat(pat, files, seen).1.contains(x) <==> seen.contains(x)
                || exists|a: int|
                0 <= a < slide::collect_pat(pat, files, seen).0.len()
                    && slide::spec_base_name(slide::collect_pat(pat, files, seen).0[a]) == x,
    decreases files.len(),
{
    if files.len() == 0 {
    } else {
        let f = files[0];
        let rest = files.subrange(1, files.len() as int);
        let out = slide::collect_pat(pat, files, seen);
        if slide::glob_matched(pat, f) && crate::extensions::spec_template_extension(f) is Some
            && !seen.contains(slide::spec_base_name(f)) {
            let seen1 = seen.insert(slide::spec_base_name(f));
            let next = slide::collect_pat(pat, rest, seen1);
            lemma_collect_pat_distinct(pat, rest, seen1);
            assert(out.0 == seq![f] + next.0);
            assert(out.1 == next.1);
            assert(out.0[0] == f);
            assert(out.0.len() == 1 + next.0.len());
            assert forall|a: int| 1 <= a < out.0.len() implies out.0[a] == next.0[a - 1] by {
            }
            assert forall|a: int|
                0 <= a < out.0.len() implies !seen.contains(
                slide::spec_base_name(#[trigger] out.0[a]),
            ) by {
                if a == 0 {
                } else {
                    assert(out.0[a] == next.0[a - 1]);
                    assert(!seen1.contains(slide::spec_base_name(next.0[a - 1])));
                }
            }
            assert forall|a: int, b: int|
                0 <= a < b < out.0.len() implies slide::spec_base_name(#[trigger] out.0[a])
                != slide::spec_base_name(#[trigger] out.0[b]) by {
                if a == 0 {
                    assert(out.0[b] == next.0[b - 1]);
                    assert(!seen1.contains(slide::spec_base_name(next.0[b - 1])));
                    assert(seen1.contains(slide::spec_base_name(f)));
                } else {
                    assert(out.0[a] == next.0[a - 1]);
                    assert(out.0[b] == next.0[b - 1]);
                }
            }
            assert forall|x: Seq<char>|
                #[trigger] out.1.contains(x) <==> seen.contains(x) || exists|a: int|
                    0 <= a < out.0.len() && slide::spec_base_name(out.0[a]) == x by {
                if out.1.contains(x) {
                    if seen1.contains(x) {
                        if x == slide::spec_base_name(f) {
                            assert(slide::spec_base_name(out.0[0]) == x);
                        } else {
                            assert(seen.contains(x));
                        }
                    } else {
                        let a = choose|a: int|
                            0 <= a < next.0.len() && slide::spec_base_name(next.0[a]) == x;
                        assert(out.0[a + 1] == next.0[a]);
                        assert(slide::spec_base_name(out.0[a + 1]) == x);
                    }
                } else {
                    assert(!seen1.contains(x));
                    assert(!seen.contains(x));
                    if exists|a: int| 0 <= a < out.0.len() && slide::spec_base_name(out.0[a])
                        == x {
                        let a = choose|a: int|
                            0 <= a < out.0.len() && slide::spec_base_name(out.0[a]) == x;
                        if a == 0 {
                            assert(seen1.contains(x));
                        } else {
                            assert(out.0[a] == next.0[a - 1]);
                            assert(next.1.contains(x));
                        }
                        assert(false);
                    }
                }
            }
        } else {
            lemma_collect_pat_distinct(pat, rest, seen);
            assert(out == slide::collect_pat(pat, rest, seen));
        }
    }
}

/// The same, across a whole expanded pattern list.
proof fn lemma_collect_pats_distinct(
    pats: Seq<Seq<char>>,
    files: Seq<Seq<char>>,
    seen: Set<Seq<char>>,
)
    ensures
        forall|a: int|
            0 <= a < slide::collect_pats(pats, files, seen).0.len() ==> !seen.contains(
                slide::spec_base_name(#[trigger] slide::collect_pats(pats, files, seen).0[a]),
            ),
        forall|a: int, b: int|
            0 <= a < b < slide::collect_pats(pats, files, seen).0.len()
                ==> slide::spec_base_name(
                #[trigger] slide::collect_pats(pats, files, seen).0[a],
            ) != slide::spec_base_name(
                #[trigger] slide::collect_pats(pats, files, seen).0[b],
            ),
        forall|x: Seq<char>|
            #[trigger] slide::collect_pats(pats, files, seen).1.contains(x) <==> seen.contains(
                x,
            ) || exists|a: int|
                0 <= a < slide::collect_pats(pats, files, seen).0.len()
                    && slide::spec_base_name(slide::collect_pats(pats, files, seen).0[a]) == x,
    decreases pats.len(),
{
    if pats.len() == 0 {
    } else {
        let rest = pats.subrange(1, pats.len() as int);
        let one = slide::collect_pat(pats[0], files, seen);
        let next = slide::collect_pats(rest, files, one.1);
        let out = slide::collect_pats(pats, files, seen);
        lemma_collect_pat_distinct(pats[0], files, seen);
        lemma_collect_pats_distinct(rest, files, one.1);
        assert(out.0 == one.0 + next.0);
        assert forall|a: int|
            0 <= a < out.0.len() implies !seen.contains(
            slide::spec_base_name(#[trigger] out.0[a]),
        ) by {
            if a < one.0.len() {
                assert(out.0[a] == one.0[a]);
            } else {
                assert(out.0[a] == next.0[a - one.0.len()]);
                assert(!one.1.contains(slide::spec_base_name(next.0[a - one.0.len()])));
            }
        }
        assert forall|a: int, b: int|
            0 <= a < b < out.0.len() implies slide::spec_base_name(#[trigger] out.0[a])
            != slide::spec_base_name(#[trigger] out.0[b]) by {
            if b < one.0.len() {
            } else if a >= one.0.len() {
                assert(out.0[a] == next.0[a - one.0.len()]);
                assert(out.0[b] == next.0[b - one.0.len()]);
            } else {
                assert(out.0[a] == one.0[a]);
                assert(out.0[b] == next.0[b - one.0.len()]);
                assert(one.1.contains(slide::spec_base_name(one.0[a])));
                assert(!one.1.contains(slide::spec_base_name(next.0[b - one.0.len()])));
            }
        }
        assert forall|x: Seq<char>|
            #[trigger] out.1.contains(x) <==> seen.contains(x) || exists|a: int|
                0 <= a < out.0.len() && slide::spec_base_name(out.0[a]) == x by {
            if out.1.contains(x) {
                if !seen.contains(x) {
                    if one.1.contains(x) {
                        let a = choose|a: int|
                            0 <= a < one.0.len() && slide::spec_base_name(one.0[a]) == x;
                        assert(out.0[a] == one.0[a]);
                        assert(slide::spec_base_name(out.0[a]) == x);
                    } else {
                        let a = choose|a: int|
                            0 <= a < next.0.len() && slide::spec_base_name(next.0[a]) == x;
                        assert(out.0[a + one.0.len()] == next.0[a]);
                        assert(slide::spec_base_name(out.0[a + one.0.len()]) == x);
                    }
                }
            } else {
                assert(!seen.contains(x));
                if exists|a: int| 0 <= a < out.0.len() && slide::spec_base_name(out.0[a]) == x {
                    let a = choose|a: int|
                        0 <= a < out.0.len() && slide::spec_base_name(out.0[a]) == x;
                    if a < one.0.len() {
                        assert(out.0[a] == one.0[a]);
                        assert(one.1.contains(x));
                    } else {
                        assert(out.0[a] == next.0[a - one.0.len()]);
                        assert(next.1.contains(x));
                    }
                    assert(false);
                }
            }
        }
    }
}

/// Extension deduplication: within the collection one manifest pattern
/// selects, no two slides share a base name — a template present under
/// several recognized suffixes contributes exactly one slide.
pub proof fn lemma_collect_templates_dedup(pattern: Seq<char>, files: Seq<Seq<char>>)
    ensures
        forall|a: int, b: int|
            0 <= a < b < slide::spec_collect_templates(pattern, files).len()
                ==> slide::spec_base_name(
                #[trigger] slide::spec_collect_templates(pattern, files)[a],
            ) != slide::spec_base_name(
                #[trigger] slide::spec_collect_templates(pattern, files)[b],
            ),
{
    lemma_collect_pats_distinct(
        crate::extensions::spec_expand_pattern(pattern),
        files,
        Set::empty(),
    );
}

/// Every slide of the leading run shares the first slide's key, and the
/// run stops at a differing key.
proof fn lemma_run_len_max(s: Seq<(Seq<char>, Option<Seq<char>>)>)
    requires
        s.len() > 0,
    ensures
        forall|m: int| 0 <= m < render::run_len(s) ==> (#[trigger] s[m].1) == s[0].1,
        render::run_len(s) < s.len() ==> s[render::run_len(s) as int].1 != s[0].1,
    decreases s.len(),
{
    render::lemma_run_len_bounds(s);
    if s.len() > 1 && s[1].1 == s[0].1 {
        let rest = s.subrange(1, s.len() as int);
        lemma_run_len_max(rest);
        render::lemma_run_len_bounds(rest);
        assert forall|m: int|
            0 <= m < render::run_len(s) implies (#[trigger] s[m].1) == s[0].1 by {
            if m > 0 {
                assert(rest[m - 1].1 == rest[0].1);
            }
        }
        if render::run_len(s) < s.len() {
            assert(rest[render::run_len(rest) as int].1 != rest[0].1);
        }
    }
}

/// The numbered items of all groups, in order.
pub open spec fn groups_items(gs: Seq<(Option<Seq<char>>, Seq<(int, Seq<char>)>)>) -> Seq<
    (int, Seq<char>),
>
    decreases gs.len(),
{
    if gs.len() == 0 {
        Seq::empty()
    } else {
        gs[0].1 + groups_items(gs.subrange(1, gs.len() as int))
    }
}

/// Section adjacency: the overview's grouping partitions the slides into
/// nonempty runs whose neighbouring groups never share a key — two runs of
/// one key separated by another key stay two groups — and reading the
/// groups' items in order gives back exactly the numbered slide list.
pub proof fn lemma_groups_adjacency(s: Seq<(Seq<char>, Option<Seq<char>>)>, start: int)
    ensures
        forall|g: int|
            0 <= g < render::spec_groups(s, start).len() ==> (#[trigger] render::spec_groups(
                s,
                start,
            )[g]).1.len() > 0,
        forall|g: int|
            0 <= g < render::spec_groups(s, start).len() - 1 ==> (#[trigger] render::spec_groups(
                s,
                start,
            )[g]).0 != render::spec_groups(s, start)[g + 1].0,
        groups_items(render::spec_groups(s, start)) == render::numbered(s, start),
    decreases s.len(),
{
    let gs = render::spec_groups(s, start);
    if s.len() == 0 {
        assert(groups_items(gs) =~= render::numbered(s, start));
    } else {
        render::lemma_run_len_bounds(s);
        lemma_run_len_max(s);
        let rl = render::run_len(s) as int;
        let rest = s.subrange(rl, s.len() as int);
        let sub = render::spec_groups(rest, start + rl);
        lemma_groups_adjacency(rest, start + rl);
        assert(gs == seq![(s[0].1, render::numbered(s.subrange(0, rl), start))] + sub);
        assert(gs[0].1 =~= render::numbered(s.subrange(0, rl), start));
        assert(gs[0].1.len() == rl);
        assert forall|g: int| 0 <= g < gs.len() implies (#[trigger] gs[g]).1.len() > 0 by {
            if g > 0 {
                assert(gs[g] == sub[g - 1]);
            }
        }
        assert forall|g: int|
            0 <= g < gs.len() - 1 implies (#[trigger] gs[g]).0 != gs[g + 1].0 by {
            if g == 0 {
                if rest.len() > 0 {
                    assert(gs[1] == sub[0]);
                    assert(sub[0].0 == rest[0].1);
                    assert(rest[0] == s[rl]);
                    assert(s[rl].1 != s[0].1);
                } else {
                    assert(gs.len() == 1);
                }
            } else {
                assert(gs[g] == sub[g - 1]);
                assert(gs[g + 1] == sub[g]);
            }
        }
        assert(groups_items(gs) == gs[0].1 + groups_items(gs.subrange(1, gs.len() as int)));
        assert(gs.subrange(1, gs.len() as int) =~= sub);
        assert(groups_items(gs) == gs[0].1 + render::numbered(rest, start + rl));
        assert(gs[0].1 + render::numbered(rest, start + rl) =~= render::numbered(s, start));
    }
}

/// Decimal renderings have at least one digit, two from ten upward.
proof fn lemma_dec_str_len(n: nat)
    ensures
        text::dec_str(n).len() >= 1,
        n >= 10 ==> text::dec_str(n).len() >= 2,
    decreases n,
{
    if n >= 10 {
        lemma_dec_str_len(n / 10);
    }
}

/// Decimal rendering is injective.
proof fn lemma_dec_str_injective(m: nat, n: nat)
    requires
        text::dec_str(m) == text::dec_str(n),
    ensures
        m == n,
    decreases m,
{
    lemma_dec_str_len(m);
    lemma_dec_str_len(n);
    if m < 10 && n < 10 {
        assert(text::dec_str(m)[0] == text::dec_digit(m));
        assert(text::dec_str(n)[0] == text::dec_digit(n));
        assert(text::dec_digit(m) as int == 48 + m);
        assert(text::dec_digit(n) as int == 48 + n);
    } else if m >= 10 && n >= 10 {
        assert(text::dec_str(m) == text::dec_str(m / 10).push(text::dec_digit(m % 10)));
        assert(text::dec_str(n) == text::dec_str(n / 10).push(text::dec_digit(n % 10)));
        assert(text::dec_str(m).last() == text::dec_digit(m % 10));
        assert(text::dec_str(n).last() == text::dec_digit(n % 10));
        assert(text::dec_digit(m % 10) as int == 48 + m % 10);
        assert(text::dec_digit(n % 10) as int == 48 + n % 10);
        assert(m % 10 == n % 10);
        assert(text::dec_str(m).drop_last() =~= text::dec_str(m / 10));
        assert(text::dec_str(n).drop_last() =~= text::dec_str(n / 10));
        lemma_dec_str_injective(m / 10, n / 10);
    } else {
        assert(text::dec_str(m).len() == text::dec_str(n).len());
        if m < 10 {
            assert(text::dec_str(m).len() == 1);
            assert(false);
        } else {
            assert(text::dec_str(n).len() == 1);
            assert(false);
        }
    }
}

/// Page names are distinct for distinct numbers.
proof fn lemma_page_name_injective(a: nat, b: nat)
    requires
        render::spec_page_name(a) == render::spec_page_name(b),
    ensures
        a == b,
{
    reveal_strlit("slide-");
    reveal_strlit(".html");
    let pa = render::spec_page_name(a);
    let la = text::dec_str(a).len();
    let lb = text::dec_str(b).len();
    assert(pa.len() == 6 + la + 5);
    assert(render::spec_page_name(b).len() == 6 + lb + 5);
    assert(la == lb);
    assert(text::dec_str(a) =~= pa.subrange(6, 6 + la as int)) by {
        assert forall|i: int| 0 <= i < la implies pa[6 + i] == text::dec_str(a)[i] by {
        }
    }
    assert(text::dec_str(b) =~= render::spec_page_name(b).subrange(6, 6 + lb as int)) by {
        assert forall|i: int|
            0 <= i < lb implies render::spec_page_name(b)[6 + i] == text::dec_str(b)[i] by {
        }
    }
    assert(text::dec_str(a) == text::dec_str(b));
    lemma_dec_str_injective(a, b);
}

/// Every key of a collected page set is the page name of some slide.
proof fn lemma_collect_pages_keys(oc: Seq<Option<Seq<char>>>, k: Seq<char>)
    requires
        strmap::map_of(render::spec_collect_pages(oc)).contains_key(k),
    ensures
        exists|j: int| 0 <= j < oc.len() && k == #[trigger] render::spec_page_name((j + 1) as nat),
    decreases oc.len(),
{
    strmap::lemma_map_of_keys(render::spec_collect_pages(oc), k);
    let i = choose|i: int|
        0 <= i < render::spec_collect_pages(oc).len() && render::spec_collect_pages(oc)[i].0
            == k;
    lemma_collect_pages_entry(oc, i);
}

/// Every entry of a collected page set is keyed by the page name of some
/// slide.
proof fn lemma_collect_pages_entry(oc: Seq<Option<Seq<char>>>, i: int)
    requires
        0 <= i < render::spec_collect_pages(oc).len(),
    ensures
        exists|j: int|
            0 <= j < oc.len() && render::spec_collect_pages(oc)[i].0
                == #[trigger] render::spec_page_name((j + 1) as nat),
    decreases oc.len(),
{
    if oc.len() > 0 {
        let prefix = render::spec_collect_pages(oc.drop_last());
        if i < prefix.len() {
            lemma_collect_pages_entry(oc.drop_last(), i);
            let j = choose|j: int|
                0 <= j < oc.drop_last().len() && prefix[i].0
                    == #[trigger] render::spec_page_name((j + 1) as nat);
            assert(render::spec_collect_pages(oc)[i] == prefix[i]);
            assert(render::spec_collect_pages(oc)[i].0 == render::spec_page_name((j + 1) as nat));
        } else {
            assert(oc.last() is Some);
            assert(render::spec_collect_pages(oc)[i].0 == render::spec_page_name(
                oc.len() as nat,
            ));
            let ghost j = oc.len() - 1;
            assert(render::spec_collect_pages(oc)[i].0 == render::spec_page_name((j + 1) as nat));
        }
    }
}

/// Partial failure: whether a deck page stands in the output depends on
/// that slide's own render outcome alone — slide `i`'s page is present
/// exactly when its render succeeded, whatever happened to every other
/// slide, and it holds that slide's HTML.
pub proof fn lemma_partial_failure(oc: Seq<Option<Seq<char>>>, i: int)
    requires
        0 <= i < oc.len(),
    ensures
        strmap::map_of(render::spec_collect_pages(oc)).contains_key(
            render::spec_page_name((i + 1) as nat),
        ) <==> oc[i] is Some,
        oc[i] is Some ==> strmap::map_of(render::spec_collect_pages(oc))[render::spec_page_name(
            (i + 1) as nat,
        )] == oc[i]->0,
    decreases oc.len(),
{
    let pages = render::spec_collect_pages(oc);
    let name = render::spec_page_name((i + 1) as nat);
    let prefix = render::spec_collect_pages(oc.drop_last());
    if i == oc.len() - 1 {
        match oc.last() {
            Some(h) => {
                assert(pages =~= prefix + seq![(name, h)]);
                assert(pages.drop_last() =~= prefix);
                assert(pages.last() == (name, h));
                assert(strmap::map_of(pages) == strmap::map_of(prefix).insert(name, h));
            },
            None => {
                assert(pages =~= prefix);
                if strmap::map_of(prefix).contains_key(name) {
                    lemma_collect_pages_keys(oc.drop_last(), name);
                    let j = choose|j: int|
                        0 <= j < oc.drop_last().len() && name == #[trigger] render::spec_page_name(
                            (j + 1) as nat,
                        );
                    lemma_page_name_injective((i + 1) as nat, (j + 1) as nat);
                    assert(false);
                }
            },
        }
    } else {
        lemma_partial_failure(oc.drop_last(), i);
        match oc.last() {
            Some(h) => {
                let last_name = render::spec_page_name(oc.len() as nat);
                assert(pages =~= prefix + seq![(last_name, h)]);
                assert(pages.drop_last() =~= prefix);
                assert(pages.last() == (last_name, h));
                assert(strmap::map_of(pages) == strmap::map_of(prefix).insert(last_name, h));
                if name == last_name {
                    lemma_page_name_injective((i + 1) as nat, oc.len() as nat);
                    assert(false);
                }
                assert(oc.drop_last()[i] == oc[i]);
            },
            None => {
                assert(pages =~= prefix);
                assert(oc.drop_last()[i] == oc[i]);
            },
        }
    }
}

/// Partial failure, tied to the deck pass: in a rendered deck page set,
/// slide `i`'s page stands exactly when the render of slide `i`'s own
/// template under its own navigation state succeeded, whatever happened to
/// every other slide, and it holds that render's HTML.
pub proof fn lemma_deck_page_independence(
    m: render::EnvModel,
    slides: Seq<(Seq<char>, Option<Seq<char>>)>,
    i: int,
)
    requires
        0 <= i < slides.len(),
    ensures
        strmap::map_of(
            render::spec_collect_pages(render::deck_outcomes(m, slides, slides.len() as int)),
        ).contains_key(render::spec_page_name((i + 1) as nat)) <==> render::deck_page_of(
            m,
            slides[i].0,
            render::spec_nav(i, slides.len() as int),
        ) is Some,
        render::deck_page_of(m, slides[i].0, render::spec_nav(i, slides.len() as int)) is Some
            ==> strmap::map_of(
            render::spec_collect_pages(render::deck_outcomes(m, slides, slides.len() as int)),
        )[render::spec_page_name((i + 1) as nat)] == render::deck_page_of(
            m,
            slides[i].0,
            render::spec_nav(i, slides.len() as int),
        )->0,
{
    let oc = render::deck_outcomes(m, slides, slides.len() as int);
    assert(oc[i] == render::deck_page_of(m, slides[i].0, render::spec_nav(
        i,
        slides.len() as int,
    )));
    lemma_partial_failure(oc, i);
}

} // verus!
