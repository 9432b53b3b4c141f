//! The page renderer: four render passes — deck pages, overview, presenter
//! pages and print page — over one shared environment.
//!
//! Which templates are rendered, under which output names, with which
//! navigation context, and how a render failure of one unit is isolated
//! from the others, is verified; evaluating a template is the engine's.

use vstd::prelude::*;
use vstd::string::*;
use crate::nav::SlideNav;
use crate::slide::Slide;
use crate::strmap::StrMap;
use crate::text;

verus! {

/// What a render environment was built from: the layout registrations in
/// order, the translation map behind the locale lookup, and the raw file
/// map behind the source helper.  The engine's behaviour is a function of
/// this model, so the render results below are named over it.
pub struct EnvModel {
    pub layouts: Seq<(Seq<char>, Seq<char>)>,
    pub translations: Seq<(Seq<char>, Seq<char>)>,
    pub sources: Seq<(Seq<char>, Seq<char>)>,
}

/// The model of an environment assembled from the three maps.
pub open spec fn model_of(layouts: StrMap, translations: StrMap, sources: StrMap) -> EnvModel {
    EnvModel {
        layouts: layouts.entry_views(),
        translations: translations.entry_views(),
        sources: sources.entry_views(),
    }
}

/// The view of an optional page.
pub open spec fn opt_html(r: Option<String>) -> Option<Seq<char>> {
    match r {
        Some(h) => Some(h@),
        None => None,
    }
}

/// The navigation state of the slide at `index` in a deck of `total`, as
/// `SlideNav::new` computes it.
pub open spec fn spec_nav(index: int, total: int) -> SlideNav {
    SlideNav {
        current: (index + 1) as usize,
        prev: if index == 0 {
            None
        } else {
            Some(index as usize)
        },
        next: if index + 1 < total {
            Some((index + 2) as usize)
        } else {
            None
        },
        is_first: index == 0,
        is_last: index + 1 == total,
        total: total as usize,
    }
}

/// A render-ready environment: the engine loaded with the deck's layouts
/// and the locale's lookup, markdown, debug and source operations, together
/// with the model it was built from.  Only `setup_environment` constructs
/// one, so the model always describes the engine beside it.
pub struct RenderEnv {
    env: minijinja::Environment<'static>,
    model: Ghost<EnvModel>,
}

impl RenderEnv {
    /// The model this environment was built from.
    pub closed spec fn model(&self) -> EnvModel {
        self.model@
    }
}

/// Resolve a name through the raw-source map: the file's verbatim text, or
/// the not-found message the source helper reports.
pub fn lookup_source(sources: &StrMap, name: &str) -> (r: Result<String, String>)
    ensures
        sources@.contains_key(name@) ==> r is Ok && r->Ok_0@ == sources@[name@],
        !sources@.contains_key(name@) ==> r is Err && r->Err_0@
            == "Template not found: slides/templates/"@ + name@,
{
    match sources.get(name) {
        Some(content) => Ok(content.clone()),
        None => {
            let mut m = ("Template not found: slides/templates/").to_owned();
            m.append(name);
            Err(m)
        },
    }
}

/// Relies on `minijinja::Environment::{new, set_trim_blocks,
/// set_lstrip_blocks, set_auto_escape_callback, add_filter, add_function}`:
/// builds the engine with auto-escaping off and registers the crate's
/// locale lookup over `translations`, the markdown and dump filters, and
/// the dump and asset functions.
#[verifier::external_body]
fn new_raw_environment(translations: &StrMap) -> (r: minijinja::Environment<'static>)
{
    let mut env = minijinja::Environment::new();
    env.set_trim_blocks(true);
    env.set_lstrip_blocks(true);
    env.set_auto_escape_callback(|_| minijinja::AutoEscape::None);
    let t = translations.duplicate();
    env.add_filter(
        "trans",
        move |k: &minijinja::Value, p: Option<minijinja::Value>|
            crate::filters::apply_trans_filter(&t, k, p),
    );
    env.add_filter("markdown", crate::filters::markdown_filter);
    env.add_filter("dump", crate::filters::dump_filter);
    env.add_function("dump", crate::functions::dump_function);
    env.add_function("asset", crate::functions::asset_function);
    env
}

/// Relies on `minijinja::Environment::add_function` and the engine's error
/// constructor: registers the raw-source helper over the file map; the
/// lookup and the not-found message are the crate's verified resolver's.
#[verifier::external_body]
fn env_add_source(env: &mut minijinja::Environment<'static>, sources: &StrMap)
{
    let src = sources.duplicate();
    env.add_function(
        "source",
        move |name: String| match lookup_source(&src, name.as_str()) {
            Ok(content) => Ok(content),
            Err(message) => Err(
                minijinja::Error::new(minijinja::ErrorKind::InvalidOperation, message),
            ),
        },
    );
}

/// Relies on `minijinja::Environment::add_template_owned`: loads one
/// template source under its name; a source that fails to compile leaves
/// the environment as it was.
#[verifier::external_body]
fn env_add_template(env: &mut minijinja::Environment<'static>, name: &String, content: &String)
    -> (r: bool)
{
    env.add_template_owned(name.clone(), content.clone()).is_ok()
}

/// Assemble the render environment: the engine with the crate's operations
/// over `translations` and `sources`, loaded with every layout in order.
/// One broken template must not prevent the others from loading, so
/// registration failures are swallowed here and surface later as a render
/// failure of that template.
pub fn setup_environment(layouts: &StrMap, translations: &StrMap, sources: &StrMap) -> (r:
    RenderEnv)
    ensures
        r.model() == model_of(*layouts, *translations, *sources),
{
    let mut env = new_raw_environment(translations);
    env_add_source(&mut env, sources);
    let mut i: usize = 0;
    while i < layouts.len()
        invariant
            i <= layouts.entry_views().len(),
        decreases layouts.entry_views().len() - i,
    {
        let _loaded = env_add_template(&mut env, layouts.key_at(i), layouts.value_at(i));
        i += 1;
    }
    RenderEnv { env, model: Ghost(model_of(*layouts, *translations, *sources)) }
}

/// Relies on `minijinja::Value::{from_iter, from}`: the slide-scoped
/// navigation object, fields `current`, `prev`, `next`, `isFirst`,
/// `isLast`.
#[verifier::external_body]
fn slide_nav_value(nav: &SlideNav) -> (r: minijinja::Value)
{
    minijinja::Value::from_iter([
        ("current", minijinja::Value::from(nav.current)),
        ("prev", minijinja::Value::from(nav.prev)),
        ("next", minijinja::Value::from(nav.next)),
        ("isFirst", minijinja::Value::from(nav.is_first)),
        ("isLast", minijinja::Value::from(nav.is_last)),
    ])
}

/// Relies on `minijinja::Value::{from_iter, from}`: the app-scoped object,
/// fields `total`, `first`, `last`.
#[verifier::external_body]
fn app_total_value(total: usize) -> (r: minijinja::Value)
{
    minijinja::Value::from_iter([
        ("total", minijinja::Value::from(total)),
        ("first", minijinja::Value::from(1u32)),
        ("last", minijinja::Value::from(total)),
    ])
}

/// Relies on `minijinja::Value::{from_iter, from}`: the full deck-page
/// context — the app and slide objects plus the legacy uppercase variables.
#[verifier::external_body]
fn deck_context_value(nav: &SlideNav) -> (r: minijinja::Value)
{
    minijinja::Value::from_iter([
        ("app", app_total_value(nav.total)),
        ("slide", slide_nav_value(nav)),
        ("CURRENT", minijinja::Value::from(nav.current)),
        ("TOTAL", minijinja::Value::from(nav.total)),
        ("PREV", minijinja::Value::from(nav.prev)),
        ("NEXT", minijinja::Value::from(nav.next)),
    ])
}

/// What the engine yields for one deck page: the named template evaluated
/// under the full deck-page context of the given navigation state, in the
/// environment the model describes; `None` for a missing, non-compiling or
/// failing template.  The engine's evaluation is deterministic in these
/// arguments, so the result is a function of them.
pub uninterp spec fn deck_page_of(m: EnvModel, template: Seq<char>, nav: SlideNav) -> Option<
    Seq<char>,
>;

/// Relies on `minijinja::Environment::get_template` and
/// `Template::render` under the deck-page context (the app and slide
/// objects plus the legacy uppercase variables, all built from `nav`): the
/// page's HTML, or `None` when the template is missing or fails.
#[verifier::external_body]
fn render_deck_page(env: &RenderEnv, template: &String, nav: &SlideNav) -> (r: Option<String>)
    ensures
        opt_html(r) == deck_page_of(env.model(), template@, *nav),
{
    let ctx = deck_context_value(nav);
    match env.env.get_template(template.as_str()) {
        Ok(t) => t.render(&ctx).ok(),
        Err(_) => None,
    }
}

/// The output name of a deck page: `slide-{n}.html`.
pub open spec fn spec_page_name(n: nat) -> Seq<char> {
    "slide-"@ + text::dec_str(n) + ".html"@
}

/// Render the output name of a deck page.
pub fn page_key(n: usize) -> (r: String)
    ensures
        r@ == spec_page_name(n as nat),
{
    let mut s = ("slide-").to_owned();
    s.append(text::usize_to_string(n).as_str());
    s.append(".html");
    s
}

/// The page set induced by one render outcome per slide, in slide order:
/// slide `i` contributes `slide-{i+1}.html` exactly when its render
/// succeeded, independent of every other slide's outcome.
pub open spec fn spec_collect_pages(oc: Seq<Option<Seq<char>>>) -> Seq<(Seq<char>, Seq<char>)>
    decreases oc.len(),
{
    if oc.len() == 0 {
        Seq::empty()
    } else {
        spec_collect_pages(oc.drop_last()) + (match oc.last() {
            Some(h) => seq![(spec_page_name(oc.len() as nat), h)],
            None => Seq::<(Seq<char>, Seq<char>)>::empty(),
        })
    }
}

/// The per-slide outcomes of the deck pass: slide `i`'s own template
/// rendered under its navigation state, in the environment the model
/// describes.
pub open spec fn deck_outcomes(
    m: EnvModel,
    slides: Seq<(Seq<char>, Option<Seq<char>>)>,
    total: int,
) -> Seq<Option<Seq<char>>> {
    Seq::new(slides.len(), |i: int| deck_page_of(m, slides[i].0, spec_nav(i, total)))
}

/// Render the deck pages: each slide's own template under the full
/// navigation context, keyed `slide-{n}.html`.  A slide whose template is
/// missing or fails to render is skipped; the other slides still render,
/// and the result is a function of the layouts, translations, sources and
/// slide list alone.
#[verifier::loop_isolation(false)]
pub fn render_deck_pages(
    slides: &Vec<Slide>,
    layouts: &StrMap,
    translations: &StrMap,
    sources: &StrMap,
) -> (r: StrMap)
    ensures
        r.entry_views() == spec_collect_pages(
            deck_outcomes(
                model_of(*layouts, *translations, *sources),
                slides@.map_values(|s: Slide| s@),
                slides@.len() as int,
            ),
        ),
{
    let env = setup_environment(layouts, translations, sources);
    let ghost m = env.model();
    let ghost svs = slides@.map_values(|s: Slide| s@);
    let total = slides.len();
    let mut pages = StrMap::new();
    let ghost mut oc = Seq::<Option<Seq<char>>>::empty();
    let mut index: usize = 0;
    proof {
        assert(pages.entry_views() =~= spec_collect_pages(oc));
    }
    while index < total
        invariant
            index <= total,
            oc.len() == index,
            oc =~= deck_outcomes(m, svs, total as int).subrange(0, index as int),
            pages.entry_views() == spec_collect_pages(oc),
        decreases total - index,
    {
        let nav = SlideNav::new(index, total);
        proof {
            assert(nav == spec_nav(index as int, total as int));
        }
        let ghost pages0 = pages.entry_views();
        let ghost outcome = deck_page_of(m, svs[index as int].0, spec_nav(
            index as int,
            total as int,
        ));
        match render_deck_page(&env, &slides[index].template, &nav) {
            Some(html) => {
                let ghost h = html@;
                let ghost oc0 = oc;
                pages.insert(page_key(nav.current), html);
                proof {
                    assert(outcome == Some(h));
                    oc = oc0.push(Some(h));
                    assert(oc.drop_last() =~= oc0);
                    assert(oc.last() == Some(h));
                    assert(spec_collect_pages(oc) == spec_collect_pages(oc0) + seq![
                        (spec_page_name(oc.len() as nat), h),
                    ]);
                    assert(pages.entry_views() =~= pages0 + seq![
                        (spec_page_name((index + 1) as nat), h),
                    ]);
                    assert(pages.entry_views() =~= spec_collect_pages(oc));
                    assert(oc =~= deck_outcomes(m, svs, total as int).subrange(
                        0,
                        index as int + 1,
                    ));
                }
            },
            None => {
                let ghost oc0 = oc;
                proof {
                    assert(outcome is None);
                    oc = oc0.push(None);
                    assert(oc.drop_last() =~= oc0);
                    assert(spec_collect_pages(oc) == spec_collect_pages(oc0) + Seq::<
                        (Seq<char>, Seq<char>),
                    >::empty());
                    assert(spec_collect_pages(oc0) + Seq::<(Seq<char>, Seq<char>)>::empty()
                        =~= spec_collect_pages(oc0));
                    assert(oc =~= deck_outcomes(m, svs, total as int).subrange(
                        0,
                        index as int + 1,
                    ));
                }
            },
        }
        index += 1;
    }
    proof {
        assert(deck_outcomes(m, svs, total as int).subrange(
            0,
            deck_outcomes(m, svs, total as int).len() as int,
        ) =~= deck_outcomes(m, svs, total as int));
    }
    pages
}

/// A run of consecutive slides sharing one section key, as handed to the
/// overview template: the key and the ordered (number, template) items.
pub struct SectionGroup {
    pub key: Option<String>,
    pub slides: Vec<(usize, String)>,
}

impl View for SectionGroup {
    type V = (Option<Seq<char>>, Seq<(int, Seq<char>)>);

    open spec fn view(&self) -> (Option<Seq<char>>, Seq<(int, Seq<char>)>) {
        (
            match self.key {
                Some(k) => Some(k@),
                None => None,
            },
            self.slides@.map_values(|p: (usize, String)| (p.0 as int, p.1@)),
        )
    }
}

/// The length of the leading run of slides sharing the first slide's key.
pub open spec fn run_len(s: Seq<(Seq<char>, Option<Seq<char>>)>) -> nat
    decreases s.len(),
{
    if s.len() <= 1 {
        s.len()
    } else if s[1].1 == s[0].1 {
        1 + run_len(s.subrange(1, s.len() as int))
    } else {
        1
    }
}

/// The slides of a run, numbered from `start`.
pub open spec fn numbered(s: Seq<(Seq<char>, Option<Seq<char>>)>, start: int) -> Seq<
    (int, Seq<char>),
> {
    s.map(|i: int, sv: (Seq<char>, Option<Seq<char>>)| (start + i, sv.0))
}

/// The groups of consecutive runs of identical section key, numbering the
/// slides from `start`: adjacency grouping, not a global grouping — two
/// runs of the same key separated by another key stay two groups.
pub open spec fn spec_groups(s: Seq<(Seq<char>, Option<Seq<char>>)>, start: int) -> Seq<
    (Option<Seq<char>>, Seq<(int, Seq<char>)>),
>
    decreases s.len()
        via spec_groups_decreases
{
    if s.len() == 0 {
        Seq::empty()
    } else {
        seq![(s[0].1, numbered(s.subrange(0, run_len(s) as int), start))] + spec_groups(
            s.subrange(run_len(s) as int, s.len() as int),
            start + run_len(s),
        )
    }
}

/// The leading run of a nonempty list has between one and all of its
/// elements.
pub proof fn lemma_run_len_bounds(s: Seq<(Seq<char>, Option<Seq<char>>)>)
    requires
        s.len() > 0,
    ensures
        1 <= run_len(s) <= s.len(),
    decreases s.len(),
{
    if s.len() > 1 && s[1].1 == s[0].1 {
        lemma_run_len_bounds(s.subrange(1, s.len() as int));
    }
}

#[via_fn]
proof fn spec_groups_decreases(s: Seq<(Seq<char>, Option<Seq<char>>)>, start: int) {
    if s.len() > 0 {
        lemma_run_len_bounds(s);
    }
}

/// A maximal all-equal prefix is the leading run.
proof fn lemma_run_len_is(s: Seq<(Seq<char>, Option<Seq<char>>)>, r: int)
    requires
        0 < r <= s.len(),
        forall|m: int| 0 <= m < r ==> (#[trigger] s[m].1) == s[0].1,
        r < s.len() ==> s[r].1 != s[0].1,
    ensures
        run_len(s) == r,
    decreases r,
{
    if r == 1 {
        if s.len() > 1 {
            assert(s[1].1 != s[0].1);
        }
    } else {
        let rest = s.subrange(1, s.len() as int);
        assert(s[1].1 == s[0].1);
        assert forall|m: int| 0 <= m < r - 1 implies (#[trigger] rest[m].1) == rest[0].1 by {
            assert(rest[m] == s[m + 1]);
            assert(rest[0] == s[1]);
        }
        assert(r - 1 < rest.len() ==> rest[r - 1].1 != rest[0].1);
        lemma_run_len_is(rest, r - 1);
    }
}

/// Compare the section keys of two slides.
fn section_eq(a: &Slide, b: &Slide) -> (r: bool)
    ensures
        r == (a@.1 == b@.1),
{
    match (&a.section_key, &b.section_key) {
        (None, None) => true,
        (Some(x), Some(y)) => text::str_eq(x.as_str(), y.as_str()),
        _ => false,
    }
}

/// Group the slides into consecutive runs of identical section key, with
/// their 1-based numbers.
#[verifier::loop_isolation(false)]
pub fn group_sections(slides: &Vec<Slide>) -> (r: Vec<SectionGroup>)
    ensures
        r@.map_values(|g: SectionGroup| g@) == spec_groups(
            slides@.map_values(|s: Slide| s@),
            1,
        ),
{
    let ghost svs = slides@.map_values(|s: Slide| s@);
    let n = slides.len();
    let mut out: Vec<SectionGroup> = Vec::new();
    let mut i: usize = 0;
    proof {
        assert(svs.subrange(0, svs.len() as int) =~= svs);
        assert(out@.map_values(|g: SectionGroup| g@) + spec_groups(svs, 1) =~= spec_groups(
            svs,
            1,
        ));
    }
    while i < n
        invariant
            i <= n,
            spec_groups(svs, 1) == out@.map_values(|g: SectionGroup| g@) + spec_groups(
                svs.subrange(i as int, svs.len() as int),
                1 + i,
            ),
        decreases n - i,
    {
        let ghost rem = svs.subrange(i as int, svs.len() as int);
        let mut j: usize = i + 1;
        while j < n && section_eq(&slides[j], &slides[i])
            invariant
                i < j <= n,
                forall|m: int| i <= m < j ==> (#[trigger] svs[m]).1 == svs[i as int].1,
            decreases n - j,
        {
            j += 1;
        }
        proof {
            assert forall|m: int| 0 <= m < j - i implies (#[trigger] rem[m].1) == rem[0].1 by {
                assert(rem[m] == svs[i + m]);
                assert(rem[0] == svs[i as int]);
            }
            assert(j - i < rem.len() ==> rem[j - i].1 != rem[0].1) by {
                if j < n {
                    assert(rem[j - i] == svs[j as int]);
                }
            }
            lemma_run_len_is(rem, j - i);
        }
        let mut items: Vec<(usize, String)> = Vec::new();
        let mut m: usize = i;
        while m < j
            invariant
                i <= m <= j,
                j <= n,
                items@.len() == m - i,
                forall|t: int| 0 <= t < m - i ==> (#[trigger] items@[t]).0 == i + t + 1
                    && items@[t].1@ == svs[i + t].0,
            decreases j - m,
        {
            items.push((m + 1, slides[m].template.clone()));
            m += 1;
        }
        let key = match &slides[i].section_key {
            Some(k) => Some(k.clone()),
            None => None,
        };
        let ghost out0 = out@.map_values(|g: SectionGroup| g@);
        let group = SectionGroup { key, slides: items };
        proof {
            assert(group@.0 == svs[i as int].1);
            assert(group@.1 =~= numbered(rem.subrange(0, (j - i) as int), 1 + i)) by {
                assert forall|t: int| 0 <= t < j - i implies group@.1[t] == (
                    numbered(rem.subrange(0, (j - i) as int), 1 + i)
                )[t] by {
                    assert(rem.subrange(0, (j - i) as int)[t] == svs[i + t]);
                }
                assert(group@.1.len() == j - i);
            }
        }
        out.push(group);
        proof {
            assert(spec_groups(rem, 1 + i) == seq![
                (rem[0].1, numbered(rem.subrange(0, (j - i) as int), 1 + i)),
            ] + spec_groups(rem.subrange((j - i) as int, rem.len() as int), 1 + i + (j - i)));
            assert(rem[0].1 == svs[i as int].1);
            assert(rem.subrange((j - i) as int, rem.len() as int) =~= svs.subrange(
                j as int,
                svs.len() as int,
            ));
            assert(out@.map_values(|g: SectionGroup| g@) =~= out0.push(group@));
            assert(out0.push(group@) =~= out0 + seq![group@]);
            assert((out0 + seq![group@]) + spec_groups(svs.subrange(j as int, svs.len() as int), 1
                + j) =~= out0 + (seq![group@] + spec_groups(
                svs.subrange(j as int, svs.len() as int),
                1 + j,
            )));
            assert(seq![group@] + spec_groups(svs.subrange(j as int, svs.len() as int), 1 + j)
                =~= spec_groups(rem, 1 + i));
        }
        i = j;
    }
    proof {
        assert(svs.subrange(svs.len() as int, svs.len() as int) =~= Seq::<
            (Seq<char>, Option<Seq<char>>),
        >::empty());
        assert(out@.map_values(|g: SectionGroup| g@) + Seq::<
            (Option<Seq<char>>, Seq<(int, Seq<char>)>),
        >::empty() =~= out@.map_values(|g: SectionGroup| g@));
    }
    out
}

/// Relies on `minijinja::Value::{from_iter, from}`: one (number, template)
/// entry for an overview or print listing.
#[verifier::external_body]
fn slide_entry_value(number: usize, template: &String) -> (r: minijinja::Value)
{
    minijinja::Value::from_iter([
        ("number", minijinja::Value::from(number)),
        ("template", minijinja::Value::from(template.clone())),
    ])
}

/// Relies on `minijinja::Value::{from_iter, from}`: one section object for
/// the overview template — its key (empty text for none) and its slides.
#[verifier::external_body]
fn section_value(group: &SectionGroup) -> (r: minijinja::Value)
{
    let mut slides: Vec<minijinja::Value> = Vec::new();
    for it in group.slides.iter() {
        slides.push(slide_entry_value(it.0, &it.1));
    }
    let key = match &group.key {
        Some(k) => k.clone(),
        None => String::new(),
    };
    minijinja::Value::from_iter([
        ("key", minijinja::Value::from(key)),
        ("slides", minijinja::Value::from(slides)),
    ])
}

/// What the engine yields for the overview page: the template registered
/// as `overview.html` evaluated under the given section groups (a group's
/// absent key shown as empty text) and the deck size, in the environment
/// the model describes; `None` for a missing or failing template.
pub uninterp spec fn overview_of(
    m: EnvModel,
    sections: Seq<(Option<Seq<char>>, Seq<(int, Seq<char>)>)>,
    total: int,
) -> Option<Seq<char>>;

/// Relies on `minijinja::Value::from_iter`, `Environment::get_template`
/// and `Template::render`: the overview page under its section groups and
/// the deck size.
#[verifier::external_body]
fn render_overview_call(env: &RenderEnv, groups: &Vec<SectionGroup>, total: usize) -> (r: Option<
    String,
>)
    ensures
        opt_html(r) == overview_of(
            env.model(),
            groups@.map_values(|g: SectionGroup| g@),
            total as int,
        ),
{
    let mut sections: Vec<minijinja::Value> = Vec::new();
    for g in groups.iter() {
        sections.push(section_value(g));
    }
    let ctx = minijinja::Value::from_iter([
        ("app", app_total_value(total)),
        ("sections", minijinja::Value::from(sections)),
    ]);
    match env.env.get_template("overview.html") {
        Ok(t) => t.render(&ctx).ok(),
        Err(_) => None,
    }
}

/// Render the overview page, if an `overview.html` template is registered:
/// the slides grouped by consecutive runs of identical section key.  Its
/// absence is not an error; a render failure yields no page.
pub fn render_overview(
    layouts: &StrMap,
    translations: &StrMap,
    slides: &Vec<Slide>,
    sources: &StrMap,
) -> (r: Option<String>)
    ensures
        !layouts@.contains_key("overview.html"@) ==> r is None,
        layouts@.contains_key("overview.html"@) ==> opt_html(r) == overview_of(
            model_of(*layouts, *translations, *sources),
            spec_groups(slides@.map_values(|s: Slide| s@), 1),
            slides@.len() as int,
        ),
{
    if !layouts.contains_key("overview.html") {
        return None;
    }
    let env = setup_environment(layouts, translations, sources);
    let groups = group_sections(slides);
    render_overview_call(&env, &groups, slides.len())
}

/// What the engine yields for the print page: the template registered as
/// `print.html` evaluated under the numbered slide list and the deck size,
/// in the environment the model describes; `None` for a missing or failing
/// template.
pub uninterp spec fn print_of(m: EnvModel, slides: Seq<(int, Seq<char>)>, total: int) -> Option<
    Seq<char>,
>;

/// Relies on `minijinja::Value::from_iter`, `Environment::get_template`
/// and `Template::render`: the print page under the full numbered slide
/// list and the deck size.
#[verifier::external_body]
fn render_print_call(env: &RenderEnv, items: &Vec<(usize, String)>, total: usize) -> (r: Option<
    String,
>)
    ensures
        opt_html(r) == print_of(
            env.model(),
            items@.map_values(|p: (usize, String)| (p.0 as int, p.1@)),
            total as int,
        ),
{
    let mut slides: Vec<minijinja::Value> = Vec::new();
    for it in items.iter() {
        slides.push(slide_entry_value(it.0, &it.1));
    }
    let ctx = minijinja::Value::from_iter([
        ("app", app_total_value(total)),
        ("slides", minijinja::Value::from(slides)),
    ]);
    match env.env.get_template("print.html") {
        Ok(t) => t.render(&ctx).ok(),
        Err(_) => None,
    }
}

/// Render the print page, if a `print.html` template is registered: the
/// full ordered slide list with numbers and templates.  Its absence is not
/// an error; a render failure yields no page.
#[verifier::loop_isolation(false)]
pub fn render_print(
    layouts: &StrMap,
    translations: &StrMap,
    slides: &Vec<Slide>,
    sources: &StrMap,
) -> (r: Option<String>)
    ensures
        !layouts@.contains_key("print.html"@) ==> r is None,
        layouts@.contains_key("print.html"@) ==> opt_html(r) == print_of(
            model_of(*layouts, *translations, *sources),
            numbered(slides@.map_values(|s: Slide| s@), 1),
            slides@.len() as int,
        ),
{
    if !layouts.contains_key("print.html") {
        return None;
    }
    let env = setup_environment(layouts, translations, sources);
    let mut items: Vec<(usize, String)> = Vec::new();
    let mut i: usize = 0;
    while i < slides.len()
        invariant
            i <= slides@.len(),
            items@.len() == i,
            forall|t: int| 0 <= t < i ==> (#[trigger] items@[t]).0 == t + 1 && items@[t].1@
                == slides@[t]@.0,
        decreases slides@.len() - i,
    {
        items.push((i + 1, slides[i].template.clone()));
        i += 1;
    }
    proof {
        assert(items@.map_values(|p: (usize, String)| (p.0 as int, p.1@)) =~= numbered(
            slides@.map_values(|s: Slide| s@),
            1,
        ));
    }
    render_print_call(&env, &items, slides.len())
}

/// What the engine yields for a slide's `notes` block: the slide's own
/// template evaluated to its render state under the app/slide context, and
/// the block rendered from that state, in the environment the model
/// describes; `None` for a missing or failing template or an absent block.
pub uninterp spec fn notes_block_of(
    m: EnvModel,
    template: Seq<char>,
    current: int,
    total: int,
) -> Option<Seq<char>>;

/// Relies on `minijinja::Template::eval_to_state` and
/// `State::render_block`: evaluate a slide's template to its render state
/// and render its `notes` block, if both succeed.
#[verifier::external_body]
fn eval_notes_block(env: &RenderEnv, template: &String, current: usize, total: usize) -> (r:
    Option<String>)
    ensures
        opt_html(r) == notes_block_of(env.model(), template@, current as int, total as int),
{
    let ctx = minijinja::Value::from_iter([
        ("app", app_total_value(total)),
        ("slide", minijinja::Value::from_iter([("current", minijinja::Value::from(current))])),
    ]);
    let tmpl = match env.env.get_template(template.as_str()) {
        Ok(t) => t,
        Err(_) => { return None },
    };
    let mut state = match tmpl.eval_to_state(&ctx) {
        Ok(s) => s,
        Err(_) => { return None },
    };
    state.render_block("notes").ok()
}

/// The notes text of a slide: the markdown conversion of its `notes`
/// block, or empty text when the block is absent or its evaluation fails.
pub open spec fn spec_notes(m: EnvModel, template: Seq<char>, current: int, total: int) -> Seq<
    char,
> {
    match notes_block_of(m, template, current, total) {
        Some(t) => crate::markdown::spec_markdown_html(t),
        None => Seq::empty(),
    }
}

/// Extract a slide's speaker notes: the `notes` block of its own template,
/// evaluated to an intermediate render state and converted through the
/// markdown operation; an absent block or a failing evaluation yields empty
/// notes rather than an error.
pub fn extract_slide_notes(env: &RenderEnv, template: &String, current: usize, total: usize) -> (
    r: String)
    ensures
        r@ == spec_notes(env.model(), template@, current as int, total as int),
{
    match eval_notes_block(env, template, current, total) {
        Some(raw) => crate::markdown::markdown_to_html(raw.as_str()),
        None => String::new(),
    }
}

/// What the engine yields for one presenter page: the template registered
/// as `presenter.html` evaluated under the navigation state, the notes text
/// and the output-path marker the asset helper reads, in the environment
/// the model describes; `None` for a missing or failing template.
pub uninterp spec fn presenter_page_of(
    m: EnvModel,
    nav: SlideNav,
    notes: Seq<char>,
    output_path: Seq<char>,
) -> Option<Seq<char>>;

/// Relies on `minijinja::Value::{from_iter, from}`,
/// `Environment::get_template` and `Template::render`: one presenter page
/// under the navigation context, the extracted notes and the output-path
/// marker.
#[verifier::external_body]
fn render_presenter_call(
    env: &RenderEnv,
    nav: &SlideNav,
    notes: &String,
    output_path: &String,
) -> (r: Option<String>)
    ensures
        opt_html(r) == presenter_page_of(env.model(), *nav, notes@, output_path@),
{
    let ctx = minijinja::Value::from_iter([
        ("app", app_total_value(nav.total)),
        ("slide", slide_nav_value(nav)),
        ("notes", minijinja::Value::from(notes.clone())),
        ("_output_path", minijinja::Value::from(output_path.clone())),
    ]);
    match env.env.get_template("presenter.html") {
        Ok(t) => t.render(&ctx).ok(),
        Err(_) => None,
    }
}

/// The per-slide outcomes of the presenter pass: for slide `i`, the
/// presenter template rendered under its navigation state, its extracted
/// notes and its `presenter/slide-{i+1}.html` output-path marker.
pub open spec fn presenter_outcomes(
    m: EnvModel,
    slides: Seq<(Seq<char>, Option<Seq<char>>)>,
    total: int,
) -> Seq<Option<Seq<char>>> {
    Seq::new(
        slides.len(),
        |i: int|
            presenter_page_of(
                m,
                spec_nav(i, total),
                spec_notes(m, slides[i].0, i + 1, total),
                "presenter/"@ + spec_page_name((i + 1) as nat),
            ),
    )
}

/// Render the presenter pages, if a `presenter.html` template is
/// registered: one page per slide with its speaker notes, keyed
/// `slide-{n}.html` for placement under the presenter directory.  A slide
/// whose page fails to render is skipped; the others still render, and the
/// result is a function of the layouts, translations, sources and slide
/// list alone.
#[verifier::loop_isolation(false)]
pub fn render_presenter_pages(
    layouts: &StrMap,
    translations: &StrMap,
    slides: &Vec<Slide>,
    sources: &StrMap,
) -> (r: StrMap)
    ensures
        !layouts@.contains_key("presenter.html"@) ==> r.entry_views() == Seq::<
            (Seq<char>, Seq<char>),
        >::empty(),
        layouts@.contains_key("presenter.html"@) ==> r.entry_views() == spec_collect_pages(
            presenter_outcomes(
                model_of(*layouts, *translations, *sources),
                slides@.map_values(|s: Slide| s@),
                slides@.len() as int,
            ),
        ),
{
    let mut pages = StrMap::new();
    if !layouts.contains_key("presenter.html") {
        return pages;
    }
    let env = setup_environment(layouts, translations, sources);
    let ghost m = env.model();
    let ghost svs = slides@.map_values(|s: Slide| s@);
    let total = slides.len();
    let ghost mut oc = Seq::<Option<Seq<char>>>::empty();
    let mut index: usize = 0;
    proof {
        assert(pages.entry_views() =~= spec_collect_pages(oc));
    }
    while index < total
        invariant
            index <= total,
            oc.len() == index,
            oc =~= presenter_outcomes(m, svs, total as int).subrange(0, index as int),
            pages.entry_views() == spec_collect_pages(oc),
        decreases total - index,
    {
        let nav = SlideNav::new(index, total);
        proof {
            assert(nav == spec_nav(index as int, total as int));
        }
        let notes = extract_slide_notes(&env, &slides[index].template, nav.current, total);
        let mut output_path = ("presenter/").to_owned();
        output_path.append(page_key(nav.current).as_str());
        let ghost pages0 = pages.entry_views();
        let ghost outcome = presenter_page_of(
            m,
            spec_nav(index as int, total as int),
            spec_notes(m, svs[index as int].0, index as int + 1, total as int),
            "presenter/"@ + spec_page_name((index + 1) as nat),
        );
        proof {
            assert(notes@ == spec_notes(m, svs[index as int].0, index as int + 1, total as int));
            assert(output_path@ == "presenter/"@ + spec_page_name((index + 1) as nat));
        }
        match render_presenter_call(&env, &nav, &notes, &output_path) {
            Some(html) => {
                let ghost h = html@;
                let ghost oc0 = oc;
                pages.insert(page_key(nav.current), html);
                proof {
                    assert(outcome == Some(h));
                    oc = oc0.push(Some(h));
                    assert(oc.drop_last() =~= oc0);
                    assert(oc.last() == Some(h));
                    assert(spec_collect_pages(oc) == spec_collect_pages(oc0) + seq![
                        (spec_page_name(oc.len() as nat), h),
                    ]);
                    assert(pages.entry_views() =~= pages0 + seq![
                        (spec_page_name((index + 1) as nat), h),
                    ]);
                    assert(pages.entry_views() =~= spec_collect_pages(oc));
                    assert(oc =~= presenter_outcomes(m, svs, total as int).subrange(
                        0,
                        index as int + 1,
                    ));
                }
            },
            None => {
                let ghost oc0 = oc;
                proof {
                    assert(outcome is None);
                    oc = oc0.push(None);
                    assert(oc.drop_last() =~= oc0);
                    assert(spec_collect_pages(oc) == spec_collect_pages(oc0) + Seq::<
                        (Seq<char>, Seq<char>),
                    >::empty());
                    assert(spec_collect_pages(oc0) + Seq::<(Seq<char>, Seq<char>)>::empty()
                        =~= spec_collect_pages(oc0));
                    assert(oc =~= presenter_outcomes(m, svs, total as int).subrange(
                        0,
                        index as int + 1,
                    ));
                }
            },
        }
        index += 1;
    }
    proof {
        assert(presenter_outcomes(m, svs, total as int).subrange(
            0,
            presenter_outcomes(m, svs, total as int).len() as int,
        ) =~= presenter_outcomes(m, svs, total as int));
    }
    pages
}

} // verus!
