//! Render-time functions: the asset-path helper and the debug dump.

use vstd::prelude::*;
use vstd::string::*;
use crate::engine;
use crate::filters;
use crate::text;

verus! {

/// The number of separators in an output path: how many directories deep
/// the page being rendered lies below the output root.
pub open spec fn spec_depth(p: Seq<char>) -> nat
    decreases p.len(),
{
    if p.len() == 0 {
        0
    } else {
        (if p[0] == '/' {
            1nat
        } else {
            0nat
        }) + spec_depth(p.subrange(1, p.len() as int))
    }
}

/// `unit` repeated `n` times.
pub open spec fn spec_repeat(unit: Seq<char>, n: nat) -> Seq<char>
    decreases n,
{
    if n == 0 {
        Seq::empty()
    } else {
        unit + spec_repeat(unit, (n - 1) as nat)
    }
}

/// The relative path from a page to an asset: one `../` step per directory
/// the page lies below the output root, then `assets/` and the file's name.
/// An empty name yields the bare asset directory.
pub open spec fn spec_asset_path(output_path: Option<Seq<char>>, filename: Seq<char>) -> Seq<
    char,
> {
    if filename.len() == 0 {
        "assets/"@
    } else {
        spec_repeat(
            "../"@,
            match output_path {
                Some(p) => spec_depth(p),
                None => 0,
            },
        ) + "assets/"@ + filename
    }
}

/// Count the separators in a path.
#[verifier::loop_isolation(false)]
fn count_separators(p: &Vec<char>) -> (r: usize)
    ensures
        r == spec_depth(p@),
{
    let mut cnt: usize = 0;
    let mut i: usize = 0;
    proof {
        assert(p@.subrange(0, p@.len() as int) =~= p@);
    }
    while i < p.len()
        invariant
            i <= p@.len(),
            cnt <= i,
            spec_depth(p@) == cnt + spec_depth(p@.subrange(i as int, p@.len() as int)),
        decreases p@.len() - i,
    {
        let ghost rem = p@.subrange(i as int, p@.len() as int);
        proof {
            assert(rem[0] == p@[i as int]);
            assert(rem.subrange(1, rem.len() as int) =~= p@.subrange(
                i as int + 1,
                p@.len() as int,
            ));
        }
        if p[i] == '/' {
            cnt += 1;
        }
        i += 1;
    }
    proof {
        assert(p@.subrange(p@.len() as int, p@.len() as int) =~= Seq::<char>::empty());
    }
    cnt
}

/// Compute the asset path for a page `depth` directories below the output
/// root.
#[verifier::loop_isolation(false)]
pub fn asset_path(output_path: Option<&String>, filename: &str) -> (r: String)
    ensures
        r@ == spec_asset_path(
            match output_path {
                Some(p) => Some(p@),
                None => None,
            },
            filename@,
        ),
{
    if filename.unicode_len() == 0 {
        return ("assets/").to_owned();
    }
    let depth = match output_path {
        Some(p) => count_separators(&text::to_chars(p.as_str())),
        None => 0,
    };
    let ghost d = depth as nat;
    let mut out: Vec<char> = Vec::new();
    let dots = text::to_chars("../");
    let mut k: usize = 0;
    proof {
        reveal_strlit("../");
        assert(out@ =~= spec_repeat("../"@, 0));
    }
    while k < depth
        invariant
            k <= depth,
            dots@ == "../"@,
            out@ == spec_repeat("../"@, k as nat),
        decreases depth - k,
    {
        text::extend_chars(&mut out, &dots);
        proof {
            assert(spec_repeat("../"@, (k + 1) as nat) =~= spec_repeat("../"@, k as nat)
                + "../"@) by {
                lemma_repeat_snoc("../"@, k as nat);
            }
        }
        k += 1;
    }
    let prefix = text::from_chars(&out);
    let mut r = prefix;
    r.append("assets/");
    r.append(filename);
    r
}

/// Repetition grows the same at either end.
proof fn lemma_repeat_snoc(unit: Seq<char>, n: nat)
    ensures
        spec_repeat(unit, n + 1) == spec_repeat(unit, n) + unit,
    decreases n,
{
    if n == 0 {
        assert(spec_repeat(unit, 0) == Seq::<char>::empty());
        assert(spec_repeat(unit, 1) == unit + spec_repeat(unit, 0));
        assert(unit + Seq::<char>::empty() =~= unit);
        assert(spec_repeat(unit, 0) + unit =~= unit);
    } else {
        lemma_repeat_snoc(unit, (n - 1) as nat);
        assert(spec_repeat(unit, n + 1) == unit + spec_repeat(unit, n));
        assert(unit + (spec_repeat(unit, (n - 1) as nat) + unit) =~= (unit + spec_repeat(
            unit,
            (n - 1) as nat,
        )) + unit);
    }
}

/// Relies on `minijinja::State::lookup` and `Value::as_str`: the named
/// ambient variable's text, if it is set and is a string.
#[verifier::external_body]
fn state_lookup_str<'a, 'b>(state: &minijinja::State<'a, 'b>, name: &str) -> (r: Option<String>)
{
    state.lookup(name).and_then(|v| v.as_str().map(|s| s.to_string()))
}

/// The asset-path helper: resolve an asset's name to a path relative to the
/// page being rendered, using the ambient output-path marker to decide how
/// many directories to step up.
pub fn asset_function<'a, 'b>(state: &minijinja::State<'a, 'b>, filename: String) -> (r: String)
    ensures
        exists|p: Option<Seq<char>>| r@ == spec_asset_path(p, filename@),
        filename@.len() == 0 ==> r@ == "assets/"@,
{
    let marker = state_lookup_str(state, "_output_path");
    let r = asset_path(marker.as_ref(), filename.as_str());
    proof {
        let ghost pview = match marker {
            Some(p) => Some(p@),
            None => None,
        };
        assert(r@ == spec_asset_path(pview, filename@));
    }
    r
}

/// The ambient context variables the argument-less dump shows: the deck
/// pages' app and slide objects and the legacy uppercase variables, in this
/// order.
pub fn dump_context_names() -> (r: Vec<String>)
    ensures
        r@.map_values(|s: String| s@) == seq![
            "app"@,
            "slide"@,
            "CURRENT"@,
            "TOTAL"@,
            "PREV"@,
            "NEXT"@,
        ],
{
    let mut r: Vec<String> = Vec::new();
    r.push(("app").to_owned());
    r.push(("slide").to_owned());
    r.push(("CURRENT").to_owned());
    r.push(("TOTAL").to_owned());
    r.push(("PREV").to_owned());
    r.push(("NEXT").to_owned());
    proof {
        assert(r@.map_values(|s: String| s@) =~= seq![
            "app"@,
            "slide"@,
            "CURRENT"@,
            "TOTAL"@,
            "PREV"@,
            "NEXT"@,
        ]);
    }
    r
}

/// Relies on `minijinja::State::lookup` and `serde_json::{to_value,
/// to_string_pretty}`: the pretty JSON of the map from each given name to
/// the render state's value under it, names absent from the state or
/// failing serialization omitted.
#[verifier::external_body]
fn dump_state_json<'a, 'b>(state: &minijinja::State<'a, 'b>, names: &Vec<String>) -> (r: String)
{
    let mut map = serde_json::Map::new();
    for name in names.iter() {
        if let Some(val) = state.lookup(name.as_str()) {
            if let Ok(json) = serde_json::to_value(&val) {
                map.insert(name.clone(), json);
            }
        }
    }
    serde_json::to_string_pretty(&map).unwrap_or_else(|_| "{}".to_string())
}

/// The debug dump function: with a value, that value's serialization; with
/// none, the serialization of the ambient context variables of the deck
/// pages — either way HTML-escaped, wrapped in a preformatted block and
/// marked safe.
pub fn dump_function<'a, 'b>(
    state: &minijinja::State<'a, 'b>,
    value: Option<minijinja::Value>,
) -> (r: minijinja::Value)
    ensures
        value is Some ==> r == engine::safe_text_value(
            "<pre><code>"@ + text::spec_escape(filters::dump_json_of(value->0))
                + "</code></pre>"@,
        ),
        value is None ==> exists|j: Seq<char>|
            r == engine::safe_text_value(
                "<pre><code>"@ + #[trigger] text::spec_escape(j) + "</code></pre>"@,
            ),
{
    match value {
        Some(v) => engine::safe_value(filters::format_dump(&v)),
        None => {
            let names = dump_context_names();
            let json = dump_state_json(state, &names);
            let r = engine::safe_value(
                filters::wrap_pre_code(text::html_escape(json.as_str()).as_str()),
            );
            proof {
                assert(r == engine::safe_text_value(
                    "<pre><code>"@ + text::spec_escape(json@) + "</code></pre>"@,
                ));
            }
            r
        },
    }
}

} // verus!
