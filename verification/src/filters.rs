//! Render-time filters: locale lookup with `{name}`-style substitution,
//! markdown conversion, and a debug dump.
//!
//! The lookup, substitution, escaping and wrapping logic is verified; thin
//! trusted helpers convert between the engine's values and plain text.

use vstd::prelude::*;
use vstd::string::*;
use crate::engine;
use crate::markdown;
use crate::strmap::StrMap;
use crate::text;

verus! {

/// The text after substituting every parameter in order: each occurrence of
/// `{name}` is replaced by the parameter's value, by literal replacement.
pub open spec fn spec_substitute(text: Seq<char>, params: Seq<(Seq<char>, Seq<char>)>) -> Seq<
    char,
>
    decreases params.len(),
{
    if params.len() == 0 {
        text
    } else {
        spec_substitute(
            text::spec_replace(text, seq!['{'] + params[0].0 + seq!['}'], params[0].1),
            params.subrange(1, params.len() as int),
        )
    }
}

/// Apply `{name}`-style substitution for every supplied parameter, in order.
#[verifier::loop_isolation(false)]
pub fn substitute_params(text: &str, params: &Vec<(String, String)>) -> (r: String)
    ensures
        r@ == spec_substitute(text@, params@.map_values(|p: (String, String)| (p.0@, p.1@))),
{
    let ghost pvs = params@.map_values(|p: (String, String)| (p.0@, p.1@));
    let mut cur = text::to_chars(text);
    let mut i: usize = 0;
    proof {
        assert(pvs.subrange(0, pvs.len() as int) =~= pvs);
    }
    while i < params.len()
        invariant
            i <= params@.len(),
            spec_substitute(text@, pvs) == spec_substitute(
                cur@,
                pvs.subrange(i as int, pvs.len() as int),
            ),
        decreases params@.len() - i,
    {
        let ghost rem = pvs.subrange(i as int, pvs.len() as int);
        proof {
            assert(rem[0] == pvs[i as int]);
            assert(rem.subrange(1, rem.len() as int) =~= pvs.subrange(
                i as int + 1,
                pvs.len() as int,
            ));
        }
        let mut pat: Vec<char> = Vec::new();
        pat.push('{');
        let name = text::to_chars(params[i].0.as_str());
        text::extend_chars(&mut pat, &name);
        pat.push('}');
        proof {
            assert(pat@ =~= seq!['{'] + pvs[i as int].0 + seq!['}']);
        }
        let value = text::to_chars(params[i].1.as_str());
        cur = text::replace_all(&cur, &pat, &value);
        i += 1;
    }
    proof {
        assert(pvs.subrange(pvs.len() as int, pvs.len() as int) =~= Seq::<
            (Seq<char>, Seq<char>),
        >::empty());
    }
    text::from_chars(&cur)
}

/// The keyword parameters an engine value carries, as (name, rendered
/// value) pairs in its own iteration order; a function of the value alone.
pub uninterp spec fn param_pairs_of(v: minijinja::Value) -> Seq<(Seq<char>, Seq<char>)>;

/// Relies on `minijinja::Value::{try_iter, get_item, as_str}` and `Value`'s
/// display rendering: reads the supplied keyword parameters out as plain
/// (name, rendered value) pairs, in iteration order, skipping non-string
/// names.
#[verifier::external_body]
fn param_pairs(params: &minijinja::Value) -> (r: Vec<(String, String)>)
    ensures
        r@.map_values(|p: (String, String)| (p.0@, p.1@)) == param_pairs_of(*params),
{
    let mut out: Vec<(String, String)> = Vec::new();
    if let Ok(iter) = params.try_iter() {
        for key in iter {
            if let Some(name) = key.as_str() {
                if let Ok(value) = params.get_item(&key) {
                    out.push((name.to_string(), value.to_string()));
                }
            }
        }
    }
    out
}

/// The parameters of an optional parameter value.
pub open spec fn spec_params(params: Option<minijinja::Value>) -> Seq<(Seq<char>, Seq<char>)> {
    match params {
        Some(p) => param_pairs_of(p),
        None => Seq::empty(),
    }
}

/// The locale-lookup filter over one locale's translation map.  A
/// non-string or missing key yields the engine's undefined sentinel (so
/// templates can chain a default; the engine's own error type cannot be
/// named here, so a mistyped key joins the missing-key path); a present key
/// yields its text with `{name}`-style substitution applied for every
/// supplied parameter.
pub fn apply_trans_filter(
    translations: &StrMap,
    key: &minijinja::Value,
    params: Option<minijinja::Value>,
) -> (r: minijinja::Value)
    ensures
        match engine::value_text(*key) {
            None => engine::value_text(r) is None,
            Some(k) => if translations@.contains_key(k) {
                r == engine::text_value(
                    spec_substitute(translations@[k], spec_params(params)),
                )
            } else {
                engine::value_text(r) is None
            },
        },
{
    match engine::value_as_string(key) {
        None => engine::undefined_value(),
        Some(k) => match translations.get(k.as_str()) {
            None => engine::undefined_value(),
            Some(found) => {
                let pairs = match &params {
                    Some(p) => param_pairs(p),
                    None => Vec::new(),
                };
                proof {
                    assert(pairs@.map_values(|p: (String, String)| (p.0@, p.1@))
                        =~= spec_params(params));
                }
                engine::string_value(substitute_params(found.as_str(), &pairs))
            },
        },
    }
}

/// The markdown filter: convert a string value through the markdown
/// renderer, yielding pre-escaped output; a non-string value yields the
/// undefined sentinel (the engine's own error type cannot be named here).
pub fn markdown_filter(value: &minijinja::Value) -> (r: minijinja::Value)
    ensures
        match engine::value_text(*value) {
            Some(t) => r == engine::safe_text_value(markdown::spec_markdown_html(t)),
            None => engine::value_text(r) is None,
        },
{
    match engine::value_as_string(value) {
        Some(s) => engine::safe_value(markdown::markdown_to_html(s.as_str())),
        None => engine::undefined_value(),
    }
}

/// The pretty serialization of a render-time value, as the debug dump shows
/// it; a function of the value alone.
pub uninterp spec fn dump_json_of(v: minijinja::Value) -> Seq<char>;

/// Relies on `serde_json::to_string_pretty` on an engine value, falling
/// back to the value's debug rendering on a serialization error: the pretty
/// serialization of a render-time value, for author debugging.
#[verifier::external_body]
fn dump_json(value: &minijinja::Value) -> (r: String)
    ensures
        r@ == dump_json_of(*value),
{
    serde_json::to_string_pretty(&value).unwrap_or_else(|_| format!("{:#?}", value))
}

/// Wrap already-escaped text in a preformatted code block.
pub fn wrap_pre_code(inner: &str) -> (r: String)
    ensures
        r@ == "<pre><code>"@ + inner@ + "</code></pre>"@,
{
    let mut m = ("<pre><code>").to_owned();
    m.append(inner);
    m.append("</code></pre>");
    m
}

/// Render a value's pretty serialization, HTML-escaped and wrapped in a
/// preformatted block.
pub fn format_dump(value: &minijinja::Value) -> (r: String)
    ensures
        r@ == "<pre><code>"@ + text::spec_escape(dump_json_of(*value)) + "</code></pre>"@,
{
    let json = dump_json(value);
    let escaped = text::html_escape(json.as_str());
    wrap_pre_code(escaped.as_str())
}

/// The dump filter: serialize the filtered value for author debugging.
pub fn dump_filter(value: &minijinja::Value) -> (r: minijinja::Value)
    ensures
        r == engine::safe_text_value(
            "<pre><code>"@ + text::spec_escape(dump_json_of(*value)) + "</code></pre>"@,
        ),
{
    engine::safe_value(format_dump(value))
}

} // verus!
