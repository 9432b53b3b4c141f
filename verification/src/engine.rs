//! The boundary to the embedded template engine.
//!
//! The engine's types are declared opaquely; the helpers here convert
//! between them and the crate's plain values, and their results are pinned
//! by names so that the filters' contracts can speak of them.  Everything
//! the pipeline decides — what is rendered, under which name, with which
//! navigation numbers — stays in verified code; the engine only evaluates
//! templates.

use vstd::prelude::*;

verus! {

#[verifier::external_type_specification]
#[verifier::external_body]
pub struct ExMjValue(minijinja::Value);

#[verifier::external_type_specification]
#[verifier::external_body]
pub struct ExMjState<'template, 'env>(minijinja::State<'template, 'env>);

#[verifier::external_type_specification]
#[verifier::external_body]
pub struct ExMjEnvironment<'source>(minijinja::Environment<'source>);

/// The text `minijinja::Value::as_str` yields for a value, if any; a
/// function of the value alone.
pub uninterp spec fn value_text(v: minijinja::Value) -> Option<Seq<char>>;

/// The value `minijinja::Value::from` builds from a string; a function of
/// the text alone.
pub uninterp spec fn text_value(s: Seq<char>) -> minijinja::Value;

/// The value `minijinja::Value::from_safe_string` builds from a string; a
/// function of the text alone.
pub uninterp spec fn safe_text_value(s: Seq<char>) -> minijinja::Value;

/// Relies on `minijinja::Value::as_str`: a copy of the value's text — for a
/// string value its characters, and likewise for a well-formed UTF-8 bytes
/// value — or nothing for any other value.
#[verifier::external_body]
pub fn value_as_string(value: &minijinja::Value) -> (r: Option<String>)
    ensures
        match r {
            Some(s) => value_text(*value) == Some(s@),
            None => value_text(*value) is None,
        },
{
    value.as_str().map(|s| s.to_string())
}

/// Relies on `minijinja::Value::from` for strings: the plain string value
/// of the text, whose own text reads back unchanged.
#[verifier::external_body]
pub fn string_value(text: String) -> (r: minijinja::Value)
    ensures
        r == text_value(text@),
        value_text(r) == Some(text@),
{
    minijinja::Value::from(text)
}

/// Relies on `minijinja::Value::from_safe_string`: wraps text already safe
/// for output; the value's own text reads back unchanged.
#[verifier::external_body]
pub fn safe_value(text: String) -> (r: minijinja::Value)
    ensures
        r == safe_text_value(text@),
        value_text(r) == Some(text@),
{
    minijinja::Value::from_safe_string(text)
}

/// Relies on `minijinja::Value::UNDEFINED`: the engine's undefined
/// sentinel, through which templates can chain a default; it carries no
/// text.
#[verifier::external_body]
pub fn undefined_value() -> (r: minijinja::Value)
    ensures
        value_text(r) is None,
{
    minijinja::Value::UNDEFINED
}

} // verus!
