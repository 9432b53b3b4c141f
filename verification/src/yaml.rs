//! The crate's model of a parsed YAML document.
//!
//! Documents are parsed by the `serde_yaml` crate and immediately folded,
//! one variant for one variant, into the crate's own tree of plain values,
//! on which the manifest resolver and the translation flattener do their
//! verified work.  Mapping entries keep the document's declaration order.

use vstd::prelude::*;

verus! {

/// A parsed document node.
#[derive(Debug)]
pub enum Yaml {
    /// The null scalar.
    Null,
    /// A boolean scalar.
    Bool(bool),
    /// A numeric scalar, carried as the text its own renderer gives it.
    Num(String),
    /// A string scalar.
    Str(String),
    /// A sequence of nodes, in declaration order.
    Sequence(Vec<Yaml>),
    /// A mapping, in declaration order.
    Mapping(Vec<(Yaml, Yaml)>),
    /// A tagged or otherwise unsupported node.
    Other,
}

#[verifier::external_type_specification]
#[verifier::external_body]
pub struct ExYamlValue(serde_yaml::Value);

/// What `serde_yaml::from_str` returns for a given document text; parsing is
/// a function of the text alone, as is the rendering of a parse error.
pub uninterp spec fn parsed_yaml_value(s: Seq<char>) -> Result<serde_yaml::Value, Seq<char>>;

/// The crate's tree for a parsed value; the folding is a function of the
/// value alone.
pub uninterp spec fn yaml_tree_of(v: serde_yaml::Value) -> Yaml;

/// Relies on `serde_yaml::from_str::<Value>`: the result is determined by the
/// document text, and `Error`'s rendering by the error.
#[verifier::external_body]
fn parse_yaml_value(s: &str) -> (r: Result<serde_yaml::Value, String>)
    ensures
        match r {
            Ok(v) => parsed_yaml_value(s@) == Ok::<serde_yaml::Value, Seq<char>>(v),
            Err(m) => parsed_yaml_value(s@) == Err::<serde_yaml::Value, Seq<char>>(m@),
        },
{
    serde_yaml::from_str::<serde_yaml::Value>(s).map_err(|e| e.to_string())
}

/// Relies on `serde_yaml::Value`'s shape: each variant of the parsed tree is
/// moved one-for-one onto the crate's own tree (numbers through their
/// `Display` rendering), so the result is a function of the value alone.
#[verifier::external_body]
fn yaml_tree(v: serde_yaml::Value) -> (r: Yaml)
    ensures
        r == yaml_tree_of(v),
{
    match v {
        serde_yaml::Value::Null => Yaml::Null,
        serde_yaml::Value::Bool(b) => Yaml::Bool(b),
        serde_yaml::Value::Number(n) => Yaml::Num(n.to_string()),
        serde_yaml::Value::String(s) => Yaml::Str(s),
        serde_yaml::Value::Sequence(xs) => Yaml::Sequence(xs.into_iter().map(yaml_tree).collect()),
        serde_yaml::Value::Mapping(m) => Yaml::Mapping(
            m.into_iter().map(|(k, val)| (yaml_tree(k), yaml_tree(val))).collect(),
        ),
        serde_yaml::Value::Tagged(_) => Yaml::Other,
    }
}

/// The parse of a document text into the crate's tree: the parse result with
/// the value folded through `yaml_tree_of`.
pub open spec fn spec_parse_yaml(s: Seq<char>) -> Result<Yaml, Seq<char>> {
    match parsed_yaml_value(s) {
        Ok(v) => Ok(yaml_tree_of(v)),
        Err(m) => Err(m),
    }
}

/// Parse a YAML document into the crate's document tree.
pub fn parse_yaml(s: &str) -> (r: Result<Yaml, String>)
    ensures
        match r {
            Ok(y) => spec_parse_yaml(s@) == Ok::<Yaml, Seq<char>>(y),
            Err(m) => spec_parse_yaml(s@) == Err::<Yaml, Seq<char>>(m@),
        },
{
    match parse_yaml_value(s) {
        Ok(v) => Ok(yaml_tree(v)),
        Err(m) => Err(m),
    }
}

/// The weight of a node for termination of document traversals: only
/// mappings are ever descended into.
pub open spec fn yaml_size(y: Yaml) -> nat
    decreases y,
{
    match y {
        Yaml::Mapping(entries) => 1 + map_entries_size(entries@),
        _ => 1,
    }
}

/// The summed weight of a mapping's values.
pub open spec fn map_entries_size(es: Seq<(Yaml, Yaml)>) -> nat
    decreases es,
{
    if es.len() == 0 {
        0
    } else {
        yaml_size(es[0].1) + map_entries_size(es.subrange(1, es.len() as int))
    }
}

} // verus!
