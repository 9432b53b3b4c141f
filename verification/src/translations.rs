//! Translation flattening: one locale's nested document becomes a flat map
//! from dot-joined key paths to text.
//!
//! The traversal is iterative over an explicit worklist, so that document
//! depth is bounded by memory rather than by the call stack.

use vstd::prelude::*;
use vstd::string::*;
use crate::error::Error;
use crate::strmap::StrMap;
use crate::yaml;
use crate::yaml::Yaml;

verus! {

/// The key under which a child named `key` inside `prefix` is stored.
pub open spec fn spec_child_prefix(prefix: Seq<char>, key: Seq<char>) -> Seq<char> {
    if prefix.len() == 0 {
        key
    } else {
        prefix + "."@ + key
    }
}

/// The text a scalar leaf contributes, if any: strings as themselves,
/// numbers through their document rendering, booleans as `true`/`false`.
/// Null, sequences and unsupported nodes contribute nothing.
pub open spec fn leaf_text(y: Yaml) -> Option<Seq<char>> {
    match y {
        Yaml::Str(s) => Some(s@),
        Yaml::Num(n) => Some(n@),
        Yaml::Bool(b) => Some(
            if b {
                "true"@
            } else {
                "false"@
            },
        ),
        _ => None,
    }
}

/// The flat entries a node contributes under `prefix`, in document order.
pub open spec fn flat_entries(prefix: Seq<char>, node: Yaml) -> Seq<(Seq<char>, Seq<char>)>
    decreases node,
{
    match node {
        Yaml::Mapping(entries) => flat_map_entries(prefix, entries@),
        _ => match leaf_text(node) {
            Some(t) => seq![(prefix, t)],
            None => Seq::empty(),
        },
    }
}

/// The flat entries of a mapping's entry list under `prefix`; entries with
/// non-string keys contribute nothing.
pub open spec fn flat_map_entries(prefix: Seq<char>, es: Seq<(Yaml, Yaml)>) -> Seq<
    (Seq<char>, Seq<char>),
>
    decreases es,
{
    if es.len() == 0 {
        Seq::empty()
    } else {
        (match es[0].0 {
            Yaml::Str(k) => flat_entries(spec_child_prefix(prefix, k@), es[0].1),
            _ => Seq::empty(),
        }) + flat_map_entries(prefix, es.subrange(1, es.len() as int))
    }
}

/// The views of the worklist's entries.
spec fn stack_views(st: Seq<(String, Yaml)>) -> Seq<(Seq<char>, Yaml)> {
    st.map_values(|p: (String, Yaml)| (p.0@, p.1))
}

/// The flat entries still owed by the worklist, topmost first.
spec fn flat_stack(st: Seq<(Seq<char>, Yaml)>) -> Seq<(Seq<char>, Seq<char>)>
    decreases st.len(),
{
    if st.len() == 0 {
        Seq::empty()
    } else {
        flat_entries(st.last().0, st.last().1) + flat_stack(st.drop_last())
    }
}

/// The summed weight of the worklist, for termination.
spec fn stack_size(st: Seq<(Seq<char>, Yaml)>) -> nat
    decreases st.len(),
{
    if st.len() == 0 {
        0
    } else {
        yaml::yaml_size(st.last().1) + stack_size(st.drop_last())
    }
}

/// Render the dot-joined key of a child.
fn child_prefix(prefix: &str, key: &str) -> (r: String)
    ensures
        r@ == spec_child_prefix(prefix@, key@),
{
    if prefix.unicode_len() == 0 {
        key.to_owned()
    } else {
        let mut s = prefix.to_owned();
        s.append(".");
        s.append(key);
        s
    }
}

/// Flatten a parsed document into its translation map.  The map's bindings
/// are exactly the document's scalar leaves under their dot-joined paths, in
/// document order.
pub fn flatten(doc: Yaml) -> (r: StrMap)
    ensures
        r.entry_views() == flat_entries(Seq::<char>::empty(), doc),
{
    let ghost doc_ghost = doc;
    let mut out = StrMap::new();
    let mut stack: Vec<(String, Yaml)> = Vec::new();
    stack.push((String::new(), doc));
    proof {
        assert(stack_views(stack@) =~= seq![(Seq::<char>::empty(), doc_ghost)]);
        assert(stack_views(stack@).drop_last() =~= Seq::<(Seq<char>, Yaml)>::empty());
        assert(flat_stack(Seq::<(Seq<char>, Yaml)>::empty()) =~= Seq::<
            (Seq<char>, Seq<char>),
        >::empty());
        assert(flat_stack(stack_views(stack@)) =~= flat_entries(Seq::<char>::empty(), doc_ghost)
            + flat_stack(Seq::<(Seq<char>, Yaml)>::empty()));
        assert(out.entry_views() + flat_stack(stack_views(stack@)) =~= flat_entries(
            Seq::<char>::empty(),
            doc_ghost,
        ));
    }
    while stack.len() > 0
        invariant
            out.entry_views() + flat_stack(stack_views(stack@)) == flat_entries(
                Seq::<char>::empty(),
                doc_ghost,
            ),
        decreases stack_size(stack_views(stack@)),
    {
        let ghost views0 = stack_views(stack@);
        let ghost out0 = out.entry_views();
        let popped = stack.pop();
        match popped {
            None => {
                proof {
                    assert(false);
                }
            },
            Some((prefix, node)) => {
                let ghost top = (prefix@, node);
                proof {
                    assert(views0.last() == top);
                    assert(stack_views(stack@) =~= views0.drop_last());
                }
                match node {
                    Yaml::Mapping(entries) => {
                        let ghost base = stack_views(stack@);
                        let ghost en = entries@;
                        proof {
                            assert(flat_entries(prefix@, Yaml::Mapping(entries))
                                == flat_map_entries(prefix@, en));
                            assert(en.subrange(0, en.len() as int) =~= en);
                            assert(flat_stack(views0) == flat_map_entries(prefix@, en)
                                + flat_stack(base));
                        }
                        let mut es = entries;
                        while es.len() > 0
                            invariant
                                es@ == en.subrange(0, es@.len() as int),
                                es@.len() <= en.len(),
                                flat_stack(stack_views(stack@)) == flat_map_entries(
                                    prefix@,
                                    en.subrange(es@.len() as int, en.len() as int),
                                ) + flat_stack(base),
                                stack_size(stack_views(stack@)) <= stack_size(base)
                                    + yaml::map_entries_size(
                                    en.subrange(es@.len() as int, en.len() as int),
                                ),
                            decreases es@.len(),
                        {
                            let ghost m = es@.len() as int;
                            let e = es.pop();
                            match e {
                                None => {
                                    proof {
                                        assert(false);
                                    }
                                },
                                Some((k, v)) => {
                                    proof {
                                        assert(en.subrange(0, m)[m - 1] == en[m - 1]);
                                        assert(es@ =~= en.subrange(0, m - 1));
                                        assert(en.subrange(m - 1, en.len() as int)[0] == en[m
                                            - 1]);
                                        assert(en.subrange(m - 1, en.len() as int).subrange(
                                            1,
                                            en.subrange(m - 1, en.len() as int).len() as int,
                                        ) =~= en.subrange(m, en.len() as int));
                                    }
                                    let ghost views1 = stack_views(stack@);
                                    match k {
                                        Yaml::Str(ks) => {
                                            let cp = child_prefix(prefix.as_str(), ks.as_str());
                                            let ghost vg = v;
                                            stack.push((cp, v));
                                            proof {
                                                assert(stack_views(stack@) =~= views1.push(
                                                    (spec_child_prefix(prefix@, ks@), vg),
                                                ));
                                                assert(stack_views(stack@).drop_last()
                                                    =~= views1);
                                                assert(flat_stack(stack_views(stack@))
                                                    == flat_entries(
                                                    spec_child_prefix(prefix@, ks@),
                                                    vg,
                                                ) + flat_stack(views1));
                                                assert(flat_entries(
                                                    spec_child_prefix(prefix@, ks@),
                                                    vg,
                                                ) + (flat_map_entries(
                                                    prefix@,
                                                    en.subrange(m, en.len() as int),
                                                ) + flat_stack(base)) =~= (flat_entries(
                                                    spec_child_prefix(prefix@, ks@),
                                                    vg,
                                                ) + flat_map_entries(
                                                    prefix@,
                                                    en.subrange(m, en.len() as int),
                                                )) + flat_stack(base));
                                            }
                                        },
                                        _ => {
                                            proof {
                                                assert(Seq::<(Seq<char>, Seq<char>)>::empty()
                                                    + flat_map_entries(
                                                    prefix@,
                                                    en.subrange(m, en.len() as int),
                                                ) =~= flat_map_entries(
                                                    prefix@,
                                                    en.subrange(m, en.len() as int),
                                                ));
                                            }
                                        },
                                    }
                                },
                            }
                        }
                        proof {
                            assert(en.subrange(0, 0) =~= Seq::<(Yaml, Yaml)>::empty());
                        }
                    },
                    Yaml::Str(s) => {
                        proof {
                            assert(flat_entries(prefix@, Yaml::Str(s)) == seq![(prefix@, s@)]);
                        }
                        let ghost pg = prefix@;
                        let ghost sg = s@;
                        out.insert(prefix, s);
                        proof {
                            assert(out.entry_views() =~= out0 + seq![(pg, sg)]);
                            assert((out0 + seq![(pg, sg)]) + flat_stack(stack_views(stack@))
                                =~= out0 + (seq![(pg, sg)] + flat_stack(stack_views(stack@))));
                        }
                    },
                    Yaml::Num(n) => {
                        proof {
                            assert(flat_entries(prefix@, Yaml::Num(n)) == seq![(prefix@, n@)]);
                        }
                        let ghost pg = prefix@;
                        let ghost ng = n@;
                        out.insert(prefix, n);
                        proof {
                            assert(out.entry_views() =~= out0 + seq![(pg, ng)]);
                            assert((out0 + seq![(pg, ng)]) + flat_stack(stack_views(stack@))
                                =~= out0 + (seq![(pg, ng)] + flat_stack(stack_views(stack@))));
                        }
                    },
                    Yaml::Bool(b) => {
                        let text = if b {
                            ("true").to_owned()
                        } else {
                            ("false").to_owned()
                        };
                        proof {
                            assert(flat_entries(prefix@, Yaml::Bool(b)) == seq![
                                (prefix@, text@),
                            ]);
                        }
                        let ghost pg = prefix@;
                        let ghost tg = text@;
                        out.insert(prefix, text);
                        proof {
                            assert(out.entry_views() =~= out0 + seq![(pg, tg)]);
                            assert((out0 + seq![(pg, tg)]) + flat_stack(stack_views(stack@))
                                =~= out0 + (seq![(pg, tg)] + flat_stack(stack_views(stack@))));
                        }
                    },
                    _ => {
                        proof {
                            assert(flat_entries(top.0, top.1) =~= Seq::<
                                (Seq<char>, Seq<char>),
                            >::empty());
                            assert(Seq::<(Seq<char>, Seq<char>)>::empty() + flat_stack(
                                stack_views(stack@),
                            ) =~= flat_stack(stack_views(stack@)));
                        }
                    },
                }
            },
        }
    }
    proof {
        assert(stack_views(stack@) =~= Seq::<(Seq<char>, Yaml)>::empty());
        assert(out.entry_views() + Seq::<(Seq<char>, Seq<char>)>::empty() =~= out.entry_views());
    }
    out
}

/// Load one locale's translation map from its document text.  A parse
/// failure is reported against `path`; the caller treats a missing file as
/// an empty map instead of calling this.
pub fn load(text: &str, path: &str) -> (r: Result<StrMap, Error>)
    ensures
        match r {
            Ok(m) => yaml::spec_parse_yaml(text@) is Ok && m.entry_views() == flat_entries(
                Seq::<char>::empty(),
                yaml::spec_parse_yaml(text@)->Ok_0,
            ),
            Err(e) => yaml::spec_parse_yaml(text@) is Err && e is YamlParse,
        },
{
    match yaml::parse_yaml(text) {
        Ok(doc) => Ok(flatten(doc)),
        Err(m) => Err(
            Error::YamlParse { path: path.to_owned(), message: m },
        ),
    }
}

} // verus!
