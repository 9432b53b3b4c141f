//! The deck manifest resolver.
//!
//! A manifest document maps deck names to deck specifications.  A
//! specification is either a flat, ordered list of glob patterns or an
//! ordered mapping from section key to such a list; either shape is resolved
//! once into a uniform ordered sequence of (pattern, optional section key)
//! pairs, preserving declaration order throughout.

use vstd::prelude::*;
use vstd::string::*;
use crate::error::Error;
use crate::slide;
use crate::slide::Slide;
use crate::yaml;
use crate::yaml::Yaml;

verus! {

/// A deck's specification, as declared in the manifest.
#[derive(Debug)]
pub enum DeckConfig {
    /// A flat, ordered list of slide patterns.
    Flat(Vec<String>),
    /// An ordered mapping from section key to slide patterns.
    Sectioned(Vec<(String, Vec<String>)>),
}

/// The abstract shape of a deck specification.
pub enum DeckConfigView {
    Flat(Seq<Seq<char>>),
    Sectioned(Seq<(Seq<char>, Seq<Seq<char>>)>),
}

impl View for DeckConfig {
    type V = DeckConfigView;

    open spec fn view(&self) -> DeckConfigView {
        match self {
            DeckConfig::Flat(ps) => DeckConfigView::Flat(ps@.map_values(|p: String| p@)),
            DeckConfig::Sectioned(ss) => DeckConfigView::Sectioned(
                ss@.map_values(
                    |s: (String, Vec<String>)| (s.0@, s.1@.map_values(|p: String| p@)),
                ),
            ),
        }
    }
}

/// Every item of a pattern list is a string scalar.
pub open spec fn all_pattern_strs(items: Seq<Yaml>) -> bool {
    forall|i: int| 0 <= i < items.len() ==> (#[trigger] items[i]) is Str
}

/// The texts of a list of string scalars.
pub open spec fn pattern_strs(items: Seq<Yaml>) -> Seq<Seq<char>> {
    items.map_values(
        |y: Yaml|
            match y {
                Yaml::Str(s) => s@,
                _ => Seq::<char>::empty(),
            },
    )
}

/// Every entry of a section mapping binds a string key to a pattern list.
pub open spec fn all_sections(es: Seq<(Yaml, Yaml)>) -> bool {
    forall|i: int|
        0 <= i < es.len() ==> (#[trigger] es[i].0) is Str && es[i].1 is Sequence
            && all_pattern_strs(es[i].1->Sequence_0@)
}

/// The sections of a well-shaped section mapping.
pub open spec fn sections_of(es: Seq<(Yaml, Yaml)>) -> Seq<(Seq<char>, Seq<Seq<char>>)> {
    es.map_values(
        |e: (Yaml, Yaml)|
            (
                match e.0 {
                    Yaml::Str(k) => k@,
                    _ => Seq::<char>::empty(),
                },
                match e.1 {
                    Yaml::Sequence(items) => pattern_strs(items@),
                    _ => Seq::<Seq<char>>::empty(),
                },
            ),
    )
}

/// How a document node reads as a deck specification: a sequence of strings
/// is a flat specification, a mapping from strings to string sequences is a
/// sectioned one, anything else is malformed.
pub open spec fn spec_deck_config(y: Yaml) -> Option<DeckConfigView> {
    match y {
        Yaml::Sequence(items) => if all_pattern_strs(items@) {
            Some(DeckConfigView::Flat(pattern_strs(items@)))
        } else {
            None
        },
        Yaml::Mapping(es) => if all_sections(es@) {
            Some(DeckConfigView::Sectioned(sections_of(es@)))
        } else {
            None
        },
        _ => None,
    }
}

/// Every entry of the manifest binds a string deck name to a well-shaped
/// specification.
pub open spec fn all_decks(es: Seq<(Yaml, Yaml)>) -> bool {
    forall|i: int|
        0 <= i < es.len() ==> (#[trigger] es[i].0) is Str && spec_deck_config(es[i].1) is Some
}

/// The decks of a well-shaped manifest.
pub open spec fn decks_of(es: Seq<(Yaml, Yaml)>) -> Seq<(Seq<char>, DeckConfigView)> {
    es.map_values(
        |e: (Yaml, Yaml)|
            (
                match e.0 {
                    Yaml::Str(k) => k@,
                    _ => Seq::<char>::empty(),
                },
                match spec_deck_config(e.1) {
                    Some(c) => c,
                    None => DeckConfigView::Flat(Seq::empty()),
                },
            ),
    )
}

/// How a document reads as a whole manifest.
pub open spec fn spec_deck_collection(y: Yaml) -> Option<Seq<(Seq<char>, DeckConfigView)>> {
    match y {
        Yaml::Mapping(es) => if all_decks(es@) {
            Some(decks_of(es@))
        } else {
            None
        },
        _ => None,
    }
}

/// The first deck declared under `name`.
pub open spec fn spec_lookup(decks: Seq<(Seq<char>, DeckConfigView)>, name: Seq<char>) -> Option<
    DeckConfigView,
>
    decreases decks.len(),
{
    if decks.len() == 0 {
        None
    } else if decks[0].0 == name {
        Some(decks[0].1)
    } else {
        spec_lookup(decks.subrange(1, decks.len() as int), name)
    }
}

/// The uniform resolution of a specification: each pattern with the section
/// key it was declared under, in declaration order.  Patterns are not
/// deduplicated across sections here.
pub open spec fn spec_resolve(c: DeckConfigView) -> Seq<(Seq<char>, Option<Seq<char>>)> {
    match c {
        DeckConfigView::Flat(ps) => ps.map_values(
            |p: Seq<char>| (p, Option::<Seq<char>>::None),
        ),
        DeckConfigView::Sectioned(ss) => resolve_sections(ss),
    }
}

/// The resolution of a section list, section by section.
pub open spec fn resolve_sections(ss: Seq<(Seq<char>, Seq<Seq<char>>)>) -> Seq<
    (Seq<char>, Option<Seq<char>>),
>
    decreases ss.len(),
{
    if ss.len() == 0 {
        Seq::empty()
    } else {
        ss[0].1.map_values(|p: Seq<char>| (p, Option::<Seq<char>>::Some(ss[0].0)))
            + resolve_sections(ss.subrange(1, ss.len() as int))
    }
}

/// Copy a vector of strings.
fn clone_strings(v: &Vec<String>) -> (r: Vec<String>)
    ensures
        r@.map_values(|s: String| s@) == v@.map_values(|s: String| s@),
{
    let mut r: Vec<String> = Vec::new();
    let mut i: usize = 0;
    while i < v.len()
        invariant
            i <= v@.len(),
            r@.len() == i,
            forall|j: int| 0 <= j < i ==> r@[j]@ == v@[j]@,
        decreases v@.len() - i,
    {
        r.push(v[i].clone());
        i += 1;
    }
    proof {
        assert(r@.map_values(|s: String| s@) =~= v@.map_values(|s: String| s@));
    }
    r
}

impl DeckConfig {
    /// Read one deck specification out of a document node.
    #[verifier::loop_isolation(false)]
    pub fn from_yaml(y: &Yaml) -> (r: Option<DeckConfig>)
        ensures
            match r {
                Some(c) => spec_deck_config(*y) == Some(c@),
                None => spec_deck_config(*y) is None,
            },
    {
        match y {
            Yaml::Sequence(items) => {
                let mut ps: Vec<String> = Vec::new();
                let mut i: usize = 0;
                while i < items.len()
                    invariant
                        i <= items@.len(),
                        ps@.len() == i,
                        forall|j: int| 0 <= j < i ==> (#[trigger] items@[j]) is Str,
                        forall|j: int| 0 <= j < i ==> ps@[j]@ == items@[j]->Str_0@,
                    decreases items@.len() - i,
                {
                    match &items[i] {
                        Yaml::Str(s) => {
                            ps.push(s.clone());
                        },
                        _ => {
                            proof {
                                assert(!all_pattern_strs(items@)) by {
                                    assert(!((items@[i as int]) is Str));
                                }
                            }
                            return None;
                        },
                    }
                    i += 1;
                }
                let r = DeckConfig::Flat(ps);
                proof {
                    assert(r@->Flat_0 =~= pattern_strs(items@));
                }
                Some(r)
            },
            Yaml::Mapping(es) => {
                let mut ss: Vec<(String, Vec<String>)> = Vec::new();
                let mut i: usize = 0;
                while i < es.len()
                    invariant
                        i <= es@.len(),
                        ss@.len() == i,
                        forall|j: int|
                            0 <= j < i ==> (#[trigger] es@[j].0) is Str && es@[j].1 is Sequence
                                && all_pattern_strs(es@[j].1->Sequence_0@),
                        forall|j: int| 0 <= j < i ==> (#[trigger] ss@[j]).0@ == es@[j].0->Str_0@
                            && ss@[j].1@.map_values(|p: String| p@) == pattern_strs(
                            es@[j].1->Sequence_0@,
                        ),
                    decreases es@.len() - i,
                {
                    match &es[i].0 {
                        Yaml::Str(k) => {
                            match &es[i].1 {
                                Yaml::Sequence(items) => {
                                    let mut ps: Vec<String> = Vec::new();
                                    let mut m: usize = 0;
                                    while m < items.len()
                                        invariant
                                            m <= items@.len(),
                                            ps@.len() == m,
                                            forall|j: int|
                                                0 <= j < m ==> (#[trigger] items@[j]) is Str,
                                            forall|j: int| 0 <= j < m ==> ps@[j]@ == items@[
                                                j
                                            ]->Str_0@,
                                        decreases items@.len() - m,
                                    {
                                        match &items[m] {
                                            Yaml::Str(s) => {
                                                ps.push(s.clone());
                                            },
                                            _ => {
                                                proof {
                                                    assert(es@[i as int].1->Sequence_0@
                                                        == items@);
                                                    assert(!all_pattern_strs(items@)) by {
                                                        assert(!((items@[m as int]) is Str));
                                                    }
                                                    assert(!all_sections(es@)) by {
                                                        assert(!all_pattern_strs(
                                                            es@[i as int].1->Sequence_0@,
                                                        ));
                                                    }
                                                }
                                                return None;
                                            },
                                        }
                                        m += 1;
                                    }
                                    proof {
                                        assert(ps@.map_values(|p: String| p@) =~= pattern_strs(
                                            items@,
                                        ));
                                    }
                                    ss.push((k.clone(), ps));
                                },
                                _ => {
                                    proof {
                                        assert(!all_sections(es@)) by {
                                            assert(!((es@[i as int].1) is Sequence));
                                        }
                                    }
                                    return None;
                                },
                            }
                        },
                        _ => {
                            proof {
                                assert(!all_sections(es@)) by {
                                    assert(!((es@[i as int].0) is Str));
                                }
                            }
                            return None;
                        },
                    }
                    i += 1;
                }
                let r = DeckConfig::Sectioned(ss);
                proof {
                    assert(r@->Sectioned_0 =~= sections_of(es@));
                }
                Some(r)
            },
            _ => None,
        }
    }

    /// An identical copy of this specification.
    pub fn duplicate(&self) -> (r: DeckConfig)
        ensures
            r@ == self@,
    {
        match self {
            DeckConfig::Flat(ps) => {
                let r = DeckConfig::Flat(clone_strings(ps));
                proof {
                    assert(r@->Flat_0 =~= self@->Flat_0);
                }
                r
            },
            DeckConfig::Sectioned(ss) => {
                let mut out: Vec<(String, Vec<String>)> = Vec::new();
                let mut i: usize = 0;
                while i < ss.len()
                    invariant
                        i <= ss@.len(),
                        out@.len() == i,
                        forall|j: int| 0 <= j < i ==> (#[trigger] out@[j]).0@ == ss@[j].0@
                            && out@[j].1@.map_values(|p: String| p@) == ss@[j].1@.map_values(
                            |p: String| p@,
                        ),
                    decreases ss@.len() - i,
                {
                    let key = ss[i].0.clone();
                    let pats = clone_strings(&ss[i].1);
                    out.push((key, pats));
                    i += 1;
                }
                let r = DeckConfig::Sectioned(out);
                proof {
                    assert(r@->Sectioned_0 =~= self@->Sectioned_0);
                }
                r
            },
        }
    }

    /// Resolve this specification into its ordered (pattern, section key)
    /// pairs: a flat list yields every pattern with no key, a sectioned one
    /// yields, section by section in declared order, every pattern under its
    /// key.
    #[verifier::loop_isolation(false)]
    pub fn resolve_pairs(&self) -> (r: Vec<(String, Option<String>)>)
        ensures
            r@.map_values(
                |p: (String, Option<String>)| (p.0@, crate::slide::section_view(p.1)),
            ) == spec_resolve(self@),
    {
        match self {
            DeckConfig::Flat(ps) => {
                let mut r: Vec<(String, Option<String>)> = Vec::new();
                let mut i: usize = 0;
                while i < ps.len()
                    invariant
                        i <= ps@.len(),
                        r@.len() == i,
                        forall|j: int| 0 <= j < i ==> (#[trigger] r@[j]).0@ == ps@[j]@ && r@[
                            j
                        ].1 is None,
                    decreases ps@.len() - i,
                {
                    r.push((ps[i].clone(), None));
                    i += 1;
                }
                proof {
                    assert(r@.map_values(
                        |p: (String, Option<String>)| (p.0@, crate::slide::section_view(p.1)),
                    ) =~= spec_resolve(self@));
                }
                r
            },
            DeckConfig::Sectioned(ss) => {
                let mut r: Vec<(String, Option<String>)> = Vec::new();
                let mut i: usize = 0;
                let ghost ssv = self@->Sectioned_0;
                proof {
                    assert(ssv.subrange(0, ssv.len() as int) =~= ssv);
                    assert(r@.map_values(
                        |p: (String, Option<String>)| (p.0@, crate::slide::section_view(p.1)),
                    ) + resolve_sections(ssv) =~= resolve_sections(ssv));
                }
                while i < ss.len()
                    invariant
                        i <= ss@.len(),
                        ssv == self@->Sectioned_0,
                        ss@.len() == ssv.len(),
                        forall|j: int| 0 <= j < ss@.len() ==> (#[trigger] ssv[j]).0 == ss@[j].0@
                            && ssv[j].1 == ss@[j].1@.map_values(|p: String| p@),
                        resolve_sections(ssv) == r@.map_values(
                            |p: (String, Option<String>)| (p.0@, crate::slide::section_view(p.1)),
                        ) + resolve_sections(ssv.subrange(i as int, ssv.len() as int)),
                    decreases ss@.len() - i,
                {
                    let ghost rem = ssv.subrange(i as int, ssv.len() as int);
                    let ghost rv0 = r@.map_values(
                        |p: (String, Option<String>)| (p.0@, crate::slide::section_view(p.1)),
                    );
                    proof {
                        assert(rem[0] == ssv[i as int]);
                        assert(rem.subrange(1, rem.len() as int) =~= ssv.subrange(
                            i as int + 1,
                            ssv.len() as int,
                        ));
                    }
                    let key = &ss[i].0;
                    let pats = &ss[i].1;
                    let mut m: usize = 0;
                    proof {
                        assert(ssv[i as int].1.subrange(0, 0).map_values(
                            |p: Seq<char>| (p, Option::<Seq<char>>::Some(ssv[i as int].0)),
                        ) =~= Seq::<(Seq<char>, Option<Seq<char>>)>::empty());
                        assert(rv0 + ssv[i as int].1.subrange(0, 0).map_values(
                            |p: Seq<char>| (p, Option::<Seq<char>>::Some(ssv[i as int].0)),
                        ) =~= rv0);
                    }
                    while m < pats.len()
                        invariant
                            m <= pats@.len(),
                            pats@.map_values(|p: String| p@) == ssv[i as int].1,
                            key@ == ssv[i as int].0,
                            i < ss@.len(),
                            ssv == self@->Sectioned_0,
                            r@.map_values(
                                |p: (String, Option<String>)| (
                                    p.0@,
                                    crate::slide::section_view(p.1),
                                ),
                            ) == rv0 + ssv[i as int].1.subrange(0, m as int).map_values(
                                |p: Seq<char>| (p, Option::<Seq<char>>::Some(ssv[i as int].0)),
                            ),
                        decreases pats@.len() - m,
                    {
                        let ghost prev = r@.map_values(
                            |p: (String, Option<String>)| (p.0@, crate::slide::section_view(p.1)),
                        );
                        r.push((pats[m].clone(), Some(key.clone())));
                        proof {
                            assert(pats@[m as int]@ == ssv[i as int].1[m as int]);
                            assert(r@.map_values(
                                |p: (String, Option<String>)| (
                                    p.0@,
                                    crate::slide::section_view(p.1),
                                ),
                            ) =~= prev.push(
                                (ssv[i as int].1[m as int], Option::Some(ssv[i as int].0)),
                            ));
                            assert(ssv[i as int].1.subrange(0, m as int + 1).map_values(
                                |p: Seq<char>| (p, Option::<Seq<char>>::Some(ssv[i as int].0)),
                            ) =~= ssv[i as int].1.subrange(0, m as int).map_values(
                                |p: Seq<char>| (p, Option::<Seq<char>>::Some(ssv[i as int].0)),
                            ).push((ssv[i as int].1[m as int], Option::Some(ssv[i as int].0))));
                            assert(r@.map_values(
                                |p: (String, Option<String>)| (
                                    p.0@,
                                    crate::slide::section_view(p.1),
                                ),
                            ) =~= rv0 + ssv[i as int].1.subrange(0, m as int + 1).map_values(
                                |p: Seq<char>| (p, Option::<Seq<char>>::Some(ssv[i as int].0)),
                            ));
                        }
                        m += 1;
                    }
                    proof {
                        assert(ssv[i as int].1.subrange(0, ssv[i as int].1.len() as int)
                            =~= ssv[i as int].1);
                        assert(resolve_sections(rem) == rem[0].1.map_values(
                            |p: Seq<char>| (p, Option::<Seq<char>>::Some(rem[0].0)),
                        ) + resolve_sections(rem.subrange(1, rem.len() as int)));
                        assert((rv0 + ssv[i as int].1.map_values(
                            |p: Seq<char>| (p, Option::<Seq<char>>::Some(ssv[i as int].0)),
                        )) + resolve_sections(ssv.subrange(i as int + 1, ssv.len() as int))
                            =~= rv0 + (ssv[i as int].1.map_values(
                            |p: Seq<char>| (p, Option::<Seq<char>>::Some(ssv[i as int].0)),
                        ) + resolve_sections(ssv.subrange(i as int + 1, ssv.len() as int))));
                    }
                    i += 1;
                }
                proof {
                    assert(ssv.subrange(ssv.len() as int, ssv.len() as int) =~= Seq::<
                        (Seq<char>, Seq<Seq<char>>),
                    >::empty());
                    assert(r@.map_values(
                        |p: (String, Option<String>)| (p.0@, crate::slide::section_view(p.1)),
                    ) + Seq::<(Seq<char>, Option<Seq<char>>)>::empty() =~= r@.map_values(
                        |p: (String, Option<String>)| (p.0@, crate::slide::section_view(p.1)),
                    ));
                }
                r
            },
        }
    }
}

/// The slide records a resolved pair list selects from the template tree,
/// pair by pair in order.
pub open spec fn slides_for_pairs(
    pairs: Seq<(Seq<char>, Option<Seq<char>>)>,
    files: Seq<Seq<char>>,
) -> Seq<(Seq<char>, Option<Seq<char>>)>
    decreases pairs.len(),
{
    if pairs.len() == 0 {
        Seq::empty()
    } else {
        slide::spec_collect_templates(pairs[0].0, files).map_values(
            |t: Seq<char>| (t, pairs[0].1),
        ) + slides_for_pairs(pairs.subrange(1, pairs.len() as int), files)
    }
}

/// A deck's final slide list: the specification resolved to pairs, the
/// slides each pair selects collected in order, and the whole sorted by
/// template path.
pub open spec fn spec_deck_slides(c: DeckConfigView, files: Seq<Seq<char>>) -> Seq<
    (Seq<char>, Option<Seq<char>>),
> {
    slide::spec_sort_slides(slides_for_pairs(spec_resolve(c), files))
}

/// The ordered collection of deck specifications a manifest declares.
#[derive(Debug)]
pub struct DeckConfigCollection(pub Vec<(String, DeckConfig)>);

impl View for DeckConfigCollection {
    type V = Seq<(Seq<char>, DeckConfigView)>;

    open spec fn view(&self) -> Seq<(Seq<char>, DeckConfigView)> {
        self.0@.map_values(|d: (String, DeckConfig)| (d.0@, d.1@))
    }
}

impl DeckConfigCollection {
    /// Read the manifest out of its document text.  `None` stands for an
    /// absent manifest file.
    #[verifier::loop_isolation(false)]
    pub fn load(text: Option<&str>) -> (r: Result<DeckConfigCollection, Error>)
        ensures
            match text {
                None => r is Err && r->Err_0 is DecksNotFound,
                Some(t) => match yaml::spec_parse_yaml(t@) {
                    Err(_) => r is Err && r->Err_0 is DecksParseError,
                    Ok(doc) => match spec_deck_collection(doc) {
                        None => r is Err && r->Err_0 is DecksParseError,
                        Some(decks) => r is Ok && r->Ok_0@ == decks,
                    },
                },
            },
    {
        let t = match text {
            None => {
                return Err(Error::DecksNotFound);
            },
            Some(t) => t,
        };
        let doc = match yaml::parse_yaml(t) {
            Err(m) => {
                return Err(Error::DecksParseError(m));
            },
            Ok(doc) => doc,
        };
        match &doc {
            Yaml::Mapping(es) => {
                let mut decks: Vec<(String, DeckConfig)> = Vec::new();
                let mut i: usize = 0;
                while i < es.len()
                    invariant
                        i <= es@.len(),
                        decks@.len() == i,
                        forall|j: int|
                            0 <= j < i ==> (#[trigger] es@[j].0) is Str && spec_deck_config(
                                es@[j].1,
                            ) is Some,
                        forall|j: int| 0 <= j < i ==> (#[trigger] decks@[j]).0@ == es@[
                            j
                        ].0->Str_0@ && spec_deck_config(es@[j].1) == Some(decks@[j].1@),
                    decreases es@.len() - i,
                {
                    match &es[i].0 {
                        Yaml::Str(k) => {
                            match DeckConfig::from_yaml(&es[i].1) {
                                Some(c) => {
                                    decks.push((k.clone(), c));
                                },
                                None => {
                                    proof {
                                        assert(!all_decks(es@)) by {
                                            let entry_key = es@[i as int].0;
                                            assert(spec_deck_config(es@[i as int].1) is None);
                                        }
                                    }
                                    return Err(
                                        Error::DecksParseError(
                                            ("invalid deck specification").to_owned(),
                                        ),
                                    );
                                },
                            }
                        },
                        _ => {
                            proof {
                                assert(!all_decks(es@)) by {
                                    assert(!((es@[i as int].0) is Str));
                                }
                            }
                            return Err(
                                Error::DecksParseError(("deck names must be strings").to_owned()),
                            );
                        },
                    }
                    i += 1;
                }
                let r = DeckConfigCollection(decks);
                proof {
                    assert(r@ =~= decks_of(es@));
                }
                Ok(r)
            },
            _ => Err(Error::DecksParseError(("expected a mapping of decks").to_owned())),
        }
    }

    /// Return the named deck's specification, or `DeckNotFound`.
    #[verifier::loop_isolation(false)]
    pub fn get(&self, name: &str) -> (r: Result<DeckConfig, Error>)
        ensures
            match r {
                Ok(c) => spec_lookup(self@, name@) == Some(c@),
                Err(e) => spec_lookup(self@, name@) is None && e is DeckNotFound,
            },
    {
        let ghost dvs = self@;
        let mut i: usize = 0;
        proof {
            assert(dvs.subrange(0, dvs.len() as int) =~= dvs);
        }
        while i < self.0.len()
            invariant
                i <= self.0@.len(),
                dvs == self@,
                spec_lookup(dvs, name@) == spec_lookup(
                    dvs.subrange(i as int, dvs.len() as int),
                    name@,
                ),
            decreases self.0@.len() - i,
        {
            let ghost rem = dvs.subrange(i as int, dvs.len() as int);
            proof {
                assert(rem[0] == dvs[i as int]);
                assert(rem.subrange(1, rem.len() as int) =~= dvs.subrange(
                    i as int + 1,
                    dvs.len() as int,
                ));
            }
            if crate::text::str_eq(self.0[i].0.as_str(), name) {
                return Ok(self.0[i].1.duplicate());
            }
            i += 1;
        }
        proof {
            assert(dvs.subrange(dvs.len() as int, dvs.len() as int) =~= Seq::<
                (Seq<char>, DeckConfigView),
            >::empty());
        }
        Err(Error::DeckNotFound(name.to_owned()))
    }
}

impl DeckConfig {
    /// Load the deck's slides from the template tree: resolve the
    /// specification into its pairs, collect each pair's slides in order,
    /// and sort the whole by template path, ascending and stably.
    #[verifier::loop_isolation(false)]
    pub fn load_slides(&self, files: &Vec<String>) -> (r: Vec<Slide>)
        ensures
            r@.map_values(|s: Slide| s@) == spec_deck_slides(
                self@,
                files@.map_values(|f: String| f@),
            ),
    {
        let ghost fvs = files@.map_values(|f: String| f@);
        let pairs = self.resolve_pairs();
        let ghost prs = pairs@.map_values(
            |p: (String, Option<String>)| (p.0@, slide::section_view(p.1)),
        );
        let mut all: Vec<Slide> = Vec::new();
        let mut i: usize = 0;
        proof {
            assert(prs.subrange(0, prs.len() as int) =~= prs);
            assert(all@.map_values(|s: Slide| s@) + slides_for_pairs(prs, fvs)
                =~= slides_for_pairs(prs, fvs));
        }
        while i < pairs.len()
            invariant
                i <= pairs@.len(),
                slides_for_pairs(prs, fvs) == all@.map_values(|s: Slide| s@)
                    + slides_for_pairs(prs.subrange(i as int, prs.len() as int), fvs),
            decreases pairs@.len() - i,
        {
            let ghost rem = prs.subrange(i as int, prs.len() as int);
            proof {
                assert(rem[0] == prs[i as int]);
                assert(rem.subrange(1, rem.len() as int) =~= prs.subrange(
                    i as int + 1,
                    prs.len() as int,
                ));
            }
            let section = match &pairs[i].1 {
                Some(k) => Some(k.clone()),
                None => None,
            };
            proof {
                assert(slide::section_view(section) == prs[i as int].1);
            }
            let mut batch = Slide::load_collection(pairs[i].0.as_str(), section, files);
            let ghost all0 = all@.map_values(|s: Slide| s@);
            let ghost batch_views = batch@.map_values(|s: Slide| s@);
            proof {
                let ghost templates = slide::spec_collect_templates(prs[i as int].0, fvs);
                assert(batch@.map_values(|s: Slide| s@.0).len() == templates.len());
                assert(batch_views.len() == templates.len());
                assert forall|m: int| 0 <= m < batch_views.len() implies batch_views[m] == (
                templates.map_values(|t: Seq<char>| (t, prs[i as int].1)))[m] by {
                    assert(batch@.map_values(|s: Slide| s@.0)[m] == templates[m]);
                    assert(batch@[m]@.1 == slide::section_view(section));
                }
                assert(batch_views =~= templates.map_values(
                    |t: Seq<char>| (t, prs[i as int].1),
                ));
            }
            all.append(&mut batch);
            proof {
                assert(all@.map_values(|s: Slide| s@) =~= all0 + batch_views);
                assert((all0 + batch_views) + slides_for_pairs(
                    prs.subrange(i as int + 1, prs.len() as int),
                    fvs,
                ) =~= all0 + (batch_views + slides_for_pairs(
                    prs.subrange(i as int + 1, prs.len() as int),
                    fvs,
                )));
            }
            i += 1;
        }
        proof {
            assert(prs.subrange(prs.len() as int, prs.len() as int) =~= Seq::<
                (Seq<char>, Option<Seq<char>>),
            >::empty());
            assert(all@.map_values(|s: Slide| s@) + Seq::<
                (Seq<char>, Option<Seq<char>>),
            >::empty() =~= all@.map_values(|s: Slide| s@));
        }
        slide::sort_slides(all)
    }
}

} // verus!
