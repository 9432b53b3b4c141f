//! Layout loading: every discovered template file registered under its
//! normalized name, with a secondary registration under the canonical
//! `.html` name for templates authored under an aliased suffix, so that
//! cross-template references work regardless of authoring suffix.

use vstd::prelude::*;
use vstd::string::*;
use crate::extensions;
use crate::strmap::StrMap;
use crate::text;

verus! {

/// The bindings one template contributes: its own name, and, for a
/// non-canonical suffix, the canonical-suffix name as well.
pub open spec fn spec_register(
    m: Seq<(Seq<char>, Seq<char>)>,
    name: Seq<char>,
    ext: Seq<char>,
    content: Seq<char>,
) -> Seq<(Seq<char>, Seq<char>)> {
    let m1 = m.push((name, content));
    if ext == ".html"@ {
        m1
    } else {
        m1.push((name.subrange(0, name.len() - ext.len()) + ".html"@, content))
    }
}

/// The layout map a list of (path, source) files folds into, in file order:
/// files without a recognized suffix are ignored.
pub open spec fn spec_load_from(
    files: Seq<(Seq<char>, Seq<char>)>,
    acc: Seq<(Seq<char>, Seq<char>)>,
) -> Seq<(Seq<char>, Seq<char>)>
    decreases files.len(),
{
    if files.len() == 0 {
        acc
    } else {
        spec_load_from(
            files.subrange(1, files.len() as int),
            match extensions::spec_template_extension(files[0].0) {
                Some(e) => spec_register(acc, files[0].0, e, files[0].1),
                None => acc,
            },
        )
    }
}

/// The layout map of a file list.
pub open spec fn spec_load_layouts(files: Seq<(Seq<char>, Seq<char>)>) -> Seq<
    (Seq<char>, Seq<char>),
> {
    spec_load_from(files, Seq::empty())
}

/// Register one template source under its name and, for an aliased suffix,
/// under the canonical `.html` name as well.
#[verifier::loop_isolation(false)]
pub fn register_template(layouts: &mut StrMap, name: &str, ext: &str, content: String)
    requires
        text::is_suffix_of(ext@, name@),
    ensures
        final(layouts).entry_views() == spec_register(
            old(layouts).entry_views(),
            name@,
            ext@,
            content@,
        ),
{
    let second = content.clone();
    let ghost c = content@;
    layouts.insert(name.to_owned(), content);
    let html = text::to_chars(".html");
    let ec = text::to_chars(ext);
    proof {
        reveal_strlit(".html");
    }
    if !text::eq_chars(&ec, &html) {
        let nc = text::to_chars(name);
        let mut base = text::sub_chars(&nc, 0, nc.len() - ec.len());
        text::extend_chars(&mut base, &html);
        layouts.insert(text::from_chars(&base), second);
    }
}

/// Load the layout map from the template tree's files, handed in as
/// (relative forward-slash path, source text) pairs in walk order.
#[verifier::loop_isolation(false)]
pub fn load_layouts(files: &Vec<(String, String)>) -> (r: StrMap)
    ensures
        r.entry_views() == spec_load_layouts(
            files@.map_values(|f: (String, String)| (f.0@, f.1@)),
        ),
{
    let ghost fvs = files@.map_values(|f: (String, String)| (f.0@, f.1@));
    let mut layouts = StrMap::new();
    let mut i: usize = 0;
    proof {
        assert(fvs.subrange(0, fvs.len() as int) =~= fvs);
    }
    while i < files.len()
        invariant
            i <= files@.len(),
            spec_load_layouts(fvs) == spec_load_from(
                fvs.subrange(i as int, fvs.len() as int),
                layouts.entry_views(),
            ),
        decreases files@.len() - i,
    {
        let ghost rem = fvs.subrange(i as int, fvs.len() as int);
        proof {
            assert(rem[0] == fvs[i as int]);
            assert(rem.subrange(1, rem.len() as int) =~= fvs.subrange(
                i as int + 1,
                fvs.len() as int,
            ));
        }
        match extensions::get_template_extension(files[i].0.as_str()) {
            Some(ext) => {
                register_template(
                    &mut layouts,
                    files[i].0.as_str(),
                    ext.as_str(),
                    files[i].1.clone(),
                );
            },
            None => {
            },
        }
        i += 1;
    }
    proof {
        assert(fvs.subrange(fvs.len() as int, fvs.len() as int) =~= Seq::<
            (Seq<char>, Seq<char>),
        >::empty());
    }
    layouts
}

} // verus!
