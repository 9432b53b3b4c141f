//! A deck: a named collection of slides that can be loaded from the
//! manifest and built into its rendered pages.

use vstd::prelude::*;
use vstd::string::*;
use crate::error::Error;
use crate::layouts;
use crate::manifest;
use crate::manifest::DeckConfigCollection;
use crate::render;
use crate::slide::Slide;
use crate::strmap::StrMap;
use crate::text;
use crate::translations;
use crate::yaml;

verus! {

/// How a load attempt for a named deck turns out, as a function of the
/// manifest text, the deck name and the template tree.
pub enum LoadOutcome {
    /// The manifest file is absent.
    MissingManifest,
    /// The manifest text does not parse, or is not a mapping of decks.
    Malformed,
    /// The named deck is not declared.
    UnknownDeck,
    /// The deck resolved to an empty slide collection.
    Empty,
    /// The deck's final slide list.
    Loaded(Seq<(Seq<char>, Option<Seq<char>>)>),
}

/// The outcome of loading deck `name` from `manifest` over the template
/// tree `files`.
pub open spec fn spec_load(
    manifest: Option<Seq<char>>,
    name: Seq<char>,
    files: Seq<Seq<char>>,
) -> LoadOutcome {
    match manifest {
        None => LoadOutcome::MissingManifest,
        Some(t) => match yaml::spec_parse_yaml(t) {
            Err(_) => LoadOutcome::Malformed,
            Ok(doc) => match manifest::spec_deck_collection(doc) {
                None => LoadOutcome::Malformed,
                Some(decks) => match manifest::spec_lookup(decks, name) {
                    None => LoadOutcome::UnknownDeck,
                    Some(cfg) => {
                        let slides = manifest::spec_deck_slides(cfg, files);
                        if slides.len() == 0 {
                            LoadOutcome::Empty
                        } else {
                            LoadOutcome::Loaded(slides)
                        }
                    },
                },
            },
        },
    }
}

/// The translation map a build renders with: the locale document
/// flattened, or an empty map when the document is absent or malformed —
/// translation trouble never fails a build.
pub open spec fn spec_built_translations(t: Option<Seq<char>>) -> Seq<(Seq<char>, Seq<char>)> {
    match t {
        None => Seq::empty(),
        Some(text) => match yaml::spec_parse_yaml(text) {
            Ok(doc) => translations::flat_entries(Seq::<char>::empty(), doc),
            Err(_) => Seq::empty(),
        },
    }
}

/// The model of the environment one build renders in: the layouts folded
/// from the template tree, the built translation map, and the raw tree as
/// the source helper's file map.
pub open spec fn spec_build_model(
    tfv: Seq<(Seq<char>, Seq<char>)>,
    t: Option<Seq<char>>,
) -> render::EnvModel {
    render::EnvModel {
        layouts: layouts::spec_load_layouts(tfv),
        translations: spec_built_translations(t),
        sources: tfv,
    }
}

/// The output a successful build owes: every page family is the named
/// render of the build model over the loaded slide list — deck pages per
/// slide, the overview over the adjacency groups and the print page over
/// the numbered list when their templates are registered, nothing when
/// they are not, and the presenter pages per slide when theirs is.
pub open spec fn built_as_specified(
    b: BuiltPages,
    tfv: Seq<(Seq<char>, Seq<char>)>,
    translation: Option<Seq<char>>,
    s: Seq<(Seq<char>, Option<Seq<char>>)>,
) -> bool {
    let m = spec_build_model(tfv, translation);
    let lmap = crate::strmap::map_of(layouts::spec_load_layouts(tfv));
    b.pages.entry_views() == render::spec_collect_pages(
        render::deck_outcomes(m, s, s.len() as int),
    ) && (if lmap.contains_key("overview.html"@) {
        render::opt_html(b.overview) == render::overview_of(
            m,
            render::spec_groups(s, 1),
            s.len() as int,
        )
    } else {
        b.overview is None
    }) && (if lmap.contains_key("print.html"@) {
        render::opt_html(b.print) == render::print_of(m, render::numbered(s, 1), s.len() as int)
    } else {
        b.print is None
    }) && (if lmap.contains_key("presenter.html"@) {
        b.presenter.entry_views() == render::spec_collect_pages(
            render::presenter_outcomes(m, s, s.len() as int),
        )
    } else {
        b.presenter.entry_views() == Seq::<(Seq<char>, Seq<char>)>::empty()
    })
}

/// The rendered output of one build: the deck pages and presenter pages
/// keyed by output filename, and the optional overview and print pages.
pub struct BuiltPages {
    pub pages: StrMap,
    pub presenter: StrMap,
    pub overview: Option<String>,
    pub print: Option<String>,
}

/// A deck under construction: its name, the locale to build for, the
/// project root, and, once loaded, its slides.
pub struct Deck {
    pub name: String,
    pub lang: String,
    pub root: String,
    pub slides: Vec<Slide>,
}

impl Deck {
    /// A fresh, unloaded deck.
    pub fn new(name: &str, lang: &str, root: &str) -> (r: Deck)
        ensures
            r.name@ == name@,
            r.lang@ == lang@,
            r.root@ == root@,
            r.slides@.len() == 0,
    {
        Deck { name: name.to_owned(), lang: lang.to_owned(), root: root.to_owned(), slides: Vec::new() }
    }

    /// The manifest file's path.
    pub fn decks_config(&self) -> (r: String)
        ensures
            r@ == self.root@ + "/decks.yaml"@,
    {
        text::str_concat(self.root.as_str(), "/decks.yaml")
    }

    /// The template tree's root.
    pub fn templates_dir(&self) -> (r: String)
        ensures
            r@ == self.root@ + "/slides/templates"@,
    {
        text::str_concat(self.root.as_str(), "/slides/templates")
    }

    /// The translation documents' directory.
    pub fn translations_dir(&self) -> (r: String)
        ensures
            r@ == self.root@ + "/slides/translations"@,
    {
        text::str_concat(self.root.as_str(), "/slides/translations")
    }

    /// The asset tree's root.
    pub fn assets_dir(&self) -> (r: String)
        ensures
            r@ == self.root@ + "/slides/assets"@,
    {
        text::str_concat(self.root.as_str(), "/slides/assets")
    }

    /// The output directory.
    pub fn output_dir(&self) -> (r: String)
        ensures
            r@ == self.root@ + "/output"@,
    {
        text::str_concat(self.root.as_str(), "/output")
    }

    /// The locale's translation file path.
    pub fn translation_file(&self) -> (r: String)
        ensures
            r@ == self.root@ + "/slides/translations/"@ + self.lang@ + ".yaml"@,
    {
        let mut s = text::str_concat(self.root.as_str(), "/slides/translations/");
        s.append(self.lang.as_str());
        s.append(".yaml");
        s
    }

    /// Load the deck's slides: resolve the manifest, find the deck, collect
    /// and order its slides.  `manifest_text` is the manifest file's text,
    /// `None` if the file is absent; `files` is the template tree's
    /// relative path list in walk order.
    pub fn load(&mut self, manifest_text: Option<&str>, files: &Vec<String>) -> (r: Result<
        (),
        Error,
    >)
        ensures
            final(self).name == old(self).name,
            final(self).lang == old(self).lang,
            final(self).root == old(self).root,
            match spec_load(
                match manifest_text {
                    Some(t) => Some(t@),
                    None => None,
                },
                old(self).name@,
                files@.map_values(|f: String| f@),
            ) {
                LoadOutcome::MissingManifest => r is Err && r->Err_0 is DecksNotFound,
                LoadOutcome::Malformed => r is Err && r->Err_0 is DecksParseError,
                LoadOutcome::UnknownDeck => r is Err && r->Err_0 is DeckNotFound,
                LoadOutcome::Empty => r is Err && r->Err_0 is NoSlides,
                LoadOutcome::Loaded(s) => r is Ok && final(self).slides@.map_values(
                    |sl: Slide| sl@,
                ) == s,
            },
            r is Err ==> final(self).slides == old(self).slides,
    {
        let collection = match DeckConfigCollection::load(manifest_text) {
            Ok(c) => c,
            Err(e) => {
                return Err(e);
            },
        };
        let config = match collection.get(self.name.as_str()) {
            Ok(c) => c,
            Err(e) => {
                return Err(e);
            },
        };
        let slides = config.load_slides(files);
        if slides.len() == 0 {
            return Err(Error::NoSlides(self.name.clone()));
        }
        self.slides = slides;
        Ok(())
    }

    /// Build the deck's HTML pages: load the slides, register the layouts,
    /// flatten the locale's translations (an absent or malformed document
    /// falls back to an empty map rather than failing the build), and run
    /// the four render passes.  Writing the pages out is the caller's.
    #[verifier::loop_isolation(false)]
    pub fn build_html(
        &mut self,
        manifest_text: Option<&str>,
        template_files: &Vec<(String, String)>,
        translation_text: Option<&str>,
    ) -> (r: Result<BuiltPages, Error>)
        ensures
            final(self).name == old(self).name,
            final(self).lang == old(self).lang,
            final(self).root == old(self).root,
            match spec_load(
                match manifest_text {
                    Some(t) => Some(t@),
                    None => None,
                },
                old(self).name@,
                template_files@.map_values(|f: (String, String)| f.0@),
            ) {
                LoadOutcome::MissingManifest => r is Err && r->Err_0 is DecksNotFound,
                LoadOutcome::Malformed => r is Err && r->Err_0 is DecksParseError,
                LoadOutcome::UnknownDeck => r is Err && r->Err_0 is DeckNotFound,
                LoadOutcome::Empty => r is Err && r->Err_0 is NoSlides,
                LoadOutcome::Loaded(s) => r is Ok && final(self).slides@.map_values(
                    |sl: Slide| sl@,
                ) == s && built_as_specified(
                    r->Ok_0,
                    template_files@.map_values(|f: (String, String)| (f.0@, f.1@)),
                    match translation_text {
                        Some(t) => Some(t@),
                        None => None,
                    },
                    s,
                ),
            },
    {
        let ghost tfv = template_files@.map_values(|f: (String, String)| (f.0@, f.1@));
        let mut paths: Vec<String> = Vec::new();
        let mut i: usize = 0;
        while i < template_files.len()
            invariant
                i <= template_files@.len(),
                paths@.len() == i,
                forall|j: int| 0 <= j < i ==> (#[trigger] paths@[j])@ == template_files@[j].0@,
            decreases template_files@.len() - i,
        {
            paths.push(template_files[i].0.clone());
            i += 1;
        }
        proof {
            assert(paths@.map_values(|f: String| f@) =~= template_files@.map_values(
                |f: (String, String)| f.0@,
            ));
        }
        match self.load(manifest_text, &paths) {
            Ok(()) => {
            },
            Err(e) => {
                return Err(e);
            },
        }
        let layouts = layouts::load_layouts(template_files);
        let translations = match translation_text {
            Some(t) => match translations::load(t, self.translation_file().as_str()) {
                Ok(m) => m,
                Err(_) => StrMap::new(),
            },
            None => StrMap::new(),
        };
        let mut sources = StrMap::new();
        let mut j: usize = 0;
        while j < template_files.len()
            invariant
                j <= template_files@.len(),
                sources.entry_views() == tfv.subrange(0, j as int),
            decreases template_files@.len() - j,
        {
            let ghost before = sources.entry_views();
            sources.insert(template_files[j].0.clone(), template_files[j].1.clone());
            proof {
                assert(tfv[j as int] == (template_files@[j as int].0@, template_files@[
                    j as int
                ].1@));
                assert(sources.entry_views() =~= tfv.subrange(0, j as int + 1));
            }
            j += 1;
        }
        proof {
            assert(tfv.subrange(0, tfv.len() as int) =~= tfv);
            assert(translations.entry_views() =~= spec_built_translations(
                match translation_text {
                    Some(t) => Some(t@),
                    None => None,
                },
            ));
            assert(render::model_of(layouts, translations, sources) == spec_build_model(
                tfv,
                match translation_text {
                    Some(t) => Some(t@),
                    None => None,
                },
            ));
        }
        let pages = render::render_deck_pages(&self.slides, &layouts, &translations, &sources);
        let overview = render::render_overview(&layouts, &translations, &self.slides, &sources);
        let presenter = render::render_presenter_pages(
            &layouts,
            &translations,
            &self.slides,
            &sources,
        );
        let print = render::render_print(&layouts, &translations, &self.slides, &sources);
        Ok(BuiltPages { pages, presenter, overview, print })
    }
}

} // verus!
