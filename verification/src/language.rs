//! A language definition: immutable grammar and compiled highlight query,
//! plus the one mutable field, the capture-to-style theme mapping, guarded by
//! a reader/writer lock so that a snapshot read and a wholesale replacement
//! can never interleave into a torn state.

use vstd::prelude::*;
use vstd::rwlock::RwLock;
use vstd::rwlock::RwLockPredicate;
use crate::config::LanguageConfig;
use crate::config::LoadError;
use crate::paths::str_eq;
use crate::theme::Theme;
use crate::theme::ThemeMap;
use crate::theme::ThemeView;
use crate::theme::mapping_names;
use crate::theme::spec_theme_map;
use tree_sitter::Language as Grammar;
use tree_sitter::Query;

verus! {

#[verifier::external_type_specification]
#[verifier::external_body]
pub struct ExGrammar(Grammar);

#[verifier::external_type_specification]
#[verifier::external_body]
pub struct ExQuery(Query);

/// Whether highlight-query text compiles against the Rust grammar.  The
/// grammar is a fixed constant of its crate, so the outcome depends on the
/// text alone.
pub uninterp spec fn spec_rust_query_ok(s: Seq<char>) -> bool;

/// The capture names, in capture-index order, of the query that
/// highlight-query text compiles to against the Rust grammar; meaningful
/// only where `spec_rust_query_ok` holds of the text.
pub uninterp spec fn spec_rust_query_captures(s: Seq<char>) -> Seq<Seq<char>>;

/// Relies on `tree_sitter_rust::LANGUAGE` (the one fixed Rust grammar, via
/// `tree_sitter::Language::new`) and `tree_sitter::Query::new`: whether the
/// query text compiles against that grammar, and the capture names the
/// compiled query then exposes (`Query::capture_names`, a plain getter,
/// copied out one for one), depend on the text alone.  `Query::new` fails
/// exactly when the text is not valid query syntax or references node or
/// field names the grammar does not define; its error path slices the source
/// at the reported offset, which stays on a character boundary because the
/// query lexer stops at the first byte of a multibyte character.
#[verifier::external_body]
fn load_rust_query(source: &str) -> (r: Option<(Grammar, Query, Vec<String>)>)
    ensures
        r is Some <==> spec_rust_query_ok(source@),
        r matches Some(t) ==> t.2.deep_view() == spec_rust_query_captures(source@),
{
    let grammar = Grammar::new(tree_sitter_rust::LANGUAGE);
    let query = Query::new(&grammar, source).ok()?;
    let names = query.capture_names().iter().map(|name| (*name).to_owned()).collect();
    Some((grammar, query, names))
}

/// Whether `v` holds a string whose characters equal `s`.
fn vec_contains_string(v: &Vec<String>, s: &str) -> (r: bool)
    ensures
        r == v.deep_view().contains(s@),
{
    let mut i: usize = 0;
    while i < v.len()
        invariant
            i <= v.len(),
            forall|j: int| 0 <= j < i ==> v.deep_view()[j] != s@,
        decreases v.len() - i,
    {
        if str_eq(v[i].as_str(), s) {
            proof {
                assert(v.deep_view()[i as int] == s@);
            }
            return true;
        }
        i = i + 1;
    }
    proof {
        assert(!v.deep_view().contains(s@));
    }
    false
}

/// The distinct capture names, keeping each name's first occurrence and the
/// order of first occurrences.
fn dedup_names(names: &Vec<String>) -> (r: Vec<String>)
    ensures
        r.deep_view().no_duplicates(),
        forall|x: Seq<char>| r.deep_view().contains(x) <==> names.deep_view().contains(x),
{
    let mut r: Vec<String> = Vec::new();
    let mut i: usize = 0;
    while i < names.len()
        invariant
            i <= names.len(),
            r.deep_view().no_duplicates(),
            forall|x: Seq<char>| r.deep_view().contains(x) <==> names.deep_view().take(
                i as int,
            ).contains(x),
        decreases names.len() - i,
    {
        let ghost prev = r.deep_view();
        let ghost cur = names.deep_view()[i as int];
        let present = vec_contains_string(&r, names[i].as_str());
        if !present {
            r.push(names[i].clone());
            proof {
                assert(r.deep_view() =~= prev.push(cur));
            }
        }
        proof {
            assert(r.deep_view().contains(cur)) by {
                if present {
                    assert(prev.contains(cur));
                } else {
                    assert(r.deep_view()[prev.len() as int] == cur);
                }
            }
            assert(names.deep_view().take(i + 1) =~= names.deep_view().take(i as int).push(cur));
            assert forall|x: Seq<char>|
                r.deep_view().contains(x) <==> names.deep_view().take(i + 1).contains(x) by {
                if r.deep_view().contains(x) {
                    let w = choose|w: int| 0 <= w < r.deep_view().len() && r.deep_view()[w] == x;
                    if w < prev.len() {
                        assert(prev.contains(x));
                        let u = choose|u: int|
                            0 <= u < i && names.deep_view().take(i as int)[u] == x;
                        assert(names.deep_view().take(i + 1)[u] == x);
                    } else {
                        assert(x == cur);
                        assert(names.deep_view().take(i + 1)[i as int] == x);
                    }
                }
                if names.deep_view().take(i + 1).contains(x) {
                    let taken = names.deep_view().take(i + 1);
                    let w = choose|w: int| 0 <= w < taken.len() && taken[w] == x;
                    if w < i {
                        assert(names.deep_view().take(i as int)[w] == x);
                        assert(names.deep_view().take(i as int).contains(x));
                        assert(prev.contains(x));
                        let u = choose|u: int| 0 <= u < prev.len() && prev[u] == x;
                        assert(r.deep_view()[u] == x);
                    } else {
                        assert(x == cur);
                    }
                }
            }
        }
        i = i + 1;
    }
    proof {
        assert(names.deep_view().take(names@.len() as int) =~= names.deep_view());
    }
    r
}

/// The lock invariant of a language's theme mapping: the mapping is either
/// still the initial empty one, or is exactly the mapping some theme induces
/// on the language's capture names.
pub ghost struct CapturePred {
    pub captures: Seq<Seq<char>>,
}

impl RwLockPredicate<ThemeMap> for CapturePred {
    open spec fn inv(self, m: ThemeMap) -> bool {
        m@.len() == 0 || exists|t: ThemeView| m@ == spec_theme_map(self.captures, t)
    }
}

/// One supported language: immutable configuration, grammar and compiled
/// highlight query, plus its theme mapping, the sole mutable field.
pub struct Language {
    pub config: LanguageConfig,
    pub grammar: Grammar,
    pub highlight_query: Query,
    pub capture_names: Vec<String>,
    pub theme_mapping: RwLock<ThemeMap, CapturePred>,
}

impl Language {
    /// The distinct capture names of this language's highlight query.
    pub closed spec fn captures(&self) -> Seq<Seq<char>> {
        self.capture_names.deep_view()
    }

    /// The language is well-formed: its capture names are distinct and its
    /// mapping lock enforces the invariant tied to those names.
    pub closed spec fn wf(&self) -> bool {
        &&& self.theme_mapping.pred() == (CapturePred { captures: self.captures() })
        &&& self.captures().no_duplicates()
    }

    /// Assemble a language from already-loaded parts.  The stored capture
    /// names are the distinct names among `capture_names`; the theme mapping
    /// starts out empty.
    pub fn from_parts(
        config: LanguageConfig,
        grammar: Grammar,
        highlight_query: Query,
        capture_names: &Vec<String>,
    ) -> (l: Language)
        ensures
            l.wf(),
            l.config == config,
            l.grammar == grammar,
            l.highlight_query == highlight_query,
            l.captures().no_duplicates(),
            forall|x: Seq<char>| l.captures().contains(x) <==> capture_names.deep_view().contains(
                x,
            ),
    {
        let distinct = dedup_names(capture_names);
        let ghost pred = CapturePred { captures: distinct.deep_view() };
        let mapping: ThemeMap = Default::default();
        let lock = RwLock::<ThemeMap, CapturePred>::new(mapping, Ghost(pred));
        Language {
            config,
            grammar,
            highlight_query,
            capture_names: distinct,
            theme_mapping: lock,
        }
    }

    /// Load a language over the Rust grammar from its configuration and its
    /// highlight-query source.  Fails exactly when the query does not compile
    /// against the grammar; on success the language's capture names are the
    /// distinct names of the compiled query.
    pub fn new(config: LanguageConfig, query_source: &str) -> (r: Result<Language, LoadError>)
        ensures
            r is Ok <==> spec_rust_query_ok(query_source@),
            r == Err::<Language, LoadError>(LoadError::InvalidQuery) <==> !spec_rust_query_ok(
                query_source@,
            ),
            r matches Ok(l) ==> {
                &&& l.wf()
                &&& l.config == config
                &&& l.captures().no_duplicates()
                &&& forall|x: Seq<char>|
                    l.captures().contains(x) <==> spec_rust_query_captures(
                        query_source@,
                    ).contains(x)
            },
    {
        match load_rust_query(query_source) {
            Some((grammar, query, names)) => Ok(Self::from_parts(config, grammar, query, &names)),
            None => Err(LoadError::InvalidQuery),
        }
    }

    /// An independent snapshot of the current theme mapping.  Whatever theme
    /// changes run concurrently, the snapshot is never torn: it is either the
    /// initial empty mapping or carries exactly this language's capture names
    /// as keys, in order and without duplicates.
    pub fn theme_mapping(&self) -> (m: ThemeMap)
        requires
            self.wf(),
        ensures
            m@.len() == 0 || exists|t: ThemeView| m@ == spec_theme_map(self.captures(), t),
            m@.len() != 0 ==> mapping_names(m@) =~= self.captures(),
            mapping_names(m@).no_duplicates(),
    {
        let handle = self.theme_mapping.acquire_read();
        let m = handle.borrow().clone();
        handle.release_read();
        proof {
            if m@.len() != 0 {
                let t = choose|t: ThemeView| m@ == spec_theme_map(self.captures(), t);
                crate::theme::lemma_theme_map_names(self.captures(), t);
            } else {
                assert(mapping_names(m@) =~= Seq::<Seq<char>>::empty());
            }
        }
        m
    }

    /// Recompute the full replacement mapping from this language's capture
    /// names and `theme`, and atomically install it, discarding the previous
    /// mapping.  Grammar and query are untouched; concurrent readers observe
    /// either the old mapping or the new one, never a mixture.
    pub fn set_theme(&self, theme: &Theme)
        requires
            self.wf(),
    {
        let mapping = ThemeMap::new(&self.capture_names, theme);
        let (_, handle) = self.theme_mapping.acquire_write();
        proof {
            let caps = self.theme_mapping.pred().captures;
            assert(caps == self.captures());
            assert(exists|t: ThemeView| mapping@ == spec_theme_map(caps, t)) by {
                assert(mapping@ == spec_theme_map(caps, theme@));
            }
            assert(self.theme_mapping.pred().inv(mapping));
        }
        handle.release_write(mapping);
    }
}

} // verus!
