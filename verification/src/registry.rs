//! The language registry: an ordered sequence of shared language definitions,
//! constructed once at startup, offering path-based selection and
//! whole-registry theme broadcast.
//!
//! Selection scans the languages in registration order and returns the first
//! whose suffixes hit the path's filename or extension key; registration
//! order is the authoritative tie-break when several could match.

use std::sync::Arc;
use vstd::prelude::*;
use crate::config::LoadError;
use crate::config::spec_config_fields;
use crate::config::spec_key_match;
use crate::config::spec_opt_view;
use crate::config::parse_language_config;
use crate::language::Language;
use crate::language::spec_rust_query_captures;
use crate::language::spec_rust_query_ok;
use crate::paths::extension_of;
use crate::paths::filename_of;
use crate::paths::spec_extension;
use crate::paths::spec_filename;
use crate::theme::Theme;

verus! {

/// Whether a language matches a path: one of its suffixes exactly equals the
/// path's filename key or its extension key.
pub open spec fn lang_matches(l: Language, p: Seq<char>) -> bool {
    spec_key_match(l.config@.path_suffixes, spec_filename(p), spec_extension(spec_filename(p)))
}

/// Whether `i` is the index selection returns for `p`: the language there
/// matches and no earlier-registered one does.
pub open spec fn is_first_match(langs: Seq<Language>, p: Seq<char>, i: int) -> bool {
    &&& 0 <= i < langs.len()
    &&& lang_matches(langs[i], p)
    &&& forall|j: int| 0 <= j < i ==> !lang_matches(langs[j], p)
}

/// The embedded configuration resource of the Rust language.
pub open spec fn rust_config_text() -> Seq<char> {
    "name = \"Rust\"\npath_suffixes = [\"rs\"]\n"@
}

/// The embedded highlight-query resource of the Rust language.
pub open spec fn rust_query_text() -> Seq<char> {
    "(line_comment) @comment\n(string_literal) @string\n(function_item name: (identifier) @function)\n\"fn\" @keyword\n"@
}

fn rust_config_source() -> (s: &'static str)
    ensures
        s@ == rust_config_text(),
{
    "name = \"Rust\"\npath_suffixes = [\"rs\"]\n"
}

fn rust_query_source() -> (s: &'static str)
    ensures
        s@ == rust_query_text(),
{
    "(line_comment) @comment\n(string_literal) @string\n(function_item name: (identifier) @function)\n\"fn\" @keyword\n"
}

/// The registry: shared language definitions in registration order.
pub struct LanguageRegistry {
    pub languages: Vec<Arc<Language>>,
}

impl LanguageRegistry {
    /// The registered languages, in registration order.
    pub open spec fn lang_seq(&self) -> Seq<Language> {
        self.languages@.map_values(|a: Arc<Language>| *a)
    }

    /// Every registered language is well-formed.
    pub open spec fn wf(&self) -> bool {
        forall|i: int| 0 <= i < self.lang_seq().len() ==> (#[trigger] self.lang_seq()[i]).wf()
    }

    /// Build the registry from the embedded configuration: the Rust language
    /// alone.  Succeeds exactly when the embedded resources are sound, with
    /// the one language carrying the parsed configuration and the query's
    /// distinct capture names; fails exactly on a startup-time configuration
    /// error, telling a malformed configuration resource apart from a
    /// highlight query that does not compile against the grammar.
    pub fn new() -> (r: Result<LanguageRegistry, LoadError>)
        ensures
            r matches Ok(reg) ==> {
                &&& reg.wf()
                &&& reg.lang_seq().len() == 1
                &&& spec_config_fields(rust_config_text()) == Some(
                    (reg.lang_seq()[0].config@.name, reg.lang_seq()[0].config@.path_suffixes),
                )
                &&& reg.lang_seq()[0].captures().no_duplicates()
                &&& forall|x: Seq<char>|
                    reg.lang_seq()[0].captures().contains(x) <==> spec_rust_query_captures(
                        rust_query_text(),
                    ).contains(x)
            },
            r is Ok <==> spec_config_fields(rust_config_text()) is Some && spec_rust_query_ok(
                rust_query_text(),
            ),
            r == Err::<LanguageRegistry, LoadError>(LoadError::InvalidConfig)
                <==> spec_config_fields(rust_config_text()) is None,
            r == Err::<LanguageRegistry, LoadError>(LoadError::InvalidQuery) <==> (
            spec_config_fields(rust_config_text()) is Some && !spec_rust_query_ok(
                rust_query_text(),
            )),
    {
        let config = match parse_language_config(rust_config_source()) {
            Ok(c) => c,
            Err(e) => {
                return Err(e);
            },
        };
        let language = match Language::new(config, rust_query_source()) {
            Ok(l) => l,
            Err(e) => {
                return Err(e);
            },
        };
        let mut languages: Vec<Arc<Language>> = Vec::new();
        languages.push(Arc::new(language));
        Ok(LanguageRegistry { languages })
    }

    /// A registry over the given languages, in the given order.
    pub fn from_languages(languages: Vec<Arc<Language>>) -> (r: LanguageRegistry)
        requires
            forall|i: int| 0 <= i < languages@.len() ==> (*#[trigger] languages@[i]).wf(),
        ensures
            r.wf(),
            r.languages@ == languages@,
    {
        let r = LanguageRegistry { languages };
        proof {
            assert forall|i: int| 0 <= i < r.lang_seq().len() implies (
            #[trigger] r.lang_seq()[i]).wf() by {
                assert(r.lang_seq()[i] == *r.languages@[i]);
            }
        }
        r
    }

    /// Recompute every registered language's theme mapping from `theme`, in
    /// registration order.
    pub fn set_theme(&self, theme: &Theme)
        requires
            self.wf(),
    {
        let mut i: usize = 0;
        while i < self.languages.len()
            invariant
                self.wf(),
                i <= self.languages.len(),
            decreases self.languages.len() - i,
        {
            proof {
                assert(self.lang_seq()[i as int] == *self.languages@[i as int]);
            }
            self.languages[i].set_theme(theme);
            i = i + 1;
        }
    }

    /// Select the first registered language any of whose suffixes exactly
    /// equals the path's filename or extension key; absence when none
    /// matches.  A lookup miss is a normal outcome, not an error.
    pub fn select_language<'a>(&'a self, path: &str) -> (r: Option<&'a Arc<Language>>)
        ensures
            match r {
                Some(l) => exists|i: int|
                    is_first_match(self.lang_seq(), path@, i) && **l == self.lang_seq()[i],
                None => forall|i: int|
                    0 <= i < self.lang_seq().len() ==> !lang_matches(self.lang_seq()[i], path@),
            },
    {
        let filename = filename_of(path);
        let extension = extension_of(filename);
        let mut i: usize = 0;
        while i < self.languages.len()
            invariant
                i <= self.languages.len(),
                filename@ == spec_filename(path@),
                spec_opt_view(extension) == spec_extension(spec_filename(path@)),
                forall|j: int| 0 <= j < i ==> !lang_matches(self.lang_seq()[j], path@),
            decreases self.languages.len() - i,
        {
            if self.languages[i].config.matches_keys(filename, extension) {
                proof {
                    assert(is_first_match(self.lang_seq(), path@, i as int));
                }
                return Some(&self.languages[i]);
            }
            i = i + 1;
        }
        None
    }
}

/// Wherever some language matches, a first match exists, no later than it.
pub proof fn lemma_first_match_exists(langs: Seq<Language>, p: Seq<char>, i: int)
    requires
        0 <= i < langs.len(),
        lang_matches(langs[i], p),
    ensures
        exists|j: int| is_first_match(langs, p, j) && j <= i,
    decreases i,
{
    if forall|k: int| 0 <= k < i ==> !lang_matches(langs[k], p) {
        assert(is_first_match(langs, p, i));
    } else {
        let k = choose|k: int| 0 <= k < i && lang_matches(langs[k], p);
        lemma_first_match_exists(langs, p, k);
        let j = choose|j: int| is_first_match(langs, p, j) && j <= k;
        assert(is_first_match(langs, p, j) && j <= i);
    }
}

/// A path whose filename exactly equals a suffix registered at index `i` is
/// selected: selection returns that language, or an earlier-registered one
/// that also matches.
pub proof fn lemma_filename_match_selects(langs: Seq<Language>, p: Seq<char>, i: int, k: int)
    requires
        0 <= i < langs.len(),
        0 <= k < langs[i].config@.path_suffixes.len(),
        langs[i].config@.path_suffixes[k] == spec_filename(p),
    ensures
        exists|j: int| is_first_match(langs, p, j) && j <= i,
{
    assert(crate::config::suffix_hits(
        langs[i].config@.path_suffixes[k],
        spec_filename(p),
        spec_extension(spec_filename(p)),
    ));
    assert(lang_matches(langs[i], p));
    lemma_first_match_exists(langs, p, i);
}

/// A path whose extension exactly equals a suffix registered at index `i`,
/// while no earlier-registered language matches at all, is selected: selection
/// returns exactly that language.
pub proof fn lemma_extension_match_selects(langs: Seq<Language>, p: Seq<char>, i: int, k: int)
    requires
        0 <= i < langs.len(),
        0 <= k < langs[i].config@.path_suffixes.len(),
        spec_extension(spec_filename(p)) == Some(langs[i].config@.path_suffixes[k]),
        forall|j: int| 0 <= j < i ==> !lang_matches(langs[j], p),
    ensures
        is_first_match(langs, p, i),
{
    assert(crate::config::suffix_hits(
        langs[i].config@.path_suffixes[k],
        spec_filename(p),
        spec_extension(spec_filename(p)),
    ));
}

/// A path none of whose keys exactly equals any registered suffix matches no
/// language, so selection returns absence — even where a suffix occurs inside
/// the filename or the extension without equalling either whole key.
pub proof fn lemma_no_match_selects_none(langs: Seq<Language>, p: Seq<char>)
    requires
        forall|j: int, k: int|
            0 <= j < langs.len() && 0 <= k < langs[j].config@.path_suffixes.len() ==> (
            #[trigger] langs[j].config@.path_suffixes[k]) != spec_filename(p),
        forall|j: int, k: int|
            0 <= j < langs.len() && 0 <= k < langs[j].config@.path_suffixes.len() ==> Some(
                #[trigger] langs[j].config@.path_suffixes[k],
            ) != spec_extension(spec_filename(p)),
    ensures
        forall|j: int| 0 <= j < langs.len() ==> !lang_matches(langs[j], p),
{
    assert forall|j: int| 0 <= j < langs.len() implies !lang_matches(langs[j], p) by {
        if lang_matches(langs[j], p) {
            let k = choose|k: int|
                0 <= k < langs[j].config@.path_suffixes.len() && crate::config::suffix_hits(
                    langs[j].config@.path_suffixes[k],
                    spec_filename(p),
                    spec_extension(spec_filename(p)),
                );
            assert(langs[j].config@.path_suffixes[k] != spec_filename(p));
        }
    }
}

/// Registration order is authoritative: where the languages at `i` and at a
/// later `j` could both match, selection never returns the later one — the
/// first match sits at or before `i`.
pub proof fn lemma_registration_order_wins(langs: Seq<Language>, p: Seq<char>, i: int, j: int)
    requires
        0 <= i < j < langs.len(),
        lang_matches(langs[i], p),
        lang_matches(langs[j], p),
    ensures
        exists|k: int| is_first_match(langs, p, k) && k <= i < j,
        forall|m: int| is_first_match(langs, p, m) ==> m <= i,
{
    lemma_first_match_exists(langs, p, i);
    let k = choose|k: int| is_first_match(langs, p, k) && k <= i;
    assert(is_first_match(langs, p, k) && k <= i < j);
    assert forall|m: int| is_first_match(langs, p, m) implies m <= i by {
        if m > i {
            assert(lang_matches(langs[i], p));
        }
    }
}

} // verus!
