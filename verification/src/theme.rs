//! Themes and per-language theme mappings.
//!
//! A theme supplies a display style for each capture name; a theme mapping is
//! the table, rebuilt wholesale on every theme change, from each capture name
//! a highlight query can emit to the style the active theme resolves for it.

use vstd::prelude::*;
use crate::paths::str_eq;

verus! {

/// A display style resolved from a theme: a packed color and attributes.
#[derive(Clone, Copy, PartialEq, Eq, Structural, Debug)]
pub struct Style {
    pub color: u32,
    pub bold: bool,
}

/// One named style: an entry of a theme, or of a theme mapping.
#[derive(PartialEq, Eq, Debug)]
pub struct StyleEntry {
    pub name: String,
    pub style: Style,
}

impl View for StyleEntry {
    type V = (Seq<char>, Style);

    open spec fn view(&self) -> (Seq<char>, Style) {
        (self.name@, self.style)
    }
}

/// Mathematical content of a theme: named styles in lookup order, and the
/// style used for names the theme does not mention.
pub ghost struct ThemeView {
    pub entries: Seq<(Seq<char>, Style)>,
    pub default_style: Style,
}

/// A user-selectable collection of named styles, independent of language.
pub struct Theme {
    pub entries: Vec<StyleEntry>,
    pub default_style: Style,
}

impl View for Theme {
    type V = ThemeView;

    open spec fn view(&self) -> ThemeView {
        ThemeView {
            entries: self.entries@.map_values(|e: StyleEntry| e@),
            default_style: self.default_style,
        }
    }
}

/// The style a theme resolves for a capture name: the first entry whose name
/// equals it, or the theme's default style when none does.
pub open spec fn spec_style_for(t: ThemeView, name: Seq<char>) -> Style
    decreases t.entries.len(),
{
    if t.entries.len() == 0 {
        t.default_style
    } else if t.entries[0].0 == name {
        t.entries[0].1
    } else {
        spec_style_for(
            ThemeView { entries: t.entries.drop_first(), default_style: t.default_style },
            name,
        )
    }
}

proof fn lemma_style_for_at(t: ThemeView, name: Seq<char>, i: int)
    requires
        0 <= i < t.entries.len(),
        t.entries[i].0 == name,
        forall|j: int| 0 <= j < i ==> t.entries[j].0 != name,
    ensures
        spec_style_for(t, name) == t.entries[i].1,
    decreases i,
{
    if i > 0 {
        lemma_style_for_at(
            ThemeView { entries: t.entries.drop_first(), default_style: t.default_style },
            name,
            i - 1,
        );
    }
}

proof fn lemma_style_for_default(t: ThemeView, name: Seq<char>)
    requires
        forall|j: int| 0 <= j < t.entries.len() ==> t.entries[j].0 != name,
    ensures
        spec_style_for(t, name) == t.default_style,
    decreases t.entries.len(),
{
    if t.entries.len() > 0 {
        lemma_style_for_default(
            ThemeView { entries: t.entries.drop_first(), default_style: t.default_style },
            name,
        );
    }
}

impl Theme {
    /// The style this theme resolves for `name`.
    pub fn style_for(&self, name: &str) -> (s: Style)
        ensures
            s == spec_style_for(self@, name@),
    {
        let mut i: usize = 0;
        while i < self.entries.len()
            invariant
                i <= self.entries.len(),
                forall|j: int| 0 <= j < i ==> self@.entries[j].0 != name@,
            decreases self.entries.len() - i,
        {
            if str_eq(self.entries[i].name.as_str(), name) {
                proof {
                    lemma_style_for_at(self@, name@, i as int);
                }
                return self.entries[i].style;
            }
            i = i + 1;
        }
        proof {
            lemma_style_for_default(self@, name@);
        }
        self.default_style
    }
}

/// The mapping a theme induces on a sequence of capture names: one entry per
/// name, in order, each resolved through the theme.
pub open spec fn spec_theme_map(captures: Seq<Seq<char>>, t: ThemeView) -> Seq<(Seq<char>, Style)> {
    Seq::new(captures.len(), |i: int| (captures[i], spec_style_for(t, captures[i])))
}

/// The keys of a mapping, in entry order.
pub open spec fn mapping_names(m: Seq<(Seq<char>, Style)>) -> Seq<Seq<char>> {
    m.map_values(|p: (Seq<char>, Style)| p.0)
}

/// A mapping computed from a sequence of capture names carries exactly those
/// names as keys, in the same order: none missing, none added.
pub proof fn lemma_theme_map_names(captures: Seq<Seq<char>>, t: ThemeView)
    ensures
        mapping_names(spec_theme_map(captures, t)) =~= captures,
{
}

/// Recomputing a mapping from the same capture names and an identical theme
/// yields identical content: repeated `set_theme` with the same theme is
/// idempotent.
pub proof fn lemma_theme_map_deterministic(captures: Seq<Seq<char>>, t1: ThemeView, t2: ThemeView)
    requires
        t1 == t2,
    ensures
        spec_theme_map(captures, t1) == spec_theme_map(captures, t2),
{
}

/// Per-language table from capture name to resolved style.  Rebuilt wholesale
/// (never patched in place) on every theme change; empty before the first
/// theme assignment.
#[derive(PartialEq, Eq, Debug)]
pub struct ThemeMap {
    pub entries: Vec<StyleEntry>,
}

impl View for ThemeMap {
    type V = Seq<(Seq<char>, Style)>;

    open spec fn view(&self) -> Seq<(Seq<char>, Style)> {
        self.entries@.map_values(|e: StyleEntry| e@)
    }
}

impl Default for ThemeMap {
    /// The empty mapping, in force until a theme is first assigned.
    fn default() -> (m: Self)
        ensures
            m@ =~= Seq::<(Seq<char>, Style)>::empty(),
    {
        ThemeMap { entries: Vec::new() }
    }
}

impl Clone for ThemeMap {
    /// An independent snapshot with identical content.
    fn clone(&self) -> (m: Self)
        ensures
            m@ == self@,
    {
        let mut entries: Vec<StyleEntry> = Vec::new();
        let mut i: usize = 0;
        while i < self.entries.len()
            invariant
                i <= self.entries.len(),
                entries@.len() == i,
                forall|j: int| 0 <= j < i ==> entries@[j]@ == self.entries@[j]@,
            decreases self.entries.len() - i,
        {
            entries.push(
                StyleEntry { name: self.entries[i].name.clone(), style: self.entries[i].style },
            );
            i = i + 1;
        }
        let m = ThemeMap { entries };
        proof {
            assert(m@ =~= self@);
        }
        m
    }
}

impl ThemeMap {
    /// The mapping derived from `capture_names` under `theme`: one entry per
    /// capture name, in order, each resolved through the theme.
    pub fn new(capture_names: &Vec<String>, theme: &Theme) -> (m: ThemeMap)
        ensures
            m@ == spec_theme_map(capture_names.deep_view(), theme@),
    {
        let mut entries: Vec<StyleEntry> = Vec::new();
        let mut i: usize = 0;
        while i < capture_names.len()
            invariant
                i <= capture_names.len(),
                entries@.len() == i,
                forall|j: int| 0 <= j < i ==> entries@[j]@ == (
                    capture_names.deep_view()[j],
                    spec_style_for(theme@, capture_names.deep_view()[j]),
                ),
            decreases capture_names.len() - i,
        {
            let style = theme.style_for(capture_names[i].as_str());
            entries.push(StyleEntry { name: capture_names[i].clone(), style });
            i = i + 1;
        }
        let m = ThemeMap { entries };
        proof {
            assert(m@ =~= spec_theme_map(capture_names.deep_view(), theme@));
        }
        m
    }
}

} // verus!
