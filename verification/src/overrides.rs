//! The language-keyed override map.
//!
//! Callers hand in override globs keyed by free-form language names;
//! `Lang::lang_globs` parses each name and keeps the entries that name a
//! supported language, dropping the rest without error. The result maps each
//! language to the extra glob patterns selected for it, later entries
//! replacing earlier ones with the same key.

use vstd::prelude::*;

use crate::lang::Lang;
use crate::lang::spec_parse;

verus! {

/// Extra glob patterns per language, keyed by `Lang`.
pub struct LanguageGlobs {
    entries: Vec<(Lang, Vec<String>)>,
}

/// The mapping denoted by a sequence of (language, patterns) entries: later
/// entries replace earlier ones with the same key.
pub open spec fn globs_map_of(entries: Seq<(Lang, Seq<Seq<char>>)>) -> Map<Lang, Seq<Seq<char>>>
    decreases entries.len(),
{
    if entries.len() == 0 {
        Map::empty()
    } else {
        globs_map_of(entries.drop_last()).insert(entries.last().0, entries.last().1)
    }
}

/// Each stored entry with its patterns abstracted to sequences of characters.
pub open spec fn entry_views(entries: Seq<(Lang, Vec<String>)>) -> Seq<(Lang, Seq<Seq<char>>)> {
    entries.map_values(|p: (Lang, Vec<String>)| (p.0, p.1.deep_view()))
}

impl View for LanguageGlobs {
    type V = Map<Lang, Seq<Seq<char>>>;

    closed spec fn view(&self) -> Map<Lang, Seq<Seq<char>>> {
        globs_map_of(entry_views(self.entries@))
    }
}

/// If an entry at `i` is the last one for its key, the denoted map sends that
/// key to the entry's patterns.
proof fn lemma_last_match(vs: Seq<(Lang, Seq<Seq<char>>)>, lang: Lang, i: int)
    requires
        0 <= i < vs.len(),
        vs[i].0 == lang,
        forall|j: int| i < j < vs.len() ==> (#[trigger] vs[j]).0 != lang,
    ensures
        globs_map_of(vs).contains_key(lang),
        globs_map_of(vs)[lang] == vs[i].1,
    decreases vs.len(),
{
    if i == vs.len() - 1 {
    } else {
        lemma_last_match(vs.drop_last(), lang, i);
    }
}

/// If no entry has the key, the denoted map lacks it.
proof fn lemma_no_match(vs: Seq<(Lang, Seq<Seq<char>>)>, lang: Lang)
    requires
        forall|j: int| 0 <= j < vs.len() ==> (#[trigger] vs[j]).0 != lang,
    ensures
        !globs_map_of(vs).contains_key(lang),
    decreases vs.len(),
{
    if vs.len() > 0 {
        lemma_no_match(vs.drop_last(), lang);
    }
}

impl LanguageGlobs {
    /// An override map with no entries.
    pub fn new() -> (r: Self)
        ensures
            r@ == Map::<Lang, Seq<Seq<char>>>::empty(),
    {
        let r = LanguageGlobs { entries: Vec::new() };
        proof {
            assert(entry_views(r.entries@) =~= Seq::<(Lang, Seq<Seq<char>>)>::empty());
        }
        r
    }

    /// Set the override patterns for one language, replacing any previous
    /// patterns for it.
    pub fn insert(&mut self, lang: Lang, patterns: Vec<String>)
        ensures
            final(self)@ == old(self)@.insert(lang, patterns.deep_view()),
    {
        self.entries.push((lang, patterns));
        proof {
            let pre = entry_views(old(self).entries@);
            let post = entry_views(self.entries@);
            assert(post =~= pre.push((lang, patterns.deep_view())));
            assert(post.drop_last() =~= pre);
        }
    }

    /// The override patterns for a language, if any were set.
    pub fn get(&self, lang: &Lang) -> (r: Option<&Vec<String>>)
        ensures
            match r {
                Some(v) => self@.contains_key(*lang) && v.deep_view() == self@[*lang],
                None => !self@.contains_key(*lang),
            },
    {
        let ghost vs = entry_views(self.entries@);
        let mut i: usize = self.entries.len();
        while i > 0
            invariant
                i <= self.entries.len(),
                vs == entry_views(self.entries@),
                forall|j: int| i <= j < vs.len() ==> (#[trigger] vs[j]).0 != *lang,
            decreases i,
        {
            i = i - 1;
            let entry = &self.entries[i];
            if entry.0 == *lang {
                proof {
                    lemma_last_match(vs, *lang, i as int);
                }
                return Some(&entry.1);
            }
        }
        proof {
            lemma_no_match(vs, *lang);
        }
        None
    }

    /// Whether any override patterns were set for a language.
    pub fn contains_key(&self, lang: &Lang) -> (r: bool)
        ensures
            r == self@.contains_key(*lang),
    {
        self.get(lang).is_some()
    }
}

/// The language-keyed map denoted by a name-keyed override list: each name
/// that parses contributes its patterns under the parsed language, and every
/// other entry is dropped.
pub open spec fn normalize_spec(entries: Seq<(String, Vec<String>)>) -> Map<Lang, Seq<Seq<char>>>
    decreases entries.len(),
{
    if entries.len() == 0 {
        Map::empty()
    } else {
        let prev = normalize_spec(entries.drop_last());
        match spec_parse(entries.last().0@) {
            Some(l) => prev.insert(l, entries.last().1.deep_view()),
            None => prev,
        }
    }
}

impl Lang {
    /// Convert a name-keyed override map into a language-keyed one. Names are
    /// parsed like `from_str`; entries whose name fails to parse are dropped
    /// silently, and values pass through unchanged.
    pub fn lang_globs(map: Vec<(String, Vec<String>)>) -> (r: LanguageGlobs)
        ensures
            r@ == normalize_spec(map@),
    {
        let mut ret = LanguageGlobs::new();
        let mut i: usize = 0;
        while i < map.len()
            invariant
                i <= map@.len(),
                ret@ == normalize_spec(map@.take(i as int)),
            decreases map@.len() - i,
        {
            let entry = &map[i];
            match Lang::from_str(entry.0.as_str()) {
                Ok(l) => {
                    let pats = entry.1.clone();
                    proof {
                        assert forall|k: int| 0 <= k < entry.1@.len() implies pats@[k]
                            == entry.1@[k] by {
                            assert(cloned::<String>(entry.1@[k], pats@[k]));
                        }
                        assert(pats@ =~= entry.1@);
                    }
                    ret.insert(l, pats);
                },
                Err(_) => {},
            }
            proof {
                assert(map@.take(i + 1).drop_last() =~= map@.take(i as int));
                assert(map@.take(i + 1).last() == map@[i as int]);
            }
            i = i + 1;
        }
        proof {
            assert(map@.take(map@.len() as int) =~= map@);
        }
        ret
    }
}

} // verus!
