//! File-type matchers, and the language lookup built on them.
//!
//! A matcher is compiled with the `ignore` crate's `TypesBuilder`: glob
//! definitions are added under a file-type name, names are selected, and
//! `build` compiles the selected globs into a `Types` matcher. The builder
//! state is modelled by two named views, its definitions and its selections,
//! and a built matcher by the set of globs it whitelists against.
//!
//! `LangOption` is the lookup side: either one specified language, or one
//! compiled matcher per registry language, queried in registry order.

use vstd::prelude::*;

use crate::lang::Lang;
use crate::lang::Error;
use crate::lang::all_langs_seq;
use crate::lang::lang_by_name;
use crate::lang::lemma_canonical_names_valid;
use crate::lang::lemma_lang_in_all;
use crate::lang::lemma_name_round_trip;
use crate::lang::name_seq;
use crate::lang::valid_type_name;
use crate::overrides::LanguageGlobs;

verus! {

#[verifier::external_type_specification]
#[verifier::external_body]
pub struct ExTypesBuilder(ignore::types::TypesBuilder);

#[verifier::external_type_specification]
#[verifier::external_body]
pub struct ExTypes(ignore::types::Types);

/// The glob definitions a builder holds, keyed by file-type name, each in the
/// order added.
pub uninterp spec fn builder_defs(b: ignore::types::TypesBuilder) -> Map<Seq<char>, Seq<Seq<char>>>;

/// The file-type names a builder has selected, in the order selected.
pub uninterp spec fn builder_sels(b: ignore::types::TypesBuilder) -> Seq<Seq<char>>;

/// The globs a built matcher whitelists against.
pub uninterp spec fn types_globs(t: ignore::types::Types) -> Set<Seq<char>>;

/// Whether a glob pattern matches a path's final file-name component, in the
/// `ignore` crate's glob syntax.
pub uninterp spec fn glob_match(glob: Seq<char>, path: Seq<char>) -> bool;

/// Whether a glob pattern has well-formed syntax, so that it compiles.
pub uninterp spec fn glob_ok(glob: Seq<char>) -> bool;

/// The registry's default extension globs for the language of a canonical
/// name.
pub uninterp spec fn default_globs_of(name: Seq<char>) -> Seq<Seq<char>>;

/// A definition's globs, or the empty sequence where none was added.
pub open spec fn get_or_empty(defs: Map<Seq<char>, Seq<Seq<char>>>, name: Seq<char>) -> Seq<
    Seq<char>,
> {
    if defs.contains_key(name) {
        defs[name]
    } else {
        Seq::empty()
    }
}

/// The globs of the selected definitions: what a successful build compiles.
pub open spec fn sel_globs(defs: Map<Seq<char>, Seq<Seq<char>>>, sels: Seq<Seq<char>>) -> Set<
    Seq<char>,
> {
    Set::new(
        |g: Seq<char>|
            exists|i: int|
                0 <= i < sels.len() && get_or_empty(defs, #[trigger] sels[i]).contains(g),
    )
}

/// The per-glob conditions a successful build needs: every selection has a
/// definition and every selected glob parses on its own.
pub open spec fn build_ok(defs: Map<Seq<char>, Seq<Seq<char>>>, sels: Seq<Seq<char>>) -> bool {
    &&& forall|i: int| 0 <= i < sels.len() ==> defs.contains_key(#[trigger] sels[i])
    &&& forall|g: Seq<char>| #[trigger] sel_globs(defs, sels).contains(g) ==> glob_ok(g)
}

/// Whether the glob engine compiles the selected definitions' globs, taken
/// together, into one matcher. The combined automaton is built under a fixed
/// capacity limit, so beyond each glob parsing on its own, success depends on
/// the selected globs jointly; this names that joint condition.
pub uninterp spec fn set_compiles(defs: Map<Seq<char>, Seq<Seq<char>>>, sels: Seq<Seq<char>>) -> bool;

/// An empty definition table.
pub open spec fn empty_defs() -> Map<Seq<char>, Seq<Seq<char>>> {
    Map::empty()
}

/// Whether some glob of the set matches the path: `glob_match` applied across
/// the set.
pub open spec fn has_match(globs: Set<Seq<char>>, g: Seq<char>, path: Seq<char>) -> bool {
    globs.contains(g) && glob_match(g, path)
}

/// Whether some glob of the set matches the path.
pub open spec fn matches_any(globs: Set<Seq<char>>, path: Seq<char>) -> bool {
    exists|g: Seq<char>| #[trigger] has_match(globs, g, path)
}

/// Relies on `ignore::types::TypesBuilder::new`: a builder with no
/// definitions and no selections.
#[verifier::external_body]
pub(crate) fn builder_new() -> (b: ignore::types::TypesBuilder)
    ensures
        builder_defs(b) == empty_defs(),
        builder_sels(b) == Seq::<Seq<char>>::empty(),
{
    ignore::types::TypesBuilder::new()
}

/// Relies on `ignore::types::TypesBuilder::add`: appends the glob to the
/// named definition, creating the definition first if it is new; fails only
/// on an invalid name (the reserved word `all`, or a character that is not
/// alphanumeric), leaving the builder unchanged. Glob syntax is not checked
/// here but at build time.
#[verifier::external_body]
fn builder_add(b: &mut ignore::types::TypesBuilder, name: &str, glob: &str) -> (ok: bool)
    ensures
        ok ==> builder_defs(*final(b)) == builder_defs(*old(b)).insert(
            name@,
            get_or_empty(builder_defs(*old(b)), name@).push(glob@),
        ),
        ok ==> builder_sels(*final(b)) == builder_sels(*old(b)),
        !ok ==> *final(b) == *old(b),
        valid_type_name(name@) ==> ok,
{
    b.add(name, glob).is_ok()
}

/// Relies on `ignore::types::TypesBuilder::select` with a name other than the
/// reserved word `all`: records one more selection and leaves the
/// definitions unchanged.
#[verifier::external_body]
fn builder_select(b: &mut ignore::types::TypesBuilder, name: &str)
    requires
        name@ != "all"@,
    ensures
        builder_defs(*final(b)) == builder_defs(*old(b)),
        builder_sels(*final(b)) == builder_sels(*old(b)).push(name@),
{
    b.select(name);
}

/// Relies on `ignore::types::TypesBuilder::build`: compiles the globs of the
/// selected definitions into one matcher. It fails when a selection has no
/// definition, when a selected glob does not parse, or when the joint
/// compilation of the selected globs exceeds the glob engine's capacity;
/// `set_compiles` names that joint condition. Selections made through this
/// module are never negated, so the matcher whitelists a path exactly when
/// some selected glob matches it.
#[verifier::external_body]
pub(crate) fn builder_build(b: &ignore::types::TypesBuilder) -> (r: Option<ignore::types::Types>)
    ensures
        r is Some <==> (build_ok(builder_defs(*b), builder_sels(*b)) && set_compiles(builder_defs(*b), builder_sels(*b))),
        r matches Some(t) ==> types_globs(t) == sel_globs(builder_defs(*b), builder_sels(*b)),
{
    b.build().ok()
}

/// Relies on `ignore::types::Types::matched` with `is_dir` false, and
/// `Match::is_whitelist`: whether some selected glob matches the path's final
/// file-name component. `glob_match` names that relation.
#[verifier::external_body]
fn types_whitelisted(t: &ignore::types::Types, path: &str) -> (r: bool)
    ensures
        r == (exists|g: Seq<char>| types_globs(*t).contains(g) && glob_match(g, path@)),
{
    t.matched(std::path::Path::new(path), false).is_whitelist()
}

/// Relies on `ast_grep_language::SupportLang`: `from_str` resolves a
/// canonical name to its language, and `file_types` holds that language's
/// default extension globs, at least one, as a single definition under the
/// canonical name, each glob already compiled once by the registry itself.
#[verifier::external_body]
pub(crate) fn default_globs(name: &str) -> (r: Option<Vec<String>>)
    ensures
        r matches Some(v) ==> v.deep_view() == default_globs_of(name@),
        r matches Some(v) ==> v.deep_view().len() > 0,
        r matches Some(v) ==> forall|i: int|
            0 <= i < v.deep_view().len() ==> glob_ok(#[trigger] v.deep_view()[i]),
        lang_by_name(name@) is Some ==> r is Some,
{
    let lang = name.parse::<ast_grep_language::SupportLang>().ok()?;
    let types = lang.file_types();
    let mut globs: Vec<String> = Vec::new();
    for def in types.definitions() {
        for g in def.globs() {
            globs.push(g.clone());
        }
    }
    Some(globs)
}

/// Add glob definitions for one file type, in order, to a builder.
fn add_types(builder: &mut ignore::types::TypesBuilder, file_type: &str, globs: &Vec<String>)
    requires
        valid_type_name(file_type@),
    ensures
        globs@.len() == 0 ==> *final(builder) == *old(builder),
        globs@.len() > 0 ==> builder_defs(*final(builder)) == builder_defs(*old(builder)).insert(
            file_type@,
            get_or_empty(builder_defs(*old(builder)), file_type@) + globs.deep_view(),
        ),
        globs@.len() > 0 ==> builder_sels(*final(builder)) == builder_sels(*old(builder)),
{
    let ghost defs0 = builder_defs(*builder);
    let ghost sels0 = builder_sels(*builder);
    let mut i: usize = 0;
    while i < globs.len()
        invariant
            i <= globs@.len(),
            valid_type_name(file_type@),
            i == 0 ==> *builder == *old(builder),
            i > 0 ==> builder_defs(*builder) == defs0.insert(
                file_type@,
                get_or_empty(defs0, file_type@) + globs.deep_view().take(i as int),
            ),
            i > 0 ==> builder_sels(*builder) == sels0,
            defs0 == builder_defs(*old(builder)),
            sels0 == builder_sels(*old(builder)),
        decreases globs@.len() - i,
    {
        let ghost pre = builder_defs(*builder);
        let ok = builder_add(builder, file_type, globs[i].as_str());
        proof {
            assert(ok);
            let base = get_or_empty(defs0, file_type@);
            if i == 0 {
                assert(base.push(globs@[0]@) =~= base + globs.deep_view().take(1));
            } else {
                assert(get_or_empty(pre, file_type@) == base + globs.deep_view().take(i as int));
                assert((base + globs.deep_view().take(i as int)).push(globs@[i as int]@) =~= base
                    + globs.deep_view().take(i as int + 1));
                assert(pre.insert(
                    file_type@,
                    base + globs.deep_view().take(i as int + 1),
                ) =~= defs0.insert(file_type@, base + globs.deep_view().take(i as int + 1)));
            }
        }
        i = i + 1;
    }
    proof {
        if globs@.len() > 0 {
            assert(globs.deep_view().take(globs@.len() as int) =~= globs.deep_view());
        }
    }
}

/// Add one file type's default and custom globs and select it: after the
/// call the type's definition holds the defaults then the customs, and the
/// type is selected.
pub(crate) fn select_custom(
    builder: &mut ignore::types::TypesBuilder,
    file_type: &str,
    default_types: &Vec<String>,
    custom_suffix_list: &Vec<String>,
)
    requires
        valid_type_name(file_type@),
        default_types.deep_view().len() > 0,
    ensures
        builder_defs(*final(builder)) == builder_defs(*old(builder)).insert(
            file_type@,
            get_or_empty(builder_defs(*old(builder)), file_type@) + default_types.deep_view()
                + custom_suffix_list.deep_view(),
        ),
        builder_sels(*final(builder)) == builder_sels(*old(builder)).push(file_type@),
{
    let ghost defs0 = builder_defs(*builder);
    let ghost base = get_or_empty(defs0, file_type@);
    add_types(builder, file_type, default_types);
    let ghost defs1 = builder_defs(*builder);
    add_types(builder, file_type, custom_suffix_list);
    proof {
        let d = default_types.deep_view();
        let c = custom_suffix_list.deep_view();
        assert(defs1 == defs0.insert(file_type@, base + d));
        if c.len() == 0 {
            assert(base + d + c =~= base + d);
            assert(builder_defs(*builder) =~= defs0.insert(file_type@, base + d + c));
        } else {
            assert(get_or_empty(defs1, file_type@) == base + d);
            assert(base + d + c =~= (base + d) + c);
            assert(defs1.insert(file_type@, (base + d) + c) =~= defs0.insert(
                file_type@,
                base + d + c,
            ));
        }
    }
    builder_select(builder, file_type);
}

/// A language's override patterns in the map, or none.
pub open spec fn custom_of(m: Map<Lang, Seq<Seq<char>>>, l: Lang) -> Seq<Seq<char>> {
    if m.contains_key(l) {
        m[l]
    } else {
        Seq::empty()
    }
}

/// The merged pattern sequence for one language: its registry defaults, then
/// its overrides. Defaults are never cleared; overrides only add.
pub open spec fn merged_globs(m: Map<Lang, Seq<Seq<char>>>, l: Lang) -> Seq<Seq<char>> {
    default_globs_of(name_seq(l)) + custom_of(m, l)
}

/// Whether every override glob of one language compiles.
pub open spec fn custom_globs_ok(m: Map<Lang, Seq<Seq<char>>>, l: Lang) -> bool {
    forall|k: int| 0 <= k < custom_of(m, l).len() ==> glob_ok(#[trigger] custom_of(m, l)[k])
}

/// Whether every override glob in the map compiles.
pub open spec fn customs_ok(m: Map<Lang, Seq<Seq<char>>>) -> bool {
    forall|l: Lang| #[trigger] m.contains_key(l) ==> custom_globs_ok(m, l)
}

/// Whether one language's merged matcher, built under its canonical name,
/// compiles as a whole.
pub open spec fn lang_set_compiles(m: Map<Lang, Seq<Seq<char>>>, l: Lang) -> bool {
    set_compiles(empty_defs().insert(name_seq(l), merged_globs(m, l)), seq![name_seq(l)])
}

/// Whether inferred-mode construction succeeds: every override glob parses,
/// and every language's merged matcher fits the glob engine.
pub open spec fn infer_compiles(m: Map<Lang, Seq<Seq<char>>>) -> bool {
    &&& customs_ok(m)
    &&& forall|j: int|
        0 <= j < all_langs_seq().len() ==> lang_set_compiles(m, #[trigger] all_langs_seq()[j])
}

/// The inferred-mode model: every registry language, in registry order, with
/// the set of globs its matcher holds.
pub open spec fn inferred_model(m: Map<Lang, Seq<Seq<char>>>) -> Seq<(Lang, Set<Seq<char>>)> {
    all_langs_seq().map_values(|l: Lang| (l, merged_globs(m, l).to_set()))
}

/// The model of stored (language, matcher) pairs.
pub open spec fn pair_model(pairs: Seq<(Lang, ignore::types::Types)>) -> Seq<
    (Lang, Set<Seq<char>>),
> {
    pairs.map_values(|p: (Lang, ignore::types::Types)| (p.0, types_globs(p.1)))
}

/// Registry-order first-match lookup: the first language whose matcher holds
/// a glob that matches the path.
pub open spec fn lookup_in(pairs: Seq<(Lang, Set<Seq<char>>)>, path: Seq<char>) -> Option<Lang>
    decreases pairs.len(),
{
    if pairs.len() == 0 {
        None
    } else if matches_any(pairs.first().1, path) {
        Some(pairs.first().0)
    } else {
        lookup_in(pairs.drop_first(), path)
    }
}

/// How a walk classifies files: either every discovered file belongs to one
/// specified language, or the language of each file is inferred by querying
/// one compiled matcher per registry language, in registry order.
pub enum LangOption {
    /// Used when the language is inferred from the file path.
    Inferred(Vec<(Lang, ignore::types::Types)>),
    /// Used when the language is specified up front.
    Specified(Lang),
}

impl LangOption {
    /// What `get_lang` returns: the specified language, or the registry-order
    /// first match over the per-language matchers.
    pub open spec fn lookup_spec(&self, path: Seq<char>) -> Option<Lang> {
        match *self {
            LangOption::Specified(l) => Some(l),
            LangOption::Inferred(pairs) => lookup_in(pair_model(pairs@), path),
        }
    }

    /// The language this option assigns to a file path: the specified one,
    /// or the first registry language whose matcher whitelists the path.
    #[verifier::loop_isolation(false)]
    pub fn get_lang(&self, path: &str) -> (r: Option<Lang>)
        ensures
            r == self.lookup_spec(path@),
    {
        match self {
            LangOption::Specified(lang) => Some(*lang),
            LangOption::Inferred(pairs) => {
                let ghost model = pair_model(pairs@);
                proof {
                    assert(model.skip(0) =~= model);
                }
                let mut i: usize = 0;
                while i < pairs.len()
                    invariant
                        i <= pairs@.len(),
                        model == pair_model(pairs@),
                        lookup_in(model, path@) == lookup_in(model.skip(i as int), path@),
                    decreases pairs@.len() - i,
                {
                    let pair = &pairs[i];
                    let hit = types_whitelisted(&pair.1, path);
                    proof {
                        assert(model.skip(i as int).first() == model[i as int]);
                        if hit {
                            let g0 = choose|g: Seq<char>|
                                types_globs(pairs@[i as int].1).contains(g) && glob_match(
                                    g,
                                    path@,
                                );
                            assert(has_match(model[i as int].1, g0, path@));
                            assert(matches_any(model[i as int].1, path@));
                            assert(model.skip(i as int).len() > 0);
                            assert(matches_any(model.skip(i as int).first().1, path@));
                            assert(lookup_in(model.skip(i as int), path@) == Some(
                                model[i as int].0,
                            ));
                            assert(model[i as int].0 == pairs@[i as int].0);
                        } else {
                            assert(!matches_any(model[i as int].1, path@)) by {
                                if matches_any(model[i as int].1, path@) {
                                    let g0 = choose|g: Seq<char>|
                                        has_match(model[i as int].1, g, path@);
                                    assert(types_globs(pairs@[i as int].1).contains(g0)
                                        && glob_match(g0, path@));
                                }
                            }
                            assert(model.skip(i as int).drop_first() =~= model.skip(i as int + 1));
                        }
                    }
                    if hit {
                        return Some(pair.0);
                    }
                    i = i + 1;
                }
                proof {
                    assert(model.skip(pairs@.len() as int) =~= Seq::<(Lang, Set<Seq<char>>)>::empty());
                }
                None
            },
        }
    }

    /// Build the inferred-mode lookup: for every registry language, merge its
    /// default patterns with its overrides and compile one matcher. Fails
    /// exactly when some override glob does not compile, or some language's
    /// merged matcher does not fit the glob engine.
    pub fn infer(language_globs: &LanguageGlobs) -> (r: Result<LangOption, Error>)
        ensures
            r matches Ok(o) ==> ({
                &&& o matches LangOption::Inferred(pairs)
                &&& pair_model(pairs@) == inferred_model(language_globs@)
                &&& infer_compiles(language_globs@)
            }),
            r matches Err(e) ==> e == Error::PatternCompileError && !infer_compiles(
                language_globs@,
            ),
    {
        let ghost m = language_globs@;
        let langs = Lang::all_languages();
        let mut pairs: Vec<(Lang, ignore::types::Types)> = Vec::new();
        proof {
            assert(pair_model(pairs@) =~= inferred_model(m).take(0));
        }
        let mut i: usize = 0;
        while i < langs.len()
            invariant
                i <= langs@.len(),
                langs@ == all_langs_seq(),
                m == language_globs@,
                pair_model(pairs@) == inferred_model(m).take(i as int),
                forall|j: int| 0 <= j < i ==> custom_globs_ok(m, #[trigger] all_langs_seq()[j]),
                forall|j: int| 0 <= j < i ==> lang_set_compiles(m, #[trigger] all_langs_seq()[j]),
            decreases langs@.len() - i,
        {
            let lang = langs[i];
            let name = lang.canonical_name();
            proof {
                lemma_canonical_names_valid(lang);
                lemma_name_round_trip(lang);
            }
            let defaults = match default_globs(name) {
                Some(v) => v,
                None => {
                    proof {
                        assert(false);
                    }
                    return Err(Error::PatternCompileError);
                },
            };
            let empty_vec: Vec<String> = Vec::new();
            let customs: &Vec<String> = match language_globs.get(&lang) {
                Some(v) => v,
                None => &empty_vec,
            };
            proof {
                assert(empty_vec.deep_view() =~= Seq::<Seq<char>>::empty());
                assert(customs.deep_view() == custom_of(m, lang));
            }
            let mut builder = builder_new();
            select_custom(&mut builder, name, &defaults, customs);
            let ghost n = name_seq(lang);
            let ghost dd = defaults.deep_view();
            let ghost cc = customs.deep_view();
            let ghost defs = builder_defs(builder);
            let ghost sels = builder_sels(builder);
            proof {
                assert(get_or_empty(empty_defs(), n) + dd + cc =~= dd + cc);
                assert(defs == empty_defs().insert(n, dd + cc));
                assert(sels =~= seq![n]);
                assert(defs.contains_key(n) && defs[n] == dd + cc);
                assert(dd + cc =~= merged_globs(m, lang));
            }
            match builder_build(&builder) {
                Some(t) => {
                    proof {
                        assert(types_globs(t) =~= merged_globs(m, lang).to_set()) by {
                            assert forall|g: Seq<char>| types_globs(t).contains(g) implies
                                merged_globs(m, lang).to_set().contains(g) by {
                                let j = choose|j: int|
                                    0 <= j < sels.len() && get_or_empty(defs, sels[j]).contains(g);
                                assert(sels[j] == n);
                                assert((dd + cc).contains(g));
                            }
                            assert forall|g: Seq<char>| merged_globs(m, lang).to_set().contains(g)
                                implies types_globs(t).contains(g) by {
                                assert((dd + cc).contains(g));
                                assert(get_or_empty(defs, sels[0]).contains(g));
                            }
                        }
                        assert(custom_globs_ok(m, lang)) by {
                            assert forall|k: int| 0 <= k < custom_of(m, lang).len() implies
                                glob_ok(custom_of(m, lang)[k]) by {
                                let g = cc[k];
                                assert((dd + cc)[dd.len() + k] == g);
                                assert((dd + cc).contains(g));
                                assert(get_or_empty(defs, sels[0]).contains(g));
                                assert(sel_globs(defs, sels).contains(g));
                            }
                        }
                        assert(defs == empty_defs().insert(n, merged_globs(m, lang)));
                        assert(sels == seq![n]);
                        assert(lang_set_compiles(m, lang));
                    }
                    pairs.push((lang, t));
                    proof {
                        assert(inferred_model(m).take(i as int + 1).drop_last() =~= inferred_model(
                            m,
                        ).take(i as int));
                        assert(pair_model(pairs@) =~= inferred_model(m).take(i as int + 1));
                    }
                },
                None => {
                    proof {
                        if build_ok(defs, sels) {
                            assert(defs == empty_defs().insert(n, merged_globs(m, lang)));
                            assert(sels == seq![n]);
                            assert(!lang_set_compiles(m, lang));
                            assert(all_langs_seq()[i as int] == lang);
                        } else {
                            let g0 = choose|g: Seq<char>|
                                #[trigger] sel_globs(defs, sels).contains(g) && !glob_ok(g);
                            assert((dd + cc).contains(g0)) by {
                                let j = choose|j: int|
                                    0 <= j < sels.len() && get_or_empty(defs, sels[j]).contains(
                                        g0,
                                    );
                                assert(sels[j] == n);
                            }
                            let idx = choose|idx: int|
                                0 <= idx < (dd + cc).len() && (dd + cc)[idx] == g0;
                            if idx < dd.len() {
                                assert(dd[idx] == g0);
                                assert(glob_ok(g0));
                            } else {
                                assert(cc[idx - dd.len()] == g0);
                                assert(m.contains_key(lang));
                                assert(!custom_globs_ok(m, lang));
                            }
                        }
                    }
                    return Err(Error::PatternCompileError);
                },
            }
            i = i + 1;
        }
        proof {
            assert(inferred_model(m).take(langs@.len() as int) =~= inferred_model(m));
            assert(customs_ok(m)) by {
                assert forall|l: Lang| m.contains_key(l) implies custom_globs_ok(m, l) by {
                    lemma_lang_in_all(l);
                    let j = choose|j: int|
                        0 <= j < all_langs_seq().len() && all_langs_seq()[j] == l;
                    assert(custom_globs_ok(m, all_langs_seq()[j]));
                }
            }
        }
        Ok(LangOption::Inferred(pairs))
    }
}

/// Building the matcher set twice from identical inputs yields functionally
/// identical matching: the inferred model, and so every lookup through it, is
/// a pure function of the override map.
pub proof fn lemma_infer_idempotent(
    m1: Map<Lang, Seq<Seq<char>>>,
    m2: Map<Lang, Seq<Seq<char>>>,
    path: Seq<char>,
)
    requires
        m1 == m2,
    ensures
        lookup_in(inferred_model(m1), path) == lookup_in(inferred_model(m2), path),
{
}

/// Override patterns are additive, not replacing: whatever the overrides, a
/// language's matcher still holds every default pattern, so a path matched by
/// a default pattern is still matched by the merged matcher.
pub proof fn lemma_overrides_additive(m: Map<Lang, Seq<Seq<char>>>, l: Lang, path: Seq<char>)
    requires
        matches_any(default_globs_of(name_seq(l)).to_set(), path),
    ensures
        matches_any(merged_globs(m, l).to_set(), path),
{
    let d = default_globs_of(name_seq(l));
    let g0 = choose|g: Seq<char>| has_match(d.to_set(), g, path);
    let idx = choose|idx: int| 0 <= idx < d.len() && d[idx] == g0;
    assert(merged_globs(m, l)[idx] == g0);
    assert(merged_globs(m, l).to_set().contains(g0));
    assert(has_match(merged_globs(m, l).to_set(), g0, path));
}

} // verus!
