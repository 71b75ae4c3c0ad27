//! Building the parallel directory walker.
//!
//! A walk request names one or more root paths and either one specified
//! language or the whole registry. The merged pattern sets are compiled into
//! a file-type filter, the filter is installed on the `ignore` crate's
//! `WalkBuilder`, and the ready `WalkParallel` handle is returned. The walker
//! is modelled by its root paths and the set of globs its filter selects.

use vstd::prelude::*;

use crate::lang::Error;
use crate::lang::Lang;
use crate::lang::all_langs_seq;
use crate::lang::lemma_canonical_names_valid;
use crate::lang::lemma_lang_in_all;
use crate::lang::lemma_name_round_trip;
use crate::lang::name_seq;
use crate::matcher::builder_defs;
use crate::matcher::builder_sels;
use crate::matcher::builder_new;
use crate::matcher::builder_build;
use crate::matcher::build_ok;
use crate::matcher::custom_globs_ok;
use crate::matcher::custom_of;
use crate::matcher::customs_ok;
use crate::matcher::default_globs;
use crate::matcher::default_globs_of;
use crate::matcher::empty_defs;
use crate::matcher::get_or_empty;
use crate::matcher::glob_ok;
use crate::matcher::merged_globs;
use crate::matcher::sel_globs;
use crate::matcher::set_compiles;
use crate::matcher::select_custom;
use crate::matcher::types_globs;
use crate::overrides::LanguageGlobs;

verus! {

#[verifier::external_type_specification]
#[verifier::external_body]
pub struct ExWalkBuilder(ignore::WalkBuilder);

#[verifier::external_type_specification]
#[verifier::external_body]
pub struct ExWalkParallel(ignore::WalkParallel);

/// The root paths a walk builder holds, in the order given.
pub uninterp spec fn wb_roots(b: ignore::WalkBuilder) -> Seq<Seq<char>>;

/// The root paths of a ready parallel walker.
pub uninterp spec fn walk_roots(w: ignore::WalkParallel) -> Seq<Seq<char>>;

/// The globs of the file-type filter installed on a ready parallel walker.
pub uninterp spec fn walk_globs(w: ignore::WalkParallel) -> Set<Seq<char>>;

/// Relies on `ignore::WalkBuilder::new`: a walk builder over one root path.
#[verifier::external_body]
fn walk_new(root: &String) -> (b: ignore::WalkBuilder)
    ensures
        wb_roots(b) == seq![root@],
{
    ignore::WalkBuilder::new(root)
}

/// Relies on `ignore::WalkBuilder::add`: one more root path, a peer of the
/// earlier ones.
#[verifier::external_body]
fn walk_add(b: &mut ignore::WalkBuilder, root: &String)
    ensures
        wb_roots(*final(b)) == wb_roots(*old(b)).push(root@),
{
    b.add(root);
}

/// Relies on `ignore::WalkBuilder::types` and `build_parallel`: installs the
/// compiled file-type filter and hands out the parallel walker over the
/// builder's roots.
#[verifier::external_body]
fn walk_finish(b: &mut ignore::WalkBuilder, t: ignore::types::Types) -> (w: ignore::WalkParallel)
    ensures
        walk_roots(w) == wb_roots(*old(b)),
        walk_globs(w) == types_globs(t),
{
    b.types(t);
    b.build_parallel()
}

/// The union of the merged pattern sets of every language in the list: the
/// combined filter that decides which files a walk visits at all.
pub open spec fn combined_globs(m: Map<Lang, Seq<Seq<char>>>, langs: Seq<Lang>) -> Set<Seq<char>>
    decreases langs.len(),
{
    if langs.len() == 0 {
        Set::empty()
    } else {
        combined_globs(m, langs.drop_last()).union(merged_globs(m, langs.last()).to_set())
    }
}

/// The builder definitions after every language in the list had its merged
/// patterns added under its canonical name, in order.
pub open spec fn fold_defs(m: Map<Lang, Seq<Seq<char>>>, langs: Seq<Lang>) -> Map<
    Seq<char>,
    Seq<Seq<char>>,
>
    decreases langs.len(),
{
    if langs.len() == 0 {
        empty_defs()
    } else {
        let prev = fold_defs(m, langs.drop_last());
        let n = name_seq(langs.last());
        prev.insert(
            n,
            get_or_empty(prev, n) + default_globs_of(n) + custom_of(m, langs.last()),
        )
    }
}

/// The builder selections after every language in the list was selected.
pub open spec fn fold_sels(langs: Seq<Lang>) -> Seq<Seq<char>>
    decreases langs.len(),
{
    if langs.len() == 0 {
        Seq::empty()
    } else {
        fold_sels(langs.drop_last()).push(name_seq(langs.last()))
    }
}

/// Whether every default glob of the language compiles.
pub open spec fn defaults_ok(l: Lang) -> bool {
    forall|k: int|
        0 <= k < default_globs_of(name_seq(l)).len() ==> glob_ok(
            #[trigger] default_globs_of(name_seq(l))[k],
        )
}

/// Whether the combined inferred-mode filter, every registry language's
/// merged patterns together, fits the glob engine.
pub open spec fn combined_compiles(m: Map<Lang, Seq<Seq<char>>>) -> bool {
    set_compiles(fold_defs(m, all_langs_seq()), fold_sels(all_langs_seq()))
}

/// Whether one language's defaults merged with the given override patterns
/// fit the glob engine as a single matcher.
pub open spec fn specified_compiles(l: Lang, customs: Seq<Seq<char>>) -> bool {
    set_compiles(
        empty_defs().insert(name_seq(l), default_globs_of(name_seq(l)) + customs),
        seq![name_seq(l)],
    )
}

/// The folded builder state selects exactly the listed languages' names,
/// every selection has a definition, a definition exists only for selected
/// names, and the selected globs are exactly the combined pattern sets.
proof fn lemma_fold_build(m: Map<Lang, Seq<Seq<char>>>, langs: Seq<Lang>)
    ensures
        forall|i: int|
            0 <= i < fold_sels(langs).len() ==> fold_defs(m, langs).contains_key(
                #[trigger] fold_sels(langs)[i],
            ),
        forall|x: Seq<char>|
            #[trigger] fold_defs(m, langs).contains_key(x) ==> exists|i: int|
                0 <= i < fold_sels(langs).len() && fold_sels(langs)[i] == x,
        sel_globs(fold_defs(m, langs), fold_sels(langs)) =~= combined_globs(m, langs),
    decreases langs.len(),
{
    if langs.len() > 0 {
        let prev_langs = langs.drop_last();
        lemma_fold_build(m, prev_langs);
        let l = langs.last();
        let n = name_seq(l);
        let dd = default_globs_of(n);
        let cc = custom_of(m, l);
        let defs = fold_defs(m, langs);
        let sels = fold_sels(langs);
        let pdefs = fold_defs(m, prev_langs);
        let psels = fold_sels(prev_langs);
        let base = get_or_empty(pdefs, n);
        assert(defs == pdefs.insert(n, base + dd + cc));
        assert(sels == psels.push(n));
        assert forall|i: int| 0 <= i < sels.len() implies defs.contains_key(sels[i]) by {
            if i < psels.len() {
                assert(pdefs.contains_key(psels[i]));
            }
        }
        assert forall|x: Seq<char>| defs.contains_key(x) implies exists|i: int|
            0 <= i < sels.len() && sels[i] == x by {
            if x == n {
                assert(sels[sels.len() - 1] == x);
            } else {
                assert(pdefs.contains_key(x));
                let i = choose|i: int| 0 <= i < psels.len() && psels[i] == x;
                assert(sels[i] == x);
            }
        }
        assert forall|g: Seq<char>| sel_globs(defs, sels).contains(g) implies combined_globs(
            m,
            langs,
        ).contains(g) by {
            let i = choose|i: int| 0 <= i < sels.len() && get_or_empty(defs, sels[i]).contains(g);
            if sels[i] == n {
                let idx = choose|idx: int|
                    0 <= idx < (base + dd + cc).len() && (base + dd + cc)[idx] == g;
                if idx < base.len() {
                    assert(base[idx] == g);
                    assert(pdefs.contains_key(n));
                    let j = choose|j: int| 0 <= j < psels.len() && psels[j] == n;
                    assert(get_or_empty(pdefs, psels[j]).contains(g));
                    assert(sel_globs(pdefs, psels).contains(g));
                    assert(combined_globs(m, prev_langs).contains(g));
                } else {
                    assert(merged_globs(m, l)[idx - base.len()] == g);
                    assert(merged_globs(m, l).contains(g));
                    assert(merged_globs(m, l).to_set().contains(g));
                }
            } else {
                assert(i < psels.len());
                assert(get_or_empty(defs, sels[i]) == get_or_empty(pdefs, psels[i]));
                assert(sel_globs(pdefs, psels).contains(g));
                assert(combined_globs(m, prev_langs).contains(g));
            }
        }
        assert forall|g: Seq<char>| combined_globs(m, langs).contains(g) implies sel_globs(
            defs,
            sels,
        ).contains(g) by {
            if combined_globs(m, prev_langs).contains(g) {
                assert(sel_globs(pdefs, psels).contains(g));
                let i = choose|i: int|
                    0 <= i < psels.len() && get_or_empty(pdefs, psels[i]).contains(g);
                if psels[i] == n {
                    let idx = choose|idx: int| 0 <= idx < base.len() && base[idx] == g;
                    assert((base + dd + cc)[idx] == g);
                    assert(get_or_empty(defs, sels[i]).contains(g));
                } else {
                    assert(get_or_empty(defs, sels[i]).contains(g));
                }
            } else {
                assert(merged_globs(m, l).to_set().contains(g));
                let idx = choose|idx: int|
                    0 <= idx < merged_globs(m, l).len() && merged_globs(m, l)[idx] == g;
                assert((base + dd + cc)[base.len() + idx] == g);
                assert(get_or_empty(defs, n).contains(g));
                assert(sels[sels.len() - 1] == n);
            }
        }
    }
}

/// Every glob of the combined set comes from some listed language's merged
/// patterns.
proof fn lemma_combined_member(m: Map<Lang, Seq<Seq<char>>>, langs: Seq<Lang>, g: Seq<char>)
    requires
        combined_globs(m, langs).contains(g),
    ensures
        exists|j: int| 0 <= j < langs.len() && merged_globs(m, #[trigger] langs[j]).contains(g),
    decreases langs.len(),
{
    if langs.len() > 0 {
        if combined_globs(m, langs.drop_last()).contains(g) {
            lemma_combined_member(m, langs.drop_last(), g);
            let j = choose|j: int|
                0 <= j < langs.drop_last().len() && merged_globs(
                    m,
                    #[trigger] langs.drop_last()[j],
                ).contains(g);
            assert(langs[j] == langs.drop_last()[j]);
        } else {
            assert(merged_globs(m, langs[langs.len() - 1]).contains(g));
        }
    }
}

/// A listed language's merged patterns are all in the combined set.
proof fn lemma_merged_sub(m: Map<Lang, Seq<Seq<char>>>, langs: Seq<Lang>, j: int, g: Seq<char>)
    requires
        0 <= j < langs.len(),
        merged_globs(m, langs[j]).contains(g),
    ensures
        combined_globs(m, langs).contains(g),
    decreases langs.len(),
{
    if j == langs.len() - 1 {
        assert(merged_globs(m, langs.last()).to_set().contains(g));
    } else {
        assert(langs.drop_last()[j] == langs[j]);
        lemma_merged_sub(m, langs.drop_last(), j, g);
    }
}

/// Build the inferred-mode walker: every registry language's merged patterns
/// drive one combined file-type filter over the given root paths. Fails with
/// `EmptyPaths` on zero roots and with `PatternCompileError` exactly when
/// some override glob does not compile, or the combined filter does not fit
/// the glob engine.
#[verifier::loop_isolation(false)]
pub fn build_files(paths: Vec<String>, language_globs: &LanguageGlobs) -> (r: Result<
    ignore::WalkParallel,
    Error,
>)
    ensures
        match r {
            Ok(w) => {
                &&& paths@.len() > 0
                &&& customs_ok(language_globs@)
                &&& combined_compiles(language_globs@)
                &&& walk_roots(w) == paths.deep_view()
                &&& walk_globs(w) == combined_globs(language_globs@, all_langs_seq())
            },
            Err(e) => {
                &&& (e == Error::EmptyPaths <==> paths@.len() == 0)
                &&& (e == Error::EmptyPaths || e == Error::PatternCompileError)
                &&& (e == Error::PatternCompileError ==> !(customs_ok(language_globs@)
                    && combined_compiles(language_globs@)))
            },
        },
        paths@.len() > 0 && customs_ok(language_globs@) && combined_compiles(language_globs@)
            ==> r is Ok,
{
    let ghost m = language_globs@;
    if paths.len() == 0 {
        return Err(Error::EmptyPaths);
    }
    let langs = Lang::all_languages();
    let mut builder = builder_new();
    let mut i: usize = 0;
    while i < langs.len()
        invariant
            i <= langs@.len(),
            builder_defs(builder) == fold_defs(m, all_langs_seq().take(i as int)),
            builder_sels(builder) == fold_sels(all_langs_seq().take(i as int)),
            forall|j: int| 0 <= j < i ==> defaults_ok(#[trigger] all_langs_seq()[j]),
        decreases langs@.len() - i,
    {
        let lang = langs[i];
        let name = lang.canonical_name();
        proof {
            lemma_canonical_names_valid(lang);
            lemma_name_round_trip(lang);
        }
        let defaults = match default_globs(name) {
            Some(v) => v,
            None => {
                proof {
                    assert(false);
                }
                return Err(Error::PatternCompileError);
            },
        };
        let empty_vec: Vec<String> = Vec::new();
        let customs: &Vec<String> = match language_globs.get(&lang) {
            Some(v) => v,
            None => &empty_vec,
        };
        proof {
            assert(empty_vec.deep_view() =~= Seq::<Seq<char>>::empty());
            assert(customs.deep_view() == custom_of(m, lang));
        }
        select_custom(&mut builder, name, &defaults, customs);
        proof {
            let taken = all_langs_seq().take(i as int);
            let taken1 = all_langs_seq().take(i as int + 1);
            assert(taken1.drop_last() =~= taken);
            assert(taken1.last() == all_langs_seq()[i as int]);
            assert(builder_defs(builder) == fold_defs(m, taken1));
            assert(builder_sels(builder) == fold_sels(taken1));
        }
        i = i + 1;
    }
    proof {
        assert(all_langs_seq().take(langs@.len() as int) =~= all_langs_seq());
        lemma_fold_build(m, all_langs_seq());
    }
    let types = match builder_build(&builder) {
        Some(t) => t,
        None => {
            proof {
                let defs = builder_defs(builder);
                let sels = builder_sels(builder);
                assert(defs == fold_defs(m, all_langs_seq()));
                assert(sels == fold_sels(all_langs_seq()));
                if build_ok(defs, sels) {
                    assert(!combined_compiles(m));
                } else {
                let g0 = choose|g: Seq<char>|
                    #[trigger] sel_globs(defs, sels).contains(g) && !glob_ok(g);
                lemma_combined_member(m, all_langs_seq(), g0);
                let j = choose|j: int|
                    0 <= j < all_langs_seq().len() && merged_globs(
                        m,
                        #[trigger] all_langs_seq()[j],
                    ).contains(g0);
                let lj = all_langs_seq()[j];
                let idx = choose|idx: int|
                    0 <= idx < merged_globs(m, lj).len() && merged_globs(m, lj)[idx] == g0;
                if idx < default_globs_of(name_seq(lj)).len() {
                    assert(default_globs_of(name_seq(lj))[idx] == g0);
                    assert(glob_ok(g0));
                } else {
                    assert(custom_of(m, lj)[idx - default_globs_of(name_seq(lj)).len()] == g0);
                    assert(m.contains_key(lj));
                    assert(!custom_globs_ok(m, lj));
                }
                }
            }
            return Err(Error::PatternCompileError);
        },
    };
    proof {
        assert(builder_defs(builder) == fold_defs(m, all_langs_seq()));
        assert(builder_sels(builder) == fold_sels(all_langs_seq()));
        assert(combined_compiles(m));
        assert(customs_ok(m)) by {
            assert forall|l: Lang| m.contains_key(l) implies custom_globs_ok(m, l) by {
                assert forall|k: int| 0 <= k < custom_of(m, l).len() implies glob_ok(
                    custom_of(m, l)[k],
                ) by {
                    lemma_lang_in_all(l);
                    let j = choose|j: int|
                        0 <= j < all_langs_seq().len() && all_langs_seq()[j] == l;
                    let g = custom_of(m, l)[k];
                    assert(merged_globs(m, l)[default_globs_of(name_seq(l)).len() + k] == g);
                    assert(merged_globs(m, l).contains(g));
                    lemma_merged_sub(m, all_langs_seq(), j, g);
                    assert(sel_globs(builder_defs(builder), builder_sels(builder)).contains(g));
                }
            }
        }
    }
    let walk = make_walker(&paths, types);
    Ok(walk)
}

/// Seed a walk builder with the first root, add the remaining roots as
/// peers, install the filter and hand out the parallel walker.
#[verifier::loop_isolation(false)]
fn make_walker(paths: &Vec<String>, types: ignore::types::Types) -> (w: ignore::WalkParallel)
    requires
        paths@.len() > 0,
    ensures
        walk_roots(w) == paths.deep_view(),
        walk_globs(w) == types_globs(types),
{
    let mut wb = walk_new(&paths[0]);
    proof {
        assert(seq![paths@[0]@] =~= paths.deep_view().take(1));
    }
    let mut j: usize = 1;
    while j < paths.len()
        invariant
            1 <= j <= paths@.len(),
            wb_roots(wb) == paths.deep_view().take(j as int),
        decreases paths@.len() - j,
    {
        walk_add(&mut wb, &paths[j]);
        proof {
            assert(paths.deep_view().take(j as int).push(paths@[j as int]@) =~= paths.deep_view()
                .take(j as int + 1));
        }
        j = j + 1;
    }
    proof {
        assert(paths.deep_view().take(paths@.len() as int) =~= paths.deep_view());
    }
    walk_finish(&mut wb, types)
}

/// The override globs of a specified-mode request, or none.
pub open spec fn opt_globs(o: Option<Vec<String>>) -> Seq<Seq<char>> {
    match o {
        Some(v) => v.deep_view(),
        None => Seq::empty(),
    }
}

/// Whether every glob of the sequence compiles.
pub open spec fn globs_all_ok(gs: Seq<Seq<char>>) -> bool {
    forall|k: int| 0 <= k < gs.len() ==> glob_ok(#[trigger] gs[k])
}

/// Build the specified-mode walker: one language's default patterns, merged
/// with the given override patterns, filter the walk over the given root
/// paths. Fails with `EmptyPaths` on zero roots and with
/// `PatternCompileError` exactly when some override glob does not compile,
/// or the merged matcher does not fit the glob engine.
#[verifier::loop_isolation(false)]
pub(crate) fn find_files_with_lang(
    lang: &Lang,
    paths: Vec<String>,
    language_globs: Option<Vec<String>>,
) -> (r: Result<ignore::WalkParallel, Error>)
    ensures
        match r {
            Ok(w) => {
                &&& paths@.len() > 0
                &&& globs_all_ok(opt_globs(language_globs))
                &&& specified_compiles(*lang, opt_globs(language_globs))
                &&& walk_roots(w) == paths.deep_view()
                &&& walk_globs(w) == (default_globs_of(name_seq(*lang)) + opt_globs(
                    language_globs,
                )).to_set()
            },
            Err(e) => {
                &&& (e == Error::EmptyPaths <==> paths@.len() == 0)
                &&& (e == Error::EmptyPaths || e == Error::PatternCompileError)
                &&& (e == Error::PatternCompileError ==> !(globs_all_ok(opt_globs(language_globs))
                    && specified_compiles(*lang, opt_globs(language_globs))))
            },
        },
        paths@.len() > 0 && globs_all_ok(opt_globs(language_globs)) && specified_compiles(
            *lang,
            opt_globs(language_globs),
        ) ==> r is Ok,
{
    let ghost customs_spec = opt_globs(language_globs);
    if paths.len() == 0 {
        return Err(Error::EmptyPaths);
    }
    let name = lang.canonical_name();
    proof {
        lemma_canonical_names_valid(*lang);
        lemma_name_round_trip(*lang);
    }
    let defaults = match default_globs(name) {
        Some(v) => v,
        None => {
            proof {
                assert(false);
            }
            return Err(Error::PatternCompileError);
        },
    };
    let custom_file_type: Vec<String> = match language_globs {
        Some(v) => v,
        None => Vec::new(),
    };
    proof {
        assert(custom_file_type.deep_view() =~= customs_spec);
    }
    let mut builder = builder_new();
    select_custom(&mut builder, name, &defaults, &custom_file_type);
    let ghost n = name_seq(*lang);
    let ghost dd = defaults.deep_view();
    let ghost cc = custom_file_type.deep_view();
    let ghost defs = builder_defs(builder);
    let ghost sels = builder_sels(builder);
    proof {
        assert(get_or_empty(empty_defs(), n) + dd + cc =~= dd + cc);
        assert(defs == empty_defs().insert(n, dd + cc));
        assert(sels =~= seq![n]);
        assert(defs.contains_key(n) && defs[n] == dd + cc);
    }
    proof {
        assert(dd + cc == default_globs_of(n) + customs_spec);
        assert(defs == empty_defs().insert(n, default_globs_of(n) + customs_spec));
        assert(sels == seq![n]);
    }
    let types = match builder_build(&builder) {
        Some(t) => t,
        None => {
            proof {
                if build_ok(defs, sels) {
                    assert(!specified_compiles(*lang, customs_spec));
                } else {
                    let g0 = choose|g: Seq<char>|
                        #[trigger] sel_globs(defs, sels).contains(g) && !glob_ok(g);
                    assert((dd + cc).contains(g0)) by {
                        let j = choose|j: int|
                            0 <= j < sels.len() && get_or_empty(defs, sels[j]).contains(g0);
                        assert(sels[j] == n);
                    }
                    let idx = choose|idx: int| 0 <= idx < (dd + cc).len() && (dd + cc)[idx] == g0;
                    if idx < dd.len() {
                        assert(dd[idx] == g0);
                        assert(glob_ok(g0));
                    } else {
                        assert(cc[idx - dd.len()] == g0);
                    }
                }
            }
            return Err(Error::PatternCompileError);
        },
    };
    proof {
        assert(specified_compiles(*lang, customs_spec));
        assert(types_globs(types) =~= (dd + cc).to_set()) by {
            assert forall|g: Seq<char>| types_globs(types).contains(g) implies (dd
                + cc).to_set().contains(g) by {
                let j = choose|j: int|
                    0 <= j < sels.len() && get_or_empty(defs, sels[j]).contains(g);
                assert(sels[j] == n);
            }
            assert forall|g: Seq<char>| (dd + cc).to_set().contains(g) implies types_globs(
                types,
            ).contains(g) by {
                assert(get_or_empty(defs, sels[0]).contains(g));
            }
        }
        assert(globs_all_ok(cc)) by {
            assert forall|k: int| 0 <= k < cc.len() implies glob_ok(cc[k]) by {
                assert((dd + cc)[dd.len() + k] == cc[k]);
                assert((dd + cc).contains(cc[k]));
                assert(get_or_empty(defs, sels[0]).contains(cc[k]));
                assert(sel_globs(defs, sels).contains(cc[k]));
            }
        }
        assert(dd + cc =~= default_globs_of(name_seq(*lang)) + customs_spec);
    }
    let walk = make_walker(&paths, types);
    Ok(walk)
}

impl Lang {
    /// Build the specified-mode walker for this language: its default
    /// patterns, merged with the given override patterns, filter the walk
    /// over the given root paths.
    pub fn find_files(&self, paths: Vec<String>, language_globs: Option<Vec<String>>) -> (r:
        Result<ignore::WalkParallel, Error>)
        ensures
            match r {
                Ok(w) => {
                    &&& paths@.len() > 0
                    &&& globs_all_ok(opt_globs(language_globs))
                    &&& specified_compiles(*self, opt_globs(language_globs))
                    &&& walk_roots(w) == paths.deep_view()
                    &&& walk_globs(w) == (default_globs_of(name_seq(*self)) + opt_globs(
                        language_globs,
                    )).to_set()
                },
                Err(e) => {
                    &&& (e == Error::EmptyPaths <==> paths@.len() == 0)
                    &&& (e == Error::EmptyPaths || e == Error::PatternCompileError)
                    &&& (e == Error::PatternCompileError ==> !(globs_all_ok(
                        opt_globs(language_globs),
                    ) && specified_compiles(*self, opt_globs(language_globs))))
                },
            },
            paths@.len() > 0 && globs_all_ok(opt_globs(language_globs)) && specified_compiles(
                *self,
                opt_globs(language_globs),
            ) ==> r is Ok,
    {
        find_files_with_lang(self, paths, language_globs)
    }
}

} // verus!
