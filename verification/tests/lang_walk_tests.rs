use lang_walk::Error;
use lang_walk::Lang;
use lang_walk::LangOption;
use lang_walk::LanguageGlobs;
use lang_walk::build_files;

fn lang_globs() -> LanguageGlobs {
    let lang = vec![("html".to_string(), vec!["*.vue".to_string()])];
    Lang::lang_globs(lang)
}

#[test]
fn test_lang_globs() {
    let globs = lang_globs();
    assert!(globs.contains_key(&Lang::Html));
    assert!(!globs.contains_key(&Lang::Tsx));
    assert_eq!(globs.get(&Lang::Html).unwrap(), &vec!["*.vue".to_string()]);
}

#[test]
fn test_lang_option() {
    let globs = lang_globs();
    let option = LangOption::infer(&globs).unwrap();
    let lang = option.get_lang("test.vue");
    assert_eq!(lang, Some(Lang::Html));
    let lang = option.get_lang("test.html");
    assert_eq!(lang, Some(Lang::Html));
    let lang = option.get_lang("test.js");
    assert_eq!(lang, Some(Lang::JavaScript));
    let lang = option.get_lang("test.xss");
    assert_eq!(lang, None);
}

#[test]
fn test_from_str() {
    let lang = Lang::from_str("html");
    assert_eq!(lang.unwrap(), Lang::Html);
    let lang = Lang::from_str("Html");
    assert_eq!(lang.unwrap(), Lang::Html);
    let lang = Lang::from_str("htML");
    assert_eq!(lang.unwrap(), Lang::Html);
    let lang = Lang::from_str("ocaml");
    assert!(lang.is_err());
}

#[test]
fn test_from_str_aliases() {
    assert_eq!(Lang::from_str("js").unwrap(), Lang::JavaScript);
    assert_eq!(Lang::from_str("c++").unwrap(), Lang::Cpp);
    assert_eq!(Lang::from_str("RS").unwrap(), Lang::Rust);
}

#[test]
fn test_from_str_unsupported_reports_name() {
    assert_eq!(
        Lang::from_str("ocaml"),
        Err(Error::UnsupportedLanguage("ocaml".to_string()))
    );
}

#[test]
fn test_name_round_trip() {
    for lang in Lang::all_languages() {
        let name = lang.canonical_name();
        assert_eq!(Lang::lang_of_name(name), Some(lang));
    }
}

#[test]
fn test_lang_globs_drops_unparsable_names() {
    let raw = vec![
        ("html".to_string(), vec!["*.vue".to_string()]),
        ("ocaml".to_string(), vec!["*.ml".to_string()]),
    ];
    let globs = Lang::lang_globs(raw);
    assert!(globs.contains_key(&Lang::Html));
    for lang in Lang::all_languages() {
        if lang != Lang::Html {
            assert!(!globs.contains_key(&lang));
        }
    }
}

#[test]
fn test_lang_globs_keeps_value_order() {
    let raw = vec![("rust".to_string(), vec!["a*".to_string(), "b*".to_string()])];
    let globs = Lang::lang_globs(raw);
    assert_eq!(
        globs.get(&Lang::Rust).unwrap(),
        &vec!["a*".to_string(), "b*".to_string()]
    );
}

#[test]
fn test_lang_globs_last_entry_wins() {
    let raw = vec![
        ("html".to_string(), vec!["*.vue".to_string()]),
        ("HTML".to_string(), vec!["*.svelte".to_string()]),
    ];
    let globs = Lang::lang_globs(raw);
    assert_eq!(
        globs.get(&Lang::Html).unwrap(),
        &vec!["*.svelte".to_string()]
    );
}

#[test]
fn test_build_files_empty_paths() {
    let globs = LanguageGlobs::new();
    let r = build_files(vec![], &globs);
    assert_eq!(r.err().unwrap(), Error::EmptyPaths);
}

#[test]
fn test_find_files_empty_paths() {
    let r = Lang::Rust.find_files(vec![], None);
    assert_eq!(r.err().unwrap(), Error::EmptyPaths);
}

#[test]
fn test_build_files_ok() {
    let globs = lang_globs();
    let r = build_files(vec![".".to_string()], &globs);
    assert!(r.is_ok());
}

#[test]
fn test_find_files_ok() {
    let r = Lang::Html.find_files(
        vec![".".to_string(), "..".to_string()],
        Some(vec!["*.vue".to_string()]),
    );
    assert!(r.is_ok());
}

#[test]
fn test_find_files_bad_glob() {
    let r = Lang::Html.find_files(vec![".".to_string()], Some(vec!["a{".to_string()]));
    assert_eq!(r.err().unwrap(), Error::PatternCompileError);
}

#[test]
fn test_build_files_bad_override_glob() {
    let raw = vec![("html".to_string(), vec!["a{".to_string()])];
    let globs = Lang::lang_globs(raw);
    let r = build_files(vec![".".to_string()], &globs);
    assert_eq!(r.err().unwrap(), Error::PatternCompileError);
}

#[test]
fn test_infer_bad_glob() {
    let raw = vec![("rust".to_string(), vec!["a{".to_string()])];
    let globs = Lang::lang_globs(raw);
    assert_eq!(
        LangOption::infer(&globs).err().unwrap(),
        Error::PatternCompileError
    );
}

#[test]
fn test_infer_idempotent() {
    let paths = ["test.vue", "test.html", "a.rs", "b.py", "x.unknown", "no_ext"];
    let first = LangOption::infer(&lang_globs()).unwrap();
    let second = LangOption::infer(&lang_globs()).unwrap();
    for p in paths {
        assert_eq!(first.get_lang(p), second.get_lang(p));
    }
}

#[test]
fn test_overrides_additive() {
    let raw = vec![("rust".to_string(), vec!["*.rst".to_string()])];
    let globs = Lang::lang_globs(raw);
    let option = LangOption::infer(&globs).unwrap();
    assert_eq!(option.get_lang("lib.rs"), Some(Lang::Rust));
    assert_eq!(option.get_lang("doc.rst"), Some(Lang::Rust));
}

#[test]
fn test_get_lang_specified() {
    let option = LangOption::Specified(Lang::Python);
    assert_eq!(option.get_lang("whatever.rs"), Some(Lang::Python));
}

#[test]
fn test_registry_order_tie_break() {
    let raw = vec![
        ("css".to_string(), vec!["*.both".to_string()]),
        ("html".to_string(), vec!["*.both".to_string()]),
    ];
    let globs = Lang::lang_globs(raw);
    let option = LangOption::infer(&globs).unwrap();
    // Css comes before Html in registry order, so it wins the tie.
    assert_eq!(option.get_lang("file.both"), Some(Lang::Css));
}
