//! The language registry adapter.
//!
//! `Lang` is the public identifier for each language the registry supports.
//! The registry's own identifier is reached through the language's canonical
//! name: `canonical_name` and `lang_of_name` are the two exhaustive tables
//! that convert in either direction, and `from_str` parses free-form text
//! (case-insensitively, aliases included) by asking the registry.

use vstd::prelude::*;

verus! {

/// One entry in the closed set of supported languages, declared in the
/// registry's stable iteration order.
#[derive(Clone, Copy, PartialEq, Eq, Hash, Debug, Structural)]
pub enum Lang {
    Bash,
    C,
    Cpp,
    CSharp,
    Css,
    Dart,
    Elixir,
    Go,
    Haskell,
    Hcl,
    Html,
    Java,
    JavaScript,
    Json,
    Kotlin,
    Lua,
    Markdown,
    Nix,
    Php,
    Python,
    Ruby,
    Rust,
    Scala,
    Solidity,
    Swift,
    Tsx,
    TypeScript,
    Yaml,
}

/// Everything that can go wrong while parsing a language name or building a
/// walker.
#[derive(Debug, PartialEq, Eq)]
pub enum Error {
    /// A walk was requested over zero root paths.
    EmptyPaths,
    /// A free-form language name matched no supported language; carries the
    /// original string.
    UnsupportedLanguage(String),
    /// A caller-supplied override glob has malformed syntax, or the combined
    /// matcher grew past the glob engine's capacity.
    PatternCompileError,
}

/// The canonical name of a language, as the registry prints it.
pub open spec fn name_seq(l: Lang) -> Seq<char> {
    match l {
        Lang::Bash => "Bash"@,
        Lang::C => "C"@,
        Lang::Cpp => "Cpp"@,
        Lang::CSharp => "CSharp"@,
        Lang::Css => "Css"@,
        Lang::Dart => "Dart"@,
        Lang::Elixir => "Elixir"@,
        Lang::Go => "Go"@,
        Lang::Haskell => "Haskell"@,
        Lang::Hcl => "Hcl"@,
        Lang::Html => "Html"@,
        Lang::Java => "Java"@,
        Lang::JavaScript => "JavaScript"@,
        Lang::Json => "Json"@,
        Lang::Kotlin => "Kotlin"@,
        Lang::Lua => "Lua"@,
        Lang::Markdown => "Markdown"@,
        Lang::Nix => "Nix"@,
        Lang::Php => "Php"@,
        Lang::Python => "Python"@,
        Lang::Ruby => "Ruby"@,
        Lang::Rust => "Rust"@,
        Lang::Scala => "Scala"@,
        Lang::Solidity => "Solidity"@,
        Lang::Swift => "Swift"@,
        Lang::Tsx => "Tsx"@,
        Lang::TypeScript => "TypeScript"@,
        Lang::Yaml => "Yaml"@,
    }
}

/// The inverse of `name_seq`: the language whose canonical name is `n`.
pub open spec fn lang_by_name(n: Seq<char>) -> Option<Lang> {
    if n == "Bash"@ {
        Some(Lang::Bash)
    } else if n == "C"@ {
        Some(Lang::C)
    } else if n == "Cpp"@ {
        Some(Lang::Cpp)
    } else if n == "CSharp"@ {
        Some(Lang::CSharp)
    } else if n == "Css"@ {
        Some(Lang::Css)
    } else if n == "Dart"@ {
        Some(Lang::Dart)
    } else if n == "Elixir"@ {
        Some(Lang::Elixir)
    } else if n == "Go"@ {
        Some(Lang::Go)
    } else if n == "Haskell"@ {
        Some(Lang::Haskell)
    } else if n == "Hcl"@ {
        Some(Lang::Hcl)
    } else if n == "Html"@ {
        Some(Lang::Html)
    } else if n == "Java"@ {
        Some(Lang::Java)
    } else if n == "JavaScript"@ {
        Some(Lang::JavaScript)
    } else if n == "Json"@ {
        Some(Lang::Json)
    } else if n == "Kotlin"@ {
        Some(Lang::Kotlin)
    } else if n == "Lua"@ {
        Some(Lang::Lua)
    } else if n == "Markdown"@ {
        Some(Lang::Markdown)
    } else if n == "Nix"@ {
        Some(Lang::Nix)
    } else if n == "Php"@ {
        Some(Lang::Php)
    } else if n == "Python"@ {
        Some(Lang::Python)
    } else if n == "Ruby"@ {
        Some(Lang::Ruby)
    } else if n == "Rust"@ {
        Some(Lang::Rust)
    } else if n == "Scala"@ {
        Some(Lang::Scala)
    } else if n == "Solidity"@ {
        Some(Lang::Solidity)
    } else if n == "Swift"@ {
        Some(Lang::Swift)
    } else if n == "Tsx"@ {
        Some(Lang::Tsx)
    } else if n == "TypeScript"@ {
        Some(Lang::TypeScript)
    } else if n == "Yaml"@ {
        Some(Lang::Yaml)
    } else {
        None
    }
}

/// The registry's languages in its stable iteration order, which is the
/// tie-break order for inferred-mode lookup.
pub open spec fn all_langs_seq() -> Seq<Lang> {
    seq![
        Lang::Bash,
        Lang::C,
        Lang::Cpp,
        Lang::CSharp,
        Lang::Css,
        Lang::Dart,
        Lang::Elixir,
        Lang::Go,
        Lang::Haskell,
        Lang::Hcl,
        Lang::Html,
        Lang::Java,
        Lang::JavaScript,
        Lang::Json,
        Lang::Kotlin,
        Lang::Lua,
        Lang::Markdown,
        Lang::Nix,
        Lang::Php,
        Lang::Python,
        Lang::Ruby,
        Lang::Rust,
        Lang::Scala,
        Lang::Solidity,
        Lang::Swift,
        Lang::Tsx,
        Lang::TypeScript,
        Lang::Yaml,
    ]
}

impl Lang {
    /// The canonical name of this language: its registry identifier.
    pub fn canonical_name(&self) -> (r: &'static str)
        ensures
            r@ == name_seq(*self),
    {
        match self {
            Lang::Bash => "Bash",
            Lang::C => "C",
            Lang::Cpp => "Cpp",
            Lang::CSharp => "CSharp",
            Lang::Css => "Css",
            Lang::Dart => "Dart",
            Lang::Elixir => "Elixir",
            Lang::Go => "Go",
            Lang::Haskell => "Haskell",
            Lang::Hcl => "Hcl",
            Lang::Html => "Html",
            Lang::Java => "Java",
            Lang::JavaScript => "JavaScript",
            Lang::Json => "Json",
            Lang::Kotlin => "Kotlin",
            Lang::Lua => "Lua",
            Lang::Markdown => "Markdown",
            Lang::Nix => "Nix",
            Lang::Php => "Php",
            Lang::Python => "Python",
            Lang::Ruby => "Ruby",
            Lang::Rust => "Rust",
            Lang::Scala => "Scala",
            Lang::Solidity => "Solidity",
            Lang::Swift => "Swift",
            Lang::Tsx => "Tsx",
            Lang::TypeScript => "TypeScript",
            Lang::Yaml => "Yaml",
        }
    }

    /// The inverse of `canonical_name`: the language of a canonical name,
    /// or `None` for any other string (exact match, case-sensitive).
    pub fn lang_of_name(name: &str) -> (r: Option<Lang>)
        ensures
            r == lang_by_name(name@),
    {
        let n = name.to_owned();
        if n == "Bash".to_owned() {
            Some(Lang::Bash)
        } else if n == "C".to_owned() {
            Some(Lang::C)
        } else if n == "Cpp".to_owned() {
            Some(Lang::Cpp)
        } else if n == "CSharp".to_owned() {
            Some(Lang::CSharp)
        } else if n == "Css".to_owned() {
            Some(Lang::Css)
        } else if n == "Dart".to_owned() {
            Some(Lang::Dart)
        } else if n == "Elixir".to_owned() {
            Some(Lang::Elixir)
        } else if n == "Go".to_owned() {
            Some(Lang::Go)
        } else if n == "Haskell".to_owned() {
            Some(Lang::Haskell)
        } else if n == "Hcl".to_owned() {
            Some(Lang::Hcl)
        } else if n == "Html".to_owned() {
            Some(Lang::Html)
        } else if n == "Java".to_owned() {
            Some(Lang::Java)
        } else if n == "JavaScript".to_owned() {
            Some(Lang::JavaScript)
        } else if n == "Json".to_owned() {
            Some(Lang::Json)
        } else if n == "Kotlin".to_owned() {
            Some(Lang::Kotlin)
        } else if n == "Lua".to_owned() {
            Some(Lang::Lua)
        } else if n == "Markdown".to_owned() {
            Some(Lang::Markdown)
        } else if n == "Nix".to_owned() {
            Some(Lang::Nix)
        } else if n == "Php".to_owned() {
            Some(Lang::Php)
        } else if n == "Python".to_owned() {
            Some(Lang::Python)
        } else if n == "Ruby".to_owned() {
            Some(Lang::Ruby)
        } else if n == "Rust".to_owned() {
            Some(Lang::Rust)
        } else if n == "Scala".to_owned() {
            Some(Lang::Scala)
        } else if n == "Solidity".to_owned() {
            Some(Lang::Solidity)
        } else if n == "Swift".to_owned() {
            Some(Lang::Swift)
        } else if n == "Tsx".to_owned() {
            Some(Lang::Tsx)
        } else if n == "TypeScript".to_owned() {
            Some(Lang::TypeScript)
        } else if n == "Yaml".to_owned() {
            Some(Lang::Yaml)
        } else {
            None
        }
    }

    /// All supported languages, in the registry's iteration order.
    pub fn all_languages() -> (r: Vec<Lang>)
        ensures
            r@ == all_langs_seq(),
    {
        let mut v: Vec<Lang> = Vec::new();
        v.push(Lang::Bash);
        v.push(Lang::C);
        v.push(Lang::Cpp);
        v.push(Lang::CSharp);
        v.push(Lang::Css);
        v.push(Lang::Dart);
        v.push(Lang::Elixir);
        v.push(Lang::Go);
        v.push(Lang::Haskell);
        v.push(Lang::Hcl);
        v.push(Lang::Html);
        v.push(Lang::Java);
        v.push(Lang::JavaScript);
        v.push(Lang::Json);
        v.push(Lang::Kotlin);
        v.push(Lang::Lua);
        v.push(Lang::Markdown);
        v.push(Lang::Nix);
        v.push(Lang::Php);
        v.push(Lang::Python);
        v.push(Lang::Ruby);
        v.push(Lang::Rust);
        v.push(Lang::Scala);
        v.push(Lang::Solidity);
        v.push(Lang::Swift);
        v.push(Lang::Tsx);
        v.push(Lang::TypeScript);
        v.push(Lang::Yaml);
        proof {
            assert(v@ =~= all_langs_seq());
        }
        v
    }
}

/// Converting a language to its registry identifier and back yields the
/// original language: the two name tables form a bijection.
pub proof fn lemma_name_round_trip(l: Lang)
    ensures
        lang_by_name(name_seq(l)) == Some(l),
{
    reveal_strlit("Bash");
    reveal_strlit("C");
    reveal_strlit("Cpp");
    reveal_strlit("CSharp");
    reveal_strlit("Css");
    reveal_strlit("Dart");
    reveal_strlit("Elixir");
    reveal_strlit("Go");
    reveal_strlit("Haskell");
    reveal_strlit("Hcl");
    reveal_strlit("Html");
    reveal_strlit("Java");
    reveal_strlit("JavaScript");
    reveal_strlit("Json");
    reveal_strlit("Kotlin");
    reveal_strlit("Lua");
    reveal_strlit("Markdown");
    reveal_strlit("Nix");
    reveal_strlit("Php");
    reveal_strlit("Python");
    reveal_strlit("Ruby");
    reveal_strlit("Rust");
    reveal_strlit("Scala");
    reveal_strlit("Solidity");
    reveal_strlit("Swift");
    reveal_strlit("Tsx");
    reveal_strlit("TypeScript");
    reveal_strlit("Yaml");
    assert("Bash"@.len() == 4);
    assert("C"@.len() == 1);
    assert("Cpp"@.len() == 3);
    assert("CSharp"@.len() == 6);
    assert("Css"@.len() == 3);
    assert("Dart"@.len() == 4);
    assert("Elixir"@.len() == 6);
    assert("Go"@.len() == 2);
    assert("Haskell"@.len() == 7);
    assert("Hcl"@.len() == 3);
    assert("Html"@.len() == 4);
    assert("Java"@.len() == 4);
    assert("JavaScript"@.len() == 10);
    assert("Json"@.len() == 4);
    assert("Kotlin"@.len() == 6);
    assert("Lua"@.len() == 3);
    assert("Markdown"@.len() == 8);
    assert("Nix"@.len() == 3);
    assert("Php"@.len() == 3);
    assert("Python"@.len() == 6);
    assert("Ruby"@.len() == 4);
    assert("Rust"@.len() == 4);
    assert("Scala"@.len() == 5);
    assert("Solidity"@.len() == 8);
    assert("Swift"@.len() == 5);
    assert("Tsx"@.len() == 3);
    assert("TypeScript"@.len() == 10);
    assert("Yaml"@.len() == 4);
    assert("Bash"@[0] == 'B');
    assert("C"@[0] == 'C');
    assert("Cpp"@[0] == 'C');
    assert("Cpp"@[1] == 'p');
    assert("CSharp"@[0] == 'C');
    assert("Css"@[0] == 'C');
    assert("Css"@[1] == 's');
    assert("Dart"@[0] == 'D');
    assert("Elixir"@[0] == 'E');
    assert("Go"@[0] == 'G');
    assert("Haskell"@[0] == 'H');
    assert("Hcl"@[0] == 'H');
    assert("Html"@[0] == 'H');
    assert("Java"@[0] == 'J');
    assert("Java"@[1] == 'a');
    assert("JavaScript"@[0] == 'J');
    assert("Json"@[0] == 'J');
    assert("Json"@[1] == 's');
    assert("Kotlin"@[0] == 'K');
    assert("Lua"@[0] == 'L');
    assert("Markdown"@[0] == 'M');
    assert("Nix"@[0] == 'N');
    assert("Php"@[0] == 'P');
    assert("Python"@[0] == 'P');
    assert("Ruby"@[0] == 'R');
    assert("Ruby"@[1] == 'u');
    assert("Ruby"@[2] == 'b');
    assert("Rust"@[0] == 'R');
    assert("Rust"@[1] == 'u');
    assert("Rust"@[2] == 's');
    assert("Scala"@[0] == 'S');
    assert("Scala"@[1] == 'c');
    assert("Solidity"@[0] == 'S');
    assert("Swift"@[0] == 'S');
    assert("Swift"@[1] == 'w');
    assert("Tsx"@[0] == 'T');
    assert("TypeScript"@[0] == 'T');
    assert("Yaml"@[0] == 'Y');
    match l {
        Lang::Bash => assert(lang_by_name(name_seq(l)) == Some(l)),
        Lang::C => assert(lang_by_name(name_seq(l)) == Some(l)),
        Lang::Cpp => assert(lang_by_name(name_seq(l)) == Some(l)),
        Lang::CSharp => assert(lang_by_name(name_seq(l)) == Some(l)),
        Lang::Css => assert(lang_by_name(name_seq(l)) == Some(l)),
        Lang::Dart => assert(lang_by_name(name_seq(l)) == Some(l)),
        Lang::Elixir => assert(lang_by_name(name_seq(l)) == Some(l)),
        Lang::Go => assert(lang_by_name(name_seq(l)) == Some(l)),
        Lang::Haskell => assert(lang_by_name(name_seq(l)) == Some(l)),
        Lang::Hcl => assert(lang_by_name(name_seq(l)) == Some(l)),
        Lang::Html => assert(lang_by_name(name_seq(l)) == Some(l)),
        Lang::Java => assert(lang_by_name(name_seq(l)) == Some(l)),
        Lang::JavaScript => assert(lang_by_name(name_seq(l)) == Some(l)),
        Lang::Json => assert(lang_by_name(name_seq(l)) == Some(l)),
        Lang::Kotlin => assert(lang_by_name(name_seq(l)) == Some(l)),
        Lang::Lua => assert(lang_by_name(name_seq(l)) == Some(l)),
        Lang::Markdown => assert(lang_by_name(name_seq(l)) == Some(l)),
        Lang::Nix => assert(lang_by_name(name_seq(l)) == Some(l)),
        Lang::Php => assert(lang_by_name(name_seq(l)) == Some(l)),
        Lang::Python => assert(lang_by_name(name_seq(l)) == Some(l)),
        Lang::Ruby => assert(lang_by_name(name_seq(l)) == Some(l)),
        Lang::Rust => assert(lang_by_name(name_seq(l)) == Some(l)),
        Lang::Scala => assert(lang_by_name(name_seq(l)) == Some(l)),
        Lang::Solidity => assert(lang_by_name(name_seq(l)) == Some(l)),
        Lang::Swift => assert(lang_by_name(name_seq(l)) == Some(l)),
        Lang::Tsx => assert(lang_by_name(name_seq(l)) == Some(l)),
        Lang::TypeScript => assert(lang_by_name(name_seq(l)) == Some(l)),
        Lang::Yaml => assert(lang_by_name(name_seq(l)) == Some(l)),
    }
}


/// A single ASCII character folded to lower case.
pub open spec fn ascii_lower_char(c: char) -> char {
    if 65 <= c as u32 && c as u32 <= 90 {
        ((c as u32 + 32) as char)
    } else {
        c
    }
}

/// A string folded to ASCII lower case, character by character.
pub open spec fn ascii_lower(s: Seq<char>) -> Seq<char> {
    s.map_values(|c: char| ascii_lower_char(c))
}

/// The canonical name, if any, that the registry's name/alias table assigns
/// to an ASCII-lowercased free-form name.
pub uninterp spec fn lang_name_for(lower: Seq<char>) -> Option<Seq<char>>;

/// What parsing a free-form language name yields: the registry resolves the
/// ASCII-lowercased text to a canonical name, and the name table maps that
/// name to its language.
pub open spec fn spec_parse(s: Seq<char>) -> Option<Lang> {
    match lang_name_for(ascii_lower(s)) {
        Some(n) => lang_by_name(n),
        None => None,
    }
}

/// Relies on `ast_grep_language::SupportLang`: `from_str` scans the registry's
/// name-and-alias table with `eq_ignore_ascii_case`, so its result is a
/// function of the ASCII-lowercased input alone, and `Display` prints the
/// canonical variant name, which the `lang_by_name` table recognizes.
#[verifier::external_body]
fn resolve_name(s: &str) -> (r: Option<String>)
    ensures
        match r {
            Some(n) => lang_name_for(ascii_lower(s@)) == Some(n@) && lang_by_name(n@) is Some,
            None => lang_name_for(ascii_lower(s@)) is None,
        },
{
    match s.parse::<ast_grep_language::SupportLang>() {
        Ok(l) => Some(l.to_string()),
        Err(_) => None,
    }
}

impl Lang {
    /// Parse a free-form language name, case-insensitively and with the
    /// registry's aliases, failing on any name outside the supported set.
    pub fn from_str(s: &str) -> (r: Result<Lang, Error>)
        ensures
            match r {
                Ok(l) => spec_parse(s@) == Some(l),
                Err(e) => {
                    &&& spec_parse(s@) is None
                    &&& e matches Error::UnsupportedLanguage(m) && m@ == s@
                },
            },
    {
        match resolve_name(s) {
            Some(n) => {
                match Lang::lang_of_name(n.as_str()) {
                    Some(l) => Ok(l),
                    // Unreachable: a canonical name is always in the table.
                    None => Err(Error::UnsupportedLanguage(s.to_owned())),
                }
            },
            None => Err(Error::UnsupportedLanguage(s.to_owned())),
        }
    }
}

/// Parsing is case-insensitive: two names that agree up to ASCII case parse
/// to the same result.
pub proof fn lemma_parse_case_insensitive(s1: Seq<char>, s2: Seq<char>)
    requires
        ascii_lower(s1) == ascii_lower(s2),
    ensures
        spec_parse(s1) == spec_parse(s2),
{
}

/// Two distinct languages never share a canonical name.
pub proof fn lemma_name_injective(l1: Lang, l2: Lang)
    requires
        name_seq(l1) == name_seq(l2),
    ensures
        l1 == l2,
{
    lemma_name_round_trip(l1);
    lemma_name_round_trip(l2);
}

/// An ASCII digit or letter.
pub open spec fn ascii_alnum(c: char) -> bool {
    ||| 48 <= c as u32 && c as u32 <= 57
    ||| 65 <= c as u32 && c as u32 <= 90
    ||| 97 <= c as u32 && c as u32 <= 122
}

/// A name the file-type builder accepts as a definition key: nonempty, not
/// the reserved word `all`, and ASCII alphanumeric throughout.
pub open spec fn valid_type_name(n: Seq<char>) -> bool {
    &&& n.len() > 0
    &&& n != "all"@
    &&& forall|i: int| 0 <= i < n.len() ==> ascii_alnum(#[trigger] n[i])
}

/// Every canonical language name is a name the file-type builder accepts.
pub proof fn lemma_canonical_names_valid(l: Lang)
    ensures
        valid_type_name(name_seq(l)),
{
    reveal_strlit("Bash");
    reveal_strlit("C");
    reveal_strlit("Cpp");
    reveal_strlit("CSharp");
    reveal_strlit("Css");
    reveal_strlit("Dart");
    reveal_strlit("Elixir");
    reveal_strlit("Go");
    reveal_strlit("Haskell");
    reveal_strlit("Hcl");
    reveal_strlit("Html");
    reveal_strlit("Java");
    reveal_strlit("JavaScript");
    reveal_strlit("Json");
    reveal_strlit("Kotlin");
    reveal_strlit("Lua");
    reveal_strlit("Markdown");
    reveal_strlit("Nix");
    reveal_strlit("Php");
    reveal_strlit("Python");
    reveal_strlit("Ruby");
    reveal_strlit("Rust");
    reveal_strlit("Scala");
    reveal_strlit("Solidity");
    reveal_strlit("Swift");
    reveal_strlit("Tsx");
    reveal_strlit("TypeScript");
    reveal_strlit("Yaml");
    reveal_strlit("all");
    assert("Bash"@.len() == 4);
    assert("C"@.len() == 1);
    assert("Cpp"@.len() == 3);
    assert("CSharp"@.len() == 6);
    assert("Css"@.len() == 3);
    assert("Dart"@.len() == 4);
    assert("Elixir"@.len() == 6);
    assert("Go"@.len() == 2);
    assert("Haskell"@.len() == 7);
    assert("Hcl"@.len() == 3);
    assert("Html"@.len() == 4);
    assert("Java"@.len() == 4);
    assert("JavaScript"@.len() == 10);
    assert("Json"@.len() == 4);
    assert("Kotlin"@.len() == 6);
    assert("Lua"@.len() == 3);
    assert("Markdown"@.len() == 8);
    assert("Nix"@.len() == 3);
    assert("Php"@.len() == 3);
    assert("Python"@.len() == 6);
    assert("Ruby"@.len() == 4);
    assert("Rust"@.len() == 4);
    assert("Scala"@.len() == 5);
    assert("Solidity"@.len() == 8);
    assert("Swift"@.len() == 5);
    assert("Tsx"@.len() == 3);
    assert("TypeScript"@.len() == 10);
    assert("Yaml"@.len() == 4);
    assert("all"@.len() == 3);
    assert("Bash"@[0] == 'B');
    assert("Bash"@[1] == 'a');
    assert("Bash"@[2] == 's');
    assert("Bash"@[3] == 'h');
    assert("C"@[0] == 'C');
    assert("Cpp"@[0] == 'C');
    assert("Cpp"@[1] == 'p');
    assert("Cpp"@[2] == 'p');
    assert("CSharp"@[0] == 'C');
    assert("CSharp"@[1] == 'S');
    assert("CSharp"@[2] == 'h');
    assert("CSharp"@[3] == 'a');
    assert("CSharp"@[4] == 'r');
    assert("CSharp"@[5] == 'p');
    assert("Css"@[0] == 'C');
    assert("Css"@[1] == 's');
    assert("Css"@[2] == 's');
    assert("Dart"@[0] == 'D');
    assert("Dart"@[1] == 'a');
    assert("Dart"@[2] == 'r');
    assert("Dart"@[3] == 't');
    assert("Elixir"@[0] == 'E');
    assert("Elixir"@[1] == 'l');
    assert("Elixir"@[2] == 'i');
    assert("Elixir"@[3] == 'x');
    assert("Elixir"@[4] == 'i');
    assert("Elixir"@[5] == 'r');
    assert("Go"@[0] == 'G');
    assert("Go"@[1] == 'o');
    assert("Haskell"@[0] == 'H');
    assert("Haskell"@[1] == 'a');
    assert("Haskell"@[2] == 's');
    assert("Haskell"@[3] == 'k');
    assert("Haskell"@[4] == 'e');
    assert("Haskell"@[5] == 'l');
    assert("Haskell"@[6] == 'l');
    assert("Hcl"@[0] == 'H');
    assert("Hcl"@[1] == 'c');
    assert("Hcl"@[2] == 'l');
    assert("Html"@[0] == 'H');
    assert("Html"@[1] == 't');
    assert("Html"@[2] == 'm');
    assert("Html"@[3] == 'l');
    assert("Java"@[0] == 'J');
    assert("Java"@[1] == 'a');
    assert("Java"@[2] == 'v');
    assert("Java"@[3] == 'a');
    assert("JavaScript"@[0] == 'J');
    assert("JavaScript"@[1] == 'a');
    assert("JavaScript"@[2] == 'v');
    assert("JavaScript"@[3] == 'a');
    assert("JavaScript"@[4] == 'S');
    assert("JavaScript"@[5] == 'c');
    assert("JavaScript"@[6] == 'r');
    assert("JavaScript"@[7] == 'i');
    assert("JavaScript"@[8] == 'p');
    assert("JavaScript"@[9] == 't');
    assert("Json"@[0] == 'J');
    assert("Json"@[1] == 's');
    assert("Json"@[2] == 'o');
    assert("Json"@[3] == 'n');
    assert("Kotlin"@[0] == 'K');
    assert("Kotlin"@[1] == 'o');
    assert("Kotlin"@[2] == 't');
    assert("Kotlin"@[3] == 'l');
    assert("Kotlin"@[4] == 'i');
    assert("Kotlin"@[5] == 'n');
    assert("Lua"@[0] == 'L');
    assert("Lua"@[1] == 'u');
    assert("Lua"@[2] == 'a');
    assert("Markdown"@[0] == 'M');
    assert("Markdown"@[1] == 'a');
    assert("Markdown"@[2] == 'r');
    assert("Markdown"@[3] == 'k');
    assert("Markdown"@[4] == 'd');
    assert("Markdown"@[5] == 'o');
    assert("Markdown"@[6] == 'w');
    assert("Markdown"@[7] == 'n');
    assert("Nix"@[0] == 'N');
    assert("Nix"@[1] == 'i');
    assert("Nix"@[2] == 'x');
    assert("Php"@[0] == 'P');
    assert("Php"@[1] == 'h');
    assert("Php"@[2] == 'p');
    assert("Python"@[0] == 'P');
    assert("Python"@[1] == 'y');
    assert("Python"@[2] == 't');
    assert("Python"@[3] == 'h');
    assert("Python"@[4] == 'o');
    assert("Python"@[5] == 'n');
    assert("Ruby"@[0] == 'R');
    assert("Ruby"@[1] == 'u');
    assert("Ruby"@[2] == 'b');
    assert("Ruby"@[3] == 'y');
    assert("Rust"@[0] == 'R');
    assert("Rust"@[1] == 'u');
    assert("Rust"@[2] == 's');
    assert("Rust"@[3] == 't');
    assert("Scala"@[0] == 'S');
    assert("Scala"@[1] == 'c');
    assert("Scala"@[2] == 'a');
    assert("Scala"@[3] == 'l');
    assert("Scala"@[4] == 'a');
    assert("Solidity"@[0] == 'S');
    assert("Solidity"@[1] == 'o');
    assert("Solidity"@[2] == 'l');
    assert("Solidity"@[3] == 'i');
    assert("Solidity"@[4] == 'd');
    assert("Solidity"@[5] == 'i');
    assert("Solidity"@[6] == 't');
    assert("Solidity"@[7] == 'y');
    assert("Swift"@[0] == 'S');
    assert("Swift"@[1] == 'w');
    assert("Swift"@[2] == 'i');
    assert("Swift"@[3] == 'f');
    assert("Swift"@[4] == 't');
    assert("Tsx"@[0] == 'T');
    assert("Tsx"@[1] == 's');
    assert("Tsx"@[2] == 'x');
    assert("TypeScript"@[0] == 'T');
    assert("TypeScript"@[1] == 'y');
    assert("TypeScript"@[2] == 'p');
    assert("TypeScript"@[3] == 'e');
    assert("TypeScript"@[4] == 'S');
    assert("TypeScript"@[5] == 'c');
    assert("TypeScript"@[6] == 'r');
    assert("TypeScript"@[7] == 'i');
    assert("TypeScript"@[8] == 'p');
    assert("TypeScript"@[9] == 't');
    assert("Yaml"@[0] == 'Y');
    assert("Yaml"@[1] == 'a');
    assert("Yaml"@[2] == 'm');
    assert("Yaml"@[3] == 'l');
    assert("all"@[0] == 'a');
    match l {
        Lang::Bash => assert(valid_type_name(name_seq(l))),
        Lang::C => assert(valid_type_name(name_seq(l))),
        Lang::Cpp => assert(valid_type_name(name_seq(l))),
        Lang::CSharp => assert(valid_type_name(name_seq(l))),
        Lang::Css => assert(valid_type_name(name_seq(l))),
        Lang::Dart => assert(valid_type_name(name_seq(l))),
        Lang::Elixir => assert(valid_type_name(name_seq(l))),
        Lang::Go => assert(valid_type_name(name_seq(l))),
        Lang::Haskell => assert(valid_type_name(name_seq(l))),
        Lang::Hcl => assert(valid_type_name(name_seq(l))),
        Lang::Html => assert(valid_type_name(name_seq(l))),
        Lang::Java => assert(valid_type_name(name_seq(l))),
        Lang::JavaScript => assert(valid_type_name(name_seq(l))),
        Lang::Json => assert(valid_type_name(name_seq(l))),
        Lang::Kotlin => assert(valid_type_name(name_seq(l))),
        Lang::Lua => assert(valid_type_name(name_seq(l))),
        Lang::Markdown => assert(valid_type_name(name_seq(l))),
        Lang::Nix => assert(valid_type_name(name_seq(l))),
        Lang::Php => assert(valid_type_name(name_seq(l))),
        Lang::Python => assert(valid_type_name(name_seq(l))),
        Lang::Ruby => assert(valid_type_name(name_seq(l))),
        Lang::Rust => assert(valid_type_name(name_seq(l))),
        Lang::Scala => assert(valid_type_name(name_seq(l))),
        Lang::Solidity => assert(valid_type_name(name_seq(l))),
        Lang::Swift => assert(valid_type_name(name_seq(l))),
        Lang::Tsx => assert(valid_type_name(name_seq(l))),
        Lang::TypeScript => assert(valid_type_name(name_seq(l))),
        Lang::Yaml => assert(valid_type_name(name_seq(l))),
    }
}


/// Every language appears in the registry's iteration order.
pub proof fn lemma_lang_in_all(l: Lang)
    ensures
        exists|j: int| 0 <= j < all_langs_seq().len() && all_langs_seq()[j] == l,
{
    match l {
        Lang::Bash => assert(all_langs_seq()[0] == l),
        Lang::C => assert(all_langs_seq()[1] == l),
        Lang::Cpp => assert(all_langs_seq()[2] == l),
        Lang::CSharp => assert(all_langs_seq()[3] == l),
        Lang::Css => assert(all_langs_seq()[4] == l),
        Lang::Dart => assert(all_langs_seq()[5] == l),
        Lang::Elixir => assert(all_langs_seq()[6] == l),
        Lang::Go => assert(all_langs_seq()[7] == l),
        Lang::Haskell => assert(all_langs_seq()[8] == l),
        Lang::Hcl => assert(all_langs_seq()[9] == l),
        Lang::Html => assert(all_langs_seq()[10] == l),
        Lang::Java => assert(all_langs_seq()[11] == l),
        Lang::JavaScript => assert(all_langs_seq()[12] == l),
        Lang::Json => assert(all_langs_seq()[13] == l),
        Lang::Kotlin => assert(all_langs_seq()[14] == l),
        Lang::Lua => assert(all_langs_seq()[15] == l),
        Lang::Markdown => assert(all_langs_seq()[16] == l),
        Lang::Nix => assert(all_langs_seq()[17] == l),
        Lang::Php => assert(all_langs_seq()[18] == l),
        Lang::Python => assert(all_langs_seq()[19] == l),
        Lang::Ruby => assert(all_langs_seq()[20] == l),
        Lang::Rust => assert(all_langs_seq()[21] == l),
        Lang::Scala => assert(all_langs_seq()[22] == l),
        Lang::Solidity => assert(all_langs_seq()[23] == l),
        Lang::Swift => assert(all_langs_seq()[24] == l),
        Lang::Tsx => assert(all_langs_seq()[25] == l),
        Lang::TypeScript => assert(all_langs_seq()[26] == l),
        Lang::Yaml => assert(all_langs_seq()[27] == l),
    }
}

} // verus!
