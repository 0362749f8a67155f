//! Language configuration: which analysis features apply to a file,
//! chosen by its extension, with run-time registrations overriding the
//! built-in table.
use vstd::prelude::*;
use crate::text::{chars_of, str_eq};
use crate::filter::file_name_of;

verus! {

/// Which analysis features to enable for a language.
#[derive(Debug, Clone, Copy, PartialEq, Eq, Default, Structural)]
pub struct LanguageFeatures {
    /// Extract export statements.
    pub extract_exports: bool,
    /// Extract import statements.
    pub extract_imports: bool,
    /// Count TODO/FIXME/HACK/XXX comments.
    pub count_todos: bool,
    /// Count total lines.
    pub count_lines: bool,
}

impl LanguageFeatures {
    /// All features enabled.
    pub fn all() -> (r: Self)
        ensures
            r == (LanguageFeatures {
                extract_exports: true,
                extract_imports: true,
                count_todos: true,
                count_lines: true,
            }),
    {
        LanguageFeatures { extract_exports: true, extract_imports: true, count_todos: true, count_lines: true }
    }

    /// All features disabled.
    pub fn none() -> (r: Self)
        ensures
            r == (LanguageFeatures {
                extract_exports: false,
                extract_imports: false,
                count_todos: false,
                count_lines: false,
            }),
    {
        LanguageFeatures { extract_exports: false, extract_imports: false, count_todos: false, count_lines: false }
    }
}

/// Language-specific analysis configuration.
#[derive(Debug, Clone, PartialEq)]
pub struct LanguageConfig {
    /// Display name (e.g. "TypeScript", "Rust").
    pub name: &'static str,
    /// File extensions this applies to (e.g. ["ts", "tsx"]).
    pub extensions: &'static [&'static str],
    /// Feature flags for what to extract.
    pub features: LanguageFeatures,
}

/// Owned language config for dynamic registration.
#[derive(Debug, Clone, PartialEq)]
pub struct OwnedLanguageConfig {
    pub name: String,
    pub extensions: Vec<String>,
    pub features: LanguageFeatures,
}

impl From<OwnedLanguageConfig> for LanguageConfig {
    fn from(owned: OwnedLanguageConfig) -> (r: Self) {
        LanguageConfig::from_owned(owned)
    }
}

impl vstd::std_specs::convert::FromSpecImpl<OwnedLanguageConfig> for LanguageConfig {
    open spec fn obeys_from_spec() -> bool {
        true
    }

    open spec fn from_spec(v: OwnedLanguageConfig) -> LanguageConfig {
        owned_form(v)
    }
}

/// The borrowed form of a registered configuration.
pub open spec fn owned_form(owned: OwnedLanguageConfig) -> LanguageConfig {
    LanguageConfig { name: "owned", extensions: &[], features: owned.features }
}

impl LanguageConfig {
    /// The borrowed form of a registered configuration: named `"owned"`,
    /// without extensions, with the same features.
    pub fn from_owned(owned: OwnedLanguageConfig) -> (r: Self)
        ensures
            r == owned_form(owned),
            r.name@ == "owned"@,
            r.extensions@.len() == 0,
            r.features == owned.features,
    {
        LanguageConfig { name: "owned", extensions: &[], features: owned.features }
    }
}

/// Features of Markdown: no import/export extraction.
pub open spec fn markdown_features() -> LanguageFeatures {
    LanguageFeatures { extract_exports: false, extract_imports: false, count_todos: true, count_lines: true }
}

/// Features of every other built-in language.
pub open spec fn all_features() -> LanguageFeatures {
    LanguageFeatures { extract_exports: true, extract_imports: true, count_todos: true, count_lines: true }
}

/// The built-in language for an extension: its name and features.
pub open spec fn builtin_language(ext: Seq<char>) -> Option<(Seq<char>, LanguageFeatures)> {
    if ext == "ts"@ || ext == "tsx"@ {
        Some(("TypeScript"@, all_features()))
    } else if ext == "js"@ || ext == "jsx"@ || ext == "mjs"@ || ext == "cjs"@ {
        Some(("JavaScript"@, all_features()))
    } else if ext == "rs"@ {
        Some(("Rust"@, all_features()))
    } else if ext == "py"@ || ext == "pyi"@ {
        Some(("Python"@, all_features()))
    } else if ext == "vue"@ {
        Some(("Vue"@, all_features()))
    } else if ext == "md"@ || ext == "markdown"@ {
        Some(("Markdown"@, markdown_features()))
    } else {
        None
    }
}

/// The built-in language table, in order: each language's name, its
/// extensions and its features.
pub open spec fn builtin_table() -> Seq<(Seq<char>, Seq<Seq<char>>, LanguageFeatures)> {
    seq![
        ("TypeScript"@, seq!["ts"@, "tsx"@], all_features()),
        ("JavaScript"@, seq!["js"@, "jsx"@, "mjs"@, "cjs"@], all_features()),
        ("Rust"@, seq!["rs"@], all_features()),
        ("Python"@, seq!["py"@, "pyi"@], all_features()),
        ("Vue"@, seq!["vue"@], all_features()),
        ("Markdown"@, seq!["md"@, "markdown"@], markdown_features()),
    ]
}

/// The text of each extension of a configuration.
pub open spec fn extension_texts(exts: Seq<&str>) -> Seq<Seq<char>> {
    exts.map_values(|e: &str| e@)
}

/// The built-in language definitions, in table order.
pub fn builtin_configs() -> (r: Vec<LanguageConfig>)
    ensures
        r@.len() == 6,
        forall|i: int| 0 <= i < r@.len() ==> #[trigger] r@[i].extensions@.len() > 0,
        r@[0].name@ == "TypeScript"@,
        r@.len() == builtin_table().len(),
        forall|i: int| 0 <= i < r@.len() ==> (#[trigger] r@[i]).name@ == builtin_table()[i].0
            && extension_texts(r@[i].extensions@) == builtin_table()[i].1 && r@[i].features
            == builtin_table()[i].2,
{
    let mut v: Vec<LanguageConfig> = Vec::new();
    v.push(LanguageConfig { name: "TypeScript", extensions: &["ts", "tsx"], features: LanguageFeatures::all() });
    v.push(LanguageConfig { name: "JavaScript", extensions: &["js", "jsx", "mjs", "cjs"], features: LanguageFeatures::all() });
    v.push(LanguageConfig { name: "Rust", extensions: &["rs"], features: LanguageFeatures::all() });
    v.push(LanguageConfig { name: "Python", extensions: &["py", "pyi"], features: LanguageFeatures::all() });
    v.push(LanguageConfig { name: "Vue", extensions: &["vue"], features: LanguageFeatures::all() });
    v.push(LanguageConfig {
        name: "Markdown",
        extensions: &["md", "markdown"],
        features: LanguageFeatures { extract_exports: false, extract_imports: false, count_todos: true, count_lines: true },
    });
    proof {
        assert(extension_texts(v@[0].extensions@) =~= builtin_table()[0].1);
        assert(extension_texts(v@[1].extensions@) =~= builtin_table()[1].1);
        assert(extension_texts(v@[2].extensions@) =~= builtin_table()[2].1);
        assert(extension_texts(v@[3].extensions@) =~= builtin_table()[3].1);
        assert(extension_texts(v@[4].extensions@) =~= builtin_table()[4].1);
        assert(extension_texts(v@[5].extensions@) =~= builtin_table()[5].1);
    }
    v
}

/// Every extension listed in the built-in table maps back to its entry:
/// the built-in language of the extension has that entry's name and
/// features.
pub proof fn law_builtin_extensions_map_back(i: int, j: int)
    requires
        0 <= i < builtin_table().len(),
        0 <= j < builtin_table()[i].1.len(),
    ensures
        builtin_language(builtin_table()[i].1[j]) == Some((builtin_table()[i].0, builtin_table()[i].2)),
{
    reveal_builtin_texts();
    reveal_strlit("ts");
    reveal_strlit("tsx");
    reveal_strlit("js");
    reveal_strlit("jsx");
    reveal_strlit("mjs");
    reveal_strlit("cjs");
    reveal_strlit("rs");
    reveal_strlit("py");
    reveal_strlit("pyi");
    reveal_strlit("vue");
    reveal_strlit("md");
    reveal_strlit("markdown");
    let t = builtin_table();
    assert(t[0].1[0] == "ts"@);
    assert(builtin_language("ts"@) == Some(("TypeScript"@, all_features())));
    assert(t[0].1[1] == "tsx"@);
    assert(builtin_language("tsx"@) == Some(("TypeScript"@, all_features())));
    assert(t[1].1[0] == "js"@);
    assert(builtin_language("js"@) == Some(("JavaScript"@, all_features())));
    assert(t[1].1[1] == "jsx"@);
    assert(builtin_language("jsx"@) == Some(("JavaScript"@, all_features())));
    assert(t[1].1[2] == "mjs"@);
    assert(builtin_language("mjs"@) == Some(("JavaScript"@, all_features())));
    assert(t[1].1[3] == "cjs"@);
    assert(builtin_language("cjs"@) == Some(("JavaScript"@, all_features())));
    assert(t[2].1[0] == "rs"@);
    assert(builtin_language("rs"@) == Some(("Rust"@, all_features())));
    assert(t[3].1[0] == "py"@);
    assert(builtin_language("py"@) == Some(("Python"@, all_features())));
    assert(t[3].1[1] == "pyi"@);
    assert(builtin_language("pyi"@) == Some(("Python"@, all_features())));
    assert(t[4].1[0] == "vue"@);
    assert(builtin_language("vue"@) == Some(("Vue"@, all_features())));
    assert(t[5].1[0] == "md"@);
    assert(builtin_language("md"@) == Some(("Markdown"@, markdown_features())));
    assert(t[5].1[1] == "markdown"@);
    assert("markdown"@.len() == 8);
    assert(builtin_language("markdown"@) == Some(("Markdown"@, markdown_features())));
    assert(t[0].1.len() == 2 && t[1].1.len() == 4 && t[2].1.len() == 1);
    assert(t[3].1.len() == 2 && t[4].1.len() == 1 && t[5].1.len() == 2);
}

/// Only extensions listed in the built-in table have a built-in language.
pub proof fn law_builtin_language_is_listed(ext: Seq<char>)
    ensures
        builtin_language(ext) is Some ==> exists|i: int, j: int|
            0 <= i < builtin_table().len() && 0 <= j < builtin_table()[i].1.len() && #[trigger] builtin_table()[i].1[j]
                == ext,
{
    reveal_builtin_texts();
    reveal_strlit("ts");
    reveal_strlit("tsx");
    reveal_strlit("js");
    reveal_strlit("jsx");
    reveal_strlit("mjs");
    reveal_strlit("cjs");
    reveal_strlit("rs");
    reveal_strlit("py");
    reveal_strlit("pyi");
    reveal_strlit("vue");
    reveal_strlit("md");
    reveal_strlit("markdown");
    let t = builtin_table();
    if ext == "ts"@ { assert(t[0].1[0] == ext); }
    if ext == "tsx"@ { assert(t[0].1[1] == ext); }
    if ext == "js"@ { assert(t[1].1[0] == ext); }
    if ext == "jsx"@ { assert(t[1].1[1] == ext); }
    if ext == "mjs"@ { assert(t[1].1[2] == ext); }
    if ext == "cjs"@ { assert(t[1].1[3] == ext); }
    if ext == "rs"@ { assert(t[2].1[0] == ext); }
    if ext == "py"@ { assert(t[3].1[0] == ext); }
    if ext == "pyi"@ { assert(t[3].1[1] == ext); }
    if ext == "vue"@ { assert(t[4].1[0] == ext); }
    if ext == "md"@ { assert(t[5].1[0] == ext); }
    if ext == "markdown"@ { assert(t[5].1[1] == ext); }
}

proof fn reveal_builtin_texts()
    ensures
        "ts"@ != "js"@ && "ts"@ != "rs"@ && "ts"@ != "py"@ && "ts"@ != "md"@ && "js"@ != "rs"@ && "js"@ != "py"@
            && "js"@ != "md"@ && "rs"@ != "py"@ && "rs"@ != "md"@ && "py"@ != "md"@,
        "tsx"@ != "jsx"@ && "tsx"@ != "mjs"@ && "tsx"@ != "cjs"@ && "tsx"@ != "pyi"@ && "tsx"@ != "vue"@
            && "jsx"@ != "mjs"@ && "jsx"@ != "cjs"@ && "jsx"@ != "pyi"@ && "jsx"@ != "vue"@ && "mjs"@ != "cjs"@
            && "mjs"@ != "pyi"@ && "mjs"@ != "vue"@ && "cjs"@ != "pyi"@ && "cjs"@ != "vue"@ && "pyi"@ != "vue"@,
{
    reveal_strlit("ts");
    reveal_strlit("tsx");
    reveal_strlit("js");
    reveal_strlit("jsx");
    reveal_strlit("mjs");
    reveal_strlit("cjs");
    reveal_strlit("rs");
    reveal_strlit("py");
    reveal_strlit("pyi");
    reveal_strlit("vue");
    reveal_strlit("md");
    reveal_strlit("markdown");
    assert("ts"@[0] == 't' && "js"@[0] == 'j' && "rs"@[0] == 'r' && "py"@[0] == 'p' && "md"@[0] == 'm');
    assert("tsx"@[0] == 't' && "jsx"@[0] == 'j' && "mjs"@[0] == 'm' && "cjs"@[0] == 'c' && "pyi"@[0] == 'p'
        && "vue"@[0] == 'v');
}

/// The extension of a file name: what follows its last `.`, when that
/// `.` is not the name's first character.
pub open spec fn extension_in(name: Seq<char>) -> Option<Seq<char>> {
    match name.index_of_last('.') {
        Some(i) => if i >= 1 {
            Some(name.skip(i + 1))
        } else {
            None
        },
        None => None,
    }
}

/// What `Path::extension` gives, as the documentation states it: none
/// without a file name; otherwise the part of the file name after its last
/// `.`, none when the name has no `.` or only a leading one.
pub open spec fn path_extension(path: Seq<char>) -> Option<Seq<char>> {
    match file_name_of(path) {
        Some(n) => extension_in(n),
        None => None,
    }
}

/// `std::path::Path::extension`, as text; see `path_extension`.
#[verifier::external_body]
fn extension_of(path: &str) -> (r: Option<String>)
    ensures
        match r {
            Some(e) => path_extension(path@) == Some(e@),
            None => path_extension(path@) is None,
        },
{
    std::path::Path::new(path).extension().and_then(|e| e.to_str()).map(|e| e.to_string())
}

/// The built-in configuration for an extension.
fn builtin_for(ext: &str) -> (r: Option<LanguageConfig>)
    ensures
        match builtin_language(ext@) {
            Some((name, features)) => r matches Some(c) && c.name@ == name && c.features == features,
            None => r is None,
        },
{
    if str_eq(ext, "ts") || str_eq(ext, "tsx") {
        Some(LanguageConfig { name: "TypeScript", extensions: &["ts", "tsx"], features: LanguageFeatures::all() })
    } else if str_eq(ext, "js") || str_eq(ext, "jsx") || str_eq(ext, "mjs") || str_eq(ext, "cjs") {
        Some(LanguageConfig { name: "JavaScript", extensions: &["js", "jsx", "mjs", "cjs"], features: LanguageFeatures::all() })
    } else if str_eq(ext, "rs") {
        Some(LanguageConfig { name: "Rust", extensions: &["rs"], features: LanguageFeatures::all() })
    } else if str_eq(ext, "py") || str_eq(ext, "pyi") {
        Some(LanguageConfig { name: "Python", extensions: &["py", "pyi"], features: LanguageFeatures::all() })
    } else if str_eq(ext, "vue") {
        Some(LanguageConfig { name: "Vue", extensions: &["vue"], features: LanguageFeatures::all() })
    } else if str_eq(ext, "md") || str_eq(ext, "markdown") {
        Some(LanguageConfig {
            name: "Markdown",
            extensions: &["md", "markdown"],
            features: LanguageFeatures { extract_exports: false, extract_imports: false, count_todos: true, count_lines: true },
        })
    } else {
        None
    }
}

/// Language registry: the built-in table plus extensions registered at
/// run time, which take precedence.
#[derive(Debug, Clone)]
pub struct LanguageRegistry {
    /// Registered extensions and their features; each extension once.
    custom: Vec<(String, LanguageFeatures)>,
}

/// The registered entries as a map from extension to features.
pub open spec fn entries_map(entries: Seq<(String, LanguageFeatures)>) -> Map<Seq<char>, LanguageFeatures>
    decreases entries.len(),
{
    if entries.len() == 0 {
        Map::empty()
    } else {
        entries_map(entries.drop_last()).insert(entries.last().0@, entries.last().1)
    }
}

/// No extension is registered twice.
pub open spec fn distinct_keys(entries: Seq<(String, LanguageFeatures)>) -> bool {
    forall|i: int, j: int|
        0 <= i < entries.len() && 0 <= j < entries.len() && i != j ==> #[trigger] entries[i].0@
            != #[trigger] entries[j].0@
}

proof fn lemma_entries_map(entries: Seq<(String, LanguageFeatures)>)
    requires
        distinct_keys(entries),
    ensures
        forall|k: Seq<char>| #[trigger] entries_map(entries).contains_key(k) <==> exists|i: int|
            0 <= i < entries.len() && entries[i].0@ == k,
        forall|i: int| 0 <= i < entries.len() ==> #[trigger] entries_map(entries)[entries[i].0@] == entries[i].1,
    decreases entries.len(),
{
    if entries.len() > 0 {
        let d = entries.drop_last();
        assert(distinct_keys(d));
        lemma_entries_map(d);
        assert forall|k: Seq<char>| #[trigger] entries_map(entries).contains_key(k) <==> exists|i: int|
            0 <= i < entries.len() && entries[i].0@ == k by {
            if entries_map(d).contains_key(k) {
                let i = choose|i: int| 0 <= i < d.len() && d[i].0@ == k;
                assert(entries[i].0@ == k);
            }
            if exists|i: int| 0 <= i < entries.len() && entries[i].0@ == k {
                let i = choose|i: int| 0 <= i < entries.len() && entries[i].0@ == k;
                if i < d.len() {
                    assert(d[i].0@ == k);
                }
            }
        }
        assert forall|i: int| 0 <= i < entries.len() implies #[trigger] entries_map(entries)[entries[i].0@] == entries[i].1 by {
            if i < d.len() {
                assert(d[i] == entries[i]);
                assert(entries[i].0@ != entries[entries.len() - 1].0@);
                assert(entries_map(d)[d[i].0@] == d[i].1);
            }
        }
    }
}

/// The configuration `get_for_path` reports for a path, in terms of the
/// registered map: registered extensions first (reported as `"custom"`),
/// then the built-in table.
pub open spec fn lookup(custom: Map<Seq<char>, LanguageFeatures>, path: Seq<char>) -> Option<(Seq<char>, LanguageFeatures)> {
    match path_extension(path) {
        None => None,
        Some(e) => if custom.contains_key(e) {
            Some(("custom"@, custom[e]))
        } else {
            builtin_language(e)
        },
    }
}

impl View for LanguageRegistry {
    type V = Map<Seq<char>, LanguageFeatures>;

    /// Registered extensions and their features.
    closed spec fn view(&self) -> Map<Seq<char>, LanguageFeatures> {
        entries_map(self.custom@)
    }
}

impl LanguageRegistry {
    /// Registry well-formedness: each extension is registered once.
    pub closed spec fn wf(&self) -> bool {
        distinct_keys(self.custom@)
    }

    /// A registry holding only the built-in languages.
    pub fn with_builtin_languages() -> (r: Self)
        ensures
            r.wf(),
            r@ == Map::<Seq<char>, LanguageFeatures>::empty(),
    {
        LanguageRegistry { custom: Vec::new() }
    }

    /// The configuration for a path's extension, registered languages
    /// first (named `"custom"`, without extensions), then built-ins;
    /// `None` for unknown or missing extensions.
    pub fn get_for_path(&self, path: &str) -> (r: Option<LanguageConfig>)
        requires
            self.wf(),
        ensures
            match lookup(self@, path@) {
                Some((name, features)) => r matches Some(c) && c.name@ == name && c.features
                    == features,
                None => r is None,
            },
    {
        let ext = match extension_of(path) {
            Some(e) => e,
            None => return None,
        };
        proof {
            lemma_entries_map(self.custom@);
        }
        let n = self.custom.len();
        for i in 0..n
            invariant
                n == self.custom@.len(),
                self.wf(),
                path_extension(path@) == Some(ext@),
                forall|j: int| 0 <= j < i ==> #[trigger] self.custom@[j].0@ != ext@,
        {
            if str_eq(self.custom[i].0.as_str(), ext.as_str()) {
                proof {
                    lemma_entries_map(self.custom@);
                }
                assert(self@.contains_key(ext@));
                assert(entries_map(self.custom@)[self.custom@[i as int].0@] == self.custom@[i as int].1);
                return Some(LanguageConfig { name: "custom", extensions: &[], features: self.custom[i].1 });
            }
        }
        proof {
            lemma_entries_map(self.custom@);
            assert(!self@.contains_key(ext@));
        }
        builtin_for(ext.as_str())
    }

    /// Registers a language for each of its extensions, replacing earlier
    /// registrations of the same extensions.
    pub fn register(&mut self, config: OwnedLanguageConfig)
        requires
            old(self).wf(),
        ensures
            final(self).wf(),
            forall|e: Seq<char>| #[trigger] final(self)@.contains_key(e) <==> (old(self)@.contains_key(e)
                || exists|i: int| 0 <= i < config.extensions@.len() && config.extensions@[i]@ == e),
            forall|e: Seq<char>| #[trigger] final(self)@.contains_key(e) ==> final(self)@[e] == if exists|i: int|
                0 <= i < config.extensions@.len() && config.extensions@[i]@ == e {
                config.features
            } else {
                old(self)@[e]
            },
    {
        let ghost m0 = self@;
        proof {
            lemma_entries_map(self.custom@);
        }
        let n = config.extensions.len();
        for k in 0..n
            invariant
                n == config.extensions@.len(),
                self.wf(),
                forall|e: Seq<char>| #[trigger] self@.contains_key(e) <==> (m0.contains_key(e)
                    || exists|i: int| 0 <= i < k && config.extensions@[i]@ == e),
                forall|e: Seq<char>| #[trigger] self@.contains_key(e) ==> self@[e] == if exists|i: int|
                    0 <= i < k && config.extensions@[i]@ == e {
                    config.features
                } else {
                    m0[e]
                },
        {
            let ext = &config.extensions[k];
            self.insert_custom(ext, config.features);
            proof {
                assert forall|e: Seq<char>| #[trigger] self@.contains_key(e) <==> (m0.contains_key(e)
                    || exists|i: int| 0 <= i < k + 1 && config.extensions@[i]@ == e) by {
                    if e == ext@ {
                        assert(config.extensions@[k as int]@ == e);
                    }
                    if exists|i: int| 0 <= i < k + 1 && config.extensions@[i]@ == e {
                        let i = choose|i: int| 0 <= i < k + 1 && config.extensions@[i]@ == e;
                        if i < k {
                            assert(exists|i2: int| 0 <= i2 < k && config.extensions@[i2]@ == e);
                        }
                    }
                }
                assert forall|e: Seq<char>| #[trigger] self@.contains_key(e) implies self@[e] == if exists|i: int|
                    0 <= i < k + 1 && config.extensions@[i]@ == e {
                    config.features
                } else {
                    m0[e]
                } by {
                    if e == ext@ {
                        assert(config.extensions@[k as int]@ == e);
                    } else if exists|i: int| 0 <= i < k + 1 && config.extensions@[i]@ == e {
                        let i = choose|i: int| 0 <= i < k + 1 && config.extensions@[i]@ == e;
                        assert(i < k);
                        assert(exists|i2: int| 0 <= i2 < k && config.extensions@[i2]@ == e);
                    } else {
                        assert(!exists|i2: int| 0 <= i2 < k && config.extensions@[i2]@ == e);
                    }
                }
            }
        }
    }

    /// Sets the features registered for one extension.
    fn insert_custom(&mut self, ext: &String, features: LanguageFeatures)
        requires
            old(self).wf(),
        ensures
            final(self).wf(),
            final(self)@ == old(self)@.insert(ext@, features),
    {
        proof {
            lemma_entries_map(self.custom@);
        }
        let n = self.custom.len();
        for i in 0..n
            invariant
                n == self.custom@.len(),
                self.wf(),
                self.custom@ == old(self).custom@,
                forall|j: int| 0 <= j < i ==> #[trigger] self.custom@[j].0@ != ext@,
        {
            if str_eq(self.custom[i].0.as_str(), ext.as_str()) {
                let ghost old_entries = self.custom@;
                proof {
                    lemma_entries_map(old_entries);
                }
                let key = self.custom[i].0.clone();
                self.custom.set(i, (key, features));
                proof {
                    let ne = self.custom@;
                    assert(ne[i as int].0@ == ext@);
                    assert(distinct_keys(ne)) by {
                        assert forall|a: int, b: int| 0 <= a < ne.len() && 0 <= b < ne.len() && a != b implies #[trigger] ne[a].0@ != #[trigger] ne[b].0@ by {
                            assert(ne[a].0@ == old_entries[a].0@);
                            assert(ne[b].0@ == old_entries[b].0@);
                        }
                    }
                    lemma_entries_map(ne);
                    assert(self@ =~= entries_map(old_entries).insert(ext@, features)) by {
                        assert forall|k: Seq<char>| #[trigger] self@.contains_key(k) <==> entries_map(old_entries).insert(ext@, features).contains_key(k) by {
                            if exists|j: int| 0 <= j < ne.len() && ne[j].0@ == k {
                                let j = choose|j: int| 0 <= j < ne.len() && ne[j].0@ == k;
                                assert(old_entries[j].0@ == k);
                            }
                            if exists|j: int| 0 <= j < old_entries.len() && old_entries[j].0@ == k {
                                let j = choose|j: int| 0 <= j < old_entries.len() && old_entries[j].0@ == k;
                                assert(ne[j].0@ == k);
                            }
                        }
                        assert forall|k: Seq<char>| #[trigger] self@.contains_key(k) implies self@[k] == entries_map(old_entries).insert(ext@, features)[k] by {
                            let j = choose|j: int| 0 <= j < ne.len() && ne[j].0@ == k;
                            assert(old_entries[j].0@ == k);
                            assert(entries_map(ne)[ne[j].0@] == ne[j].1);
                            if j != i {
                                assert(entries_map(old_entries)[old_entries[j].0@] == old_entries[j].1);
                            }
                        }
                    }
                }
                return;
            }
        }
        let ghost old_entries = self.custom@;
        let key = ext.clone();
        self.custom.push((key, features));
        proof {
            lemma_entries_map(old_entries);
            let ne = self.custom@;
            assert(ne.drop_last() == old_entries);
            assert(ne.last().0@ == ext@);
            assert(distinct_keys(ne)) by {
                assert forall|a: int, b: int| 0 <= a < ne.len() && 0 <= b < ne.len() && a != b implies #[trigger] ne[a].0@ != #[trigger] ne[b].0@ by {
                    if a < old_entries.len() && b < old_entries.len() {
                        assert(ne[a] == old_entries[a] && ne[b] == old_entries[b]);
                    } else if a < old_entries.len() {
                        assert(ne[a] == old_entries[a]);
                        assert(old_entries[a].0@ != ext@);
                    } else {
                        assert(ne[b] == old_entries[b]);
                        assert(old_entries[b].0@ != ext@);
                    }
                }
            }
        }
    }

    /// Removes every registration.
    pub fn reset_custom(&mut self)
        ensures
            final(self).wf(),
            final(self)@ == Map::<Seq<char>, LanguageFeatures>::empty(),
    {
        self.custom = Vec::new();
    }
}

/// A registration is what later lookups of its extensions report, ahead
/// of the built-in table; paths with other extensions are answered as
/// before.
pub proof fn law_register_then_lookup(
    before: Map<Seq<char>, LanguageFeatures>,
    after: Map<Seq<char>, LanguageFeatures>,
    config: OwnedLanguageConfig,
    path: Seq<char>,
)
    requires
        forall|e: Seq<char>| #[trigger] after.contains_key(e) <==> (before.contains_key(e) || exists|i: int|
            0 <= i < config.extensions@.len() && config.extensions@[i]@ == e),
        forall|e: Seq<char>| #[trigger] after.contains_key(e) ==> after[e] == if exists|i: int|
            0 <= i < config.extensions@.len() && config.extensions@[i]@ == e {
            config.features
        } else {
            before[e]
        },
    ensures
        path_extension(path) matches Some(e) && (exists|i: int|
            0 <= i < config.extensions@.len() && config.extensions@[i]@ == e) ==> lookup(after, path)
            == Some(("custom"@, config.features)),
        path_extension(path) matches Some(e) && !(exists|i: int|
            0 <= i < config.extensions@.len() && config.extensions@[i]@ == e) ==> lookup(after, path)
            == lookup(before, path),
{
    if let Some(e) = path_extension(path) {
        assert(after.contains_key(e) == (before.contains_key(e) || exists|i: int|
            0 <= i < config.extensions@.len() && config.extensions@[i]@ == e));
    }
}

} // verus!
