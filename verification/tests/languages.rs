use ambient_fs::languages::{builtin_configs, LanguageConfig, LanguageFeatures, LanguageRegistry, OwnedLanguageConfig};

fn registry() -> LanguageRegistry {
    let mut reg = LanguageRegistry::with_builtin_languages();
    reg.reset_custom();
    reg
}

#[test]
fn language_features_all() {
    let f = LanguageFeatures::all();
    assert!(f.extract_exports);
    assert!(f.extract_imports);
    assert!(f.count_todos);
    assert!(f.count_lines);
}

#[test]
fn language_features_none() {
    let f = LanguageFeatures::none();
    assert!(!f.extract_exports);
    assert!(!f.extract_imports);
    assert!(!f.count_todos);
    assert!(!f.count_lines);
}

#[test]
fn get_for_path_typescript() {
    let reg = registry();
    let config = reg.get_for_path("src/components/Button.tsx").unwrap();
    assert_eq!(config.name, "TypeScript");
    assert!(config.features.extract_exports);
    assert!(config.features.extract_imports);
}

#[test]
fn get_for_path_javascript() {
    let reg = registry();
    let config = reg.get_for_path("utils.js").unwrap();
    assert_eq!(config.name, "JavaScript");
    let config2 = reg.get_for_path("app.mjs").unwrap();
    assert_eq!(config2.name, "JavaScript");
}

#[test]
fn get_for_path_rust() {
    let reg = registry();
    let config = reg.get_for_path("main.rs").unwrap();
    assert_eq!(config.name, "Rust");
}

#[test]
fn get_for_path_python() {
    let reg = registry();
    let config = reg.get_for_path("app.py").unwrap();
    assert_eq!(config.name, "Python");
    let config2 = reg.get_for_path("types.pyi").unwrap();
    assert_eq!(config2.name, "Python");
}

#[test]
fn get_for_path_vue() {
    let reg = registry();
    let config = reg.get_for_path("App.vue").unwrap();
    assert_eq!(config.name, "Vue");
}

#[test]
fn get_for_path_markdown() {
    let reg = registry();
    let config = reg.get_for_path("README.md").unwrap();
    assert_eq!(config.name, "Markdown");
    assert!(!config.features.extract_imports);
    assert!(!config.features.extract_exports);
    assert!(config.features.count_todos);
    assert!(config.features.count_lines);
}

#[test]
fn get_for_path_unknown_extension() {
    let reg = registry();
    let config = reg.get_for_path("data.xml");
    assert!(config.is_none());
    let config2 = reg.get_for_path("Makefile");
    assert!(config2.is_none());
}

#[test]
fn get_for_path_dotfile() {
    let reg = registry();
    let config = reg.get_for_path(".gitignore");
    assert!(config.is_none());
}

#[test]
fn builtin_configs_all_have_extensions() {
    for config in builtin_configs() {
        assert!(!config.extensions.is_empty(), "{} has no extensions", config.name);
    }
}

#[test]
fn language_config_clone_and_eq() {
    let cfg = builtin_configs()[0].clone();
    assert_eq!(cfg.name, "TypeScript");
}

#[test]
fn multiple_extensions_same_language() {
    let reg = registry();
    let cfg1 = reg.get_for_path("file.ts").unwrap();
    let cfg2 = reg.get_for_path("file.tsx").unwrap();
    assert_eq!(cfg1.name, cfg2.name);
    assert_eq!(cfg1.features, cfg2.features);
}

#[test]
fn case_sensitive_extensions() {
    let reg = registry();
    let cfg1 = reg.get_for_path("file.ts");
    let cfg2 = reg.get_for_path("file.TS");
    assert!(cfg1.is_some());
    assert!(cfg2.is_none());
}

#[test]
fn register_custom_language() {
    let mut reg = registry();
    let svelte = OwnedLanguageConfig {
        name: "Svelte".to_string(),
        extensions: vec!["svelte".to_string()],
        features: LanguageFeatures {
            extract_exports: true,
            extract_imports: true,
            count_todos: false,
            count_lines: true,
        },
    };
    reg.register(svelte);
    let config = reg.get_for_path("App.svelte").unwrap();
    assert!(config.features.extract_exports);
    assert!(config.features.extract_imports);
    assert!(!config.features.count_todos);
    assert!(config.features.count_lines);
}

#[test]
fn custom_language_multiple_extensions() {
    let mut reg = registry();
    let custom = OwnedLanguageConfig {
        name: "Elm".to_string(),
        extensions: vec!["elm".to_string(), "elmi".to_string()],
        features: LanguageFeatures::all(),
    };
    reg.register(custom);
    let cfg1 = reg.get_for_path("Main.elm").unwrap();
    let cfg2 = reg.get_for_path("Types.elmi").unwrap();
    assert!(cfg1.features.extract_exports);
    assert!(cfg2.features.extract_exports);
}

#[test]
fn custom_overrides_builtin() {
    let mut reg = registry();
    let builtin_cfg = reg.get_for_path("README.md").unwrap();
    assert!(!builtin_cfg.features.extract_imports);
    assert!(!builtin_cfg.features.extract_exports);
    let custom_md = OwnedLanguageConfig {
        name: "CustomMarkdown".to_string(),
        extensions: vec!["md".to_string()],
        features: LanguageFeatures::all(),
    };
    reg.register(custom_md);
    let override_cfg = reg.get_for_path("README.md").unwrap();
    assert!(override_cfg.features.extract_imports);
    assert!(override_cfg.features.extract_exports);
}

#[test]
fn builtin_still_works_after_custom_registration() {
    let mut reg = registry();
    let svelte = OwnedLanguageConfig {
        name: "Svelte".to_string(),
        extensions: vec!["svelte".to_string()],
        features: LanguageFeatures::all(),
    };
    reg.register(svelte);
    let rust_cfg = reg.get_for_path("main.rs").unwrap();
    assert_eq!(rust_cfg.name, "Rust");
    let ts_cfg = reg.get_for_path("file.ts").unwrap();
    assert_eq!(ts_cfg.name, "TypeScript");
}

#[test]
fn owned_language_config_clone() {
    let config = OwnedLanguageConfig {
        name: "Test".to_string(),
        extensions: vec!["test".to_string()],
        features: LanguageFeatures::none(),
    };
    let cloned = config.clone();
    assert_eq!(config, cloned);
}

#[test]
fn owned_to_language_config_conversion() {
    let owned = OwnedLanguageConfig {
        name: "Test".to_string(),
        extensions: vec!["test".to_string()],
        features: LanguageFeatures {
            extract_exports: true,
            extract_imports: false,
            count_todos: true,
            count_lines: false,
        },
    };
    let converted: LanguageConfig = owned.into();
    assert_eq!(converted.name, "owned");
    assert!(converted.extensions.is_empty());
    assert!(converted.features.extract_exports);
    assert!(!converted.features.extract_imports);
}

#[test]
fn reset_custom_forgets_registrations() {
    let mut reg = registry();
    reg.register(OwnedLanguageConfig {
        name: "Svelte".to_string(),
        extensions: vec!["svelte".to_string()],
        features: LanguageFeatures::all(),
    });
    assert!(reg.get_for_path("App.svelte").is_some());
    reg.reset_custom();
    assert!(reg.get_for_path("App.svelte").is_none());
    assert_eq!(reg.get_for_path("lib.rs").unwrap().name, "Rust");
}

#[test]
fn later_registration_wins() {
    let mut reg = registry();
    reg.register(OwnedLanguageConfig {
        name: "A".to_string(),
        extensions: vec!["x".to_string()],
        features: LanguageFeatures::none(),
    });
    reg.register(OwnedLanguageConfig {
        name: "B".to_string(),
        extensions: vec!["x".to_string()],
        features: LanguageFeatures::all(),
    });
    let cfg = reg.get_for_path("file.x").unwrap();
    assert!(cfg.features.count_lines);
    assert_eq!(cfg.name, "custom");
}

#[test]
fn extension_rules_follow_the_file_name() {
    let reg = LanguageRegistry::with_builtin_languages();
    assert!(reg.get_for_path(".rs").is_none());
    assert!(reg.get_for_path("src/main.rs/..").is_none());
    assert!(reg.get_for_path("src/main.rs/.").is_some());
    assert!(reg.get_for_path("archive.tar.rs").is_some());
}
