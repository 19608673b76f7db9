use gir_codegen::{
    allow_deprecated, cfg_condition, cfg_condition_string, cfg_condition_string_doc,
    cfg_condition_string_no_doc, cfg_deprecated_string, declare_default_from_new, derives,
    doc_alias, doc_hidden, escape_string, not_version_condition, not_version_condition_no_dox,
    resolve_guard, single_version_file, start_comments, start_comments_no_version,
    version_condition, version_condition_doc, version_condition_no_doc,
    version_condition_string, write_vec, Config, Derive, Env, FunctionInfo, GirInfo, LibType,
    Namespace, TypeId, Version,
};

fn v(major: u16, minor: u16, micro: u16) -> Version {
    Version::new(major, minor, micro)
}

fn env() -> Env {
    Env {
        namespaces: vec![
            Namespace {
                crate_name: "gtk".to_string(),
                sys_crate_name: "ffi".to_string(),
                min_version: Some(v(3, 0, 0)),
                types: vec![LibType::Other],
            },
            Namespace {
                crate_name: "gdk".to_string(),
                sys_crate_name: "gdk::ffi".to_string(),
                min_version: None,
                types: vec![LibType::Other],
            },
        ],
        glib_crate: "glib".to_string(),
    }
}

#[test]
fn test_escape_string() {
    assert_eq!(escape_string(""), "");
    assert_eq!(escape_string("no escaping here"), "no escaping here");
    assert_eq!(escape_string(r#"'"\"#), r#"'\"\\"#);
}

#[test]
fn escape_string_prefixes_each_quote_and_backslash() {
    assert_eq!(escape_string("a\"b\\c\"\""), "a\\\"b\\\\c\\\"\\\"");
    assert_eq!(escape_string("\u{e9}t\u{e9}"), "\u{e9}t\u{e9}");
}

#[test]
fn resolve_guard_cases() {
    assert_eq!(resolve_guard(None, Some(v(1, 0, 0))), None);
    assert_eq!(resolve_guard(None, None), None);
    assert_eq!(resolve_guard(Some(v(2, 4, 0)), None), Some(v(2, 4, 0)));
    assert_eq!(resolve_guard(Some(v(2, 4, 0)), Some(v(2, 4, 0))), None);
    assert_eq!(resolve_guard(Some(v(2, 4, 1)), Some(v(2, 4, 0))), Some(v(2, 4, 1)));
    assert_eq!(resolve_guard(Some(v(2, 3, 9)), Some(v(2, 4, 0))), None);
    assert_eq!(resolve_guard(Some(v(3, 0, 0)), Some(v(2, 9, 9))), Some(v(3, 0, 0)));
    assert_eq!(Version::if_stricter_than(Some(v(1, 2, 0)), Some(v(1, 4, 0))), None);
}

#[test]
fn version_texts() {
    assert_eq!(v(2, 4, 0).to_feature(), "v2_4");
    assert_eq!(v(1, 2, 3).to_feature(), "v1_2_3");
    assert_eq!(v(10, 120, 0).to_feature(), "v10_120");
    assert_eq!(v(2, 4, 0).to_cfg(None), "feature = \"v2_4\"");
    assert_eq!(v(2, 4, 0).to_cfg(Some("gdk")), "feature = \"gdk_v2_4\"");
    assert_eq!(v(2, 4, 0).to_string(), "2.4");
    assert_eq!(v(1, 20, 3).to_string(), "1.20.3");
    assert!(v(2, 4, 1).is_newer_than(&v(2, 4, 0)));
    assert!(!v(2, 4, 0).is_newer_than(&v(2, 4, 0)));
}

#[test]
fn cfg_condition_strings() {
    assert_eq!(cfg_condition_string_no_doc(None, false, 0), None);
    assert_eq!(
        cfg_condition_string_no_doc(Some("unix"), false, 1).unwrap(),
        "\t#[cfg(any(unix, feature = \"dox\"))]"
    );
    assert_eq!(
        cfg_condition_string_doc(Some("unix"), true, 0).unwrap(),
        "//#[cfg_attr(feature = \"dox\", doc(cfg(unix)))]"
    );
    assert_eq!(
        cfg_condition_string(Some("unix"), false, 2).unwrap(),
        "\t\t#[cfg(any(unix, feature = \"dox\"))]\n\t\t#[cfg_attr(feature = \"dox\", doc(cfg(unix)))]"
    );
    let mut w = String::new();
    cfg_condition(&mut w, Some("unix"), false, 0);
    assert_eq!(
        w,
        "#[cfg(any(unix, feature = \"dox\"))]\n#[cfg_attr(feature = \"dox\", doc(cfg(unix)))]\n"
    );
    let mut w = String::new();
    cfg_condition(&mut w, None, false, 0);
    assert_eq!(w, "");
}

#[test]
fn version_conditions() {
    let env = env();
    assert_eq!(version_condition_string(&env, None, Some(v(2, 8, 0)), false, 0), None);
    assert_eq!(version_condition_string(&env, None, Some(v(3, 0, 0)), false, 0), None);
    assert_eq!(version_condition_string(&env, None, None, false, 0), None);
    let mut w = String::new();
    version_condition(&mut w, &env, None, Some(v(3, 4, 0)), false, 0);
    assert_eq!(
        w,
        "#[cfg(any(feature = \"v3_4\", feature = \"dox\"))]\n#[cfg_attr(feature = \"dox\", doc(cfg(feature = \"v3_4\")))]\n"
    );
    let mut w = String::new();
    version_condition_no_doc(&mut w, &env, Some(1), Some(v(3, 4, 0)), false, 1);
    assert_eq!(w, "\t#[cfg(any(feature = \"gdk_v3_4\", feature = \"dox\"))]\n");
    let mut w = String::new();
    version_condition_doc(&mut w, &env, Some(v(3, 4, 0)), true, 0);
    assert_eq!(w, "//#[cfg_attr(feature = \"dox\", doc(cfg(feature = \"v3_4\")))]\n");
    let mut w = String::new();
    version_condition_doc(&mut w, &env, Some(v(2, 4, 0)), false, 0);
    assert_eq!(w, "");
}

#[test]
fn complement_conditions() {
    let env = env();
    let mut w = String::new();
    not_version_condition(&mut w, Some(v(3, 4, 0)), false, 0);
    assert_eq!(
        w,
        "#[cfg(any(not(feature = \"v3_4\"), feature = \"dox\"))]\n#[cfg_attr(feature = \"dox\", doc(cfg(not(feature = \"v3_4\"))))]\n"
    );
    let mut w = String::new();
    not_version_condition_no_dox(&mut w, &env, Some(1), Some(v(3, 4, 0)), false, 0);
    assert_eq!(w, "#[cfg(not(any(feature = \"gdk_v3_4\", feature = \"dox\")))]\n");
    let mut w = String::new();
    not_version_condition_no_dox(&mut w, &env, None, None, false, 0);
    assert_eq!(w, "");
}

#[test]
fn deprecation_markers() {
    let env = env();
    assert_eq!(
        cfg_deprecated_string(&env, None, Some(v(2, 10, 0)), false, 0).unwrap(),
        "#[deprecated = \"Since 2.10\"]"
    );
    assert_eq!(
        cfg_deprecated_string(&env, None, Some(v(3, 2, 0)), false, 1).unwrap(),
        "\t#[cfg_attr(feature = \"v3_2\", deprecated = \"Since 3.2\")]"
    );
    let gdk_type = TypeId { ns_id: 1, id: 0 };
    assert_eq!(
        cfg_deprecated_string(&env, Some(gdk_type), Some(v(1, 0, 0)), true, 0).unwrap(),
        "//#[cfg_attr(feature = \"v1_0\", deprecated = \"Since 1.0\")]"
    );
    assert_eq!(cfg_deprecated_string(&env, None, None, false, 0), None);
}

#[test]
fn attribute_markers() {
    let mut w = String::new();
    let ds = vec![
        Derive { names: vec!["Debug".to_string(), "Clone".to_string()], cfg_condition: None },
        Derive { names: vec!["Hash".to_string()], cfg_condition: Some("unix".to_string()) },
    ];
    derives(&mut w, &ds, 1);
    assert_eq!(w, "\t#[derive(Debug, Clone)]\n\t#[cfg_attr(unix, derive(Hash))]\n");

    let mut w = String::new();
    doc_alias(&mut w, "gtk_widget_show", "//", 2);
    assert_eq!(w, "\t\t//#[doc(alias = \"gtk_widget_show\")]\n");

    let mut w = String::new();
    doc_hidden(&mut w, true, "", 0);
    doc_hidden(&mut w, false, "", 0);
    assert_eq!(w, "#[doc(hidden)]\n");

    let mut w = String::new();
    allow_deprecated(&mut w, Some(v(1, 0, 0)), true, 1);
    allow_deprecated(&mut w, None, false, 0);
    assert_eq!(w, "\t//#[allow(deprecated)]\n");

    let mut w = String::new();
    write_vec(&mut w, &["a".to_string(), "b c".to_string()]);
    assert_eq!(w, "a\nb c\n");
}

fn config(single: Option<&str>) -> Config {
    Config {
        single_version_file: single.map(|s| s.to_string()),
        girs_version: vec![
            GirInfo {
                gir_dir: "gir-files".to_string(),
                repository_url: Some("https://example.org/gir-files".to_string()),
                hash: Some("abc123".to_string()),
            },
            GirInfo { gir_dir: "extra".to_string(), repository_url: None, hash: Some("def456".to_string()) },
            GirInfo { gir_dir: "local".to_string(), repository_url: None, hash: None },
        ],
        generator_version: "0123abc".to_string(),
    }
}

#[test]
fn headers() {
    let mut w = String::new();
    start_comments(&mut w, &config(None));
    assert_eq!(
        w,
        "// Generated by gir (https://github.com/gtk-rs/gir @ 0123abc)\n\
         // from gir-files (https://example.org/gir-files @ abc123)\n\
         // from extra (@ def456)\n\
         // from local\n\
         // DO NOT EDIT\n"
    );
    let mut w = String::new();
    start_comments(&mut w, &config(Some("versions.txt")));
    let mut w2 = String::new();
    start_comments_no_version(&mut w2, &config(None));
    assert_eq!(w, w2);
    assert_eq!(
        w,
        "// This file was generated by gir (https://github.com/gtk-rs/gir)\n\
         // from gir-files (https://example.org/gir-files)\n\
         // from extra\n\
         // from local\n\
         // DO NOT EDIT\n"
    );
    let mut w = String::new();
    single_version_file(&mut w, &config(None), "");
    assert!(w.starts_with("Generated by gir (https://github.com/gtk-rs/gir @ 0123abc)\nfrom gir-files"));
}

fn ctor(name: &str, nullable: Option<bool>, has_parameters: bool) -> FunctionInfo {
    FunctionInfo {
        name: name.to_string(),
        hidden: false,
        need_generate: true,
        ret_nullable: nullable,
        has_parameters,
        version: Some(v(3, 6, 0)),
    }
}

#[test]
fn default_from_new() {
    let env = env();
    let mut w = String::new();
    declare_default_from_new(&mut w, &env, "Button", &[ctor("new", Some(false), false)], false);
    assert_eq!(
        w,
        "\n#[cfg(any(feature = \"v3_6\", feature = \"dox\"))]\n#[cfg_attr(feature = \"dox\", doc(cfg(feature = \"v3_6\")))]\n\
impl Default for Button {\n                     fn default() -> Self {\n                         Self::new()\n                     }\n                 }\n"
    );
    let mut w = String::new();
    declare_default_from_new(&mut w, &env, "Button", &[ctor("new", Some(false), true)], true);
    assert!(w.contains("glib::object::Object::new::<Self>(&[])"));
    let mut w = String::new();
    declare_default_from_new(&mut w, &env, "Button", &[ctor("new", Some(false), true)], false);
    assert_eq!(w, "");
    let mut w = String::new();
    declare_default_from_new(
        &mut w,
        &env,
        "Button",
        &[ctor("new", Some(true), false), ctor("new_with_label", Some(false), false)],
        true,
    );
    assert_eq!(w, "");
}
