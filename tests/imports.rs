use gir_codegen::{
    aggregate_imports, split_import_name, uses, Env, ImportConditions, ImportRequest, Namespace,
    RenderError, Version,
};

fn env() -> Env {
    Env {
        namespaces: vec![Namespace {
            crate_name: "gtk".to_string(),
            sys_crate_name: "ffi".to_string(),
            min_version: Some(Version::new(3, 0, 0)),
            types: vec![],
        }],
        glib_crate: "glib".to_string(),
    }
}

fn req(name: &str, version: Option<Version>, constraints: &[&str]) -> ImportRequest {
    ImportRequest {
        name: name.to_string(),
        scope: ImportConditions {
            version,
            constraints: constraints.iter().map(|c| c.to_string()).collect(),
        },
    }
}

#[test]
fn duplicate_imports_merge_into_one_sorted_group() {
    let env = env();
    let reqs = vec![req("a::X", None, &[]), req("a::Y", None, &[]), req("a::X", None, &[])];
    let mut w = String::new();
    assert_eq!(uses(&mut w, &env, &reqs, None), Ok(()));
    assert_eq!(w, "\nuse a::{X,Y};\n");
    let groups = aggregate_imports(&env, &reqs, None).unwrap();
    assert_eq!(groups.len(), 1);
    assert_eq!(groups[0].crate_name, "a");
    assert!(groups[0].scope.is_none());
    assert_eq!(groups[0].names, vec!["X".to_string(), "Y".to_string()]);
}

#[test]
fn version_not_stricter_than_baseline_collapses() {
    let env = env();
    let reqs = vec![req("a::Y", None, &[]), req("a::X", Some(Version::new(2, 8, 0)), &[])];
    let mut w = String::new();
    assert_eq!(uses(&mut w, &env, &reqs, None), Ok(()));
    assert_eq!(w, "\nuse a::{X,Y};\n");
    let reqs = vec![req("a::Y", None, &[]), req("a::X", Some(Version::new(3, 4, 0)), &[])];
    let outer = Some(Version::new(3, 6, 0));
    let mut w = String::new();
    assert_eq!(uses(&mut w, &env, &reqs, outer), Ok(()));
    assert_eq!(w, "\nuse a::{X,Y};\n");
}

#[test]
fn gated_groups_follow_ungated_ones() {
    let env = env();
    let reqs = vec![
        req("b::Z", Some(Version::new(3, 4, 0)), &["unix"]),
        req("gdk::Rect", None, &[]),
        req("b::W", None, &[]),
        req("b::V", Some(Version::new(3, 2, 0)), &[]),
        req("b::U", None, &["windows", "unix", "windows"]),
    ];
    let mut w = String::new();
    assert_eq!(uses(&mut w, &env, &reqs, None), Ok(()));
    assert_eq!(
        w,
        "\n\
         use b::{W};\n\
         #[cfg(any(unix, windows,feature = \"dox\"))]\n\
         #[cfg_attr(feature = \"dox\", doc(cfg(unix, windows)))]\n\
         use b::{U};\n\
         #[cfg(any(feature = \"v3_2\", feature = \"dox\"))]\n\
         #[cfg_attr(feature = \"dox\", doc(cfg(feature = \"v3_2\")))]\n\
         use b::{V};\n\
         #[cfg(any(unix,feature = \"dox\"))]\n\
         #[cfg_attr(feature = \"dox\", doc(cfg(unix)))]\n\
         #[cfg(any(feature = \"v3_4\", feature = \"dox\"))]\n\
         #[cfg_attr(feature = \"dox\", doc(cfg(feature = \"v3_4\")))]\n\
         use b::{Z};\n\
         use gdk::{Rect};\n"
    );
}

#[test]
fn unqualified_import_is_refused() {
    let env = env();
    let reqs = vec![req("a::X", None, &[]), req("Lonely", None, &[])];
    let mut w = String::from("kept");
    assert_eq!(uses(&mut w, &env, &reqs, None), Err(RenderError::UnqualifiedImport));
    assert_eq!(w, "kept");
}

#[test]
fn names_split_at_first_separator() {
    assert_eq!(
        split_import_name("glib::object::Cast"),
        Some(("glib".to_string(), "object::Cast".to_string()))
    );
    assert_eq!(split_import_name("std:fmt"), None);
    assert_eq!(split_import_name("::x"), Some((String::new(), "x".to_string())));
}

#[test]
fn import_rendering_is_repeatable() {
    let env = env();
    let reqs = vec![req("b::Z", Some(Version::new(3, 4, 0)), &["unix"]), req("a::X", None, &[])];
    let mut a = String::new();
    let mut b = String::new();
    uses(&mut a, &env, &reqs, None).unwrap();
    uses(&mut b, &env, &reqs, None).unwrap();
    assert_eq!(a, b);
}
