use gir_codegen::{
    define_auto_boxed_type, define_boxed_type, define_fundamental_type, define_object_type,
    define_shared_type, Derive, Env, GStatus, LibType, Namespace, RenderError, StatusedTypeId,
    TraitInfo, TypeId, Version, Visibility,
};

fn class(c_type: &str, lifetime: Option<(&str, &str)>) -> LibType {
    LibType::Class {
        c_type: c_type.to_string(),
        ref_fn: lifetime.map(|l| l.0.to_string()),
        unref_fn: lifetime.map(|l| l.1.to_string()),
    }
}

fn env() -> Env {
    Env {
        namespaces: vec![
            Namespace {
                crate_name: "gtk".to_string(),
                sys_crate_name: "ffi".to_string(),
                min_version: Some(Version::new(3, 0, 0)),
                types: vec![
                    class("GtkA", None),
                    class("GtkBase", Some(("gtk_base_ref", "gtk_base_unref"))),
                    LibType::Interface,
                ],
            },
            Namespace {
                crate_name: "gdk".to_string(),
                sys_crate_name: "gdk::ffi".to_string(),
                min_version: None,
                types: vec![class("GdkB", Some(("gdk_b_ref", "gdk_b_unref"))), LibType::Interface],
            },
        ],
        glib_crate: "glib".to_string(),
    }
}

fn parent(ns_id: u16, id: u32, name: &str, status: GStatus) -> StatusedTypeId {
    StatusedTypeId { type_id: TypeId { ns_id, id }, name: name.to_string(), status }
}

#[test]
fn fundamental_type_takes_lifetime_from_first_supplying_ancestor() {
    let env = env();
    let parents = vec![parent(0, 0, "A", GStatus::Generate), parent(1, 0, "B", GStatus::Generate)];
    let mut w = String::new();
    let r = define_fundamental_type(
        &mut w,
        &env,
        "Thing",
        "GtkThing",
        "gtk_thing_get_type",
        None,
        None,
        &parents,
        Visibility::Public,
    );
    assert_eq!(r, Ok(()));
    assert_eq!(
        w,
        "glib::wrapper! {\n\
         \t#[doc(alias = \"GtkThing\")]\n\
         \tpub struct Thing(Shared<ffi::GtkThing>);\n\
         \n\
         \tmatch fn {\n\
         \t\tref => |ptr| gdk::ffi::gdk_b_ref(ptr as *mut gdk::ffi::GdkB),\n\
         \t\tunref => |ptr| gdk::ffi::gdk_b_unref(ptr as *mut gdk::ffi::GdkB),\n\
         \t}\n\
         }\n\
         \n\
         \n\
         impl glib::StaticType for Thing {\n\
         \tfn static_type() -> glib::Type {\n\
         \t\t unsafe { from_glib(ffi::gtk_thing_get_type()) }\n\
         \t}\n\
         }\n"
    );
}

#[test]
fn fundamental_type_skips_ignored_ancestor() {
    let env = env();
    let parents = vec![
        parent(7, 99, "Gone", GStatus::Ignore),
        parent(0, 1, "Base", GStatus::Ignore),
        parent(1, 0, "B", GStatus::Manual),
    ];
    let mut w = String::new();
    let r = define_fundamental_type(&mut w, &env, "T", "GtkT", "f", None, None, &parents, Visibility::Crate);
    assert_eq!(r, Ok(()));
    assert!(w.contains("\t\tref => |ptr| gdk::ffi::gdk_b_ref(ptr as *mut gdk::ffi::GdkB),\n"));
    assert!(w.contains("\tpub(crate) struct T(Shared<ffi::GtkT>);\n"));
}

#[test]
fn root_fundamental_type_uses_its_own_functions() {
    let env = env();
    let mut w = String::new();
    let r = define_fundamental_type(
        &mut w,
        &env,
        "T",
        "GtkT",
        "f",
        Some("gtk_t_ref"),
        Some("gtk_t_unref"),
        &[],
        Visibility::Private,
    );
    assert_eq!(r, Ok(()));
    assert!(w.contains("\t struct T(Shared<ffi::GtkT>);\n"));
    assert!(w.contains("\t\tref => |ptr| ffi::gtk_t_ref(ptr),\n\t\tunref => |ptr| ffi::gtk_t_unref(ptr),\n"));
}

#[test]
fn root_fundamental_type_without_lifetime_fails() {
    let env = env();
    let mut w = String::from("kept");
    let r = define_fundamental_type(&mut w, &env, "T", "GtkT", "f", None, None, &[], Visibility::Public);
    assert_eq!(r, Err(RenderError::MissingLifetimeFunctions));
    assert_eq!(w, "kept");
    let r = define_fundamental_type(&mut w, &env, "T", "GtkT", "f", Some("r"), None, &[], Visibility::Public);
    assert_eq!(r, Err(RenderError::MissingLifetimeFunctions));
    let only_lacking = vec![parent(0, 0, "A", GStatus::Generate)];
    let r = define_fundamental_type(
        &mut w,
        &env,
        "T",
        "GtkT",
        "f",
        Some("r"),
        Some("u"),
        &only_lacking,
        Visibility::Public,
    );
    assert_eq!(r, Err(RenderError::MissingLifetimeFunctions));
    assert_eq!(w, "kept");
}

#[test]
fn object_extends_and_implements() {
    let env = env();
    let parents = vec![
        parent(0, 1, "Base", GStatus::Generate),
        parent(1, 1, "Iface", GStatus::Generate),
        parent(0, 2, "Hidden", GStatus::Ignore),
        parent(9, 9, "Gone", GStatus::Ignore),
        parent(0, 2, "Local", GStatus::Manual),
    ];
    let mut w = String::new();
    define_object_type(
        &mut w,
        &env,
        "Button",
        "GtkButton",
        Some("GtkButtonClass"),
        "gtk_button_get_type",
        false,
        &parents,
        Visibility::Public,
    );
    assert_eq!(
        w,
        "glib::wrapper! {\n\
         \t#[doc(alias = \"GtkButton\")]\n\
         \tpub struct Button(Object<ffi::GtkButton, ffi::GtkButtonClass>) @extends Base, @implements gdk::Iface, Local;\n\
         \n\
         \tmatch fn {\n\
         \t\ttype_ => || ffi::gtk_button_get_type(),\n\
         \t}\n\
         }\n"
    );
}

#[test]
fn interface_requires_all_active_ancestors() {
    let env = env();
    let parents = vec![parent(0, 1, "Base", GStatus::Generate), parent(1, 1, "Iface", GStatus::Generate)];
    let mut w = String::new();
    define_object_type(&mut w, &env, "Editable", "GtkEditable", None, "f", true, &parents, Visibility::Public);
    assert!(w.contains("\tpub struct Editable(Interface<ffi::GtkEditable>) @requires Base, gdk::Iface;\n"));
    let mut w = String::new();
    define_object_type(&mut w, &env, "Editable", "GtkEditable", None, "f", true, &[], Visibility::Public);
    assert!(w.contains("\tpub struct Editable(Interface<ffi::GtkEditable>);\n"));
    let mut w = String::new();
    let only_iface = vec![parent(1, 1, "Iface", GStatus::Generate)];
    define_object_type(&mut w, &env, "O", "GtkO", None, "f", false, &only_iface, Visibility::Public);
    assert!(w.contains("\tpub struct O(Object<ffi::GtkO>) @implements gdk::Iface;\n"));
}

fn copy_fn(first_parameter_mut: bool) -> TraitInfo {
    TraitInfo { glib_name: "gtk_border_copy".to_string(), version: None, first_parameter_mut }
}

const BORDER_BLOCK_HEAD: &str = "glib::wrapper! {\n\
     \t#[derive(Debug)]\n\
     \tpub struct Border(Boxed<ffi::GtkBorder>);\n\
     \n\
     \tmatch fn {\n\
     \t\tcopy => |ptr| ffi::gtk_border_copy(mut_override(ptr)),\n\
     \t\tfree => |ptr| ffi::gtk_border_free(ptr),\n";

#[test]
fn boxed_type_with_newer_registration_is_declared_twice() {
    let env = env();
    let derive = vec![Derive { names: vec!["Debug".to_string()], cfg_condition: None }];
    let mut w = String::new();
    let r = define_boxed_type(
        &mut w,
        &env,
        "Border",
        "GtkBorder",
        &copy_fn(true),
        "gtk_border_free",
        false,
        &None,
        &None,
        &None,
        Some(("gtk_border_get_type".to_string(), Some(Version::new(3, 4, 0)))),
        &derive,
        Visibility::Public,
    );
    assert_eq!(r, Ok(()));
    let expected = format!(
        "\n#[cfg(any(feature = \"v3_4\", feature = \"dox\"))]\n\
         #[cfg_attr(feature = \"dox\", doc(cfg(feature = \"v3_4\")))]\n\
         {head}\t\ttype_ => || ffi::gtk_border_get_type(),\n\t}}\n}}\n\
         \n#[cfg(not(any(feature = \"v3_4\", feature = \"dox\")))]\n\
         {head}\t}}\n}}\n",
        head = BORDER_BLOCK_HEAD
    );
    assert_eq!(w, expected);
}

#[test]
fn boxed_type_inline_group() {
    let env = env();
    let mut w = String::new();
    let r = define_boxed_type(
        &mut w,
        &env,
        "Rect",
        "GdkRect",
        &copy_fn(false),
        "gdk_rect_free",
        true,
        &Some("|_ptr| ()".to_string()),
        &Some("|dest, src| { *dest = *src; }".to_string()),
        &Some("|_ptr| ()".to_string()),
        Some(("gdk_rect_get_type".to_string(), None)),
        &[],
        Visibility::Public,
    );
    assert_eq!(r, Ok(()));
    assert_eq!(
        w,
        "\nglib::wrapper! {\n\
         \tpub struct Rect(BoxedInline<ffi::GdkRect>);\n\
         \n\
         \tmatch fn {\n\
         \t\tcopy => |ptr| ffi::gtk_border_copy(ptr),\n\
         \t\tfree => |ptr| ffi::gdk_rect_free(ptr),\n\
         \t\tinit => |_ptr| (),\n\
         \t\tcopy_into => |dest, src| { *dest = *src; },\n\
         \t\tclear => |_ptr| (),\n\
         \t\ttype_ => || ffi::gdk_rect_get_type(),\n\
         \t}\n\
         }\n"
    );
}

#[test]
fn partial_inline_group_is_refused() {
    let env = env();
    let mut w = String::from("kept");
    let r = define_boxed_type(
        &mut w,
        &env,
        "Rect",
        "GdkRect",
        &copy_fn(false),
        "gdk_rect_free",
        true,
        &Some("init".to_string()),
        &None,
        &Some("clear".to_string()),
        None,
        &[],
        Visibility::Public,
    );
    assert_eq!(r, Err(RenderError::PartialInlineFunctions));
    let r = define_auto_boxed_type(
        &mut w,
        &env,
        "Rect",
        "GdkRect",
        true,
        &None,
        &Some("copy".to_string()),
        &None,
        "gdk_rect_get_type",
        &[],
        Visibility::Public,
    );
    assert_eq!(r, Err(RenderError::PartialInlineFunctions));
    assert_eq!(w, "kept");
}

#[test]
fn auto_boxed_type_goes_through_runtime_id() {
    let env = env();
    let mut w = String::new();
    let r = define_auto_boxed_type(
        &mut w,
        &env,
        "Value",
        "GtkValue",
        false,
        &None,
        &None,
        &None,
        "gtk_value_get_type",
        &[],
        Visibility::Public,
    );
    assert_eq!(r, Ok(()));
    assert_eq!(
        w,
        "\nglib::wrapper! {\n\
         \tpub struct Value(Boxed<ffi::GtkValue>);\n\
         \n\
         \tmatch fn {\n\
         \t\tcopy => |ptr| glib::gobject_ffi::g_boxed_copy(ffi::gtk_value_get_type(), ptr as *mut _) as *mut ffi::GtkValue,\n\
         \t\tfree => |ptr| glib::gobject_ffi::g_boxed_free(ffi::gtk_value_get_type(), ptr as *mut _),\n\
         \t\ttype_ => || ffi::gtk_value_get_type(),\n\
         \t}\n\
         }\n"
    );
}

#[test]
fn shared_type_single_and_straddling() {
    let env = env();
    let mut w = String::new();
    define_shared_type(&mut w, &env, "Css", "GtkCss", "gtk_css_ref", "gtk_css_unref", None, &[], Visibility::Public);
    assert_eq!(
        w,
        "\nglib::wrapper! {\n\
         \tpub struct Css(Shared<ffi::GtkCss>);\n\
         \n\
         \tmatch fn {\n\
         \t\tref => |ptr| ffi::gtk_css_ref(ptr),\n\
         \t\tunref => |ptr| ffi::gtk_css_unref(ptr),\n\
         \t}\n\
         }\n"
    );
    let mut w = String::new();
    define_shared_type(
        &mut w,
        &env,
        "Css",
        "GtkCss",
        "gtk_css_ref",
        "gtk_css_unref",
        Some(("gtk_css_get_type".to_string(), Some(Version::new(3, 2, 0)))),
        &[],
        Visibility::Public,
    );
    let on = w.find("#[cfg(any(feature = \"v3_2\", feature = \"dox\"))]\n").unwrap();
    let off = w.find("#[cfg(not(any(feature = \"v3_2\", feature = \"dox\")))]\n").unwrap();
    assert!(on < off);
    assert_eq!(w.matches("glib::wrapper! {").count(), 2);
    assert_eq!(w.matches("type_ => || ffi::gtk_css_get_type(),").count(), 1);
    assert!(w[on..off].contains("type_ =>"));
    assert!(!w[off..].contains("type_ =>"));
}

#[test]
fn rendering_twice_gives_identical_text() {
    let env = env();
    let parents = vec![parent(0, 0, "A", GStatus::Generate), parent(1, 0, "B", GStatus::Generate)];
    let mut a = String::new();
    let mut b = String::new();
    for w in [&mut a, &mut b] {
        define_fundamental_type(w, &env, "T", "GtkT", "f", None, None, &parents, Visibility::Public).unwrap();
        define_shared_type(
            w,
            &env,
            "Css",
            "GtkCss",
            "r",
            "u",
            Some(("t".to_string(), Some(Version::new(3, 2, 0)))),
            &[],
            Visibility::Public,
        );
    }
    assert_eq!(a, b);
}
