use workflow_ux::declare::{link_from_source, menu_from_source, module_decl_from_source, view_decl_from_source, ArgKind};
use workflow_ux::form::Category;
use workflow_ux::icons::{icon_entries, icon_entries_from_source};
use workflow_ux::item::{html_types, html_view_check_source};
use workflow_ux::markdown::{link_open_tag, markdown_to_html};

#[test]
fn html_views_need_an_html_field() {
    assert_eq!(
        html_view_check_source("struct V { html: Arc<Mutex<Option<Arc<workflow_ux::view::Html>>>>, n: u32 }"),
        Ok(())
    );
    assert_eq!(
        html_view_check_source("struct V { html: std::sync::Arc<std::sync::Mutex<Option<std::sync::Arc<Html>>>> }"),
        Ok(())
    );
    assert_eq!(
        html_view_check_source("struct V { html: Arc<Html>, n: u32 }"),
        Err("#[HtmlView] struct require 'html' member/property. \n`html: Arc<Mutex<Option<Arc<workflow_ux::view::Html>>>>`".to_string())
    );
    assert_eq!(html_view_check_source("struct V(u32);"), Ok(()));
    assert_eq!(
        html_view_check_source("enum V { A }"),
        Err("#[HtmlView] macro only supports structs".to_string())
    );
    assert_eq!(
        html_view_check_source("union V { a: u32 }"),
        Err("#[HtmlView] macro only supports structs".to_string())
    );
    assert!(html_view_check_source("fn f() {}").is_err());
    assert_eq!(html_types().len(), 7);
}

#[test]
fn icon_enums_name_their_files() {
    let es = icon_entries_from_source(
        "enum Icons { #[descr(default = \"Close the window\")] CloseWindow, Gear }",
    )
    .unwrap();
    assert_eq!(es.len(), 2);
    assert_eq!(es[0].path, "Icons::CloseWindow");
    assert_eq!(es[0].constant, "CLOSE_WINDOW");
    assert_eq!(es[0].file, "../../root/resources/icons/close-window");
    assert_eq!(es[0].descr, "Close the window");
    assert_eq!(es[1].path, "Icons::Gear");
    assert_eq!(es[1].constant, "GEAR");
    assert_eq!(es[1].file, "../../root/resources/icons/gear");
    assert_eq!(es[1].descr, "Gear");
    assert_eq!(
        icon_entries_from_source("struct Icons;").err(),
        Some("#[enums] macro only supports enums".to_string())
    );
    let e = icon_entries_from_source("enum I { #[descr] #[descr] A }").err().unwrap();
    assert!(e.starts_with("#[field]: more than one #[field()] attributes while processing "));
    assert!(e.ends_with("A"));
    let direct = icon_entries(
        "E",
        &vec![("Ok".to_string(), "Ok".to_string(), vec!["# [doc = \" x\"]".to_string()])],
    )
    .unwrap();
    assert_eq!(direct[0].descr, "Ok");
}

#[test]
fn markdown_links_open_in_new_tabs() {
    assert_eq!(
        markdown_to_html("see [x](http://a.b/c d \"T\") ~~no~~"),
        markdown_to_html("see [x](http://a.b/c d \"T\") ~~no~~")
    );
    let h = markdown_to_html("[x](http://a.b/c \"T\")");
    assert!(h.contains("<a target=\"_blank\" href=\"http://a.b/c\" title=\"T\">x</a>"));
    let m = markdown_to_html("<me@x.com>");
    assert!(m.contains("href=\"mailto:me@x.com\""));
    assert!(markdown_to_html("~~gone~~").contains("<del>gone</del>"));
}

#[test]
fn categories_from_pairs() {
    let c = Category::from(("Category 1".to_string(), "cat-1".to_string()));
    assert_eq!((c.text.as_str(), c.key.as_str()), ("Category 1", "cat-1"));
}

#[test]
fn declarations_read_from_source() {
    let m = menu_from_source("root, title, icon, MyModule::handler").unwrap();
    assert_eq!((m.module_type.as_str(), m.handler.as_str()), ("MyModule", "handler"));
    assert_eq!(m.parent, ArgKind::Path(vec!["root".to_string()]));
    assert_eq!(m.title, ArgKind::Path(vec!["title".to_string()]));
    assert_eq!(m.icon, ArgKind::Path(vec!["icon".to_string()]));
    let m = menu_from_source("a, \"Title\", i, M::f").unwrap();
    assert_eq!(m.title, ArgKind::Other("\"Title\"".to_string()));
    assert_eq!(
        menu_from_source("a, b, c").err(),
        Some("not enough arguments - usage: <parent>, <title>, <icon>, <ModuleType::handler_fn>".to_string())
    );
    assert_eq!(
        menu_from_source("a, b, c, d, e").err(),
        Some("too many arguments - usage: <parent>, <title>, <icon>, <ModuleType::handler_fn>".to_string())
    );
    let l = link_from_source("label, MyModule::open, x, y").unwrap();
    assert_eq!(l.text, ArgKind::Path(vec!["label".to_string()]));
    assert_eq!((l.module_type.as_str(), l.handler.as_str()), ("MyModule", "open"));
    assert_eq!(l.args, vec![ArgKind::Path(vec!["x".to_string()]), ArgKind::Path(vec!["y".to_string()])]);
    assert_eq!(
        link_from_source("label").err(),
        Some("not enough arguments - usage: <text>, <ModuleType::handler_fn>, [args, ...]".to_string())
    );
    assert_eq!(
        link_from_source("label, open").err(),
        Some("module handler path should have the following format: ModuleType::handler_fn".to_string())
    );
    assert_eq!(module_decl_from_source("MyModule, [A, B]"), Ok(()));
    assert_eq!(
        module_decl_from_source("MyModule, 3"),
        Err("the second argument should be and array of container types (ids)".to_string())
    );
    assert_eq!(
        view_decl_from_source("Eviction::Allow"),
        Ok(Some(vec!["Eviction".to_string(), "Allow".to_string()]))
    );
    assert_eq!(view_decl_from_source(""), Ok(None));
}

#[test]
fn link_addresses_are_escaped_byte_by_byte() {
    assert_eq!(
        link_open_tag(false, "a&b'c é<[~]", ""),
        "<a target=\"_blank\" href=\"a&amp;b&#x27;c%20%C3%A9%3C%5B~%5D\">"
    );
}

#[test]
fn layout_fields_read_from_source() {
    let fs = workflow_ux::item::layout_fields_from_source(
        "struct Form { #[field(label = \"Name\", hidden)] #[doc = \" x\"] name: controls::Input, #[layout(title = \"T\")] #[input(placeholder = \"p\")] mail: Input, sub: Section<Other> }",
    )
    .unwrap();
    assert_eq!(fs.len(), 3);
    assert_eq!(fs[0].name, "name");
    assert_eq!(fs[0].control_type, "input");
    assert_eq!(fs[0].attrs.len(), 1);
    assert_eq!(fs[0].attrs[0].name, "field");
    assert_eq!(fs[0].attrs[0].args.get("label"), Some(&"Name".to_string()));
    assert_eq!(fs[0].attrs[0].args.get("hidden"), Some(&"true".to_string()));
    assert_eq!(fs[1].attrs.len(), 2);
    let (ctl, container) = workflow_ux::layout::field_args(&fs[1].control_type, &fs[1].attrs);
    assert_eq!(ctl.get("placeholder"), Some(&"p".to_string()));
    assert_eq!(container.get("title"), Some(&"T".to_string()));
    assert_eq!(fs[2].control_type, "section");
    assert_eq!(
        workflow_ux::item::layout_fields_from_source("struct Form { a: &'static str }").err(),
        Some("layout macro - unable to resolve type path".to_string())
    );
    assert_eq!(
        workflow_ux::item::layout_fields_from_source("struct Form(u32);").err(),
        Some("#[panel] macro only supports structs".to_string())
    );
    assert_eq!(
        workflow_ux::item::layout_fields_from_source("enum E { A }").err(),
        Some("#[panel] macro only supports structs".to_string())
    );
    let names = workflow_ux::item::layout_struct_fields(workflow_ux::layout::Layout::Stage, &fs);
    assert_eq!(names, vec!["_layout", "_stage_index", "_stages", "name", "mail", "sub"]);
    let names = workflow_ux::item::layout_struct_fields(workflow_ux::layout::Layout::Form, &fs);
    assert_eq!(names, vec!["_layout", "_footer", "name", "mail", "sub"]);
    assert_eq!(workflow_ux::item::stage_names(&fs), vec!["name", "mail", "sub"]);
}
