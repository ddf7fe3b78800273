use workflow_ux::app_layout::{AppDrawer, AppLayout, Lookup};
use workflow_ux::attributes::StrMap;
use workflow_ux::badge::Options;
use workflow_ux::data_field::DataField;
use workflow_ux::declare::{check_count, check_html_field, check_module_decl, check_view_decl, handler_path, html_view_messages, link_args, menu_args, ArgKind};
use workflow_ux::digest::{build_md5_hash, build_sha256_hash, to_hex};
use workflow_ux::error::Error;
use workflow_ux::events::{after_event, Received, Subscriber};
use workflow_ux::form::Category;
use workflow_ux::link::{Kind, Link};
use workflow_ux::markdown::link_open_tag;

#[test]
fn digests_in_hex() {
    assert_eq!(build_md5_hash("abc"), "900150983cd24fb0d6963f7d28e17f72");
    assert_eq!(build_sha256_hash("abc"), "ba7816bf8f01cfea414140de5dae2223b00361a396177a9cb410ff61f20015ad");
    assert_eq!(build_md5_hash(""), "");
    assert_eq!(build_sha256_hash(""), "");
    assert_eq!(to_hex(&vec![0, 15, 255]), "000fff");
}

#[test]
fn markdown_link_tags() {
    assert_eq!(link_open_tag(false, "http://x.com/a b", ""), "<a target=\"_blank\" href=\"http://x.com/a%20b\">");
    assert_eq!(
        link_open_tag(true, "me@x.com", "Say \"hi\" & <go>"),
        "<a target=\"_blank\" href=\"mailto:me@x.com\" title=\"Say &quot;hi&quot; &amp; &lt;go&gt;\">"
    );
}

#[test]
fn attribute_maps_keep_keys_in_order() {
    let mut m = StrMap::new();
    assert_eq!(m.insert("b".to_string(), 2), None);
    assert_eq!(m.insert("a".to_string(), 1), None);
    assert_eq!(m.insert("b".to_string(), 3), Some(2));
    assert_eq!(m.key_at(0), "a");
    assert_eq!(*m.get("b").unwrap(), 3);
    assert_eq!(m.remove("a"), Some(1));
    assert_eq!(m.remove("a"), None);
    assert_eq!(m.len(), 1);
    let mut x = StrMap::new();
    x.insert("k".to_string(), "1".to_string());
    let mut y = StrMap::new();
    y.insert("k".to_string(), "2".to_string());
    y.insert("j".to_string(), "3".to_string());
    x.merge_from(&y);
    assert_eq!(x.entries(), vec![("j".to_string(), "3".to_string()), ("k".to_string(), "2".to_string())]);
}

#[test]
fn badge_options_from_attributes() {
    let mut a = StrMap::new();
    a.insert("sampler".to_string(), "s1".to_string());
    a.insert("has-colon".to_string(), "false".to_string());
    let o = Options::from_attributes(&a);
    assert_eq!(o.sampler, Some("s1".to_string()));
    assert!(!o.colon);
    let o = Options::default().suffix("/s").colon(true);
    let back = o.to_attributes();
    assert_eq!(back.entries(), vec![("has_colon".to_string(), "true".to_string()), ("suffix".to_string(), "/s".to_string())]);
}

#[test]
fn error_messages() {
    assert_eq!(Error::MissingElement("a".to_string(), "b".to_string()).message(), "[a]: Unable to locate element with id b");
    assert_eq!(Error::ModuleRegistrationFailure("m".to_string(), "r".to_string()).message(), "Module m registration failure: r");
    assert_eq!(Error::MissingIconBox.message(), "Menu: icon-box element is missing");
    assert!(matches!(Error::from_message("x"), Error::String(s) if s == "x"));
}

#[test]
fn links() {
    let (l, _) = Link::new_for_callback("Go");
    assert_eq!(l.render(), "<a href=\"javascript:void(0)\">Go</a>");
    let (l, ops) = Link::new_with_url("Site", "http://x");
    assert_eq!(l.kind, Kind::External);
    assert_eq!(ops.len(), 3);
    assert_eq!(l.render(), "<a href=\"http://x\">Site</a>");
    assert_eq!(Link::default().text, "Click Me");
}

#[test]
fn declaration_checks() {
    let path = |s: &[&str]| ArgKind::Path(s.iter().map(|x| x.to_string()).collect());
    assert_eq!(check_count(1, 2, Some(3), "u"), Err("not enough arguments - usage: u".to_string()));
    assert_eq!(check_count(4, 2, Some(3), "u"), Err("too many arguments - usage: u".to_string()));
    assert_eq!(check_count(9, 2, None, "u"), Ok(()));
    assert_eq!(handler_path(&path(&["M", "f"])), Ok(("M".to_string(), "f".to_string())));
    assert!(handler_path(&path(&["f"])).unwrap_err().starts_with("module handler path"));
    let other = |t: &str| ArgKind::Other(t.to_string());
    assert!(handler_path(&other("x")).unwrap_err().starts_with("last argument"));
    let m = menu_args(vec![other("root"), other("title"), other("icon"), path(&["MyModule", "handler"])]).unwrap();
    assert_eq!((m.module_type.as_str(), m.handler.as_str()), ("MyModule", "handler"));
    assert_eq!((m.parent, m.title, m.icon), (other("root"), other("title"), other("icon")));
    assert_eq!(
        menu_args(vec![other("a")]).err(),
        Some("not enough arguments - usage: <parent>, <title>, <icon>, <ModuleType::handler_fn>".to_string())
    );
    let l = link_args(vec![other("label"), path(&["MyModule", "open"]), other("x"), other("y")]).unwrap();
    assert_eq!(l.text, other("label"));
    assert_eq!((l.module_type.as_str(), l.handler.as_str()), ("MyModule", "open"));
    assert_eq!(l.args, vec![other("x"), other("y")]);
    assert_eq!(
        link_args(vec![other("label")]).err(),
        Some("not enough arguments - usage: <text>, <ModuleType::handler_fn>, [args, ...]".to_string())
    );
    assert_eq!(check_module_decl(&vec![path(&["M"]), ArgKind::Array("[A]".to_string())]), Ok(()));
    assert!(check_module_decl(&vec![ArgKind::Array("[A]".to_string())]).is_err());
    assert!(check_module_decl(&vec![]).is_err());
    assert_eq!(check_view_decl(&vec![]), Ok(None));
    assert_eq!(check_view_decl(&vec![path(&["Eviction", "Allow"])]), Ok(Some(vec!["Eviction".to_string(), "Allow".to_string()])));
    assert!(check_view_decl(&vec![ArgKind::Other("x".to_string())]).is_err());
    let fields = vec![("html".to_string(), "T1".to_string())];
    assert!(check_html_field(&fields, &vec!["T0".to_string(), "T1".to_string()]));
    assert!(!check_html_field(&fields, &vec!["T0".to_string()]));
    assert_eq!(html_view_messages("V").1, "V evict");
}

#[test]
fn subscriptions() {
    let mut s = Subscriber::new();
    assert!(s.subscribe());
    assert!(!s.subscribe());
    s.finished();
    assert!(!s.is_active());
    assert!(!after_event(&Received::Digested(Ok(false))));
    assert!(after_event(&Received::Digested(Ok(true))));
    assert!(after_event(&Received::Digested(Err(Error::MissingIconBox))));
    assert!(after_event(&Received::RecvFailed));
}

#[test]
fn layout_and_drawer_lookup() {
    assert_eq!(AppLayout::load_js("/p").1, "app-layout.js");
    assert!(matches!(AppLayout::get("#l", Lookup::NotFound), Err(Error::String(m)) if m == "missing workspace AppLayout element"));
    assert!(matches!(AppLayout::get("#l", Lookup::OtherType("v".to_string())), Err(Error::String(m)) if m == "Unable to cast '#l' to AppLayout, JsValue:v"));
    assert_eq!(AppLayout::get("#l", Lookup::Found).unwrap().selector, "#l");
    assert!(matches!(AppDrawer::get("#d", Lookup::OtherType("e".to_string())), Err(Error::WebElement(e)) if e == "e"));
    assert!(AppDrawer::get("#d", Lookup::Found).is_ok());
}

#[test]
fn data_field_holds_its_value() {
    let mut f: DataField<u32> = DataField::new();
    assert_eq!(f.value().unwrap(), None);
    f.set_value(Some(7)).unwrap();
    assert_eq!(f.value().unwrap(), Some(7));
}

#[test]
fn categories() {
    let c = Category::new("Text".to_string(), "key".to_string());
    assert_eq!(c.text, "Text");
    assert_eq!(c.key, "key");
}
