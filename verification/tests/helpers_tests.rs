use workflow_ux::attributes::StrMap;
use workflow_ux::avatar::{hash_field_attributes, provider_select_attributes, radio_name, text_field_attributes};
use workflow_ux::badge::Options;
use workflow_ux::builder::BuilderUi;
use workflow_ux::controls::{apply_rules, AttrRule, ElementOp};
use workflow_ux::declare::html_field_error;
use workflow_ux::form::FormData;
use workflow_ux::icon::icon_src_rewritable;
use workflow_ux::menu::MenuCaption;
use workflow_ux::mnemonic::{is_white_char, spaced_str};
use workflow_ux::stages::Stages;

fn attrs(pairs: &[(&str, &str)]) -> StrMap<String> {
    let mut m = StrMap::new();
    for (k, v) in pairs {
        m.insert(k.to_string(), v.to_string());
    }
    m
}

#[test]
fn maps_read_by_position_and_copy() {
    let m = attrs(&[("b", "2"), ("a", "1")]);
    assert!(m.contains_key("a"));
    assert!(!m.contains_key("c"));
    assert_eq!(m.key_at(0), "a");
    assert_eq!(m.value_at(0), "1");
    assert_eq!(m.value_at(1), "2");
    let c = m.copy();
    assert_eq!(c.entries(), m.entries());
}

#[test]
fn avatar_field_attributes() {
    let base = attrs(&[("name", "pic"), ("label", "Avatar")]);
    let p = provider_select_attributes(&base, "Provider".to_string());
    assert_eq!(p.get("value"), Some(&"Gravatar".to_string()));
    assert_eq!(p.get("label"), Some(&"Provider".to_string()));
    assert_eq!(p.get("name"), Some(&"pic".to_string()));
    let t = text_field_attributes(&base, "Email".to_string());
    assert_eq!(t.get("placeholder"), Some(&"Email".to_string()));
    assert_eq!(t.get("data-for"), Some(&"hash".to_string()));
    let h = hash_field_attributes(&base, "sha256");
    assert_eq!(h.get("readonly"), Some(&"true".to_string()));
    assert_eq!(h.get("label"), Some(&"SHA256".to_string()));
    assert_eq!(radio_name("x1"), "avatar-x1");
}

#[test]
fn badge_alignment() {
    let o = Options::default().align("right");
    assert_eq!(o.align, Some("right".to_string()));
    assert!(o.colon);
    assert_eq!(o.style, None);
}

#[test]
fn builder_form_and_list() {
    let mut ui = BuilderUi::new(false);
    ui.set_form();
    assert!(ui.form_open && !ui.add_visible && ui.save_visible);
    ui.on_list_updated(true);
    assert!(ui.add_visible && ui.form_open);
    ui.on_list_updated(false);
    assert!(!ui.add_visible);
}

#[test]
fn rules_turn_attributes_into_operations() {
    let a = attrs(&[("title", "Hi"), ("label", "L"), ("secret", "s"), ("type", "x"), ("id", "7")]);
    let rules = vec![
        ("title", AttrRule::Html),
        ("label", AttrRule::Text),
        ("secret", AttrRule::Drop),
        ("type", AttrRule::SetTo("kind", "fixed")),
        ("id", AttrRule::Rename("data-id")),
    ];
    assert_eq!(
        apply_rules(&a, &rules),
        vec![
            ElementOp::Attr("data-id".to_string(), "7".to_string()),
            ElementOp::Text("L".to_string()),
            ElementOp::Html("Hi".to_string()),
            ElementOp::Attr("kind".to_string(), "fixed".to_string()),
        ]
    );
    let plain = attrs(&[("x", "1")]);
    assert_eq!(apply_rules(&plain, &Vec::new()), vec![ElementOp::Attr("x".to_string(), "1".to_string())]);
}

#[test]
fn html_view_field_message() {
    assert!(html_field_error().starts_with("#[HtmlView] struct require 'html' member/property."));
}

#[test]
fn icon_sources_under_the_root() {
    assert!(icon_src_rewritable("/resources/icons/light/a.svg", "/resources/icons"));
    assert!(!icon_src_rewritable("/other/a.svg", "/resources/icons"));
    assert!(!icon_src_rewritable("/resources/icons", "/resources/icons"));
}

#[test]
fn form_numbers_by_kind() {
    let mut d = FormData::new(None);
    d.add_u8("a", 1);
    d.add_u16("b", 2);
    d.add_u32("c", 3);
    d.add_u128("d", 4);
    d.add_f32("e", 1.5f32.to_bits());
    assert_eq!(d.get_u8("a"), Some(1));
    assert_eq!(d.get_u16("b"), Some(2));
    assert_eq!(d.get_u32("c"), Some(3));
    assert_eq!(d.get_u128("d"), Some(4));
    assert_eq!(d.get_f32("e").map(f32::from_bits), Some(1.5));
    assert_eq!(d.get_u16("a"), None);
    assert_eq!(d.get_u32("zz"), None);
    d.add_object("o", vec![1, 2, 3]);
    assert_eq!(d.get_object("o"), Some(vec![1, 2, 3]));
    assert_eq!(d.get_object("a"), None);
}

#[test]
fn menu_captions_from_parts() {
    let c = MenuCaption::from_title_short_subtitle("Title", "T", "Sub");
    assert_eq!((c.title.as_str(), c.short.as_str(), c.subtitle.as_str()), ("Title", "T", "Sub"));
    let c = MenuCaption::from_title_short("Title", "T");
    assert_eq!((c.title.as_str(), c.short.as_str(), c.subtitle.as_str()), ("Title", "T", ""));
}

#[test]
fn white_space_and_spacing() {
    assert!(is_white_char(' '));
    assert!(is_white_char('\t'));
    assert!(is_white_char('\u{3000}'));
    assert!(!is_white_char('a'));
    assert_eq!(spaced_str("a\tb\nc\rd"), "a b c d");
}

#[test]
fn stage_index_is_set() {
    let mut s = Stages::new(vec!["a".to_string(), "b".to_string(), "c".to_string()]);
    assert!(s.set_stage_index(2));
    assert_eq!(s.index(), 2);
    assert_eq!(s.stage_name(), "c");
    assert!(s.is_hidden(0));
    assert_eq!(s.footer_button("submit").visible, Some(true));
    assert!(s.set_stage_index(0));
    assert_eq!(s.footer_button("previous").enabled, Some(false));
}
