use workflow_ux::attributes::{Attributes, StrMap};
use workflow_ux::controls::{
    action_setup, badge_setup, checkbox_setup, first_choice_of, input_setup, mnemonic_heading,
    multiselect_setup, radio_btns_setup, radios_setup, select_setup, selector_setup,
    token_select_setup, ElementOp, FieldHelper, FlowMenuBase,
};

fn attrs(pairs: &[(&str, &str)]) -> Attributes {
    let mut a = StrMap::new();
    for (k, v) in pairs {
        a.insert(k.to_string(), v.to_string());
    }
    a
}

fn attr(k: &str, v: &str) -> ElementOp {
    ElementOp::Attr(k.to_string(), v.to_string())
}

fn choices() -> Vec<(String, String)> {
    vec![
        ("".to_string(), "None".to_string()),
        ("one".to_string(), "One".to_string()),
        ("two".to_string(), "Two".to_string()),
    ]
}

#[test]
fn checkbox_moves_text_attributes_inside() {
    let ops = checkbox_setup(&attrs(&[("label", "Agree"), ("name", "x")]));
    assert_eq!(ops, vec![ElementOp::Html("Agree".to_string()), attr("name", "x")]);
}

#[test]
fn action_button_text() {
    let ops = action_setup(&attrs(&[("text", "Go"), ("class", "primary")]));
    assert_eq!(
        ops,
        vec![ElementOp::Text("ACTION BUTTON".to_string()), attr("class", "primary"), ElementOp::Text("Go".to_string())]
    );
}

#[test]
fn token_select_renames() {
    let ops = token_select_setup(&attrs(&[("hide_name", "true"), ("multiple", "true"), ("small_badge", "1")]));
    assert_eq!(ops, vec![attr("hide-name", "true"), attr("small-badge", "1")]);
}

#[test]
fn badge_colon_and_title() {
    let ops = badge_setup(&attrs(&[("has_colon", "false"), ("text", "5")]), "Rate");
    assert_eq!(ops, vec![attr("has-colon", "true"), ElementOp::Html("5".to_string()), attr("title", "Rate")]);
}

#[test]
fn select_takes_its_value() {
    let s = select_setup(&attrs(&[("value", "two"), ("multiple", "true"), ("label", "L")]));
    assert_eq!(s.value, "two");
    assert_eq!(s.ops, vec![attr("label", "L"), attr("selected", "two")]);
    assert_eq!(select_setup(&attrs(&[])).value, "");
}

#[test]
fn radios_start_with_first_choice() {
    assert_eq!(first_choice_of(&choices()), "one");
    let s = radios_setup(&attrs(&[("name", "r")]), &choices());
    assert_eq!(s.value, "one");
    assert_eq!(s.ops, vec![attr("name", "r"), attr("selected", "one")]);
    let s = radios_setup(&attrs(&[("value", "two")]), &choices());
    assert_eq!(s.ops, vec![attr("selected", "two")]);
    let s = radio_btns_setup(&attrs(&[("name", "r")]), &choices());
    assert_eq!(s.ops, vec![attr("selected", "one"), attr("name", "r")]);
}

#[test]
fn multiselect_and_input() {
    assert_eq!(multiselect_setup(&attrs(&[("a", "b")])), vec![attr("multiple", "true"), attr("a", "b")]);
    let s = input_setup(&attrs(&[("value", "v0")]));
    assert_eq!(s.value, "v0");
    assert_eq!(s.ops, vec![attr("value", ""), attr("tab-index", "0"), attr("value", "v0")]);
}

#[test]
fn selector_item_type_and_value_prop() {
    let (s, item_type, value_prop) = selector_setup(&attrs(&[("item_type", "li"), ("x", "y")]), &choices());
    assert_eq!(item_type, "li");
    assert_eq!(value_prop, "value");
    assert_eq!(s.value, "one");
    assert_eq!(s.ops, vec![attr("selected", "one"), attr("label", "Menu"), attr("valueattr", "value"), attr("x", "y")]);
}

#[test]
fn mnemonic_heading_default() {
    assert_eq!(mnemonic_heading(&attrs(&[])), "Enter 24-word seed phrase");
    assert_eq!(mnemonic_heading(&attrs(&[("heading", "H")])), "H");
}

#[test]
fn field_helper() {
    assert_eq!(FieldHelper::get_categories().len(), 3);
    assert_eq!(
        FieldHelper::get_subcategories("cat-2"),
        vec![
            ("Category 2 - A".to_string(), "cat-2-a".to_string()),
            ("Category 2 - B".to_string(), "cat-2-b".to_string())
        ]
    );
    assert!(FieldHelper::get_subcategories("cat-3").is_empty());
    assert_eq!(FieldHelper::attr_value("a\"b'c"), "a&quot;b'c");
    assert_eq!(FieldHelper::clean_value_for_attr("a\"b'c"), "a&quot;b&quot;c");
}

#[test]
fn flow_menu_selection() {
    let mut m = FlowMenuBase::new();
    assert_eq!(m.selected, None);
    m.select("x");
    assert_eq!(m.selected, Some("x".to_string()));
}
