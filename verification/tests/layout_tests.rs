use workflow_ux::attributes::{Attributes, StrMap};
use workflow_ux::layout::{field_args, section_info, section_plan, section_shows_docs, ElementLayoutStyle, FieldAttr, Layout};

fn attrs(pairs: &[(&str, &str)]) -> Attributes {
    let mut a = StrMap::new();
    for (k, v) in pairs {
        a.insert(k.to_string(), v.to_string());
    }
    a
}

fn pairs(a: &Attributes) -> Vec<(String, String)> {
    a.entries()
}

#[test]
fn layout_styles() {
    assert_eq!(ElementLayoutStyle::Section.get_type(), "section");
    assert_eq!(ElementLayoutStyle::Html.to_string(), "ElementLayoutStyle::html");
    assert_eq!(ElementLayoutStyle::Form.container_class(), "form-container");
    assert_eq!(Layout::Stage.style(), ElementLayoutStyle::Stage);
}

#[test]
fn control_args_by_type_then_field() {
    let list = vec![
        FieldAttr { name: "field".to_string(), args: attrs(&[("a", "1")]) },
        FieldAttr { name: "input".to_string(), args: attrs(&[("b", "2")]) },
        FieldAttr { name: "input".to_string(), args: attrs(&[("b", "3"), ("c", "4")]) },
        FieldAttr { name: "pane".to_string(), args: attrs(&[("p", "1")]) },
    ];
    let (ctl, container) = field_args("Input", &list);
    assert_eq!(pairs(&ctl), vec![("b".to_string(), "3".to_string()), ("c".to_string(), "4".to_string())]);
    assert_eq!(pairs(&container), vec![("p".to_string(), "1".to_string())]);
    let (ctl, _) = field_args("Select", &list);
    assert_eq!(pairs(&ctl), vec![("a".to_string(), "1".to_string())]);
    let (ctl, container) = field_args("Select", &vec![]);
    assert!(ctl.is_empty() && container.is_empty());
}

#[test]
fn section_wraps_controls() {
    let plan = section_plan(&attrs(&[("title", "T"), ("no_info", "true"), ("md_doc", "false"), ("x", "y")]));
    assert_eq!(plan.title, Some("T".to_string()));
    assert!(!plan.parse_doc);
    assert_eq!(
        plan.attributes,
        vec![
            ("md_doc".to_string(), "false".to_string()),
            ("no-info".to_string(), "true".to_string()),
            ("x".to_string(), "y".to_string())
        ]
    );
    assert!(section_plan(&attrs(&[])).parse_doc);
    assert!(section_shows_docs(None));
    assert!(!section_shows_docs(Some("consume")));
    assert_eq!(section_info(&vec!["a".to_string(), "b".to_string()]), "a\nb");
}
