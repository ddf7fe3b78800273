use workflow_ux::builder::{BuilderUi, ListBuilderItem, ListItems, ListRow, RowAction, RowPart};

#[derive(Debug, Clone, PartialEq)]
struct Item {
    id: String,
    n: u32,
}

impl ListBuilderItem for Item {
    fn spec_id(&self) -> vstd::seq::Seq<char> {
        panic!("the id's model is for proofs only")
    }

    fn id(&self) -> String {
        self.id.clone()
    }
}

fn item(id: &str, n: u32) -> Item {
    Item { id: id.to_string(), n }
}

fn ids(l: &ListItems<Item>) -> Vec<String> {
    l.value().iter().map(|i| i.id.clone()).collect()
}

#[test]
fn items_are_found_and_updated_by_id() {
    let mut l = ListItems::new();
    l.push_item(item("a", 1));
    l.push_item(item("b", 2));
    assert_eq!(l.find_index("b"), Some(1));
    assert_eq!(l.find_index("z"), None);
    assert_eq!(l.get_item("a"), Some(&item("a", 1)));
    l.update_item(item("b", 20));
    assert_eq!(l.get_item("b").unwrap().n, 20);
    l.update_item(item("z", 5));
    assert_eq!(l.items_len(), 2);
}

#[test]
fn deleting_takes_out_every_item_with_the_id() {
    let mut l = ListItems::new();
    l.set_value(vec![item("a", 1), item("b", 2), item("a", 3)]);
    assert!(l.delete("a"));
    assert_eq!(ids(&l), vec!["b"]);
    assert!(l.delete("zz"));
    assert_eq!(ids(&l), vec!["b"]);
}

#[test]
fn reordering_swaps_neighbours() {
    let mut l = ListItems::new();
    l.set_value(vec![item("a", 1), item("b", 2), item("c", 3)]);
    assert!(!l.order("a", true));
    assert!(!l.order("c", false));
    assert!(!l.order("zz", true));
    assert!(l.order("b", true));
    assert_eq!(ids(&l), vec!["b", "a", "c"]);
    assert!(l.order("b", false));
    assert_eq!(ids(&l), vec!["a", "b", "c"]);
}

#[test]
fn row_actions_follow_flags() {
    let row = ListRow::default();
    assert_eq!(row.actions(), vec![RowAction::OrderUp, RowAction::OrderDown, RowAction::Edit, RowAction::Delete]);
    let row = ListRow { orderable: false, editable: false, ..ListRow::default() };
    assert_eq!(row.actions(), vec![RowAction::Delete]);
    assert_eq!(RowAction::OrderUp.icon(), "info-row-order-up");
    assert_eq!(RowAction::from_str("edit"), Some(RowAction::Edit));
    assert_eq!(RowAction::from_str(RowAction::OrderDown.as_str()), Some(RowAction::OrderDown));
    assert_eq!(RowAction::from_str("nope"), None);
}

#[test]
fn builder_buttons() {
    let mut ui = BuilderUi::new(true);
    assert!(ui.add_visible && !ui.save_visible);
    ui.on_add_click(true);
    assert_eq!(ui.save_label, "Add");
    assert!(ui.form_open && !ui.add_visible && ui.save_visible);
    ui.on_save_click(false, true);
    assert!(ui.form_open);
    ui.on_save_click(true, false);
    assert!(!ui.form_open && !ui.save_visible && !ui.add_visible);
    ui.on_edit_click("b".to_string(), false);
    assert_eq!(ui.save_label, "Update");
    assert_eq!(ui.editing, Some("b".to_string()));
    ui.on_cancel_click(true);
    assert!(ui.add_visible);
}

#[test]
fn row_plan_lists_parts_in_order() {
    let row = ListRow {
        title: "T".to_string(),
        sub: Some("S".to_string()),
        value: Some("V".to_string()),
        left_icon: Some("l.png".to_string()),
        cls: Some("big".to_string()),
        editable: false,
        deletable: false,
        ..ListRow::default()
    };
    let plan = row.row_plan();
    assert_eq!(plan.classes, vec!["info-row".to_string(), "big".to_string()]);
    assert_eq!(
        plan.title_box,
        vec![RowPart::Text("title".to_string(), "T".to_string()), RowPart::Text("sub-title".to_string(), "S".to_string())]
    );
    assert_eq!(
        plan.parts,
        vec![
            RowPart::Image("icon left".to_string(), "l.png".to_string()),
            RowPart::TitleBox,
            RowPart::Text("value".to_string(), "V".to_string()),
            RowPart::Action(RowAction::OrderUp),
            RowPart::Action(RowAction::OrderDown),
        ]
    );
}

#[test]
fn updating_replaces_the_first_item_with_the_same_id() {
    let mut l = ListItems::new();
    l.push_item(item("a", 1));
    l.push_item(item("b", 2));
    l.push_item(item("a", 3));
    l.update_item(item("a", 9));
    assert_eq!(l.value(), &vec![item("a", 9), item("b", 2), item("a", 3)]);
    l.update_item(item("z", 5));
    assert_eq!(l.items_len(), 3);
}
