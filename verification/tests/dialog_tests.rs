use workflow_ux::dialog::{Button, ButtonClass, DialogButtonData, DialogButtons, DialogState, OpenDialogs};

#[test]
fn button_names_and_classes() {
    assert_eq!(Button::TryIt.name_and_class(), ("Try It".to_string(), None));
    assert_eq!(Button::OK.to_string(), "Ok");
    let b = Button::Save.with_class(ButtonClass::Primary);
    assert_eq!(b.name_and_class(), ("Save".to_string(), Some("Primary".to_string())));
    assert_eq!(ButtonClass::Warning.to_string(), "Warning");
}

#[test]
fn buttons_from_names() {
    assert!(matches!(Button::from_str("Got It"), Some(Button::GotIt)));
    assert!(matches!(Button::from_str("Ok"), Some(Button::OK)));
    assert!(matches!(Button::from_str("Other"), Some(Button::Custom(s)) if s == "Other"));
}

#[test]
fn button_markup() {
    let (action, class, text) = Button::Custom("Say \"hi\"".to_string()).render_parts();
    assert_eq!(action, "Say hi");
    assert_eq!(class, "");
    assert_eq!(text, "Say \"hi\"");
    let (action, class, _) = Button::Save.with_class(ButtonClass::Success).render_parts();
    assert_eq!(action, "Save");
    assert_eq!(class, "success");
}

#[test]
fn dialog_button_groups() {
    let btns = DialogButtons::new(&[Button::Cancel], &[(Button::OK, "primary")], &[] as &[Button]);
    assert_eq!(btns.left.len(), 1);
    assert_eq!(btns.center[0].class, Some("primary".to_string()));
    assert!(btns.right.is_empty());
    let list = DialogButtonData::list_from(&[Button::Yes, Button::No]);
    assert_eq!(list.len(), 2);
    assert_eq!(list[1].class, None);
}

#[test]
fn dialogs_open_and_close() {
    let mut open = OpenDialogs::new();
    let mut d = DialogState::new("42");
    assert_eq!(d.id, "dialog_42");
    assert!(d.on_mask_click() == false);
    d.with_modal(false);
    assert!(d.on_mask_click());
    d.with_close_icon(true);
    assert!(d.close_icon);
    open.show(&mut d);
    assert!(d.open && open.contains("dialog_42"));
    assert!(matches!(d.on_btn_click("Delete"), Some(Button::Delete)));
    open.close(&mut d);
    assert!(!d.open && !open.contains("dialog_42"));
}
