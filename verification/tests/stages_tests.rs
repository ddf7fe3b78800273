use workflow_ux::form::{FormData, FormDataValue, FormStages};
use workflow_ux::stages::{ButtonState, StageFooter, Stages};

#[test]
fn footer_buttons_remember_what_they_were_told() {
    let mut f = StageFooter::new();
    assert_eq!(f.button("next"), ButtonState { enabled: None, visible: None });
    f.disable_btn("next");
    f.hide_btn("next");
    assert_eq!(f.button("next"), ButtonState { enabled: Some(false), visible: Some(false) });
    f.enable_btn("next");
    f.show_btn("next");
    assert_eq!(f.button("next"), ButtonState { enabled: Some(true), visible: Some(true) });
}

#[test]
fn stages_move_forward_and_back() {
    let mut s = Stages::new(vec!["a".to_string(), "b".to_string(), "c".to_string()]);
    assert_eq!(s.index(), 0);
    assert_eq!(s.footer_button("previous").enabled, Some(false));
    assert_eq!(s.footer_button("submit").visible, Some(false));
    assert_eq!(s.footer_button("next").visible, Some(true));
    assert!(!s.show_prev_stage());
    assert!(!s.show_next_stage(false));
    assert!(s.show_next_stage(true));
    assert_eq!(s.index(), 1);
    assert_eq!(s.stage_name(), "b");
    assert!(s.is_hidden(0));
    assert!(!s.is_hidden(1));
    assert_eq!(s.footer_button("previous").enabled, Some(true));
    assert!(s.show_next_stage(true));
    assert_eq!(s.footer_button("submit").visible, Some(true));
    assert!(!s.show_next_stage(true));
    assert!(s.show_prev_stage());
    assert_eq!(s.index(), 1);
}

#[test]
fn step_titles_are_filled_in() {
    let mut f = FormStages::new(None);
    f.add_stage();
    f.add_stage();
    f.add_stage();
    assert_eq!(f.render_title(&f.title()), "Step 1/3");
    assert_eq!(f.render_title("[STEPS]-[INDEX]-[INDEX]"), "3-1-1");
}

#[test]
fn staged_form_moves_to_the_last_step() {
    let mut f = FormStages::new(Some("T".to_string()));
    f.add_stage();
    f.add_stage();
    f.add_stage();
    assert!(f.is_first());
    assert_eq!(f.next(true), (true, Some("Next")));
    assert_eq!(f.index(), 1);
    assert_eq!(f.next(true), (true, Some("Submit")));
    assert!(f.is_last());
    assert!(f.is_finished());
    assert_eq!(f.next(true), (false, None));
    assert_eq!(f.set_index(10, true), Some("Submit"));
    assert_eq!(f.index(), 2);
    assert_eq!(f.set_index(7, false), None);
    assert_eq!(f.index(), 7);
}

#[test]
fn stage_data_is_kept_by_name() {
    let mut f = FormStages::new(None);
    assert_eq!(FormStages::stage_data_name(2), "stage_2");
    f.set_stage_data(2, vec![1, 2, 3]);
    assert_eq!(f.data.get_object("stage_2"), Some(vec![1, 2, 3]));
}

#[test]
fn form_data_reads_what_was_added() {
    let mut d = FormData::new(Some("id1".to_string()));
    assert_eq!(d.id(), Some("id1".to_string()));
    d.add_string("name", "Ann".to_string());
    d.add_u64("age", 42);
    d.add_f64("ratio", 1.5f64.to_bits());
    d.add_list("tags", vec!["x".to_string()]);
    assert_eq!(d.get_string("name"), Some("Ann".to_string()));
    assert_eq!(d.get_u64("age"), Some(42));
    assert_eq!(d.get_u8("age"), None);
    assert_eq!(d.get_f64("ratio").map(f64::from_bits), Some(1.5));
    assert_eq!(d.get_string("missing"), None);
    d.add_bool("name", true);
    assert_eq!(d.get_string("name"), None);
    assert_eq!(d.get_bool("name"), Some(true));
    assert!(matches!(d.get("tags"), Some(FormDataValue::List(l)) if l == &vec!["x".to_string()]));
    d.with_id(None);
    assert_eq!(d.id(), None);
}

#[test]
fn next_with_no_steps_is_finished() {
    let mut f = FormStages::new(None);
    assert_eq!(f.next(true), (false, None));
    assert_eq!(f.next(false), (false, None));
    assert_eq!(f.index(), 0);
}
