use workflow_ux::d3_menu::{create_circle_path, geometry, next_proxy_cx, signed_decimal_string, view_box, D3Menu};
use workflow_ux::menu::{badge_text, bottom_menu_slots, bottom_menu_sources, Menu, MenuCaption, MenuSource};

#[test]
fn captions_from_parts() {
    let c = MenuCaption::from_parts(&vec!["Title", "T"]);
    assert_eq!(c.title, "Title");
    assert_eq!(c.short, "T");
    assert_eq!(c.subtitle, "");
    let c = MenuCaption::from_title("Home");
    assert_eq!(c.short, "Home");
    assert_eq!(c.item_subtitle(), "Default Subtitle");
    let c = MenuCaption::from_title_subtitle("A".to_string(), "B".to_string());
    assert_eq!(c.group_short_title(), "A");
    assert_eq!(c.item_subtitle(), "B");
    let c = MenuCaption::from_title_subtitle_short("A".to_string(), "B".to_string(), "C".to_string());
    assert_eq!(c.group_short_title(), "C");
}

#[test]
fn menu_ids_and_badges() {
    assert_eq!(Menu::WithId("m1".to_string()).to_string(), "m1");
    assert_eq!(badge_text(0), "0");
    assert_eq!(badge_text(1234), "1234");
}

#[test]
fn bottom_menu_takes_view_entries_first() {
    let c = MenuSource::Custom;
    let d = MenuSource::Default;
    assert_eq!(bottom_menu_sources(Some(2), 4), vec![c(0), c(1), d(2), d(3)]);
    assert_eq!(bottom_menu_sources(Some(6), 4), vec![c(0), c(1), c(2), c(3)]);
    assert_eq!(bottom_menu_sources(None, 3), vec![d(0), d(1), d(2)]);
    assert_eq!(bottom_menu_sources(Some(2), 0), vec![]);
}

#[test]
fn home_entry_sits_in_the_middle() {
    assert_eq!(bottom_menu_slots(4), (vec![0, 1, 3, 4], Some(2)));
    assert_eq!(bottom_menu_slots(5), (vec![0, 1, 2, 4, 5], Some(3)));
    assert_eq!(bottom_menu_slots(1), (vec![0], Some(1)));
    assert_eq!(bottom_menu_slots(0), (vec![], None));
}

#[test]
fn circular_menu_geometry() {
    assert_eq!(geometry(Some((800, 600))), (600, 600, 1100));
    assert_eq!(geometry(Some((400, 900))), (400, 400, 1200));
    assert_eq!(geometry(None), (500, 500, 1000));
    assert_eq!(view_box(600, 600), "0,0,600,600");
}

#[test]
fn circle_paths() {
    assert_eq!(create_circle_path(600, 100), "M 250, 300 a 50,50 0 1,0 100,0 a 50,50 0 1,0 -100,0");
    assert_eq!(create_circle_path(600, -1), "M 300, 300 a 0,0 0 1,0 -1,0 a 0,0 0 1,0 1,0");
    assert_eq!(create_circle_path(600, -7), "M 303, 300 a -3,-3 0 1,0 -7,0 a -3,-3 0 1,0 7,0");
    assert_eq!(signed_decimal_string(i64::MIN), i64::MIN.to_string());
    assert_eq!(signed_decimal_string(-42), "-42");
}

#[test]
fn proxy_circle_alternates() {
    assert_eq!(next_proxy_cx(Some("400")), "100");
    assert_eq!(next_proxy_cx(Some("100")), "400");
    assert_eq!(next_proxy_cx(None), "400");
}

#[test]
fn menu_opens_and_closes() {
    let mut m = D3Menu::new(600, 1100);
    assert!(m.hidden);
    m.open(312);
    assert_eq!(m.size, 312);
    assert!(m.opening && !m.hidden && !m.closed);
    m.on_transition_end();
    assert!(!m.hidden && !m.opening);
    m.close();
    assert_eq!(m.size, 1100);
    assert!(m.closing);
    m.on_transition_end();
    assert!(m.hidden && !m.closing);
}
