use workflow_ux::icon::{custom, icon_folder, init_icon_root, rewrite_icon_src, svg, track_icon, update_theme, Icon, IconInfo, IconRegistry};

#[test]
fn icon_paths() {
    assert_eq!(custom("/res/icons/dark", "Logo.PNG"), "/res/icons/dark/logo.png");
    assert_eq!(svg("/res/icons/dark", "Close"), "/res/icons/dark/close.svg#icon");
    assert_eq!(icon_folder("/res/icons", "light"), "/res/icons/light");
    assert_eq!(init_icon_root("/res/icons/"), "/res/icons");
    assert_eq!(init_icon_root("/res/icons"), "/res/icons");
}

#[test]
fn icon_file_names_and_ids() {
    assert_eq!(
        Icon::url("http://X.com/A.png").get_file_name_and_id(),
        ("http://X.com/A.png".to_string(), "http-x-com-a-png".to_string())
    );
    assert_eq!(
        Icon::custom("My Icon.png").get_file_name_and_id(),
        ("my icon.png".to_string(), "my-icon-png".to_string())
    );
    assert_eq!(
        Icon::svg("Close").get_file_name_and_id(),
        ("close.svg#icon".to_string(), "close".to_string())
    );
}

#[test]
fn icons_written_out() {
    assert_eq!(Icon::svg("Close").to_string("/f"), "/f/close.svg#icon");
    assert_eq!(Icon::url("u").to_string("/f"), "u");
}

#[test]
fn first_registration_stands() {
    let mut reg = IconRegistry::new();
    track_icon(&mut reg, "a".to_string(), IconInfo::new("a.png".to_string()));
    track_icon(&mut reg, "a".to_string(), IconInfo::new_svg("b.svg".to_string()));
    let info = reg.icons.get("a").unwrap();
    assert_eq!(info.file_name, "a.png");
    assert!(!info.is_svg);
    let icon = Icon::css("Close", &mut reg);
    assert!(matches!(icon, Icon::Css(ref n) if n == "close"));
    assert_eq!(Icon::svg("Gear").svg_href(&mut reg), "#svg-icon-gear");
    assert!(reg.icons.get("gear").unwrap().is_svg);
}

#[test]
fn theme_change_moves_icon_sources() {
    assert_eq!(
        rewrite_icon_src("/res/icons/dark/close.svg", "/res/icons", "/res/icons/light"),
        Some("/res/icons/light/close.svg".to_string())
    );
    assert_eq!(rewrite_icon_src("/other/x.svg", "/res/icons", "/res/icons/light"), None);
    let out = update_theme(
        &vec![Some("/res/icons/dark/a/b.svg".to_string()), None, Some("http://x/y".to_string())],
        "/res/icons",
        "/res/icons/light",
    );
    assert_eq!(out, vec![Some("/res/icons/light/a/b.svg".to_string()), None, None]);
}
