use swaypplet::bar::tray::icon::{IconPixmap, IconSource, Status};
use swaypplet::bar::tray::service::{item, snapshot, TrayItem};
use swaypplet::bar::tray::{open_menu, press, tooltip, Click, ItemUi, Opening, Press, Tray};

fn tray_item(address: &str, id: &str) -> TrayItem {
    TrayItem {
        address: address.into(),
        id: id.into(),
        title: Some(format!("Title of {id}")),
        tooltip: None,
        icon: IconSource {
            status: Status::Active,
            icon_name: Some("mail".into()),
            attention_icon_name: None,
            icon_pixmap: None,
            attention_icon_pixmap: None,
            icon_theme_path: None,
        },
        item_is_menu: false,
        menu_path: None,
        menu: None,
    }
}

#[test]
fn the_order_of_items_does_not_depend_on_who_came_first() {
    let order = |list: Vec<TrayItem>| -> Vec<String> {
        snapshot(list).into_iter().map(|i| i.address).collect()
    };
    let a = || tray_item(":1.9", "app");
    let b = || tray_item(":1.2", "zoom");
    let c = || tray_item(":1.3", "app");
    assert_eq!(order(vec![a(), b(), c()]), [":1.3", ":1.9", ":1.2"]);
    assert_eq!(order(vec![b(), c(), a()]), [":1.3", ":1.9", ":1.2"]);
}

#[test]
fn an_item_is_found_by_its_address() {
    let list = vec![tray_item(":1.2", "a"), tray_item(":1.3", "b")];
    assert_eq!(item(&list, ":1.3").unwrap().id, "b");
    assert!(item(&list, ":1.4").is_none());
}

#[test]
fn buttons_are_kept_while_their_items_are_there() {
    let mut tray = Tray::new();
    let s = tray.sync_items(&vec![tray_item("a", "1"), tray_item("b", "2")]);
    assert!(s.visible);
    assert!(s.remove.is_empty());
    assert_eq!(s.order, [("a".into(), true), ("b".into(), true)]);
    let s = tray.sync_items(&vec![tray_item("b", "2"), tray_item("c", "3")]);
    assert_eq!(s.remove, ["a"]);
    assert_eq!(s.order, [("b".into(), false), ("c".into(), true)]);
    let s = tray.sync_items(&vec![]);
    assert_eq!(s.remove, ["b", "c"]);
    assert!(!s.visible);
}

#[test]
fn an_icon_is_drawn_anew_only_when_it_changed() {
    let mut ui = ItemUi::new();
    let mut i = tray_item("a", "1");
    assert!(ui.update(&i, false).icon);
    assert!(!ui.update(&i, false).icon);
    i.icon.icon_pixmap = Some(vec![IconPixmap {
        width: 1,
        height: 1,
        pixels: vec![1, 2, 3, 4],
    }]);
    assert!(ui.update(&i, false).icon);
    i.icon.status = Status::Passive;
    assert!(ui.update(&i, false).passive);
}

#[test]
fn updates_of_an_open_menu_are_batched() {
    let mut ui = ItemUi::new();
    let i = tray_item("a", "1");
    assert!(!ui.update(&i, false).push_layout);
    assert!(ui.update(&i, true).push_layout);
    assert!(!ui.update(&i, true).push_layout);
    assert!(ui.push_due(true, true));
    assert!(ui.update(&i, true).push_layout);
    assert!(!ui.push_due(true, false));
}

#[test]
fn clicks_do_what_the_item_can() {
    assert_eq!(press(Click::Primary, Some(false)), Press::Activate);
    assert_eq!(press(Click::Primary, Some(true)), Press::OpenMenu);
    assert_eq!(press(Click::Secondary, Some(false)), Press::OpenMenu);
    assert_eq!(press(Click::Middle, Some(false)), Press::ActivateSecondary);
    assert_eq!(press(Click::Primary, None), Press::Nothing);
    assert_eq!(press(Click::Other, Some(true)), Press::Nothing);
}

#[test]
fn a_menu_shows_the_layout_it_has() {
    let mut i = tray_item("a", "1");
    assert_eq!(open_menu(&i), Opening::Nothing);
    i.menu_path = Some("/menu".into());
    assert_eq!(open_menu(&i), Opening::Tell);
    i.menu = Some(vec![]);
    assert_eq!(open_menu(&i), Opening::TellAndShow);
}

#[test]
fn the_tooltip_is_the_item_s_own_or_its_title() {
    let mut i = tray_item("a", "1");
    assert_eq!(tooltip(&i), Some("Title of 1".into()));
    i.tooltip = Some(String::new());
    assert_eq!(tooltip(&i), Some("Title of 1".into()));
    i.tooltip = Some("3 unread".into());
    assert_eq!(tooltip(&i), Some("3 unread".into()));
}
