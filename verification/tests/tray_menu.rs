use swaypplet::bar::tray::menu::{
    build_model, radio_state, signature, update_states, ActionState, Layout, MenuItem, MenuType, MenuUi, Target,
    ToggleState, ToggleType, Update,
};

fn blank(id: i32) -> MenuItem {
    MenuItem {
        id,
        menu_type: MenuType::Standard,
        label: None,
        enabled: false,
        visible: false,
        icon_name: None,
        icon_data: None,
        toggle_type: ToggleType::CannotBeToggled,
        toggle_state: ToggleState::On,
        children_display: None,
        submenu: vec![],
    }
}

fn item(id: i32) -> MenuItem {
    MenuItem {
        label: Some(format!("Item {id}")),
        enabled: true,
        visible: true,
        ..blank(id)
    }
}

fn copy(m: &MenuItem) -> MenuItem {
    MenuItem {
        id: m.id,
        menu_type: m.menu_type,
        label: m.label.clone(),
        enabled: m.enabled,
        visible: m.visible,
        icon_name: m.icon_name.clone(),
        icon_data: m.icon_data.clone(),
        toggle_type: m.toggle_type,
        toggle_state: m.toggle_state,
        children_display: m.children_display.clone(),
        submenu: copies(&m.submenu),
    }
}

fn copies(list: &[MenuItem]) -> Vec<MenuItem> {
    list.iter().map(copy).collect()
}

#[test]
fn toggle_state_and_enabled_do_not_change_the_signature() {
    let a = vec![item(1), item(2)];
    let mut b = copies(&a);
    b[0].toggle_state = ToggleState::Off;
    b[1].enabled = false;
    assert_eq!(signature(&a), signature(&b));
}

#[test]
fn label_change_forces_a_rebuild() {
    let a = vec![item(1)];
    let mut b = copies(&a);
    b[0].label = Some("Copy 3 items".into());
    assert_ne!(signature(&a), signature(&b));
}

#[test]
fn visibility_and_separators_shape_the_signature() {
    let a = vec![item(1), item(2)];
    let mut hidden = copies(&a);
    hidden[1].visible = false;
    assert_ne!(signature(&a), signature(&hidden));

    let mut with_sep = copies(&a);
    with_sep.insert(
        1,
        MenuItem {
            menu_type: MenuType::Separator,
            visible: true,
            ..blank(9)
        },
    );
    assert_ne!(signature(&a), signature(&with_sep));
}

#[test]
fn submenu_structure_is_part_of_the_signature() {
    let mut parent = item(1);
    parent.children_display = Some("submenu".into());
    parent.submenu = vec![item(10)];
    let a = vec![copy(&parent)];
    parent.submenu.push(item(11));
    let b = vec![parent];
    assert_ne!(signature(&a), signature(&b));
}

#[test]
fn a_layout_of_the_same_shape_is_refreshed_in_place() {
    let mut ui = MenuUi::new();
    let mut first = vec![item(1), item(2)];
    first[1].toggle_type = ToggleType::Checkmark;
    assert!(matches!(ui.set_layout(&first), Layout::Rebuild(_)));
    let mut then = copies(&first);
    then[0].enabled = false;
    then[1].toggle_state = ToggleState::Off;
    assert_eq!(
        ui.set_layout(&then),
        Layout::Refresh(vec![
            Update {
                id: 1,
                enabled: false,
                state: ActionState::Plain
            },
            Update {
                id: 2,
                enabled: true,
                state: ActionState::Check(false)
            },
        ])
    );
    then[0].label = Some("Other".into());
    assert!(matches!(ui.set_layout(&then), Layout::Rebuild(_)));
}

#[test]
fn separators_part_a_menu_into_sections() {
    let sep = MenuItem {
        menu_type: MenuType::Separator,
        visible: true,
        ..blank(9)
    };
    let mut hidden = item(3);
    hidden.visible = false;
    let mut parent = item(4);
    parent.children_display = Some("submenu".into());
    parent.submenu = vec![item(10)];
    let rows = build_model(&vec![item(1), sep, item(2), hidden, parent]);
    assert_eq!(rows.len(), 2);
    assert_eq!(rows[0].len(), 1);
    assert_eq!(rows[1].len(), 2);
    assert_eq!(rows[0][0].label, Some("Item 1".into()));
    assert!(matches!(&rows[0][0].target, Target::Action { id: 1, name, enabled: true, .. } if name == "i1"));
    assert!(matches!(&rows[1][1].target, Target::Submenu(sub) if sub[0][0].label == Some("Item 10".into())));
}

#[test]
fn only_items_with_an_action_are_refreshed() {
    let mut parent = item(1);
    parent.submenu = vec![item(10)];
    let list = update_states(&vec![parent, item(2)], &vec![10]);
    assert_eq!(
        list,
        [Update {
            id: 10,
            enabled: true,
            state: ActionState::Plain
        }]
    );
}

#[test]
fn a_radio_item_is_on_or_off() {
    let mut r = item(1);
    assert_eq!(radio_state(&r), "on");
    r.toggle_state = ToggleState::Indeterminate;
    assert_eq!(radio_state(&r), "off");
}

#[test]
fn a_picture_of_the_same_size_still_rebuilds() {
    let with = |data: Vec<u8>| {
        vec![MenuItem {
            icon_data: Some(data),
            ..item(1)
        }]
    };
    assert_eq!(signature(&with(vec![1, 2, 200])), signature(&with(vec![1, 2, 200])));
    assert_ne!(signature(&with(vec![1, 2, 200])), signature(&with(vec![1, 3, 200])));
    let mut ui = MenuUi::new();
    assert!(matches!(ui.set_layout(&with(vec![1, 2])), Layout::Rebuild(_)));
    assert!(matches!(ui.set_layout(&with(vec![1, 2])), Layout::Refresh(_)));
    assert!(matches!(ui.set_layout(&with(vec![2, 1])), Layout::Rebuild(_)));
}

#[test]
fn texts_do_not_run_into_each_other_in_a_signature() {
    let with = |label: &str, icon: &str| {
        vec![MenuItem {
            label: Some(label.into()),
            icon_name: Some(icon.into()),
            ..item(1)
        }]
    };
    assert_ne!(signature(&with("a", "b:c")), signature(&with("a:b", "c")));
    assert_ne!(signature(&with("a", "1:b")), signature(&with("a1", ":b")));
}
