use swaypplet::bar::tray::icon::{
    named_icon, pick_pixmap, premultiply, resolve, theme_path, Icon, IconPixmap, IconSource, Named, Status,
};

fn pixmap(size: i32) -> IconPixmap {
    IconPixmap {
        width: size,
        height: size,
        pixels: vec![0; (size * size * 4) as usize],
    }
}

#[test]
fn premultiply_scales_color_channels_by_alpha() {
    // Opaque white, half-transparent white, fully transparent white.
    let out = premultiply(vec![
        255, 255, 255, 255, //
        128, 255, 255, 255, //
        0, 255, 255, 255,
    ]);
    assert_eq!(out[0..4], [255, 255, 255, 255]);
    assert_eq!(out[4..8], [128, 128, 128, 128]);
    assert_eq!(out[8..12], [0, 0, 0, 0]);
}

#[test]
fn picks_smallest_pixmap_covering_the_target() {
    let candidates = [pixmap(64), pixmap(16), pixmap(22)];
    assert_eq!(pick_pixmap(&candidates, 15).unwrap().width, 16);
}

#[test]
fn falls_back_to_largest_when_all_are_too_small() {
    let candidates = [pixmap(8), pixmap(12)];
    assert_eq!(pick_pixmap(&candidates, 15).unwrap().width, 12);
}

#[test]
fn skips_malformed_and_empty_entries() {
    let broken = IconPixmap {
        width: 32,
        height: 32,
        pixels: vec![0; 16], // buffer doesn't match the claimed size
    };
    assert_eq!(pick_pixmap(&[broken, pixmap(10)], 15).unwrap().width, 10);
    assert!(pick_pixmap(&[], 15).is_none());
}

fn source(status: Status, name: Option<&str>) -> IconSource {
    IconSource {
        status,
        icon_name: name.map(Into::into),
        attention_icon_name: None,
        icon_pixmap: None,
        attention_icon_pixmap: None,
        icon_theme_path: None,
    }
}

#[test]
fn a_name_is_a_file_or_an_icon_of_the_theme() {
    assert_eq!(named_icon(&source(Status::Active, Some("/tmp/a.png"))), Named::File("/tmp/a.png"));
    assert_eq!(named_icon(&source(Status::Active, Some("mail"))), Named::Theme("mail"));
    assert_eq!(named_icon(&source(Status::Active, Some(""))), Named::Nothing);
    assert_eq!(named_icon(&source(Status::Active, None)), Named::Nothing);
}

#[test]
fn attention_has_icons_of_its_own_where_it_has_any() {
    let mut s = source(Status::NeedsAttention, Some("mail"));
    assert_eq!(named_icon(&s), Named::Theme("mail"));
    s.attention_icon_name = Some("mail-unread".into());
    assert_eq!(named_icon(&s), Named::Theme("mail-unread"));
    s.status = Status::Active;
    assert_eq!(named_icon(&s), Named::Theme("mail"));
}

#[test]
fn a_name_that_is_not_found_falls_back_to_a_picture() {
    let mut s = source(Status::Active, Some("mail"));
    assert_eq!(resolve(&s, true), Icon::Theme("mail"));
    assert_eq!(resolve(&s, false), Icon::Missing);
    s.icon_pixmap = Some(vec![pixmap(8), pixmap(22)]);
    assert!(matches!(resolve(&s, false), Icon::Pixmap(p) if p.width == 22));
}

#[test]
fn an_item_may_bring_icons_of_its_own() {
    let with = |name: Option<&str>, path: Option<&str>| IconSource {
        icon_theme_path: path.map(Into::into),
        ..source(Status::Active, name)
    };
    assert_eq!(theme_path(&with(Some("app"), Some("/opt/app/icons"))), Some("/opt/app/icons"));
    assert_eq!(theme_path(&with(Some("app"), Some(""))), None);
    assert_eq!(theme_path(&with(Some("app"), None)), None);
    assert_eq!(theme_path(&with(Some("/opt/app.png"), Some("/opt/app/icons"))), None);
    assert_eq!(theme_path(&with(None, Some("/opt/app/icons"))), None);
}
