use swaypplet::bar::hazards::{armed_mode, microphone_tooltip, mode_tooltip};

#[test]
fn only_non_default_named_modes_arm_the_hazard() {
    assert_eq!(armed_mode("default"), None);
    // Pre-snapshot SwayState default: unknown is not a hazard.
    assert_eq!(armed_mode(""), None);
    assert_eq!(armed_mode("resize"), Some("resize"));
}

#[test]
fn the_hazards_say_what_they_are() {
    assert_eq!(mode_tooltip("resize"), "Mode: resize");
    assert_eq!(microphone_tooltip(&vec![]), "Microphone in use");
    assert_eq!(
        microphone_tooltip(&vec!["Chrome".into(), "Zoom".into()]),
        "Microphone: Chrome, Zoom"
    );
}
