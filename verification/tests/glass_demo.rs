use swaypplet::glass_demo::panel::{
    knob, params_of, slider, Knob, Panel, KNOBS,
};
use swaypplet::glass_demo::probe::{exit_code, refuse_reason, Outcome, Probe};
use swaypplet::glass_demo::{
    add_shape, capture, capture_path, clock_after, dash, flip_rows, parse_args, parse_lock_args,
    pick, picture_size, preset, preset_index, push_ripple, ripple_runs, wallpaper_path, Args, Capture, Demo, Key,
    Layout, Press, MAX_RIPPLES, MAX_SHAPES, PRESETS,
};

fn list(items: &[&str]) -> Vec<String> {
    items.iter().map(|s| s.to_string()).collect()
}

#[test]
fn presets_have_names_and_layouts() {
    assert_eq!(preset(0), ("Regular", Layout::Card));
    assert_eq!(preset(3), ("Liquid", Layout::Blobs));
    assert_eq!(preset(5), ("Bar chips", Layout::Chips));
    assert_eq!(preset_index(2), 2);
    assert_eq!(preset_index(99), PRESETS - 1);
}

#[test]
fn the_oldest_give_way() {
    let mut ripples: Vec<u32> = vec![];
    for n in 0..10 {
        push_ripple(&mut ripples, n);
    }
    assert_eq!(ripples, [6, 7, 8, 9]);
    assert_eq!(ripples.len(), MAX_RIPPLES);
    let mut shapes: Vec<u32> = (0..MAX_SHAPES as u32).collect();
    add_shape(&mut shapes, 100);
    assert_eq!(shapes.len(), MAX_SHAPES);
    assert_eq!((shapes[0], shapes[7]), (1, 100));
}

#[test]
fn the_topmost_shape_is_grabbed() {
    assert_eq!(pick(&vec![true, false, true, false]), Some(2));
    assert_eq!(pick(&vec![false, false]), None);
    assert_eq!(pick(&vec![]), None);
}

#[test]
fn time_is_added_up_and_ripples_end() {
    assert_eq!(clock_after(1_000, 16_000, false), 17_000);
    assert_eq!(clock_after(1_000, 16_000, true), 1_000);
    assert_eq!(clock_after(1_000, -5, false), 1_000);
    assert_eq!(clock_after(1_000, 9_000_000, false), 251_000);
    assert!(ripple_runs(0, 2_599_999));
    assert!(!ripple_runs(0, 2_600_000));
}

#[test]
fn keys_drive_the_demo() {
    let mut d = Demo::new(None, None);
    assert_eq!(d.press(Key::Digit(4)), Press::Preset { index: 3, sync: true });
    assert_eq!(d.press(Key::R), Press::Preset { index: 3, sync: false });
    for view in [1, 2, 3, 4, 0] {
        d.press(Key::D);
        assert_eq!(d.debug, view);
    }
    assert_eq!(d.debug_label(), "Tab for parameters, 1-6 for presets, d for debug views");
    for card in [0, 1000, 450] {
        d.press(Key::T);
        assert_eq!(d.test_card, card);
    }
    d.press(Key::P);
    d.press(Key::Tab);
    assert!(d.paused && !d.panel);
    assert_eq!(d.press(Key::N), Press::AddShape);
    assert_eq!(d.press(Key::Escape), Press::Close);
    assert_eq!(d.press(Key::Other), Press::Pass);
    assert_eq!(Demo::new(Some("3"), Some(1000)).debug_label(), "debug: merged SDF");
    let mut below = Demo::new(Some("-4"), None);
    below.press(Key::D);
    assert_eq!(below.debug, -3);
}

#[test]
fn a_capture_run_writes_each_preset_once() {
    let mut written = vec![];
    for n in 0..40 {
        match capture(n) {
            Capture::Nothing => {}
            Capture::Write { index, next } => {
                assert_eq!(next, index + 1);
                written.push((n, index));
            }
            Capture::Last { index } => written.push((n, index)),
        }
    }
    assert_eq!(written, [(4, 0), (7, 1), (10, 2), (13, 3), (16, 4), (19, 5)]);
    assert_eq!(capture_path("/tmp/s", "Bar chips"), "/tmp/s/bar-chips.png");
    assert_eq!(dash("Ö_a1"), "--a1");
}

#[test]
fn a_picture_is_turned_upside_down() {
    assert_eq!(flip_rows(&vec![1, 2, 3, 4, 5, 6], 2), [5, 6, 3, 4, 1, 2]);
    assert_eq!(flip_rows(&vec![], 4), Vec::<u8>::new());
}

#[test]
fn arguments_name_a_wallpaper_and_a_directory() {
    assert_eq!(
        parse_args(&list(&["--lock", "a.png", "--shot", "out", "b.png"])),
        Args { wallpaper: Some("b.png".into()), shot_dir: Some("out".into()) }
    );
    assert_eq!(
        parse_args(&list(&["--shot"])),
        Args { wallpaper: Some("--shot".into()), shot_dir: None }
    );
    assert_eq!(
        parse_lock_args(&list(&["demo", "--lock", "--shot", "out", "a.png"])),
        Args { wallpaper: Some("a.png".into()), shot_dir: Some("out".into()) }
    );
    assert_eq!(wallpaper_path(Some("a"), Some("b")), Some("a"));
    assert_eq!(wallpaper_path(None, Some("b")), Some("b"));
    assert_eq!(wallpaper_path(Some(""), Some("b")), None);
}

#[test]
fn the_panel_shows_every_preset_as_it_is() {
    let mut panel = Panel::new(params_of(0));
    for p in 0..PRESETS {
        panel.sync(params_of(p));
        assert_eq!(panel.params(), params_of(p));
        for i in 0..KNOBS {
            assert_eq!(i64::from(panel.shown(i)), params_of(p).get(knob(i)));
        }
    }
}

#[test]
fn a_slider_moves_its_own_parameter() {
    let mut panel = Panel::new(params_of(1));
    let at = (0..KNOBS).find(|i| knob(*i) == Knob::Ior).unwrap();
    panel.slide(at, 1_750);
    let mut want = params_of(1);
    want.ior = 1_750;
    assert_eq!(panel.params(), want);
    // Its ends stop it.
    panel.slide(at, 9_000);
    assert_eq!(panel.params().ior, slider(Knob::Ior).max);
    // Taps are whole numbers.
    let taps = (0..KNOBS).find(|i| knob(*i) == Knob::Samples).unwrap();
    panel.slide(taps, 7_900);
    assert_eq!(panel.params().samples, 7);
    assert_eq!(panel.shown(taps), 7_900);
    assert_eq!(slider(Knob::Samples).label, "spectral taps");
}

#[test]
fn a_parameter_is_a_number_of_thousandths() {
    let p = params_of(0);
    assert_eq!(p.dispersion as f32 / 1000.0, 0.004);
    assert_eq!(p.noise as f32 / 1000.0, 0.012);
    assert_eq!(p.tint_alpha as f32 / 1000.0, 0.07);
    assert_eq!(params_of(5).frost as f32 / 1000.0, 4.2);
}

#[test]
fn the_probe_is_refused_unless_it_is_nested() {
    assert_eq!(
        refuse_reason(None, "w-1", "w-0"),
        Some("GLASS_DEMO_LOCK_PROBE=1 not set; run dev/glass-demo/lockprobe.sh".into())
    );
    assert_eq!(
        refuse_reason(Some("1"), "w-1", ""),
        Some("GLASS_DEMO_HOST_DISPLAY unset; refusing to guess".into())
    );
    assert_eq!(
        refuse_reason(Some("1"), "w-0", "w-0"),
        Some("WAYLAND_DISPLAY=w-0 is the host session; this probe only runs nested".into())
    );
    assert_eq!(refuse_reason(Some("1"), "w-1", "w-0"), None);
}

#[test]
fn the_probe_speaks_after_a_few_frames() {
    let mut p = Probe::new();
    assert_eq!(p.ended().1, "no render callback ran: GL never started on the lock surface");
    for _ in 0..3 {
        assert!(!p.drawn(800, 600, "0.500"));
    }
    assert_eq!(exit_code(p.ended().0), 1);
    assert!(p.drawn(800, 600, "0.250"));
    assert!(!p.drawn(800, 600, "0.100"));
    assert_eq!(
        p.ended().1,
        "GtkGLArea renders on an ext-session-lock-v1 surface: 800x600, glass pass 0.250 ms GPU, \
         4 frames drawn"
    );
    assert_eq!(exit_code(p.ended().0), 0);
    let mut broken = Probe::new();
    broken.shader_failed("link");
    assert_eq!(broken.ended().1, "GL context came up but the shader failed: link");
    broken.lock_failed();
    assert_eq!(broken.ended().1, "compositor refused the lock");
    assert_eq!(exit_code(Outcome::Refused), 2);
    assert_eq!(exit_code(Outcome::NoToolkit), 1);
    assert_eq!(exit_code(Outcome::Unsupported), 3);
    assert_eq!(exit_code(Outcome::NoLock), 4);
}

#[test]
fn a_picture_has_four_bytes_for_each_pixel() {
    assert_eq!(picture_size(3, 2), Some((12, 24)));
    assert_eq!(picture_size(i32::MAX, i32::MAX).map(|(s, _)| s), Some(8_589_934_588));
    assert_eq!(picture_size(0, 2), None);
    assert_eq!(picture_size(3, -1), None);
}

#[test]
fn flipping_twice_changes_nothing() {
    let picture = vec![1, 2, 3, 4, 5, 6, 7, 8, 9];
    let once = flip_rows(&picture, 3);
    assert_ne!(once, picture);
    assert_eq!(flip_rows(&once, 3), picture);
}
