use swaypplet::clipboard::{
    has_password_hint, is_secret, next_read, pick_mime, preview, text_mimes, Entry, History, NextRead,
    Watcher, MAX_BYTES, MAX_ENTRIES, PASSWORD_HINT_MIME, PREVIEW_LEN, VISIBLE_ENTRIES,
};

#[test]
fn preview_is_one_bounded_line() {
    assert_eq!(preview("  hello  "), "hello");
    assert_eq!(preview("two\nlines"), "two lines");
    assert_eq!(preview("tabs\tand\r\nnewlines"), "tabs and newlines");
    let long = "x".repeat(PREVIEW_LEN + 20);
    let cut = preview(&long);
    assert_eq!(cut.chars().count(), PREVIEW_LEN + 1); // + the ellipsis
    assert!(cut.ends_with('…'));
}

#[test]
fn preview_counts_characters_not_bytes() {
    // Truncating on bytes would split these and produce invalid UTF-8.
    let text = "åäö".repeat(40);
    let cut = preview(&text);
    assert_eq!(cut.chars().count(), PREVIEW_LEN + 1);
}

#[test]
fn text_mimes_are_ordered_utf8_first() {
    // The picker takes the first advertised in this order, so a source
    // offering both must not hand us the unlabelled flavour.
    let offered = ["text/plain", "text/plain;charset=utf-8"];
    let picked = text_mimes()
        .into_iter()
        .find(|want| offered.iter().any(|m| m == want));
    assert_eq!(picked, Some("text/plain;charset=utf-8"));
}

#[test]
fn a_source_s_best_flavour_is_read() {
    let mimes = |list: &[&str]| -> Vec<String> { list.iter().map(|m| m.to_string()).collect() };
    assert_eq!(
        pick_mime(&mimes(&["text/plain", "text/plain;charset=utf-8"])),
        Some("text/plain;charset=utf-8")
    );
    assert_eq!(pick_mime(&mimes(&["image/png"])), None);
    assert!(has_password_hint(&mimes(&["text/plain", PASSWORD_HINT_MIME])));
    assert!(!has_password_hint(&mimes(&["text/plain"])));
}

#[test]
fn only_a_hint_that_says_so_marks_a_secret() {
    assert!(is_secret(&Some(b"secret".to_vec())));
    assert!(is_secret(&Some(b" secret\n".to_vec())));
    assert!(!is_secret(&Some(b"public".to_vec())));
    assert!(!is_secret(&Some(b"".to_vec())));
    assert!(!is_secret(&None));
}

#[test]
fn copying_again_is_a_bump_and_not_a_second_row() {
    let mut h = History::new();
    assert!(h.take("text/plain", b"one".to_vec()));
    assert!(h.take("text/plain", b"two".to_vec()));
    assert!(h.take("text/plain", b"one".to_vec()));
    let rows = h.snapshot();
    assert_eq!(rows.len(), 2);
    assert_eq!(rows[0].preview, "one");
    assert_eq!(rows[1].preview, "two");
    let back = h.restore(rows[1].id).unwrap();
    assert_eq!(back.mime, "text/plain");
    assert_eq!(back.bytes, b"two");
    assert!(h.restore(99).is_none());
    h.clear();
    assert!(h.snapshot().is_empty());
    assert!(h.restore(rows[1].id).is_none());
}

#[test]
fn what_is_not_worth_keeping_is_dropped() {
    let mut h = History::new();
    assert!(!h.take("text/plain", vec![]));
    assert!(!h.take("text/plain", b" \n\t ".to_vec()));
    assert!(!h.take("text/plain", vec![0xff, 0xfe]));
    assert!(!h.take("text/plain", vec![b'x'; MAX_BYTES + 1]));
    assert!(h.take("text/plain", vec![b'x'; MAX_BYTES]));
}

#[test]
fn the_history_is_bounded() {
    let mut h = History::new();
    for n in 0..MAX_ENTRIES + 5 {
        h.take("text/plain", format!("copy {n}").into_bytes());
    }
    let rows = h.snapshot();
    assert_eq!(rows.len(), VISIBLE_ENTRIES);
    assert_eq!(rows[0].preview, format!("copy {}", MAX_ENTRIES + 4));
    // The oldest have left: their ids find nothing.
    assert!(h.restore(1).is_none());
    assert!(h.restore(5).is_none());
    assert!(h.restore(6).is_some());
}

#[test]
fn the_client_never_reads_back_what_it_put_there_itself() {
    let mut w = Watcher::new();
    w.announced(1);
    w.offered(1, "text/plain".into());
    assert_eq!(w.selected(1), Some(vec!["text/plain".to_string()]));
    assert_eq!(w.selected(1), None);
    assert_eq!(w.restored(70), None);
    w.announced(2);
    assert_eq!(w.selected(2), None);
    // The one it replaces is let go.
    assert_eq!(w.restored(71), Some(70));
    w.cancelled(70);
    w.announced(3);
    assert_eq!(w.selected(3), None);
    w.cancelled(71);
    w.announced(4);
    assert_eq!(w.selected(4), Some(vec![]));
    w.announced(5);
    w.primary(5);
    assert_eq!(w.selected(5), None);
}

#[test]
fn every_control_code_becomes_a_gap() {
    for c in '\0'..=char::MAX {
        let gap = c.is_control() || c.is_whitespace();
        let expected = if gap { "a b".to_string() } else { format!("a{c}b") };
        assert_eq!(preview(&format!("a{c}b")), expected, "{c:?}");
    }
}

fn offered(mimes: &[&str]) -> Vec<String> {
    mimes.iter().map(|m| m.to_string()).collect()
}

#[test]
fn a_secret_never_reaches_the_history() {
    let mut h = History::new();
    let marked = offered(&["text/plain", PASSWORD_HINT_MIME]);
    assert!(!h.copied(&marked, &Some(b" secret\n".to_vec()), Some(b"hunter2".to_vec())));
    assert!(h.snapshot().is_empty());
    // The hint alone does not make a secret.
    assert!(h.copied(&marked, &Some(b"public".to_vec()), Some(b"hello".to_vec())));
    assert!(h.copied(&marked, &None, Some(b"again".to_vec())));
    // A hint that nobody offered is none.
    let plain = offered(&["text/plain"]);
    assert!(h.copied(&plain, &Some(b"secret".to_vec()), Some(b"third".to_vec())));
    let rows: Vec<String> = h.snapshot().into_iter().map(|e| e.preview).collect();
    assert_eq!(rows, ["third", "again", "hello"]);
}

#[test]
fn a_selection_is_filed_in_its_best_flavour() {
    let mut h = History::new();
    let mimes = offered(&["text/plain", "text/plain;charset=utf-8"]);
    assert!(h.copied(&mimes, &None, Some(b"x".to_vec())));
    let id = h.snapshot()[0].id;
    let p = h.restore(id).unwrap();
    assert_eq!((p.mime.as_str(), p.bytes.as_slice()), ("text/plain;charset=utf-8", &b"x"[..]));
    // No text, nothing read, nothing worth an entry.
    assert!(!h.copied(&offered(&["image/png"]), &None, Some(b"x".to_vec())));
    assert!(!h.copied(&mimes, &None, None));
    assert!(!h.copied(&mimes, &None, Some(b" \n".to_vec())));
    assert!(!h.copied(&mimes, &None, Some(vec![0xff])));
    assert!(!h.copied(&mimes, &None, Some(vec![])));
    assert_eq!(h.snapshot().len(), 1);
}

#[test]
fn the_hint_is_read_before_the_text() {
    let marked = offered(&["STRING", PASSWORD_HINT_MIME, "UTF8_STRING"]);
    assert_eq!(next_read(&marked, false, &None), NextRead::Hint);
    assert_eq!(next_read(&marked, true, &None), NextRead::Text("UTF8_STRING"));
    assert_eq!(next_read(&marked, true, &Some(b"secret".to_vec())), NextRead::Nothing);
    assert_eq!(next_read(&offered(&["TEXT"]), false, &None), NextRead::Text("TEXT"));
    assert_eq!(next_read(&offered(&[]), false, &None), NextRead::Nothing);
}

#[test]
fn a_preview_previews_as_itself() {
    for text in [
        "  two\n\n lines ",
        &"word ".repeat(40),
        &"x".repeat(200),
        &format!("{} tail", "y".repeat(PREVIEW_LEN - 1)),
        "",
    ] {
        let p = preview(text);
        assert_eq!(preview(&p), p);
    }
}

#[test]
fn filing_a_repeat_keeps_what_is_held() {
    let entry = |id: u64, bytes: &[u8]| Entry {
        id,
        mime: format!("m{id}"),
        bytes: bytes.to_vec(),
        preview: format!("p{id}"),
    };
    let mut h = History::new();
    h.file(entry(1, b"a"));
    h.file(entry(2, b"b"));
    h.file(entry(3, b"a"));
    let rows: Vec<(u64, String)> = h.snapshot().into_iter().map(|e| (e.id, e.preview)).collect();
    assert_eq!(rows, [(1, "p1".to_string()), (2, "p2".to_string())]);
    for n in 0..MAX_ENTRIES as u64 + 5 {
        h.file(entry(100 + n, &n.to_be_bytes()));
    }
    // The oldest left, the newest is in front.
    assert!(h.restore(1).is_none() && h.restore(104).is_none());
    assert!(h.restore(105).is_some());
    assert_eq!(h.snapshot()[0].id, 100 + MAX_ENTRIES as u64 + 4);
}
