use swaypplet::dmenu::{
    items_of, key_action, parse_args, socket_path, supersede, Answer, Key, KeyAction, Picker,
    Request, MAX_ROWS,
};

fn list(items: &[&str]) -> Vec<String> {
    items.iter().map(|s| s.to_string()).collect()
}

#[test]
fn arguments_name_the_prompt() {
    assert_eq!(parse_args(&list(&[])), Ok("Select".into()));
    assert_eq!(parse_args(&list(&["-p", "Run", "--prompt", "Open"])), Ok("Open".into()));
    assert_eq!(parse_args(&list(&["--placeholder"])), Ok("Select".into()));
    assert_eq!(parse_args(&list(&["-p", "x", "-i"])), Err("-i".into()));
}

#[test]
fn blank_lines_are_no_items() {
    assert_eq!(items_of(&list(&["a", "", "  ", " b"])), ["a", " b"]);
}

#[test]
fn every_word_of_the_query_stands_somewhere() {
    assert!(swaypplet::dmenu::matches("Mozilla Firefox", "fire MOZ"));
    assert!(!swaypplet::dmenu::matches("Mozilla Firefox", "fire chrome"));
    assert!(swaypplet::dmenu::matches("anything", ""));
    assert!(swaypplet::dmenu::matches("Ångström", "ång"));
}

#[test]
fn enter_takes_what_is_selected_once() {
    let mut p = Picker::new(list(&["one", "two", "three"]));
    p.refilter("t");
    p.move_selection(-1);
    assert_eq!(p.accept("t"), Answer::Send(Some("three".into())));
    assert_eq!(p.accept("t"), Answer::Nothing);
    assert_eq!(p.finish(None), Answer::Nothing);
}

#[test]
fn the_selection_goes_around_the_ends() {
    let mut p = Picker::new(list(&["one", "two", "three"]));
    p.move_selection(4);
    assert_eq!(p.accept(""), Answer::Send(Some("two".into())));
}

#[test]
fn a_query_that_matches_nothing_answers_with_itself() {
    let mut p = Picker::new(list(&["one"]));
    p.refilter("1 + 1");
    assert_eq!(p.accept("1 + 1"), Answer::Send(Some("1 + 1".into())));
    let mut p = Picker::new(list(&[]));
    p.move_selection(1);
    assert_eq!(p.accept(""), Answer::Send(None));
    let mut p = Picker::new(list(&["one"]));
    assert_eq!(p.finish(None), Answer::Send(None));
}

#[test]
fn only_so_many_rows_are_shown() {
    let items: Vec<String> = (0..100).map(|n| format!("item {n}")).collect();
    let mut p = Picker::new(items);
    // One up from the first is the last row, not the last item.
    p.move_selection(-1);
    assert_eq!(
        p.accept(""),
        Answer::Send(Some(format!("item {}", MAX_ROWS - 1)))
    );
}

#[test]
fn the_socket_lies_in_the_runtime_directory() {
    assert_eq!(
        socket_path(Some("/run/user/1000")),
        "/run/user/1000/swaypplet-dmenu.sock"
    );
    assert_eq!(socket_path(None), "/tmp/swaypplet-dmenu.sock");
}

#[test]
fn keys_cancel_move_and_accept() {
    assert_eq!(key_action(Key::Escape), KeyAction::Cancel);
    assert_eq!(key_action(Key::Down), KeyAction::Move(1));
    assert_eq!(key_action(Key::Tab), KeyAction::Move(1));
    assert_eq!(key_action(Key::Up), KeyAction::Move(-1));
    assert_eq!(key_action(Key::BackTab), KeyAction::Move(-1));
    assert_eq!(key_action(Key::Return), KeyAction::Accept);
    assert_eq!(key_action(Key::KeypadEnter), KeyAction::Accept);
    assert_eq!(key_action(Key::Other), KeyAction::Pass);
}

#[test]
fn a_newer_request_cancels_the_one_on_screen() {
    let request = |items: &[&str]| Request {
        prompt: "Select".into(),
        items: list(items),
    };
    let (owed, first) = supersede(None, request(&["a"]));
    assert_eq!(owed, Answer::Nothing);
    let (owed, mut second) = supersede(Some(first), request(&["b"]));
    assert_eq!(owed, Answer::Send(None));
    assert_eq!(second.accept(""), Answer::Send(Some("b".into())));
    // One that was answered gets no second answer.
    let (owed, mut third) = supersede(Some(second), request(&["c"]));
    assert_eq!(owed, Answer::Nothing);
    assert_eq!(third.accept(""), Answer::Send(Some("c".into())));
}
