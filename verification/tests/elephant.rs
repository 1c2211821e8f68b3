use swaypplet::elephant::{
    activate, after_header, frame, query, response_header, socket_path, AfterHeader, AfterPayload, Search,
    SearchResult, Stopped, MSG_TYPE_ACTIVATE, MSG_TYPE_QUERY, RESP_QUERY_ASYNC_ITEM,
    RESP_QUERY_DONE, RESP_QUERY_ITEM, RESP_QUERY_NO_RESULTS,
};

fn result(identifier: &str, score: i32) -> SearchResult {
    SearchResult {
        identifier: identifier.into(),
        text: String::new(),
        subtext: String::new(),
        icon: String::new(),
        provider: "desktopapplications".into(),
        score,
    }
}

#[test]
fn requests_carry_what_they_were_given() {
    let q = query("fire", &["desktopapplications", "calc"], 30);
    assert_eq!(q.query, "fire");
    assert_eq!(q.providers, ["desktopapplications", "calc"]);
    assert_eq!(q.maxresults, 30);
    let a = activate("calc", "id", "1+1");
    assert_eq!(a.provider, "calc");
    assert_eq!(a.identifier, "id");
    assert_eq!(a.action, "select");
    assert_eq!(a.query, "1+1");
}

#[test]
fn a_frame_says_what_it_is_and_how_long() {
    assert_eq!(frame(MSG_TYPE_QUERY, &[7, 8]), [0, 0, 0, 0, 0, 2, 7, 8]);
    let long = frame(MSG_TYPE_ACTIVATE, &[0; 0x10203]);
    assert_eq!(long[..6], [1, 0, 0, 1, 2, 3]);
    assert_eq!(response_header(&[255, 0, 1, 2, 3]), (255, 0x10203));
}

#[test]
fn a_response_is_read_by_its_header() {
    assert_eq!(after_header(Ok((RESP_QUERY_DONE, 9))), AfterHeader::Finish);
    assert_eq!(after_header(Ok((RESP_QUERY_NO_RESULTS, 0))), AfterHeader::Finish);
    assert_eq!(after_header(Ok((RESP_QUERY_ITEM, 0))), AfterHeader::Next);
    assert_eq!(after_header(Ok((RESP_QUERY_ITEM, 9))), AfterHeader::ReadItem(9));
    assert_eq!(after_header(Ok((RESP_QUERY_ASYNC_ITEM, 9))), AfterHeader::ReadItem(9));
    assert_eq!(after_header(Ok((7, 9))), AfterHeader::Skip(9));
    // What came in time is the answer.
    assert_eq!(after_header(Err(Stopped::TimedOut)), AfterHeader::Finish);
    assert_eq!(after_header(Err(Stopped::Failed)), AfterHeader::Fail);
}

#[test]
fn the_best_result_comes_first_and_ties_keep_their_order() {
    let mut s = Search::new();
    s.item(Some(result("a", 1)));
    s.item(None);
    s.item(Some(result("b", 5)));
    s.item(Some(result("c", 1)));
    let order: Vec<String> = s.finish(10).into_iter().map(|r| r.identifier).collect();
    assert_eq!(order, ["b", "a", "c"]);
}

#[test]
fn the_daemon_listens_in_the_runtime_directory() {
    assert_eq!(
        socket_path(Some("/run/user/1000")),
        "/run/user/1000/elephant/elephant.sock"
    );
    assert_eq!(socket_path(None), "/tmp/elephant/elephant.sock");
}

#[test]
fn no_more_results_are_shown_than_were_asked_for() {
    let found = |max: i32| {
        let mut s = Search::new();
        s.item(Some(result("a", 1)));
        s.item(Some(result("b", 5)));
        s.item(Some(result("c", 3)));
        s.finish(max).into_iter().map(|r| r.identifier).collect::<Vec<_>>()
    };
    assert_eq!(found(0), Vec::<String>::new());
    assert_eq!(found(1), ["b"]);
    assert_eq!(found(2), ["b", "c"]);
    assert_eq!(found(3), ["b", "c", "a"]);
    assert_eq!(found(i32::MAX), ["b", "c", "a"]);
    assert_eq!(found(-1), ["b", "c", "a"]);
}

#[test]
fn a_payload_that_cannot_be_read_ends_the_search() {
    let mut s = Search::new();
    assert_eq!(s.after_payload(Ok(Some(result("a", 1)))), AfterPayload::Next);
    assert_eq!(s.after_payload(Ok(None)), AfterPayload::Next);
    assert_eq!(s.after_payload(Err(Stopped::TimedOut)), AfterPayload::Fail);
    assert_eq!(s.after_payload(Err(Stopped::Failed)), AfterPayload::Fail);
    assert_eq!(s.finish(10).len(), 1);
}
