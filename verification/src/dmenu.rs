//! The picker: a list on stdin, one of its lines on stdout.
//!
//! Where the query matches no item, Enter answers with the query itself, so
//! that one line and a prompt double as an editable text.

use vstd::prelude::*;
use vstd::string::*;
use crate::text::{
    chars_of, contains, grouped, join_path, lowercase, occurs, path_below, push_text, same,
    split_words, string_of, text_of, texts, to_lower, trim, trimmed, words,
};

verus! {

/// How many rows are shown at most.
pub const MAX_ROWS: usize = 30;

/// A request to the panel that shows the picker.
#[derive(Debug, PartialEq, Eq)]
pub struct Request {
    pub prompt: String,
    pub items: Vec<String>,
}

/// Where the panel listens: in the runtime directory of the user, so that only
/// they reach the picker.
pub fn socket_path(runtime_dir: Option<&str>) -> (r: String)
    ensures
        r@ == path_below(
            match runtime_dir {
                Some(dir) => dir@,
                None => "/tmp"@,
            },
            "swaypplet-dmenu.sock"@,
        ),
{
    match runtime_dir {
        Some(dir) => join_path(dir, "swaypplet-dmenu.sock"),
        None => join_path("/tmp", "swaypplet-dmenu.sock"),
    }
}

// ── Arguments ──────────────────────────────────────────────────────────

/// Whether an argument is followed by the prompt.
pub open spec fn takes_prompt(arg: Seq<char>) -> bool {
    arg == "--prompt"@ || arg == "--placeholder"@ || arg == "-p"@
}

/// What the arguments say: the prompt, or the first option that is not known.
pub open spec fn parsed(args: Seq<Seq<char>>, prompt: Seq<char>) -> Result<Seq<char>, Seq<char>>
    decreases args.len(),
{
    if args.len() == 0 {
        Ok(prompt)
    } else if takes_prompt(args[0]) {
        if args.len() == 1 {
            Ok(prompt)
        } else {
            parsed(args.skip(2), args[1])
        }
    } else {
        Err(args[0])
    }
}

/// Reads the arguments: the prompt (`Select` by default), or the first option
/// that is not known.
pub fn parse_args(args: &Vec<String>) -> (r: Result<String, String>)
    ensures
        match r {
            Ok(p) => parsed(texts(args@), "Select"@) == Ok::<Seq<char>, Seq<char>>(p@),
            Err(o) => parsed(texts(args@), "Select"@) == Err::<Seq<char>, Seq<char>>(o@),
        },
{
    let mut prompt = "Select".to_owned();
    let mut i: usize = 0;
    let ghost all = texts(args@);
    assert(all.skip(0) =~= all);
    while i < args.len()
        invariant
            i <= args@.len(),
            all == texts(args@),
            parsed(all, "Select"@) == parsed(all.skip(i as int), prompt@),
        decreases args@.len() - i,
    {
        let ghost rest = all.skip(i as int);
        assert(rest[0] == args@[i as int]@);
        let arg = args[i].as_str();
        if same(arg, "--prompt") || same(arg, "--placeholder") || same(arg, "-p") {
            if args.len() - i < 2 {
                return Ok(prompt);
            }
            assert(rest[1] == args@[i + 1]@);
            assert(rest.skip(2) =~= all.skip(i + 2));
            prompt = args[i + 1].clone();
            i += 2;
        } else {
            return Err(args[i].clone());
        }
    }
    Ok(prompt)
}

/// Lines that are not blank.
pub open spec fn not_blank() -> spec_fn(Seq<char>) -> bool {
    |line: Seq<char>| trimmed(line).len() > 0
}

/// The items of the list: its lines, without the blank ones.
pub fn items_of(lines: &Vec<String>) -> (r: Vec<String>)
    ensures
        texts(r@) == texts(lines@).filter(not_blank()),
{
    let mut r: Vec<String> = Vec::new();
    let mut i: usize = 0;
    let ghost all = texts(lines@);
    proof {
        reveal(Seq::filter);
        reveal_strlit("");
        assert(texts(r@) =~= all.take(0).filter(not_blank()));
    }
    while i < lines.len()
        invariant
            i <= lines@.len(),
            all == texts(lines@),
            ""@.len() == 0,
            texts(r@) == all.take(i as int).filter(not_blank()),
        decreases lines@.len() - i,
    {
        assert(all.take(i + 1).drop_last() =~= all.take(i as int));
        assert(all.take(i + 1).last() == lines@[i as int]@);
        proof {
            reveal(Seq::filter);
        }
        let t = trim(lines[i].as_str());
        proof {
            if t@.len() == 0 {
                assert(t@ =~= ""@);
            }
        }
        if !same(t.as_str(), "") {
            push_text(&mut r, lines[i].clone());
        }
        i += 1;
    }
    assert(all.take(all.len() as int) =~= all);
    r
}

// ── Matching ───────────────────────────────────────────────────────────

/// Whether every term stands somewhere in a text.
pub open spec fn all_occur(text: Seq<char>, terms: Seq<Seq<char>>) -> bool {
    forall|i: int| 0 <= i < terms.len() ==> occurs(text, #[trigger] terms[i])
}

/// Whether every term stands somewhere in a text.
pub fn holds_all(text: &str, terms: &Vec<String>) -> (r: bool)
    ensures
        r == all_occur(text@, texts(terms@)),
{
    let mut i: usize = 0;
    while i < terms.len()
        invariant
            i <= terms@.len(),
            forall|j: int| 0 <= j < i ==> occurs(text@, #[trigger] texts(terms@)[j]),
        decreases terms@.len() - i,
    {
        assert(texts(terms@)[i as int] == terms@[i as int]@);
        if !contains(text, terms[i].as_str()) {
            return false;
        }
        i += 1;
    }
    true
}

/// Texts in lower case.
pub open spec fn lowered(list: Seq<Seq<char>>) -> Seq<Seq<char>> {
    list.map_values(|w: Seq<char>| lowercase(w))
}

/// Whether an item matches a query.
pub open spec fn matching(item: Seq<char>, query: Seq<char>) -> bool {
    all_occur(lowercase(item), lowered(words(query)))
}

/// Case-insensitive word match: every word of the query stands somewhere in
/// the item.
pub fn matches(item: &str, query: &str) -> (r: bool)
    ensures
        r == matching(item@, query@),
{
    let v = chars_of(query);
    let list = split_words(v.as_slice());
    let mut terms: Vec<String> = Vec::new();
    let mut i: usize = 0;
    let ghost want = lowered(words(query@));
    assert(texts(terms@) =~= want.take(0));
    while i < list.len()
        invariant
            i <= list@.len(),
            grouped(list@) == words(query@),
            want == lowered(words(query@)),
            texts(terms@) == want.take(i as int),
        decreases list@.len() - i,
    {
        let word = string_of(list[i].as_slice());
        assert(words(query@)[i as int] == list@[i as int]@);
        push_text(&mut terms, to_lower(word.as_str()));
        assert(texts(terms@) =~= want.take(i + 1));
        i += 1;
    }
    assert(texts(terms@) =~= want);
    let low = to_lower(item);
    holds_all(low.as_str(), &terms)
}

// ── The picker ─────────────────────────────────────────────────────────

/// The places of the items that match, the first rows of them.
pub open spec fn shown(items: Seq<Seq<char>>, query: Seq<char>) -> Seq<usize>
    decreases items.len(),
{
    if items.len() == 0 {
        Seq::empty()
    } else {
        let before = shown(items.drop_last(), query);
        if before.len() < MAX_ROWS && matching(items.last(), query) {
            before.push((items.len() - 1) as usize)
        } else {
            before
        }
    }
}

/// A key, as far as the picker cares.
#[derive(Debug, Clone, Copy, PartialEq, Eq, Structural)]
pub enum Key {
    Escape,
    Down,
    Tab,
    Up,
    /// Tab with Shift.
    BackTab,
    Return,
    KeypadEnter,
    Other,
}

/// What a key does.
#[derive(Debug, Clone, Copy, PartialEq, Eq, Structural)]
pub enum KeyAction {
    Cancel,
    /// Move the selection by this much.
    Move(i32),
    Accept,
    /// Leave the key to the entry.
    Pass,
}

/// What a key does.
pub open spec fn keyed(key: Key) -> KeyAction {
    match key {
        Key::Escape => KeyAction::Cancel,
        Key::Down | Key::Tab => KeyAction::Move(1),
        Key::Up | Key::BackTab => KeyAction::Move(-1i32),
        Key::Return | Key::KeypadEnter => KeyAction::Accept,
        Key::Other => KeyAction::Pass,
    }
}

/// What a key does: Escape cancels, the arrows and Tab move the selection,
/// Enter accepts.
pub fn key_action(key: Key) -> (r: KeyAction)
    ensures
        r == keyed(key),
{
    match key {
        Key::Escape => KeyAction::Cancel,
        Key::Down | Key::Tab => KeyAction::Move(1),
        Key::Up | Key::BackTab => KeyAction::Move(-1),
        Key::Return | Key::KeypadEnter => KeyAction::Accept,
        Key::Other => KeyAction::Pass,
    }
}

/// A picker on screen. It answers once.
#[derive(Debug)]
pub struct Picker {
    items: Vec<String>,
    visible: Vec<usize>,
    selected: usize,
    done: bool,
}

/// A [`Picker`] as the contracts speak of it.
#[verifier::ext_equal]
pub struct PickerModel {
    pub items: Seq<Seq<char>>,
    /// The places of the items that are shown.
    pub visible: Seq<usize>,
    /// Which of them is selected.
    pub selected: int,
    pub done: bool,
}

impl View for Picker {
    type V = PickerModel;

    closed spec fn view(&self) -> PickerModel {
        PickerModel {
            items: texts(self.items@),
            visible: self.visible@,
            selected: self.selected as int,
            done: self.done,
        }
    }
}

impl PickerModel {
    /// What is shown is there, and what is selected is shown where anything
    /// is.
    pub open spec fn inv(self) -> bool {
        &&& self.visible.len() <= MAX_ROWS
        &&& forall|i: int|
            0 <= i < self.visible.len() ==> (#[trigger] self.visible[i]) < self.items.len()
        &&& 0 <= self.selected
        &&& self.visible.len() > 0 ==> self.selected < self.visible.len()
    }
}

/// What Enter answers with: the selected item, else the query, else nothing.
pub open spec fn choice(p: PickerModel, query: Seq<char>) -> Option<Seq<char>> {
    if 0 <= p.selected < p.visible.len() {
        Some(p.items[p.visible[p.selected] as int])
    } else if query.len() > 0 {
        Some(query)
    } else {
        None
    }
}

/// What became of an attempt to answer.
#[derive(Debug, PartialEq, Eq)]
pub enum Answer {
    /// Close the picker and send this.
    Send(Option<String>),
    /// It has answered before.
    Nothing,
}

/// An answer sends a reply exactly where none was sent before.
pub open spec fn answers(p: PickerModel, reply: Option<Seq<char>>, a: Answer) -> bool {
    match a {
        Answer::Send(t) => !p.done && text_of(t) == reply,
        Answer::Nothing => p.done,
    }
}

fn shown_items(items: &Vec<String>, query: &str) -> (r: Vec<usize>)
    ensures
        r@ == shown(texts(items@), query@),
        r@.len() <= MAX_ROWS,
        forall|i: int| 0 <= i < r@.len() ==> (#[trigger] r@[i]) < items@.len(),
{
    let mut r: Vec<usize> = Vec::new();
    let mut i: usize = 0;
    let ghost all = texts(items@);
    assert(r@ =~= shown(all.take(0), query@));
    while i < items.len()
        invariant
            i <= items@.len(),
            all == texts(items@),
            r@ == shown(all.take(i as int), query@),
            r@.len() <= MAX_ROWS,
            forall|j: int| 0 <= j < r@.len() ==> (#[trigger] r@[j]) < items@.len(),
        decreases items@.len() - i,
    {
        assert(all.take(i + 1).drop_last() =~= all.take(i as int));
        assert(all.take(i + 1).last() == items@[i as int]@);
        if r.len() < MAX_ROWS && matches(items[i].as_str(), query) {
            r.push(i);
        }
        i += 1;
    }
    assert(all.take(all.len() as int) =~= all);
    r
}

impl Picker {
    /// A picker that shows the first items, the first of them selected.
    pub fn new(items: Vec<String>) -> (r: Picker)
        ensures
            r@ == (PickerModel {
                items: texts(items@),
                visible: shown(texts(items@), ""@),
                selected: 0,
                done: false,
            }),
            r@.inv(),
    {
        let visible = shown_items(&items, "");
        let r = Picker { items, visible, selected: 0, done: false };
        assert(r@.inv());
        r
    }

    /// Shows what matches a query; the first of it is selected.
    pub fn refilter(&mut self, query: &str)
        requires
            old(self)@.inv(),
        ensures
            final(self)@ == (PickerModel {
                visible: shown(old(self)@.items, query@),
                selected: 0,
                ..old(self)@
            }),
            final(self)@.inv(),
    {
        self.visible = shown_items(&self.items, query);
        self.selected = 0;
        assert(self@.inv());
    }

    /// Moves the selection, around the ends.
    pub fn move_selection(&mut self, delta: i32)
        requires
            old(self)@.inv(),
        ensures
            final(self)@ == (PickerModel {
                selected: if old(self)@.visible.len() == 0 {
                    old(self)@.selected
                } else {
                    (old(self)@.selected + delta) % (old(self)@.visible.len() as int)
                },
                ..old(self)@
            }),
            final(self)@.inv(),
    {
        if self.visible.len() == 0 {
            return;
        }
        let n: i64 = self.visible.len() as i64;
        let sum: i64 = self.selected as i64 + delta as i64;
        assert(0 <= sum as int % n as int && (sum as int % n as int) < n);
        let at = sum.checked_rem_euclid(n);
        if let Some(at) = at {
            self.selected = at as usize;
        }
        assert(self@.inv());
    }

    /// Enter: answers with the selected item, or with the query where nothing
    /// is shown.
    pub fn accept(&mut self, query: &str) -> (r: Answer)
        requires
            old(self)@.inv(),
        ensures
            final(self)@ == (PickerModel { done: true, ..old(self)@ }),
            answers(old(self)@, choice(old(self)@, query@), r),
    {
        let mut reply: Option<String> = None;
        if self.selected < self.visible.len() {
            let at: usize = self.visible[self.selected];
            assert(self@.visible[self@.selected] < self@.items.len());
            reply = Some(self.items[at].clone());
        } else {
            proof {
                reveal_strlit("");
                if query@.len() == 0 {
                    assert(query@ =~= ""@);
                }
            }
            if !same(query, "") {
                reply = Some(query.to_owned());
            }
        }
        assert(text_of(reply) == choice(old(self)@, query@));
        self.finish(reply)
    }

    /// Answers once: a selection, or nothing for a cancel. Later answers are
    /// dropped.
    pub fn finish(&mut self, reply: Option<String>) -> (r: Answer)
        ensures
            final(self)@ == (PickerModel { done: true, ..old(self)@ }),
            answers(old(self)@, text_of(reply), r),
    {
        if self.done {
            return Answer::Nothing;
        }
        self.done = true;
        Answer::Send(reply)
    }
}

/// A new request comes in: the answer owed to the client of the picker on
/// screen, and the picker that takes its place. The latest request wins, so the
/// earlier client gets a cancel, unless it was answered before.
pub fn supersede(on_screen: Option<Picker>, request: Request) -> (r: (Answer, Picker))
    ensures
        match on_screen {
            Some(p) => answers(p@, None, r.0),
            None => r.0 is Nothing,
        },
        r.1@ == (PickerModel {
            items: texts(request.items@),
            visible: shown(texts(request.items@), ""@),
            selected: 0,
            done: false,
        }),
        r.1@.inv(),
{
    let owed = match on_screen {
        Some(p) => {
            let mut p = p;
            p.finish(None)
        },
        None => Answer::Nothing,
    };
    (owed, Picker::new(request.items))
}

proof fn lemma_shown(items: Seq<Seq<char>>, query: Seq<char>)
    requires
        items.len() <= usize::MAX,
    ensures
        shown(items, query).len() <= MAX_ROWS,
        forall|k: int|
            0 <= k < shown(items, query).len() ==> {
                &&& (#[trigger] shown(items, query)[k]) < items.len()
                &&& matching(items[shown(items, query)[k] as int], query)
            },
        forall|i: int|
            0 <= i < items.len() && shown(items, query).len() < MAX_ROWS && matching(
                #[trigger] items[i],
                query,
            ) ==> shown(items, query).contains(i as usize),
    decreases items.len(),
{
    if items.len() > 0 {
        let head = items.drop_last();
        let before = shown(head, query);
        let now = shown(items, query);
        lemma_shown(head, query);
        assert forall|k: int| 0 <= k < now.len() implies {
            &&& (#[trigger] now[k]) < items.len()
            &&& matching(items[now[k] as int], query)
        } by {
            if k < before.len() {
                assert(now[k] == before[k]);
                assert(head[before[k] as int] == items[before[k] as int]);
            }
        }
        assert forall|i: int|
            0 <= i < items.len() && now.len() < MAX_ROWS && matching(
                #[trigger] items[i],
                query,
            ) implies now.contains(i as usize) by {
            if i < head.len() {
                assert(head[i] == items[i]);
                assert(before.contains(i as usize));
                let k = choose|k: int| 0 <= k < before.len() && before[k] == i as usize;
                assert(now[k] == before[k]);
            } else {
                assert(now[before.len() as int] == i as usize);
            }
        }
    }
}

/// Every row that is shown matches the query, and where the rows do not run
/// out every item that matches is shown.
pub proof fn law_rows_are_the_matches(items: Seq<Seq<char>>, query: Seq<char>, i: int)
    requires
        items.len() <= usize::MAX,
        0 <= i < items.len(),
        shown(items, query).len() < MAX_ROWS,
    ensures
        shown(items, query).contains(i as usize) <==> matching(items[i], query),
{
    lemma_shown(items, query);
    if shown(items, query).contains(i as usize) {
        let k = choose|k: int|
            0 <= k < shown(items, query).len() && shown(items, query)[k] == i as usize;
        assert(matching(items[shown(items, query)[k] as int], query));
    }
}

/// Going down and up again, or around the whole list, ends where it began.
pub proof fn law_moving_around_ends_where_it_began(p: PickerModel)
    requires
        p.inv(),
        p.visible.len() > 0,
    ensures
        ({
            let n = p.visible.len() as int;
            (((p.selected + 1) % n) - 1) % n == p.selected && (p.selected + n) % n == p.selected
        }),
{
    let n = p.visible.len() as int;
    if p.selected + 1 < n {
        assert((p.selected + 1) % n == p.selected + 1) by (nonlinear_arith)
            requires
                0 <= p.selected,
                p.selected + 1 < n,
        ;
        assert(p.selected % n == p.selected) by (nonlinear_arith)
            requires
                0 <= p.selected < n,
        ;
    } else {
        assert((p.selected + 1) % n == 0) by (nonlinear_arith)
            requires
                p.selected + 1 == n,
                n > 0,
        ;
        assert((0 - 1) % n == n - 1) by (nonlinear_arith)
            requires
                n > 0,
        ;
    }
    assert((p.selected + n) % n == p.selected) by (nonlinear_arith)
        requires
            0 <= p.selected < n,
    ;
}

/// What is shown are the first thirty matches in their order: no row matches not,
/// the rows go up, and a match that is left out comes behind all of them.
pub proof fn law_the_first_matches_are_shown(items: Seq<Seq<char>>, query: Seq<char>)
    requires
        items.len() <= usize::MAX,
    ensures
        shown(items, query).len() <= 30,
        forall|k: int|
            0 <= k < shown(items, query).len() ==> (#[trigger] shown(items, query)[k])
                < items.len() && matching(items[shown(items, query)[k] as int], query),
        forall|j: int, k: int|
            #![trigger shown(items, query)[j], shown(items, query)[k]]
            0 <= j < k < shown(items, query).len() ==> shown(items, query)[j] < shown(
                items,
                query,
            )[k],
        forall|i: int|
            0 <= i < items.len() && matching(#[trigger] items[i], query) && !shown(
                items,
                query,
            ).contains(i as usize) ==> shown(items, query).len() == 30 && shown(
                items,
                query,
            ).last() < i,
    decreases items.len(),
{
    lemma_shown(items, query);
    if items.len() > 0 {
        let head = items.drop_last();
        let before = shown(head, query);
        let now = shown(items, query);
        lemma_shown(head, query);
        law_the_first_matches_are_shown(head, query);
        assert forall|j: int, k: int|
            #![trigger now[j], now[k]]
            0 <= j < k < now.len() implies now[j] < now[k] by {
            assert(now[j] == before[j]);
            if k < before.len() {
                assert(now[k] == before[k]);
            }
        }
        assert forall|i: int|
            0 <= i < items.len() && matching(#[trigger] items[i], query) && !now.contains(
                i as usize,
            ) implies now.len() == 30 && now.last() < i by {
            if i < head.len() {
                assert(head[i] == items[i]);
                if before.contains(i as usize) {
                    let k = choose|k: int| 0 <= k < before.len() && before[k] == i as usize;
                    assert(now[k] == before[k]);
                }
                assert(before.len() == 30);
            } else if before.len() < MAX_ROWS {
                assert(now[before.len() as int] == i as usize);
            } else {
                assert(now == before);
                assert(now[29] < head.len());
            }
        }
    }
}

/// An item matches exactly when every word of the query stands in it, in
/// whatever case. So a query of nothing but white space matches everything.
pub proof fn law_every_word_has_to_match(item: Seq<char>, query: Seq<char>)
    ensures
        matching(item, query) <==> forall|i: int|
            0 <= i < words(query).len() ==> occurs(
                lowercase(item),
                lowercase(#[trigger] words(query)[i]),
            ),
        words(query).len() == 0 ==> matching(item, query),
{
    let low = lowered(words(query));
    if matching(item, query) {
        assert forall|i: int| 0 <= i < words(query).len() implies occurs(
            lowercase(item),
            lowercase(#[trigger] words(query)[i]),
        ) by {
            assert(low[i] == lowercase(words(query)[i]));
        }
    }
    if forall|i: int|
        0 <= i < words(query).len() ==> occurs(
            lowercase(item),
            lowercase(#[trigger] words(query)[i]),
        ) {
        assert forall|i: int| 0 <= i < low.len() implies occurs(
            lowercase(item),
            #[trigger] low[i],
        ) by {
            assert(low[i] == lowercase(words(query)[i]));
        }
    }
}

/// Enter answers with the selected row where anything is shown, else with what
/// was typed, and with nothing where nothing was.
pub proof fn law_what_enter_answers(p: PickerModel, query: Seq<char>)
    requires
        p.inv(),
    ensures
        p.visible.len() > 0 ==> choice(p, query) == Some(
            p.items[p.visible[p.selected] as int],
        ),
        p.visible.len() == 0 && query.len() > 0 ==> choice(p, query) == Some(query),
        p.visible.len() == 0 && query.len() == 0 ==> choice(p, query) is None,
{
}

/// What the keys do.
pub proof fn law_what_a_key_does(key: Key)
    ensures
        keyed(key) == KeyAction::Cancel <==> key == Key::Escape,
        keyed(key) == KeyAction::Accept <==> key == Key::Return || key == Key::KeypadEnter,
        keyed(key) == KeyAction::Move(1i32) <==> key == Key::Down || key == Key::Tab,
        keyed(key) == KeyAction::Move(-1i32) <==> key == Key::Up || key == Key::BackTab,
        keyed(key) == KeyAction::Pass <==> key == Key::Other,
{
}

/// The last prompt that is given counts; an option without one at the end says
/// nothing; anything else is refused as it is.
pub proof fn law_the_last_prompt_counts(args: Seq<Seq<char>>, prompt: Seq<char>)
    ensures
        args.len() == 0 ==> parsed(args, prompt) == Ok::<Seq<char>, Seq<char>>(prompt),
        args.len() > 0 && args[0] != "--prompt"@ && args[0] != "--placeholder"@ && args[0]
            != "-p"@ ==> parsed(args, prompt) == Err::<Seq<char>, Seq<char>>(args[0]),
        args.len() == 1 && (args[0] == "--prompt"@ || args[0] == "--placeholder"@ || args[0]
            == "-p"@) ==> parsed(args, prompt) == Ok::<Seq<char>, Seq<char>>(prompt),
        args.len() > 1 && (args[0] == "--prompt"@ || args[0] == "--placeholder"@ || args[0]
            == "-p"@) ==> parsed(args, prompt) == parsed(args.skip(2), args[1]),
{
}

/// An answer is sent once: the first, as it is, and none after it.
pub proof fn law_an_answer_is_sent_once(
    p: PickerModel,
    reply: Option<Seq<char>>,
    a: Answer,
)
    requires
        answers(p, reply, a),
    ensures
        a is Send <==> !p.done,
        a matches Answer::Send(t) ==> text_of(t) == reply,
{
}

} // verus!
