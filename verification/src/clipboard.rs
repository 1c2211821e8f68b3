//! Clipboard history: which copies are kept, and how they are shown.
//!
//! The history lives in memory only, holds text only, and skips what a
//! password manager marks as a secret.

use std::collections::HashMap;
use vstd::prelude::*;
use vstd::string::*;
use vstd::utf8::*;
use crate::text::{
    at_white_space, chars_of, control_code, grouped, is_control_code, is_listed, joined,
    lemma_nothing_empty, lemma_pieces_hold_no_cut, lemma_what_is_left, non_empty, pieces, same,
    split_words, string_of, texts, trim, trim_chars, trimmed, utf8_text, white_space, words,
};

verus! {

/// How many entries are kept.
pub const MAX_ENTRIES: usize = 50;

/// How many entries the panel shows.
pub const VISIBLE_ENTRIES: usize = 10;

/// Anything larger is a file being moved around.
pub const MAX_BYTES: usize = 1_048_576;

/// How many characters a preview has.
pub const PREVIEW_LEN: usize = 60;

/// The mark that password managers put on a secret.
pub const PASSWORD_HINT_MIME: &'static str = "x-kde-passwordManagerHint";

// ── What is read ───────────────────────────────────────────────────────

/// The flavours of text, the preferred first.
pub open spec fn flavours() -> Seq<&'static str> {
    seq![
        "text/plain;charset=utf-8",
        "text/plain;charset=UTF-8",
        "UTF8_STRING",
        "text/plain",
        "STRING",
        "TEXT",
    ]
}

/// The flavours of text, the preferred first.
pub fn text_mimes() -> (r: Vec<&'static str>)
    ensures
        r@ == flavours(),
{
    let r: Vec<&'static str> = vec![
        "text/plain;charset=utf-8",
        "text/plain;charset=UTF-8",
        "UTF8_STRING",
        "text/plain",
        "STRING",
        "TEXT",
    ];
    assert(r@ =~= flavours());
    r
}

/// The first flavour that is offered.
pub open spec fn first_offered(list: Seq<&'static str>, mimes: Seq<Seq<char>>) -> Option<
    &'static str,
>
    decreases list.len(),
{
    if list.len() == 0 {
        None
    } else if mimes.contains(list[0]@) {
        Some(list[0])
    } else {
        first_offered(list.drop_first(), mimes)
    }
}

/// The flavour that is read of an offer, if it has any.
pub fn pick_mime(mimes: &Vec<String>) -> (r: Option<&'static str>)
    ensures
        r == first_offered(flavours(), texts(mimes@)),
{
    let list = text_mimes();
    let mut i: usize = 0;
    assert(list@.skip(0) =~= list@);
    while i < list.len()
        invariant
            i <= list@.len(),
            list@ == flavours(),
            first_offered(list@, texts(mimes@)) == first_offered(
                list@.skip(i as int),
                texts(mimes@),
            ),
        decreases list@.len() - i,
    {
        assert(list@.skip(i as int).drop_first() =~= list@.skip(i + 1));
        if is_listed(mimes, list[i]) {
            return Some(list[i]);
        }
        i += 1;
    }
    None
}

/// White space of ASCII.
pub open spec fn ascii_space(b: u8) -> bool {
    b == 32 || b == 9 || b == 10 || b == 12 || b == 13
}

/// Bytes without the white space they start with.
pub open spec fn skip_space(b: Seq<u8>) -> Seq<u8>
    decreases b.len(),
{
    if b.len() > 0 && ascii_space(b[0]) {
        skip_space(b.drop_first())
    } else {
        b
    }
}

/// Bytes without the white space they end with.
pub open spec fn drop_space(b: Seq<u8>) -> Seq<u8>
    decreases b.len(),
{
    if b.len() > 0 && ascii_space(b.last()) {
        drop_space(b.drop_last())
    } else {
        b
    }
}

/// The word `secret`.
pub open spec fn secret() -> Seq<u8> {
    seq![115u8, 101u8, 99u8, 114u8, 101u8, 116u8]
}

/// Whether a password hint marks a secret.
pub open spec fn marks_secret(hint: Option<Vec<u8>>) -> bool {
    hint is Some && drop_space(skip_space(hint->0@)) == secret()
}

fn is_space(b: u8) -> (r: bool)
    ensures
        r == ascii_space(b),
{
    b == 32 || b == 9 || b == 10 || b == 12 || b == 13
}

/// Whether an offer asks for its password hint to be read first.
pub fn has_password_hint(mimes: &Vec<String>) -> (r: bool)
    ensures
        r == texts(mimes@).contains(PASSWORD_HINT_MIME@),
{
    is_listed(mimes, PASSWORD_HINT_MIME)
}

/// Whether a password hint marks a secret. Its presence alone does not: that
/// would drop ordinary copies made from a password manager.
pub fn is_secret(hint: &Option<Vec<u8>>) -> (r: bool)
    ensures
        r == marks_secret(*hint),
{
    let b = match hint {
        Some(b) => b,
        None => return false,
    };
    let mut lo: usize = 0;
    assert(b@.skip(0) =~= b@);
    while lo < b.len() && is_space(b[lo])
        invariant
            lo <= b@.len(),
            skip_space(b@) == skip_space(b@.skip(lo as int)),
        decreases b@.len() - lo,
    {
        assert(b@.skip(lo as int).drop_first() =~= b@.skip(lo + 1));
        lo += 1;
    }
    let ghost rest = b@.skip(lo as int);
    assert(skip_space(b@) == rest);
    let mut hi: usize = b.len();
    assert(b@.subrange(lo as int, hi as int) =~= rest);
    while hi > lo && is_space(b[hi - 1])
        invariant
            lo <= hi <= b@.len(),
            drop_space(rest) == drop_space(b@.subrange(lo as int, hi as int)),
        decreases hi,
    {
        assert(b@.subrange(lo as int, hi as int).drop_last() =~= b@.subrange(lo as int, hi - 1));
        assert(b@.subrange(lo as int, hi as int).last() == b@[hi - 1]);
        hi -= 1;
    }
    let ghost core = b@.subrange(lo as int, hi as int);
    assert(drop_space(rest) == core) by {
        if core.len() > 0 {
            assert(core.last() == b@[hi - 1]);
        }
    }
    if hi - lo != 6 {
        assert(core.len() != secret().len());
        return false;
    }
    let r = b[lo] == 115 && b[lo + 1] == 101 && b[lo + 2] == 99 && b[lo + 3] == 114 && b[lo + 4]
        == 101 && b[lo + 5] == 116;
    proof {
        assert(core[0] == b@[lo as int] && core[1] == b@[lo + 1] && core[2] == b@[lo + 2]
            && core[3] == b@[lo + 3] && core[4] == b@[lo + 4] && core[5] == b@[lo + 5]);
        if r {
            assert(core =~= secret());
        }
    }
    r
}

/// Whether a copy is worth an entry: text that is not blank, and no larger
/// than what is kept.
pub open spec fn worth_keeping(bytes: Seq<u8>) -> bool {
    0 < bytes.len() <= MAX_BYTES && valid_utf8(bytes) && trimmed(decode_utf8(bytes)).len() > 0
}

/// Whether a selection with these flavours goes into the history, given its
/// password hint and the text as far as they could be read.
pub open spec fn is_filed(
    mimes: Seq<Seq<char>>,
    hint: Option<Vec<u8>>,
    bytes: Option<Vec<u8>>,
) -> bool {
    &&& !(mimes.contains(PASSWORD_HINT_MIME@) && marks_secret(hint))
    &&& first_offered(flavours(), mimes) is Some
    &&& bytes is Some
    &&& worth_keeping(bytes->0@)
}

/// What to read next of a new selection.
#[derive(Debug, Clone, Copy, PartialEq, Eq)]
pub enum NextRead {
    /// The password hint, with [`PASSWORD_HINT_MIME`].
    Hint,
    /// The text in this flavour.
    Text(&'static str),
    Nothing,
}

/// What to read next of a selection with these flavours.
pub open spec fn reading(mimes: Seq<Seq<char>>, asked: bool, hint: Option<Vec<u8>>) -> NextRead {
    if mimes.contains(PASSWORD_HINT_MIME@) && !asked {
        NextRead::Hint
    } else if mimes.contains(PASSWORD_HINT_MIME@) && marks_secret(hint) {
        NextRead::Nothing
    } else {
        match first_offered(flavours(), mimes) {
            Some(mime) => NextRead::Text(mime),
            None => NextRead::Nothing,
        }
    }
}

/// What to read next of a selection: the hint where one is offered and was not
/// asked for yet, then the text, unless the hint marks a secret or there is no
/// text. `hint` is what came of asking for the hint.
pub fn next_read(mimes: &Vec<String>, asked: bool, hint: &Option<Vec<u8>>) -> (r: NextRead)
    ensures
        r == reading(texts(mimes@), asked, *hint),
{
    if has_password_hint(mimes) {
        if !asked {
            return NextRead::Hint;
        }
        if is_secret(hint) {
            return NextRead::Nothing;
        }
    }
    match pick_mime(mimes) {
        Some(mime) => NextRead::Text(mime),
        None => NextRead::Nothing,
    }
}

// ── Preview ────────────────────────────────────────────────────────────

/// A character on a single line.
pub open spec fn in_line(c: char) -> char {
    if control_code(c) {
        ' '
    } else {
        c
    }
}

/// A text on a single line, its white space collapsed.
pub open spec fn single_line(text: Seq<char>) -> Seq<char> {
    joined(words(trimmed(text).map_values(|c: char| in_line(c))), seq![' '])
}

/// A preview: a single line, bounded.
pub open spec fn previewed(text: Seq<char>) -> Seq<char> {
    let line = single_line(text);
    if line.len() <= PREVIEW_LEN {
        line
    } else {
        line.take(PREVIEW_LEN as int).push('…')
    }
}

fn join_words(list: &Vec<Vec<char>>) -> (r: Vec<char>)
    ensures
        r@ == joined(grouped(list@), seq![' ']),
{
    let mut r: Vec<char> = Vec::new();
    let mut i: usize = 0;
    assert(r@ =~= joined(grouped(list@).take(0), seq![' ']));
    while i < list.len()
        invariant
            i <= list@.len(),
            r@ == joined(grouped(list@).take(i as int), seq![' ']),
        decreases list@.len() - i,
    {
        let ghost next = grouped(list@).take(i + 1);
        let ghost start = r@;
        assert(next.drop_last() =~= grouped(list@).take(i as int));
        assert(next.last() == list@[i as int]@);
        if i > 0 {
            r.push(' ');
        }
        let ghost before = r@;
        let w = &list[i];
        let mut k: usize = 0;
        assert(r@ =~= before + w@.take(0));
        while k < w.len()
            invariant
                k <= w@.len(),
                r@ == before + w@.take(k as int),
            decreases w@.len() - k,
        {
            r.push(w[k]);
            assert(w@.take(k + 1) =~= w@.take(k as int).push(w@[k as int]));
            assert(r@ =~= before + w@.take(k + 1));
            k += 1;
        }
        assert(w@.take(w@.len() as int) =~= w@);
        assert(r@ =~= joined(next, seq![' ']));
        i += 1;
    }
    assert(grouped(list@).take(list@.len() as int) =~= grouped(list@));
    r
}

/// A preview: a single line, so that a copy of many lines still takes one row,
/// and bounded by characters.
pub fn preview(text: &str) -> (r: String)
    ensures
        r@ == previewed(text@),
{
    let v = chars_of(text);
    let t = trim_chars(v.as_slice());
    let mut line: Vec<char> = Vec::new();
    let mut i: usize = 0;
    let ghost mapped = t@.map_values(|c: char| in_line(c));
    assert(line@ =~= mapped.take(0));
    while i < t.len()
        invariant
            i <= t@.len(),
            mapped == t@.map_values(|c: char| in_line(c)),
            line@ == mapped.take(i as int),
        decreases t@.len() - i,
    {
        let c: char = if is_control_code(t[i]) {
            ' '
        } else {
            t[i]
        };
        line.push(c);
        assert(mapped[i as int] == c);
        assert(line@ =~= mapped.take(i + 1));
        i += 1;
    }
    assert(line@ =~= mapped);
    let list = split_words(line.as_slice());
    let single = join_words(&list);
    if single.len() <= PREVIEW_LEN {
        return string_of(single.as_slice());
    }
    let mut head: Vec<char> = Vec::new();
    while head.len() < PREVIEW_LEN
        invariant
            head@.len() <= PREVIEW_LEN < single@.len(),
            head@ == single@.take(head@.len() as int),
        decreases PREVIEW_LEN - head@.len(),
    {
        let k: usize = head.len();
        head.push(single[k]);
        assert(single@.take(k + 1) =~= single@.take(k as int).push(single@[k as int]));
    }
    head.push('…');
    string_of(head.as_slice())
}

/// A preview holds at most one character more than its length, for the mark
/// that it was cut.
pub proof fn law_previews_are_bounded(text: Seq<char>)
    ensures
        previewed(text).len() <= PREVIEW_LEN + 1,
        previewed(text).len() == PREVIEW_LEN + 1 ==> previewed(text).last() == '…',
{
}

/// A single line as a preview has it: no control codes, and no white space but
/// single spaces between words.
pub open spec fn clean_line(s: Seq<char>) -> bool {
    &&& forall|i: int| 0 <= i < s.len() ==> !control_code(#[trigger] s[i])
    &&& forall|i: int|
        0 <= i < s.len() && white_space(#[trigger] s[i]) ==> {
            &&& s[i] == ' '
            &&& 0 < i < s.len() - 1
            &&& !white_space(s[i - 1])
            &&& !white_space(s[i + 1])
        }
}

/// A word of a clean line.
pub open spec fn clean_word(w: Seq<char>) -> bool {
    &&& w.len() > 0
    &&& forall|i: int|
        0 <= i < w.len() ==> !white_space(#[trigger] w[i]) && !control_code(w[i])
}

proof fn lemma_joined_is_clean(list: Seq<Seq<char>>)
    requires
        forall|i: int| 0 <= i < list.len() ==> clean_word(#[trigger] list[i]),
    ensures
        clean_line(joined(list, seq![' '])),
        list.len() > 0 ==> joined(list, seq![' ']).len() > 0 && !white_space(
            joined(list, seq![' ']).last(),
        ),
    decreases list.len(),
{
    if list.len() == 1 {
        assert(clean_word(list[0]));
    } else if list.len() > 1 {
        let head = joined(list.drop_last(), seq![' ']);
        let w = list.last();
        assert(clean_word(list[list.len() - 1]));
        lemma_joined_is_clean(list.drop_last());
        let all = head + seq![' '] + w;
        let n = head.len() as int;
        assert(joined(list, seq![' ']) == all);
        assert(all.last() == w.last());
        assert forall|i: int| 0 <= i < all.len() implies !control_code(#[trigger] all[i]) by {
            if i < n {
                assert(all[i] == head[i]);
            } else if i > n {
                assert(all[i] == w[i - n - 1]);
            }
        }
        assert forall|i: int| 0 <= i < all.len() && white_space(#[trigger] all[i]) implies {
            &&& all[i] == ' '
            &&& 0 < i < all.len() - 1
            &&& !white_space(all[i - 1])
            &&& !white_space(all[i + 1])
        } by {
            if i < n {
                assert(all[i] == head[i]);
                assert(all[i - 1] == head[i - 1]);
                assert(all[i + 1] == head[i + 1]);
            } else if i > n {
                assert(all[i] == w[i - n - 1]);
            } else {
                assert(all[i - 1] == head.last());
                assert(all[i + 1] == w[0]);
            }
        }
    }
}

proof fn lemma_single_line_is_clean(text: Seq<char>)
    ensures
        clean_line(single_line(text)),
{
    let line = trimmed(text).map_values(|c: char| in_line(c));
    let all = pieces(line, at_white_space());
    let list = words(line);
    lemma_pieces_hold_no_cut(line, at_white_space());
    lemma_what_is_left(all);
    assert forall|i: int| 0 <= i < list.len() implies clean_word(#[trigger] list[i]) by {
        let w = list[i];
        assert(w == all.filter(non_empty())[i]);
        let k = choose|k: int| 0 <= k < all.len() && all[k] == w;
        assert forall|j: int| 0 <= j < w.len() implies !white_space(#[trigger] w[j])
            && !control_code(w[j]) by {
            let c = all[k][j];
            assert(!at_white_space()(c) && line.contains(c));
            let m = choose|m: int| 0 <= m < line.len() && line[m] == c;
            assert(line[m] == in_line(trimmed(text)[m]));
        }
    }
    lemma_joined_is_clean(list);
}

proof fn lemma_joined_grows(list: Seq<Seq<char>>, c: char)
    requires
        list.len() > 0,
    ensures
        joined(list.update(list.len() - 1, list.last().push(c)), seq![' ']) == joined(
            list,
            seq![' '],
        ).push(c),
{
    let next = list.update(list.len() - 1, list.last().push(c));
    assert(next.drop_last() =~= list.drop_last());
    assert(next.last() == list.last().push(c));
    assert(joined(next, seq![' ']) =~= joined(list, seq![' ']).push(c));
}

/// The start of a clean line is its pieces with spaces between them, and only
/// the last of them may be empty.
proof fn lemma_clean_pieces(s: Seq<char>, k: int)
    requires
        clean_line(s),
        0 <= k <= s.len(),
    ensures
        ({
            let list = pieces(s.take(k), at_white_space());
            &&& list.len() > 0
            &&& joined(list, seq![' ']) == s.take(k)
            &&& forall|i: int| 0 <= i < list.len() - 1 ==> (#[trigger] list[i]).len() > 0
            &&& k > 0 && !white_space(s[k - 1]) ==> list.last().len() > 0
        }),
    decreases k,
{
    let cut = at_white_space();
    if k == 0 {
        assert(s.take(0) =~= Seq::empty());
        assert(joined(pieces(s.take(0), cut), seq![' ']) =~= s.take(0));
    } else {
        lemma_clean_pieces(s, k - 1);
        let before = pieces(s.take(k - 1), cut);
        let list = pieces(s.take(k), cut);
        let c = s[k - 1];
        assert(s.take(k).drop_last() =~= s.take(k - 1));
        assert(s.take(k).last() == c);
        assert(s.take(k) =~= s.take(k - 1).push(c));
        if white_space(c) {
            assert(cut(c));
            assert(list == before.push(Seq::empty()));
            assert(list.drop_last() =~= before);
            assert(!white_space(s[k - 2]));
            assert(joined(list, seq![' ']) =~= s.take(k));
        } else {
            assert(!cut(c));
            lemma_joined_grows(before, c);
            assert(list.last() == before.last().push(c));
        }
    }
}

proof fn lemma_clean_line_stays(s: Seq<char>)
    requires
        clean_line(s),
    ensures
        single_line(s) == s,
{
    let mapped = s.map_values(|c: char| in_line(c));
    if s.len() > 0 {
        assert(!white_space(s[0]));
        assert(!white_space(s[s.len() - 1]));
    }
    assert(trimmed(s) == s);
    assert(mapped =~= s);
    lemma_clean_pieces(s, s.len() as int);
    assert(s.take(s.len() as int) =~= s);
    let list = pieces(s, at_white_space());
    if s.len() > 0 {
        assert forall|i: int| 0 <= i < list.len() implies (#[trigger] list[i]).len() > 0 by {
            if i == list.len() - 1 {
                assert(list[i] == list.last());
            }
        }
        lemma_nothing_empty(list);
    } else {
        let none: Seq<Seq<char>> = seq![Seq::empty()];
        assert(list == none);
        assert(list.filter(non_empty()) =~= Seq::empty()) by {
            reveal(Seq::filter);
            lemma_nothing_empty(list.drop_last());
            assert(!non_empty()(list.last()));
        }
        assert(single_line(s) =~= s);
    }
}

/// A preview of a preview is that preview, cut or not.
pub proof fn law_a_preview_previews_as_itself(text: Seq<char>)
    ensures
        previewed(previewed(text)) == previewed(text),
{
    let line = single_line(text);
    let p = previewed(text);
    lemma_single_line_is_clean(text);
    if line.len() > PREVIEW_LEN {
        let head = line.take(PREVIEW_LEN as int);
        assert(p == head.push('…'));
        assert forall|i: int| 0 <= i < p.len() implies !control_code(#[trigger] p[i]) by {
            if i < PREVIEW_LEN {
                assert(p[i] == line[i]);
            }
        }
        assert forall|i: int| 0 <= i < p.len() && white_space(#[trigger] p[i]) implies {
            &&& p[i] == ' '
            &&& 0 < i < p.len() - 1
            &&& !white_space(p[i - 1])
            &&& !white_space(p[i + 1])
        } by {
            if i < PREVIEW_LEN {
                assert(p[i] == line[i]);
                assert(p[i - 1] == line[i - 1]);
                if i + 1 < PREVIEW_LEN {
                    assert(p[i + 1] == line[i + 1]);
                }
            }
        }
        assert(clean_line(p));
    }
    lemma_clean_line_stays(p);
    if line.len() > PREVIEW_LEN {
        assert(p.take(PREVIEW_LEN as int) =~= line.take(PREVIEW_LEN as int));
    }
}

// ── History ────────────────────────────────────────────────────────────

/// One copy, kept whole so that it can be put back byte for byte.
#[derive(Debug, PartialEq, Eq)]
pub struct Entry {
    pub id: u64,
    pub mime: String,
    pub bytes: Vec<u8>,
    pub preview: String,
}

/// An [`Entry`] as the contracts speak of it.
#[verifier::ext_equal]
pub struct EntryModel {
    pub id: u64,
    pub mime: Seq<char>,
    pub bytes: Seq<u8>,
    pub preview: Seq<char>,
}

impl View for Entry {
    type V = EntryModel;

    open spec fn view(&self) -> EntryModel {
        EntryModel {
            id: self.id,
            mime: self.mime@,
            bytes: self.bytes@,
            preview: self.preview@,
        }
    }
}

/// What a row shows.
#[derive(Debug, PartialEq, Eq)]
pub struct EntryView {
    pub id: u64,
    pub preview: String,
}

/// What an entry serves once it is put back.
#[derive(Debug, PartialEq, Eq)]
pub struct Payload {
    pub mime: String,
    pub bytes: Vec<u8>,
}

/// Entries as the contracts speak of them.
pub open spec fn entries_of(v: Seq<Entry>) -> Seq<EntryModel> {
    v.map_values(|e: Entry| e@)
}

/// The place of the first entry with these bytes, or the length.
pub open spec fn place_of(list: Seq<EntryModel>, bytes: Seq<u8>) -> int
    decreases list.len(),
{
    if list.len() == 0 || list[0].bytes == bytes {
        0
    } else {
        1 + place_of(list.drop_first(), bytes)
    }
}

/// The history with one more copy: one that is there already comes to the
/// front, another is put there, and the oldest leave.
pub open spec fn filed(list: Seq<EntryModel>, e: EntryModel) -> Seq<EntryModel> {
    let at = place_of(list, e.bytes);
    if at < list.len() {
        seq![list[at]] + list.remove(at)
    } else if list.len() < MAX_ENTRIES {
        seq![e] + list
    } else {
        (seq![e] + list).take(MAX_ENTRIES as int)
    }
}

/// The first entry with an id.
pub open spec fn with_id(list: Seq<EntryModel>, id: u64) -> Option<EntryModel>
    decreases list.len(),
{
    if list.len() == 0 {
        None
    } else if list[0].id == id {
        Some(list[0])
    } else {
        with_id(list.drop_first(), id)
    }
}

/// The history, newest first.
#[derive(Debug)]
pub struct History {
    entries: Vec<Entry>,
    next_id: u64,
}

/// A [`History`] as the contracts speak of it.
#[verifier::ext_equal]
pub struct HistoryModel {
    pub entries: Seq<EntryModel>,
    pub next_id: u64,
}

impl View for History {
    type V = HistoryModel;

    closed spec fn view(&self) -> HistoryModel {
        HistoryModel { entries: entries_of(self.entries@), next_id: self.next_id }
    }
}

/// The id after another.
pub open spec fn id_after(id: u64) -> u64 {
    if id == u64::MAX {
        0
    } else {
        (id + 1) as u64
    }
}

/// The entry of a copy.
pub open spec fn entry_for(id: u64, mime: Seq<char>, bytes: Seq<u8>) -> EntryModel {
    EntryModel { id, mime, bytes, preview: previewed(decode_utf8(bytes)) }
}

/// The history after a copy was read.
pub open spec fn after_copy(h: HistoryModel, mime: Seq<char>, bytes: Seq<u8>) -> HistoryModel {
    if worth_keeping(bytes) {
        HistoryModel {
            entries: filed(h.entries, entry_for(h.next_id, mime, bytes)),
            next_id: id_after(h.next_id),
        }
    } else {
        h
    }
}

fn same_bytes(a: &Vec<u8>, b: &Vec<u8>) -> (r: bool)
    ensures
        r == (a@ == b@),
{
    if a.len() != b.len() {
        return false;
    }
    let mut i: usize = 0;
    while i < a.len()
        invariant
            i <= a@.len(),
            a@.len() == b@.len(),
            forall|j: int| 0 <= j < i ==> a@[j] == b@[j],
        decreases a@.len() - i,
    {
        if a[i] != b[i] {
            return false;
        }
        i += 1;
    }
    assert(a@ =~= b@);
    true
}

fn copy_bytes(b: &Vec<u8>) -> (r: Vec<u8>)
    ensures
        r@ == b@,
{
    let mut r: Vec<u8> = Vec::new();
    let mut i: usize = 0;
    while i < b.len()
        invariant
            i <= b@.len(),
            r@ == b@.take(i as int),
        decreases b@.len() - i,
    {
        r.push(b[i]);
        assert(b@.take(i + 1) =~= b@.take(i as int).push(b@[i as int]));
        i += 1;
    }
    assert(b@.take(b@.len() as int) =~= b@);
    r
}

proof fn lemma_place(list: Seq<EntryModel>, bytes: Seq<u8>, i: int)
    requires
        0 <= i <= list.len(),
        forall|j: int| 0 <= j < i ==> (#[trigger] list[j]).bytes != bytes,
        i < list.len() ==> list[i].bytes == bytes,
    ensures
        place_of(list, bytes) == i,
    decreases list.len(),
{
    if i > 0 {
        let rest = list.drop_first();
        assert(list[0].bytes != bytes);
        assert forall|j: int| 0 <= j < i - 1 implies (#[trigger] rest[j]).bytes != bytes by {
            assert(rest[j] == list[j + 1]);
        }
        lemma_place(rest, bytes, i - 1);
    }
}

impl History {
    /// Nothing was copied yet.
    pub fn new() -> (r: History)
        ensures
            r@.entries.len() == 0,
            r@.next_id == 1,
    {
        History { entries: Vec::new(), next_id: 1 }
    }

    /// Takes a copy as it was read; whether it is kept. Re-copying something
    /// is a bump, not a second row.
    pub fn take(&mut self, mime: &str, bytes: Vec<u8>) -> (r: bool)
        ensures
            final(self)@ == after_copy(old(self)@, mime@, bytes@),
            r == worth_keeping(bytes@),
    {
        if bytes.len() == 0 || bytes.len() > MAX_BYTES {
            return false;
        }
        let entry = match utf8_text(bytes.as_slice()) {
            None => return false,
            Some(text) => {
                let t = trim(text);
                proof {
                    reveal_strlit("");
                    if t@.len() == 0 {
                        assert(t@ =~= ""@);
                    }
                }
                if same(t.as_str(), "") {
                    return false;
                }
                Entry {
                    id: self.next_id,
                    mime: mime.to_owned(),
                    preview: preview(text),
                    bytes: copy_bytes(&bytes),
                }
            },
        };
        self.next_id = self.next_id.wrapping_add(1);
        assert(entry@ =~= entry_for(old(self)@.next_id, mime@, bytes@));
        self.file(entry);
        true
    }

    /// Files an entry at the front. A repeat of something that is held brings
    /// what is held to the front instead, as it is.
    pub fn file(&mut self, entry: Entry)
        ensures
            final(self)@ == (HistoryModel {
                entries: filed(old(self)@.entries, entry@),
                ..old(self)@
            }),
    {
        let ghost e = entry@;
        let ghost list = entries_of(self.entries@);
        let mut i: usize = 0;
        while i < self.entries.len() && !same_bytes(&self.entries[i].bytes, &entry.bytes)
            invariant
                i <= self.entries@.len(),
                list == entries_of(self.entries@),
                *self == *old(self),
                e == entry@,
                forall|j: int| 0 <= j < i ==> (#[trigger] list[j]).bytes != e.bytes,
            decreases self.entries@.len() - i,
        {
            assert(list[i as int] == self.entries@[i as int]@);
            i += 1;
        }
        proof {
            if i < list.len() {
                assert(list[i as int] == self.entries@[i as int]@);
            }
            lemma_place(list, e.bytes, i as int);
        }
        if i < self.entries.len() {
            let existing = self.entries.remove(i);
            self.entries.insert(0, existing);
            assert(entries_of(self.entries@) =~= filed(list, e));
        } else {
            self.entries.insert(0, entry);
            assert(entries_of(self.entries@) =~= seq![e] + list);
            self.entries.truncate(MAX_ENTRIES);
            assert(entries_of(self.entries@) =~= filed(list, e));
        }
    }

    /// A new selection was read as [`next_read`] asked for; whether it is kept.
    /// What a password manager marks as a secret is not, nor is what holds no
    /// text, could not be read, or is not worth an entry.
    pub fn copied(
        &mut self,
        mimes: &Vec<String>,
        hint: &Option<Vec<u8>>,
        bytes: Option<Vec<u8>>,
    ) -> (r: bool)
        ensures
            r == is_filed(texts(mimes@), *hint, bytes),
            final(self)@ == after_selection(old(self)@, texts(mimes@), *hint, bytes),
    {
        if has_password_hint(mimes) && is_secret(hint) {
            return false;
        }
        match (pick_mime(mimes), bytes) {
            (Some(mime), Some(bytes)) => self.take(mime, bytes),
            _ => false,
        }
    }

    /// The rows of the panel: the newest entries, newest first.
    pub fn snapshot(&self) -> (r: Vec<EntryView>)
        ensures
            r@.len() == if self@.entries.len() < VISIBLE_ENTRIES {
                self@.entries.len() as int
            } else {
                VISIBLE_ENTRIES as int
            },
            forall|i: int|
                0 <= i < r@.len() ==> {
                    &&& (#[trigger] r@[i]).id == self@.entries[i].id
                    &&& r@[i].preview@ == self@.entries[i].preview
                },
    {
        let mut r: Vec<EntryView> = Vec::new();
        let mut i: usize = 0;
        while i < self.entries.len() && i < VISIBLE_ENTRIES
            invariant
                i <= self.entries@.len(),
                i <= VISIBLE_ENTRIES,
                r@.len() == i,
                forall|j: int|
                    0 <= j < i ==> {
                        &&& (#[trigger] r@[j]).id == self@.entries[j].id
                        &&& r@[j].preview@ == self@.entries[j].preview
                    },
            decreases self.entries@.len() - i,
        {
            let e = &self.entries[i];
            r.push(EntryView { id: e.id, preview: e.preview.clone() });
            assert(self@.entries[i as int] == e@);
            i += 1;
        }
        r
    }

    /// What the entry with an id serves when it is put back. An id that is not
    /// known is from an older snapshot.
    pub fn restore(&self, id: u64) -> (r: Option<Payload>)
        ensures
            match with_id(self@.entries, id) {
                Some(e) => r is Some && r->0.mime@ == e.mime && r->0.bytes@ == e.bytes,
                None => r is None,
            },
    {
        let mut i: usize = 0;
        let ghost list = self@.entries;
        assert(list.skip(0) =~= list);
        while i < self.entries.len()
            invariant
                i <= self.entries@.len(),
                list == entries_of(self.entries@),
                with_id(list, id) == with_id(list.skip(i as int), id),
            decreases self.entries@.len() - i,
        {
            assert(list.skip(i as int).drop_first() =~= list.skip(i + 1));
            assert(list.skip(i as int)[0] == self.entries@[i as int]@);
            let e = &self.entries[i];
            if e.id == id {
                return Some(Payload { mime: e.mime.clone(), bytes: copy_bytes(&e.bytes) });
            }
            i += 1;
        }
        None
    }

    /// Drops everything. Whoever owns the selection keeps it.
    pub fn clear(&mut self)
        ensures
            final(self)@ == (HistoryModel { entries: Seq::empty(), ..old(self)@ }),
    {
        self.entries = Vec::new();
        assert(self@ =~= (HistoryModel { entries: Seq::empty(), ..old(self)@ }));
    }
}

/// The history after a new selection.
pub open spec fn after_selection(
    h: HistoryModel,
    mimes: Seq<Seq<char>>,
    hint: Option<Vec<u8>>,
    bytes: Option<Vec<u8>>,
) -> HistoryModel {
    if is_filed(mimes, hint, bytes) {
        after_copy(h, first_offered(flavours(), mimes)->0@, bytes->0@)
    } else {
        h
    }
}

/// A selection is kept exactly when its text is to be read once its hint was,
/// and the text is there and worth an entry; it is kept in the flavour that was
/// read.
pub proof fn law_what_is_kept_is_what_was_read(
    h: HistoryModel,
    mimes: Seq<Seq<char>>,
    hint: Option<Vec<u8>>,
    bytes: Option<Vec<u8>>,
)
    ensures
        match reading(mimes, true, hint) {
            NextRead::Text(mime) => after_selection(h, mimes, hint, bytes) == match bytes {
                Some(b) => after_copy(h, mime@, b@),
                None => h,
            },
            _ => after_selection(h, mimes, hint, bytes) == h,
        },
{
}

/// A copy that a password manager marks as a secret leaves the history as it
/// was, whatever it holds.
pub proof fn law_secrets_are_never_kept(
    h: HistoryModel,
    mimes: Seq<Seq<char>>,
    hint: Option<Vec<u8>>,
    bytes: Option<Vec<u8>>,
)
    requires
        mimes.contains(PASSWORD_HINT_MIME@),
        marks_secret(hint),
    ensures
        after_selection(h, mimes, hint, bytes) == h,
{
}

/// No copy is kept twice.
pub open spec fn no_repeats(list: Seq<EntryModel>) -> bool {
    forall|i: int, j: int|
        #![trigger list[i], list[j]]
        0 <= i < j < list.len() ==> list[i].bytes != list[j].bytes
}

proof fn lemma_place_found(list: Seq<EntryModel>, bytes: Seq<u8>)
    ensures
        0 <= place_of(list, bytes) <= list.len(),
        place_of(list, bytes) < list.len() ==> list[place_of(list, bytes)].bytes == bytes,
        place_of(list, bytes) == list.len() ==> forall|j: int|
            0 <= j < list.len() ==> (#[trigger] list[j]).bytes != bytes,
    decreases list.len(),
{
    if list.len() > 0 && list[0].bytes != bytes {
        let rest = list.drop_first();
        lemma_place_found(rest, bytes);
        assert forall|j: int|
            0 <= j < list.len() && place_of(list, bytes) == list.len() implies (
        #[trigger] list[j]).bytes != bytes by {
            if j > 0 {
                assert(rest[j - 1] == list[j]);
            }
        }
    }
}

/// Filing an entry: where something with the same bytes is held, that comes to
/// the front as it is and the entry is dropped; else the entry is put in front
/// and the oldest leave. Either way the history stays bounded and free of
/// repeats, with those bytes at its front.
pub proof fn law_filing(list: Seq<EntryModel>, e: EntryModel)
    requires
        list.len() <= MAX_ENTRIES,
        no_repeats(list),
    ensures
        forall|k: int|
            0 <= k < list.len() && (#[trigger] list[k]).bytes == e.bytes ==> filed(list, e)
                == seq![list[k]] + list.remove(k),
        (forall|k: int| 0 <= k < list.len() ==> (#[trigger] list[k]).bytes != e.bytes) ==> filed(
            list,
            e,
        ) == if list.len() < MAX_ENTRIES {
            seq![e] + list
        } else {
            seq![e] + list.drop_last()
        },
        filed(list, e).len() <= MAX_ENTRIES,
        no_repeats(filed(list, e)),
        filed(list, e).len() > 0,
        filed(list, e)[0].bytes == e.bytes,
{
    lemma_place_found(list, e.bytes);
    let at = place_of(list, e.bytes);
    let new = filed(list, e);
    if at < list.len() {
        assert forall|k: int|
            0 <= k < list.len() && (#[trigger] list[k]).bytes == e.bytes implies new == seq![list[k]]
            + list.remove(k) by {
            if k < at {
                assert(list[k].bytes != list[at].bytes);
            } else if at < k {
                assert(list[at].bytes != list[k].bytes);
            }
        }
        assert(list[at].bytes == e.bytes);
        assert forall|i: int, j: int|
            #![trigger new[i], new[j]]
            0 <= i < j < new.len() implies new[i].bytes != new[j].bytes by {
            let from = |k: int|
                if k == 0 {
                    at
                } else if k <= at {
                    k - 1
                } else {
                    k
                };
            assert(new[i] == list[from(i)]);
            assert(new[j] == list[from(j)]);
        }
    } else {
        if list.len() == MAX_ENTRIES {
            assert(new =~= seq![e] + list.drop_last());
        }
        assert forall|i: int, j: int|
            #![trigger new[i], new[j]]
            0 <= i < j < new.len() implies new[i].bytes != new[j].bytes by {
            assert(new[j] == list[j - 1]);
            if i > 0 {
                assert(new[i] == list[i - 1]);
            }
        }
    }
}

/// The history stays bounded and free of repeats, and the newest copy is at
/// its front.
pub proof fn law_the_history_is_bounded_and_has_no_repeats(
    h: HistoryModel,
    mime: Seq<char>,
    bytes: Seq<u8>,
)
    requires
        h.entries.len() <= MAX_ENTRIES,
        no_repeats(h.entries),
    ensures
        after_copy(h, mime, bytes).entries.len() <= MAX_ENTRIES,
        no_repeats(after_copy(h, mime, bytes).entries),
        worth_keeping(bytes) ==> after_copy(h, mime, bytes).entries.len() > 0 && after_copy(
            h,
            mime,
            bytes,
        ).entries[0].bytes == bytes,
{
    law_filing(h.entries, entry_for(h.next_id, mime, bytes));
}

/// What was just copied can be put back byte for byte, under the id that its
/// row shows.
pub proof fn law_a_copy_can_be_put_back(h: HistoryModel, mime: Seq<char>, bytes: Seq<u8>)
    requires
        worth_keeping(bytes),
    ensures
        ({
            let list = after_copy(h, mime, bytes).entries;
            list.len() > 0 && with_id(list, list[0].id) is Some && with_id(
                list,
                list[0].id,
            )->0.bytes == bytes
        }),
{
    lemma_place_found(h.entries, bytes);
    let list = after_copy(h, mime, bytes).entries;
    assert(with_id(list, list[0].id) == Some(list[0]));
}

/// Every entry has an id of its own, below the next one.
pub open spec fn distinct_ids(h: HistoryModel) -> bool {
    &&& forall|i: int, j: int|
        #![trigger h.entries[i], h.entries[j]]
        0 <= i < j < h.entries.len() ==> h.entries[i].id != h.entries[j].id
    &&& forall|i: int| 0 <= i < h.entries.len() ==> (#[trigger] h.entries[i]).id < h.next_id
}

/// Copies keep the ids apart, until the counter wraps.
pub proof fn law_ids_stay_distinct(h: HistoryModel, mime: Seq<char>, bytes: Seq<u8>)
    requires
        distinct_ids(h),
        h.next_id < u64::MAX,
    ensures
        distinct_ids(after_copy(h, mime, bytes)),
{
    if worth_keeping(bytes) {
        let e = entry_for(h.next_id, mime, bytes);
        lemma_place_found(h.entries, bytes);
        let at = place_of(h.entries, bytes);
        let new = filed(h.entries, e);
        let from = |k: int|
            if at == h.entries.len() || k > at {
                k
            } else if k == 0 {
                at
            } else {
                k - 1
            };
        assert forall|i: int, j: int|
            #![trigger new[i], new[j]]
            0 <= i < j < new.len() implies new[i].id != new[j].id by {
            if at < h.entries.len() {
                assert(new[i] == h.entries[from(i)]);
                assert(new[j] == h.entries[from(j)]);
            } else {
                assert(new[j] == h.entries[j - 1]);
                if i > 0 {
                    assert(new[i] == h.entries[i - 1]);
                }
            }
        }
        assert forall|i: int| 0 <= i < new.len() implies (#[trigger] new[i]).id < h.next_id + 1 by {
            if at < h.entries.len() {
                assert(new[i] == h.entries[from(i)]);
            } else if i > 0 {
                assert(new[i] == h.entries[i - 1]);
            }
        }
    }
}

/// Every row can be put back: its id finds its own copy.
pub proof fn law_every_row_can_be_put_back(h: HistoryModel, i: int)
    requires
        distinct_ids(h),
        0 <= i < h.entries.len(),
    ensures
        with_id(h.entries, h.entries[i].id) == Some(h.entries[i]),
{
    lemma_with_id(h.entries, i);
}

proof fn lemma_with_id(list: Seq<EntryModel>, i: int)
    requires
        0 <= i < list.len(),
        forall|j: int| 0 <= j < i ==> (#[trigger] list[j]).id != list[i].id,
    ensures
        with_id(list, list[i].id) == Some(list[i]),
    decreases list.len(),
{
    if i > 0 {
        let rest = list.drop_first();
        assert forall|j: int| 0 <= j < i - 1 implies (#[trigger] rest[j]).id != rest[i - 1].id by {
            assert(rest[j] == list[j + 1]);
        }
        assert(list[0].id != list[i].id);
        lemma_with_id(rest, i - 1);
    }
}

// ── Offers ─────────────────────────────────────────────────────────────

/// The offers that were announced, each with the flavours it has, and the
/// source this client owns while an entry it put back holds the selection.
///
/// Reading its own source back would have this client wait for itself.
pub struct Watcher {
    offers: HashMap<u64, Vec<String>>,
    own: Option<u64>,
}

/// A [`Watcher`] as the contracts speak of it.
#[verifier::ext_equal]
pub struct WatcherModel {
    pub offers: Map<u64, Vec<String>>,
    pub own: Option<u64>,
}

impl View for Watcher {
    type V = WatcherModel;

    closed spec fn view(&self) -> WatcherModel {
        WatcherModel { offers: self.offers@, own: self.own }
    }
}

impl Watcher {
    /// Nothing is offered, nothing is owned.
    pub fn new() -> (r: Watcher)
        ensures
            r@.offers == Map::<u64, Vec<String>>::empty(),
            r@.own is None,
    {
        Watcher { offers: HashMap::new(), own: None }
    }

    /// An offer is announced, before its flavours.
    pub fn announced(&mut self, offer: u64)
        ensures
            final(self)@.own == old(self)@.own,
            final(self)@.offers.dom() == old(self)@.offers.dom().insert(offer),
            final(self)@.offers[offer]@.len() == 0,
            forall|o: u64|
                o != offer && old(self)@.offers.contains_key(o) ==> final(self)@.offers[o]
                    == old(self)@.offers[o],
    {
        broadcast use vstd::std_specs::hash::group_hash_axioms;

        self.offers.insert(offer, Vec::new());
    }

    /// An offer has a flavour; one for an offer that is not known is ignored.
    pub fn offered(&mut self, offer: u64, mime: String)
        ensures
            final(self)@.own == old(self)@.own,
            final(self)@.offers.dom() == old(self)@.offers.dom(),
            old(self)@.offers.contains_key(offer) ==> final(self)@.offers[offer]@
                == old(self)@.offers[offer]@.push(mime),
            forall|o: u64|
                o != offer && old(self)@.offers.contains_key(o) ==> final(self)@.offers[o]
                    == old(self)@.offers[o],
    {
        broadcast use vstd::std_specs::hash::group_hash_axioms;

        if let Some(mimes) = self.offers.remove(&offer) {
            let mut mimes = mimes;
            mimes.push(mime);
            self.offers.insert(offer, mimes);
        }
        assert(self@.offers.dom() =~= old(self)@.offers.dom());
    }

    /// An offer took the selection: the flavours to read it by, unless it is
    /// this client's own or was never announced.
    pub fn selected(&mut self, offer: u64) -> (r: Option<Vec<String>>)
        ensures
            final(self)@ == (WatcherModel {
                offers: old(self)@.offers.remove(offer),
                ..old(self)@
            }),
            r == if old(self)@.own is None && old(self)@.offers.contains_key(offer) {
                Some(old(self)@.offers[offer])
            } else {
                None
            },
    {
        broadcast use vstd::std_specs::hash::group_hash_axioms;

        let mimes = self.offers.remove(&offer);
        assert(self@ =~= (WatcherModel { offers: old(self)@.offers.remove(offer), ..old(self)@ }));
        if self.own.is_some() {
            None
        } else {
            mimes
        }
    }

    /// An offer took the primary selection, which is a gesture, not a copy.
    pub fn primary(&mut self, offer: u64)
        ensures
            final(self)@ == (WatcherModel {
                offers: old(self)@.offers.remove(offer),
                ..old(self)@
            }),
    {
        broadcast use vstd::std_specs::hash::group_hash_axioms;

        self.offers.remove(&offer);
        assert(self@ =~= (WatcherModel { offers: old(self)@.offers.remove(offer), ..old(self)@ }));
    }

    /// An entry was put back as this source: the one it replaces, which is let
    /// go only now, so that the selection never blinks through empty.
    pub fn restored(&mut self, source: u64) -> (r: Option<u64>)
        ensures
            final(self)@ == (WatcherModel { own: Some(source), ..old(self)@ }),
            r == old(self)@.own,
    {
        let before = self.own;
        self.own = Some(source);
        before
    }

    /// Somebody else took the selection from a source of this client.
    pub fn cancelled(&mut self, source: u64)
        ensures
            final(self)@ == (WatcherModel {
                own: if old(self)@.own == Some(source) {
                    None
                } else {
                    old(self)@.own
                },
                ..old(self)@
            }),
    {
        let ours = match self.own {
            Some(s) => s == source,
            None => false,
        };
        if ours {
            self.own = None;
        }
    }
}

/// The flavour that is read is one that is offered, and no flavour before it is;
/// where none of those known is offered, nothing is read.
pub proof fn law_the_preferred_flavour_is_read(
    list: Seq<&'static str>,
    mimes: Seq<Seq<char>>,
    k: int,
)
    ensures
        0 <= k < list.len() && mimes.contains(list[k]@) && (forall|j: int|
            0 <= j < k ==> !mimes.contains((#[trigger] list[j])@)) ==> first_offered(list, mimes)
            == Some(list[k]),
        (forall|j: int| 0 <= j < list.len() ==> !mimes.contains((#[trigger] list[j])@))
            ==> first_offered(list, mimes) is None,
    decreases list.len(),
{
    if list.len() > 0 && !mimes.contains(list[0]@) {
        let rest = list.drop_first();
        assert(forall|j: int| 0 <= j < rest.len() ==> #[trigger] rest[j] == list[j + 1]);
        law_the_preferred_flavour_is_read(rest, mimes, k - 1);
        if 0 < k < list.len() {
            assert(rest[k - 1] == list[k]);
        }
    }
}

/// Text that says its encoding comes before text that does not, and text by its
/// type before text by the names of old.
pub proof fn law_the_flavours_in_order(i: int)
    requires
        0 <= i < 6,
    ensures
        flavours().len() == 6,
        i == 0 ==> flavours()[i] == "text/plain;charset=utf-8",
        i == 1 ==> flavours()[i] == "text/plain;charset=UTF-8",
        i == 2 ==> flavours()[i] == "UTF8_STRING",
        i == 3 ==> flavours()[i] == "text/plain",
        i == 4 ==> flavours()[i] == "STRING",
        i == 5 ==> flavours()[i] == "TEXT",
        MAX_ENTRIES == 50,
        VISIBLE_ENTRIES == 10,
        MAX_BYTES == 1024 * 1024,
        PREVIEW_LEN == 60,
{
}

proof fn lemma_spaces_in_front(space: Seq<u8>, b: Seq<u8>)
    requires
        forall|i: int| 0 <= i < space.len() ==> ascii_space(#[trigger] space[i]),
        b.len() > 0,
        !ascii_space(b[0]),
    ensures
        skip_space(space + b) == b,
    decreases space.len(),
{
    if space.len() > 0 {
        let rest = space.drop_first();
        assert forall|i: int| 0 <= i < rest.len() implies ascii_space(#[trigger] rest[i]) by {
            assert(rest[i] == space[i + 1]);
        }
        lemma_spaces_in_front(rest, b);
        assert((space + b).drop_first() =~= rest + b);
        assert((space + b)[0] == space[0]);
    } else {
        assert(space + b =~= b);
    }
}

proof fn lemma_spaces_behind(b: Seq<u8>, space: Seq<u8>)
    requires
        forall|i: int| 0 <= i < space.len() ==> ascii_space(#[trigger] space[i]),
        b.len() > 0,
        !ascii_space(b.last()),
    ensures
        drop_space(b + space) == b,
    decreases space.len(),
{
    if space.len() > 0 {
        let rest = space.drop_last();
        assert forall|i: int| 0 <= i < rest.len() implies ascii_space(#[trigger] rest[i]) by {
            assert(rest[i] == space[i]);
        }
        lemma_spaces_behind(b, rest);
        assert((b + space).drop_last() =~= b + rest);
        assert((b + space).last() == space[space.len() - 1]);
    } else {
        assert(b + space =~= b);
    }
}

/// A hint marks a secret exactly when it says `secret`, whatever white space
/// stands around it; one that could not be read marks nothing.
pub proof fn law_what_marks_a_secret(hint: Vec<u8>, front: Seq<u8>, word: Seq<u8>, behind: Seq<u8>)
    requires
        hint@ == front + word + behind,
        forall|i: int|
            0 <= i < front.len() ==> #[trigger] front[i] == 32 || front[i] == 9 || front[i] == 10
                || front[i] == 12 || front[i] == 13,
        forall|i: int|
            0 <= i < behind.len() ==> #[trigger] behind[i] == 32 || behind[i] == 9 || behind[i]
                == 10 || behind[i] == 12 || behind[i] == 13,
        word.len() > 0,
        word[0] > 32,
        word.last() > 32,
    ensures
        marks_secret(Some(hint)) <==> word == seq![115u8, 101u8, 99u8, 114u8, 101u8, 116u8],
        !marks_secret(None),
{
    let rest = word + behind;
    assert(front + word + behind =~= front + rest);
    assert(rest[0] == word[0]);
    lemma_spaces_in_front(front, rest);
    lemma_spaces_behind(word, behind);
}

/// What is read of a selection: its hint first, where it offers one; then its
/// text in the preferred flavour, unless the hint marks a secret or no text is
/// offered.
pub proof fn law_what_is_read_of_a_selection(
    mimes: Seq<Seq<char>>,
    asked: bool,
    hint: Option<Vec<u8>>,
)
    ensures
        ({
            let hinted = mimes.contains("x-kde-passwordManagerHint"@);
            let r = reading(mimes, asked, hint);
            &&& hinted && !asked ==> r == NextRead::Hint
            &&& hinted && asked && marks_secret(hint) ==> r == NextRead::Nothing
            &&& !hinted || (asked && !marks_secret(hint)) ==> r == match first_offered(
                flavours(),
                mimes,
            ) {
                Some(mime) => NextRead::Text(mime),
                None => NextRead::Nothing,
            }
        }),
{
}

/// What is worth an entry: text of at most a mebibyte that is not blank. It
/// becomes the newest entry, under an id of its own, in its flavour and with its
/// preview; anything else changes nothing.
pub proof fn law_what_becomes_of_a_copy(h: HistoryModel, mime: Seq<char>, bytes: Seq<u8>)
    ensures
        ({
            let worth = {
                &&& bytes.len() <= 1_048_576
                &&& valid_utf8(bytes)
                &&& trimmed(decode_utf8(bytes)).len() > 0
                &&& bytes.len() > 0
            };
            let after = after_copy(h, mime, bytes);
            &&& worth_keeping(bytes) <==> worth
            &&& !worth ==> after == h
            &&& worth && h.next_id < u64::MAX ==> after.next_id == h.next_id + 1
            &&& worth && (forall|k: int|
                0 <= k < h.entries.len() ==> (#[trigger] h.entries[k]).bytes != bytes) ==> {
                let e = after.entries[0];
                &&& e.id == h.next_id
                &&& e.mime == mime
                &&& e.bytes == bytes
                &&& e.preview == previewed(decode_utf8(bytes))
            }
        }),
{
    lemma_place_found(h.entries, bytes);
    if place_of(h.entries, bytes) < h.entries.len() {
        assert(h.entries[place_of(h.entries, bytes)].bytes == bytes);
    }
}

/// A selection is kept exactly when it is no marked secret, offers text that
/// could be read, and that text is worth an entry.
pub proof fn law_which_selections_are_kept(
    h: HistoryModel,
    mimes: Seq<Seq<char>>,
    hint: Option<Vec<u8>>,
    bytes: Option<Vec<u8>>,
)
    ensures
        ({
            let secret = mimes.contains("x-kde-passwordManagerHint"@) && marks_secret(hint);
            let mime = first_offered(flavours(), mimes);
            &&& is_filed(mimes, hint, bytes) <==> !secret && mime is Some && bytes is Some
                && worth_keeping(bytes->0@)
            &&& is_filed(mimes, hint, bytes) ==> after_selection(h, mimes, hint, bytes)
                == after_copy(h, mime->0@, bytes->0@)
            &&& !is_filed(mimes, hint, bytes) ==> after_selection(h, mimes, hint, bytes) == h
        }),
{
}

/// An id that no entry has finds nothing.
pub proof fn law_an_unknown_id_finds_nothing(list: Seq<EntryModel>, id: u64)
    requires
        forall|i: int| 0 <= i < list.len() ==> (#[trigger] list[i]).id != id,
    ensures
        with_id(list, id) is None,
    decreases list.len(),
{
    if list.len() > 0 {
        let rest = list.drop_first();
        assert forall|i: int| 0 <= i < rest.len() implies (#[trigger] rest[i]).id != id by {
            assert(rest[i] == list[i + 1]);
        }
        assert(list[0].id != id);
        law_an_unknown_id_finds_nothing(rest, id);
    }
}

proof fn lemma_pieces_grow(head: Seq<char>, w: Seq<char>)
    requires
        forall|i: int| 0 <= i < w.len() ==> !white_space(#[trigger] w[i]),
    ensures
        pieces(head + seq![' '] + w, at_white_space()) == pieces(head, at_white_space()).push(w),
        head.len() == 0 ==> pieces(head + w, at_white_space()) == seq![w],
    decreases w.len(),
{
    let cut = at_white_space();
    let all = head + seq![' '] + w;
    if w.len() == 0 {
        assert(all.drop_last() =~= head);
        assert(all.last() == ' ');
        assert(cut(' '));
        assert(w =~= Seq::empty());
        if head.len() == 0 {
            assert(head + w =~= Seq::empty());
            assert(pieces(head + w, cut) =~= seq![w]);
        }
    } else {
        let rest = w.drop_last();
        assert forall|i: int| 0 <= i < rest.len() implies !white_space(#[trigger] rest[i]) by {
            assert(rest[i] == w[i]);
        }
        lemma_pieces_grow(head, rest);
        assert(!white_space(w[w.len() - 1]));
        assert(!cut(w.last()));
        assert(all.drop_last() =~= head + seq![' '] + rest);
        assert(all.last() == w.last());
        let before = pieces(head, cut).push(rest);
        assert(before.update(before.len() - 1, rest.push(w.last())) =~= pieces(head, cut).push(w))
            by {
            assert(rest.push(w.last()) =~= w);
        }
        if head.len() == 0 {
            assert((head + w).drop_last() =~= head + rest);
            assert((head + w).last() == w.last());
            assert(seq![rest].update(0, rest.push(w.last())) =~= seq![w]) by {
                assert(rest.push(w.last()) =~= w);
            }
        }
    }
}

proof fn lemma_words_of_joined(list: Seq<Seq<char>>)
    requires
        forall|i: int| 0 <= i < list.len() ==> clean_word(#[trigger] list[i]),
    ensures
        list.len() > 0 ==> pieces(joined(list, seq![' ']), at_white_space()) == list,
        words(joined(list, seq![' '])) == list,
    decreases list.len(),
{
    if list.len() == 0 {
        let none: Seq<Seq<char>> = seq![Seq::empty()];
        assert(pieces(Seq::empty(), at_white_space()) == none);
        reveal(Seq::filter);
        lemma_nothing_empty(none.drop_last());
        assert(!non_empty()(none.last()));
        assert(words(Seq::empty()) =~= list);
    } else {
        assert(clean_word(list[list.len() - 1]));
        let w = list.last();
        let head = list.drop_last();
        assert forall|i: int| 0 <= i < head.len() implies clean_word(#[trigger] head[i]) by {
            assert(clean_word(list[i]));
        }
        lemma_words_of_joined(head);
        if head.len() == 0 {
            lemma_pieces_grow(Seq::empty(), w);
            assert(Seq::<char>::empty() + w =~= w);
            assert(list =~= seq![w]);
        } else {
            lemma_pieces_grow(joined(head, seq![' ']), w);
            assert(head.push(w) =~= list);
        }
        assert forall|i: int| 0 <= i < list.len() implies (#[trigger] list[i]).len() > 0 by {
            assert(clean_word(list[i]));
        }
        lemma_nothing_empty(list);
    }
}

/// The line that a preview is made of has the words of the text and no others,
/// control codes counting as spaces, with one space between them; it is shown
/// whole up to sixty characters, and else by its first sixty and a mark.
pub proof fn law_a_preview_keeps_the_words(text: Seq<char>)
    ensures
        ({
            let plain = trimmed(text).map_values(
                |c: char|
                    if control_code(c) {
                        ' '
                    } else {
                        c
                    },
            );
            let line = single_line(text);
            &&& words(line) == words(plain)
            &&& clean_line(line)
            &&& line.len() <= 60 ==> previewed(text) == line
            &&& line.len() > 60 ==> previewed(text) == line.take(60).push('…')
        }),
{
    let plain = trimmed(text).map_values(
        |c: char|
            if control_code(c) {
                ' '
            } else {
                c
            },
    );
    let line = trimmed(text).map_values(|c: char| in_line(c));
    assert(plain =~= line);
    lemma_single_line_is_clean(text);
    let all = pieces(line, at_white_space());
    let list = words(line);
    lemma_pieces_hold_no_cut(line, at_white_space());
    lemma_what_is_left(all);
    assert forall|i: int| 0 <= i < list.len() implies clean_word(#[trigger] list[i]) by {
        let w = list[i];
        assert(w == all.filter(non_empty())[i]);
        let k = choose|k: int| 0 <= k < all.len() && all[k] == w;
        assert forall|j: int| 0 <= j < w.len() implies !white_space(#[trigger] w[j])
            && !control_code(w[j]) by {
            let c = all[k][j];
            assert(!at_white_space()(c) && line.contains(c));
            let m = choose|m: int| 0 <= m < line.len() && line[m] == c;
            assert(line[m] == in_line(trimmed(text)[m]));
        }
    }
    lemma_words_of_joined(list);
}

} // verus!
