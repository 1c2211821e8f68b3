//! The read layer: the prose behind a bay of the board.

use vstd::prelude::*;
use vstd::string::*;
use crate::bar::board::session_age;
use crate::bar::workspaces::{switch_command, switching};
use crate::task_state::{age_of, Activity, SessionState, TaskState, SECOND};
use crate::text::{
    at_char, chars_of, concat2, concat3, decimal, decimal_of, decimal_signed, grouped,
    law_numbers_read_back, law_only_digits_make_a_number, law_the_first_piece_ends_at_the_separator,
    lemma_decimal_digits, lemma_pieces_non_empty, parse_signed, pieces, push_decimal, signed_number,
    split_at_char, text_of,
};

verus! {

/// The number a workspace name starts with, up to its first colon; -1 without
/// one.
pub open spec fn leading_number(name: Seq<char>) -> i32 {
    match signed_number(pieces(name, at_char(':'))[0]) {
        Some(n) => n,
        None => -1i32,
    }
}

/// The number a workspace name starts with, up to its first colon; -1 without
/// one.
pub fn number_of(name: &str) -> (r: i32)
    ensures
        r == leading_number(name@),
{
    let v = chars_of(name);
    let parts = split_at_char(v.as_slice(), ':');
    proof {
        lemma_pieces_non_empty(v@, at_char(':'));
    }
    assert(grouped(parts@)[0] == parts@[0]@);
    match parse_signed(parts[0].as_slice()) {
        Some(n) => n,
        None => -1,
    }
}

/// The command that focuses a session's workspace: the same target as the
/// workspace buttons have, so numbered workspaces switch by number.
pub fn focus_command(name: &str) -> (r: String)
    ensures
        r@ == switching(leading_number(name@), name@),
{
    switch_command(number_of(name), name)
}

/// An age as prose, in whole minutes: `<1m`, `12m`, `9h`, `1h 5m`.
pub open spec fn age_prose(age: u64) -> Seq<char> {
    let mins = age as int / SECOND as int / 60;
    if mins == 0 {
        "<1m"@
    } else if mins < 60 {
        decimal(mins as nat) + "m"@
    } else if mins % 60 == 0 {
        decimal((mins / 60) as nat) + "h"@
    } else {
        decimal((mins / 60) as nat) + "h "@ + decimal((mins % 60) as nat) + "m"@
    }
}

/// An age as prose; the chip of a bay keeps its terser form.
pub fn fmt_age(age: u64) -> (r: String)
    ensures
        r@ == age_prose(age),
{
    let mins: u64 = age / SECOND / 60;
    if mins == 0 {
        return "<1m".to_owned();
    }
    let mut s = String::new();
    if mins < 60 {
        push_decimal(&mut s, mins);
        s.append("m");
    } else {
        push_decimal(&mut s, mins / 60);
        if mins % 60 == 0 {
            s.append("h");
        } else {
            s.append("h ");
            push_decimal(&mut s, mins % 60);
            s.append("m");
        }
    }
    assert(s@ =~= age_prose(age));
    s
}

/// A session's age; `~` marks one that straddles the last suspend.
pub open spec fn age_words(s: SessionState, now: u64, skew: Option<u64>) -> Seq<char> {
    let approximate = s.status_mtime is Some && skew is Some && s.status_mtime->0 < skew->0;
    let age = age_prose(age_of(s.status_mtime, now));
    if approximate {
        "~"@ + age
    } else {
        age
    }
}

/// A session's age. Its last write is wall-clock time, so where the machine
/// slept since (`skew` is when it woke) only an approximate reading is honest.
pub fn age_text(s: &SessionState, now: u64, skew: Option<u64>) -> (r: String)
    ensures
        r@ == age_words(*s, now, skew),
{
    let age = fmt_age(session_age(s, now));
    let approximate = match (s.status_mtime, skew) {
        (Some(m), Some(b)) => m < b,
        _ => false,
    };
    if approximate {
        concat2("~", age.as_str())
    } else {
        age
    }
}

/// What a session does, and since when. A stale write is not dated.
pub open spec fn activity_words(s: SessionState, now: u64, skew: Option<u64>) -> Seq<char> {
    match s.activity {
        Activity::Working => "working "@ + age_words(s, now, skew),
        Activity::Blocked => "needs permission "@ + age_words(s, now, skew),
        Activity::Waiting => "waiting "@ + age_words(s, now, skew),
        Activity::Stopped => "stopped "@ + age_words(s, now, skew),
        Activity::Stale => "status unknown"@,
    }
}

/// The state line of a session.
pub open spec fn state_line(s: SessionState, now: u64, skew: Option<u64>) -> Seq<char> {
    match s.progress {
        Some(p) => activity_words(s, now, skew) + " · "@ + p.raw@,
        None => activity_words(s, now, skew),
    }
}

/// The state line of a session: activity, age, and its progress as it wrote
/// it.
pub fn meta_line(s: &SessionState, now: u64, skew: Option<u64>) -> (r: String)
    ensures
        r@ == state_line(*s, now, skew),
{
    let state = match s.activity {
        Activity::Working => concat2("working ", age_text(s, now, skew).as_str()),
        Activity::Blocked => concat2("needs permission ", age_text(s, now, skew).as_str()),
        Activity::Waiting => concat2("waiting ", age_text(s, now, skew).as_str()),
        Activity::Stopped => concat2("stopped ", age_text(s, now, skew).as_str()),
        Activity::Stale => "status unknown".to_owned(),
    };
    match &s.progress {
        Some(p) => concat3(state.as_str(), " · ", p.raw.as_str()),
        None => state,
    }
}

/// Whether a session's last message is its own. Process numbers come back
/// around: a message written before its process started belongs to whoever
/// held the number before. An unknown start leaves it trusted.
pub fn is_own_message(written: u64, start: Option<u64>) -> (r: bool)
    ensures
        r == !(start is Some && written < start->0),
{
    match start {
        Some(start) => written >= start,
        None => true,
    }
}

/// One session in the popover of its task.
#[derive(Debug, PartialEq, Eq)]
pub struct Row {
    pub desc: String,
    pub meta: String,
    /// What activating the row runs.
    pub command: String,
}

/// What the popover of a task shows.
#[derive(Debug, PartialEq, Eq)]
pub struct Section {
    pub title: String,
    /// Shown in place of rows where there is no session.
    pub empty: Option<String>,
    pub rows: Vec<Row>,
}

/// The title of task `n`.
pub open spec fn section_title(n: u8, manual: Option<String>) -> Seq<char> {
    match manual {
        Some(m) => "TASK "@ + decimal(n as nat) + " · "@ + m@,
        None => "TASK "@ + decimal(n as nat),
    }
}

/// A row is that of a session.
pub open spec fn is_row_of(row: Row, s: SessionState, now: u64, skew: Option<u64>) -> bool {
    &&& row.desc@ == s.desc@
    &&& row.meta@ == state_line(s, now, skew)
    &&& row.command@ == switching(leading_number(s.workspace@), s.workspace@)
}

/// The popover of task `n`: a row for each session, in order.
pub fn task_section(n: u8, task: &TaskState, now: u64, skew: Option<u64>) -> (r: Section)
    ensures
        r.title@ == section_title(n, task.manual),
        text_of(r.empty) == if task.sessions@.len() == 0 {
            Some("No session"@)
        } else {
            None
        },
        r.rows@.len() == task.sessions@.len(),
        forall|i: int|
            0 <= i < r.rows@.len() ==> is_row_of(#[trigger] r.rows@[i], task.sessions@[i], now, skew),
{
    let number = decimal_of(n as u64);
    let head = concat2("TASK ", number.as_str());
    let title = match &task.manual {
        Some(manual) => concat3(head.as_str(), " · ", manual.as_str()),
        None => head,
    };
    let mut rows: Vec<Row> = Vec::new();
    let mut i: usize = 0;
    while i < task.sessions.len()
        invariant
            i <= task.sessions@.len(),
            rows@.len() == i,
            forall|j: int|
                0 <= j < i ==> is_row_of(#[trigger] rows@[j], task.sessions@[j], now, skew),
        decreases task.sessions@.len() - i,
    {
        let s = &task.sessions[i];
        rows.push(
            Row {
                desc: s.desc.clone(),
                meta: meta_line(s, now, skew),
                command: focus_command(s.workspace.as_str()),
            },
        );
        i += 1;
    }
    let empty = if task.sessions.len() == 0 {
        Some("No session".to_owned())
    } else {
        None
    };
    Section { title, empty, rows }
}

/// An age is marked as approximate only where a suspend lies between the last
/// write and now.
pub proof fn law_clean_ages_are_exact(s: SessionState, now: u64, skew: Option<u64>)
    requires
        skew is Some && s.status_mtime is Some ==> skew->0 <= s.status_mtime->0,
    ensures
        age_words(s, now, skew) == age_prose(age_of(s.status_mtime, now)),
{
}

/// A name that starts with a number, alone or before a colon, is led by it; one
/// that starts otherwise has the number -1.
pub proof fn law_a_number_leads_the_name(n: i32, rest: Seq<char>, name: Seq<char>)
    ensures
        leading_number(decimal_signed(n as int)) == n,
        leading_number(decimal_signed(n as int) + seq![':'] + rest) == n,
        name.len() > 0 && name[0] != '-' && name[0] != '+' && (name[0] < '0' || name[0] > '9')
            ==> leading_number(name) == -1,
        leading_number(Seq::empty()) == -1,
{
    let d = decimal_signed(n as int);
    lemma_decimal_digits(
        if n < 0 {
            (-n) as nat
        } else {
            n as nat
        },
    );
    assert(forall|j: int| 0 <= j < d.len() ==> #[trigger] d[j] != ':');
    law_the_first_piece_ends_at_the_separator(d, rest, ':');
    law_numbers_read_back(n as int);
    lemma_first_piece(name);
    if name.len() > 0 && name[0] != '-' && name[0] != '+' && (name[0] < '0' || name[0] > '9') {
        let head = pieces(name, at_char(':'))[0];
        if head.len() > 0 {
            law_only_digits_make_a_number(head, 0);
        }
    }
    assert(pieces(Seq::empty(), at_char(':'))[0] =~= Seq::empty());
}

proof fn lemma_first_piece(name: Seq<char>)
    ensures
        pieces(name, at_char(':')).len() > 0,
        pieces(name, at_char(':'))[0].len() > 0 ==> name.len() > 0 && pieces(
            name,
            at_char(':'),
        )[0][0] == name[0],
        pieces(name, at_char(':'))[0].len() == 0 && name.len() > 0 ==> pieces(
            name,
            at_char(':'),
        ).len() > 1,
    decreases name.len(),
{
    if name.len() > 0 {
        lemma_first_piece(name.drop_last());
        lemma_pieces_non_empty(name.drop_last(), at_char(':'));
    }
}

/// An age is told in whole minutes: nothing finer, hours apart from 60 minutes
/// on, and whole hours without minutes.
pub proof fn law_ages_are_told_in_minutes(hours: u64, mins: u64, rest: u64)
    requires
        hours <= 1_000_000,
        mins < 60,
        rest < 60_000_000_000,
    ensures
        ({
            let age = (hours * 3_600_000_000_000 + mins * 60_000_000_000 + rest) as u64;
            let told = age_prose(age);
            &&& hours == 0 && mins == 0 ==> told == "<1m"@
            &&& hours == 0 && mins > 0 ==> told == decimal(mins as nat) + "m"@
            &&& hours > 0 && mins == 0 ==> told == decimal(hours as nat) + "h"@
            &&& hours > 0 && mins > 0 ==> told == decimal(hours as nat) + "h "@ + decimal(
                mins as nat,
            ) + "m"@
        }),
{
    let age = (hours * 3_600_000_000_000 + mins * 60_000_000_000 + rest) as u64;
    assert(age == hours * 3_600_000_000_000 + mins * 60_000_000_000 + rest);
    assert(age as int / 1_000_000_000 / 60 == hours * 60 + mins);
    assert((hours * 60 + mins) / 60 == hours && (hours * 60 + mins) % 60 == mins);
}

/// A write from before the machine last woke has an approximate age; any other
/// has an exact one.
pub proof fn law_a_suspend_blurs_the_age(s: SessionState, now: u64, skew: Option<u64>)
    ensures
        s.status_mtime is Some && skew is Some && s.status_mtime->0 < skew->0 ==> age_words(
            s,
            now,
            skew,
        ) == "~"@ + age_words(s, now, None),
        s.status_mtime is None || skew is None || s.status_mtime->0 >= skew->0 ==> age_words(
            s,
            now,
            skew,
        ) == age_words(s, now, None),
{
}

/// The state line says what the session does and for how long, but of a stale
/// one only that nothing is known; its progress stands behind, as it wrote it.
pub proof fn law_what_a_state_line_says(s: SessionState, now: u64, skew: Option<u64>)
    ensures
        ({
            let age = age_words(s, now, skew);
            let words = match s.activity {
                Activity::Working => "working "@ + age,
                Activity::Blocked => "needs permission "@ + age,
                Activity::Waiting => "waiting "@ + age,
                Activity::Stopped => "stopped "@ + age,
                Activity::Stale => "status unknown"@,
            };
            &&& s.progress is None ==> state_line(s, now, skew) == words
            &&& s.progress is Some ==> state_line(s, now, skew) == words + " · "@
                + s.progress->0.raw@
        }),
{
}

/// A section is titled by the number of its task, and by the name its owner
/// gave it where there is one.
pub proof fn law_how_a_section_is_titled(n: u8, name: String)
    ensures
        section_title(n, None) == "TASK "@ + decimal(n as nat),
        section_title(n, Some(name)) == section_title(n, None) + " · "@ + name@,
{
}

/// A row tells of its own session: its words, its state line, and the command
/// that goes to its workspace, by number where the name is led by one and else
/// by name.
pub proof fn law_a_row_goes_to_its_session(row: Row, s: SessionState, now: u64, skew: Option<u64>)
    requires
        is_row_of(row, s, now, skew),
    ensures
        row.desc@ == s.desc@,
        row.meta@ == state_line(s, now, skew),
        row.command@ == switching(leading_number(s.workspace@), s.workspace@),
{
}

} // verus!
