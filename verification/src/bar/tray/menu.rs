//! Tray menus: a layout as sections of entries, and what a new layout takes.
//!
//! A layout's structure (ids, labels, separators, submenus, icons) is captured
//! in a signature. A changed signature rebuilds the menu; anything else
//! (enabled, toggle state) updates the entries in place, so chatty menus do
//! not flicker.

use vstd::prelude::*;
use vstd::string::*;
use crate::text::{
    chars_of, decimal, decimal_of, decimal_signed, decimal_signed_of, lemma_decimal_digits,
    lemma_decimal_signed_tells_apart, lemma_decimal_tells_apart, same, text_of,
};

verus! {

#[derive(Debug, Clone, Copy, PartialEq, Eq, Structural)]
pub enum MenuType {
    Separator,
    Standard,
}

#[derive(Debug, Clone, Copy, PartialEq, Eq, Structural)]
pub enum ToggleType {
    Checkmark,
    Radio,
    CannotBeToggled,
}

#[derive(Debug, Clone, Copy, PartialEq, Eq, Structural)]
pub enum ToggleState {
    On,
    Off,
    Indeterminate,
}

/// One item of a layout.
#[derive(Debug, PartialEq, Eq)]
pub struct MenuItem {
    pub id: i32,
    pub menu_type: MenuType,
    pub label: Option<String>,
    pub enabled: bool,
    pub visible: bool,
    pub icon_name: Option<String>,
    /// A picture in PNG.
    pub icon_data: Option<Vec<u8>>,
    pub toggle_type: ToggleType,
    pub toggle_state: ToggleState,
    /// `submenu` where the item opens one.
    pub children_display: Option<String>,
    pub submenu: Vec<MenuItem>,
}

/// A string that may be missing, as text.
pub open spec fn or_empty(s: Option<String>) -> Seq<char> {
    match s {
        Some(s) => s@,
        None => Seq::empty(),
    }
}

/// The bytes of an item's picture.
pub open spec fn picture_bytes(item: MenuItem) -> Seq<u8> {
    match item.icon_data {
        Some(d) => d@,
        None => Seq::empty(),
    }
}

/// Whether an item opens a submenu.
pub open spec fn opens(item: MenuItem) -> bool {
    item.children_display is Some && item.children_display->0@ == "submenu"@
}

/// What a menu is built from of a visible item.
#[verifier::ext_equal]
pub struct Node {
    pub id: i32,
    pub menu_type: MenuType,
    pub toggle_type: ToggleType,
    pub label: Seq<char>,
    pub icon_name: Seq<char>,
    pub picture: Seq<u8>,
    /// What the submenu is built from, where the item opens one.
    pub below: Option<Seq<Node>>,
}

/// What a menu is built from of an item.
pub open spec fn node_of(item: MenuItem) -> Node
    decreases item, 1nat,
{
    Node {
        id: item.id,
        menu_type: item.menu_type,
        toggle_type: item.toggle_type,
        label: or_empty(item.label),
        icon_name: or_empty(item.icon_name),
        picture: picture_bytes(item),
        below: if opens(item) {
            Some(structure(item.submenu@))
        } else {
            None
        },
    }
}

/// The structure of a layout: what its visible items are built from, in their
/// order.
pub open spec fn structure(items: Seq<MenuItem>) -> Seq<Node>
    decreases items, 0nat,
{
    if items.len() == 0 {
        Seq::empty()
    } else {
        structure(items.drop_last()) + (if items.last().visible {
            seq![node_of(items.last())]
        } else {
            Seq::empty()
        })
    }
}

/// The letter of a kind of item.
pub open spec fn type_mark(t: MenuType) -> char {
    match t {
        MenuType::Separator => '-',
        MenuType::Standard => '+',
    }
}

/// The letter of a kind of toggle.
pub open spec fn toggle_mark(t: ToggleType) -> char {
    match t {
        ToggleType::Checkmark => 'c',
        ToggleType::Radio => 'r',
        ToggleType::CannotBeToggled => 'n',
    }
}

/// A text behind its length.
pub open spec fn counted(t: Seq<char>) -> Seq<char> {
    decimal(t.len()) + seq![':'] + t
}

/// A character for each byte.
pub open spec fn byte_text(b: Seq<u8>) -> Seq<char> {
    Seq::new(b.len(), |i: int| b[i] as char)
}

/// What a signature says of an item before its submenu.
pub open spec fn head_text(n: Node) -> Seq<char> {
    seq!['#'] + (decimal_signed(n.id as int) + seq![':'] + (seq![
        type_mark(n.menu_type),
        toggle_mark(n.toggle_type),
    ] + (counted(n.label) + (counted(n.icon_name) + counted(byte_text(n.picture))))))
}

/// What a signature says of an item.
pub open spec fn node_text(n: Node) -> Seq<char>
    decreases n, 1nat,
{
    head_text(n) + (match n.below {
        Some(sub) => seq!['['] + (written(sub) + seq![']']),
        None => seq![';'],
    })
}

/// The text of a structure.
pub open spec fn written(nodes: Seq<Node>) -> Seq<char>
    decreases nodes, 0nat,
{
    if nodes.len() == 0 {
        Seq::empty()
    } else {
        written(nodes.drop_last()) + node_text(nodes.last())
    }
}

/// The signature of a layout: all that forces a rebuild when it changes.
pub open spec fn signed(items: Seq<MenuItem>) -> Seq<char> {
    written(structure(items))
}

fn opens_submenu(item: &MenuItem) -> (r: bool)
    ensures
        r == opens(*item),
{
    match &item.children_display {
        Some(d) => same(d.as_str(), "submenu"),
        None => false,
    }
}

fn push_counted(s: &mut String, t: &Option<String>)
    ensures
        final(s)@ == old(s)@ + counted(or_empty(*t)),
{
    match t {
        Some(t) => {
            let chars = chars_of(t.as_str());
            let len = decimal_of(chars.len() as u64);
            s.append(len.as_str());
            s.push(':');
            s.append(t.as_str());
        },
        None => {
            let len = decimal_of(0);
            s.append(len.as_str());
            s.push(':');
        },
    }
    assert(s@ =~= old(s)@ + counted(or_empty(*t)));
}

fn push_picture(s: &mut String, item: &MenuItem)
    ensures
        final(s)@ == old(s)@ + counted(byte_text(picture_bytes(*item))),
{
    let ghost all = byte_text(picture_bytes(*item));
    let n: usize = match &item.icon_data {
        Some(d) => d.len(),
        None => 0,
    };
    let len = decimal_of(n as u64);
    s.append(len.as_str());
    s.push(':');
    let ghost before = s@;
    assert(before =~= old(s)@ + (decimal(all.len()) + seq![':']));
    if let Some(d) = &item.icon_data {
        let mut i: usize = 0;
        assert(s@ =~= before + all.take(0));
        while i < d.len()
            invariant
                i <= d@.len(),
                all == byte_text(d@),
                s@ == before + all.take(i as int),
            decreases d@.len() - i,
        {
            s.push(d[i] as char);
            assert(all.take(i + 1) =~= all.take(i as int).push(all[i as int]));
            assert(s@ =~= before + all.take(i + 1));
            i += 1;
        }
        assert(all.take(all.len() as int) =~= all);
    }
    assert(s@ =~= old(s)@ + counted(all));
}

proof fn lemma_one_after_another(
    o: Seq<char>,
    a: Seq<char>,
    b: Seq<char>,
    c: Seq<char>,
    d: Seq<char>,
    e: Seq<char>,
)
    ensures
        o + a + b + c + d + e == o + (a + (b + (c + (d + e)))),
{
    assert(o + a + b + c + d + e =~= o + (a + (b + (c + (d + e)))));
}

fn push_marks(s: &mut String, item: &MenuItem)
    ensures
        final(s)@ == old(s)@ + seq!['#'] + (decimal_signed(item.id as int) + seq![':']) + seq![
            type_mark(item.menu_type),
            toggle_mark(item.toggle_type),
        ],
{
    s.push('#');
    let id = decimal_signed_of(item.id as i64);
    s.append(id.as_str());
    s.push(':');
    s.push(
        match item.menu_type {
            MenuType::Separator => '-',
            MenuType::Standard => '+',
        },
    );
    s.push(
        match item.toggle_type {
            ToggleType::Checkmark => 'c',
            ToggleType::Radio => 'r',
            ToggleType::CannotBeToggled => 'n',
        },
    );
    assert(s@ =~= old(s)@ + seq!['#'] + (decimal_signed(item.id as int) + seq![':']) + seq![
        type_mark(item.menu_type),
        toggle_mark(item.toggle_type),
    ]);
}

fn push_head(s: &mut String, item: &MenuItem)
    ensures
        final(s)@ == old(s)@ + head_text(node_of(*item)),
{
    let ghost n = node_of(*item);
    push_marks(s, item);
    push_counted(s, &item.label);
    push_counted(s, &item.icon_name);
    let ghost before = s@;
    push_picture(s, item);
    proof {
        let number = decimal_signed(n.id as int) + seq![':'];
        let marks = seq![type_mark(n.menu_type), toggle_mark(n.toggle_type)];
        let icon = counted(n.icon_name);
        let picture = counted(byte_text(n.picture));
        let start = old(s)@ + seq!['#'] + number + marks + counted(n.label);
        assert(before == start + icon);
        assert(start + icon + picture =~= start + (icon + picture));
        lemma_one_after_another(
            old(s)@,
            seq!['#'],
            number,
            marks,
            counted(n.label),
            icon + picture,
        );
    }
}

fn push_item(s: &mut String, item: &MenuItem)
    ensures
        final(s)@ == old(s)@ + node_text(node_of(*item)),
    decreases item, 1nat,
{
    push_head(s, item);
    let ghost drawn = s@;
    if opens_submenu(item) {
        s.push('[');
        push_items(s, &item.submenu);
        s.push(']');
        assert(s@ =~= drawn + (seq!['['] + (signed(item.submenu@) + seq![']'])));
    } else {
        s.push(';');
        assert(s@ =~= drawn + seq![';']);
    }
    assert(s@ =~= old(s)@ + node_text(node_of(*item)));
}

fn push_items(s: &mut String, items: &Vec<MenuItem>)
    ensures
        final(s)@ == old(s)@ + signed(items@),
    decreases items, 0nat,
{
    let ghost start = s@;
    let mut i: usize = 0;
    assert(s@ =~= start + signed(items@.take(0)));
    while i < items.len()
        invariant
            i <= items@.len(),
            s@ == start + signed(items@.take(i as int)),
        decreases items@.len() - i,
    {
        let ghost earlier = structure(items@.take(i as int));
        let ghost next = structure(items@.take(i + 1));
        assert(items@.take(i + 1).drop_last() =~= items@.take(i as int));
        assert(items@.take(i + 1).last() == items@[i as int]);
        if items[i].visible {
            push_item(s, &items[i]);
            assert(next.drop_last() =~= earlier);
            assert(next.last() == node_of(items@[i as int]));
            assert(s@ =~= start + (written(earlier) + node_text(node_of(items@[i as int]))));
        } else {
            assert(next =~= earlier);
        }
        i += 1;
    }
    assert(items@.take(items@.len() as int) =~= items@);
}

/// The signature of a layout: all that forces a rebuild when it changes.
/// Whether an item is enabled or toggled stays out of it.
pub fn signature(items: &Vec<MenuItem>) -> (r: String)
    ensures
        r@ == signed(items@),
{
    let mut s = String::new();
    push_items(&mut s, items);
    assert(s@ =~= signed(items@));
    s
}

/// What an entry's action carries.
#[derive(Debug, Clone, Copy, PartialEq, Eq, Structural)]
pub enum ActionState {
    Plain,
    /// Checked or not.
    Check(bool),
    /// On or off; the entry shows as chosen exactly while it is on.
    Radio(bool),
}

/// The state of an item's action.
pub open spec fn state_of(item: MenuItem) -> ActionState {
    match item.toggle_type {
        ToggleType::Checkmark => ActionState::Check(item.toggle_state == ToggleState::On),
        ToggleType::Radio => ActionState::Radio(item.toggle_state == ToggleState::On),
        ToggleType::CannotBeToggled => ActionState::Plain,
    }
}

/// Whether an item shows as checked.
pub fn checked(item: &MenuItem) -> (r: bool)
    ensures
        r == (item.toggle_state == ToggleState::On),
{
    item.toggle_state == ToggleState::On
}

/// The state of a radio item's action.
pub fn radio_state(item: &MenuItem) -> (r: &'static str)
    ensures
        r == if item.toggle_state == ToggleState::On {
            "on"
        } else {
            "off"
        },
{
    if checked(item) {
        "on"
    } else {
        "off"
    }
}

fn action_state(item: &MenuItem) -> (r: ActionState)
    ensures
        r == state_of(*item),
{
    match item.toggle_type {
        ToggleType::Checkmark => ActionState::Check(checked(item)),
        ToggleType::Radio => ActionState::Radio(checked(item)),
        ToggleType::CannotBeToggled => ActionState::Plain,
    }
}

/// The picture beside an entry.
#[derive(Debug, PartialEq, Eq)]
pub enum Picture {
    Theme(String),
    Png(Vec<u8>),
    Nothing,
}

/// What an entry does.
#[derive(Debug, PartialEq, Eq)]
pub enum Target {
    /// Opens the sections of a submenu.
    Submenu(Vec<Vec<Entry>>),
    /// Runs the action named `i` and the id.
    Action { id: i32, name: String, enabled: bool, state: ActionState },
}

/// One entry of a menu.
#[derive(Debug, PartialEq, Eq)]
pub struct Entry {
    pub label: Option<String>,
    pub target: Target,
    pub picture: Picture,
}

/// Whether a picture is that of an item: its themed icon, else its own
/// picture.
pub open spec fn pictures(p: Picture, item: MenuItem) -> bool {
    let themed = item.icon_name is Some && item.icon_name->0@.len() > 0;
    match p {
        Picture::Theme(n) => themed && n@ == item.icon_name->0@,
        Picture::Png(d) => !themed && item.icon_data is Some && d@ == item.icon_data->0@,
        Picture::Nothing => !themed && item.icon_data is None,
    }
}

/// The places of the visible items of a layout, split into sections at the
/// separators: those that are closed, and the one that is open at the end.
pub open spec fn split(items: Seq<MenuItem>) -> (Seq<Seq<int>>, Seq<int>)
    decreases items.len(),
{
    if items.len() == 0 {
        (Seq::empty(), Seq::empty())
    } else {
        let (done, open) = split(items.drop_last());
        if !items.last().visible {
            (done, open)
        } else if items.last().menu_type == MenuType::Separator {
            if open.len() > 0 {
                (done.push(open), Seq::empty())
            } else {
                (done, open)
            }
        } else {
            (done, open.push(items.len() - 1))
        }
    }
}

/// The sections of a layout, none of them empty.
pub open spec fn sections(items: Seq<MenuItem>) -> Seq<Seq<int>> {
    let (done, open) = split(items);
    if open.len() > 0 {
        done.push(open)
    } else {
        done
    }
}

/// Whether an entry is that of an item.
pub open spec fn draws(e: Entry, item: MenuItem) -> bool
    decreases item, 0nat,
{
    &&& text_of(e.label) == text_of(item.label)
    &&& pictures(e.picture, item)
    &&& match e.target {
        Target::Submenu(sub) => opens(item) && draws_all(sub@, item.submenu@),
        Target::Action { id, name, enabled, state } => {
            &&& !opens(item)
            &&& id == item.id
            &&& name@ == "i"@ + decimal_signed(item.id as int)
            &&& enabled == item.enabled
            &&& state == state_of(item)
        },
    }
}

/// Whether a row of entries is that of the items at these places.
pub open spec fn draws_row(row: Seq<Entry>, places: Seq<int>, items: Seq<MenuItem>) -> bool
    decreases items, 0nat,
{
    &&& row.len() == places.len()
    &&& forall|k: int|
        0 <= k < row.len() ==> {
            &&& 0 <= places[k] < items.len()
            &&& draws(#[trigger] row[k], items[places[k]])
        }
}

/// Whether rows of entries are those of the items at these places.
pub open spec fn draws_rows(
    rows: Seq<Vec<Entry>>,
    places: Seq<Seq<int>>,
    items: Seq<MenuItem>,
) -> bool
    decreases items, 1nat,
{
    &&& rows.len() == places.len()
    &&& forall|k: int|
        0 <= k < rows.len() ==> draws_row((#[trigger] rows[k])@, places[k], items)
}

/// Whether rows of entries are the sections of a layout.
pub open spec fn draws_all(rows: Seq<Vec<Entry>>, items: Seq<MenuItem>) -> bool
    decreases items, 2nat,
{
    draws_rows(rows, sections(items), items)
}

fn picture(item: &MenuItem) -> (r: Picture)
    ensures
        pictures(r, *item),
{
    if let Some(n) = &item.icon_name {
        proof {
            reveal_strlit("");
            if n@.len() == 0 {
                assert(n@ =~= ""@);
            }
        }
        if !same(n.as_str(), "") {
            return Picture::Theme(n.clone());
        }
    }
    match &item.icon_data {
        Some(d) => {
            let mut png: Vec<u8> = Vec::new();
            let mut i: usize = 0;
            while i < d.len()
                invariant
                    i <= d@.len(),
                    png@ == d@.take(i as int),
                decreases d@.len() - i,
            {
                png.push(d[i]);
                assert(d@.take(i + 1) =~= d@.take(i as int).push(d@[i as int]));
                i += 1;
            }
            assert(d@.take(d@.len() as int) =~= d@);
            Picture::Png(png)
        },
        None => Picture::Nothing,
    }
}

fn entry(item: &MenuItem) -> (r: Entry)
    ensures
        draws(r, *item),
    decreases item, 1nat,
{
    let label = match &item.label {
        Some(l) => Some(l.clone()),
        None => None,
    };
    let target = if opens_submenu(item) {
        Target::Submenu(build_model(&item.submenu))
    } else {
        let mut name = "i".to_owned();
        let id = decimal_signed_of(item.id as i64);
        name.append(id.as_str());
        Target::Action { id: item.id, name, enabled: item.enabled, state: action_state(item) }
    };
    Entry { label, target, picture: picture(item) }
}

proof fn lemma_row_push(
    row: Seq<Entry>,
    places: Seq<int>,
    items: Seq<MenuItem>,
    e: Entry,
    i: int,
)
    requires
        draws_row(row, places, items),
        0 <= i < items.len(),
        draws(e, items[i]),
    ensures
        draws_row(row.push(e), places.push(i), items),
{
    assert forall|k: int| 0 <= k < places.push(i).len() implies 0 <= #[trigger] places.push(i)[k]
        < items.len() by {
        if k < row.len() {
            assert(draws(row[k], items[places[k]]));
        }
    }
    assert forall|k: int| 0 <= k < row.push(e).len() implies {
        &&& 0 <= places.push(i)[k] < items.len()
        &&& draws(#[trigger] row.push(e)[k], items[places.push(i)[k]])
    } by {
        if k < row.len() {
            assert(row.push(e)[k] == row[k]);
        }
    }
}

/// The sections of a layout. Separators split them; what is hidden is left
/// out.
pub fn build_model(items: &Vec<MenuItem>) -> (r: Vec<Vec<Entry>>)
    ensures
        draws_all(r@, items@),
    decreases items, 0nat,
{
    let mut done: Vec<Vec<Entry>> = Vec::new();
    let mut open: Vec<Entry> = Vec::new();
    let mut i: usize = 0;
    while i < items.len()
        invariant
            i <= items@.len(),
            draws_rows(done@, split(items@.take(i as int)).0, items@),
            draws_row(open@, split(items@.take(i as int)).1, items@),
        decreases items@.len() - i,
    {
        let ghost prefix = items@.take(i as int);
        let ghost next = items@.take(i + 1);
        assert(next.drop_last() =~= prefix);
        assert(next.last() == items@[i as int]);
        let item = &items[i];
        if item.visible {
            if item.menu_type == MenuType::Separator {
                if open.len() > 0 {
                    done.push(open);
                    open = Vec::new();
                    assert(split(next).1 =~= Seq::<int>::empty());
                }
            } else {
                let ghost row = open@;
                let e = entry(item);
                proof {
                    lemma_row_push(row, split(prefix).1, items@, e, i as int);
                }
                open.push(e);
            }
        }
        i += 1;
    }
    assert(items@.take(items@.len() as int) =~= items@);
    if open.len() > 0 {
        done.push(open);
    }
    done
}

/// The ids of the actions a layout has, in the order they are made.
pub open spec fn acted(items: Seq<MenuItem>) -> Seq<i32>
    decreases items,
{
    if items.len() == 0 {
        Seq::empty()
    } else {
        let item = items.last();
        acted(items.drop_last()) + (if !item.visible || item.menu_type == MenuType::Separator {
            Seq::empty()
        } else if opens(item) {
            acted(item.submenu@)
        } else {
            seq![item.id]
        })
    }
}

fn push_actions(group: &mut Vec<i32>, items: &Vec<MenuItem>)
    ensures
        final(group)@ == old(group)@ + acted(items@),
    decreases items,
{
    let ghost start = group@;
    let mut i: usize = 0;
    assert(group@ =~= start + acted(items@.take(0)));
    while i < items.len()
        invariant
            i <= items@.len(),
            group@ == start + acted(items@.take(i as int)),
        decreases items@.len() - i,
    {
        let ghost before = acted(items@.take(i as int));
        assert(items@.take(i + 1).drop_last() =~= items@.take(i as int));
        assert(items@.take(i + 1).last() == items@[i as int]);
        let item = &items[i];
        if item.visible && item.menu_type != MenuType::Separator {
            if opens_submenu(item) {
                push_actions(group, &item.submenu);
                assert(group@ =~= start + (before + acted(item.submenu@)));
            } else {
                group.push(item.id);
                assert(group@ =~= start + (before + seq![item.id]));
            }
        } else {
            assert(group@ =~= start + (before + Seq::<i32>::empty()));
        }
        i += 1;
    }
    assert(items@.take(items@.len() as int) =~= items@);
}

/// A refresh of one action in place.
#[derive(Debug, Clone, Copy, PartialEq, Eq, Structural)]
pub struct Update {
    pub id: i32,
    pub enabled: bool,
    /// Where it is plain there is no state to set.
    pub state: ActionState,
}

/// The refreshes of a layout: one for each item that has an action, at any
/// depth.
pub open spec fn updates(items: Seq<MenuItem>, group: Seq<i32>) -> Seq<Update>
    decreases items,
{
    if items.len() == 0 {
        Seq::empty()
    } else {
        let item = items.last();
        updates(items.drop_last(), group) + (if group.contains(item.id) {
            seq![Update { id: item.id, enabled: item.enabled, state: state_of(item) }]
        } else {
            Seq::empty()
        }) + updates(item.submenu@, group)
    }
}

fn in_group(group: &Vec<i32>, id: i32) -> (r: bool)
    ensures
        r == group@.contains(id),
{
    let mut i: usize = 0;
    while i < group.len()
        invariant
            i <= group@.len(),
            forall|j: int| 0 <= j < i ==> group@[j] != id,
        decreases group@.len() - i,
    {
        if group[i] == id {
            return true;
        }
        i += 1;
    }
    false
}

fn push_updates(out: &mut Vec<Update>, items: &Vec<MenuItem>, group: &Vec<i32>)
    ensures
        final(out)@ == old(out)@ + updates(items@, group@),
    decreases items,
{
    let ghost start = out@;
    let mut i: usize = 0;
    assert(out@ =~= start + updates(items@.take(0), group@));
    while i < items.len()
        invariant
            i <= items@.len(),
            out@ == start + updates(items@.take(i as int), group@),
        decreases items@.len() - i,
    {
        assert(items@.take(i + 1).drop_last() =~= items@.take(i as int));
        assert(items@.take(i + 1).last() == items@[i as int]);
        let item = &items[i];
        if in_group(group, item.id) {
            out.push(Update { id: item.id, enabled: item.enabled, state: action_state(item) });
        }
        push_updates(out, &item.submenu, group);
        assert(out@ =~= start + updates(items@.take(i + 1), group@));
        i += 1;
    }
    assert(items@.take(items@.len() as int) =~= items@);
}

/// The refreshes of a layout, for the actions of a group.
pub fn update_states(items: &Vec<MenuItem>, group: &Vec<i32>) -> (r: Vec<Update>)
    ensures
        r@ == updates(items@, group@),
{
    let mut out: Vec<Update> = Vec::new();
    push_updates(&mut out, items, group);
    assert(out@ =~= updates(items@, group@));
    out
}

/// What a new layout takes.
#[derive(Debug, PartialEq, Eq)]
pub enum Layout {
    /// Build the menu anew from these sections.
    Rebuild(Vec<Vec<Entry>>),
    /// Refresh the actions in place.
    Refresh(Vec<Update>),
    Nothing,
}

/// A menu on screen: the signature it was built for, and its actions.
#[derive(Debug)]
pub struct MenuUi {
    group: Option<Vec<i32>>,
    signature: String,
}

/// A [`MenuUi`] as the contracts speak of it.
#[verifier::ext_equal]
pub struct MenuModel {
    pub group: Option<Seq<i32>>,
    pub signature: Seq<char>,
}

impl View for MenuUi {
    type V = MenuModel;

    closed spec fn view(&self) -> MenuModel {
        MenuModel {
            group: match self.group {
                Some(g) => Some(g@),
                None => None,
            },
            signature: self.signature@,
        }
    }
}

/// The menu after a layout.
pub open spec fn laid_out(ui: MenuModel, items: Seq<MenuItem>) -> MenuModel {
    if ui.signature == signed(items) {
        ui
    } else {
        MenuModel { group: Some(acted(items)), signature: signed(items) }
    }
}

impl MenuUi {
    /// A menu without a layout.
    pub fn new() -> (r: MenuUi)
        ensures
            r@.group is None,
            r@.signature.len() == 0,
    {
        MenuUi { group: None, signature: String::new() }
    }

    /// Takes a layout: a changed structure builds the menu anew, anything else
    /// refreshes its actions in place.
    pub fn set_layout(&mut self, items: &Vec<MenuItem>) -> (r: Layout)
        ensures
            final(self)@ == laid_out(old(self)@, items@),
            match r {
                Layout::Rebuild(rows) => {
                    &&& old(self)@.signature != signed(items@)
                    &&& draws_all(rows@, items@)
                },
                Layout::Refresh(list) => {
                    &&& old(self)@.signature == signed(items@)
                    &&& old(self)@.group is Some
                    &&& list@ == updates(items@, old(self)@.group->0)
                },
                Layout::Nothing => {
                    &&& old(self)@.signature == signed(items@)
                    &&& old(self)@.group is None
                },
            },
    {
        let sig = signature(items);
        if same(self.signature.as_str(), sig.as_str()) {
            return match &self.group {
                Some(g) => Layout::Refresh(update_states(items, g)),
                None => Layout::Nothing,
            };
        }
        let mut group: Vec<i32> = Vec::new();
        push_actions(&mut group, items);
        assert(group@ =~= acted(items@));
        self.group = Some(group);
        self.signature = sig;
        Layout::Rebuild(build_model(items))
    }
}

/// Two items differ at most in whether they, or any item below them, are
/// enabled or toggled.
pub open spec fn alike(a: MenuItem, b: MenuItem) -> bool
    decreases a, 0nat,
{
    &&& a.id == b.id
    &&& a.menu_type == b.menu_type
    &&& a.label == b.label
    &&& a.visible == b.visible
    &&& a.icon_name == b.icon_name
    &&& a.icon_data == b.icon_data
    &&& a.toggle_type == b.toggle_type
    &&& a.children_display == b.children_display
    &&& all_alike(a.submenu@, b.submenu@)
}

/// Two layouts differ at most in whether their items are enabled or toggled.
pub open spec fn all_alike(a: Seq<MenuItem>, b: Seq<MenuItem>) -> bool
    decreases a, 1nat,
{
    a.len() == b.len() && forall|i: int| 0 <= i < a.len() ==> alike(#[trigger] a[i], b[i])
}

/// Enabling or toggling items, at any depth, changes neither the signature nor
/// which actions there are: such a layout never rebuilds the menu.
pub proof fn law_states_never_rebuild(a: Seq<MenuItem>, b: Seq<MenuItem>)
    requires
        all_alike(a, b),
    ensures
        structure(a) == structure(b),
        signed(a) == signed(b),
        acted(a) == acted(b),
    decreases a,
{
    if a.len() > 0 {
        let x = a.last();
        let y = b.last();
        assert(alike(a[a.len() - 1], b[a.len() - 1]));
        assert forall|i: int| 0 <= i < a.drop_last().len() implies alike(
            #[trigger] a.drop_last()[i],
            b.drop_last()[i],
        ) by {
            assert(alike(a[i], b[i]));
        }
        law_states_never_rebuild(a.drop_last(), b.drop_last());
        law_states_never_rebuild(x.submenu@, y.submenu@);
        assert(node_of(x) == node_of(y));
    } else {
        assert(a =~= b);
    }
}

proof fn lemma_same_head(x: Seq<char>, s: Seq<char>, y: Seq<char>, t: Seq<char>)
    requires
        x + s == y + t,
        x.len() == y.len(),
    ensures
        x == y,
        s == t,
{
    let a = x + s;
    let b = y + t;
    assert(a.take(x.len() as int) =~= x);
    assert(b.take(y.len() as int) =~= y);
    assert(a.skip(x.len() as int) =~= s);
    assert(b.skip(y.len() as int) =~= t);
}

/// What stands before the first colon, and what stands behind it, can be told.
proof fn lemma_before_the_colon(x: Seq<char>, s: Seq<char>, y: Seq<char>, t: Seq<char>)
    requires
        x + seq![':'] + s == y + seq![':'] + t,
        forall|i: int| 0 <= i < x.len() ==> #[trigger] x[i] != ':',
        forall|i: int| 0 <= i < y.len() ==> #[trigger] y[i] != ':',
    ensures
        x == y,
        s == t,
{
    let a = x + seq![':'] + s;
    let b = y + seq![':'] + t;
    if x.len() < y.len() {
        assert(a[x.len() as int] == ':');
        assert(b[x.len() as int] == y[x.len() as int]);
    } else if y.len() < x.len() {
        assert(b[y.len() as int] == ':');
        assert(a[y.len() as int] == x[y.len() as int]);
    }
    lemma_same_head(x + seq![':'], s, y + seq![':'], t);
    lemma_same_head(x, seq![':'], y, seq![':']);
}

proof fn lemma_counted(x: Seq<char>, s: Seq<char>, y: Seq<char>, t: Seq<char>)
    requires
        counted(x) + s == counted(y) + t,
    ensures
        x == y,
        s == t,
{
    lemma_decimal_digits(x.len());
    lemma_decimal_digits(y.len());
    assert(counted(x) + s =~= decimal(x.len()) + seq![':'] + (x + s));
    assert(counted(y) + t =~= decimal(y.len()) + seq![':'] + (y + t));
    lemma_before_the_colon(decimal(x.len()), x + s, decimal(y.len()), y + t);
    lemma_decimal_tells_apart(x.len(), y.len());
    lemma_same_head(x, s, y, t);
}

proof fn lemma_byte_text(x: Seq<u8>, y: Seq<u8>)
    requires
        byte_text(x) == byte_text(y),
    ensures
        x == y,
{
    assert(byte_text(x).len() == x.len() && byte_text(y).len() == y.len());
    assert forall|i: int| 0 <= i < x.len() implies x[i] == y[i] by {
        assert(byte_text(x)[i] == x[i] as char);
        assert(byte_text(y)[i] == y[i] as char);
    }
    assert(x =~= y);
}

/// What follows the marks in what a signature says of an item before its
/// submenu.
spec fn look_text(n: Node) -> Seq<char> {
    counted(n.label) + (counted(n.icon_name) + counted(byte_text(n.picture)))
}

proof fn lemma_look_text(a: Node, s: Seq<char>, b: Node, t: Seq<char>)
    requires
        look_text(a) + s == look_text(b) + t,
    ensures
        a.label == b.label,
        a.icon_name == b.icon_name,
        a.picture == b.picture,
        s == t,
{
    let pa = counted(byte_text(a.picture)) + s;
    let pb = counted(byte_text(b.picture)) + t;
    let ia = counted(a.icon_name) + pa;
    let ib = counted(b.icon_name) + pb;
    assert(look_text(a) + s =~= counted(a.label) + ia);
    assert(look_text(b) + t =~= counted(b.label) + ib);
    lemma_counted(a.label, ia, b.label, ib);
    lemma_counted(a.icon_name, pa, b.icon_name, pb);
    lemma_counted(byte_text(a.picture), s, byte_text(b.picture), t);
    lemma_byte_text(a.picture, b.picture);
}

proof fn lemma_behind_the_marks(
    head: Seq<char>,
    number: Seq<char>,
    marks: Seq<char>,
    look: Seq<char>,
    s: Seq<char>,
)
    ensures
        head + (number + seq![':'] + (marks + look)) + s == head + (number + seq![':'] + (marks + (
        look + s))),
{
    assert(head + (number + seq![':'] + (marks + look)) + s =~= head + (number + seq![':'] + (marks
        + (look + s))));
}

proof fn lemma_head_text(a: Node, s: Seq<char>, b: Node, t: Seq<char>)
    requires
        head_text(a) + s == head_text(b) + t,
    ensures
        a.id == b.id,
        a.menu_type == b.menu_type,
        a.toggle_type == b.toggle_type,
        a.label == b.label,
        a.icon_name == b.icon_name,
        a.picture == b.picture,
        s == t,
{
    let la = look_text(a) + s;
    let lb = look_text(b) + t;
    let ma = seq![type_mark(a.menu_type), toggle_mark(a.toggle_type)];
    let mb = seq![type_mark(b.menu_type), toggle_mark(b.toggle_type)];
    let da = decimal_signed(a.id as int);
    let db = decimal_signed(b.id as int);
    lemma_behind_the_marks(seq!['#'], da, ma, look_text(a), s);
    lemma_behind_the_marks(seq!['#'], db, mb, look_text(b), t);
    lemma_same_head(seq!['#'], da + seq![':'] + (ma + la), seq!['#'], db + seq![':'] + (mb + lb));
    lemma_decimal_signed_tells_apart(a.id as int, b.id as int);
    lemma_decimal_signed_tells_apart(b.id as int, a.id as int);
    lemma_before_the_colon(da, ma + la, db, mb + lb);
    lemma_same_head(ma, la, mb, lb);
    assert(ma[0] == mb[0] && ma[1] == mb[1]);
    lemma_look_text(a, s, b, t);
}

proof fn lemma_written_front(nodes: Seq<Node>)
    requires
        nodes.len() > 0,
    ensures
        written(nodes) == node_text(nodes[0]) + written(nodes.skip(1)),
    decreases nodes.len(),
{
    if nodes.len() == 1 {
        assert(nodes.drop_last() =~= Seq::<Node>::empty());
        assert(nodes.skip(1) =~= Seq::<Node>::empty());
        assert(written(nodes) =~= node_text(nodes[0]) + written(nodes.skip(1)));
    } else {
        lemma_written_front(nodes.drop_last());
        assert(nodes.skip(1).drop_last() =~= nodes.drop_last().skip(1));
        assert(written(nodes) =~= node_text(nodes[0]) + written(nodes.skip(1)));
    }
}

proof fn lemma_node_text(x: Node, s: Seq<char>, y: Node, t: Seq<char>)
    requires
        node_text(x) + s == node_text(y) + t,
    ensures
        x == y,
        s == t,
    decreases node_text(x).len(), 0nat,
{
    let tx = match x.below {
        Some(sub) => seq!['['] + (written(sub) + seq![']']),
        None => seq![';'],
    };
    let ty = match y.below {
        Some(sub) => seq!['['] + (written(sub) + seq![']']),
        None => seq![';'],
    };
    assert(node_text(x) + s =~= head_text(x) + (tx + s));
    assert(node_text(y) + t =~= head_text(y) + (ty + t));
    lemma_head_text(x, tx + s, y, ty + t);
    assert((tx + s)[0] == tx[0] && (ty + t)[0] == ty[0]);
    if x.below is Some {
        assert(y.below is Some);
        let a = x.below->0;
        let b = y.below->0;
        let sa = seq![']'] + s;
        let sb = seq![']'] + t;
        assert(tx + s =~= seq!['['] + (written(a) + sa));
        assert(ty + t =~= seq!['['] + (written(b) + sb));
        lemma_same_head(seq!['['], written(a) + sa, seq!['['], written(b) + sb);
        lemma_written_tells_apart(a, sa, b, sb);
        lemma_same_head(seq![']'], s, seq![']'], t);
    } else {
        assert(y.below is None);
        lemma_same_head(seq![';'], s, seq![';'], t);
    }
}

/// Texts of structures that are followed by something else than an item can be
/// told apart, and from what follows.
proof fn lemma_written_tells_apart(a: Seq<Node>, s: Seq<char>, b: Seq<Node>, t: Seq<char>)
    requires
        written(a) + s == written(b) + t,
        s.len() == 0 || s[0] != '#',
        t.len() == 0 || t[0] != '#',
    ensures
        a == b,
        s == t,
    decreases written(a).len(), 1nat,
{
    if a.len() > 0 {
        lemma_written_front(a);
        assert(node_text(a[0])[0] == '#');
        assert((written(a) + s)[0] == '#');
    }
    if b.len() > 0 {
        lemma_written_front(b);
        assert(node_text(b[0])[0] == '#');
        assert((written(b) + t)[0] == '#');
    }
    if a.len() == 0 {
        assert(written(a) + s =~= s);
        assert(b.len() == 0);
        assert(written(b) + t =~= t);
        assert(a =~= b);
    } else if b.len() == 0 {
        assert(written(b) + t =~= t);
    } else {
        let ra = written(a.skip(1)) + s;
        let rb = written(b.skip(1)) + t;
        assert(written(a) + s =~= node_text(a[0]) + ra);
        assert(written(b) + t =~= node_text(b[0]) + rb);
        lemma_node_text(a[0], ra, b[0], rb);
        lemma_written_tells_apart(a.skip(1), s, b.skip(1), t);
        assert(a =~= seq![a[0]] + a.skip(1));
        assert(b =~= seq![b[0]] + b.skip(1));
    }
}

/// The signature tells structures apart: two layouts have the same signature
/// exactly when they are built from the same, at any depth, so any other id,
/// kind, label, icon or picture of what is visible builds the menu anew.
pub proof fn law_signatures_tell_structures_apart(a: Seq<MenuItem>, b: Seq<MenuItem>)
    ensures
        signed(a) == signed(b) <==> structure(a) == structure(b),
{
    if signed(a) == signed(b) {
        let none = Seq::<char>::empty();
        assert(signed(a) + none == signed(b) + none);
        lemma_written_tells_apart(structure(a), none, structure(b), none);
    }
}

proof fn lemma_structure_split(items: Seq<MenuItem>, i: int)
    requires
        0 <= i < items.len(),
    ensures
        structure(items) == structure(items.take(i)) + (if items[i].visible {
            seq![node_of(items[i])]
        } else {
            Seq::empty()
        }) + structure(items.skip(i + 1)),
    decreases items.len(),
{
    let mid = if items[i].visible {
        seq![node_of(items[i])]
    } else {
        Seq::<Node>::empty()
    };
    if i == items.len() - 1 {
        assert(items.drop_last() =~= items.take(i));
        assert(items.skip(i + 1) =~= Seq::<MenuItem>::empty());
        assert(structure(items) =~= structure(items.take(i)) + mid + structure(items.skip(i + 1)));
    } else {
        let head = items.drop_last();
        lemma_structure_split(head, i);
        assert(head.take(i) =~= items.take(i));
        assert(head[i] == items[i]);
        assert(items.skip(i + 1).drop_last() =~= head.skip(i + 1));
        assert(items.skip(i + 1).last() == items.last());
        assert(structure(items) =~= structure(items.take(i)) + mid + structure(items.skip(i + 1)));
    }
}

/// Another label, icon name or picture on a visible item builds the menu anew.
pub proof fn law_another_look_rebuilds(items: Seq<MenuItem>, i: int, other: MenuItem)
    requires
        0 <= i < items.len(),
        items[i].visible,
        other.visible,
        or_empty(other.label) != or_empty(items[i].label) || or_empty(other.icon_name) != or_empty(
            items[i].icon_name,
        ) || picture_bytes(other) != picture_bytes(items[i]),
    ensures
        signed(items.update(i, other)) != signed(items),
{
    let changed = items.update(i, other);
    law_signatures_tell_structures_apart(items, changed);
    lemma_structure_split(items, i);
    lemma_structure_split(changed, i);
    assert(changed.take(i) =~= items.take(i));
    assert(changed.skip(i + 1) =~= items.skip(i + 1));
    let at = structure(items.take(i)).len() as int;
    assert(structure(items)[at] == node_of(items[i]));
    assert(structure(changed)[at] == node_of(other));
}

/// Hiding a visible item changes the signature, so the menu is built anew.
pub proof fn law_hiding_rebuilds(items: Seq<MenuItem>, i: int)
    requires
        0 <= i < items.len(),
        items[i].visible,
    ensures
        signed(items.update(i, MenuItem { visible: false, ..items[i] })) != signed(items),
{
    let changed = items.update(i, MenuItem { visible: false, ..items[i] });
    law_signatures_tell_structures_apart(items, changed);
    lemma_structure_split(items, i);
    lemma_structure_split(changed, i);
    assert(changed.take(i) =~= items.take(i));
    assert(changed.skip(i + 1) =~= items.skip(i + 1));
    assert(structure(changed).len() < structure(items).len());
}

proof fn lemma_updated(items: Seq<MenuItem>, group: Seq<i32>, id: i32)
    requires
        acted(items).contains(id),
        group.contains(id),
    ensures
        exists|k: int|
            0 <= k < updates(items, group).len() && (#[trigger] updates(items, group)[k]).id == id,
    decreases items,
{
    if items.len() > 0 {
        let item = items.last();
        let head = items.drop_last();
        let before = updates(head, group);
        let own = if group.contains(item.id) {
            seq![Update { id: item.id, enabled: item.enabled, state: state_of(item) }]
        } else {
            Seq::empty()
        };
        let below = updates(item.submenu@, group);
        let all = before + own + below;
        assert(all == updates(items, group));
        let at = choose|k: int| 0 <= k < acted(items).len() && acted(items)[k] == id;
        if at < acted(head).len() {
            assert(acted(head)[at] == id);
            lemma_updated(head, group, id);
            let k = choose|k: int| 0 <= k < before.len() && (#[trigger] before[k]).id == id;
            assert(all[k] == before[k]);
        } else if opens(item) {
            assert(acted(item.submenu@)[at - acted(head).len()] == id);
            lemma_updated(item.submenu@, group, id);
            let k = choose|k: int| 0 <= k < below.len() && (#[trigger] below[k]).id == id;
            assert(all[before.len() + own.len() + k] == below[k]);
        } else {
            assert(item.id == id);
            assert(all[before.len() as int] == own[0]);
        }
    }
}

/// The ids of the actions that a structure has.
pub open spec fn node_actions(nodes: Seq<Node>) -> Seq<i32>
    decreases nodes,
{
    if nodes.len() == 0 {
        Seq::empty()
    } else {
        let n = nodes.last();
        node_actions(nodes.drop_last()) + (if n.menu_type == MenuType::Separator {
            Seq::empty()
        } else {
            match n.below {
                Some(sub) => node_actions(sub),
                None => seq![n.id],
            }
        })
    }
}

proof fn lemma_structure_has_the_actions(items: Seq<MenuItem>)
    ensures
        acted(items) == node_actions(structure(items)),
    decreases items,
{
    if items.len() > 0 {
        let nodes = structure(items);
        lemma_structure_has_the_actions(items.drop_last());
        lemma_structure_has_the_actions(items.last().submenu@);
        if items.last().visible {
            assert(nodes.drop_last() =~= structure(items.drop_last()));
            assert(nodes.last() == node_of(items.last()));
        } else {
            assert(nodes =~= structure(items.drop_last()));
            assert(acted(items) =~= acted(items.drop_last()));
        }
    }
}

/// A layout that does not rebuild the menu has the actions of the one before,
/// and refreshes every one of them.
pub proof fn law_a_refresh_reaches_every_action(a: Seq<MenuItem>, b: Seq<MenuItem>, id: i32)
    requires
        signed(a) == signed(b),
        acted(a).contains(id),
    ensures
        acted(b) == acted(a),
        exists|k: int|
            0 <= k < updates(b, acted(a)).len() && (#[trigger] updates(b, acted(a))[k]).id == id,
{
    law_signatures_tell_structures_apart(a, b);
    lemma_structure_has_the_actions(a);
    lemma_structure_has_the_actions(b);
    lemma_updated(b, acted(a), id);
}

/// A menu is built from all of an item but whether it is enabled or toggled; a
/// submenu is built only where the item says that it has one.
pub proof fn law_what_a_menu_is_built_from(item: MenuItem)
    ensures
        node_of(item).id == item.id,
        node_of(item).menu_type == item.menu_type,
        node_of(item).toggle_type == item.toggle_type,
        item.label is Some ==> node_of(item).label == item.label->0@,
        item.label is None ==> node_of(item).label.len() == 0,
        item.icon_name is Some ==> node_of(item).icon_name == item.icon_name->0@,
        item.icon_name is None ==> node_of(item).icon_name.len() == 0,
        item.icon_data is Some ==> node_of(item).picture == item.icon_data->0@,
        item.icon_data is None ==> node_of(item).picture.len() == 0,
        node_of(item).below is Some <==> item.children_display is Some
            && item.children_display->0@ == "submenu"@,
        node_of(item).below is Some ==> node_of(item).below->0 == structure(item.submenu@),
{
}

/// What is hidden is no part of the structure; anything else is, in its place.
pub proof fn law_only_the_visible_is_built(items: Seq<MenuItem>, item: MenuItem)
    ensures
        !item.visible ==> structure(items.push(item)) == structure(items),
        item.visible ==> structure(items.push(item)) == structure(items).push(node_of(item)),
        structure(Seq::empty()).len() == 0,
{
    assert(items.push(item).drop_last() =~= items);
    assert(items.push(item).last() == item);
    if item.visible {
        assert(structure(items.push(item)) =~= structure(items).push(node_of(item)));
    } else {
        assert(structure(items.push(item)) =~= structure(items));
    }
}

/// An entry is that of its item: label, picture and submenu, or an action under
/// the item's own id that can be run while the item is enabled. It shows as
/// checked or chosen exactly while the item is on; an icon of the theme comes
/// before a picture.
pub proof fn law_an_entry_is_its_items(e: Entry, item: MenuItem)
    requires
        draws(e, item),
    ensures
        e.label is Some <==> item.label is Some,
        e.label is Some ==> e.label->0@ == item.label->0@,
        e.target is Submenu <==> item.children_display is Some && item.children_display->0@
            == "submenu"@,
        e.target is Submenu ==> draws_all(e.target->Submenu_0@, item.submenu@),
        e.target is Action ==> {
            &&& e.target->id == item.id
            &&& e.target->name@ == "i"@ + decimal_signed(item.id as int)
            &&& e.target->enabled == item.enabled
            &&& item.toggle_type is CannotBeToggled ==> e.target->state is Plain
            &&& item.toggle_type is Checkmark ==> e.target->state == ActionState::Check(
                item.toggle_state is On,
            )
            &&& item.toggle_type is Radio ==> e.target->state == ActionState::Radio(
                item.toggle_state is On,
            )
        },
        item.icon_name is Some && item.icon_name->0@.len() > 0 ==> e.picture is Theme
            && e.picture->Theme_0@ == item.icon_name->0@,
        (item.icon_name is None || item.icon_name->0@.len() == 0) && item.icon_data is Some
            ==> e.picture is Png && e.picture->Png_0@ == item.icon_data->0@,
        (item.icon_name is None || item.icon_name->0@.len() == 0) && item.icon_data is None
            ==> e.picture is Nothing,
{
}

/// Whether an item of a layout has an entry: it is visible, and no separator.
pub open spec fn has_entry(items: Seq<MenuItem>, p: int) -> bool {
    0 <= p < items.len() && items[p].visible && items[p].menu_type is Standard
}

/// Whether a visible separator stands between two places.
pub open spec fn parted(items: Seq<MenuItem>, a: int, b: int) -> bool {
    exists|s: int|
        a < s < b && 0 <= s < items.len() && (#[trigger] items[s]).visible
            && items[s].menu_type is Separator
}

/// Every item that has an entry stands in a section, and nothing else does; no
/// section is empty. Entries stand in the order of the layout, two of them in
/// one section exactly where no visible separator is between them.
pub proof fn law_separators_part_the_sections(
    items: Seq<MenuItem>,
    r: int,
    k: int,
    q: int,
    l: int,
    p: int,
)
    ensures
        ({
            let rows = sections(items);
            &&& 0 <= r < rows.len() ==> rows[r].len() > 0
            &&& 0 <= r < rows.len() && 0 <= k < rows[r].len() ==> has_entry(items, rows[r][k])
            &&& has_entry(items, p) ==> exists|n: int|
                0 <= n < rows.len() && (#[trigger] rows[n]).contains(p)
            &&& 0 <= r < rows.len() && 0 <= k < l < rows[r].len() ==> rows[r][k] < rows[r][l]
                && !parted(items, rows[r][k], rows[r][l])
            &&& 0 <= r < q < rows.len() && 0 <= k < rows[r].len() && 0 <= l < rows[q].len()
                ==> rows[r][k] < rows[q][l] && parted(items, rows[r][k], rows[q][l])
        }),
{
    let (done, open) = split(items);
    let rows = sections(items);
    let all = done.push(open);
    lemma_split(items);
    assert(forall|n: int| 0 <= n < rows.len() ==> #[trigger] rows[n] == all[n]);
    if 0 <= r < rows.len() && 0 <= k < rows[r].len() {
        assert(has_entry(items, all[r][k]));
    }
    if has_entry(items, p) {
        let n = choose|n: int| 0 <= n < all.len() && (#[trigger] all[n]).contains(p);
        assert(all[n].len() > 0);
        assert(rows[n] == all[n]);
    }
    if 0 <= r < rows.len() && 0 <= k < l < rows[r].len() {
        assert(all[r][k] < all[r][l]);
    }
    if 0 <= r < q < rows.len() && 0 <= k < rows[r].len() && 0 <= l < rows[q].len() {
        assert(all[r][k] < all[q][l]);
    }
}

spec fn well_split(items: Seq<MenuItem>, rows: Seq<Seq<int>>) -> bool {
    &&& rows.len() > 0
    &&& forall|r: int| 0 <= r < rows.len() - 1 ==> (#[trigger] rows[r]).len() > 0
    &&& forall|r: int, k: int|
        0 <= r < rows.len() && 0 <= k < rows[r].len() ==> has_entry(items, #[trigger] rows[r][k])
    &&& forall|p: int|
        #[trigger] has_entry(items, p) ==> exists|n: int|
            0 <= n < rows.len() && (#[trigger] rows[n]).contains(p)
    &&& forall|r: int, k: int, l: int|
        #![trigger rows[r][k], rows[r][l]]
        0 <= r < rows.len() && 0 <= k < l < rows[r].len() ==> rows[r][k] < rows[r][l] && !parted(
            items,
            rows[r][k],
            rows[r][l],
        )
    &&& forall|r: int, q: int, k: int, l: int|
        #![trigger rows[r][k], rows[q][l]]
        0 <= r < q < rows.len() && 0 <= k < rows[r].len() && 0 <= l < rows[q].len() ==> rows[r][k]
            < rows[q][l] && parted(items, rows[r][k], rows[q][l])
    &&& forall|r: int, k: int|
        #![trigger rows[r][k]]
        0 <= r < rows.len() && 0 <= k < rows[r].len() ==> (parted(
            items,
            rows[r][k],
            items.len() as int,
        ) <==> r < rows.len() - 1)
}

proof fn lemma_parted_later(head: Seq<MenuItem>, items: Seq<MenuItem>, a: int, b: int)
    requires
        items.len() == head.len() + 1,
        items.drop_last() == head,
        b <= head.len(),
    ensures
        parted(items, a, b) <==> parted(head, a, b),
{
    assert(forall|s: int| 0 <= s < head.len() ==> #[trigger] items[s] == head[s]);
    if parted(items, a, b) {
        let s = choose|s: int|
            a < s < b && 0 <= s < items.len() && (#[trigger] items[s]).visible
                && items[s].menu_type is Separator;
        assert(head[s] == items[s]);
    }
    if parted(head, a, b) {
        let s = choose|s: int|
            a < s < b && 0 <= s < head.len() && (#[trigger] head[s]).visible
                && head[s].menu_type is Separator;
        assert(items[s] == head[s]);
    }
}

proof fn lemma_parted_at_the_end(head: Seq<MenuItem>, items: Seq<MenuItem>, a: int)
    requires
        items.len() == head.len() + 1,
        items.drop_last() == head,
        a < head.len(),
    ensures
        parted(items, a, items.len() as int) <==> parted(head, a, head.len() as int) || (
        items.last().visible && items.last().menu_type is Separator),
{
    lemma_parted_later(head, items, a, head.len() as int);
    if parted(items, a, items.len() as int) {
        let s = choose|s: int|
            a < s < items.len() && 0 <= s < items.len() && (#[trigger] items[s]).visible
                && items[s].menu_type is Separator;
        if s < head.len() {
            assert(parted(items, a, head.len() as int));
        }
    }
    if parted(items, a, head.len() as int) {
        let s = choose|s: int|
            a < s < head.len() && 0 <= s < items.len() && (#[trigger] items[s]).visible
                && items[s].menu_type is Separator;
        assert(items[s].visible);
    }
    assert(items[head.len() as int] == items.last());
}

proof fn lemma_split(items: Seq<MenuItem>)
    ensures
        well_split(items, split(items).0.push(split(items).1)),
    decreases items.len(),
{
    let rows = split(items).0.push(split(items).1);
    if items.len() > 0 {
        let head = items.drop_last();
        let before = split(head).0.push(split(head).1);
        let m = before.len() - 1;
        let n = head.len() as int;
        lemma_split(head);
        assert(forall|s: int| 0 <= s < n ==> #[trigger] items[s] == head[s]);
        assert(items[n] == items.last());
        assert forall|r: int, k: int| 0 <= r < before.len() && 0 <= k < before[r].len() implies {
            &&& has_entry(items, #[trigger] before[r][k])
            &&& before[r][k] < n
            &&& parted(items, before[r][k], items.len() as int) <==> r < m || (items.last().visible
                && items.last().menu_type is Separator)
        } by {
            assert(has_entry(head, before[r][k]));
            lemma_parted_at_the_end(head, items, before[r][k]);
        }
        assert forall|r: int, q: int, k: int, l: int|
            #![trigger before[r][k], before[q][l]]
            0 <= r < before.len() && 0 <= q < before.len() && 0 <= k < before[r].len() && 0 <= l
                < before[q].len() implies (parted(items, before[r][k], before[q][l]) <==> parted(
            head,
            before[r][k],
            before[q][l],
        )) by {
            assert(has_entry(head, before[q][l]));
            lemma_parted_later(head, items, before[r][k], before[q][l]);
        }
        assert forall|p: int| p < n && #[trigger] has_entry(items, p) implies exists|r: int|
            0 <= r < before.len() && (#[trigger] before[r]).contains(p) by {
            assert(has_entry(head, p));
        }
        let item = items.last();
        if !item.visible {
            assert(rows == before);
        } else if item.menu_type == MenuType::Separator {
            if before[m].len() > 0 {
                assert(rows =~= before.push(Seq::empty()));
                lemma_close(head, items, before, rows);
            } else {
                assert(rows == before);
            }
        } else {
            assert(rows =~= before.update(m, before[m].push(n)));
            lemma_add(head, items, before, rows);
        }
        if rows == before {
            assert(!has_entry(items, n));
            assert forall|p: int| #[trigger] has_entry(items, p) implies exists|r: int|
                0 <= r < rows.len() && (#[trigger] rows[r]).contains(p) by {
                assert(p < n);
            }
        }
    } else {
        assert(rows =~= seq![Seq::<int>::empty()]);
    }
}

spec fn carried(items: Seq<MenuItem>, before: Seq<Seq<int>>, n: int) -> bool {
    &&& forall|r: int, k: int|
        0 <= r < before.len() && 0 <= k < before[r].len() ==> {
            &&& has_entry(items, #[trigger] before[r][k])
            &&& before[r][k] < n
            &&& parted(items, before[r][k], items.len() as int) <==> r < before.len() - 1 || (
            items.last().visible && items.last().menu_type is Separator)
        }
    &&& forall|r: int, q: int, k: int, l: int|
        #![trigger before[r][k], before[q][l]]
        0 <= r < before.len() && 0 <= q < before.len() && 0 <= k < before[r].len() && 0 <= l
            < before[q].len() ==> (parted(items, before[r][k], before[q][l]) <==> parted(
            items.drop_last(),
            before[r][k],
            before[q][l],
        ))
    &&& forall|p: int|
        p < n && #[trigger] has_entry(items, p) ==> exists|r: int|
            0 <= r < before.len() && (#[trigger] before[r]).contains(p)
}

proof fn lemma_close(
    head: Seq<MenuItem>,
    items: Seq<MenuItem>,
    before: Seq<Seq<int>>,
    rows: Seq<Seq<int>>,
)
    requires
        items.len() > 0,
        head == items.drop_last(),
        well_split(head, before),
        carried(items, before, head.len() as int),
        items.last().visible,
        items.last().menu_type is Separator,
        before.last().len() > 0,
        rows == before.push(Seq::empty()),
    ensures
        well_split(items, rows),
{
    assert(forall|r: int| 0 <= r < before.len() ==> #[trigger] rows[r] == before[r]);
    assert(before[before.len() - 1] == before.last());
    assert(!has_entry(items, head.len() as int));
    assert forall|p: int| #[trigger] has_entry(items, p) implies exists|r: int|
        0 <= r < rows.len() && (#[trigger] rows[r]).contains(p) by {
        assert(p < head.len());
        let r = choose|r: int| 0 <= r < before.len() && (#[trigger] before[r]).contains(p);
        assert(rows[r].contains(p));
    }
    assert forall|r: int, k: int| 0 <= r < rows.len() && 0 <= k < rows[r].len() implies has_entry(
        items,
        #[trigger] rows[r][k],
    ) && (parted(items, rows[r][k], items.len() as int) <==> r < rows.len() - 1) by {
        assert(has_entry(items, before[r][k]));
    }
    assert forall|r: int, k: int, l: int|
        #![trigger rows[r][k], rows[r][l]]
        0 <= r < rows.len() && 0 <= k < l < rows[r].len() implies rows[r][k] < rows[r][l]
        && !parted(items, rows[r][k], rows[r][l]) by {
        assert(before[r][k] < before[r][l]);
    }
    assert forall|r: int, q: int, k: int, l: int|
        #![trigger rows[r][k], rows[q][l]]
        0 <= r < q < rows.len() && 0 <= k < rows[r].len() && 0 <= l < rows[q].len() implies rows[r][k]
        < rows[q][l] && parted(items, rows[r][k], rows[q][l]) by {
        assert(before[r][k] < before[q][l]);
    }
}

proof fn lemma_add(
    head: Seq<MenuItem>,
    items: Seq<MenuItem>,
    before: Seq<Seq<int>>,
    rows: Seq<Seq<int>>,
)
    requires
        items.len() > 0,
        head == items.drop_last(),
        well_split(head, before),
        carried(items, before, head.len() as int),
        items.last().visible,
        items.last().menu_type is Standard,
        rows == before.update(before.len() - 1, before.last().push(head.len() as int)),
    ensures
        well_split(items, rows),
{
    let m = before.len() - 1;
    let n = head.len() as int;
    assert(items[n] == items.last());
    assert(forall|r: int| 0 <= r < m ==> #[trigger] rows[r] == before[r]);
    assert(rows[m] == before[m].push(n));
    assert forall|r: int, k: int| 0 <= r < before.len() && 0 <= k < before[r].len() implies (
    #[trigger] parted(items, before[r][k], n) <==> r < m) by {
        lemma_parted_later(head, items, before[r][k], n);
        assert(has_entry(head, before[r][k]));
    }
    assert(!parted(items, n, items.len() as int));
    assert(has_entry(items, n));
    assert forall|p: int| #[trigger] has_entry(items, p) implies exists|r: int|
        0 <= r < rows.len() && (#[trigger] rows[r]).contains(p) by {
        if p == n {
            assert(rows[m][before[m].len() as int] == n);
            assert(rows[m].contains(p));
        } else {
            let r = choose|r: int| 0 <= r < before.len() && (#[trigger] before[r]).contains(p);
            let k = choose|k: int| 0 <= k < before[r].len() && before[r][k] == p;
            assert(rows[r][k] == p);
            assert(rows[r].contains(p));
        }
    }
    assert forall|r: int, k: int| 0 <= r < rows.len() && 0 <= k < rows[r].len() implies has_entry(
        items,
        #[trigger] rows[r][k],
    ) && (parted(items, rows[r][k], items.len() as int) <==> r < rows.len() - 1) by {
        if k < before[r].len() {
            assert(rows[r][k] == before[r][k]);
        }
    }
    assert forall|r: int, k: int, l: int|
        #![trigger rows[r][k], rows[r][l]]
        0 <= r < rows.len() && 0 <= k < l < rows[r].len() implies rows[r][k] < rows[r][l]
        && !parted(items, rows[r][k], rows[r][l]) by {
        assert(rows[r][k] == before[r][k]);
        if l < before[r].len() {
            assert(rows[r][l] == before[r][l]);
        } else {
            assert(parted(items, before[r][k], n) <==> r < m);
        }
    }
    assert forall|r: int, q: int, k: int, l: int|
        #![trigger rows[r][k], rows[q][l]]
        0 <= r < q < rows.len() && 0 <= k < rows[r].len() && 0 <= l < rows[q].len() implies rows[r][k]
        < rows[q][l] && parted(items, rows[r][k], rows[q][l]) by {
        assert(rows[r][k] == before[r][k]);
        if l < before[q].len() {
            assert(rows[q][l] == before[q][l]);
        } else {
            assert(parted(items, before[r][k], n) <==> r < m);
        }
    }
}

/// An item has an action exactly where it has an entry and opens no submenu;
/// what a submenu has counts in its place.
pub proof fn law_which_items_have_actions(items: Seq<MenuItem>, item: MenuItem)
    ensures
        ({
            let more = acted(items.push(item));
            let shown = item.visible && item.menu_type is Standard;
            let below = item.children_display is Some && item.children_display->0@ == "submenu"@;
            &&& !shown ==> more == acted(items)
            &&& shown && !below ==> more == acted(items).push(item.id)
            &&& shown && below ==> more == acted(items) + acted(item.submenu@)
            &&& acted(Seq::empty()).len() == 0
        }),
{
    assert(items.push(item).drop_last() =~= items);
    assert(items.push(item).last() == item);
    assert(acted(items) + seq![item.id] =~= acted(items).push(item.id));
    assert(acted(items) + Seq::<i32>::empty() =~= acted(items));
}

/// A refresh tells of each item whose action the menu has whether it is enabled
/// and, where it toggles, whether it is on; the items below it are told too.
pub proof fn law_a_refresh_tells_the_items_state(items: Seq<MenuItem>, group: Seq<i32>, i: int)
    requires
        0 <= i < items.len(),
    ensures
        group.contains(items[i].id) ==> updates(items, group).contains(
            Update {
                id: items[i].id,
                enabled: items[i].enabled,
                state: match items[i].toggle_type {
                    ToggleType::Checkmark => ActionState::Check(items[i].toggle_state is On),
                    ToggleType::Radio => ActionState::Radio(items[i].toggle_state is On),
                    ToggleType::CannotBeToggled => ActionState::Plain,
                },
            },
        ),
        forall|u: Update| #[trigger]
            updates(items[i].submenu@, group).contains(u) ==> updates(items, group).contains(u),
    decreases items.len(),
{
    let item = items.last();
    let head = items.drop_last();
    let before = updates(head, group);
    let own = if group.contains(item.id) {
        seq![Update { id: item.id, enabled: item.enabled, state: state_of(item) }]
    } else {
        Seq::empty()
    };
    let below = updates(item.submenu@, group);
    let all = before + own + below;
    assert(all == updates(items, group));
    assert forall|u: Update| before.contains(u) implies #[trigger] all.contains(u) by {
        let k = choose|k: int| 0 <= k < before.len() && before[k] == u;
        assert(all[k] == u);
    }
    assert forall|u: Update| below.contains(u) implies #[trigger] all.contains(u) by {
        let k = choose|k: int| 0 <= k < below.len() && below[k] == u;
        assert(all[before.len() + own.len() + k] == u);
    }
    if i < head.len() {
        assert(head[i] == items[i]);
        law_a_refresh_tells_the_items_state(head, group, i);
    } else if group.contains(item.id) {
        assert(all[before.len() as int] == own[0]);
    }
}

/// A refresh never tells of an action that the menu does not have.
pub proof fn law_a_refresh_keeps_to_the_menu(items: Seq<MenuItem>, group: Seq<i32>, k: int)
    requires
        0 <= k < updates(items, group).len(),
    ensures
        group.contains(updates(items, group)[k].id),
    decreases items,
{
    let item = items.last();
    let before = updates(items.drop_last(), group);
    let own = if group.contains(item.id) {
        seq![Update { id: item.id, enabled: item.enabled, state: state_of(item) }]
    } else {
        Seq::empty()
    };
    let all = before + own + updates(item.submenu@, group);
    assert(all == updates(items, group));
    if k < before.len() {
        law_a_refresh_keeps_to_the_menu(items.drop_last(), group, k);
    } else if k >= before.len() + own.len() {
        law_a_refresh_keeps_to_the_menu(item.submenu@, group, k - before.len() - own.len());
    }
}

/// A menu keeps its actions for as long as the structure of its layout stays,
/// and else has those of the new layout.
pub proof fn law_a_menu_has_the_actions_of_its_layout(
    ui: MenuModel,
    a: Seq<MenuItem>,
    b: Seq<MenuItem>,
)
    ensures
        laid_out(laid_out(ui, a), a) == laid_out(ui, a),
        structure(a) == structure(b) ==> laid_out(laid_out(ui, a), b) == laid_out(ui, a),
        ui.signature != signed(a) ==> laid_out(ui, a).group == Some(acted(a)) && laid_out(
            ui,
            a,
        ).signature == signed(a),
{
}

} // verus!
