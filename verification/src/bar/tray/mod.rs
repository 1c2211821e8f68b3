//! The system tray: which buttons it has, and what an update or a click takes.
//!
//! A left click activates an item (one that is only a menu opens it instead),
//! a right click opens its menu, a middle click activates it secondarily.

use vstd::prelude::*;
use vstd::string::*;
use crate::bar::tray::icon::{IconPixmap, IconSource, Status};
use crate::bar::tray::service::TrayItem;
use crate::text::{is_listed, push_text, same, same_text, text_of, texts};

pub mod icon;
pub mod menu;
pub mod service;

verus! {

/// New layouts for an open menu are batched for this long, in milliseconds.
pub const MENU_DEBOUNCE_MS: u64 = 50;

/// What the icon of an item is drawn from; it is drawn anew only when one of
/// these changes.
#[derive(Debug, PartialEq, Eq)]
pub struct IconKey {
    pub icon_name: Option<String>,
    pub attention_icon_name: Option<String>,
    pub status: Status,
    /// All its pictures: those for attention last.
    pub pictures: Vec<IconPixmap>,
}

/// An [`IconKey`] as the contracts speak of it.
#[verifier::ext_equal]
pub struct KeyModel {
    pub icon_name: Option<Seq<char>>,
    pub attention_icon_name: Option<Seq<char>>,
    pub status: Status,
    pub pictures: Seq<(i32, i32, Seq<u8>)>,
}

/// A picture as plain values.
pub open spec fn plain(p: IconPixmap) -> (i32, i32, Seq<u8>) {
    (p.width, p.height, p.pixels@)
}

/// Pictures as plain values.
pub open spec fn plains(list: Seq<IconPixmap>) -> Seq<(i32, i32, Seq<u8>)> {
    list.map_values(|p: IconPixmap| plain(p))
}

impl View for IconKey {
    type V = KeyModel;

    open spec fn view(&self) -> KeyModel {
        KeyModel {
            icon_name: text_of(self.icon_name),
            attention_icon_name: text_of(self.attention_icon_name),
            status: self.status,
            pictures: plains(self.pictures@),
        }
    }
}

/// Pictures that may be missing.
pub open spec fn any_plains(list: Option<Vec<IconPixmap>>) -> Seq<(i32, i32, Seq<u8>)> {
    match list {
        Some(l) => plains(l@),
        None => Seq::empty(),
    }
}

/// What an icon is drawn from.
pub open spec fn key_of(s: IconSource) -> KeyModel {
    KeyModel {
        icon_name: text_of(s.icon_name),
        attention_icon_name: text_of(s.attention_icon_name),
        status: s.status,
        pictures: any_plains(s.icon_pixmap) + any_plains(s.attention_icon_pixmap),
    }
}

fn copy_pixels(pixels: &Vec<u8>) -> (r: Vec<u8>)
    ensures
        r@ == pixels@,
{
    let mut r: Vec<u8> = Vec::new();
    let mut i: usize = 0;
    while i < pixels.len()
        invariant
            i <= pixels@.len(),
            r@ == pixels@.take(i as int),
        decreases pixels@.len() - i,
    {
        r.push(pixels[i]);
        assert(pixels@.take(i + 1) =~= pixels@.take(i as int).push(pixels@[i as int]));
        i += 1;
    }
    assert(pixels@.take(pixels@.len() as int) =~= pixels@);
    r
}

fn push_pictures(out: &mut Vec<IconPixmap>, list: &Option<Vec<IconPixmap>>)
    ensures
        plains(final(out)@) == plains(old(out)@) + any_plains(*list),
{
    let ghost start = plains(out@);
    if let Some(l) = list {
        let mut i: usize = 0;
        assert(plains(out@) =~= start + plains(l@).take(0));
        while i < l.len()
            invariant
                i <= l@.len(),
                plains(out@) == start + plains(l@).take(i as int),
            decreases l@.len() - i,
        {
            let ghost before = out@;
            let p = IconPixmap {
                width: l[i].width,
                height: l[i].height,
                pixels: copy_pixels(&l[i].pixels),
            };
            out.push(p);
            assert(plains(out@) =~= plains(before).push(plain(p)));
            assert(plains(l@)[i as int] == plain(p));
            assert(plains(out@) =~= start + plains(l@).take(i + 1));
            i += 1;
        }
        assert(plains(l@).take(l@.len() as int) =~= plains(l@));
    }
    assert(plains(out@) =~= start + any_plains(*list));
}

fn copy_text(s: &Option<String>) -> (r: Option<String>)
    ensures
        r == *s,
{
    match s {
        Some(t) => Some(t.clone()),
        None => None,
    }
}

fn same_pictures(a: &Vec<IconPixmap>, b: &Vec<IconPixmap>) -> (r: bool)
    ensures
        r == (plains(a@) == plains(b@)),
{
    if a.len() != b.len() {
        assert(plains(a@).len() != plains(b@).len());
        return false;
    }
    let mut i: usize = 0;
    while i < a.len()
        invariant
            i <= a@.len(),
            a@.len() == b@.len(),
            forall|j: int| 0 <= j < i ==> plain(#[trigger] a@[j]) == plain(b@[j]),
        decreases a@.len() - i,
    {
        if a[i].width != b[i].width || a[i].height != b[i].height || !same_pixels(
            &a[i].pixels,
            &b[i].pixels,
        ) {
            assert(plains(a@)[i as int] != plains(b@)[i as int]);
            return false;
        }
        i += 1;
    }
    assert(plains(a@) =~= plains(b@));
    true
}

fn same_pixels(a: &Vec<u8>, b: &Vec<u8>) -> (r: bool)
    ensures
        r == (a@ == b@),
{
    if a.len() != b.len() {
        return false;
    }
    let mut i: usize = 0;
    while i < a.len()
        invariant
            i <= a@.len(),
            a@.len() == b@.len(),
            forall|j: int| 0 <= j < i ==> a@[j] == b@[j],
        decreases a@.len() - i,
    {
        if a[i] != b[i] {
            return false;
        }
        i += 1;
    }
    assert(a@ =~= b@);
    true
}

impl IconKey {
    /// What the icon of an item is drawn from.
    pub fn of(s: &IconSource) -> (r: IconKey)
        ensures
            r@ == key_of(*s),
    {
        let mut pictures: Vec<IconPixmap> = Vec::new();
        push_pictures(&mut pictures, &s.icon_pixmap);
        push_pictures(&mut pictures, &s.attention_icon_pixmap);
        let r = IconKey {
            icon_name: copy_text(&s.icon_name),
            attention_icon_name: copy_text(&s.attention_icon_name),
            status: s.status,
            pictures,
        };
        assert(r@ =~= key_of(*s));
        r
    }

    fn same(&self, other: &IconKey) -> (r: bool)
        ensures
            r == (self@ == other@),
    {
        same_text(&self.icon_name, &other.icon_name) && same_text(
            &self.attention_icon_name,
            &other.attention_icon_name,
        ) && self.status == other.status && same_pictures(&self.pictures, &other.pictures)
    }
}

/// The tooltip of an item: that it asks for, else its title.
pub open spec fn tooltip_of(item: TrayItem) -> Option<Seq<char>> {
    if item.tooltip is Some && item.tooltip->0@.len() > 0 {
        Some(item.tooltip->0@)
    } else {
        text_of(item.title)
    }
}

/// The tooltip of an item: that it asks for, else its title.
pub fn tooltip(item: &TrayItem) -> (r: Option<String>)
    ensures
        text_of(r) == tooltip_of(*item),
{
    if let Some(t) = &item.tooltip {
        proof {
            reveal_strlit("");
            if t@.len() == 0 {
                assert(t@ =~= ""@);
            }
        }
        if !same(t.as_str(), "") {
            return Some(t.clone());
        }
    }
    copy_text(&item.title)
}

/// What an update of an item takes.
#[derive(Debug, PartialEq, Eq)]
pub struct ItemUpdate {
    /// Draw the icon anew.
    pub icon: bool,
    pub passive: bool,
    pub needs_attention: bool,
    pub tooltip: Option<String>,
    /// Push the layout into the open menu after [`MENU_DEBOUNCE_MS`].
    pub push_layout: bool,
}

/// The button of an item: what its icon was drawn from, and whether a layout
/// is about to be pushed into its open menu.
#[derive(Debug)]
pub struct ItemUi {
    icon_key: Option<IconKey>,
    pending: bool,
}

/// An [`ItemUi`] as the contracts speak of it.
pub struct ItemModel {
    pub icon_key: Option<KeyModel>,
    pub pending: bool,
}

impl View for ItemUi {
    type V = ItemModel;

    closed spec fn view(&self) -> ItemModel {
        ItemModel {
            icon_key: match self.icon_key {
                Some(k) => Some(k@),
                None => None,
            },
            pending: self.pending,
        }
    }
}

impl ItemUi {
    /// A button without an icon.
    pub fn new() -> (r: ItemUi)
        ensures
            r@ == (ItemModel { icon_key: None, pending: false }),
    {
        ItemUi { icon_key: None, pending: false }
    }

    /// Follows an item. Only an open menu needs its layout pushed, and not
    /// while a push is under way.
    pub fn update(&mut self, item: &TrayItem, open: bool) -> (r: ItemUpdate)
        ensures
            final(self)@ == (ItemModel {
                icon_key: Some(key_of(item.icon)),
                pending: old(self)@.pending || open,
            }),
            r.icon == (old(self)@.icon_key != Some(key_of(item.icon))),
            r.passive == (item.icon.status == Status::Passive),
            r.needs_attention == (item.icon.status == Status::NeedsAttention),
            text_of(r.tooltip) == tooltip_of(*item),
            r.push_layout == (open && !old(self)@.pending),
    {
        let key = IconKey::of(&item.icon);
        let known = match &self.icon_key {
            Some(k) => k.same(&key),
            None => false,
        };
        let push_layout = open && !self.pending;
        self.icon_key = Some(key);
        self.pending = self.pending || open;
        ItemUpdate {
            icon: !known,
            passive: item.icon.status == Status::Passive,
            needs_attention: item.icon.status == Status::NeedsAttention,
            tooltip: tooltip(item),
            push_layout,
        }
    }

    /// The batch is over: whether a layout is pushed, given whether the item
    /// still has one and its menu is still open.
    pub fn push_due(&mut self, has_layout: bool, open: bool) -> (r: bool)
        ensures
            final(self)@ == (ItemModel { pending: false, ..old(self)@ }),
            r == (has_layout && open),
    {
        self.pending = false;
        has_layout && open
    }
}

/// A mouse button.
#[derive(Debug, Clone, Copy, PartialEq, Eq, Structural)]
pub enum Click {
    Primary,
    Secondary,
    Middle,
    Other,
}

/// What a click takes.
#[derive(Debug, Clone, Copy, PartialEq, Eq, Structural)]
pub enum Press {
    Activate,
    ActivateSecondary,
    OpenMenu,
    Nothing,
}

/// What a click on an item takes.
pub open spec fn click_takes(click: Click, is_menu: Option<bool>) -> Press {
    match (click, is_menu) {
        (Click::Primary, Some(true)) => Press::OpenMenu,
        (Click::Primary, Some(false)) => Press::Activate,
        (Click::Secondary, Some(_)) => Press::OpenMenu,
        (Click::Middle, _) => Press::ActivateSecondary,
        _ => Press::Nothing,
    }
}

/// What a click on an item takes; `is_menu` is whether it has a menu and
/// nothing else, `None` for an item that is gone.
pub fn press(click: Click, is_menu: Option<bool>) -> (r: Press)
    ensures
        r == click_takes(click, is_menu),
{
    match (click, is_menu) {
        (Click::Primary, Some(true)) => Press::OpenMenu,
        (Click::Primary, Some(false)) => Press::Activate,
        (Click::Secondary, Some(_)) => Press::OpenMenu,
        (Click::Middle, _) => Press::ActivateSecondary,
        _ => Press::Nothing,
    }
}

/// What opening a menu takes.
#[derive(Debug, Clone, Copy, PartialEq, Eq, Structural)]
pub enum Opening {
    /// The item has no menu.
    Nothing,
    /// Tell the item; its layout arrives as an update.
    Tell,
    /// Tell the item, and show the layout it has.
    TellAndShow,
}

/// What opening the menu of an item takes.
pub open spec fn opening(item: TrayItem) -> Opening {
    if item.menu_path is None {
        Opening::Nothing
    } else if item.menu is None {
        Opening::Tell
    } else {
        Opening::TellAndShow
    }
}

/// What opening the menu of an item takes. The item is told first, so that
/// one that fills its menu late can do so.
pub fn open_menu(item: &TrayItem) -> (r: Opening)
    ensures
        r == opening(*item),
{
    if item.menu_path.is_none() {
        Opening::Nothing
    } else if item.menu.is_none() {
        Opening::Tell
    } else {
        Opening::TellAndShow
    }
}

/// The addresses of items, in their order.
pub open spec fn addresses(items: Seq<TrayItem>) -> Seq<Seq<char>> {
    items.map_values(|i: TrayItem| i.address@)
}

/// Texts that are not in a list.
pub open spec fn not_among(list: Seq<Seq<char>>) -> spec_fn(Seq<char>) -> bool {
    |a: Seq<char>| !list.contains(a)
}

/// The buttons of items: one for each address, in the order of the items.
pub open spec fn button_order(items: Seq<Seq<char>>) -> Seq<Seq<char>>
    decreases items.len(),
{
    if items.len() == 0 {
        Seq::empty()
    } else {
        let before = button_order(items.drop_last());
        if before.contains(items.last()) {
            before
        } else {
            before.push(items.last())
        }
    }
}

/// What following the items takes: which buttons go, and the buttons there are
/// then, in order, each with whether it is new.
#[derive(Debug, PartialEq, Eq)]
pub struct Sync {
    pub remove: Vec<String>,
    pub order: Vec<(String, bool)>,
    pub visible: bool,
}

/// The addresses of the buttons, in order.
pub open spec fn ordered(v: Seq<(String, bool)>) -> Seq<Seq<char>> {
    v.map_values(|e: (String, bool)| e.0@)
}

/// The buttons of the tray, by address.
#[derive(Debug)]
pub struct Tray {
    buttons: Vec<String>,
}

impl View for Tray {
    type V = Seq<Seq<char>>;

    closed spec fn view(&self) -> Seq<Seq<char>> {
        texts(self.buttons@)
    }
}

impl Tray {
    /// No buttons.
    pub fn new() -> (r: Tray)
        ensures
            r@.len() == 0,
    {
        Tray { buttons: Vec::new() }
    }

    /// Follows the items: a button is kept for as long as its item is there,
    /// so that an open menu survives updates of other items; the order is that
    /// of the items. Without items the tray is hidden.
    pub fn sync_items(&mut self, items: &Vec<TrayItem>) -> (r: Sync)
        ensures
            texts(r.remove@) == old(self)@.filter(not_among(addresses(items@))),
            ordered(r.order@) == button_order(addresses(items@)),
            forall|i: int|
                0 <= i < r.order@.len() ==> (#[trigger] r.order@[i]).1 == !old(self)@.contains(
                    r.order@[i].0@,
                ),
            r.visible == (items@.len() > 0),
            final(self)@ == ordered(r.order@),
    {
        let buttons = &self.buttons;
        let mut wanted: Vec<String> = Vec::new();
        let mut order: Vec<(String, bool)> = Vec::new();
        let mut next: Vec<String> = Vec::new();
        let mut i: usize = 0;
        assert(texts(wanted@) =~= addresses(items@.take(0)));
        assert(ordered(order@) =~= button_order(addresses(items@.take(0))));
        assert(texts(next@) =~= ordered(order@));
        while i < items.len()
            invariant
                i <= items@.len(),
                texts(wanted@) == addresses(items@.take(i as int)),
                ordered(order@) == button_order(addresses(items@.take(i as int))),
                texts(next@) == ordered(order@),
                forall|j: int|
                    0 <= j < order@.len() ==> (#[trigger] order@[j]).1 == !texts(buttons@).contains(
                        order@[j].0@,
                    ),
            decreases items@.len() - i,
        {
            let ghost known = addresses(items@.take(i as int));
            let ghost more = addresses(items@.take(i + 1));
            assert(more =~= known.push(items@[i as int].address@));
            assert(more.drop_last() =~= known);
            let address = &items[i].address;
            if !is_listed(&next, address.as_str()) {
                let fresh = !is_listed(buttons, address.as_str());
                let ghost before = order@;
                order.push((address.clone(), fresh));
                assert(ordered(order@) =~= ordered(before).push(address@));
                push_text(&mut next, address.clone());
            }
            push_text(&mut wanted, address.clone());
            i += 1;
        }
        assert(items@.take(items@.len() as int) =~= items@);
        let mut remove: Vec<String> = Vec::new();
        let mut k: usize = 0;
        proof {
            reveal(Seq::filter);
            assert(texts(remove@) =~= texts(buttons@).take(0).filter(
                not_among(addresses(items@)),
            ));
        }
        while k < buttons.len()
            invariant
                k <= buttons@.len(),
                texts(wanted@) == addresses(items@),
                texts(remove@) == texts(buttons@).take(k as int).filter(
                    not_among(addresses(items@)),
                ),
            decreases buttons@.len() - k,
        {
            assert(texts(buttons@).take(k + 1).drop_last() =~= texts(buttons@).take(k as int));
            assert(texts(buttons@).take(k + 1).last() == buttons@[k as int]@);
            proof {
                reveal(Seq::filter);
            }
            if !is_listed(&wanted, buttons[k].as_str()) {
                push_text(&mut remove, buttons[k].clone());
            }
            k += 1;
        }
        assert(texts(buttons@).take(buttons@.len() as int) =~= texts(buttons@));
        self.buttons = next;
        Sync { remove, order, visible: items.len() > 0 }
    }
}

proof fn lemma_button_order(items: Seq<Seq<char>>)
    ensures
        forall|a: Seq<char>| #[trigger] button_order(items).contains(a) <==> items.contains(a),
        button_order(items).no_duplicates(),
        items.no_duplicates() ==> button_order(items) == items,
    decreases items.len(),
{
    if items.len() > 0 {
        let head = items.drop_last();
        let before = button_order(head);
        let x = items.last();
        lemma_button_order(head);
        assert(items =~= head.push(x));
        assert forall|a: Seq<char>| #[trigger]
            button_order(items).contains(a) <==> items.contains(a) by {
            assert(items[items.len() - 1] == x);
            if items.contains(a) && a != x {
                let i = choose|i: int| 0 <= i < items.len() && items[i] == a;
                assert(head[i] == a);
            }
            if head.contains(a) {
                let i = choose|i: int| 0 <= i < head.len() && head[i] == a;
                assert(items[i] == a);
            }
            if !before.contains(x) {
                assert(before.push(x)[before.len() as int] == x);
                if before.contains(a) {
                    let i = choose|i: int| 0 <= i < before.len() && before[i] == a;
                    assert(before.push(x)[i] == a);
                }
            }
        }
        if items.no_duplicates() {
            assert(head.no_duplicates());
            assert(!head.contains(x)) by {
                if head.contains(x) {
                    let i = choose|i: int| 0 <= i < head.len() && head[i] == x;
                    assert(items[i] == items[items.len() - 1]);
                }
            }
        }
    } else {
        assert(items =~= Seq::empty());
    }
}

/// Items with addresses of their own have one button each, in their order;
/// every button whose item is gone is taken away.
pub proof fn law_one_button_for_each_item(
    buttons: Seq<Seq<char>>,
    items: Seq<Seq<char>>,
    a: Seq<char>,
)
    requires
        items.no_duplicates(),
    ensures
        button_order(items) == items,
        buttons.contains(a) && !items.contains(a) ==> buttons.filter(not_among(items)).contains(a),
{
    lemma_button_order(items);
    if buttons.contains(a) && !items.contains(a) {
        let i = choose|i: int| 0 <= i < buttons.len() && buttons[i] == a;
        buttons.lemma_filter_contains(not_among(items), i);
    }
}

/// A tooltip is the one the item asks for, where it says anything, else its
/// title; with neither there is none.
pub proof fn law_where_a_tooltip_comes_from(item: TrayItem)
    ensures
        item.tooltip is Some && item.tooltip->0@.len() > 0 ==> tooltip_of(item) == Some(
            item.tooltip->0@,
        ),
        (item.tooltip is None || item.tooltip->0@.len() == 0) && item.title is Some ==> tooltip_of(
            item,
        ) == Some(item.title->0@),
        (item.tooltip is None || item.tooltip->0@.len() == 0) && item.title is None ==> tooltip_of(
            item,
        ) is None,
{
}

/// An icon is drawn anew whenever its status, either of its names, or any of its
/// pictures is another one; where the item keeps icons of its own is no matter.
pub proof fn law_what_redraws_an_icon(a: IconSource, b: IconSource)
    ensures
        key_of(a) == key_of(b) ==> {
            &&& a.status == b.status
            &&& text_of(a.icon_name) == text_of(b.icon_name)
            &&& text_of(a.attention_icon_name) == text_of(b.attention_icon_name)
        },
        ({
            let same = {
                &&& a.status == b.status
                &&& text_of(a.icon_name) == text_of(b.icon_name)
                &&& text_of(a.attention_icon_name) == text_of(b.attention_icon_name)
                &&& a.icon_pixmap == b.icon_pixmap
                &&& a.attention_icon_pixmap == b.attention_icon_pixmap
            };
            same ==> key_of(a) == key_of(b)
        }),
{
}

/// Another size or other bytes of a picture draw the icon anew, be it for
/// attention or not.
pub proof fn law_another_picture_redraws_the_icon(a: IconSource, b: IconSource, i: int)
    ensures
        a.icon_pixmap is Some && b.icon_pixmap is Some && 0 <= i < a.icon_pixmap->0@.len() && i
            < b.icon_pixmap->0@.len() && {
            let p = a.icon_pixmap->0@[i];
            let q = b.icon_pixmap->0@[i];
            p.width != q.width || p.height != q.height || p.pixels@ != q.pixels@
        } ==> key_of(a) != key_of(b),
        a.icon_pixmap is None && b.icon_pixmap is None && a.attention_icon_pixmap is Some
            && b.attention_icon_pixmap is Some && 0 <= i < a.attention_icon_pixmap->0@.len() && i
            < b.attention_icon_pixmap->0@.len() && {
            let p = a.attention_icon_pixmap->0@[i];
            let q = b.attention_icon_pixmap->0@[i];
            p.width != q.width || p.height != q.height || p.pixels@ != q.pixels@
        } ==> key_of(a) != key_of(b),
{
    if a.icon_pixmap is Some && b.icon_pixmap is Some && 0 <= i < a.icon_pixmap->0@.len() && i
        < b.icon_pixmap->0@.len() {
        assert(key_of(a).pictures[i] == plain(a.icon_pixmap->0@[i]));
        assert(key_of(b).pictures[i] == plain(b.icon_pixmap->0@[i]));
    }
    if a.icon_pixmap is None && b.icon_pixmap is None && a.attention_icon_pixmap is Some
        && b.attention_icon_pixmap is Some && 0 <= i < a.attention_icon_pixmap->0@.len() && i
        < b.attention_icon_pixmap->0@.len() {
        assert(key_of(a).pictures[i] == plain(a.attention_icon_pixmap->0@[i]));
        assert(key_of(b).pictures[i] == plain(b.attention_icon_pixmap->0@[i]));
    }
}

/// Whatever the items are, an address has a button exactly when an item has it,
/// and no two buttons share one; a button goes only where no item has its
/// address.
pub proof fn law_which_addresses_have_buttons(
    buttons: Seq<Seq<char>>,
    items: Seq<TrayItem>,
    a: Seq<char>,
)
    ensures
        button_order(addresses(items)).contains(a) <==> exists|i: int|
            0 <= i < items.len() && (#[trigger] items[i]).address@ == a,
        button_order(addresses(items)).no_duplicates(),
        buttons.filter(not_among(addresses(items))).contains(a) ==> buttons.contains(a) && forall|
            i: int,
        |
            0 <= i < items.len() ==> (#[trigger] items[i]).address@ != a,
{
    let list = addresses(items);
    lemma_button_order(list);
    if list.contains(a) {
        let i = choose|i: int| 0 <= i < list.len() && list[i] == a;
        assert(items[i].address@ == a);
    }
    assert forall|i: int| 0 <= i < items.len() && (#[trigger] items[i]).address@
        == a implies list.contains(a) by {
        assert(list[i] == a);
    }
    if buttons.filter(not_among(list)).contains(a) {
        let f = buttons.filter(not_among(list));
        let k = choose|k: int| 0 <= k < f.len() && f[k] == a;
        buttons.lemma_filter_pred(not_among(list), k);
        buttons.lemma_filter_contains_rev(not_among(list), a);
    }
}

/// A left click activates an item, or opens the menu of one that is nothing but
/// a menu; a right click opens the menu of any. A middle click activates it
/// secondarily, and other buttons do nothing; nor do left and right on an item
/// that is gone.
pub proof fn law_what_a_click_takes(is_menu: bool, any: Option<bool>)
    ensures
        click_takes(Click::Primary, Some(false)) is Activate,
        click_takes(Click::Primary, Some(true)) is OpenMenu,
        click_takes(Click::Secondary, Some(is_menu)) is OpenMenu,
        click_takes(Click::Middle, any) is ActivateSecondary,
        click_takes(Click::Other, any) is Nothing,
        click_takes(Click::Primary, None) is Nothing,
        click_takes(Click::Secondary, None) is Nothing,
{
}

/// An item that has a menu is told before it opens, and the menu is shown where
/// its layout is there already.
pub proof fn law_an_item_is_told_of_its_menu(item: TrayItem)
    ensures
        opening(item) is Nothing <==> item.menu_path is None,
        opening(item) is TellAndShow <==> item.menu_path is Some && item.menu is Some,
        MENU_DEBOUNCE_MS == 50,
{
}

} // verus!
