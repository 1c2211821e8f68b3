//! Tray icons: a theme name first, an ARGB32 pixmap otherwise.

use vstd::prelude::*;
use vstd::string::*;
use crate::text::chars_of;

verus! {

/// The edge of a tray icon.
pub const ICON_SIZE: i32 = 15;

/// How an item presents itself.
#[derive(Debug, Clone, Copy, PartialEq, Eq, Structural)]
pub enum Status {
    Unknown,
    Passive,
    Active,
    NeedsAttention,
}

/// A picture in ARGB32, in network byte order, not premultiplied.
#[derive(Debug, PartialEq, Eq)]
pub struct IconPixmap {
    pub width: i32,
    pub height: i32,
    pub pixels: Vec<u8>,
}

/// A color channel scaled by its pixel's alpha.
pub open spec fn scaled(c: u8, a: u8) -> u8 {
    ((c as int * a as int) / 255) as u8
}

/// A byte of a premultiplied picture: alpha and a cut-off last pixel stay as
/// they are, a color is scaled by its pixel's alpha.
pub open spec fn premultiplied_at(pixels: Seq<u8>, i: int) -> u8 {
    if i % 4 == 0 || i - i % 4 + 4 > pixels.len() {
        pixels[i]
    } else {
        scaled(pixels[i], pixels[i - i % 4])
    }
}

/// The premultiplied picture.
pub open spec fn premultiplied(pixels: Seq<u8>) -> Seq<u8> {
    Seq::new(pixels.len(), |i: int| premultiplied_at(pixels, i))
}

fn scale(c: u8, a: u8) -> (r: u8)
    ensures
        r == scaled(c, a),
{
    assert(0 <= c * a <= 255 * 255) by (nonlinear_arith)
        requires
            0 <= c <= 255,
            0 <= a <= 255,
    ;
    ((c as u16 * a as u16) / 255) as u8
}

/// Premultiplies a picture: bytes stand as alpha, red, green, blue.
pub fn premultiply(pixels: Vec<u8>) -> (r: Vec<u8>)
    ensures
        r@ == premultiplied(pixels@),
{
    let mut out: Vec<u8> = Vec::new();
    let mut i: usize = 0;
    while i < pixels.len()
        invariant
            i <= pixels@.len(),
            out@.len() == i,
            forall|j: int| 0 <= j < i ==> #[trigger] out@[j] == premultiplied_at(pixels@, j),
        decreases pixels@.len() - i,
    {
        let at: usize = i % 4;
        if at == 0 || pixels.len() - (i - at) < 4 {
            out.push(pixels[i]);
        } else {
            out.push(scale(pixels[i], pixels[i - at]));
        }
        i += 1;
    }
    assert(out@ =~= premultiplied(pixels@));
    out
}

/// The shorter edge of a picture.
pub open spec fn extent(p: IconPixmap) -> i32 {
    if p.width < p.height {
        p.width
    } else {
        p.height
    }
}

/// Whether a picture holds as many bytes as its size says.
pub open spec fn well_formed(p: IconPixmap) -> bool {
    p.width > 0 && p.height > 0 && p.pixels@.len() == p.width * p.height * 4
}

/// The first of the smallest well-formed pictures that cover `target`.
pub open spec fn smallest_covering(list: Seq<IconPixmap>, target: i32) -> Option<int>
    decreases list.len(),
{
    if list.len() == 0 {
        None
    } else {
        let before = smallest_covering(list.drop_last(), target);
        let p = list.last();
        if well_formed(p) && extent(p) >= target && (before is None || extent(p) < extent(
            list[before->0],
        )) {
            Some(list.len() - 1)
        } else {
            before
        }
    }
}

/// The last of the largest well-formed pictures.
pub open spec fn largest(list: Seq<IconPixmap>) -> Option<int>
    decreases list.len(),
{
    if list.len() == 0 {
        None
    } else {
        let before = largest(list.drop_last());
        let p = list.last();
        if well_formed(p) && (before is None || extent(p) >= extent(list[before->0])) {
            Some(list.len() - 1)
        } else {
            before
        }
    }
}

/// Which picture is drawn at a size.
pub open spec fn picked(list: Seq<IconPixmap>, target: i32) -> Option<int> {
    if smallest_covering(list, target) is Some {
        smallest_covering(list, target)
    } else {
        largest(list)
    }
}

fn is_well_formed(p: &IconPixmap) -> (r: bool)
    ensures
        r == well_formed(*p),
{
    if p.width <= 0 || p.height <= 0 {
        return false;
    }
    assert(0 <= p.width * p.height <= 0x7fff_ffff * 0x7fff_ffff) by (nonlinear_arith)
        requires
            0 <= p.width <= 0x7fff_ffff,
            0 <= p.height <= 0x7fff_ffff,
    ;
    p.pixels.len() as u64 == p.width as u64 * p.height as u64 * 4
}

fn edge(p: &IconPixmap) -> (r: i32)
    ensures
        r == extent(*p),
{
    if p.width < p.height {
        p.width
    } else {
        p.height
    }
}

/// The smallest picture that covers `target`, else the largest there is: a
/// scaler shrinks better than it grows. Pictures whose buffer does not match
/// their size are skipped.
pub fn pick_pixmap(pixmaps: &[IconPixmap], target: i32) -> (r: Option<&IconPixmap>)
    ensures
        match picked(pixmaps@, target) {
            Some(i) => 0 <= i < pixmaps@.len() && r == Some(&pixmaps@[i]),
            None => r is None,
        },
{
    let mut covering: Option<usize> = None;
    let mut most: Option<usize> = None;
    let mut i: usize = 0;
    while i < pixmaps.len()
        invariant
            i <= pixmaps@.len(),
            match covering {
                Some(k) => k < i && smallest_covering(pixmaps@.take(i as int), target) == Some(
                    k as int,
                ),
                None => smallest_covering(pixmaps@.take(i as int), target) is None,
            },
            match most {
                Some(k) => k < i && largest(pixmaps@.take(i as int)) == Some(k as int),
                None => largest(pixmaps@.take(i as int)) is None,
            },
        decreases pixmaps@.len() - i,
    {
        assert(pixmaps@.take(i + 1).drop_last() =~= pixmaps@.take(i as int));
        assert(pixmaps@.take(i + 1).last() == pixmaps@[i as int]);
        let p = &pixmaps[i];
        if is_well_formed(p) {
            let e: i32 = edge(p);
            let smaller = match covering {
                Some(k) => e < edge(&pixmaps[k]),
                None => true,
            };
            if e >= target && smaller {
                covering = Some(i);
            }
            let larger = match most {
                Some(k) => e >= edge(&pixmaps[k]),
                None => true,
            };
            if larger {
                most = Some(i);
            }
        }
        i += 1;
    }
    assert(pixmaps@.take(pixmaps@.len() as int) =~= pixmaps@);
    match covering {
        Some(k) => Some(&pixmaps[k]),
        None => match most {
            Some(k) => Some(&pixmaps[k]),
            None => None,
        },
    }
}

/// What an item says of its icon.
#[derive(Debug, PartialEq, Eq)]
pub struct IconSource {
    pub status: Status,
    pub icon_name: Option<String>,
    pub attention_icon_name: Option<String>,
    pub icon_pixmap: Option<Vec<IconPixmap>>,
    pub attention_icon_pixmap: Option<Vec<IconPixmap>>,
    /// Where the item keeps icons of its own.
    pub icon_theme_path: Option<String>,
}

impl IconSource {
    /// The name in force: that for attention where the item asks for it and
    /// has one.
    pub open spec fn name(self) -> Option<String> {
        if self.status == Status::NeedsAttention && self.attention_icon_name is Some {
            self.attention_icon_name
        } else {
            self.icon_name
        }
    }

    /// The pictures in force, likewise.
    pub open spec fn pictures(self) -> Option<Vec<IconPixmap>> {
        if self.status == Status::NeedsAttention && self.attention_icon_pixmap is Some {
            self.attention_icon_pixmap
        } else {
            self.icon_pixmap
        }
    }
}

/// What a name asks for.
#[derive(Debug, PartialEq, Eq)]
pub enum Named<'a> {
    /// A file, by its absolute path.
    File(&'a str),
    /// An icon of the theme.
    Theme(&'a str),
    Nothing,
}

/// What a name asks for.
pub open spec fn asked(name: Option<String>, n: Named) -> bool {
    match n {
        Named::File(p) => name is Some && name->0@ == p@ && p@.len() > 0 && p@[0] == '/',
        Named::Theme(p) => name is Some && name->0@ == p@ && p@.len() > 0 && p@[0] != '/',
        Named::Nothing => name is None || name->0@.len() == 0,
    }
}

/// What the icon's name asks for; some items hand a path in place of a theme
/// name.
pub fn named_icon(source: &IconSource) -> (r: Named<'_>)
    ensures
        asked(source.name(), r),
{
    let name = if source.status == Status::NeedsAttention && source.attention_icon_name.is_some() {
        &source.attention_icon_name
    } else {
        &source.icon_name
    };
    match name {
        Some(n) => {
            let v = chars_of(n.as_str());
            if v.len() == 0 {
                Named::Nothing
            } else if v[0] == '/' {
                Named::File(n.as_str())
            } else {
                Named::Theme(n.as_str())
            }
        },
        None => Named::Nothing,
    }
}

/// Whether a name asks for an icon of the theme.
pub open spec fn asks_for_theme(name: Option<String>) -> bool {
    name is Some && name->0@.len() > 0 && name->0@[0] != '/'
}

/// Where the theme icon that [`named_icon`] asks for is looked for beside the
/// theme: in the item's own directory, where it names one.
pub fn theme_path(source: &IconSource) -> (r: Option<&str>)
    ensures
        r is Some <==> {
            &&& asks_for_theme(source.name())
            &&& source.icon_theme_path is Some
            &&& source.icon_theme_path->0@.len() > 0
        },
        r is Some ==> r->0@ == source.icon_theme_path->0@,
{
    match named_icon(source) {
        Named::Theme(_) => match &source.icon_theme_path {
            Some(path) => if path.as_str().is_empty() {
                None
            } else {
                Some(path.as_str())
            },
            None => None,
        },
        _ => None,
    }
}

/// What is drawn.
#[derive(Debug, PartialEq, Eq)]
pub enum Icon<'a> {
    File(&'a str),
    Theme(&'a str),
    Pixmap(&'a IconPixmap),
    Missing,
}

/// The icon of an item; `found` tells whether the file or theme icon that
/// [`named_icon`] asks for exists.
pub fn resolve(source: &IconSource, found: bool) -> (r: Icon<'_>)
    ensures
        match r {
            Icon::File(p) => found && asked(source.name(), Named::File(p)),
            Icon::Theme(p) => found && asked(source.name(), Named::Theme(p)),
            Icon::Pixmap(p) => {
                &&& !found || asked(source.name(), Named::Nothing)
                &&& source.pictures() matches Some(list) && picked(
                    list@,
                    ICON_SIZE,
                ) matches Some(i) && 0 <= i < list@.len() && *p == list@[i]
            },
            Icon::Missing => {
                &&& !found || asked(source.name(), Named::Nothing)
                &&& source.pictures() is None || picked(source.pictures()->0@, ICON_SIZE) is None
            },
        },
{
    if found {
        match named_icon(source) {
            Named::File(p) => return Icon::File(p),
            Named::Theme(p) => return Icon::Theme(p),
            Named::Nothing => {},
        }
    }
    let pictures = if source.status == Status::NeedsAttention
        && source.attention_icon_pixmap.is_some() {
        &source.attention_icon_pixmap
    } else {
        &source.icon_pixmap
    };
    match pictures {
        Some(list) => match pick_pixmap(list.as_slice(), ICON_SIZE) {
            Some(p) => Icon::Pixmap(p),
            None => Icon::Missing,
        },
        None => Icon::Missing,
    }
}

proof fn lemma_smallest(list: Seq<IconPixmap>, target: i32)
    ensures
        match smallest_covering(list, target) {
            Some(i) => {
                &&& 0 <= i < list.len()
                &&& well_formed(list[i])
                &&& extent(list[i]) >= target
                &&& forall|j: int|
                    0 <= j < list.len() && well_formed(#[trigger] list[j]) && extent(list[j])
                        >= target ==> extent(list[i]) <= extent(list[j])
            },
            None => forall|j: int|
                0 <= j < list.len() && well_formed(#[trigger] list[j]) ==> extent(list[j])
                    < target,
        },
    decreases list.len(),
{
    if list.len() > 0 {
        let head = list.drop_last();
        lemma_smallest(head, target);
        assert(forall|j: int| 0 <= j < head.len() ==> #[trigger] list[j] == head[j]);
    }
}

proof fn lemma_largest(list: Seq<IconPixmap>)
    ensures
        match largest(list) {
            Some(i) => {
                &&& 0 <= i < list.len()
                &&& well_formed(list[i])
                &&& forall|j: int|
                    0 <= j < list.len() && well_formed(#[trigger] list[j]) ==> extent(list[j])
                        <= extent(list[i])
            },
            None => forall|j: int| 0 <= j < list.len() ==> !well_formed(#[trigger] list[j]),
        },
    decreases list.len(),
{
    if list.len() > 0 {
        let head = list.drop_last();
        lemma_largest(head);
        assert(forall|j: int| 0 <= j < head.len() ==> #[trigger] list[j] == head[j]);
    }
}

/// A picture is found wherever one is well formed. It covers the size where
/// any does, and is then no larger than any other that does; else none is
/// larger.
pub proof fn law_the_best_picture_is_picked(list: Seq<IconPixmap>, target: i32, j: int)
    requires
        0 <= j < list.len(),
        well_formed(list[j]),
    ensures
        picked(list, target) is Some,
        0 <= picked(list, target)->0 < list.len(),
        well_formed(list[picked(list, target)->0]),
        extent(list[j]) >= target ==> target <= extent(list[picked(list, target)->0]) <= extent(
            list[j],
        ),
        extent(list[picked(list, target)->0]) < target ==> extent(list[j]) <= extent(
            list[picked(list, target)->0],
        ),
{
    lemma_smallest(list, target);
    lemma_largest(list);
}

/// Premultiplying leaves opaque pixels as they are and turns transparent ones
/// black; alpha stays.
pub proof fn law_premultiplying(pixels: Seq<u8>, i: int)
    requires
        0 <= i,
        4 * i + 4 <= pixels.len(),
    ensures
        premultiplied(pixels)[4 * i] == pixels[4 * i],
        forall|c: int|
            1 <= c <= 3 && pixels[4 * i] == 255 ==> #[trigger] premultiplied(pixels)[4 * i + c]
                == pixels[4 * i + c],
        forall|c: int|
            1 <= c <= 3 && pixels[4 * i] == 0 ==> #[trigger] premultiplied(pixels)[4 * i + c] == 0,
{
    assert forall|c: int| 1 <= c <= 3 && pixels[4 * i] == 255 implies #[trigger] premultiplied(
        pixels,
    )[4 * i + c] == pixels[4 * i + c] by {
        let k = 4 * i + c;
        assert(k % 4 == c);
        let x = pixels[k] as int;
        assert((x * 255) / 255 == x);
    }
    assert forall|c: int| 1 <= c <= 3 && pixels[4 * i] == 0 implies #[trigger] premultiplied(
        pixels,
    )[4 * i + c] == 0 by {
        let k = 4 * i + c;
        assert(k % 4 == c);
        let x = pixels[k] as int;
        assert((x * 0) / 255 == 0);
    }
}

/// A color is scaled to its share of its pixel's alpha, rounded down, and
/// alpha itself stays; what is left over of a cut-off last pixel stays too.
pub proof fn law_colors_are_scaled_by_alpha(pixels: Seq<u8>, i: int, c: int)
    requires
        0 <= i,
    ensures
        premultiplied(pixels).len() == pixels.len(),
        4 * i + 4 <= pixels.len() && 1 <= c <= 3 ==> {
            let p = premultiplied(pixels)[4 * i + c] as int;
            let exact = pixels[4 * i + c] * pixels[4 * i];
            255 * p <= exact < 255 * p + 255
        },
        0 <= c && 4 * i + c < pixels.len() < 4 * i + 4 ==> premultiplied(pixels)[4 * i + c]
            == pixels[4 * i + c],
{
    if 4 * i + 4 <= pixels.len() && 1 <= c <= 3 {
        let k = 4 * i + c;
        assert(k % 4 == c);
        let x = pixels[k] as int;
        let a = pixels[4 * i] as int;
        assert(0 <= x * a <= 255 * 255) by (nonlinear_arith)
            requires
                0 <= x <= 255,
                0 <= a <= 255,
        ;
        assert(0 <= (x * a) / 255 <= 255);
    }
    if 0 <= c && 4 * i + c < pixels.len() < 4 * i + 4 {
        let k = 4 * i + c;
        assert(k % 4 == c && k - k % 4 == 4 * i);
    }
}

/// A picture counts by its shorter edge, and only where it has as many bytes as
/// its size takes.
pub proof fn law_which_pictures_count(p: IconPixmap)
    ensures
        extent(p) <= p.width && extent(p) <= p.height,
        extent(p) == p.width || extent(p) == p.height,
        well_formed(p) <==> p.width > 0 && p.height > 0 && p.pixels@.len() == 4 * (p.width
            * p.height),
{
}

/// Only well-formed pictures are drawn; where none is, nothing is.
pub proof fn law_no_picture_where_none_is_well_formed(list: Seq<IconPixmap>, target: i32)
    requires
        forall|j: int| 0 <= j < list.len() ==> !well_formed(#[trigger] list[j]),
    ensures
        picked(list, target) is None,
{
    lemma_smallest(list, target);
    lemma_largest(list);
}

/// Of pictures that fit alike the first is drawn where they cover the size, and
/// the last where they do not.
pub proof fn law_which_of_equals_is_drawn(list: Seq<IconPixmap>, target: i32, j: int)
    requires
        0 <= j < list.len(),
        well_formed(list[j]),
        picked(list, target) is Some,
        extent(list[j]) == extent(list[picked(list, target)->0]),
    ensures
        extent(list[j]) >= target ==> picked(list, target)->0 <= j,
        extent(list[j]) < target ==> j <= picked(list, target)->0,
{
    lemma_smallest(list, target);
    lemma_largest(list);
    if extent(list[j]) >= target {
        lemma_first_covering(list, target, j);
    } else {
        lemma_last_largest(list, j);
    }
}

proof fn lemma_first_covering(list: Seq<IconPixmap>, target: i32, j: int)
    requires
        0 <= j < list.len(),
        well_formed(list[j]),
        extent(list[j]) >= target,
        smallest_covering(list, target) is Some ==> extent(list[j]) == extent(
            list[smallest_covering(list, target)->0],
        ),
    ensures
        smallest_covering(list, target) is Some && smallest_covering(list, target)->0 <= j,
    decreases list.len(),
{
    lemma_smallest(list, target);
    let head = list.drop_last();
    lemma_smallest(head, target);
    if j < head.len() {
        assert(head[j] == list[j]);
        let b = smallest_covering(head, target);
        assert(b is Some);
        assert(head[b->0] == list[b->0]);
        lemma_first_covering(head, target, j);
    }
}

proof fn lemma_last_largest(list: Seq<IconPixmap>, j: int)
    requires
        0 <= j < list.len(),
        well_formed(list[j]),
        largest(list) is Some ==> extent(list[j]) == extent(list[largest(list)->0]),
    ensures
        largest(list) is Some && j <= largest(list)->0,
    decreases list.len(),
{
    lemma_largest(list);
    let head = list.drop_last();
    lemma_largest(head);
    if j < head.len() {
        assert(head[j] == list[j]);
        let b = largest(head);
        assert(b is Some);
        assert(head[b->0] == list[b->0]);
        if largest(list)->0 < head.len() {
            lemma_last_largest(head, j);
        }
    }
}

/// An item that asks for attention is shown by its name and pictures for
/// attention, each where it has one; any other item by its plain ones.
pub proof fn law_what_attention_shows(s: IconSource)
    ensures
        !(s.status is NeedsAttention) ==> s.name() == s.icon_name && s.pictures() == s.icon_pixmap,
        s.status is NeedsAttention && s.attention_icon_name is Some ==> s.name()
            == s.attention_icon_name,
        s.status is NeedsAttention && s.attention_icon_name is None ==> s.name() == s.icon_name,
        s.status is NeedsAttention && s.attention_icon_pixmap is Some ==> s.pictures()
            == s.attention_icon_pixmap,
        s.status is NeedsAttention && s.attention_icon_pixmap is None ==> s.pictures()
            == s.icon_pixmap,
{
}

/// A name that starts with a slash is a file, any other that says anything a
/// theme icon; an empty one asks for nothing.
pub proof fn law_what_a_name_asks_for(name: String, n: Named)
    ensures
        asked(Some(name), n) ==> {
            &&& name@.len() == 0 ==> n is Nothing
            &&& name@.len() > 0 && name@[0] == '/' ==> n is File
            &&& name@.len() > 0 && name@[0] != '/' ==> n is Theme
            &&& n is File ==> n->File_0@ == name@
            &&& n is Theme ==> n->Theme_0@ == name@
        },
        asked(None, n) ==> n is Nothing,
        asks_for_theme(Some(name)) <==> name@.len() > 0 && name@[0] != '/',
        !asks_for_theme(None),
        ICON_SIZE == 15,
{
}

} // verus!
