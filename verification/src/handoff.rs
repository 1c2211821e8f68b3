//! Where a layer surface sits on its output.
//!
//! The compositor does not tell, so it is worked out the way a surface is
//! placed: by its anchors and margins, inside the area that is left to it.

use vstd::prelude::*;
use vstd::string::*;
use crate::text::same;

verus! {

/// One axis of a placement: where the area starts and how long it is, the size
/// of the surface, its margins, and the edges it is anchored to.
#[derive(Debug, Clone, Copy, PartialEq, Eq, Structural)]
pub struct Axis {
    pub start: i32,
    pub len: i32,
    pub size: i32,
    pub margin_start: i32,
    pub margin_end: i32,
    pub anchored_start: bool,
    pub anchored_end: bool,
}

/// Where a surface begins, in half pixels: at the edge it is anchored to, or
/// centred between the margins where it is anchored to both or neither.
pub open spec fn placed(a: Axis) -> int {
    if a.anchored_start && !a.anchored_end {
        2 * (a.start + a.margin_start)
    } else if !a.anchored_start && a.anchored_end {
        2 * (a.start + a.len - a.size - a.margin_end)
    } else {
        2 * (a.start + a.margin_start) + (a.len - a.margin_start - a.margin_end - a.size)
    }
}

/// Where a surface begins, in half pixels.
pub fn place(a: &Axis) -> (r: i64)
    ensures
        r == placed(*a),
{
    let start: i64 = a.start as i64;
    let len: i64 = a.len as i64;
    let size: i64 = a.size as i64;
    let before: i64 = a.margin_start as i64;
    let behind: i64 = a.margin_end as i64;
    if a.anchored_start && !a.anchored_end {
        2 * (start + before)
    } else if !a.anchored_start && a.anchored_end {
        2 * (start + len - size - behind)
    } else {
        2 * (start + before) + (len - before - behind - size)
    }
}

/// A surface that is centred leaves as much room on one side as on the other.
pub proof fn law_centred_means_the_same_room_on_both_sides(a: Axis)
    requires
        a.anchored_start == a.anchored_end,
    ensures
        placed(a) - 2 * (a.start + a.margin_start) == 2 * (a.start + a.len - a.margin_end) - (
        placed(a) + 2 * a.size),
{
}

/// A rectangle in the layout: where it starts, and its width and height.
pub type Rect = (i32, i32, i32, i32);

/// The area a surface is placed in: a surface without an exclusive zone of its
/// own gets what the others leave, where that is known; any other the whole
/// output.
pub fn bounds(output: Rect, exclusive_zone: i32, usable: Option<Rect>) -> (r: Rect)
    ensures
        r == if exclusive_zone == 0 && usable is Some {
            usable->0
        } else {
            output
        },
{
    match usable {
        Some(area) => if exclusive_zone == 0 {
            area
        } else {
            output
        },
        None => output,
    }
}

/// An edge of a surface: whether it is anchored there, and its margin.
#[derive(Debug, Clone, Copy, PartialEq, Eq, Structural)]
pub struct Edge {
    pub anchored: bool,
    pub margin: i32,
}

/// A layer surface: its size, its edges, and the zone it claims for itself.
#[derive(Debug, Clone, Copy, PartialEq, Eq, Structural)]
pub struct Surface {
    pub width: i32,
    pub height: i32,
    pub left: Edge,
    pub right: Edge,
    pub top: Edge,
    pub bottom: Edge,
    pub exclusive_zone: i32,
}

impl Surface {
    /// How it lies from left to right in an area.
    pub open spec fn across(self, area: Rect) -> Axis {
        Axis {
            start: area.0,
            len: area.2,
            size: self.width,
            margin_start: self.left.margin,
            margin_end: self.right.margin,
            anchored_start: self.left.anchored,
            anchored_end: self.right.anchored,
        }
    }

    /// How it lies from top to bottom in an area.
    pub open spec fn down(self, area: Rect) -> Axis {
        Axis {
            start: area.1,
            len: area.3,
            size: self.height,
            margin_start: self.top.margin,
            margin_end: self.bottom.margin,
            anchored_start: self.top.anchored,
            anchored_end: self.bottom.anchored,
        }
    }
}

/// Where a surface sits in the layout, in half pixels; unknown of a window that
/// is no layer surface, or not on an output.
pub fn surface_origin(
    surface: Option<&Surface>,
    output: Option<Rect>,
    usable: Option<Rect>,
) -> (r: Option<(i64, i64)>)
    ensures
        r is Some <==> surface is Some && output is Some,
        r is Some ==> {
            let area = if surface->0.exclusive_zone == 0 && usable is Some {
                usable->0
            } else {
                output->0
            };
            &&& (r->0).0 == placed(surface->0.across(area))
            &&& (r->0).1 == placed(surface->0.down(area))
        },
{
    match (surface, output) {
        (Some(s), Some(output)) => {
            let area = bounds(output, s.exclusive_zone, usable);
            let across = Axis {
                start: area.0,
                len: area.2,
                size: s.width,
                margin_start: s.left.margin,
                margin_end: s.right.margin,
                anchored_start: s.left.anchored,
                anchored_end: s.right.anchored,
            };
            let down = Axis {
                start: area.1,
                len: area.3,
                size: s.height,
                margin_start: s.top.margin,
                margin_end: s.bottom.margin,
                anchored_start: s.top.anchored,
                anchored_end: s.bottom.anchored,
            };
            Some((place(&across), place(&down)))
        },
        _ => None,
    }
}

/// A workspace's area on its output.
#[derive(Debug, PartialEq, Eq)]
pub struct Area {
    pub output: String,
    pub visible: bool,
    pub x: i32,
    pub y: i32,
    pub width: i32,
    pub height: i32,
}

/// The first area shown on an output.
pub open spec fn shown_on(areas: Seq<Area>, output: Seq<char>) -> Option<Area>
    decreases areas.len(),
{
    if areas.len() == 0 {
        None
    } else if areas[0].visible && areas[0].output@ == output {
        Some(areas[0])
    } else {
        shown_on(areas.drop_first(), output)
    }
}

/// The usable area of an output: that of the workspace shown there.
pub fn usable_area(areas: &Vec<Area>, output: &str) -> (r: Option<(i32, i32, i32, i32)>)
    ensures
        r == match shown_on(areas@, output@) {
            Some(a) => Some((a.x, a.y, a.width, a.height)),
            None => None,
        },
{
    let mut i: usize = 0;
    assert(areas@.skip(0) =~= areas@);
    while i < areas.len()
        invariant
            i <= areas@.len(),
            shown_on(areas@, output@) == shown_on(areas@.skip(i as int), output@),
        decreases areas@.len() - i,
    {
        assert(areas@.skip(i as int).drop_first() =~= areas@.skip(i + 1));
        let a = &areas[i];
        if a.visible && same(a.output.as_str(), output) {
            return Some((a.x, a.y, a.width, a.height));
        }
        i += 1;
    }
    None
}

/// A surface that is anchored to one edge keeps its margin to that edge.
pub proof fn law_an_anchor_keeps_its_margin(a: Axis)
    ensures
        a.anchored_start && !a.anchored_end ==> placed(a) == 2 * a.start + 2 * a.margin_start,
        !a.anchored_start && a.anchored_end ==> placed(a) + 2 * a.size + 2 * a.margin_end == 2
            * a.start + 2 * a.len,
{
}

/// A surface lies across by its width, its left and right edges, and down by its
/// height, its top and bottom edges.
pub proof fn law_each_axis_has_its_edges(s: Surface, area: Rect)
    ensures
        s.across(area).start == area.0 && s.across(area).len == area.2,
        s.across(area).size == s.width,
        s.across(area).margin_start == s.left.margin && s.across(area).margin_end
            == s.right.margin,
        s.across(area).anchored_start == s.left.anchored && s.across(area).anchored_end
            == s.right.anchored,
        s.down(area).start == area.1 && s.down(area).len == area.3,
        s.down(area).size == s.height,
        s.down(area).margin_start == s.top.margin && s.down(area).margin_end == s.bottom.margin,
        s.down(area).anchored_start == s.top.anchored && s.down(area).anchored_end
            == s.bottom.anchored,
{
}

/// The area of an output is that of the first workspace listed as visible on it.
pub proof fn law_the_visible_workspace_tells_the_area(
    areas: Seq<Area>,
    output: Seq<char>,
    k: int,
)
    ensures
        0 <= k < areas.len() && areas[k].visible && areas[k].output@ == output && (forall|j: int|
            0 <= j < k ==> !((#[trigger] areas[j]).visible && areas[j].output@ == output))
            ==> shown_on(areas, output) == Some(areas[k]),
        (forall|j: int|
            0 <= j < areas.len() ==> !((#[trigger] areas[j]).visible && areas[j].output@ == output))
            ==> shown_on(areas, output) is None,
    decreases areas.len(),
{
    if areas.len() > 0 && !(areas[0].visible && areas[0].output@ == output) {
        let rest = areas.drop_first();
        assert(forall|j: int| 0 <= j < rest.len() ==> #[trigger] rest[j] == areas[j + 1]);
        law_the_visible_workspace_tells_the_area(rest, output, k - 1);
        if 0 < k < areas.len() {
            assert(rest[k - 1] == areas[k]);
        }
    }
}

} // verus!
