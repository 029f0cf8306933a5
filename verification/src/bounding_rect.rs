//! Axis-aligned bounding rectangles and the extent of a geometry.

use crate::error::LayerError;
use crate::geometry::{all_in_range, derefs, Coord, Geometry, LineString, Polygon};
use vstd::prelude::*;

verus! {

/// The smaller of two integers.
pub open spec fn min_of(a: int, b: int) -> int {
    if a <= b {
        a
    } else {
        b
    }
}

/// The larger of two integers.
pub open spec fn max_of(a: int, b: int) -> int {
    if a >= b {
        a
    } else {
        b
    }
}

/// An axis-aligned box, given by its least and greatest corners.
#[derive(Clone, Copy, PartialEq, Eq, Structural, Debug)]
pub struct BoundingRect {
    pub min: Coord,
    pub max: Coord,
}

impl BoundingRect {
    /// The least corner is not beyond the greatest one.
    pub open spec fn wf(self) -> bool {
        self.min.x <= self.max.x && self.min.y <= self.max.y
    }

    /// Both corners are coordinates in range.
    pub open spec fn in_range(self) -> bool {
        self.min.in_range() && self.max.in_range()
    }

    /// The box that holds one coordinate and nothing else.
    pub open spec fn at(c: Coord) -> BoundingRect {
        BoundingRect { min: c, max: c }
    }

    /// The least box that holds both boxes: the corners' minima and maxima,
    /// component by component.
    pub open spec fn merge_spec(self, other: BoundingRect) -> BoundingRect {
        BoundingRect {
            min: Coord {
                x: min_of(self.min.x as int, other.min.x as int) as i64,
                y: min_of(self.min.y as int, other.min.y as int) as i64,
            },
            max: Coord {
                x: max_of(self.max.x as int, other.max.x as int) as i64,
                y: max_of(self.max.y as int, other.max.y as int) as i64,
            },
        }
    }

    /// The coordinate lies in the box; the edges of the box count as inside.
    pub open spec fn contains_spec(self, c: Coord) -> bool {
        &&& self.min.x <= c.x <= self.max.x
        &&& self.min.y <= c.y <= self.max.y
    }

    /// The other box lies in this one.
    pub open spec fn covers(self, other: BoundingRect) -> bool {
        &&& self.min.x <= other.min.x
        &&& self.min.y <= other.min.y
        &&& other.max.x <= self.max.x
        &&& other.max.y <= self.max.y
    }

    /// The distance between the left and the right edge.
    pub open spec fn width_spec(self) -> int {
        self.max.x - self.min.x
    }

    /// The distance between the lower and the upper edge.
    pub open spec fn height_spec(self) -> int {
        self.max.y - self.min.y
    }

    /// The grid point at the middle of the box; where the middle falls between
    /// two grid points, the one toward the least corner.
    pub open spec fn center_spec(self) -> Coord {
        Coord {
            x: (self.min.x + self.width_spec() / 2) as i64,
            y: (self.min.y + self.height_spec() / 2) as i64,
        }
    }

    /// Whether the coordinate lies in the box, edges included.
    pub fn contains(&self, c: Coord) -> (r: bool)
        ensures
            r == self.contains_spec(c),
    {
        self.min.x <= c.x && c.x <= self.max.x && self.min.y <= c.y && c.y <= self.max.y
    }

    /// The distance between the left and the right edge.
    pub fn width(&self) -> (r: u64)
        requires
            self.wf(),
        ensures
            r == self.width_spec(),
    {
        span(self.min.x, self.max.x)
    }

    /// The distance between the lower and the upper edge.
    pub fn height(&self) -> (r: u64)
        requires
            self.wf(),
        ensures
            r == self.height_spec(),
    {
        span(self.min.y, self.max.y)
    }

    /// The grid point at the middle of the box.
    pub fn center(&self) -> (r: Coord)
        requires
            self.wf(),
        ensures
            r == self.center_spec(),
            self.contains_spec(r),
    {
        Coord { x: midpoint(self.min.x, self.max.x), y: midpoint(self.min.y, self.max.y) }
    }
}

/// The distance from `lo` up to `hi`.
fn span(lo: i64, hi: i64) -> (r: u64)
    requires
        lo <= hi,
    ensures
        r == hi - lo,
{
    if lo >= 0 {
        (hi - lo) as u64
    } else if hi < 0 {
        (hi - lo) as u64
    } else {
        // lo < 0 <= hi: add the two distances from zero
        let below: u64 = (-(lo + 1)) as u64 + 1;
        hi as u64 + below
    }
}

/// The integer halfway from `lo` to `hi`, rounded toward `lo`.
fn midpoint(lo: i64, hi: i64) -> (r: i64)
    requires
        lo <= hi,
    ensures
        r == lo + (hi - lo) / 2,
        lo <= r <= hi,
{
    let half: u64 = span(lo, hi) / 2;
    if lo >= 0 {
        lo + half as i64
    } else {
        // lo < 0, and half <= i64::MAX
        let r: i64 = lo + (half as i64);
        r
    }
}

/// The least box that holds both boxes.
pub fn bbox_merge(a: BoundingRect, b: BoundingRect) -> (r: BoundingRect)
    ensures
        r == a.merge_spec(b),
        r.covers(a),
        r.covers(b),
        a.wf() && b.wf() ==> r.wf(),
{
    BoundingRect {
        min: Coord {
            x: if a.min.x <= b.min.x {
                a.min.x
            } else {
                b.min.x
            },
            y: if a.min.y <= b.min.y {
                a.min.y
            } else {
                b.min.y
            },
        },
        max: Coord {
            x: if a.max.x >= b.max.x {
                a.max.x
            } else {
                b.max.x
            },
            y: if a.max.y >= b.max.y {
                a.max.y
            } else {
                b.max.y
            },
        },
    }
}

/// Merging is commutative.
pub proof fn lemma_merge_commutative(a: BoundingRect, b: BoundingRect)
    ensures
        a.merge_spec(b) == b.merge_spec(a),
{
}

/// Merging is associative.
pub proof fn lemma_merge_associative(a: BoundingRect, b: BoundingRect, c: BoundingRect)
    ensures
        a.merge_spec(b).merge_spec(c) == a.merge_spec(b.merge_spec(c)),
{
}

/// Merging a box with itself gives the box back.
pub proof fn lemma_merge_idempotent(a: BoundingRect)
    ensures
        a.merge_spec(a) == a,
{
}

/// The merged box holds both boxes, and no smaller box does.
pub proof fn lemma_merge_is_least_cover(a: BoundingRect, b: BoundingRect, other: BoundingRect)
    ensures
        a.merge_spec(b).covers(a),
        a.merge_spec(b).covers(b),
        other.covers(a) && other.covers(b) ==> other.covers(a.merge_spec(b)),
{
}

/// Merges two extents, either of which may be absent.
pub open spec fn merge_opt(a: Option<BoundingRect>, b: Option<BoundingRect>) -> Option<
    BoundingRect,
> {
    match (a, b) {
        (None, _) => b,
        (_, None) => a,
        (Some(x), Some(y)) => Some(x.merge_spec(y)),
    }
}

/// The least box that holds every coordinate of the sequence; none for the
/// empty sequence.
pub open spec fn rect_of_coords(coords: Seq<Coord>) -> Option<BoundingRect>
    decreases coords.len(),
{
    if coords.len() == 0 {
        None
    } else {
        merge_opt(rect_of_coords(coords.drop_last()), Some(BoundingRect::at(coords.last())))
    }
}

/// The least box that holds every coordinate of every line string.
pub open spec fn rect_of_line_strings(lines: Seq<LineString>) -> Option<BoundingRect>
    decreases lines.len(),
{
    if lines.len() == 0 {
        None
    } else {
        merge_opt(rect_of_line_strings(lines.drop_last()), rect_of_coords(lines.last()@))
    }
}

/// The least box that holds the exterior ring of every polygon.
pub open spec fn rect_of_polygons(polygons: Seq<Polygon>) -> Option<BoundingRect>
    decreases polygons.len(),
{
    if polygons.len() == 0 {
        None
    } else {
        merge_opt(
            rect_of_polygons(polygons.drop_last()),
            rect_of_coords(polygons.last().exterior@),
        )
    }
}

/// The least box around all line strings and polygon exteriors of the
/// geometry; none where it has no coordinate.
pub open spec fn extent_spec(g: Geometry) -> Option<BoundingRect> {
    merge_opt(rect_of_line_strings(g.line_strings_spec()), rect_of_polygons(g.polygons_spec()))
}

/// The box that stands for a geometry without coordinates: the origin alone.
pub open spec fn empty_rect() -> BoundingRect {
    BoundingRect::at(Coord { x: 0, y: 0 })
}

/// The bounding rectangle of a geometry: its extent, or the box at the origin
/// where it has no coordinate.
pub open spec fn geometry_bounding_rect_spec(g: Geometry) -> BoundingRect {
    match extent_spec(g) {
        Some(r) => r,
        None => empty_rect(),
    }
}

/// The box of a coordinate sequence holds each of its coordinates, is well
/// formed, and is absent only for the empty sequence.
pub proof fn lemma_rect_of_coords(coords: Seq<Coord>)
    ensures
        rect_of_coords(coords) is None <==> coords.len() == 0,
        rect_of_coords(coords) matches Some(r) ==> r.wf() && forall|i: int|
            0 <= i < coords.len() ==> r.contains_spec(#[trigger] coords[i]),
        rect_of_coords(coords) matches Some(r) ==> exists|i: int, j: int|
            0 <= i < coords.len() && 0 <= j < coords.len() && r.min.x == (#[trigger] coords[i]).x
                && r.max.x == (#[trigger] coords[j]).x,
        rect_of_coords(coords) matches Some(r) ==> exists|i: int, j: int|
            0 <= i < coords.len() && 0 <= j < coords.len() && r.min.y == (#[trigger] coords[i]).y
                && r.max.y == (#[trigger] coords[j]).y,
        all_in_range(coords) ==> (rect_of_coords(coords) matches Some(r) ==> r.in_range()),
    decreases coords.len(),
{
    if coords.len() > 0 {
        let front = coords.drop_last();
        lemma_rect_of_coords(front);
        let last = coords.last();
        let n = coords.len() - 1;
        assert(forall|i: int| 0 <= i < front.len() ==> front[i] == coords[i]);
        match rect_of_coords(front) {
            None => {
                let r = rect_of_coords(coords)->0;
                assert(r.min.x == coords[n].x && r.max.x == coords[n].x);
                assert(r.min.y == coords[n].y && r.max.y == coords[n].y);
            },
            Some(f) => {
                let r = rect_of_coords(coords)->0;
                let (ix, jx) = choose|i: int, j: int|
                    0 <= i < front.len() && 0 <= j < front.len() && f.min.x == (
                    #[trigger] front[i]).x && f.max.x == (#[trigger] front[j]).x;
                let (iy, jy) = choose|i: int, j: int|
                    0 <= i < front.len() && 0 <= j < front.len() && f.min.y == (
                    #[trigger] front[i]).y && f.max.y == (#[trigger] front[j]).y;
                let ax = if last.x <= f.min.x {
                    n
                } else {
                    ix
                };
                let bx = if last.x >= f.max.x {
                    n
                } else {
                    jx
                };
                let ay = if last.y <= f.min.y {
                    n
                } else {
                    iy
                };
                let by = if last.y >= f.max.y {
                    n
                } else {
                    jy
                };
                assert(r.min.x == coords[ax].x && r.max.x == coords[bx].x);
                assert(r.min.y == coords[ay].y && r.max.y == coords[by].y);
                assert forall|i: int| 0 <= i < coords.len() implies r.contains_spec(
                    #[trigger] coords[i],
                ) by {
                    if i < n {
                        assert(f.contains_spec(front[i]));
                    }
                }
                if all_in_range(coords) {
                    assert(all_in_range(front));
                    assert(coords[n].in_range());
                }
            },
        }
        if all_in_range(coords) {
            assert(coords[n].in_range());
        }
    }
}

/// The box of valid line strings is in range and well formed.
pub proof fn lemma_rect_of_line_strings(lines: Seq<LineString>)
    requires
        forall|i: int| 0 <= i < lines.len() ==> (#[trigger] lines[i]).valid(),
    ensures
        rect_of_line_strings(lines) matches Some(r) ==> r.in_range() && r.wf(),
    decreases lines.len(),
{
    if lines.len() > 0 {
        let front = lines.drop_last();
        assert(forall|i: int| 0 <= i < front.len() ==> front[i] == lines[i]);
        lemma_rect_of_line_strings(front);
        assert(lines.last() == lines[lines.len() - 1]);
        lemma_rect_of_coords(lines.last()@);
    }
}

/// The box of valid polygons is in range and well formed.
pub proof fn lemma_rect_of_polygons(polygons: Seq<Polygon>)
    requires
        forall|i: int| 0 <= i < polygons.len() ==> (#[trigger] polygons[i]).valid(),
    ensures
        rect_of_polygons(polygons) matches Some(r) ==> r.in_range() && r.wf(),
    decreases polygons.len(),
{
    if polygons.len() > 0 {
        let front = polygons.drop_last();
        assert(forall|i: int| 0 <= i < front.len() ==> front[i] == polygons[i]);
        lemma_rect_of_polygons(front);
        assert(polygons.last() == polygons[polygons.len() - 1]);
        lemma_rect_of_coords(polygons.last().exterior@);
    }
}

/// The bounding rectangle of a valid geometry is well formed and in range.
pub proof fn lemma_bounding_rect_in_range(g: Geometry)
    requires
        g.valid(),
    ensures
        geometry_bounding_rect_spec(g).wf(),
        geometry_bounding_rect_spec(g).in_range(),
{
    lemma_rect_of_line_strings(g.line_strings_spec());
    lemma_rect_of_polygons(g.polygons_spec());
}

/// Merges two extents, either of which may be absent.
fn merge_extents(a: Option<BoundingRect>, b: Option<BoundingRect>) -> (r: Option<BoundingRect>)
    ensures
        r == merge_opt(a, b),
{
    match a {
        None => b,
        Some(x) => match b {
            None => Some(x),
            Some(y) => Some(bbox_merge(x, y)),
        },
    }
}

/// The least box around the coordinates of a line string.
pub fn line_string_bounding_rect(line_string: &LineString) -> (r: Option<BoundingRect>)
    ensures
        r == rect_of_coords(line_string@),
{
    let mut acc: Option<BoundingRect> = None;
    let mut i: usize = 0;
    while i < line_string.0.len()
        invariant
            i <= line_string.0.len(),
            acc == rect_of_coords(line_string@.take(i as int)),
        decreases line_string.0.len() - i,
    {
        let c = line_string.0[i];
        proof {
            assert(line_string@.take(i + 1).drop_last() =~= line_string@.take(i as int));
        }
        acc = merge_extents(acc, Some(BoundingRect { min: c, max: c }));
        i = i + 1;
    }
    proof {
        assert(line_string@.take(line_string.0.len() as int) =~= line_string@);
    }
    acc
}

/// The bounding rectangle of a geometry.
///
/// A geometry of a kind that cannot make a layer is refused. A geometry
/// without any coordinate gets the box at the origin.
pub fn geometry_bounding_rect(geometry: &Geometry) -> (r: Result<BoundingRect, LayerError>)
    ensures
        geometry.supported() ==> r == Ok::<BoundingRect, LayerError>(
            geometry_bounding_rect_spec(*geometry),
        ),
        !geometry.supported() ==> r == Err::<BoundingRect, LayerError>(
            LayerError::UnsupportedGeometryKind,
        ),
{
    if !geometry.is_supported() {
        return Err(LayerError::UnsupportedGeometryKind);
    }
    let lines = geometry.line_strings();
    let mut acc: Option<BoundingRect> = None;
    let mut i: usize = 0;
    while i < lines.len()
        invariant
            i <= lines.len(),
            acc == rect_of_line_strings(derefs(lines@).take(i as int)),
        decreases lines.len() - i,
    {
        proof {
            assert(derefs(lines@).take(i + 1).drop_last() =~= derefs(lines@).take(i as int));
            assert(derefs(lines@).take(i + 1).last() == *lines@[i as int]);
        }
        let part = line_string_bounding_rect(lines[i]);
        acc = merge_extents(acc, part);
        i = i + 1;
    }
    proof {
        assert(derefs(lines@).take(lines.len() as int) =~= derefs(lines@));
    }
    let polygons = geometry.polygons();
    let mut areas: Option<BoundingRect> = None;
    let mut k: usize = 0;
    while k < polygons.len()
        invariant
            k <= polygons.len(),
            areas == rect_of_polygons(derefs(polygons@).take(k as int)),
        decreases polygons.len() - k,
    {
        proof {
            assert(derefs(polygons@).take(k + 1).drop_last() =~= derefs(polygons@).take(k as int));
            assert(derefs(polygons@).take(k + 1).last() == *polygons@[k as int]);
        }
        let part = line_string_bounding_rect(&polygons[k].exterior);
        areas = merge_extents(areas, part);
        k = k + 1;
    }
    proof {
        assert(derefs(polygons@).take(polygons.len() as int) =~= derefs(polygons@));
    }
    match merge_extents(acc, areas) {
        Some(r) => Ok(r),
        None => Ok(BoundingRect { min: Coord { x: 0, y: 0 }, max: Coord { x: 0, y: 0 } }),
    }
}

} // verus!
