//! Exact point location: whether a coordinate lies in a geometry.
//!
//! The two tests on a single polygon and on a single line string are made by
//! the `geo` crate on `i64` coordinates. Everything built on them is proved
//! here.

use crate::error::LayerError;
use crate::geometry::{derefs, rings_view, Coord, Geometry, LineString, Polygon};
use vstd::prelude::*;

verus! {

/// What `geo` answers when asked whether a polygon contains a coordinate: the
/// coordinate lies inside the exterior ring, on no ring, and inside no hole.
/// Rings that are not closed are closed first.
pub uninterp spec fn polygon_contains_coord(
    exterior: Seq<Coord>,
    interiors: Seq<Seq<Coord>>,
    coord: Coord,
) -> bool;

/// What `geo` answers when asked whether a line string contains a
/// coordinate: the coordinate lies on the line string, and is not an end
/// point of an open one.
pub uninterp spec fn line_string_contains_coord(coords: Seq<Coord>, coord: Coord) -> bool;

/// Calls `<geo::Polygon<i64> as geo::Contains<geo::Coord<i64>>>::contains` on
/// the polygon that `geo::Polygon::new` makes of the rings.
///
/// Not proved, but taken from `geo`: that the answer depends on the rings and
/// the coordinate alone, and that within the stated ranges the call returns,
/// because its orientation tests stay inside `i64` and its winding count
/// inside `i32`.
#[verifier::external_body]
fn polygon_contains(polygon: &Polygon, coord: Coord) -> (r: bool)
    requires
        polygon.valid(),
        coord.in_range(),
    ensures
        r == polygon_contains_coord(polygon.exterior@, rings_view(polygon.interiors@), coord),
{
    let exterior: geo::LineString<i64> = polygon.exterior.0.iter().map(|c| (c.x, c.y)).collect();
    let interiors: Vec<geo::LineString<i64>> = polygon.interiors.iter().map(
        |ring| ring.0.iter().map(|c| (c.x, c.y)).collect(),
    ).collect();
    let area = geo::Polygon::new(exterior, interiors);
    geo::Contains::contains(&area, &geo::Coord { x: coord.x, y: coord.y })
}

/// Calls `<geo::LineString<i64> as geo::Contains<geo::Coord<i64>>>::contains`.
///
/// Not proved, but taken from `geo`: that the answer depends on the
/// coordinates alone, and that within the stated ranges the call returns,
/// because its orientation tests stay inside `i64`.
#[verifier::external_body]
fn line_string_contains(line_string: &LineString, coord: Coord) -> (r: bool)
    requires
        line_string.valid(),
        coord.in_range(),
    ensures
        r == line_string_contains_coord(line_string@, coord),
{
    let path: geo::LineString<i64> = line_string.0.iter().map(|c| (c.x, c.y)).collect();
    geo::Contains::contains(&path, &geo::Coord { x: coord.x, y: coord.y })
}

/// Some line string of the sequence contains the coordinate.
pub open spec fn any_line_string_contains(lines: Seq<LineString>, coord: Coord) -> bool {
    exists|i: int| 0 <= i < lines.len() && line_string_contains_coord(#[trigger] lines[i]@, coord)
}

/// Some polygon of the sequence contains the coordinate.
pub open spec fn any_polygon_contains(polygons: Seq<Polygon>, coord: Coord) -> bool {
    exists|i: int|
        0 <= i < polygons.len() && polygon_contains_coord(
            (#[trigger] polygons[i]).exterior@,
            rings_view(polygons[i].interiors@),
            coord,
        )
}

/// The coordinate lies in one of the line strings or polygons of the
/// geometry. Parts that cannot be drawn contain nothing.
pub open spec fn geometry_contains_spec(g: Geometry, coord: Coord) -> bool {
    any_line_string_contains(g.line_strings_spec(), coord) || any_polygon_contains(
        g.polygons_spec(),
        coord,
    )
}

/// Some flag of the sequence is set.
pub open spec fn any_set(hits: Seq<bool>) -> bool {
    exists|i: int| 0 <= i < hits.len() && #[trigger] hits[i]
}

/// Whether any of the answers is a hit.
pub fn any_hit(hits: &Vec<bool>) -> (r: bool)
    ensures
        r == any_set(hits@),
{
    let mut i: usize = 0;
    while i < hits.len()
        invariant
            i <= hits.len(),
            forall|j: int| 0 <= j < i ==> !(#[trigger] hits@[j]),
        decreases hits.len() - i,
    {
        if hits[i] {
            return true;
        }
        i = i + 1;
    }
    false
}

/// Whether the coordinate lies in the geometry.
pub fn geometry_contains(geometry: &Geometry, coord: Coord) -> (r: bool)
    requires
        geometry.valid(),
        coord.in_range(),
    ensures
        r == geometry_contains_spec(*geometry, coord),
{
    let lines = geometry.line_strings();
    let mut line_hits: Vec<bool> = Vec::new();
    let mut i: usize = 0;
    while i < lines.len()
        invariant
            i <= lines.len(),
            geometry.valid(),
            coord.in_range(),
            derefs(lines@) == geometry.line_strings_spec(),
            line_hits@.len() == i,
            forall|j: int|
                0 <= j < i ==> #[trigger] line_hits@[j] == line_string_contains_coord(
                    geometry.line_strings_spec()[j]@,
                    coord,
                ),
        decreases lines.len() - i,
    {
        assert(derefs(lines@)[i as int] == *lines@[i as int]);
        assert(geometry.line_strings_spec()[i as int].valid());
        line_hits.push(line_string_contains(lines[i], coord));
        i = i + 1;
    }
    let polygons = geometry.polygons();
    let mut polygon_hits: Vec<bool> = Vec::new();
    let mut k: usize = 0;
    while k < polygons.len()
        invariant
            k <= polygons.len(),
            geometry.valid(),
            coord.in_range(),
            derefs(polygons@) == geometry.polygons_spec(),
            polygon_hits@.len() == k,
            forall|j: int|
                0 <= j < k ==> #[trigger] polygon_hits@[j] == polygon_contains_coord(
                    geometry.polygons_spec()[j].exterior@,
                    rings_view(geometry.polygons_spec()[j].interiors@),
                    coord,
                ),
        decreases polygons.len() - k,
    {
        assert(derefs(polygons@)[k as int] == *polygons@[k as int]);
        assert(geometry.polygons_spec()[k as int].valid());
        polygon_hits.push(polygon_contains(polygons[k], coord));
        k = k + 1;
    }
    let on_line = any_hit(&line_hits);
    let in_area = any_hit(&polygon_hits);
    proof {
        let ls = geometry.line_strings_spec();
        let ps = geometry.polygons_spec();
        assert(ls.len() == line_hits@.len()) by {
            assert(derefs(lines@).len() == lines@.len());
        }
        assert(ps.len() == polygon_hits@.len()) by {
            assert(derefs(polygons@).len() == polygons@.len());
        }
        if on_line {
            let w = choose|w: int| 0 <= w < line_hits@.len() && #[trigger] line_hits@[w];
            assert(line_string_contains_coord(ls[w]@, coord));
        }
        if any_line_string_contains(ls, coord) {
            let w = choose|w: int|
                0 <= w < ls.len() && line_string_contains_coord(#[trigger] ls[w]@, coord);
            assert(line_hits@[w]);
        }
        if in_area {
            let w = choose|w: int| 0 <= w < polygon_hits@.len() && #[trigger] polygon_hits@[w];
            assert(polygon_contains_coord(ps[w].exterior@, rings_view(ps[w].interiors@), coord));
        }
        if any_polygon_contains(ps, coord) {
            let w = choose|w: int|
                0 <= w < ps.len() && polygon_contains_coord(
                    (#[trigger] ps[w]).exterior@,
                    rings_view(ps[w].interiors@),
                    coord,
                );
            assert(polygon_hits@[w]);
        }
    }
    on_line || in_area
}

/// Whether the coordinate lies in the geometry, for any geometry and any
/// coordinate: one that is out of range, or a geometry that is not valid, is
/// refused.
pub fn try_geometry_contains(geometry: &Geometry, coord: Coord) -> (r: Result<bool, LayerError>)
    ensures
        geometry.valid() && coord.in_range() ==> r == Ok::<bool, LayerError>(
            geometry_contains_spec(*geometry, coord),
        ),
        !(geometry.valid() && coord.in_range()) ==> r == Err::<bool, LayerError>(
            LayerError::CoordinateOutOfRange,
        ),
{
    if coord.is_in_range() && geometry.is_valid() {
        Ok(geometry_contains(geometry, coord))
    } else {
        Err(LayerError::CoordinateOutOfRange)
    }
}

} // verus!
