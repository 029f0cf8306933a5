use rgis::geometry::{Coord, Geometry, LineString, MultiLineString, MultiPolygon, Polygon};
use rgis::path::{
    coords_path_builder, polygon_path_builder, ring_path_builder, PathBuilder, PathCommand, ToPath,
};

fn pt(x: i64, y: i64) -> Coord {
    Coord { x, y }
}

fn ls(points: &[(i64, i64)]) -> LineString {
    LineString(points.iter().map(|p| pt(p.0, p.1)).collect())
}

fn triangle_polygon() -> Polygon {
    Polygon { exterior: ls(&[(0, 0), (4, 0), (0, 4), (0, 0)]), interiors: vec![ls(&[(1, 1), (2, 1), (1, 2), (1, 1)])] }
}

#[test]
fn coordinate_range_is_inclusive() {
    assert!(pt(1_000_000_000, -1_000_000_000).is_in_range());
    assert!(!pt(1_000_000_001, 0).is_in_range());
    assert!(!pt(0, -1_000_000_001).is_in_range());
}

#[test]
fn degenerate_rings_have_fewer_than_three_distinct_points() {
    assert!(ls(&[]).is_degenerate_ring());
    assert!(ls(&[(1, 1)]).is_degenerate_ring());
    assert!(ls(&[(1, 1), (2, 2)]).is_degenerate_ring());
    assert!(ls(&[(1, 1), (2, 2), (1, 1)]).is_degenerate_ring());
    assert!(ls(&[(1, 1), (1, 1), (1, 1), (1, 1)]).is_degenerate_ring());
    assert!(ls(&[(1, 1), (2, 2), (2, 2), (1, 1), (2, 2)]).is_degenerate_ring());
    assert!(!ls(&[(1, 1), (2, 2), (3, 3)]).is_degenerate_ring());
    assert!(!ls(&[(1, 1), (1, 1), (2, 2), (1, 1), (0, 5)]).is_degenerate_ring());
}

#[test]
fn validity_of_line_strings_and_polygons() {
    assert!(ls(&[(0, 0), (1_000_000_000, 5)]).is_valid());
    assert!(!ls(&[(0, 0), (1_000_000_001, 5)]).is_valid());
    assert!(triangle_polygon().is_valid());
    let bad_hole = Polygon { exterior: ls(&[(0, 0), (4, 0), (0, 4)]), interiors: vec![ls(&[(0, 2_000_000_000)])] };
    assert!(!bad_hole.is_valid());
}

#[test]
fn geometry_kinds() {
    assert!(!Geometry::Point(pt(0, 0)).is_supported());
    assert!(!Geometry::MultiPoint(vec![]).is_supported());
    assert!(Geometry::LineString(ls(&[])).is_supported());
    assert!(Geometry::GeometryCollection(vec![]).is_supported());
    assert!(!Geometry::GeometryCollection(vec![]).is_renderable());
    assert!(Geometry::MultiPolygon(MultiPolygon(vec![])).is_renderable());
}

#[test]
fn collection_is_read_one_level_deep() {
    let nested = Geometry::GeometryCollection(vec![Geometry::LineString(ls(&[(9, 9), (8, 8)]))]);
    let g = Geometry::GeometryCollection(vec![
        Geometry::LineString(ls(&[(0, 0), (1, 1)])),
        Geometry::Point(pt(3, 3)),
        Geometry::MultiLineString(MultiLineString(vec![ls(&[(2, 2), (3, 3)]), ls(&[(4, 4)])])),
        nested,
        Geometry::Polygon(triangle_polygon()),
        Geometry::MultiPoint(vec![pt(1, 1)]),
    ]);
    let lines = g.line_strings();
    assert_eq!(lines.len(), 3);
    assert_eq!(*lines[0], ls(&[(0, 0), (1, 1)]));
    assert_eq!(*lines[1], ls(&[(2, 2), (3, 3)]));
    assert_eq!(*lines[2], ls(&[(4, 4)]));
    let polygons = g.polygons();
    assert_eq!(polygons.len(), 1);
    assert_eq!(*polygons[0], triangle_polygon());
    assert_eq!(g.unrenderable_count(), 3);
    assert!(g.is_valid());
}

#[test]
fn unrenderable_count_of_single_geometries() {
    assert_eq!(Geometry::Point(pt(0, 0)).unrenderable_count(), 1);
    assert_eq!(Geometry::Polygon(triangle_polygon()).unrenderable_count(), 0);
    assert_eq!(Geometry::GeometryCollection(vec![]).unrenderable_count(), 0);
}

#[test]
fn nested_collection_is_not_checked_for_range() {
    let nested = Geometry::GeometryCollection(vec![Geometry::LineString(ls(&[(0, 2_000_000_000)]))]);
    assert!(Geometry::GeometryCollection(vec![nested]).is_valid());
    assert!(!Geometry::GeometryCollection(vec![Geometry::LineString(ls(&[(0, 2_000_000_000)]))])
        .is_valid());
}

#[test]
fn path_of_coords_moves_then_draws_lines() {
    let mut builder = PathBuilder::new();
    coords_path_builder(&vec![pt(1, 2), pt(3, 4), pt(5, 6)], &mut builder);
    assert_eq!(
        builder.build().commands,
        vec![
            PathCommand::MoveTo(pt(1, 2)),
            PathCommand::LineTo(pt(3, 4)),
            PathCommand::LineTo(pt(5, 6)),
        ]
    );
}

#[test]
fn path_of_no_coords_is_empty() {
    let mut builder = PathBuilder::new();
    coords_path_builder(&vec![], &mut builder);
    ring_path_builder(&ls(&[]), &mut builder);
    assert!(builder.build().commands.is_empty());
}

#[test]
fn path_of_ring_ends_with_close() {
    let mut builder = PathBuilder::new();
    ring_path_builder(&ls(&[(0, 0), (4, 0)]), &mut builder);
    assert_eq!(
        builder.build().commands,
        vec![PathCommand::MoveTo(pt(0, 0)), PathCommand::LineTo(pt(4, 0)), PathCommand::Close]
    );
}

#[test]
fn path_of_polygon_draws_exterior_then_holes() {
    let expected = vec![
        PathCommand::MoveTo(pt(0, 0)),
        PathCommand::LineTo(pt(4, 0)),
        PathCommand::LineTo(pt(0, 4)),
        PathCommand::LineTo(pt(0, 0)),
        PathCommand::Close,
        PathCommand::MoveTo(pt(1, 1)),
        PathCommand::LineTo(pt(2, 1)),
        PathCommand::LineTo(pt(1, 2)),
        PathCommand::LineTo(pt(1, 1)),
        PathCommand::Close,
    ];
    assert_eq!(triangle_polygon().to_path().commands, expected);
    let mut builder = PathBuilder::new();
    builder.move_to(pt(9, 9));
    polygon_path_builder(&triangle_polygon(), &mut builder);
    let commands = builder.build().commands;
    assert_eq!(commands[0], PathCommand::MoveTo(pt(9, 9)));
    assert_eq!(commands[1..], expected[..]);
}

#[test]
fn path_of_multi_polygon_draws_each_polygon() {
    let single = Polygon { exterior: ls(&[(7, 7), (8, 8)]), interiors: vec![] };
    let multi = MultiPolygon(vec![triangle_polygon(), single]);
    let commands = multi.to_path().commands;
    assert_eq!(commands.len(), 13);
    assert_eq!(commands[10], PathCommand::MoveTo(pt(7, 7)));
    assert_eq!(commands[11], PathCommand::LineTo(pt(8, 8)));
    assert_eq!(commands[12], PathCommand::Close);
    assert!(MultiPolygon(vec![]).to_path().commands.is_empty());
}

#[test]
fn path_builder_appends_commands() {
    let mut builder = PathBuilder::new();
    builder.move_to(pt(1, 1));
    builder.line_to(pt(2, 2));
    builder.close();
    assert_eq!(
        builder.build().commands,
        vec![PathCommand::MoveTo(pt(1, 1)), PathCommand::LineTo(pt(2, 2)), PathCommand::Close]
    );
}
