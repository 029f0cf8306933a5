use rgis::geometry::{Coord, Geometry, LineString, MultiLineString, Polygon};
use rgis::layer::{palette_color, LayerHandle, LayerSpawned, Layers};
use rgis::render::{layer_loaded, polygon_inputs};
use rgis::stroke::{stroke_mesh, LineStringMeshBuilder, Segment};
use rgis::tessellate::{
    flat_line_string_coords_2, polygon_num_coords, polygon_to_earcutr_input, triangulation_input,
    EarcutrInput, PolygonMeshBuilder, TessellationError,
};

fn p(x: i64, y: i64) -> Coord {
    Coord { x, y }
}

fn string_of(points: &[(i64, i64)]) -> LineString {
    LineString(points.iter().map(|q| p(q.0, q.1)).collect())
}

fn ring(x0: i64, y0: i64, x1: i64, y1: i64) -> LineString {
    string_of(&[(x0, y0), (x1, y0), (x1, y1), (x0, y1), (x0, y0)])
}

fn holed_square() -> Polygon {
    Polygon { exterior: ring(0, 0, 10, 10), interiors: vec![ring(4, 4, 6, 6)] }
}

fn triangulate(input: &EarcutrInput) -> Vec<usize> {
    let vertices: Vec<f64> = input.vertices.iter().map(|v| *v as f64).collect();
    earcutr::earcut(&vertices, &input.interior_indices, 2).unwrap()
}

/// Twice the area of the triangles of a mesh.
fn doubled_area(vertices: &[i64], triangle_indices: &[usize]) -> i64 {
    let at = |i: usize| (vertices[2 * i], vertices[2 * i + 1]);
    let mut sum = 0;
    for t in triangle_indices.chunks(3) {
        let (a, b, c) = (at(t[0]), at(t[1]), at(t[2]));
        sum += ((b.0 - a.0) * (c.1 - a.1) - (c.0 - a.0) * (b.1 - a.1)).abs();
    }
    sum
}

#[test]
fn flat_coords_are_packed_pairs() {
    let mut vertices = vec![7, 8];
    flat_line_string_coords_2(&string_of(&[(1, 2), (3, 4)]), &mut vertices);
    assert_eq!(vertices, vec![7, 8, 1, 2, 3, 4]);
    flat_line_string_coords_2(&string_of(&[]), &mut vertices);
    assert_eq!(vertices, vec![7, 8, 1, 2, 3, 4]);
}

#[test]
fn num_coords_counts_all_rings() {
    assert_eq!(polygon_num_coords(&holed_square()), Some(10));
    let degenerate_hole =
        Polygon { exterior: ring(0, 0, 10, 10), interiors: vec![string_of(&[(1, 1), (2, 2)])] };
    assert_eq!(polygon_num_coords(&degenerate_hole), Some(7));
    assert_eq!(
        polygon_num_coords(&Polygon { exterior: string_of(&[]), interiors: vec![] }),
        Some(0)
    );
}

#[test]
fn earcutr_input_packs_exterior_then_holes() {
    let input = polygon_to_earcutr_input(&holed_square());
    assert_eq!(
        input.vertices,
        vec![0, 0, 10, 0, 10, 10, 0, 10, 0, 0, 4, 4, 6, 4, 6, 6, 4, 6, 4, 4]
    );
    assert_eq!(input.interior_indices, vec![5]);
}

#[test]
fn earcutr_input_of_two_holes() {
    let polygon = Polygon {
        exterior: ring(0, 0, 10, 10),
        interiors: vec![string_of(&[(1, 1), (2, 1), (1, 2)]), ring(4, 4, 6, 6)],
    };
    let input = polygon_to_earcutr_input(&polygon);
    assert_eq!(input.interior_indices, vec![5, 8]);
    assert_eq!(input.vertices.len(), 2 * 13);
    assert_eq!(input.vertices[10..16], [1, 1, 2, 1, 1, 2]);
}

#[test]
fn degenerate_holes_are_left_out() {
    let polygon = Polygon {
        exterior: ring(0, 0, 10, 10),
        interiors: vec![
            string_of(&[]),
            string_of(&[(1, 1)]),
            ring(4, 4, 6, 6),
            string_of(&[(2, 2), (3, 3), (2, 2)]),
        ],
    };
    assert_eq!(polygon_to_earcutr_input(&polygon), polygon_to_earcutr_input(&holed_square()));
}

#[test]
fn degenerate_exterior_gives_no_input() {
    for points in [vec![], vec![(1, 1)], vec![(1, 1), (2, 2)], vec![(1, 1), (2, 2), (1, 1)]] {
        let polygon = Polygon { exterior: string_of(&points), interiors: vec![ring(4, 4, 6, 6)] };
        assert_eq!(triangulation_input(&polygon), None);
        assert!(polygon_inputs(&vec![&polygon]).is_empty());
    }
    assert_eq!(
        triangulation_input(&holed_square()),
        Some(polygon_to_earcutr_input(&holed_square()))
    );
}

#[test]
fn square_with_square_hole_gives_eight_triangles() {
    let input = polygon_to_earcutr_input(&holed_square());
    let triangles = triangulate(&input);
    let mut builder = PolygonMeshBuilder::new();
    assert_eq!(builder.add_triangulation(&input, &triangles), Ok(()));
    let mesh = builder.build().unwrap();
    assert_eq!(mesh.triangle_count(), 8);
    assert_eq!(mesh.vertices, input.vertices);
    assert_eq!(doubled_area(&mesh.vertices, &mesh.triangle_indices), 2 * (100 - 4));
}

#[test]
fn simple_polygon_gives_points_minus_two_triangles() {
    let pentagon = Polygon {
        exterior: string_of(&[(0, 0), (6, 0), (8, 4), (3, 8), (-2, 4), (0, 0)]),
        interiors: vec![],
    };
    let input = polygon_to_earcutr_input(&pentagon);
    let triangles = triangulate(&input);
    let mut builder = PolygonMeshBuilder::new();
    builder.add_triangulation(&input, &triangles).unwrap();
    let mesh = builder.build().unwrap();
    assert_eq!(mesh.triangle_count(), 5 - 2);
    // shoelace: twice the area of the pentagon
    assert_eq!(doubled_area(&mesh.vertices, &mesh.triangle_indices), 104);
}

#[test]
fn meshes_of_several_polygons_share_one_buffer() {
    let first = polygon_to_earcutr_input(&Polygon { exterior: ring(0, 0, 2, 2), interiors: vec![] });
    let second =
        polygon_to_earcutr_input(&Polygon { exterior: ring(5, 5, 9, 9), interiors: vec![] });
    let mut builder = PolygonMeshBuilder::new();
    builder.add_triangulation(&first, &vec![0, 1, 2, 2, 3, 0]).unwrap();
    builder.add_triangulation(&second, &vec![0, 1, 2, 2, 3, 0]).unwrap();
    let mesh = builder.build().unwrap();
    assert_eq!(mesh.triangle_indices, vec![0, 1, 2, 2, 3, 0, 5, 6, 7, 7, 8, 5]);
    assert_eq!(mesh.vertices.len(), 20);
    assert_eq!(mesh.vertices[10..], second.vertices[..]);
    assert_eq!(mesh.triangle_count(), 4);
    assert_eq!(doubled_area(&mesh.vertices, &mesh.triangle_indices), 2 * (4 + 16));
}

#[test]
fn triangles_that_do_not_fit_are_refused() {
    let input = polygon_to_earcutr_input(&Polygon { exterior: ring(0, 0, 2, 2), interiors: vec![] });
    let mut builder = PolygonMeshBuilder::new();
    assert_eq!(
        builder.add_triangulation(&input, &vec![0, 1]),
        Err(TessellationError::InvalidTriangulation)
    );
    assert_eq!(
        builder.add_triangulation(&input, &vec![0, 1, 5]),
        Err(TessellationError::InvalidTriangulation)
    );
    let odd = EarcutrInput { vertices: vec![0, 0, 1], interior_indices: vec![] };
    assert_eq!(builder.add_triangulation(&odd, &vec![]), Err(TessellationError::OddVertexData));
    assert_eq!(builder.build(), None);
}

#[test]
fn points_without_triangles_are_kept() {
    let input = polygon_to_earcutr_input(&Polygon { exterior: ring(0, 0, 2, 2), interiors: vec![] });
    let mut builder = PolygonMeshBuilder::new();
    assert_eq!(builder.add_triangulation(&input, &vec![]), Ok(()));
    let mesh = builder.build().unwrap();
    assert_eq!(mesh.triangle_count(), 0);
    assert_eq!(mesh.vertices, input.vertices);
}

#[test]
fn empty_builder_builds_nothing() {
    assert_eq!(PolygonMeshBuilder::new().build(), None);
    assert_eq!(LineStringMeshBuilder::new(3).build(), None);
}

#[test]
fn stroke_has_one_quad_for_each_segment() {
    let mut builder = LineStringMeshBuilder::new(4);
    builder.add_line_string(&string_of(&[(0, 0), (5, 0), (5, 5)]));
    builder.add_line_string(&string_of(&[(9, 9), (8, 8)]));
    let mesh = builder.build().unwrap();
    assert_eq!(mesh.width, 4);
    assert_eq!(
        mesh.segments,
        vec![
            Segment { start: p(0, 0), end: p(5, 0) },
            Segment { start: p(5, 0), end: p(5, 5) },
            Segment { start: p(9, 9), end: p(8, 8) },
        ]
    );
    assert_eq!(
        mesh.indices,
        vec![0, 1, 2, 2, 1, 3, 4, 5, 6, 6, 5, 7, 8, 9, 10, 10, 9, 11]
    );
}

#[test]
fn degenerate_line_strings_give_no_stroke() {
    let mut builder = LineStringMeshBuilder::new(1);
    builder.add_line_string(&string_of(&[]));
    builder.add_line_string(&string_of(&[(1, 1)]));
    builder.add_line_string(&string_of(&[(1, 1), (1, 1)]));
    builder.add_line_string(&string_of(&[(1, 1), (2, 2), (1, 1)]));
    assert_eq!(builder.build(), None);
    let lines = [string_of(&[]), string_of(&[(3, 3)])];
    assert_eq!(stroke_mesh(&lines.iter().collect(), 2), None);
}

#[test]
fn closed_line_string_with_area_is_stroked() {
    let lines = [ring(0, 0, 2, 2)];
    let mesh = stroke_mesh(&lines.iter().collect(), 2).unwrap();
    assert_eq!(mesh.segments.len(), 4);
    assert_eq!(mesh.indices.len(), 24);
    assert_eq!(mesh.segments[3], Segment { start: p(0, 2), end: p(0, 0) });
}

#[test]
fn layer_loaded_builds_meshes_by_kind() {
    let mut layers = Layers::new();
    layers.add(Geometry::LineString(string_of(&[(0, 0), (1, 1)])), None).unwrap();
    let handle = layers
        .add(
            Geometry::GeometryCollection(vec![
                Geometry::LineString(string_of(&[(0, 0), (5, 0), (5, 5)])),
                Geometry::Point(p(1, 1)),
                Geometry::Polygon(holed_square()),
                Geometry::MultiLineString(MultiLineString(vec![
                    string_of(&[(7, 7)]),
                    string_of(&[(9, 9), (8, 8)]),
                ])),
                Geometry::Polygon(Polygon { exterior: string_of(&[(1, 1), (2, 2)]), interiors: vec![] }),
                Geometry::GeometryCollection(vec![]),
            ]),
            None,
        )
        .unwrap();
    let meshes = layer_loaded(&layers, handle, 6).unwrap();
    assert_eq!(meshes.color, palette_color(1));
    assert_eq!(meshes.spawned, LayerSpawned(handle));
    assert_eq!(meshes.unrenderable, 2);
    let strokes = meshes.line_string_mesh.unwrap();
    assert_eq!(strokes.width, 6);
    assert_eq!(strokes.segments.len(), 3);
    assert_eq!(strokes.indices.len(), 18);
    assert_eq!(meshes.polygon_inputs, vec![polygon_to_earcutr_input(&holed_square())]);
}

#[test]
fn layer_loaded_of_lines_only_has_no_polygon_input() {
    let mut layers = Layers::new();
    let handle = layers.add(Geometry::LineString(string_of(&[(0, 0), (1, 1)])), None).unwrap();
    let meshes = layer_loaded(&layers, handle, 1).unwrap();
    assert!(meshes.polygon_inputs.is_empty());
    assert_eq!(meshes.unrenderable, 0);
    assert_eq!(meshes.line_string_mesh.unwrap().segments.len(), 1);
    let handle = layers.add(Geometry::Polygon(holed_square()), None).unwrap();
    let meshes = layer_loaded(&layers, handle, 1).unwrap();
    assert_eq!(meshes.line_string_mesh, None);
    assert_eq!(meshes.polygon_inputs.len(), 1);
}

#[test]
fn layer_loaded_of_stale_handle_is_nothing() {
    let layers = Layers::new();
    assert!(layer_loaded(&layers, LayerHandle(0), 1).is_none());
}
