//! Triangle meshes of polygons: what goes to the triangulator, and what is
//! made of the triangles that come back.
//!
//! The triangulator works on packed coordinates: `x0, y0, x1, y1, ...`, the
//! exterior ring first, then each hole, with the point index at which each
//! hole starts. It answers with point indices, three to a triangle.

use crate::geometry::{ring_degenerate, Coord, LineString, Polygon};
use vstd::prelude::*;

verus! {

/// The coordinates, packed: two numbers for each.
pub open spec fn flat_coords(coords: Seq<Coord>) -> Seq<i64>
    decreases coords.len(),
{
    if coords.len() == 0 {
        Seq::empty()
    } else {
        flat_coords(coords.drop_last()).push(coords.last().x).push(coords.last().y)
    }
}

/// The rings that enclose an area, in order.
pub open spec fn usable_rings(rings: Seq<LineString>) -> Seq<LineString>
    decreases rings.len(),
{
    if rings.len() == 0 {
        Seq::empty()
    } else {
        usable_rings(rings.drop_last()) + if ring_degenerate(rings.last()@) {
            Seq::empty()
        } else {
            seq![rings.last()]
        }
    }
}

/// How many coordinates the rings hold together.
pub open spec fn total_len(rings: Seq<LineString>) -> nat
    decreases rings.len(),
{
    if rings.len() == 0 {
        0
    } else {
        total_len(rings.drop_last()) + rings.last()@.len()
    }
}

/// The packed coordinates of the rings, one ring after the other.
pub open spec fn flat_rings(rings: Seq<LineString>) -> Seq<i64>
    decreases rings.len(),
{
    if rings.len() == 0 {
        Seq::empty()
    } else {
        flat_rings(rings.drop_last()) + flat_coords(rings.last()@)
    }
}

/// The point index at which each ring starts, where `first` points come
/// before the first ring.
pub open spec fn ring_starts(first: nat, rings: Seq<LineString>) -> Seq<usize>
    decreases rings.len(),
{
    if rings.len() == 0 {
        Seq::empty()
    } else {
        ring_starts(first, rings.drop_last()).push(
            (first + total_len(rings.drop_last())) as usize,
        )
    }
}

/// Packing gives two numbers for each coordinate, in order.
pub proof fn lemma_flat_coords(coords: Seq<Coord>)
    ensures
        flat_coords(coords).len() == 2 * coords.len(),
        forall|i: int|
            0 <= i < coords.len() ==> flat_coords(coords)[2 * i] == (#[trigger] coords[i]).x
                && flat_coords(coords)[2 * i + 1] == coords[i].y,
    decreases coords.len(),
{
    if coords.len() > 0 {
        lemma_flat_coords(coords.drop_last());
        assert forall|i: int| 0 <= i < coords.len() implies flat_coords(coords)[2 * i] == (
        #[trigger] coords[i]).x && flat_coords(coords)[2 * i + 1] == coords[i].y by {
            if i < coords.len() - 1 {
                assert(coords.drop_last()[i] == coords[i]);
            }
        }
    }
}

/// What the triangulator is given for one polygon.
#[derive(Clone, PartialEq, Eq, Debug)]
pub struct EarcutrInput {
    /// The packed coordinates of the exterior ring and of each hole.
    pub vertices: Vec<i64>,
    /// The point index at which each hole starts.
    pub interior_indices: Vec<usize>,
}

impl EarcutrInput {
    /// How many points the input holds.
    pub open spec fn point_count(&self) -> int {
        self.vertices@.len() as int / 2
    }

    /// The input is the packed form of the polygon: its exterior ring, then
    /// its holes that enclose an area.
    pub open spec fn is_input_of(&self, polygon: Polygon) -> bool {
        &&& self.vertices@ == flat_coords(polygon.exterior@) + flat_rings(
            usable_rings(polygon.interiors@),
        )
        &&& self.interior_indices@ == ring_starts(
            polygon.exterior@.len(),
            usable_rings(polygon.interiors@),
        )
    }
}

/// Appends the packed coordinates of a line string.
pub fn flat_line_string_coords_2(line_string: &LineString, vertices: &mut Vec<i64>)
    ensures
        final(vertices)@ == old(vertices)@ + flat_coords(line_string@),
{
    let mut i: usize = 0;
    while i < line_string.0.len()
        invariant
            i <= line_string.0.len(),
            vertices@ =~= old(vertices)@ + flat_coords(line_string@.take(i as int)),
        decreases line_string.0.len() - i,
    {
        proof {
            assert(line_string@.take(i + 1).drop_last() =~= line_string@.take(i as int));
        }
        vertices.push(line_string.0[i].x);
        vertices.push(line_string.0[i].y);
        i = i + 1;
    }
    proof {
        assert(line_string@.take(line_string.0.len() as int) =~= line_string@);
    }
}

/// How many coordinates the polygon holds, all rings counted; none where the
/// count does not fit.
pub fn polygon_num_coords(polygon: &Polygon) -> (r: Option<usize>)
    ensures
        r is Some <==> polygon.exterior@.len() + total_len(polygon.interiors@) <= usize::MAX,
        r matches Some(n) ==> n == polygon.exterior@.len() + total_len(polygon.interiors@),
{
    let mut count: usize = polygon.exterior.0.len();
    let mut i: usize = 0;
    while i < polygon.interiors.len()
        invariant
            i <= polygon.interiors.len(),
            count == polygon.exterior@.len() + total_len(polygon.interiors@.take(i as int)),
        decreases polygon.interiors.len() - i,
    {
        proof {
            assert(polygon.interiors@.take(i + 1).drop_last() =~= polygon.interiors@.take(
                i as int,
            ));
            lemma_total_len_grows(polygon.interiors@, i + 1);
        }
        match count.checked_add(polygon.interiors[i].0.len()) {
            Some(sum) => {
                count = sum;
            },
            None => {
                return None;
            },
        }
        i = i + 1;
    }
    proof {
        assert(polygon.interiors@.take(polygon.interiors.len() as int) =~= polygon.interiors@);
    }
    Some(count)
}

/// The first rings of a sequence hold no more coordinates than all of them.
pub proof fn lemma_total_len_grows(rings: Seq<LineString>, n: int)
    requires
        0 <= n <= rings.len(),
    ensures
        total_len(rings.take(n)) <= total_len(rings),
    decreases rings.len() - n,
{
    if n < rings.len() {
        assert(rings.take(n + 1).drop_last() =~= rings.take(n));
        lemma_total_len_grows(rings, n + 1);
    } else {
        assert(rings.take(n) =~= rings);
    }
}

/// The packed form of a polygon for the triangulator. Holes with fewer than
/// three distinct points are left out.
pub fn polygon_to_earcutr_input(polygon: &Polygon) -> (r: EarcutrInput)
    ensures
        r.is_input_of(*polygon),
        r.vertices@.len() % 2 == 0,
        r.point_count() == polygon.exterior@.len() + total_len(usable_rings(polygon.interiors@)),
{
    let mut vertices: Vec<i64> = Vec::new();
    let mut interior_indices: Vec<usize> = Vec::new();
    flat_line_string_coords_2(&polygon.exterior, &mut vertices);
    proof {
        lemma_flat_coords(polygon.exterior@);
    }
    let mut i: usize = 0;
    while i < polygon.interiors.len()
        invariant
            i <= polygon.interiors.len(),
            vertices@ =~= flat_coords(polygon.exterior@) + flat_rings(
                usable_rings(polygon.interiors@.take(i as int)),
            ),
            interior_indices@ =~= ring_starts(
                polygon.exterior@.len(),
                usable_rings(polygon.interiors@.take(i as int)),
            ),
            vertices@.len() == 2 * (polygon.exterior@.len() + total_len(
                usable_rings(polygon.interiors@.take(i as int)),
            )),
        decreases polygon.interiors.len() - i,
    {
        let ghost seen = usable_rings(polygon.interiors@.take(i as int));
        proof {
            assert(polygon.interiors@.take(i + 1).drop_last() =~= polygon.interiors@.take(
                i as int,
            ));
        }
        let ring = &polygon.interiors[i];
        if !ring.is_degenerate_ring() {
            proof {
                let now = usable_rings(polygon.interiors@.take(i + 1));
                assert(now =~= seen.push(*ring));
                assert(now.drop_last() =~= seen);
                lemma_flat_coords(ring@);
            }
            interior_indices.push(vertices.len() / 2);
            flat_line_string_coords_2(ring, &mut vertices);
        } else {
            proof {
                assert(usable_rings(polygon.interiors@.take(i + 1)) =~= seen);
            }
        }
        i = i + 1;
    }
    proof {
        assert(polygon.interiors@.take(polygon.interiors.len() as int) =~= polygon.interiors@);
    }
    EarcutrInput { vertices, interior_indices }
}

/// What to triangulate for a polygon: nothing where the exterior ring has
/// fewer than three distinct points, else its packed form.
pub fn triangulation_input(polygon: &Polygon) -> (r: Option<EarcutrInput>)
    ensures
        r is None <==> ring_degenerate(polygon.exterior@),
        r matches Some(input) ==> input.is_input_of(*polygon) && input.vertices@.len() % 2 == 0,
{
    if polygon.exterior.is_degenerate_ring() {
        None
    } else {
        Some(polygon_to_earcutr_input(polygon))
    }
}

/// The triangles are whole, and every index names one of the points.
pub open spec fn valid_triangulation(point_count: int, indices: Seq<usize>) -> bool {
    &&& indices.len() % 3 == 0
    &&& forall|i: int| 0 <= i < indices.len() ==> (#[trigger] indices[i]) < point_count
}

/// Each index moved up by `base`.
pub open spec fn shifted(indices: Seq<usize>, base: int) -> Seq<usize> {
    Seq::new(indices.len(), |i: int| (indices[i] + base) as usize)
}

/// Why triangles were not taken into a mesh.
#[derive(Clone, Copy, PartialEq, Eq, Structural, Debug)]
pub enum TessellationError {
    /// The packed coordinates do not come in pairs.
    OddVertexData,
    /// The indices do not come in threes, or one of them names no point.
    InvalidTriangulation,
}

/// The triangle mesh of all polygons of one layer: one run of packed
/// coordinates and one run of point indices, three to a triangle.
#[derive(Clone, PartialEq, Eq, Debug)]
pub struct PolygonMesh {
    pub vertices: Vec<i64>,
    pub triangle_indices: Vec<usize>,
}

impl PolygonMesh {
    /// The coordinates come in pairs, the indices in threes, and every
    /// index names a point of the mesh.
    pub open spec fn wf(&self) -> bool {
        &&& self.vertices@.len() % 2 == 0
        &&& valid_triangulation(self.vertices@.len() as int / 2, self.triangle_indices@)
    }

    /// How many triangles the mesh holds.
    pub fn triangle_count(&self) -> (r: usize)
        ensures
            r == self.triangle_indices@.len() / 3,
    {
        self.triangle_indices.len() / 3
    }
}

/// Gathers the triangles of the polygons of one layer into one mesh.
#[derive(Debug)]
pub struct PolygonMeshBuilder {
    mesh: PolygonMesh,
}

impl PolygonMeshBuilder {
    /// The mesh gathered so far.
    pub closed spec fn mesh_spec(&self) -> PolygonMesh {
        self.mesh
    }

    /// The mesh gathered so far is well formed.
    pub open spec fn wf(&self) -> bool {
        self.mesh_spec().wf()
    }

    /// A builder that holds nothing.
    pub fn new() -> (r: PolygonMeshBuilder)
        ensures
            r.wf(),
            r.mesh_spec().vertices@ == Seq::<i64>::empty(),
            r.mesh_spec().triangle_indices@ == Seq::<usize>::empty(),
    {
        PolygonMeshBuilder {
            mesh: PolygonMesh { vertices: Vec::new(), triangle_indices: Vec::new() },
        }
    }

    /// Takes one polygon's points and the triangles that the triangulator
    /// made of them. The points are appended, and the triangles with their
    /// indices moved past the points that were there before.
    ///
    /// Triangles that do not fit the points are refused, and the builder
    /// stays as it was.
    pub fn add_triangulation(&mut self, input: &EarcutrInput, triangle_indices: &Vec<usize>) -> (r:
        Result<(), TessellationError>)
        requires
            old(self).wf(),
        ensures
            final(self).wf(),
            input.vertices@.len() % 2 != 0 ==> r == Err::<(), TessellationError>(
                TessellationError::OddVertexData,
            ),
            input.vertices@.len() % 2 == 0 && !valid_triangulation(
                input.point_count(),
                triangle_indices@,
            ) ==> r == Err::<(), TessellationError>(TessellationError::InvalidTriangulation),
            r is Err ==> final(self).mesh_spec() == old(self).mesh_spec(),
            input.vertices@.len() % 2 == 0 && valid_triangulation(
                input.point_count(),
                triangle_indices@,
            ) ==> {
                &&& r is Ok
                &&& final(self).mesh_spec().vertices@ == old(self).mesh_spec().vertices@
                    + input.vertices@
                &&& final(self).mesh_spec().triangle_indices@ == old(
                    self,
                ).mesh_spec().triangle_indices@ + shifted(
                    triangle_indices@,
                    old(self).mesh_spec().vertices@.len() as int / 2,
                )
            },
    {
        if input.vertices.len() % 2 != 0 {
            return Err(TessellationError::OddVertexData);
        }
        let point_count = input.vertices.len() / 2;
        if triangle_indices.len() % 3 != 0 {
            return Err(TessellationError::InvalidTriangulation);
        }
        let mut t: usize = 0;
        while t < triangle_indices.len()
            invariant
                t <= triangle_indices.len(),
                self.mesh == old(self).mesh,
                old(self).wf(),
                input.vertices@.len() % 2 == 0,
                point_count == input.vertices@.len() / 2,
                forall|j: int| 0 <= j < t ==> (#[trigger] triangle_indices@[j]) < point_count,
            decreases triangle_indices.len() - t,
        {
            if triangle_indices[t] >= point_count {
                return Err(TessellationError::InvalidTriangulation);
            }
            t = t + 1;
        }
        let base = self.mesh.vertices.len() / 2;
        let mut i: usize = 0;
        while i < input.vertices.len()
            invariant
                i <= input.vertices.len(),
                self.mesh.vertices@ =~= old(self).mesh.vertices@ + input.vertices@.take(i as int),
                self.mesh.triangle_indices@ == old(self).mesh.triangle_indices@,
            decreases input.vertices.len() - i,
        {
            self.mesh.vertices.push(input.vertices[i]);
            i = i + 1;
        }
        proof {
            assert(input.vertices@.take(input.vertices.len() as int) =~= input.vertices@);
        }
        let total = self.mesh.vertices.len();
        let mut k: usize = 0;
        while k < triangle_indices.len()
            invariant
                k <= triangle_indices.len(),
                total == self.mesh.vertices@.len(),
                total == old(self).mesh.vertices@.len() + input.vertices@.len(),
                old(self).mesh.vertices@.len() % 2 == 0,
                input.vertices@.len() % 2 == 0,
                base == old(self).mesh.vertices@.len() / 2,
                point_count == input.vertices@.len() / 2,
                self.mesh.vertices@ == old(self).mesh.vertices@ + input.vertices@,
                forall|j: int|
                    0 <= j < triangle_indices@.len() ==> (#[trigger] triangle_indices@[j])
                        < point_count,
                self.mesh.triangle_indices@ =~= old(self).mesh.triangle_indices@ + shifted(
                    triangle_indices@,
                    base as int,
                ).take(k as int),
            decreases triangle_indices.len() - k,
        {
            let index = triangle_indices[k];
            assert(index < point_count);
            self.mesh.triangle_indices.push(index + base);
            k = k + 1;
        }
        proof {
            let moved = shifted(triangle_indices@, base as int);
            assert(moved.take(triangle_indices.len() as int) =~= moved);
            assert forall|j: int| 0 <= j < self.mesh.triangle_indices@.len() implies (
            #[trigger] self.mesh.triangle_indices@[j]) < self.mesh.vertices@.len() as int / 2 by {
                let before = old(self).mesh.triangle_indices@.len();
                if j < before {
                    assert(self.mesh.triangle_indices@[j] == old(self).mesh.triangle_indices@[j]);
                } else {
                    assert(self.mesh.triangle_indices@[j] == moved[j - before]);
                    assert(triangle_indices@[j - before] < point_count);
                }
            }
        }
        Ok(())
    }

    /// The gathered mesh; none where no point was taken.
    pub fn build(self) -> (r: Option<PolygonMesh>)
        requires
            self.wf(),
        ensures
            r is None <==> self.mesh_spec().vertices@.len() == 0,
            r matches Some(mesh) ==> mesh == self.mesh_spec() && mesh.wf(),
    {
        if self.mesh.vertices.len() == 0 {
            None
        } else {
            Some(self.mesh)
        }
    }
}

} // verus!
