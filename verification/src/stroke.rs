//! Stroke meshes of line strings: one quad, two triangles, for each pair of
//! consecutive coordinates.
//!
//! The mesh names its corners, it does not place them: corner `4k + c` of the
//! mesh belongs to segment `k`, with `c = 0` left of the start, `1` right of
//! the start, `2` left of the end and `3` right of the end, each half the
//! stroke width away from the segment. Placing a corner takes a unit normal,
//! which is not a grid point; the renderer does that.

use crate::geometry::{ring_degenerate, Coord, LineString};
use vstd::prelude::*;

verus! {

/// One straight piece of a line string.
#[derive(Clone, Copy, PartialEq, Eq, Structural, Debug)]
pub struct Segment {
    pub start: Coord,
    pub end: Coord,
}

/// The pieces between consecutive coordinates, in order.
pub open spec fn segments_of(coords: Seq<Coord>) -> Seq<Segment> {
    Seq::new(
        if coords.len() < 2 {
            0nat
        } else {
            (coords.len() - 1) as nat
        },
        |i: int| Segment { start: coords[i], end: coords[i + 1] },
    )
}

/// The coordinates give nothing to draw: fewer than two of them, or a closed
/// run with fewer than three distinct points.
pub open spec fn stroke_degenerate(coords: Seq<Coord>) -> bool {
    coords.len() < 2 || (coords.first() == coords.last() && ring_degenerate(coords))
}

/// The pieces that are drawn for a line string.
pub open spec fn stroke_segments(coords: Seq<Coord>) -> Seq<Segment> {
    if stroke_degenerate(coords) {
        Seq::empty()
    } else {
        segments_of(coords)
    }
}

/// The pieces that are drawn for a run of line strings, in order.
pub open spec fn all_stroke_segments(lines: Seq<LineString>) -> Seq<Segment>
    decreases lines.len(),
{
    if lines.len() == 0 {
        Seq::empty()
    } else {
        all_stroke_segments(lines.drop_last()) + stroke_segments(lines.last()@)
    }
}

/// The corner that stands at place `j` of the six indices of a quad: the
/// triangles are corners 0, 1, 2 and corners 2, 1, 3.
pub open spec fn quad_corner(j: int) -> int {
    if j == 0 {
        0
    } else if j == 1 {
        1
    } else if j == 2 {
        2
    } else if j == 3 {
        2
    } else if j == 4 {
        1
    } else {
        3
    }
}

/// The index buffer of `n` quads.
pub open spec fn quad_indices(n: nat) -> Seq<usize> {
    Seq::new(6 * n, |i: int| (4 * (i / 6) + quad_corner(i % 6)) as usize)
}

/// A run of fewer than two coordinates, and a closed run of fewer than three
/// distinct points, give no piece to draw.
pub proof fn lemma_degenerate_stroke_is_empty(coords: Seq<Coord>)
    requires
        coords.len() < 2 || (coords.len() == 2 && coords[0] == coords[1]),
    ensures
        stroke_segments(coords) == Seq::<Segment>::empty(),
{
    if coords.len() == 2 {
        assert(coords.first() == coords.last());
        assert(ring_degenerate(coords));
    }
}

/// The stroke mesh of the line strings of one layer.
#[derive(Clone, PartialEq, Eq, Debug)]
pub struct StrokeMesh {
    /// The width of the stroke, in grid units.
    pub width: u64,
    /// The pieces, four corners each.
    pub segments: Vec<Segment>,
    /// Corner numbers, three to a triangle.
    pub indices: Vec<usize>,
}

impl StrokeMesh {
    /// The index buffer is the one of as many quads as there are pieces.
    pub open spec fn wf(&self) -> bool {
        self.indices@ == quad_indices(self.segments@.len())
    }
}

/// Gathers the line strings of one layer into one stroke mesh.
#[derive(Debug)]
pub struct LineStringMeshBuilder {
    mesh: StrokeMesh,
}

impl LineStringMeshBuilder {
    /// The mesh gathered so far.
    pub closed spec fn mesh_spec(&self) -> StrokeMesh {
        self.mesh
    }

    /// The mesh gathered so far is well formed.
    pub open spec fn wf(&self) -> bool {
        self.mesh_spec().wf()
    }

    /// A builder that holds nothing, for strokes of the given width.
    pub fn new(width: u64) -> (r: LineStringMeshBuilder)
        ensures
            r.wf(),
            r.mesh_spec().width == width,
            r.mesh_spec().segments@ == Seq::<Segment>::empty(),
    {
        let r = LineStringMeshBuilder {
            mesh: StrokeMesh { width, segments: Vec::new(), indices: Vec::new() },
        };
        assert(r.mesh.indices@ =~= quad_indices(0));
        r
    }

    /// Takes the pieces of one line string, one quad for each.
    pub fn add_line_string(&mut self, line_string: &LineString)
        requires
            old(self).wf(),
        ensures
            final(self).wf(),
            final(self).mesh_spec().width == old(self).mesh_spec().width,
            final(self).mesh_spec().segments@ == old(self).mesh_spec().segments@ + stroke_segments(
                line_string@,
            ),
    {
        let n = line_string.0.len();
        if n < 2 {
            assert(self.mesh.segments@ =~= old(self).mesh.segments@ + stroke_segments(
                line_string@,
            ));
            return ;
        }
        if line_string.0[0] == line_string.0[n - 1] && line_string.is_degenerate_ring() {
            assert(self.mesh.segments@ =~= old(self).mesh.segments@ + stroke_segments(
                line_string@,
            ));
            return ;
        }
        let mut i: usize = 0;
        while i < n - 1
            invariant
                n == line_string.0.len(),
                n >= 2,
                i <= n - 1,
                self.mesh.width == old(self).mesh.width,
                self.mesh.indices@ == quad_indices(self.mesh.segments@.len()),
                self.mesh.segments@ =~= old(self).mesh.segments@ + segments_of(line_string@).take(
                    i as int,
                ),
            decreases n - 1 - i,
        {
            let k = self.mesh.segments.len();
            let ghost before = self.mesh.indices@;
            assert(before.len() == 6 * k);
            assert(self.mesh.indices.len() == 6 * k) by {
                assert(self.mesh.indices@.len() == self.mesh.indices.len());
            }
            let first: usize = 4 * k;
            self.mesh.segments.push(Segment { start: line_string.0[i], end: line_string.0[i + 1] });
            self.mesh.indices.push(first);
            self.mesh.indices.push(first + 1);
            self.mesh.indices.push(first + 2);
            self.mesh.indices.push(first + 2);
            self.mesh.indices.push(first + 1);
            self.mesh.indices.push(first + 3);
            proof {
                let now = quad_indices((k + 1) as nat);
                assert(self.mesh.indices@.len() == now.len());
                assert forall|j: int| 0 <= j < now.len() implies self.mesh.indices@[j]
                    == now[j] by {
                    if j < 6 * k {
                        assert(self.mesh.indices@[j] == before[j]);
                    } else {
                        assert(j / 6 == k);
                        assert(j % 6 == j - 6 * k);
                    }
                }
                assert(self.mesh.indices@ =~= now);
            }
            i = i + 1;
        }
        proof {
            assert(segments_of(line_string@).take((n - 1) as int) =~= segments_of(line_string@));
            assert(!stroke_degenerate(line_string@));
        }
    }

    /// The gathered mesh; none where there is no piece to draw.
    pub fn build(self) -> (r: Option<StrokeMesh>)
        requires
            self.wf(),
        ensures
            r is None <==> self.mesh_spec().segments@.len() == 0,
            r matches Some(mesh) ==> mesh == self.mesh_spec() && mesh.wf(),
    {
        if self.mesh.segments.len() == 0 {
            None
        } else {
            Some(self.mesh)
        }
    }
}

/// The stroke mesh of a run of line strings; none where there is no piece
/// to draw.
pub fn stroke_mesh(lines: &Vec<&LineString>, width: u64) -> (r: Option<StrokeMesh>)
    ensures
        r is None <==> all_stroke_segments(crate::geometry::derefs(lines@)).len() == 0,
        r matches Some(mesh) ==> mesh.wf() && mesh.width == width && mesh.segments@
            == all_stroke_segments(crate::geometry::derefs(lines@)),
{
    let ghost all = crate::geometry::derefs(lines@);
    let mut builder = LineStringMeshBuilder::new(width);
    let mut i: usize = 0;
    while i < lines.len()
        invariant
            i <= lines.len(),
            all == crate::geometry::derefs(lines@),
            builder.wf(),
            builder.mesh_spec().width == width,
            builder.mesh_spec().segments@ =~= all_stroke_segments(all.take(i as int)),
        decreases lines.len() - i,
    {
        proof {
            assert(all.take(i + 1).drop_last() =~= all.take(i as int));
            assert(all.take(i + 1).last() == *lines@[i as int]);
        }
        builder.add_line_string(lines[i]);
        i = i + 1;
    }
    proof {
        assert(all.take(lines.len() as int) =~= all);
    }
    builder.build()
}

} // verus!
