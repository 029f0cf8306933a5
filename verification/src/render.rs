//! From a loaded layer to what the renderer and the triangulator are handed.

use crate::geometry::{derefs, ring_degenerate, LineString, Polygon};
use crate::layer::{Color, Layer, LayerHandle, LayerSpawned, Layers};
use crate::stroke::{all_stroke_segments, stroke_mesh, stroke_segments, Segment, StrokeMesh};
use crate::tessellate::{triangulation_input, usable_rings, EarcutrInput};
use vstd::prelude::*;

verus! {

/// The polygons whose exterior ring encloses an area, in order.
pub open spec fn drawable_polygons(polygons: Seq<Polygon>) -> Seq<Polygon>
    decreases polygons.len(),
{
    if polygons.len() == 0 {
        Seq::empty()
    } else {
        drawable_polygons(polygons.drop_last()) + if ring_degenerate(polygons.last().exterior@) {
            Seq::empty()
        } else {
            seq![polygons.last()]
        }
    }
}

/// The inputs are the packed forms of the polygons, one for one.
pub open spec fn inputs_of(inputs: Seq<EarcutrInput>, polygons: Seq<Polygon>) -> bool {
    &&& inputs.len() == polygons.len()
    &&& forall|i: int|
        0 <= i < inputs.len() ==> (#[trigger] inputs[i]).is_input_of(polygons[i])
            && inputs[i].vertices@.len() % 2 == 0
}

/// A closed ring with fewer than three distinct points gives nothing to
/// draw: as the exterior of a polygon no triangulator input, as a hole no
/// part of one, and as a line no piece to stroke.
pub proof fn lemma_degenerate_ring_draws_nothing(ring: LineString, interiors: Vec<LineString>)
    requires
        ring_degenerate(ring@),
        ring@.len() < 2 || ring@.first() == ring@.last(),
    ensures
        drawable_polygons(seq![Polygon { exterior: ring, interiors }]) == Seq::<Polygon>::empty(),
        usable_rings(seq![ring]) == Seq::<LineString>::empty(),
        stroke_segments(ring@) == Seq::<Segment>::empty(),
{
    reveal_with_fuel(drawable_polygons, 2);
    reveal_with_fuel(usable_rings, 2);
    let one = seq![Polygon { exterior: ring, interiors }];
    assert(one.last().exterior == ring);
    assert(one.drop_last() =~= Seq::<Polygon>::empty());
    assert(drawable_polygons(one) =~= Seq::<Polygon>::empty());
    let hole = seq![ring];
    assert(hole.last() == ring);
    assert(hole.drop_last() =~= Seq::<LineString>::empty());
    assert(usable_rings(hole) =~= Seq::<LineString>::empty());
}

/// What is drawn for one layer.
#[derive(Debug)]
pub struct LayerMeshes {
    /// The colour of both meshes.
    pub color: Color,
    /// The stroke mesh of all line strings, where there is anything to
    /// stroke.
    pub line_string_mesh: Option<StrokeMesh>,
    /// One input to the triangulator for each polygon that encloses an area.
    pub polygon_inputs: Vec<EarcutrInput>,
    /// How many parts of the geometry were passed over because they cannot
    /// be drawn.
    pub unrenderable: usize,
    /// The news to send once the meshes are with the renderer.
    pub spawned: LayerSpawned,
}

impl LayerMeshes {
    /// These are the meshes of the layer that the handle names.
    pub open spec fn is_meshes_of(&self, layer: Layer, handle: LayerHandle, stroke_width: u64) -> bool {
        let segments = all_stroke_segments(layer.geometry.line_strings_spec());
        &&& self.color == layer.color
        &&& self.spawned == LayerSpawned(handle)
        &&& self.unrenderable == layer.geometry.unrenderable_spec()
        &&& self.line_string_mesh is None <==> segments.len() == 0
        &&& self.line_string_mesh matches Some(mesh) ==> mesh.wf() && mesh.width == stroke_width
            && mesh.segments@ == segments
        &&& inputs_of(self.polygon_inputs@, drawable_polygons(layer.geometry.polygons_spec()))
    }
}

/// The inputs to the triangulator for a run of polygons: one for each
/// polygon whose exterior ring encloses an area.
pub fn polygon_inputs(polygons: &Vec<&Polygon>) -> (r: Vec<EarcutrInput>)
    ensures
        inputs_of(r@, drawable_polygons(derefs(polygons@))),
{
    let ghost all = derefs(polygons@);
    let mut inputs: Vec<EarcutrInput> = Vec::new();
    let mut i: usize = 0;
    while i < polygons.len()
        invariant
            i <= polygons.len(),
            all == derefs(polygons@),
            inputs_of(inputs@, drawable_polygons(all.take(i as int))),
        decreases polygons.len() - i,
    {
        let ghost seen = drawable_polygons(all.take(i as int));
        let ghost before = inputs@;
        proof {
            assert(all.take(i + 1).drop_last() =~= all.take(i as int));
            assert(all.take(i + 1).last() == *polygons@[i as int]);
        }
        match triangulation_input(polygons[i]) {
            Some(input) => {
                inputs.push(input);
                proof {
                    let now = drawable_polygons(all.take(i + 1));
                    assert(now =~= seen.push(*polygons@[i as int]));
                    assert forall|j: int| 0 <= j < inputs@.len() implies (
                    #[trigger] inputs@[j]).is_input_of(now[j]) && inputs@[j].vertices@.len() % 2
                        == 0 by {
                        if j < before.len() {
                            assert(inputs@[j] == before[j]);
                        }
                    }
                }
            },
            None => {
                proof {
                    assert(drawable_polygons(all.take(i + 1)) =~= seen);
                }
            },
        }
        i = i + 1;
    }
    proof {
        assert(all.take(polygons.len() as int) =~= all);
    }
    inputs
}

/// Answers the news that a layer was loaded: builds the stroke mesh of its
/// line strings and the triangulator inputs of its polygons. Parts that
/// cannot be drawn are counted and passed over. News of a layer that the
/// store does not hold is answered with nothing.
pub fn layer_loaded(layers: &Layers, handle: LayerHandle, stroke_width: u64) -> (r: Option<
    LayerMeshes,
>)
    ensures
        r is Some <==> layers.get_spec(handle) is Some,
        r matches Some(meshes) ==> meshes.is_meshes_of(
            layers.get_spec(handle)->0,
            handle,
            stroke_width,
        ),
{
    let layer = match layers.get(handle) {
        Some(layer) => layer,
        None => {
            return None;
        },
    };
    let lines = layer.geometry.line_strings();
    let line_string_mesh = stroke_mesh(&lines, stroke_width);
    let polygons = layer.geometry.polygons();
    let polygon_inputs = polygon_inputs(&polygons);
    Some(
        LayerMeshes {
            color: layer.color,
            line_string_mesh,
            polygon_inputs,
            unrenderable: layer.geometry.unrenderable_count(),
            spawned: LayerSpawned(handle),
        },
    )
}

} // verus!
