//! The layer store: every loaded layer with its extent, colour and metadata,
//! the merged extent of all of them, and point queries.

use crate::bounding_rect::{
    bbox_merge, geometry_bounding_rect, geometry_bounding_rect_spec, lemma_bounding_rect_in_range,
    merge_opt, BoundingRect,
};
use crate::contains::{geometry_contains, geometry_contains_spec};
use crate::error::LayerError;
use crate::geometry::{derefs, Coord, Geometry};
use vstd::prelude::*;

verus! {

/// `serde_json::Map`, the ordered map from keys to JSON values. Its contents
/// are not visible to proofs.
#[verifier::external_type_specification]
#[verifier::external_body]
#[verifier::reject_recursive_types(K)]
#[verifier::reject_recursive_types(V)]
pub struct ExJsonMap<K, V>(serde_json::Map<K, V>);

/// `serde_json::Value`, any JSON value. Its contents are not visible to
/// proofs.
#[verifier::external_type_specification]
#[verifier::external_body]
pub struct ExJsonValue(serde_json::Value);

/// The properties that came with a feature.
pub type Metadata = serde_json::Map<String, serde_json::Value>;

/// The keys that a metadata map holds.
pub uninterp spec fn metadata_keys(metadata: serde_json::Map<String, serde_json::Value>) -> Set<
    Seq<char>,
>;

/// Calls `serde_json::Map::new`.
///
/// Not proved, but taken from `serde_json`: that the new map holds no key.
#[verifier::external_body]
fn empty_metadata() -> (m: Metadata)
    ensures
        metadata_keys(m) == Set::<Seq<char>>::empty(),
{
    serde_json::Map::new()
}

/// The colour in which a layer is drawn.
#[derive(Clone, Copy, PartialEq, Eq, Structural, Debug)]
pub struct Color {
    pub r: u8,
    pub g: u8,
    pub b: u8,
}

/// How many colours the palette holds.
pub const PALETTE_LEN: usize = 8;

/// The colour in a slot of the palette.
pub open spec fn palette_spec(slot: int) -> Color {
    if slot == 0 {
        Color { r: 230, g: 25, b: 75 }
    } else if slot == 1 {
        Color { r: 60, g: 180, b: 75 }
    } else if slot == 2 {
        Color { r: 255, g: 225, b: 25 }
    } else if slot == 3 {
        Color { r: 0, g: 130, b: 200 }
    } else if slot == 4 {
        Color { r: 245, g: 130, b: 48 }
    } else if slot == 5 {
        Color { r: 145, g: 30, b: 180 }
    } else if slot == 6 {
        Color { r: 70, g: 240, b: 240 }
    } else {
        Color { r: 240, g: 50, b: 230 }
    }
}

/// The colour of the layer that is inserted as number `index`: the palette
/// is gone through in order, again and again.
pub fn palette_color(index: usize) -> (c: Color)
    ensures
        c == palette_spec((index % PALETTE_LEN) as int),
{
    let slot: usize = index % PALETTE_LEN;
    if slot == 0 {
        Color { r: 230, g: 25, b: 75 }
    } else if slot == 1 {
        Color { r: 60, g: 180, b: 75 }
    } else if slot == 2 {
        Color { r: 255, g: 225, b: 25 }
    } else if slot == 3 {
        Color { r: 0, g: 130, b: 200 }
    } else if slot == 4 {
        Color { r: 245, g: 130, b: 48 }
    } else if slot == 5 {
        Color { r: 145, g: 30, b: 180 }
    } else if slot == 6 {
        Color { r: 70, g: 240, b: 240 }
    } else {
        Color { r: 240, g: 50, b: 230 }
    }
}

/// One loaded layer.
#[derive(Debug)]
pub struct Layer {
    pub geometry: Geometry,
    pub bounding_rect: BoundingRect,
    pub color: Color,
    pub metadata: Metadata,
}

impl Layer {
    /// The geometry can make a layer, and the rectangle is its bounding
    /// rectangle.
    pub open spec fn wf(&self) -> bool {
        &&& self.geometry.supported()
        &&& self.geometry.valid()
        &&& self.bounding_rect == geometry_bounding_rect_spec(self.geometry)
    }

    /// The coordinate lies in the bounding rectangle and in the geometry.
    pub open spec fn contains_coord_spec(&self, coord: Coord) -> bool {
        self.bounding_rect.contains_spec(coord) && geometry_contains_spec(self.geometry, coord)
    }

    /// Whether the layer contains the coordinate. The bounding rectangle is
    /// asked first, the geometry only for a coordinate inside it.
    pub fn contains_coord(&self, coord: Coord) -> (r: bool)
        requires
            self.wf(),
        ensures
            r == self.contains_coord_spec(coord),
    {
        if !self.bounding_rect.contains(coord) {
            return false;
        }
        proof {
            lemma_bounding_rect_in_range(self.geometry);
        }
        geometry_contains(&self.geometry, coord)
    }

    /// Makes a layer of a geometry. Without metadata the layer gets an empty
    /// map.
    pub fn from_geometry(geometry: Geometry, metadata: Option<Metadata>, color: Color) -> (r:
        Result<Layer, LayerError>)
        ensures
            !geometry.supported() ==> r == Err::<Layer, LayerError>(
                LayerError::UnsupportedGeometryKind,
            ),
            geometry.supported() && !geometry.valid() ==> r == Err::<Layer, LayerError>(
                LayerError::CoordinateOutOfRange,
            ),
            geometry.supported() && geometry.valid() ==> r is Ok && made_of(
                r->Ok_0,
                geometry,
                metadata,
                color,
            ),
    {
        let bounding_rect = match geometry_bounding_rect(&geometry) {
            Ok(rect) => rect,
            Err(e) => {
                return Err(e);
            },
        };
        if !geometry.is_valid() {
            return Err(LayerError::CoordinateOutOfRange);
        }
        let metadata = match metadata {
            Some(m) => m,
            None => empty_metadata(),
        };
        Ok(Layer { geometry, bounding_rect, color, metadata })
    }
}

/// The layer is the one that `from_geometry` makes of these parts.
pub open spec fn made_of(
    layer: Layer,
    geometry: Geometry,
    metadata: Option<Metadata>,
    color: Color,
) -> bool {
    &&& layer.wf()
    &&& layer.geometry == geometry
    &&& layer.bounding_rect == geometry_bounding_rect_spec(geometry)
    &&& layer.color == color
    &&& match metadata {
        Some(m) => layer.metadata == m,
        None => metadata_keys(layer.metadata) == Set::<Seq<char>>::empty(),
    }
}

/// Names a layer of one store: the position at which it was inserted.
#[derive(Clone, Copy, PartialEq, Eq, Structural, Debug)]
pub struct LayerHandle(pub usize);

/// Says that a layer was put into the store.
#[derive(Debug)]
pub struct LayerLoaded {
    pub handle: LayerHandle,
    pub file_label: String,
}

/// Says that the meshes of a layer were handed to the renderer.
#[derive(Clone, Copy, PartialEq, Eq, Structural, Debug)]
pub struct LayerSpawned(pub LayerHandle);

/// The merged bounding rectangle of the layers; none for no layer.
pub open spec fn merged_rects(layers: Seq<Layer>) -> Option<BoundingRect>
    decreases layers.len(),
{
    if layers.len() == 0 {
        None
    } else {
        merge_opt(merged_rects(layers.drop_last()), Some(layers.last().bounding_rect))
    }
}

/// The layers whose flag is set, in order.
pub open spec fn selected(layers: Seq<Layer>, hits: Seq<bool>) -> Seq<Layer>
    decreases layers.len(),
{
    if layers.len() == 0 {
        Seq::empty()
    } else {
        selected(layers.drop_last(), hits.drop_last()) + if hits.last() {
            seq![layers.last()]
        } else {
            Seq::empty()
        }
    }
}

/// The layers that contain the coordinate, in order.
pub open spec fn containing_spec(layers: Seq<Layer>, coord: Coord) -> Seq<Layer> {
    layers.filter(|l: Layer| l.contains_coord_spec(coord))
}

/// The merged rectangle is present exactly for a store with layers, and it
/// holds the rectangle of every layer.
pub proof fn lemma_merged_rects(layers: Seq<Layer>)
    ensures
        merged_rects(layers) is None <==> layers.len() == 0,
        merged_rects(layers) matches Some(all) ==> forall|i: int|
            0 <= i < layers.len() ==> all.covers((#[trigger] layers[i]).bounding_rect),
    decreases layers.len(),
{
    if layers.len() > 0 {
        let front = layers.drop_last();
        lemma_merged_rects(front);
        let all = merged_rects(layers)->0;
        assert forall|i: int| 0 <= i < layers.len() implies all.covers(
            (#[trigger] layers[i]).bounding_rect,
        ) by {
            if i < front.len() {
                assert(front[i] == layers[i]);
            }
        }
    }
}

/// Selecting by flags that agree with a test is filtering by the test.
pub proof fn lemma_selected_is_filter(
    layers: Seq<Layer>,
    hits: Seq<bool>,
    pred: spec_fn(Layer) -> bool,
)
    requires
        hits.len() == layers.len(),
        forall|i: int| 0 <= i < layers.len() ==> #[trigger] hits[i] == pred(layers[i]),
    ensures
        selected(layers, hits) == layers.filter(pred),
    decreases layers.len(),
{
    reveal(Seq::filter);
    if layers.len() > 0 {
        let n = layers.len() - 1;
        assert(hits.last() == hits[n]);
        assert(layers.last() == layers[n]);
        assert forall|i: int| 0 <= i < layers.drop_last().len() implies (
        #[trigger] hits.drop_last()[i]) == pred(layers.drop_last()[i]) by {
            assert(hits.drop_last()[i] == hits[i]);
        }
        lemma_selected_is_filter(layers.drop_last(), hits.drop_last(), pred);
        if hits[n] {
            assert(selected(layers, hits) =~= layers.drop_last().filter(pred).push(layers.last()));
        } else {
            assert(selected(layers, hits) =~= layers.drop_last().filter(pred));
        }
    }
}

/// A layer that was just added is found under the handle that the store
/// gave for it, with the bounding rectangle of its geometry.
pub proof fn lemma_added_layer_is_found(
    before: Layers,
    after: Layers,
    geometry: Geometry,
    metadata: Option<Metadata>,
    color: Color,
)
    requires
        after@.len() == before@.len() + 1,
        before@.len() <= usize::MAX,
        made_of(after@.last(), geometry, metadata, color),
    ensures
        after.get_spec(LayerHandle(before@.len() as usize)) == Some(after@.last()),
        after.get_spec(LayerHandle(before@.len() as usize))->0.bounding_rect
            == geometry_bounding_rect_spec(geometry),
{
}

/// A coordinate outside the merged rectangle of well-formed layers is
/// contained in none of them.
pub proof fn lemma_outside_extent_contains_nothing(layers: Seq<Layer>, coord: Coord)
    requires
        merged_rects(layers) matches Some(all) ==> !all.contains_spec(coord),
    ensures
        containing_spec(layers, coord) == Seq::<Layer>::empty(),
{
    lemma_merged_rects(layers);
    let hits = Seq::new(layers.len(), |i: int| false);
    assert forall|i: int| 0 <= i < layers.len() implies #[trigger] hits[i]
        == layers[i].contains_coord_spec(coord) by {
        let all = merged_rects(layers)->0;
        assert(all.covers(layers[i].bounding_rect));
    }
    lemma_selected_is_filter(layers, hits, |l: Layer| l.contains_coord_spec(coord));
    lemma_selected_none(layers, hits);
}

/// Selecting by flags of which none is set gives nothing.
pub proof fn lemma_selected_none(layers: Seq<Layer>, hits: Seq<bool>)
    requires
        hits.len() == layers.len(),
        forall|i: int| 0 <= i < hits.len() ==> !(#[trigger] hits[i]),
    ensures
        selected(layers, hits) == Seq::<Layer>::empty(),
    decreases layers.len(),
{
    if layers.len() > 0 {
        assert(!hits[hits.len() - 1]);
        assert forall|i: int| 0 <= i < hits.drop_last().len() implies !(
        #[trigger] hits.drop_last()[i]) by {
            assert(hits.drop_last()[i] == hits[i]);
        }
        lemma_selected_none(layers.drop_last(), hits.drop_last());
    }
}

/// All loaded layers, in the order in which they were added, and the merged
/// bounding rectangle of all of them.
#[derive(Debug)]
pub struct Layers {
    data: Vec<Layer>,
    bounding_rect: Option<BoundingRect>,
}

impl View for Layers {
    type V = Seq<Layer>;

    closed spec fn view(&self) -> Seq<Layer> {
        self.data@
    }
}

impl Layers {
    /// The merged bounding rectangle that the store holds.
    pub closed spec fn extent(&self) -> Option<BoundingRect> {
        self.bounding_rect
    }

    /// Every layer is well formed, and the rectangle that the store holds is
    /// the merged rectangle of all layers.
    pub open spec fn wf(&self) -> bool {
        &&& forall|i: int| 0 <= i < self@.len() ==> (#[trigger] self@[i]).wf()
        &&& self.extent() == merged_rects(self@)
    }

    /// The layer that a handle names; none for a handle that names no layer
    /// of this store.
    pub open spec fn get_spec(&self, handle: LayerHandle) -> Option<Layer> {
        if handle.0 < self@.len() {
            Some(self@[handle.0 as int])
        } else {
            None
        }
    }

    /// A store without layers.
    pub fn new() -> (r: Layers)
        ensures
            r@ == Seq::<Layer>::empty(),
            r.extent() is None,
            r.wf(),
    {
        Layers { data: Vec::new(), bounding_rect: None }
    }

    /// How many layers the store holds.
    pub fn len(&self) -> (r: usize)
        ensures
            r == self@.len(),
    {
        self.data.len()
    }

    /// The merged bounding rectangle of all layers; none for an empty store.
    pub fn bounding_rect(&self) -> (r: Option<BoundingRect>)
        ensures
            r == self.extent(),
            self.wf() ==> (r is None <==> self@.len() == 0),
    {
        proof {
            lemma_merged_rects(self@);
        }
        self.bounding_rect
    }

    /// Adds a layer made of the geometry, coloured by its position in the
    /// store, and gives the handle by which it is found again.
    ///
    /// A geometry that cannot make a layer is refused, and the store stays as
    /// it was.
    pub fn add(&mut self, geometry: Geometry, metadata: Option<Metadata>) -> (r: Result<
        LayerHandle,
        LayerError,
    >)
        requires
            old(self).wf(),
        ensures
            final(self).wf(),
            !geometry.supported() ==> r == Err::<LayerHandle, LayerError>(
                LayerError::UnsupportedGeometryKind,
            ),
            geometry.supported() && !geometry.valid() ==> r == Err::<LayerHandle, LayerError>(
                LayerError::CoordinateOutOfRange,
            ),
            r is Err ==> final(self)@ == old(self)@ && final(self).extent() == old(self).extent(),
            geometry.supported() && geometry.valid() ==> {
                &&& r == Ok::<LayerHandle, LayerError>(LayerHandle(old(self)@.len() as usize))
                &&& final(self)@.len() == old(self)@.len() + 1
                &&& final(self)@.drop_last() == old(self)@
                &&& made_of(
                    final(self)@.last(),
                    geometry,
                    metadata,
                    palette_spec(old(self)@.len() as int % PALETTE_LEN as int),
                )
                &&& final(self).extent() == merge_opt(
                    old(self).extent(),
                    Some(geometry_bounding_rect_spec(geometry)),
                )
                &&& final(self).get_spec(r->Ok_0) == Some(final(self)@.last())
            },
    {
        let index = self.data.len();
        let layer = match Layer::from_geometry(geometry, metadata, palette_color(index)) {
            Ok(layer) => layer,
            Err(e) => {
                return Err(e);
            },
        };
        let merged = match self.bounding_rect {
            Some(all) => bbox_merge(all, layer.bounding_rect),
            None => layer.bounding_rect,
        };
        self.bounding_rect = Some(merged);
        self.data.push(layer);
        proof {
            assert(self@.drop_last() =~= old(self)@);
            assert forall|i: int| 0 <= i < self@.len() implies (#[trigger] self@[i]).wf() by {
                if i < old(self)@.len() {
                    assert(self@[i] == old(self)@[i]);
                }
            }
        }
        Ok(LayerHandle(index))
    }

    /// Puts the geometries of one source into the store as one layer, and
    /// says so.
    pub fn load(
        &mut self,
        geometry_collection: Vec<Geometry>,
        file_label: String,
        metadata: Option<Metadata>,
    ) -> (r: Result<LayerLoaded, LayerError>)
        requires
            old(self).wf(),
        ensures
            final(self).wf(),
            !Geometry::GeometryCollection(geometry_collection).valid() ==> r is Err && r->Err_0
                == LayerError::CoordinateOutOfRange,
            r is Err ==> final(self)@ == old(self)@ && final(self).extent() == old(self).extent(),
            Geometry::GeometryCollection(geometry_collection).valid() ==> {
                &&& r is Ok
                &&& r->Ok_0.handle == LayerHandle(old(self)@.len() as usize)
                &&& r->Ok_0.file_label == file_label
                &&& final(self)@.len() == old(self)@.len() + 1
                &&& final(self)@.drop_last() == old(self)@
                &&& made_of(
                    final(self)@.last(),
                    Geometry::GeometryCollection(geometry_collection),
                    metadata,
                    palette_spec(old(self)@.len() as int % PALETTE_LEN as int),
                )
            },
    {
        match self.add(Geometry::GeometryCollection(geometry_collection), metadata) {
            Ok(handle) => Ok(LayerLoaded { handle, file_label }),
            Err(e) => Err(e),
        }
    }

    /// The layer that the handle names; none for a handle that names no
    /// layer of this store.
    pub fn get(&self, handle: LayerHandle) -> (r: Option<&Layer>)
        ensures
            r is Some == self.get_spec(handle) is Some,
            r matches Some(layer) ==> *layer == self.get_spec(handle)->0,
    {
        if handle.0 < self.data.len() {
            Some(&self.data[handle.0])
        } else {
            None
        }
    }

    /// The layers whose flag is set, in storage order.
    pub fn layers_where(&self, hits: &Vec<bool>) -> (r: Vec<&Layer>)
        requires
            hits@.len() == self@.len(),
        ensures
            derefs(r@) == selected(self@, hits@),
    {
        let mut out: Vec<&Layer> = Vec::new();
        let mut i: usize = 0;
        while i < self.data.len()
            invariant
                i <= self.data.len(),
                hits@.len() == self@.len(),
                derefs(out@) =~= selected(self@.take(i as int), hits@.take(i as int)),
            decreases self.data.len() - i,
        {
            proof {
                assert(self@.take(i + 1).drop_last() =~= self@.take(i as int));
                assert(hits@.take(i + 1).drop_last() =~= hits@.take(i as int));
            }
            if hits[i] {
                let ghost before = out@;
                out.push(&self.data[i]);
                assert(derefs(out@) =~= derefs(before).push(self@[i as int]));
            }
            i = i + 1;
        }
        proof {
            assert(self@.take(self.data.len() as int) =~= self@);
            assert(hits@.take(self.data.len() as int) =~= hits@);
        }
        out
    }

    /// The layers that contain the coordinate, in storage order.
    ///
    /// A coordinate outside the merged bounding rectangle is answered at
    /// once, with no layer looked at.
    pub fn containing_coord(&self, coord: Coord) -> (r: Vec<&Layer>)
        requires
            self.wf(),
        ensures
            derefs(r@) == containing_spec(self@, coord),
            (self.extent() matches Some(all) ==> !all.contains_spec(coord)) ==> r@.len() == 0,
    {
        let outside = match self.bounding_rect {
            Some(all) => !all.contains(coord),
            None => true,
        };
        if outside {
            proof {
                lemma_outside_extent_contains_nothing(self@, coord);
            }
            let none: Vec<&Layer> = Vec::new();
            assert(derefs(none@) =~= Seq::<Layer>::empty());
            return none;
        }
        let mut hits: Vec<bool> = Vec::new();
        let mut i: usize = 0;
        while i < self.data.len()
            invariant
                i <= self.data.len(),
                self.wf(),
                hits@.len() == i,
                forall|j: int|
                    0 <= j < i ==> #[trigger] hits@[j] == self@[j].contains_coord_spec(coord),
            decreases self.data.len() - i,
        {
            assert(self@[i as int].wf());
            hits.push(self.data[i].contains_coord(coord));
            i = i + 1;
        }
        proof {
            lemma_selected_is_filter(self@, hits@, |l: Layer| l.contains_coord_spec(coord));
        }
        self.layers_where(&hits)
    }

    /// Gives a layer another colour. Says whether the handle named a layer.
    pub fn set_color(&mut self, handle: LayerHandle, color: Color) -> (r: bool)
        requires
            old(self).wf(),
        ensures
            final(self).wf(),
            final(self).extent() == old(self).extent(),
            r == (handle.0 < old(self)@.len()),
            !r ==> final(self)@ == old(self)@,
            r ==> final(self)@ == old(self)@.update(
                handle.0 as int,
                Layer { color: color, ..old(self)@[handle.0 as int] },
            ),
    {
        if handle.0 >= self.data.len() {
            return false;
        }
        self.data[handle.0].color = color;
        proof {
            lemma_recolored_rects(old(self)@, self@, handle.0 as int);
        }
        true
    }
}

/// Layers that differ in colour alone have the same merged rectangle.
proof fn lemma_recolored_rects(before: Seq<Layer>, after: Seq<Layer>, at: int)
    requires
        0 <= at < before.len(),
        after.len() == before.len(),
        forall|i: int| 0 <= i < before.len() && i != at ==> #[trigger] after[i] == before[i],
        after[at].bounding_rect == before[at].bounding_rect,
    ensures
        merged_rects(after) == merged_rects(before),
    decreases before.len(),
{
    let n = before.len() - 1;
    assert(after.last().bounding_rect == before.last().bounding_rect);
    if at < n {
        assert forall|i: int| 0 <= i < n && i != at implies #[trigger] after.drop_last()[i]
            == before.drop_last()[i] by {
            assert(after[i] == before[i]);
        }
        lemma_recolored_rects(before.drop_last(), after.drop_last(), at);
    } else {
        assert(after.drop_last() =~= before.drop_last());
    }
}

} // verus!
