//! Vector geometry on an integer grid.
//!
//! World positions are whole numbers of a unit that the caller chooses (for
//! instance millionths of a degree). Keeping them integral makes every
//! comparison in this crate exact.

use vstd::prelude::*;

verus! {

/// Largest magnitude of a coordinate component that the layer store accepts.
///
/// Point location takes the difference of two products of coordinate
/// differences. With components of at most this magnitude each difference is
/// below 2^31, each product below 2^62 and their difference below 2^63, so
/// that arithmetic stays inside `i64`.
pub const COORD_LIMIT: i64 = 1_000_000_000;

/// Most coordinates that one line string or ring may hold in the layer store.
///
/// Point location counts ring crossings in an `i32`; a ring of at most this
/// many coordinates cannot overflow that count.
pub const MAX_RING_LEN: usize = 0x7fff_ffff;

/// A position on the grid.
#[derive(Clone, Copy, PartialEq, Eq, Structural, Debug, Hash)]
pub struct Coord {
    pub x: i64,
    pub y: i64,
}

impl Coord {
    /// Both components are within `COORD_LIMIT` of zero.
    pub open spec fn in_range(self) -> bool {
        &&& -COORD_LIMIT <= self.x <= COORD_LIMIT
        &&& -COORD_LIMIT <= self.y <= COORD_LIMIT
    }

    /// Whether both components are within `COORD_LIMIT` of zero.
    pub fn is_in_range(&self) -> (r: bool)
        ensures
            r == self.in_range(),
    {
        -COORD_LIMIT <= self.x && self.x <= COORD_LIMIT && -COORD_LIMIT <= self.y && self.y
            <= COORD_LIMIT
    }
}

/// Every coordinate of the sequence is in range.
pub open spec fn all_in_range(coords: Seq<Coord>) -> bool {
    forall|i: int| 0 <= i < coords.len() ==> (#[trigger] coords[i]).in_range()
}

/// The sequence holds three coordinates that differ pairwise.
pub open spec fn has_three_distinct(coords: Seq<Coord>) -> bool {
    exists|i: int, j: int, k: int|
        0 <= i < j < k < coords.len() && #[trigger] coords[i] != #[trigger] coords[j]
            && coords[j] != #[trigger] coords[k] && coords[i] != coords[k]
}

/// A ring that encloses no area: it has fewer than three distinct points.
pub open spec fn ring_degenerate(coords: Seq<Coord>) -> bool {
    !has_three_distinct(coords)
}

/// A run of at most two coordinates has fewer than three distinct points.
pub proof fn lemma_short_ring_is_degenerate(coords: Seq<Coord>)
    requires
        coords.len() <= 2,
    ensures
        ring_degenerate(coords),
{
}

/// An ordered run of coordinates: a path, or the boundary of a polygon or hole.
#[derive(Clone, PartialEq, Eq, Debug)]
pub struct LineString(pub Vec<Coord>);

impl View for LineString {
    type V = Seq<Coord>;

    open spec fn view(&self) -> Seq<Coord> {
        self.0@
    }
}

impl LineString {
    /// Short enough, and every coordinate in range.
    pub open spec fn valid(&self) -> bool {
        self@.len() <= MAX_RING_LEN && all_in_range(self@)
    }

    /// Whether the line string is short enough and every coordinate is in
    /// range.
    pub fn is_valid(&self) -> (r: bool)
        ensures
            r == self.valid(),
    {
        if self.0.len() > MAX_RING_LEN {
            return false;
        }
        let mut i: usize = 0;
        while i < self.0.len()
            invariant
                i <= self.0.len(),
                forall|j: int| 0 <= j < i ==> (#[trigger] self@[j]).in_range(),
            decreases self.0.len() - i,
        {
            if !self.0[i].is_in_range() {
                return false;
            }
            i = i + 1;
        }
        true
    }

    /// Whether the coordinates, read as a ring, have fewer than three distinct
    /// points.
    pub fn is_degenerate_ring(&self) -> (r: bool)
        ensures
            r == ring_degenerate(self@),
    {
        let n = self.0.len();
        if n < 3 {
            return true;
        }
        let a = self.0[0];
        // the first coordinate that differs from `a`
        let mut j: usize = 1;
        while j < n && self.0[j] == a
            invariant
                n == self.0.len(),
                1 <= j <= n,
                a == self@[0],
                forall|t: int| 0 <= t < j ==> self@[t] == a,
            decreases n - j,
        {
            j = j + 1;
        }
        if j == n {
            return true;
        }
        let b = self.0[j];
        let mut k: usize = j + 1;
        while k < n
            invariant
                n == self.0.len(),
                j < k <= n,
                a == self@[0],
                b == self@[j as int],
                a != b,
                forall|t: int| 0 <= t < j ==> self@[t] == a,
                forall|t: int| j <= t < k ==> self@[t] == a || self@[t] == b,
            decreases n - k,
        {
            let c = self.0[k];
            if c != a && c != b {
                assert(0 <= 0 < j < k < self@.len() && self@[0] != self@[j as int] && self@[j as int]
                    != self@[k as int] && self@[0] != self@[k as int]);
                return false;
            }
            k = k + 1;
        }
        true
    }
}

/// An area bounded by an exterior ring, less the areas of its holes.
#[derive(Clone, PartialEq, Eq, Debug)]
pub struct Polygon {
    pub exterior: LineString,
    pub interiors: Vec<LineString>,
}

impl Polygon {
    /// The exterior and every hole are valid line strings.
    pub open spec fn valid(&self) -> bool {
        &&& self.exterior.valid()
        &&& forall|i: int| 0 <= i < self.interiors@.len() ==> (#[trigger] self.interiors@[i]).valid()
    }

    /// Whether the exterior and every hole are valid line strings.
    pub fn is_valid(&self) -> (r: bool)
        ensures
            r == self.valid(),
    {
        if !self.exterior.is_valid() {
            return false;
        }
        let mut i: usize = 0;
        while i < self.interiors.len()
            invariant
                i <= self.interiors.len(),
                forall|j: int| 0 <= j < i ==> (#[trigger] self.interiors@[j]).valid(),
            decreases self.interiors.len() - i,
        {
            if !self.interiors[i].is_valid() {
                return false;
            }
            i = i + 1;
        }
        true
    }
}

/// Several line strings that make one geometry.
#[derive(Clone, PartialEq, Eq, Debug)]
pub struct MultiLineString(pub Vec<LineString>);

/// Several polygons that make one geometry.
#[derive(Clone, PartialEq, Eq, Debug)]
pub struct MultiPolygon(pub Vec<Polygon>);

/// The coordinate sequences of a run of rings.
pub open spec fn rings_view(rings: Seq<LineString>) -> Seq<Seq<Coord>> {
    Seq::new(rings.len(), |i: int| rings[i]@)
}

/// A geometry of any kind. Lines and areas can be drawn; points cannot, and a
/// collection is read one level deep.
#[derive(PartialEq, Eq, Debug)]
pub enum Geometry {
    Point(Coord),
    MultiPoint(Vec<Coord>),
    LineString(LineString),
    MultiLineString(MultiLineString),
    Polygon(Polygon),
    MultiPolygon(MultiPolygon),
    GeometryCollection(Vec<Geometry>),
}

/// The line strings that one geometry contributes when it stands alone or as
/// a direct member of a collection.
pub open spec fn part_line_strings(g: Geometry) -> Seq<LineString> {
    match g {
        Geometry::LineString(l) => seq![l],
        Geometry::MultiLineString(m) => m.0@,
        _ => Seq::empty(),
    }
}

/// The polygons that one geometry contributes when it stands alone or as a
/// direct member of a collection.
pub open spec fn part_polygons(g: Geometry) -> Seq<Polygon> {
    match g {
        Geometry::Polygon(p) => seq![p],
        Geometry::MultiPolygon(m) => m.0@,
        _ => Seq::empty(),
    }
}

/// The line strings of the members, in member order.
pub open spec fn gathered_line_strings(members: Seq<Geometry>) -> Seq<LineString>
    decreases members.len(),
{
    if members.len() == 0 {
        Seq::empty()
    } else {
        gathered_line_strings(members.drop_last()) + part_line_strings(members.last())
    }
}

/// The polygons of the members, in member order.
pub open spec fn gathered_polygons(members: Seq<Geometry>) -> Seq<Polygon>
    decreases members.len(),
{
    if members.len() == 0 {
        Seq::empty()
    } else {
        gathered_polygons(members.drop_last()) + part_polygons(members.last())
    }
}

/// How many of the members cannot be drawn: points, and collections nested in
/// a collection.
pub open spec fn count_unrenderable(members: Seq<Geometry>) -> nat
    decreases members.len(),
{
    if members.len() == 0 {
        0
    } else {
        count_unrenderable(members.drop_last()) + if members.last().renderable() {
            0nat
        } else {
            1nat
        }
    }
}

/// What each reference of the sequence points to.
pub open spec fn derefs<T>(refs: Seq<&T>) -> Seq<T> {
    refs.map_values(|p: &T| *p)
}

impl Geometry {
    /// A line or area kind, which can be drawn by itself.
    pub open spec fn renderable(&self) -> bool {
        self is LineString || self is MultiLineString || self is Polygon || self is MultiPolygon
    }

    /// A kind that a layer can be made of: a renderable kind or a collection.
    pub open spec fn supported(&self) -> bool {
        self.renderable() || self is GeometryCollection
    }

    /// All line strings of the geometry, in order. Members of a collection
    /// that cannot be drawn contribute none.
    pub open spec fn line_strings_spec(&self) -> Seq<LineString> {
        match *self {
            Geometry::GeometryCollection(members) => gathered_line_strings(members@),
            _ => part_line_strings(*self),
        }
    }

    /// All polygons of the geometry, in order. Members of a collection that
    /// cannot be drawn contribute none.
    pub open spec fn polygons_spec(&self) -> Seq<Polygon> {
        match *self {
            Geometry::GeometryCollection(members) => gathered_polygons(members@),
            _ => part_polygons(*self),
        }
    }

    /// How many parts of the geometry are passed over when it is drawn.
    pub open spec fn unrenderable_spec(&self) -> nat {
        match *self {
            Geometry::GeometryCollection(members) => count_unrenderable(members@),
            _ => if self.renderable() {
                0
            } else {
                1
            },
        }
    }

    /// Every line string and polygon of the geometry is valid.
    pub open spec fn valid(&self) -> bool {
        &&& forall|i: int|
            0 <= i < self.line_strings_spec().len() ==> (#[trigger] self.line_strings_spec()[i]).valid()
        &&& forall|i: int|
            0 <= i < self.polygons_spec().len() ==> (#[trigger] self.polygons_spec()[i]).valid()
    }

    /// Whether the geometry is of a line or area kind.
    pub fn is_renderable(&self) -> (r: bool)
        ensures
            r == self.renderable(),
    {
        match self {
            Geometry::LineString(_) => true,
            Geometry::MultiLineString(_) => true,
            Geometry::Polygon(_) => true,
            Geometry::MultiPolygon(_) => true,
            _ => false,
        }
    }

    /// Whether a layer can be made of the geometry.
    pub fn is_supported(&self) -> (r: bool)
        ensures
            r == self.supported(),
    {
        match self {
            Geometry::GeometryCollection(_) => true,
            _ => self.is_renderable(),
        }
    }

    /// The line strings of the geometry, in order.
    pub fn line_strings(&self) -> (r: Vec<&LineString>)
        ensures
            derefs(r@) == self.line_strings_spec(),
    {
        let mut out: Vec<&LineString> = Vec::new();
        match self {
            Geometry::GeometryCollection(members) => {
                let mut i: usize = 0;
                while i < members.len()
                    invariant
                        i <= members.len(),
                        derefs(out@) =~= gathered_line_strings(members@.take(i as int)),
                    decreases members.len() - i,
                {
                    push_part_line_strings(&members[i], &mut out);
                    proof {
                        assert(members@.take(i + 1).drop_last() =~= members@.take(i as int));
                    }
                    i = i + 1;
                }
                proof {
                    assert(members@.take(members.len() as int) =~= members@);
                }
            },
            _ => {
                push_part_line_strings(self, &mut out);
            },
        }
        out
    }

    /// The polygons of the geometry, in order.
    pub fn polygons(&self) -> (r: Vec<&Polygon>)
        ensures
            derefs(r@) == self.polygons_spec(),
    {
        let mut out: Vec<&Polygon> = Vec::new();
        match self {
            Geometry::GeometryCollection(members) => {
                let mut i: usize = 0;
                while i < members.len()
                    invariant
                        i <= members.len(),
                        derefs(out@) =~= gathered_polygons(members@.take(i as int)),
                    decreases members.len() - i,
                {
                    push_part_polygons(&members[i], &mut out);
                    proof {
                        assert(members@.take(i + 1).drop_last() =~= members@.take(i as int));
                    }
                    i = i + 1;
                }
                proof {
                    assert(members@.take(members.len() as int) =~= members@);
                }
            },
            _ => {
                push_part_polygons(self, &mut out);
            },
        }
        out
    }

    /// How many parts of the geometry are passed over when it is drawn.
    pub fn unrenderable_count(&self) -> (r: usize)
        ensures
            r == self.unrenderable_spec(),
    {
        match self {
            Geometry::GeometryCollection(members) => {
                let mut count: usize = 0;
                let mut i: usize = 0;
                while i < members.len()
                    invariant
                        i <= members.len(),
                        count <= i,
                        count == count_unrenderable(members@.take(i as int)),
                    decreases members.len() - i,
                {
                    proof {
                        assert(members@.take(i + 1).drop_last() =~= members@.take(i as int));
                    }
                    if !members[i].is_renderable() {
                        count = count + 1;
                    }
                    i = i + 1;
                }
                proof {
                    assert(members@.take(members.len() as int) =~= members@);
                }
                count
            },
            _ => if self.is_renderable() {
                0
            } else {
                1
            },
        }
    }

    /// Whether every line string and polygon of the geometry is valid.
    pub fn is_valid(&self) -> (r: bool)
        ensures
            r == self.valid(),
    {
        let lines = self.line_strings();
        let mut i: usize = 0;
        while i < lines.len()
            invariant
                i <= lines.len(),
                derefs(lines@) == self.line_strings_spec(),
                forall|j: int| 0 <= j < i ==> (#[trigger] self.line_strings_spec()[j]).valid(),
            decreases lines.len() - i,
        {
            assert(derefs(lines@)[i as int] == *lines@[i as int]);
            if !lines[i].is_valid() {
                return false;
            }
            i = i + 1;
        }
        let polygons = self.polygons();
        let mut k: usize = 0;
        while k < polygons.len()
            invariant
                k <= polygons.len(),
                derefs(polygons@) == self.polygons_spec(),
                forall|j: int| 0 <= j < k ==> (#[trigger] self.polygons_spec()[j]).valid(),
                forall|j: int|
                    0 <= j < self.line_strings_spec().len() ==> (
                    #[trigger] self.line_strings_spec()[j]).valid(),
            decreases polygons.len() - k,
        {
            assert(derefs(polygons@)[k as int] == *polygons@[k as int]);
            if !polygons[k].is_valid() {
                return false;
            }
            k = k + 1;
        }
        true
    }
}

/// Appends the line strings that one geometry contributes.
fn push_part_line_strings<'a>(g: &'a Geometry, out: &mut Vec<&'a LineString>)
    ensures
        derefs(final(out)@) == derefs(old(out)@) + part_line_strings(*g),
{
    match g {
        Geometry::LineString(l) => {
            out.push(l);
            assert(derefs(out@) =~= derefs(old(out)@) + part_line_strings(*g));
        },
        Geometry::MultiLineString(m) => {
            let v = &m.0;
            let mut j: usize = 0;
            while j < v.len()
                invariant
                    j <= v.len(),
                    derefs(out@) =~= derefs(old(out)@) + v@.take(j as int),
                decreases v.len() - j,
            {
                let ghost before = out@;
                out.push(&v[j]);
                proof {
                    assert(derefs(out@) =~= derefs(before).push(v@[j as int]));
                    assert(v@.take(j + 1) =~= v@.take(j as int).push(v@[j as int]));
                }
                j = j + 1;
            }
            assert(v@.take(v.len() as int) =~= v@);
        },
        _ => {
            assert(derefs(out@) =~= derefs(old(out)@) + part_line_strings(*g));
        },
    }
}

/// Appends the polygons that one geometry contributes.
fn push_part_polygons<'a>(g: &'a Geometry, out: &mut Vec<&'a Polygon>)
    ensures
        derefs(final(out)@) == derefs(old(out)@) + part_polygons(*g),
{
    match g {
        Geometry::Polygon(p) => {
            out.push(p);
            assert(derefs(out@) =~= derefs(old(out)@) + part_polygons(*g));
        },
        Geometry::MultiPolygon(m) => {
            let v = &m.0;
            let mut j: usize = 0;
            while j < v.len()
                invariant
                    j <= v.len(),
                    derefs(out@) =~= derefs(old(out)@) + v@.take(j as int),
                decreases v.len() - j,
            {
                let ghost before = out@;
                out.push(&v[j]);
                proof {
                    assert(derefs(out@) =~= derefs(before).push(v@[j as int]));
                    assert(v@.take(j + 1) =~= v@.take(j as int).push(v@[j as int]));
                }
                j = j + 1;
            }
            assert(v@.take(v.len() as int) =~= v@);
        },
        _ => {
            assert(derefs(out@) =~= derefs(old(out)@) + part_polygons(*g));
        },
    }
}

} // verus!
