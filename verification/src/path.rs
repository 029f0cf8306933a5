//! Drawing paths: a ring or line as an ordered run of pen commands.

use crate::geometry::{Coord, LineString, MultiPolygon, Polygon};
use vstd::prelude::*;

verus! {

/// One pen command.
#[derive(Clone, Copy, PartialEq, Eq, Structural, Debug)]
pub enum PathCommand {
    /// Lift the pen and set it down at the coordinate.
    MoveTo(Coord),
    /// Draw a straight line to the coordinate.
    LineTo(Coord),
    /// Draw a straight line back to where the pen was last set down.
    Close,
}

/// An ordered run of pen commands.
#[derive(Clone, PartialEq, Eq, Debug)]
pub struct Path {
    pub commands: Vec<PathCommand>,
}

/// The commands that draw a line through the coordinates: a move to the
/// first, then a line to each of the others.
pub open spec fn coords_commands(coords: Seq<Coord>) -> Seq<PathCommand> {
    Seq::new(
        coords.len(),
        |i: int|
            if i == 0 {
                PathCommand::MoveTo(coords[i])
            } else {
                PathCommand::LineTo(coords[i])
            },
    )
}

/// The commands that draw a ring: the line through its coordinates, then a
/// closing command. No coordinates, no commands.
pub open spec fn ring_commands(coords: Seq<Coord>) -> Seq<PathCommand> {
    if coords.len() == 0 {
        Seq::empty()
    } else {
        coords_commands(coords).push(PathCommand::Close)
    }
}

/// The commands that draw each ring in turn.
pub open spec fn rings_commands(rings: Seq<LineString>) -> Seq<PathCommand>
    decreases rings.len(),
{
    if rings.len() == 0 {
        Seq::empty()
    } else {
        rings_commands(rings.drop_last()) + ring_commands(rings.last()@)
    }
}

/// The commands that draw a polygon: its exterior ring, then its holes.
pub open spec fn polygon_commands(polygon: Polygon) -> Seq<PathCommand> {
    ring_commands(polygon.exterior@) + rings_commands(polygon.interiors@)
}

/// The commands that draw each polygon in turn.
pub open spec fn polygons_commands(polygons: Seq<Polygon>) -> Seq<PathCommand>
    decreases polygons.len(),
{
    if polygons.len() == 0 {
        Seq::empty()
    } else {
        polygons_commands(polygons.drop_last()) + polygon_commands(polygons.last())
    }
}

/// Gathers pen commands into a path.
#[derive(Debug)]
pub struct PathBuilder {
    commands: Vec<PathCommand>,
}

impl View for PathBuilder {
    type V = Seq<PathCommand>;

    closed spec fn view(&self) -> Seq<PathCommand> {
        self.commands@
    }
}

impl PathBuilder {
    /// A builder without commands.
    pub fn new() -> (r: PathBuilder)
        ensures
            r@ == Seq::<PathCommand>::empty(),
    {
        PathBuilder { commands: Vec::new() }
    }

    /// Appends a move of the lifted pen.
    pub fn move_to(&mut self, to: Coord)
        ensures
            final(self)@ == old(self)@.push(PathCommand::MoveTo(to)),
    {
        self.commands.push(PathCommand::MoveTo(to));
    }

    /// Appends a straight line.
    pub fn line_to(&mut self, to: Coord)
        ensures
            final(self)@ == old(self)@.push(PathCommand::LineTo(to)),
    {
        self.commands.push(PathCommand::LineTo(to));
    }

    /// Appends a closing command.
    pub fn close(&mut self)
        ensures
            final(self)@ == old(self)@.push(PathCommand::Close),
    {
        self.commands.push(PathCommand::Close);
    }

    /// The path of the commands gathered.
    pub fn build(self) -> (r: Path)
        ensures
            r.commands@ == self@,
    {
        Path { commands: self.commands }
    }
}

/// Appends the commands that draw a line through the coordinates.
pub fn coords_path_builder(coords: &Vec<Coord>, path_builder: &mut PathBuilder)
    ensures
        final(path_builder)@ == old(path_builder)@ + coords_commands(coords@),
{
    if coords.len() == 0 {
        assert(path_builder@ =~= old(path_builder)@ + coords_commands(coords@));
        return ;
    }
    path_builder.move_to(coords[0]);
    let mut i: usize = 1;
    while i < coords.len()
        invariant
            1 <= i <= coords.len(),
            path_builder@ =~= old(path_builder)@ + coords_commands(coords@).take(i as int),
        decreases coords.len() - i,
    {
        path_builder.line_to(coords[i]);
        i = i + 1;
    }
    proof {
        assert(coords_commands(coords@).take(coords.len() as int) =~= coords_commands(coords@));
    }
}

/// Appends the commands that draw a ring.
pub fn ring_path_builder(ring_line_string: &LineString, path_builder: &mut PathBuilder)
    ensures
        final(path_builder)@ == old(path_builder)@ + ring_commands(ring_line_string@),
{
    if ring_line_string.0.len() == 0 {
        assert(path_builder@ =~= old(path_builder)@ + ring_commands(ring_line_string@));
        return ;
    }
    coords_path_builder(&ring_line_string.0, path_builder);
    path_builder.close();
    assert(path_builder@ =~= old(path_builder)@ + ring_commands(ring_line_string@));
}

/// Appends the commands that draw a polygon.
pub fn polygon_path_builder(polygon: &Polygon, path_builder: &mut PathBuilder)
    ensures
        final(path_builder)@ == old(path_builder)@ + polygon_commands(*polygon),
{
    ring_path_builder(&polygon.exterior, path_builder);
    let mut i: usize = 0;
    while i < polygon.interiors.len()
        invariant
            i <= polygon.interiors.len(),
            path_builder@ =~= old(path_builder)@ + ring_commands(polygon.exterior@)
                + rings_commands(polygon.interiors@.take(i as int)),
        decreases polygon.interiors.len() - i,
    {
        proof {
            assert(polygon.interiors@.take(i + 1).drop_last() =~= polygon.interiors@.take(
                i as int,
            ));
        }
        ring_path_builder(&polygon.interiors[i], path_builder);
        i = i + 1;
    }
    proof {
        assert(polygon.interiors@.take(polygon.interiors.len() as int) =~= polygon.interiors@);
        assert(path_builder@ =~= old(path_builder)@ + polygon_commands(*polygon));
    }
}

/// Geometry that can be drawn as a path.
pub trait ToPath {
    /// The commands of the path.
    spec fn path_spec(&self) -> Seq<PathCommand>;

    /// The path that draws the geometry.
    fn to_path(&self) -> (r: Path)
        ensures
            r.commands@ == self.path_spec(),
    ;
}

impl ToPath for Polygon {
    open spec fn path_spec(&self) -> Seq<PathCommand> {
        polygon_commands(*self)
    }

    fn to_path(&self) -> (r: Path) {
        let mut path_builder = PathBuilder::new();
        polygon_path_builder(self, &mut path_builder);
        assert(path_builder@ =~= polygon_commands(*self));
        path_builder.build()
    }
}

impl ToPath for MultiPolygon {
    open spec fn path_spec(&self) -> Seq<PathCommand> {
        polygons_commands(self.0@)
    }

    fn to_path(&self) -> (r: Path) {
        let mut path_builder = PathBuilder::new();
        let mut i: usize = 0;
        while i < self.0.len()
            invariant
                i <= self.0.len(),
                path_builder@ =~= polygons_commands(self.0@.take(i as int)),
            decreases self.0.len() - i,
        {
            proof {
                assert(self.0@.take(i + 1).drop_last() =~= self.0@.take(i as int));
            }
            polygon_path_builder(&self.0[i], &mut path_builder);
            i = i + 1;
        }
        proof {
            assert(self.0@.take(self.0.len() as int) =~= self.0@);
        }
        path_builder.build()
    }
}

} // verus!
