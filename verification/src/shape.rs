use vstd::prelude::*;

use crate::coord::Point;
use crate::registry::Registry;

verus! {

/// The points a shape of length `len` yields when queried for `count` of
/// them: every original point in source order, padded out by repeating the
/// last point where `count` exceeds the length.
pub open spec fn padded_points(s: Seq<Point>, count: int) -> Seq<Point> {
    if count <= s.len() {
        s
    } else {
        s + Seq::new((count - s.len()) as nat, |i: int| s.last())
    }
}

/// An ordered polyline of projected points representing a vehicle's
/// physical path. Points preserve source ordering; the shape is immutable
/// once imported.
#[derive(Debug, PartialEq)]
pub struct Shape {
    pub points: Vec<Point>,
}

impl View for Shape {
    type V = Seq<Point>;

    open spec fn view(&self) -> Seq<Point> {
        self.points@
    }
}

impl Shape {
    pub fn new() -> (r: Shape)
        ensures
            r@ == Seq::<Point>::empty(),
    {
        Shape { points: Vec::new() }
    }

    pub fn add(&mut self, position: Point)
        ensures
            final(self)@ == old(self)@.push(position),
    {
        self.points.push(position);
    }

    /// The first `count` points of the shape, padding out by repeating the
    /// last point rather than failing when `count` exceeds the length; all
    /// original points are yielded even when `count` is smaller.
    pub fn iter_count(&self, count: usize) -> (r: Vec<Point>)
        requires
            self@.len() > 0,
        ensures
            r@ == padded_points(self@, count as int),
    {
        let mut r: Vec<Point> = Vec::new();
        let mut i: usize = 0;
        while i < self.points.len()
            invariant
                i <= self.points@.len(),
                r@ == self.points@.take(i as int),
            decreases self.points@.len() - i,
        {
            r.push(self.points[i]);
            i += 1;
            proof {
                assert(r@ =~= self.points@.take(i as int));
            }
        }
        proof {
            assert(r@ =~= self.points@);
        }
        let last = self.points[self.points.len() - 1];
        while i < count
            invariant
                self@.len() <= i,
                i <= count || i == self@.len(),
                last == self@.last(),
                r@ == padded_points(self@, i as int),
            decreases count - i,
        {
            r.push(last);
            i += 1;
            proof {
                assert(r@ =~= padded_points(self@, i as int));
            }
        }
        proof {
            assert(r@ =~= padded_points(self@, count as int));
        }
        r
    }

    /// The shape's points, in source order, consuming the shape.
    pub fn into_points(self) -> (r: Vec<Point>)
        ensures
            r@ == self@,
    {
        self.points
    }

    /// The same shape with its points in reverse order.
    pub fn reversed(self) -> (r: Shape)
        ensures
            r@ == self@.reverse(),
    {
        let mut points: Vec<Point> = Vec::new();
        let n = self.points.len();
        let mut i: usize = 0;
        while i < n
            invariant
                n == self@.len(),
                i <= n,
                self@ == self.points@,
                points@.len() == i,
                forall|j: int| 0 <= j < i ==> points@[j] == self@[n - 1 - j],
            decreases n - i,
        {
            points.push(self.points[n - 1 - i]);
            i += 1;
        }
        let r = Shape { points };
        proof {
            assert(r@ =~= self@.reverse());
        }
        r
    }
}

impl From<Vec<Point>> for Shape {
    fn from(points: Vec<Point>) -> (r: Shape) {
        Shape { points }
    }
}

impl vstd::std_specs::convert::FromSpecImpl<Vec<Point>> for Shape {
    open spec fn obeys_from_spec() -> bool {
        true
    }

    open spec fn from_spec(points: Vec<Point>) -> Shape {
        Shape { points }
    }
}

/// A raw shape-point record: a shape id and one waypoint of its polyline,
/// already projected into the simulation coordinate frame.
#[derive(Debug, PartialEq)]
pub struct ShapeRecord {
    pub shape_id: String,
    pub position: Point,
}

impl ShapeRecord {
    /// Appends the waypoint to the shape registered under the record's
    /// shape id, registering an empty shape first when the id is new.
    pub fn import(self, shapes: &mut Registry<Shape>)
        requires
            old(shapes).wf(),
        ensures
            final(shapes).wf(),
            ({
                let entry = final(shapes)@[self.shape_id@];
                &&& final(shapes)@ == old(shapes)@.insert(self.shape_id@, entry)
                &&& entry@ == (
                    if old(shapes)@.dom().contains(self.shape_id@) {
                        old(shapes)@[self.shape_id@]@
                    } else {
                        Seq::<Point>::empty()
                    }
                ).push(self.position)
            }),
    {
        let ghost prev = *shapes;
        match shapes.get_index(&self.shape_id) {
            Some(i) => {
                let mut entry = shapes.replace_value(i, Shape::new());
                entry.add(self.position);
                shapes.replace_value(i, entry);
                proof {
                    assert(shapes@ =~= prev@.insert(self.shape_id@, shapes@[self.shape_id@]));
                }
            },
            None => {
                let mut entry = Shape::new();
                entry.add(self.position);
                shapes.insert(self.shape_id, entry);
                proof {
                    assert(shapes@ =~= prev@.insert(self.shape_id@, shapes@[self.shape_id@]));
                }
            },
        }
    }
}

} // verus!
