//! Reading map objects in place from the bytes of the object store.
//!
//! The store is mapped into memory by the caller; the types here borrow its
//! bytes. Every access is checked against the length of the store first.

use vstd::prelude::*;
use vstd::slice::slice_subrange;
use crate::data::serialization::{
    points_at, read_map_object_at, read_point_at, read_result, ReadError, POINT_SIZE,
};
use crate::data::types::{BoundingBox, Geometry, MapObjectOffset, Point};

verus! {

/// The bytes of the object store.
pub struct MappedData<'a> {
    data: &'a [u8],
}

impl<'a> View for MappedData<'a> {
    type V = Seq<u8>;

    closed spec fn view(&self) -> Seq<u8> {
        self.data@
    }
}

/// A map object in the store: its bounding box, and the bytes of its points,
/// which are read where they lie.
pub struct MapObjectView<'a> {
    pub bbox: BoundingBox,
    raw: &'a [u8],
}

impl<'a> View for MapObjectView<'a> {
    type V = Geometry;

    closed spec fn view(&self) -> Geometry {
        Geometry {
            bounding_box: self.bbox,
            points: points_at(self.raw@, 0, (self.raw@.len() / 16) as nat),
        }
    }
}

impl<'a> MappedData<'a> {
    /// The store that holds the given bytes.
    pub fn new(data: &'a [u8]) -> (mapped: Self)
        ensures
            mapped@ == data@,
    {
        MappedData { data }
    }

    /// The object that starts at `offset`, without copying its points.
    pub fn read_map_object(&self, offset: MapObjectOffset) -> (r: Result<
        MapObjectView<'a>,
        ReadError,
    >)
        ensures
            match r {
                Ok(view) => read_result(self@, offset as int) == Ok::<Geometry, ReadError>(view@),
                Err(e) => read_result(self@, offset as int) == Err::<Geometry, ReadError>(e),
            },
    {
        match read_map_object_at(self.data, offset) {
            Ok((bbox, first, n)) => {
                let raw: &'a [u8] = slice_subrange(self.data, first, first + POINT_SIZE * n);
                proof {
                    let whole = points_at(self.data@, first as int, n as nat);
                    let part = points_at(raw@, 0, n as nat);
                    assert forall|i: int| 0 <= i < n implies whole[i] == part[i] by {
                        assert(self.data@.subrange(first + 16 * i, first + 16 * i + 8)
                            == raw@.subrange(16 * i, 16 * i + 8));
                        assert(self.data@.subrange(first + 16 * i + 8, first + 16 * i + 16)
                            == raw@.subrange(16 * i + 8, 16 * i + 16));
                    }
                    assert(whole =~= part);
                }
                Ok(MapObjectView { bbox, raw })
            },
            Err(e) => Err(e),
        }
    }

    /// The number of bytes in the store.
    pub fn len(&self) -> (n: usize)
        ensures
            n == self@.len(),
    {
        self.data.len()
    }

    /// Whether the store holds no bytes.
    pub fn is_empty(&self) -> (empty: bool)
        ensures
            empty == (self@.len() == 0),
    {
        self.data.len() == 0
    }
}

impl<'a> MapObjectView<'a> {
    /// The bounding box of the object.
    pub fn bounding_box(&self) -> (bbox: &BoundingBox)
        ensures
            *bbox == self@.bounding_box,
    {
        &self.bbox
    }

    /// The number of points of the object.
    pub fn num_points(&self) -> (n: usize)
        ensures
            n == self@.points.len(),
    {
        self.raw.len() / POINT_SIZE
    }

    /// The point at place `i`.
    pub fn point(&self, i: usize) -> (p: Point)
        requires
            i < self@.points.len(),
        ensures
            p == self@.points[i as int],
    {
        assert(self.raw@.len() == self.raw.len());
        read_point_at(self.raw, POINT_SIZE * i)
    }

    /// The points of the object, copied out in order.
    pub fn points(&self) -> (points: Vec<Point>)
        ensures
            points@ == self@.points,
    {
        let n: usize = self.num_points();
        let mut points: Vec<Point> = Vec::with_capacity(n);
        let mut i: usize = 0;
        while i < n
            invariant
                i <= n,
                n == self@.points.len(),
                points@ == self@.points.take(i as int),
            decreases n - i,
        {
            points.push(self.point(i));
            i = i + 1;
            assert(points@ == self@.points.take(i as int));
        }
        assert(self@.points.take(n as int) == self@.points);
        points
    }
}

} // verus!
