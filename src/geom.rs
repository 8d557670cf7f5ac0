use vstd::prelude::*;

verus! {

/// An integer 2D vector: a tile, chunk or world position, or a size.
#[derive(Clone, Copy, Debug, PartialEq, Eq, Structural, Hash, Default)]
pub struct IVec2 {
    pub x: i32,
    pub y: i32,
}

/// Builds a vector from its two components.
pub fn ivec2(x: i32, y: i32) -> (r: IVec2)
    ensures
        r.x == x,
        r.y == y,
{
    IVec2 { x, y }
}

impl IVec2 {
    /// Componentwise sum.
    pub fn add(self, o: IVec2) -> (r: IVec2)
        requires
            i32::MIN <= self.x + o.x <= i32::MAX,
            i32::MIN <= self.y + o.y <= i32::MAX,
        ensures
            r.x == self.x + o.x,
            r.y == self.y + o.y,
    {
        IVec2 { x: self.x + o.x, y: self.y + o.y }
    }

    /// Componentwise difference.
    pub fn sub(self, o: IVec2) -> (r: IVec2)
        requires
            i32::MIN <= self.x - o.x <= i32::MAX,
            i32::MIN <= self.y - o.y <= i32::MAX,
        ensures
            r.x == self.x - o.x,
            r.y == self.y - o.y,
    {
        IVec2 { x: self.x - o.x, y: self.y - o.y }
    }

    /// Componentwise minimum.
    pub fn min(self, o: IVec2) -> (r: IVec2)
        ensures
            r.x == if self.x <= o.x { self.x } else { o.x },
            r.y == if self.y <= o.y { self.y } else { o.y },
    {
        IVec2 {
            x: if self.x <= o.x { self.x } else { o.x },
            y: if self.y <= o.y { self.y } else { o.y },
        }
    }

    /// Componentwise maximum.
    pub fn max(self, o: IVec2) -> (r: IVec2)
        ensures
            r.x == if self.x >= o.x { self.x } else { o.x },
            r.y == if self.y >= o.y { self.y } else { o.y },
    {
        IVec2 {
            x: if self.x >= o.x { self.x } else { o.x },
            y: if self.y >= o.y { self.y } else { o.y },
        }
    }
}

} // verus!
