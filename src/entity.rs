use vstd::prelude::*;

use crate::geom::{IVec2, ivec2};

verus! {

/// An item that a player can carry and sell.
#[derive(Clone, Copy, Debug, PartialEq, Eq, Structural, Hash, Default)]
pub enum ItemKind {
    #[default]
    Air,
    CopperOre,
    IronOre,
    GoldOre,
    RawEmerald,
    RawRuby,
    RawSapphire,
}

impl ItemKind {
    /// Sale value of one item.
    pub open spec fn spec_value(self) -> i32 {
        match self {
            ItemKind::Air => 0,
            ItemKind::CopperOre => 5,
            ItemKind::IronOre => 35,
            ItemKind::GoldOre => 110,
            ItemKind::RawEmerald => 350,
            ItemKind::RawRuby => 1500,
            ItemKind::RawSapphire => 2500,
        }
    }

    /// Sale value of one item.
    pub fn value(&self) -> (r: i32)
        ensures
            r == self.spec_value(),
    {
        match self {
            ItemKind::Air => 0,
            ItemKind::CopperOre => 5,
            ItemKind::IronOre => 35,
            ItemKind::GoldOre => 110,
            ItemKind::RawEmerald => 350,
            ItemKind::RawRuby => 1500,
            ItemKind::RawSapphire => 2500,
        }
    }
}

/// Which way a minecart is moving along its rail.
#[derive(Clone, Copy, Debug, PartialEq, Eq, Structural)]
pub enum MinecartMovement {
    Idle,
    Forwards,
    Backwards,
}

/// An item lying or carried somewhere in the world.
#[derive(Clone, Copy, Debug, PartialEq, Eq, Structural, Default)]
pub struct Item {
    pub trans: Transform,
    pub kind: ItemKind,
}

/// Position, size and collider offset of an entity, in world units.
#[derive(Clone, Copy, Debug, PartialEq, Eq, Structural, Default)]
pub struct Transform {
    pub pos: IVec2,
    pub size: IVec2,
    pub offset: IVec2,
}

/// An axis-aligned box from corner `p1` to corner `p2`, in world units.
#[derive(Clone, Copy, Debug, PartialEq, Eq, Structural)]
pub struct BoxCollider {
    pub p1: IVec2,
    pub p2: IVec2,
}

/// A quotient `num / den` with a positive denominator.
#[derive(Clone, Copy, Debug, PartialEq, Eq, Structural)]
pub struct Fraction {
    pub num: i64,
    pub den: i64,
}

/// Where a moving box first touches another: the contact point, the surface
/// normal there, and the fraction of the step at which it happens.
#[derive(Clone, Copy, Debug, PartialEq, Eq, Structural)]
pub struct Contact {
    pub point_x: Fraction,
    pub point_y: Fraction,
    pub normal: IVec2,
    pub time: Fraction,
}

/// `n` is a unit axis vector that faces against the direction `d`.
pub open spec fn unit_against(n: IVec2, d: IVec2) -> bool {
    ||| n.y == 0 && (n.x == 1 || n.x == -1) && n.x * d.x < 0
    ||| n.x == 0 && (n.y == 1 || n.y == -1) && n.y * d.y < 0
}

/// Both components of a vector lie within a bound that keeps exact box arithmetic in range.
pub open spec fn small(v: IVec2, bound: int) -> bool {
    -bound <= v.x <= bound && -bound <= v.y <= bound
}

pub open spec fn min_int(a: int, b: int) -> int {
    if a <= b { a } else { b }
}

pub open spec fn max_int(a: int, b: int) -> int {
    if a >= b { a } else { b }
}

impl Fraction {
    /// `self` is less than `o`.
    pub open spec fn lt(self, o: Fraction) -> bool {
        self.num * o.den < o.num * self.den
    }
}

/// Entry and exit times of a ray through the slab between `p1` and `p2` on one axis,
/// for a non-zero direction `d`; both over the denominator `|d|`.
pub open spec fn slab(p1: int, p2: int, o: int, d: int) -> (Fraction, Fraction) {
    let a = if d > 0 { p1 - o } else { o - p1 };
    let b = if d > 0 { p2 - o } else { o - p2 };
    let den = if d > 0 { d } else { -d };
    (Fraction { num: min_int(a, b) as i64, den: den as i64 }, Fraction { num: max_int(a, b) as i64, den: den as i64 })
}

/// The contact of a ray from `o` along `d` at time `t`, with normal `n`.
pub open spec fn contact_at(o: IVec2, d: IVec2, t: Fraction, n: IVec2) -> Contact {
    Contact {
        point_x: Fraction { num: (o.x * t.den + t.num * d.x) as i64, den: t.den },
        point_y: Fraction { num: (o.y * t.den + t.num * d.y) as i64, den: t.den },
        normal: n,
        time: t,
    }
}

/// Slab test of a ray from `o` along `d` (not zero) against the box `b`. An axis
/// along which the ray does not move constrains nothing while the origin lies
/// within the box's extent on it, and misses otherwise. The ray hits when the
/// entry and exit intervals of the two axes overlap and the exit is not behind the
/// origin; it then enters at the later entry time, on the face of that axis (of the
/// x axis when both enter at once).
pub open spec fn ray_hit(b: BoxCollider, o: IVec2, d: IVec2) -> Option<Contact> {
    if d.x != 0 && d.y != 0 {
        let (nx, fx) = slab(b.p1.x as int, b.p2.x as int, o.x as int, d.x as int);
        let (ny, fy) = slab(b.p1.y as int, b.p2.y as int, o.y as int, d.y as int);
        if fy.lt(nx) || fx.lt(ny) {
            None
        } else {
            let near = if nx.lt(ny) { ny } else { nx };
            let far = if fx.lt(fy) { fx } else { fy };
            let n = if nx.lt(ny) {
                IVec2 { x: 0, y: if d.y < 0 { 1i32 } else { -1i32 } }
            } else {
                IVec2 { x: if d.x < 0 { 1i32 } else { -1i32 }, y: 0 }
            };
            if far.num < 0 { None } else { Some(contact_at(o, d, near, n)) }
        }
    } else if d.x == 0 {
        let (ny, fy) = slab(b.p1.y as int, b.p2.y as int, o.y as int, d.y as int);
        if !(min_int(b.p1.x as int, b.p2.x as int) <= o.x <= max_int(b.p1.x as int, b.p2.x as int)) || fy.num < 0 {
            None
        } else {
            Some(contact_at(o, d, ny, IVec2 { x: 0, y: if d.y < 0 { 1i32 } else { -1i32 } }))
        }
    } else {
        let (nx, fx) = slab(b.p1.x as int, b.p2.x as int, o.x as int, d.x as int);
        if !(min_int(b.p1.y as int, b.p2.y as int) <= o.y <= max_int(b.p1.y as int, b.p2.y as int)) || fx.num < 0 {
            None
        } else {
            Some(contact_at(o, d, nx, IVec2 { x: if d.x < 0 { 1i32 } else { -1i32 }, y: 0 }))
        }
    }
}

/// Swept test of the box `m` moving by `vel` against the still box `t`: a ray from
/// `m`'s center against `t` grown by half of `m`'s size on every side, worked in
/// doubled coordinates so that halves stay whole. A hit counts only within this
/// step, at a time from zero to one: a box that already overlaps the other at the
/// start of the step does not hit it.
pub open spec fn sweep_hit(m: BoxCollider, t: BoxCollider, vel: IVec2) -> Option<Contact> {
    if vel.x == 0 && vel.y == 0 {
        None
    } else {
        let sx = m.p2.x - m.p1.x;
        let sy = m.p2.y - m.p1.y;
        let grown = BoxCollider {
            p1: IVec2 { x: (2 * t.p1.x - sx) as i32, y: (2 * t.p1.y - sy) as i32 },
            p2: IVec2 { x: (2 * t.p2.x + sx) as i32, y: (2 * t.p2.y + sy) as i32 },
        };
        let o = IVec2 { x: (2 * m.p1.x + sx) as i32, y: (2 * m.p1.y + sy) as i32 };
        let d = IVec2 { x: (2 * vel.x) as i32, y: (2 * vel.y) as i32 };
        match ray_hit(grown, o, d) {
            Some(c) => if 0 <= c.time.num <= c.time.den {
                Some(Contact {
                    point_x: Fraction { num: c.point_x.num, den: (2 * c.point_x.den) as i64 },
                    point_y: Fraction { num: c.point_y.num, den: (2 * c.point_y.den) as i64 },
                    normal: c.normal,
                    time: c.time,
                })
            } else {
                None
            },
            None => None,
        }
    }
}

/// Entry and exit times through one slab.
fn slab_exec(p1: i32, p2: i32, o: i32, d: i32) -> (r: (Fraction, Fraction))
    requires
        d != 0,
        -268_435_456 <= p1 <= 268_435_456,
        -268_435_456 <= p2 <= 268_435_456,
        -268_435_456 <= o <= 268_435_456,
        -268_435_456 <= d <= 268_435_456,
    ensures
        r == slab(p1 as int, p2 as int, o as int, d as int),
        r.0.den > 0,
        -536_870_912 <= r.0.num <= 536_870_912,
        -536_870_912 <= r.1.num <= 536_870_912,
        r.0.den <= 268_435_456,
        r.1.den == r.0.den,
{
    let a: i64 = if d > 0 { p1 as i64 - o as i64 } else { o as i64 - p1 as i64 };
    let b: i64 = if d > 0 { p2 as i64 - o as i64 } else { o as i64 - p2 as i64 };
    let den: i64 = if d > 0 { d as i64 } else { -(d as i64) };
    (Fraction { num: if a <= b { a } else { b }, den }, Fraction { num: if a >= b { a } else { b }, den })
}

/// `a` is less than `b`.
fn frac_lt(a: Fraction, b: Fraction) -> (r: bool)
    requires
        -536_870_912 <= a.num <= 536_870_912,
        -536_870_912 <= b.num <= 536_870_912,
        0 < a.den <= 268_435_456,
        0 < b.den <= 268_435_456,
    ensures
        r == a.lt(b),
{
    proof {
        assert(-(536_870_912 * 268_435_456) <= a.num * b.den <= 536_870_912 * 268_435_456) by (nonlinear_arith)
            requires
                -536_870_912 <= a.num <= 536_870_912,
                0 < b.den <= 268_435_456;
        assert(-(536_870_912 * 268_435_456) <= b.num * a.den <= 536_870_912 * 268_435_456) by (nonlinear_arith)
            requires
                -536_870_912 <= b.num <= 536_870_912,
                0 < a.den <= 268_435_456;
    }
    a.num * b.den < b.num * a.den
}

/// The contact of a ray at a given time.
fn contact_exec(o: IVec2, d: IVec2, t: Fraction, n: IVec2) -> (r: Contact)
    requires
        small(o, 268_435_456),
        small(d, 268_435_456),
        -536_870_912 <= t.num <= 536_870_912,
        0 < t.den <= 268_435_456,
    ensures
        r == contact_at(o, d, t, n),
{
    proof {
        assert(-(268_435_456 * 268_435_456) <= o.x * t.den <= 268_435_456 * 268_435_456) by (nonlinear_arith)
            requires
                -268_435_456 <= o.x <= 268_435_456,
                0 < t.den <= 268_435_456;
        assert(-(268_435_456 * 268_435_456) <= o.y * t.den <= 268_435_456 * 268_435_456) by (nonlinear_arith)
            requires
                -268_435_456 <= o.y <= 268_435_456,
                0 < t.den <= 268_435_456;
        assert(-(536_870_912 * 268_435_456) <= t.num * d.x <= 536_870_912 * 268_435_456) by (nonlinear_arith)
            requires
                -536_870_912 <= t.num <= 536_870_912,
                -268_435_456 <= d.x <= 268_435_456;
        assert(-(536_870_912 * 268_435_456) <= t.num * d.y <= 536_870_912 * 268_435_456) by (nonlinear_arith)
            requires
                -536_870_912 <= t.num <= 536_870_912,
                -268_435_456 <= d.y <= 268_435_456;
    }
    Contact {
        point_x: Fraction { num: o.x as i64 * t.den + t.num * d.x as i64, den: t.den },
        point_y: Fraction { num: o.y as i64 * t.den + t.num * d.y as i64, den: t.den },
        normal: n,
        time: t,
    }
}

impl Transform {
    /// The box at the offset position, spanning the transform's size.
    pub fn collider(&self) -> (r: BoxCollider)
        requires
            small(self.pos, 268_435_456),
            small(self.size, 268_435_456),
            small(self.offset, 268_435_456),
        ensures
            r.p1.x == self.offset.x + self.pos.x,
            r.p1.y == self.offset.y + self.pos.y,
            r.p2.x == self.offset.x + self.pos.x + self.size.x,
            r.p2.y == self.offset.y + self.pos.y + self.size.y,
    {
        BoxCollider::new(self.offset.add(self.pos), self.size)
    }

    /// The box at the offset position spanning `size`, with its corners ordered.
    pub fn collider_size(&self, size: IVec2) -> (r: BoxCollider)
        requires
            small(self.pos, 268_435_456),
            small(size, 268_435_456),
            small(self.offset, 268_435_456),
        ensures
            r.p1.x == min_int(self.offset.x + self.pos.x, self.offset.x + self.pos.x + size.x),
            r.p1.y == min_int(self.offset.y + self.pos.y, self.offset.y + self.pos.y + size.y),
            r.p2.x == max_int(self.offset.x + self.pos.x, self.offset.x + self.pos.x + size.x),
            r.p2.y == max_int(self.offset.y + self.pos.y, self.offset.y + self.pos.y + size.y),
    {
        let collider = BoxCollider::new(self.offset.add(self.pos), size);
        BoxCollider { p1: collider.p1.min(collider.p2), p2: collider.p1.max(collider.p2) }
    }

    /// The box at the offset position moved by `offset`, spanning `size`, with its
    /// corners ordered.
    pub fn collider_offset_size(&self, offset: IVec2, size: IVec2) -> (r: BoxCollider)
        requires
            small(self.pos, 268_435_456),
            small(size, 268_435_456),
            small(offset, 268_435_456),
            small(self.offset, 268_435_456),
        ensures
            r.p1.x == min_int(self.offset.x + self.pos.x + offset.x, self.offset.x + self.pos.x + offset.x + size.x),
            r.p1.y == min_int(self.offset.y + self.pos.y + offset.y, self.offset.y + self.pos.y + offset.y + size.y),
            r.p2.x == max_int(self.offset.x + self.pos.x + offset.x, self.offset.x + self.pos.x + offset.x + size.x),
            r.p2.y == max_int(self.offset.y + self.pos.y + offset.y, self.offset.y + self.pos.y + offset.y + size.y),
    {
        let collider = BoxCollider::new(self.offset.add(self.pos).add(offset), size);
        BoxCollider { p1: collider.p1.min(collider.p2), p2: collider.p1.max(collider.p2) }
    }

    /// The position moved by the offset.
    pub fn offsetted_pos(&self) -> (r: IVec2)
        requires
            small(self.pos, 268_435_456),
            small(self.offset, 268_435_456),
        ensures
            r.x == self.offset.x + self.pos.x,
            r.y == self.offset.y + self.pos.y,
    {
        self.offset.add(self.pos)
    }

    /// The position moved by the offset along x only.
    pub fn x_offsetted_pos(&self) -> (r: IVec2)
        requires
            small(self.pos, 268_435_456),
            small(self.offset, 268_435_456),
        ensures
            r.x == self.offset.x + self.pos.x,
            r.y == self.pos.y,
    {
        ivec2(self.offset.x + self.pos.x, self.pos.y)
    }

    /// The position moved by the offset along y only.
    pub fn y_offsetted_pos(&self) -> (r: IVec2)
        requires
            small(self.pos, 268_435_456),
            small(self.offset, 268_435_456),
        ensures
            r.x == self.pos.x,
            r.y == self.offset.y + self.pos.y,
    {
        ivec2(self.pos.x, self.offset.y + self.pos.y)
    }
}

impl BoxCollider {
    /// The box from `position` spanning `size`.
    pub fn new(position: IVec2, size: IVec2) -> (r: BoxCollider)
        requires
            i32::MIN <= position.x + size.x <= i32::MAX,
            i32::MIN <= position.y + size.y <= i32::MAX,
        ensures
            r.p1 == position,
            r.p2.x == position.x + size.x,
            r.p2.y == position.y + size.y,
    {
        BoxCollider { p1: position, p2: position.add(size) }
    }

    /// The two boxes overlap on both axes, touching included.
    pub open spec fn spec_intersects(self, other: BoxCollider) -> bool {
        self.p1.x <= other.p2.x && self.p2.x >= other.p1.x && self.p1.y <= other.p2.y && self.p2.y >= other.p1.y
    }

    /// This box lies within `other`, touching included.
    pub open spec fn spec_contains(self, other: BoxCollider) -> bool {
        &&& other.p1.x <= self.p1.x <= other.p2.x
        &&& other.p1.x <= self.p2.x <= other.p2.x
        &&& other.p1.y <= self.p1.y <= other.p2.y
        &&& other.p1.y <= self.p2.y <= other.p2.y
    }

    /// The two boxes overlap on both axes, touching included.
    pub fn intersects(&self, other: BoxCollider) -> (r: bool)
        ensures
            r == self.spec_intersects(other),
    {
        self.p1.x <= other.p2.x && self.p2.x >= other.p1.x && self.p1.y <= other.p2.y && self.p2.y >= other.p1.y
    }

    /// Where this box, moving by `vel`, first touches `other` within this step.
    pub fn collides(&self, other: BoxCollider, vel: IVec2) -> (r: Option<Contact>)
        requires
            small(self.p1, 67_108_864),
            small(self.p2, 67_108_864),
            small(other.p1, 67_108_864),
            small(other.p2, 67_108_864),
            small(vel, 67_108_864),
        ensures
            r == sweep_hit(*self, other, vel),
            r matches Some(c) ==> 0 < c.time.den && 0 <= c.time.num <= c.time.den && unit_against(c.normal, vel),
    {
        if vel.x == 0 && vel.y == 0 {
            return None;
        }
        let size = self.p2.sub(self.p1);
        let grown = BoxCollider {
            p1: ivec2(2 * other.p1.x - size.x, 2 * other.p1.y - size.y),
            p2: ivec2(2 * other.p2.x + size.x, 2 * other.p2.y + size.y),
        };
        let origin = ivec2(2 * self.p1.x + size.x, 2 * self.p1.y + size.y);
        let dir = ivec2(2 * vel.x, 2 * vel.y);
        match grown.ray_collides(origin, dir) {
            Some(c) => {
                if 0 <= c.time.num && c.time.num <= c.time.den {
                    assert(unit_against(c.normal, vel)) by {
                        if c.normal.x == 1 || c.normal.x == -1 {
                            assert(c.normal.x * dir.x == 2 * (c.normal.x * vel.x)) by (nonlinear_arith)
                                requires
                                    dir.x == 2 * vel.x;
                        } else {
                            assert(c.normal.y * dir.y == 2 * (c.normal.y * vel.y)) by (nonlinear_arith)
                                requires
                                    dir.y == 2 * vel.y;
                        }
                    }
                    Some(Contact {
                        point_x: Fraction { num: c.point_x.num, den: 2 * c.point_x.den },
                        point_y: Fraction { num: c.point_y.num, den: 2 * c.point_y.den },
                        normal: c.normal,
                        time: c.time,
                    })
                } else {
                    None
                }
            },
            None => None,
        }
    }

    /// Where a ray from `ray_origin` along `ray_dir` first enters this box.
    pub fn ray_collides(&self, ray_origin: IVec2, ray_dir: IVec2) -> (r: Option<Contact>)
        requires
            ray_dir.x != 0 || ray_dir.y != 0,
            small(self.p1, 268_435_456),
            small(self.p2, 268_435_456),
            small(ray_origin, 268_435_456),
            small(ray_dir, 268_435_456),
        ensures
            r == ray_hit(*self, ray_origin, ray_dir),
            r matches Some(c) ==> 0 < c.point_x.den <= 268_435_456 && c.point_x.den == c.point_y.den
                && c.time.den == c.point_x.den && unit_against(c.normal, ray_dir),
    {
        if ray_dir.x != 0 && ray_dir.y != 0 {
            let (nx, fx) = slab_exec(self.p1.x, self.p2.x, ray_origin.x, ray_dir.x);
            let (ny, fy) = slab_exec(self.p1.y, self.p2.y, ray_origin.y, ray_dir.y);
            if frac_lt(fy, nx) || frac_lt(fx, ny) {
                return None;
            }
            let near = if frac_lt(nx, ny) { ny } else { nx };
            let far = if frac_lt(fx, fy) { fx } else { fy };
            let normal = if frac_lt(nx, ny) {
                ivec2(0, if ray_dir.y < 0 { 1 } else { -1 })
            } else {
                ivec2(if ray_dir.x < 0 { 1 } else { -1 }, 0)
            };
            if far.num < 0 {
                None
            } else {
                Some(contact_exec(ray_origin, ray_dir, near, normal))
            }
        } else if ray_dir.x == 0 {
            let (ny, fy) = slab_exec(self.p1.y, self.p2.y, ray_origin.y, ray_dir.y);
            let lo = if self.p1.x <= self.p2.x { self.p1.x } else { self.p2.x };
            let hi = if self.p1.x >= self.p2.x { self.p1.x } else { self.p2.x };
            if !(lo <= ray_origin.x && ray_origin.x <= hi) || fy.num < 0 {
                None
            } else {
                Some(contact_exec(ray_origin, ray_dir, ny, ivec2(0, if ray_dir.y < 0 { 1 } else { -1 })))
            }
        } else {
            let (nx, fx) = slab_exec(self.p1.x, self.p2.x, ray_origin.x, ray_dir.x);
            let lo = if self.p1.y <= self.p2.y { self.p1.y } else { self.p2.y };
            let hi = if self.p1.y >= self.p2.y { self.p1.y } else { self.p2.y };
            if !(lo <= ray_origin.y && ray_origin.y <= hi) || fx.num < 0 {
                None
            } else {
                Some(contact_exec(ray_origin, ray_dir, nx, ivec2(if ray_dir.x < 0 { 1 } else { -1 }, 0)))
            }
        }
    }

    /// This box lies within `other`, touching included.
    pub fn contains(&self, other: BoxCollider) -> (r: bool)
        ensures
            r == self.spec_contains(other),
    {
        self.p1.x <= other.p2.x && self.p2.x <= other.p2.x && self.p1.x >= other.p1.x && self.p2.x >= other.p1.x
            && self.p1.y <= other.p2.y && self.p2.y <= other.p2.y && self.p1.y >= other.p1.y
            && self.p2.y >= other.p1.y
    }
}

/// A ray time `tn / td` at or after a slab's entry and at or before its exit puts the
/// ray's point, scaled by `td`, between the slab's sides.
proof fn lemma_axis_within(lo: int, hi: int, o: int, d: int, tn: int, td: int)
    requires
        lo <= hi,
        td > 0,
        d != 0,
        d > 0 ==> (lo - o) * td <= tn * d && tn * d <= (hi - o) * td,
        d < 0 ==> (o - hi) * td <= tn * (-d) && tn * (-d) <= (o - lo) * td,
    ensures
        lo * td <= o * td + tn * d <= hi * td,
{
    if d > 0 {
        assert(lo * td <= o * td + tn * d <= hi * td) by (nonlinear_arith)
            requires
                (lo - o) * td <= tn * d,
                tn * d <= (hi - o) * td,
        ;
    } else {
        assert(lo * td <= o * td + tn * d <= hi * td) by (nonlinear_arith)
            requires
                (o - hi) * td <= tn * (-d),
                tn * (-d) <= (o - lo) * td,
        ;
    }
}

/// The time `t` lies within the slab `(n, f)` of one axis, as fractions.
proof fn lemma_time_in_slab(n: Fraction, f: Fraction, t: Fraction)
    requires
        n.den > 0,
        f.den == n.den,
        t.den > 0,
        n.num <= f.num,
        !t.lt(n),
        !f.lt(t),
    ensures
        n.num * t.den <= t.num * n.den,
        t.num * f.den <= f.num * t.den,
{
}

/// A slab's entry time is not after its exit time.
proof fn lemma_slab_ordered(n: Fraction, f: Fraction)
    requires
        n.den > 0,
        f.den == n.den,
        n.num <= f.num,
    ensures
        !f.lt(n),
{
    assert(n.num * f.den <= f.num * n.den) by (nonlinear_arith)
        requires
            n.den > 0,
            f.den == n.den,
            n.num <= f.num;
}

/// The scaled point of a ray from `o` along `d` at time `t` is what the contact holds.
proof fn lemma_contact_point_exact(o: int, d: int, t: Fraction)
    requires
        -268_435_456 <= o <= 268_435_456,
        -268_435_456 <= d <= 268_435_456,
        -536_870_912 <= t.num <= 536_870_912,
        0 < t.den <= 268_435_456,
    ensures
        ((o * t.den + t.num * d) as i64) as int == o * t.den + t.num * d,
{
    assert(-(268_435_456 * 268_435_456) <= o * t.den <= 268_435_456 * 268_435_456) by (nonlinear_arith)
        requires
            -268_435_456 <= o <= 268_435_456,
            0 < t.den <= 268_435_456;
    assert(-(536_870_912 * 268_435_456) <= t.num * d <= 536_870_912 * 268_435_456) by (nonlinear_arith)
        requires
            -536_870_912 <= t.num <= 536_870_912,
            -268_435_456 <= d <= 268_435_456;
}

/// When a ray enters a box, its contact point lies on the box, sides included.
pub proof fn lemma_ray_hit_in_box(b: BoxCollider, o: IVec2, d: IVec2)
    requires
        d.x != 0 || d.y != 0,
        b.p1.x <= b.p2.x,
        b.p1.y <= b.p2.y,
        small(b.p1, 268_435_456),
        small(b.p2, 268_435_456),
        small(o, 268_435_456),
        small(d, 268_435_456),
    ensures
        ray_hit(b, o, d) matches Some(c) ==> {
            &&& b.p1.x * c.point_x.den <= c.point_x.num <= b.p2.x * c.point_x.den
            &&& b.p1.y * c.point_y.den <= c.point_y.num <= b.p2.y * c.point_y.den
        },
{
    if let Some(c) = ray_hit(b, o, d) {
        let t = c.time;
        let (nx, fx) = slab(b.p1.x as int, b.p2.x as int, o.x as int, d.x as int);
        let (ny, fy) = slab(b.p1.y as int, b.p2.y as int, o.y as int, d.y as int);
        if d.x != 0 && d.y != 0 {
            assert(t == nx || t == ny);
            lemma_slab_ordered(nx, fx);
            lemma_slab_ordered(ny, fy);
            lemma_time_in_slab(nx, fx, t);
            lemma_time_in_slab(ny, fy, t);
            lemma_axis_within(b.p1.x as int, b.p2.x as int, o.x as int, d.x as int, t.num as int, t.den as int);
            lemma_axis_within(b.p1.y as int, b.p2.y as int, o.y as int, d.y as int, t.num as int, t.den as int);
        } else if d.x == 0 {
            assert(t == ny);
            lemma_slab_ordered(ny, fy);
            lemma_time_in_slab(ny, fy, t);
            lemma_axis_within(b.p1.y as int, b.p2.y as int, o.y as int, d.y as int, t.num as int, t.den as int);
            assert(b.p1.x * t.den <= o.x * t.den <= b.p2.x * t.den) by (nonlinear_arith)
                requires
                    b.p1.x <= o.x <= b.p2.x,
                    t.den > 0;
        } else {
            assert(t == nx);
            lemma_slab_ordered(nx, fx);
            lemma_time_in_slab(nx, fx, t);
            lemma_axis_within(b.p1.x as int, b.p2.x as int, o.x as int, d.x as int, t.num as int, t.den as int);
            assert(b.p1.y * t.den <= o.y * t.den <= b.p2.y * t.den) by (nonlinear_arith)
                requires
                    b.p1.y <= o.y <= b.p2.y,
                    t.den > 0;
        }
        lemma_contact_point_exact(o.x as int, d.x as int, t);
        lemma_contact_point_exact(o.y as int, d.y as int, t);
    }
}

/// When a box moving by `vel` hits a still box within the step, the moving box, moved
/// to be centred on the contact point, touches the still box: with both sides scaled
/// by twice the contact's denominator, its left edge is not right of the still box's
/// right edge and its right edge not left of its left edge, and likewise vertically.
pub proof fn lemma_sweep_contact_touches(m: BoxCollider, t: BoxCollider, vel: IVec2)
    requires
        m.p1.x <= m.p2.x,
        m.p1.y <= m.p2.y,
        t.p1.x <= t.p2.x,
        t.p1.y <= t.p2.y,
        small(m.p1, 67_108_864),
        small(m.p2, 67_108_864),
        small(t.p1, 67_108_864),
        small(t.p2, 67_108_864),
        small(vel, 67_108_864),
    ensures
        sweep_hit(m, t, vel) matches Some(c) ==> {
            let sx = m.p2.x - m.p1.x;
            let sy = m.p2.y - m.p1.y;
            &&& 2 * c.point_x.num - sx * c.point_x.den <= 2 * t.p2.x * c.point_x.den
            &&& 2 * c.point_x.num + sx * c.point_x.den >= 2 * t.p1.x * c.point_x.den
            &&& 2 * c.point_y.num - sy * c.point_y.den <= 2 * t.p2.y * c.point_y.den
            &&& 2 * c.point_y.num + sy * c.point_y.den >= 2 * t.p1.y * c.point_y.den
        },
{
    if let Some(c) = sweep_hit(m, t, vel) {
        let sx = m.p2.x - m.p1.x;
        let sy = m.p2.y - m.p1.y;
        let grown = BoxCollider {
            p1: IVec2 { x: (2 * t.p1.x - sx) as i32, y: (2 * t.p1.y - sy) as i32 },
            p2: IVec2 { x: (2 * t.p2.x + sx) as i32, y: (2 * t.p2.y + sy) as i32 },
        };
        let o = IVec2 { x: (2 * m.p1.x + sx) as i32, y: (2 * m.p1.y + sy) as i32 };
        let d = IVec2 { x: (2 * vel.x) as i32, y: (2 * vel.y) as i32 };
        lemma_ray_hit_in_box(grown, o, d);
        let r = ray_hit(grown, o, d)->Some_0;
        assert(c.point_x.num == r.point_x.num && c.point_x.den == 2 * r.point_x.den);
        assert(c.point_y.num == r.point_y.num && c.point_y.den == 2 * r.point_y.den);
        let dx = r.point_x.den as int;
        let dy = r.point_y.den as int;
        assert(2 * c.point_x.num - sx * c.point_x.den <= 2 * t.p2.x * c.point_x.den) by (nonlinear_arith)
            requires
                r.point_x.num <= (2 * t.p2.x + sx) * dx,
                c.point_x.num == r.point_x.num,
                c.point_x.den == 2 * dx;
        assert(2 * c.point_x.num + sx * c.point_x.den >= 2 * t.p1.x * c.point_x.den) by (nonlinear_arith)
            requires
                (2 * t.p1.x - sx) * dx <= r.point_x.num,
                c.point_x.num == r.point_x.num,
                c.point_x.den == 2 * dx;
        assert(2 * c.point_y.num - sy * c.point_y.den <= 2 * t.p2.y * c.point_y.den) by (nonlinear_arith)
            requires
                r.point_y.num <= (2 * t.p2.y + sy) * dy,
                c.point_y.num == r.point_y.num,
                c.point_y.den == 2 * dy;
        assert(2 * c.point_y.num + sy * c.point_y.den >= 2 * t.p1.y * c.point_y.den) by (nonlinear_arith)
            requires
                (2 * t.p1.y - sy) * dy <= r.point_y.num,
                c.point_y.num == r.point_y.num,
                c.point_y.den == 2 * dy;
    }
}

} // verus!
