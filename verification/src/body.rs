//! Collision bodies and the ranges their fields must stay in.

use crate::vec2::{Vec2, Vec2V};
use vstd::prelude::*;

verus! {

/// Largest size component a body may have.
pub const SIZE_LIMIT: i64 = 0x100000;

/// Largest mass a rigid body may have.
pub const MASS_LIMIT: i64 = 0x40000000;

/// Largest center coordinate magnitude a body may have when it is handed to
/// a resolution pass.
pub const CENTER_LIMIT: i64 = 0x10000000000000;

/// Largest center coordinate magnitude the resolution passes ever produce,
/// and the largest the overlap computation accepts. It equals
/// `CENTER_LIMIT + MAX_BODIES * MAX_BODIES * SIZE_LIMIT`, the start range
/// plus the farthest any chain of pair resolutions can push a body.
pub const WORKING_LIMIT: i64 = 0x20000000000000;

/// Largest number of rigid bodies a resolution pass accepts.
pub const MAX_BODIES: usize = 0x10000;

/// Collision layer bit for level geometry.
pub const LAYER_WORLD: u32 = 1;

/// Collision layer bit for actors.
pub const LAYER_ACTOR: u32 = 2;

/// All collision layer bits.
pub const LAYER_ALL: u32 = 3;

/// A size vector is within range: both components non-negative and at most
/// [`SIZE_LIMIT`].
pub open spec fn size_ok(s: Vec2V) -> bool {
    &&& 0 <= s.x <= SIZE_LIMIT
    &&& 0 <= s.y <= SIZE_LIMIT
}

/// A mass is within range: strictly positive and at most [`MASS_LIMIT`].
pub open spec fn mass_ok(m: int) -> bool {
    1 <= m <= MASS_LIMIT
}

/// A center coordinate is acceptable as input to a resolution pass.
pub open spec fn start_coord_ok(x: int) -> bool {
    -CENTER_LIMIT <= x <= CENTER_LIMIT
}

/// A center coordinate is within the working range: acceptable to the
/// overlap computation, and never left behind by a resolution pass.
pub open spec fn work_coord_ok(x: int) -> bool {
    -WORKING_LIMIT <= x <= WORKING_LIMIT
}

/// A center vector is acceptable as input to a resolution pass.
pub open spec fn start_center_ok(c: Vec2V) -> bool {
    start_coord_ok(c.x) && start_coord_ok(c.y)
}

/// A center vector is within the working range.
pub open spec fn work_center_ok(c: Vec2V) -> bool {
    work_coord_ok(c.x) && work_coord_ok(c.y)
}

/// An immovable collision rectangle: a wall or a placed obstacle. The
/// resolution passes read it and never move it.
#[derive(Clone, Copy, Debug, PartialEq, Eq, Structural)]
pub struct StaticBody {
    /// Center of the rectangle.
    pub center: Vec2,
    /// Full width and height of the rectangle.
    pub size: Vec2,
    /// Collision layer bitmask; carried for the caller, not consulted by the
    /// resolution passes, which apply to all bodies unconditionally.
    pub layers: u32,
}

/// The mathematical value of a [`StaticBody`].
pub ghost struct StaticBodyV {
    pub center: Vec2V,
    pub size: Vec2V,
    pub layers: u32,
}

impl View for StaticBody {
    type V = StaticBodyV;

    open spec fn view(&self) -> StaticBodyV {
        StaticBodyV { center: self.center@, size: self.size@, layers: self.layers }
    }
}

/// A movable collision rectangle with mass. Both resolution passes may
/// rewrite its center.
#[derive(Clone, Copy, Debug, PartialEq, Eq, Structural)]
pub struct RigidBody {
    /// Center of the rectangle.
    pub center: Vec2,
    /// Full width and height of the rectangle.
    pub size: Vec2,
    /// Mass, strictly positive; a heavier body is displaced less when two
    /// movable bodies are separated.
    pub mass: i64,
    /// Collision layer bitmask; carried for the caller, not consulted by the
    /// resolution passes, which apply to all bodies unconditionally.
    pub layers: u32,
}

/// The mathematical value of a [`RigidBody`].
pub ghost struct RigidBodyV {
    pub center: Vec2V,
    pub size: Vec2V,
    pub mass: int,
    pub layers: u32,
}

impl View for RigidBody {
    type V = RigidBodyV;

    open spec fn view(&self) -> RigidBodyV {
        RigidBodyV {
            center: self.center@,
            size: self.size@,
            mass: self.mass as int,
            layers: self.layers,
        }
    }
}

impl StaticBody {
    /// The body's fields are within the ranges the resolution passes accept.
    pub open spec fn wf(self) -> bool {
        size_ok(self.size@) && start_center_ok(self.center@)
    }

    /// Builds a static body, rejecting out-of-range centers and sizes.
    pub fn new(center: Vec2, size: Vec2, layers: u32) -> (r: Option<StaticBody>)
        ensures
            r is Some <==> size_ok(size@) && start_center_ok(center@),
            r matches Some(b) ==> b == (StaticBody { center, size, layers }) && b.wf(),
    {
        if size.x < 0 || size.x > SIZE_LIMIT || size.y < 0 || size.y > SIZE_LIMIT {
            return None;
        }
        if center.x < -CENTER_LIMIT || center.x > CENTER_LIMIT || center.y < -CENTER_LIMIT
            || center.y > CENTER_LIMIT {
            return None;
        }
        Some(StaticBody { center, size, layers })
    }
}

impl RigidBody {
    /// The body's fields are within the ranges the resolution passes accept.
    pub open spec fn wf(self) -> bool {
        size_ok(self.size@) && start_center_ok(self.center@) && mass_ok(self.mass as int)
    }

    /// The body's center may have been moved by a resolution pass, but its
    /// shape and mass are unchanged and its center is in the working range.
    pub open spec fn wf_moved(self) -> bool {
        size_ok(self.size@) && work_center_ok(self.center@) && mass_ok(self.mass as int)
    }

    /// Builds a rigid body, rejecting a non-positive mass as well as
    /// out-of-range centers, sizes and masses.
    pub fn new(center: Vec2, size: Vec2, mass: i64, layers: u32) -> (r: Option<RigidBody>)
        ensures
            r is Some <==> size_ok(size@) && start_center_ok(center@) && mass_ok(mass as int),
            r matches Some(b) ==> b == (RigidBody { center, size, mass, layers }) && b.wf(),
    {
        if size.x < 0 || size.x > SIZE_LIMIT || size.y < 0 || size.y > SIZE_LIMIT {
            return None;
        }
        if center.x < -CENTER_LIMIT || center.x > CENTER_LIMIT || center.y < -CENTER_LIMIT
            || center.y > CENTER_LIMIT {
            return None;
        }
        if mass < 1 || mass > MASS_LIMIT {
            return None;
        }
        Some(RigidBody { center, size, mass, layers })
    }
}

} // verus!
