//! Collision-group bit layers. Two bodies interact iff each one's membership
//! intersects the other's filter.

use vstd::prelude::*;

verus! {

/// Floor and ramp surfaces.
pub const GROUP_FLOOR: u32 = 1;

/// Walls, flippers, bumpers and the launcher.
pub const GROUP_STRUCTURE: u32 = 2;

/// Balls (ball-to-ball contact).
pub const GROUP_BALL: u32 = 4;

/// The back-stop of the one-way gate beside the launcher lane.
pub const GROUP_GATE: u32 = 8;

/// The one-way lid on the collector box.
pub const GROUP_LID: u32 = 16;

/// The filter a freshly spawned ball starts with.
pub const BALL_BASE_FILTER: u32 = 7;

/// `big` holds every bit of `small`.
pub open spec fn bits_include(big: u32, small: u32) -> bool {
    big & small == small
}

#[derive(Clone, Copy, Debug, PartialEq, Eq, Structural)]
pub struct CollisionGroups {
    pub memberships: u32,
    pub filters: u32,
}

impl CollisionGroups {
    pub open spec fn interacts_spec(self, other: CollisionGroups) -> bool {
        self.memberships & other.filters != 0 && other.memberships & self.filters != 0
    }

    /// The groups every ball is spawned with: member of the ball layer,
    /// colliding with floors, structures and other balls.
    pub fn ball_default() -> (r: CollisionGroups)
        ensures
            r.memberships == GROUP_BALL,
            r.filters == BALL_BASE_FILTER,
    {
        CollisionGroups { memberships: GROUP_BALL, filters: BALL_BASE_FILTER }
    }

    /// Whether two bodies with these groups collide.
    pub fn interacts(&self, other: &CollisionGroups) -> (r: bool)
        ensures
            r == self.interacts_spec(*other),
    {
        self.memberships & other.filters != 0 && other.memberships & self.filters != 0
    }

    /// Whether the filter holds every bit of `bits`.
    pub fn filters_include(&self, bits: u32) -> (r: bool)
        ensures
            r == bits_include(self.filters, bits),
    {
        self.filters & bits == bits
    }

    /// Adds `bits` to the filter; the membership is kept.
    pub fn allow(&self, bits: u32) -> (r: CollisionGroups)
        ensures
            r.memberships == self.memberships,
            r.filters == self.filters | bits,
            bits_include(r.filters, self.filters),
            bits_include(r.filters, bits),
    {
        proof {
            lemma_or_includes(self.filters, bits);
        }
        CollisionGroups { memberships: self.memberships, filters: self.filters | bits }
    }

    /// Clears `bits` from the filter; the membership is kept.
    pub fn forbid(&self, bits: u32) -> (r: CollisionGroups)
        ensures
            r.memberships == self.memberships,
            r.filters == self.filters & !bits,
            r.filters & bits == 0,
            bits_include(self.filters, r.filters),
    {
        let f = self.filters;
        assert(f & !bits & bits == 0) by (bit_vector);
        assert(f & (f & !bits) == f & !bits) by (bit_vector);
        CollisionGroups { memberships: self.memberships, filters: self.filters & !bits }
    }
}

/// Or-ing bits into a filter keeps every bit it had and adds the new ones.
pub proof fn lemma_or_includes(a: u32, b: u32)
    ensures
        bits_include(a | b, a),
        bits_include(a | b, b),
{
    assert((a | b) & a == a) by (bit_vector);
    assert((a | b) & b == b) by (bit_vector);
}

/// Inclusion of bit sets is transitive.
pub proof fn lemma_include_trans(a: u32, b: u32, c: u32)
    requires
        bits_include(a, b),
        bits_include(b, c),
    ensures
        bits_include(a, c),
{
    assert(a & b == b && b & c == c ==> a & c == c) by (bit_vector);
}

/// Every bit set includes itself.
pub proof fn lemma_include_refl(a: u32)
    ensures
        bits_include(a, a),
{
    assert(a & a == a) by (bit_vector);
}

} // verus!
