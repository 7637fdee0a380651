use vstd::prelude::*;

verus! {

/// A position or an extent in a vial, in micrometres; `y` grows upwards.
#[derive(Clone, Copy, Debug, PartialEq, Eq, Structural)]
pub struct Point {
    pub x: i64,
    pub y: i64,
}

#[derive(Clone, Copy, Debug, PartialEq, Eq, Structural)]
pub enum ObjectKind {
    Seed,
    Creature,
    Plant,
}

/// Marks that a transfer or a transition leaves on an object.
#[derive(Clone, Copy, Debug, PartialEq, Eq, Structural)]
pub struct ObjectFlags {
    /// The object was dropped into its vial during the last transfer.
    pub enter_vial: bool,
    /// The object fell into an empty vial and is expected to break.
    pub expect_break: bool,
    /// The object breaks at the next transition.
    pub break_now: bool,
}

impl ObjectFlags {
    pub open spec fn spec_none() -> ObjectFlags {
        ObjectFlags { enter_vial: false, expect_break: false, break_now: false }
    }

    pub fn none() -> (r: ObjectFlags)
        ensures
            r == Self::spec_none(),
    {
        ObjectFlags { enter_vial: false, expect_break: false, break_now: false }
    }
}

impl Default for ObjectFlags {
    fn default() -> (r: ObjectFlags)
        ensures
            r == ObjectFlags::spec_none(),
    {
        ObjectFlags::none()
    }
}

/// A floating object: a circle of radius `size` centred near `pos`.
#[derive(Clone, Copy, Debug, PartialEq, Eq, Structural)]
pub struct Object {
    pub kind: ObjectKind,
    pub pos: Point,
    /// micrometres
    pub size: u64,
    /// Key of the object's body in the physics world.
    pub id: u64,
    pub flags: ObjectFlags,
}

impl Default for Object {
    fn default() -> (r: Object)
        ensures
            r == (Object {
                kind: ObjectKind::Seed,
                pos: Point { x: 0, y: 0 },
                size: 0,
                id: 0,
                flags: ObjectFlags::spec_none(),
            }),
    {
        Object {
            kind: ObjectKind::Seed,
            pos: Point { x: 0, y: 0 },
            size: 0,
            id: 0,
            flags: ObjectFlags::none(),
        }
    }
}

} // verus!
