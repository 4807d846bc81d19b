use vstd::prelude::*;

verus! {

/// What a ray met: nothing, the mirror-like lettering, a diffuse wall of the
/// room, or the emissive sky above the room.
#[derive(Clone, Copy, Debug, PartialEq, Eq, Structural)]
pub enum Hit {
    /// The ray left the scene without meeting a surface.
    Miss,
    /// The extruded lettering.
    Letter,
    /// The room: its walls, floor, ceiling and ceiling planks.
    Wall,
    /// The light above the room.
    Sun,
}

} // verus!
