use crate::hit::Hit;
use crate::order::{lesser, min_spec};
use vstd::prelude::*;
use vstd::std_specs::cmp::{PartialOrdIs, PartialOrdSpec};

verus! {

/// The surface that a point is closest to, given its signed distance to each
/// of the three: the lettering stands unless the room is strictly nearer, and
/// what then stands gives way to the sun only if the sun is strictly nearer
/// still.
pub open spec fn nearest_spec<T: PartialOrd>(letter: T, room: T, sun: T) -> (T, Hit) {
    let solid = if room.is_lt(&letter) {
        (room, Hit::Wall)
    } else {
        (letter, Hit::Letter)
    };
    if sun.is_lt(&solid.0) {
        (sun, Hit::Sun)
    } else {
        solid
    }
}

/// The choice among the three surfaces, given the answers to the two
/// questions that decide it: whether the room is strictly nearer than the
/// lettering, and whether the sun is strictly nearer than the nearer of
/// those two.
pub open spec fn chosen<T>(letter: T, room: T, sun: T, room_nearer: bool, sun_nearer: bool) -> (
    T,
    Hit,
) {
    if sun_nearer {
        (sun, Hit::Sun)
    } else if room_nearer {
        (room, Hit::Wall)
    } else {
        (letter, Hit::Letter)
    }
}

/// Picks the nearest of the three surfaces of the scene from the distances
/// to them, and returns that distance with the surface's kind.
///
/// The room is compared with the lettering, then the sun with the nearer of
/// the two, each time by `<`, and the result is `chosen` by the two answers.
/// For a type whose `<` has a model the answers are known, and the result is
/// `nearest_spec`.
pub fn nearest<T: PartialOrd>(letter: T, room: T, sun: T) -> (r: (T, Hit))
    ensures
        exists|room_nearer: bool| #[trigger]
            call_ensures(T::lt, (&room, &letter), room_nearer) && exists|sun_nearer: bool|
                #[trigger] call_ensures(
                    T::lt,
                    (&sun, &lesser(room, letter, room_nearer)),
                    sun_nearer,
                ) && r == chosen(letter, room, sun, room_nearer, sun_nearer),
        T::obeys_partial_cmp_spec() ==> r == nearest_spec(letter, room, sun),
{
    let mut distance = letter;
    let mut kind = Hit::Letter;
    if room < distance {
        distance = room;
        kind = Hit::Wall;
    }
    if sun < distance {
        distance = sun;
        kind = Hit::Sun;
    }
    (distance, kind)
}

/// Where the sun is strictly nearer than both the lettering and the room,
/// the point is classified as the sun, with the sun's distance.
pub proof fn lemma_sun_nearest<T: PartialOrd>(letter: T, room: T, sun: T)
    requires
        sun.is_lt(&letter),
        sun.is_lt(&room),
    ensures
        nearest_spec(letter, room, sun) == (sun, Hit::Sun),
{
}

/// Where the room is strictly nearer than the lettering and the sun is not
/// strictly nearer than the room, the point is classified as a wall, with
/// the room's distance.
pub proof fn lemma_wall_nearest<T: PartialOrd>(letter: T, room: T, sun: T)
    requires
        room.is_lt(&letter),
        !sun.is_lt(&room),
    ensures
        nearest_spec(letter, room, sun) == (room, Hit::Wall),
{
}

/// Where neither the room nor the sun is strictly nearer than the lettering,
/// the point is classified as lettering, with the lettering's distance.
pub proof fn lemma_letter_nearest<T: PartialOrd>(letter: T, room: T, sun: T)
    requires
        !room.is_lt(&letter),
        !sun.is_lt(&letter),
    ensures
        nearest_spec(letter, room, sun) == (letter, Hit::Letter),
{
}

/// The distance chosen is the least of the three as `min` finds it, taking
/// the room before the lettering and the sun before both.
pub proof fn lemma_nearest_distance<T: PartialOrd>(letter: T, room: T, sun: T)
    ensures
        nearest_spec(letter, room, sun).0 == min_spec(sun, min_spec(room, letter)),
{
}

/// The three cases above are the only ones: the kind chosen tells which of
/// them held.
pub proof fn lemma_nearest_kind<T: PartialOrd>(letter: T, room: T, sun: T)
    ensures
        nearest_spec(letter, room, sun).1 == Hit::Wall <==> room.is_lt(&letter) && !sun.is_lt(
            &room,
        ),
        nearest_spec(letter, room, sun).1 == Hit::Letter <==> !room.is_lt(&letter) && !sun.is_lt(
            &letter,
        ),
        nearest_spec(letter, room, sun).1 != Hit::Miss,
{
}

} // verus!
