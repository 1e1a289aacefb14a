use vstd::prelude::*;

verus! {

/// A direction in which the player may move.
#[derive(Hash, Copy, Clone, PartialEq, Eq, Structural, Debug)]
pub enum Directions {
    NORTH,
    SOUTH,
    EAST,
    WEST,
}

/// The direction from which something is approached.
#[derive(Hash, Copy, Clone, PartialEq, Eq, Structural, Debug)]
pub enum FromDirection {
    FROMNORTH,
    FROMSOUTH,
    FROMEAST,
    FROMWEST,
}

/// The side from which a tile is entered when moving in `d`: the opposite side.
pub open spec fn spec_from_direction(d: Directions) -> FromDirection {
    match d {
        Directions::NORTH => FromDirection::FROMSOUTH,
        Directions::SOUTH => FromDirection::FROMNORTH,
        Directions::EAST => FromDirection::FROMWEST,
        Directions::WEST => FromDirection::FROMEAST,
    }
}

/// The direction of movement that enters a tile from side `f`: the opposite side.
pub open spec fn spec_direction(f: FromDirection) -> Directions {
    match f {
        FromDirection::FROMNORTH => Directions::SOUTH,
        FromDirection::FROMSOUTH => Directions::NORTH,
        FromDirection::FROMEAST => Directions::WEST,
        FromDirection::FROMWEST => Directions::EAST,
    }
}

impl From<Directions> for FromDirection {
    /// Convert a Direction into the corresponding FromDirection, i.e. the opposite direction
    fn from(direction: Directions) -> (r: Self) {
        match direction {
            Directions::NORTH => FromDirection::FROMSOUTH,
            Directions::SOUTH => FromDirection::FROMNORTH,
            Directions::EAST => FromDirection::FROMWEST,
            Directions::WEST => FromDirection::FROMEAST,
        }
    }
}

impl vstd::std_specs::convert::FromSpecImpl<Directions> for FromDirection {
    open spec fn obeys_from_spec() -> bool {
        true
    }

    open spec fn from_spec(v: Directions) -> FromDirection {
        spec_from_direction(v)
    }
}

impl From<FromDirection> for Directions {
    /// Convert a FromDirection into the corresponding Direction, i.e. the opposite direction
    fn from(fromdirection: FromDirection) -> (r: Self) {
        match fromdirection {
            FromDirection::FROMNORTH => Directions::SOUTH,
            FromDirection::FROMSOUTH => Directions::NORTH,
            FromDirection::FROMEAST => Directions::WEST,
            FromDirection::FROMWEST => Directions::EAST,
        }
    }
}

impl vstd::std_specs::convert::FromSpecImpl<FromDirection> for Directions {
    open spec fn obeys_from_spec() -> bool {
        true
    }

    open spec fn from_spec(v: FromDirection) -> Directions {
        spec_direction(v)
    }
}

/// Converting a direction to the side it enters from, and back, gives the
/// direction again; and the same holds starting from a side.
pub proof fn lemma_opposite_round_trip(d: Directions, f: FromDirection)
    ensures
        spec_direction(spec_from_direction(d)) == d,
        spec_from_direction(spec_direction(f)) == f,
{
}

} // verus!
