use crate::directions::FromDirection;
use crate::directions::FromDirection::{FROMEAST, FROMNORTH, FROMSOUTH, FROMWEST};
use vstd::prelude::*;

verus! {

/// Sprite index of the player turning their back to the camera.
pub const EXITING_PLAYER_SPRITE: usize = 247;

/// What happens when the player interacts with a special tile.
#[derive(Debug, Eq, PartialEq)]
pub enum InteractionKind {
    /// When interacting with this tile, the player may decide to play a map.
    /// This interaction kind is mainly used for tile-based Campaign Trails
    LaunchMap {
        map_name: String,
    },
    /// When interacting with this tile, the player should be teleported
    /// to the given teleport exit.
    TeleportTo {
        teleport_id: TeleportId,
    },
    VendingMachine,
}

/// The mathematical value of an [`InteractionKind`]: map names as character sequences.
pub enum InteractionKindView {
    LaunchMap { map_name: Seq<char> },
    TeleportTo { teleport_id: TeleportId },
    VendingMachine,
}

impl View for InteractionKind {
    type V = InteractionKindView;

    open spec fn view(&self) -> InteractionKindView {
        match self {
            InteractionKind::LaunchMap { map_name } => InteractionKindView::LaunchMap { map_name: map_name@ },
            InteractionKind::TeleportTo { teleport_id } => InteractionKindView::TeleportTo { teleport_id: *teleport_id },
            InteractionKind::VendingMachine => InteractionKindView::VendingMachine,
        }
    }
}

impl Clone for InteractionKind {
    fn clone(&self) -> (r: Self)
        ensures
            r@ == self@,
    {
        match self {
            InteractionKind::LaunchMap { map_name } => InteractionKind::LaunchMap { map_name: map_name.clone() },
            InteractionKind::TeleportTo { teleport_id } => InteractionKind::TeleportTo { teleport_id: *teleport_id },
            InteractionKind::VendingMachine => InteractionKind::VendingMachine,
        }
    }
}

impl Default for InteractionKind {
    fn default() -> (r: Self)
        ensures
            r@ == (InteractionKindView::LaunchMap { map_name: Seq::empty() }),
    {
        InteractionKind::LaunchMap { map_name: String::new() }
    }
}

/// The physical behaviour of a tile.
#[derive(Debug, Eq, PartialEq)]
pub enum TileKind {
    ///
    /// A tile that cannot interact with the player in any way
    AIR,
    ///
    /// A solid tile
    SOLID,
    ///
    /// A solid tile that can be interacted with from the given directions
    SOLIDINTERACTABLE {
        from: Vec<FromDirection>,
        kind: InteractionKind,
    },
    ///
    /// A tile that kills the player on impact
    DEADLY { from: Vec<FromDirection> },
    ///
    /// A special tile that the player can interact with
    SPECIAL { interaction: InteractionKind },
    ///
    /// A spawn point for a player
    PLAYERSPAWN,
    ///
    /// A collectible the player may collect by stepping onto it
    COLLECTIBLE { kind: CollectibleKind },
    ///
    /// A door that can be opened (removed) using a key
    DOOR,
    ///
    /// A ladder
    LADDER,
    ///
    /// The map exit
    EXIT,
}

/// The mathematical value of a [`TileKind`]: direction lists as sequences.
#[verifier::ext_equal]
pub enum TileKindView {
    AIR,
    SOLID,
    SOLIDINTERACTABLE { from: Seq<FromDirection>, kind: InteractionKindView },
    DEADLY { from: Seq<FromDirection> },
    SPECIAL { interaction: InteractionKindView },
    PLAYERSPAWN,
    COLLECTIBLE { kind: CollectibleKind },
    DOOR,
    LADDER,
    EXIT,
}

impl View for TileKind {
    type V = TileKindView;

    open spec fn view(&self) -> TileKindView {
        match self {
            TileKind::AIR => TileKindView::AIR,
            TileKind::SOLID => TileKindView::SOLID,
            TileKind::SOLIDINTERACTABLE { from, kind } => TileKindView::SOLIDINTERACTABLE { from: from@, kind: kind@ },
            TileKind::DEADLY { from } => TileKindView::DEADLY { from: from@ },
            TileKind::SPECIAL { interaction } => TileKindView::SPECIAL { interaction: interaction@ },
            TileKind::PLAYERSPAWN => TileKindView::PLAYERSPAWN,
            TileKind::COLLECTIBLE { kind } => TileKindView::COLLECTIBLE { kind: *kind },
            TileKind::DOOR => TileKindView::DOOR,
            TileKind::LADDER => TileKindView::LADDER,
            TileKind::EXIT => TileKindView::EXIT,
        }
    }
}

/// What a collectible tile grants.
#[derive(Clone, Copy, Debug, Eq, PartialEq, Structural)]
pub enum CollectibleKind {
    Decorative,
    Coins { amount: usize },
    Keys { amount: usize },
    StarCrystals { amount: usize },
}

/// Index of a sprite in a texture atlas.
pub type AtlasIndex = usize;

/// The ID for a Teleport
#[derive(Default, Copy, Clone, Debug, Ord, PartialOrd, Eq, PartialEq, Structural, Hash)]
pub enum TeleportId {
    #[default]
    ONE,
    TWO,
    THREE,
    FOUR,
}

impl TeleportId {
    /// The number of a teleport: 0 to 3.
    pub open spec fn spec_to_u8(self) -> u8 {
        match self {
            TeleportId::ONE => 0,
            TeleportId::TWO => 1,
            TeleportId::THREE => 2,
            TeleportId::FOUR => 3,
        }
    }

    /// The teleport with number `value`, for `value <= 3`.
    pub open spec fn spec_from_u8(value: u8) -> TeleportId {
        if value == 0 {
            TeleportId::ONE
        } else if value == 1 {
            TeleportId::TWO
        } else if value == 2 {
            TeleportId::THREE
        } else {
            TeleportId::FOUR
        }
    }

    pub fn const_to_u8(&self) -> (r: u8)
        ensures
            r == self.spec_to_u8(),
    {
        match self {
            TeleportId::ONE => 0,
            TeleportId::TWO => 1,
            TeleportId::THREE => 2,
            TeleportId::FOUR => 3,
        }
    }

    pub fn const_from_u8(value: u8) -> (r: Self)
        requires
            value <= 3,
        ensures
            r == Self::spec_from_u8(value),
    {
        match value {
            0 => TeleportId::ONE,
            1 => TeleportId::TWO,
            2 => TeleportId::THREE,
            _ => TeleportId::FOUR,
        }
    }
}

impl From<&TeleportId> for u8 {
    fn from(value: &TeleportId) -> (r: u8) {
        value.const_to_u8()
    }
}

impl vstd::std_specs::convert::FromSpecImpl<&TeleportId> for u8 {
    open spec fn obeys_from_spec() -> bool {
        true
    }

    open spec fn from_spec(v: &TeleportId) -> u8 {
        v.spec_to_u8()
    }
}

/// Numbering teleports and reading the number back gives the same teleport,
/// and every number up to 3 names a teleport whose number it is.
pub proof fn lemma_teleport_id_round_trip(t: TeleportId, value: u8)
    ensures
        TeleportId::spec_from_u8(t.spec_to_u8()) == t,
        value <= 3 ==> TeleportId::spec_from_u8(value).spec_to_u8() == value,
{
}

/// A map tile.
#[derive(Debug, Eq, PartialEq)]
pub enum Tile {
    /// An air tile without a texture
    AIR,
    /// A tile of Wall, a solid block that cannot be destroyed
    WALL,
    /// An alternative Wall with a "nature" texture
    WALLNATURE,
    /// An alternative Wall with a "cobblestone" texture
    WALLCOBBLE,
    /// An alternative Wall with a "smooth" texture
    WALLSMOOTH,
    /// An alternative Wall with a "chiseled" texture
    WALLCHISELED,
    /// A solid slope
    SLOPE,
    /// A solid pillar
    PILLAR,
    /// The position where the player spawns
    PLAYERSPAWN,
    /// A door that can be opened with a key
    DOOR,
    /// A opened door
    OPENDOOR,
    /// A collectible coin
    COIN,
    /// A collectible key
    KEY,
    /// A collectible star crystal
    STARCRYSTAL,
    /// A ladder
    LADDER,
    /// A decorated ladder with a Nature-Themed slope
    LADDERNATURE,
    /// A decorated ladder with a Wall-Themed slope
    LADDERSLOPE,
    /// Spikes that sit on the ground and point up
    SPIKES,
    /// Spikes that sit on the ground and point up, alternative texture
    SPIKESALT,
    /// Spikes placed on a slope and point up, only deadly if touched from above.
    SPIKESSLOPED,
    /// Spikes placed on a wall, pointing up. Only deadly if approached from above.
    WALLSPIKEST,
    /// Spikes placed on a wall, pointing to the left. Only deadly if approached from the left.
    WALLSPIKESL,
    /// Spikes placed on a wall, pointing to the right. Only deadly if approached from the right.
    WALLSPIKESR,
    /// Spikes placed on a wall, pointing to the left and right. Only deadly if approached from the left or right.
    WALLSPIKESLR,
    /// Spikes placed on a wall, pointing to the bottom. Only deadly if approached from below.
    WALLSPIKESB,
    /// Spikes placed on a wall, pointing to the left and bottom. Only deadly if approached from the left or from below.
    WALLSPIKESLB,
    /// Spikes placed on a wall, pointing to the right and bottom. Only deadly if approached from the right or from below.
    WALLSPIKESRB,
    /// Spikes placed on a wall, pointing to the top and bottom. Only deadly if approached from above or from below.
    WALLSPIKESTB,
    /// Spikes placed on a wall, pointing to the top and left. Only deadly if approached from above or from the left.
    WALLSPIKESLT,
    /// Spikes placed on a wall, pointing to the top and right. Only deadly if approached from above or from the right.
    WALLSPIKESRT,
    /// Spikes placed on a wall, pointing to all directions. Deadly if approached from any direction.
    WALLSPIKESRLTB,
    /// Spikes placed on a wall, pointing to the top, right and bottom. Not deadly if approached from the left.
    WALLSPIKESRTB,
    /// Spikes placed on a wall, pointing to the right, left and bottom. Not deadly if approached from the top.
    WALLSPIKESRLB,
    /// Spikes placed on a wall, pointing to the top, right and left. Not deadly if approached from below.
    WALLSPIKESRLT,
    /// Spikes placed on a wall, pointing to the top, left and bottom. Not deadly if approached from the right.
    WALLSPIKESLTB,
    /// A decorative Cobblestone Roof Tile, with a 45 degrees angle on the left.
    COBBLEROOFSLOPEL,
    /// A decorative Cobblestone Roof Tile, with a 45 degrees angle on the right.
    COBBLEROOFSLOPER,
    /// An arrow that points to the right
    ARROWRIGHT,
    /// An arrow that points to the left
    ARROWLEFT,
    /// An arrow that points up
    ARROWUP,
    /// An arrow that points down
    ARROWDOWN,
    /// The map exit
    EXIT,
    /// A Campaign Trail Connecting Segment between two maps
    CAMPAIGNTRAILWALKWAY,
    /// A Campaign Trail Map Entry Point
    CAMPAIGNTRAILMAPENTRYPOINT { interaction: InteractionKind },
    /// The border of a campaign trail, invisible but cannot be entered or interacted with
    CAMPAIGNTRAILBORDER,
    /// A locked Campaign Trail Map that cannot be played yet
    CAMPAIGNTRAILLOCKEDMAPENTRYPOINT { interaction: InteractionKind },
    /// A message tile that shows a message to the player as soon as they interact with it.
    MESSAGE { message_id: usize },
    /// The entry of a Teleport, there may be more than one of these on a single map
    TELEPORTENTRY { teleport_id: TeleportId },
    /// The exit of a teleport, there may be only one on each map
    TELEPORTEXIT { teleport_id: TeleportId },
    /// A vending machine facing to the left which the player can interact with from the left or top
    VENDINGMACHINEL,
    /// A vending machine facing to the right which the player can interact with from the right or top
    VENDINGMACHINER,
}

impl Clone for Tile {
    fn clone(&self) -> (r: Self)
        ensures
            r.eqv(*self),
    {
        match self {
            Tile::CAMPAIGNTRAILMAPENTRYPOINT { interaction } => Tile::CAMPAIGNTRAILMAPENTRYPOINT { interaction: interaction.clone() },
            Tile::CAMPAIGNTRAILLOCKEDMAPENTRYPOINT { interaction } => Tile::CAMPAIGNTRAILLOCKEDMAPENTRYPOINT { interaction: interaction.clone() },
            Tile::MESSAGE { message_id } => Tile::MESSAGE { message_id: *message_id },
            Tile::TELEPORTENTRY { teleport_id } => Tile::TELEPORTENTRY { teleport_id: *teleport_id },
            Tile::TELEPORTEXIT { teleport_id } => Tile::TELEPORTEXIT { teleport_id: *teleport_id },
            Tile::AIR => Tile::AIR,
            Tile::WALL => Tile::WALL,
            Tile::WALLNATURE => Tile::WALLNATURE,
            Tile::WALLCOBBLE => Tile::WALLCOBBLE,
            Tile::WALLSMOOTH => Tile::WALLSMOOTH,
            Tile::WALLCHISELED => Tile::WALLCHISELED,
            Tile::SLOPE => Tile::SLOPE,
            Tile::PILLAR => Tile::PILLAR,
            Tile::PLAYERSPAWN => Tile::PLAYERSPAWN,
            Tile::DOOR => Tile::DOOR,
            Tile::OPENDOOR => Tile::OPENDOOR,
            Tile::COIN => Tile::COIN,
            Tile::KEY => Tile::KEY,
            Tile::STARCRYSTAL => Tile::STARCRYSTAL,
            Tile::LADDER => Tile::LADDER,
            Tile::LADDERNATURE => Tile::LADDERNATURE,
            Tile::LADDERSLOPE => Tile::LADDERSLOPE,
            Tile::SPIKES => Tile::SPIKES,
            Tile::SPIKESALT => Tile::SPIKESALT,
            Tile::SPIKESSLOPED => Tile::SPIKESSLOPED,
            Tile::WALLSPIKEST => Tile::WALLSPIKEST,
            Tile::WALLSPIKESL => Tile::WALLSPIKESL,
            Tile::WALLSPIKESR => Tile::WALLSPIKESR,
            Tile::WALLSPIKESLR => Tile::WALLSPIKESLR,
            Tile::WALLSPIKESB => Tile::WALLSPIKESB,
            Tile::WALLSPIKESLB => Tile::WALLSPIKESLB,
            Tile::WALLSPIKESRB => Tile::WALLSPIKESRB,
            Tile::WALLSPIKESTB => Tile::WALLSPIKESTB,
            Tile::WALLSPIKESLT => Tile::WALLSPIKESLT,
            Tile::WALLSPIKESRT => Tile::WALLSPIKESRT,
            Tile::WALLSPIKESRLTB => Tile::WALLSPIKESRLTB,
            Tile::WALLSPIKESRTB => Tile::WALLSPIKESRTB,
            Tile::WALLSPIKESRLB => Tile::WALLSPIKESRLB,
            Tile::WALLSPIKESRLT => Tile::WALLSPIKESRLT,
            Tile::WALLSPIKESLTB => Tile::WALLSPIKESLTB,
            Tile::COBBLEROOFSLOPEL => Tile::COBBLEROOFSLOPEL,
            Tile::COBBLEROOFSLOPER => Tile::COBBLEROOFSLOPER,
            Tile::ARROWRIGHT => Tile::ARROWRIGHT,
            Tile::ARROWLEFT => Tile::ARROWLEFT,
            Tile::ARROWUP => Tile::ARROWUP,
            Tile::ARROWDOWN => Tile::ARROWDOWN,
            Tile::EXIT => Tile::EXIT,
            Tile::CAMPAIGNTRAILWALKWAY => Tile::CAMPAIGNTRAILWALKWAY,
            Tile::CAMPAIGNTRAILBORDER => Tile::CAMPAIGNTRAILBORDER,
            Tile::VENDINGMACHINEL => Tile::VENDINGMACHINEL,
            Tile::VENDINGMACHINER => Tile::VENDINGMACHINER,
        }
    }
}

impl Default for Tile {
    fn default() -> (r: Self)
        ensures
            r == Tile::AIR,
    {
        Tile::AIR
    }
}

impl Tile {
    /// Two tiles are the same tile: equal, with map names compared by their characters.
    pub open spec fn eqv(self, other: Tile) -> bool {
        match (self, other) {
            (Tile::CAMPAIGNTRAILMAPENTRYPOINT { interaction: a }, Tile::CAMPAIGNTRAILMAPENTRYPOINT { interaction: b }) => a@ == b@,
            (Tile::CAMPAIGNTRAILLOCKEDMAPENTRYPOINT { interaction: a }, Tile::CAMPAIGNTRAILLOCKEDMAPENTRYPOINT { interaction: b }) => a@ == b@,
            _ => self == other,
        }
    }

    /// The tile kind of each tile.
    pub open spec fn spec_kind(self) -> TileKindView {
        match self {
            Tile::AIR => TileKindView::AIR,
            Tile::WALL => TileKindView::SOLID,
            Tile::WALLNATURE => TileKindView::SOLID,
            Tile::WALLCOBBLE => TileKindView::SOLID,
            Tile::WALLSMOOTH => TileKindView::SOLID,
            Tile::WALLCHISELED => TileKindView::SOLID,
            Tile::SLOPE => TileKindView::SOLID,
            Tile::PILLAR => TileKindView::SOLID,
            Tile::PLAYERSPAWN => TileKindView::PLAYERSPAWN,
            Tile::COIN => TileKindView::COLLECTIBLE {
                kind: CollectibleKind::Coins { amount: 1 },
            },
            Tile::LADDER => TileKindView::LADDER,
            Tile::LADDERNATURE => TileKindView::LADDER,
            Tile::LADDERSLOPE => TileKindView::LADDER,
            Tile::SPIKES => TileKindView::DEADLY {
                from: seq![FROMNORTH, FROMSOUTH, FROMEAST, FROMWEST],
            },
            Tile::SPIKESALT => TileKindView::DEADLY {
                from: seq![FROMNORTH, FROMSOUTH, FROMEAST, FROMWEST],
            },
            Tile::SPIKESSLOPED => TileKindView::DEADLY {
                from: seq![FROMNORTH],
            },
            Tile::WALLSPIKESL => TileKindView::DEADLY {
                from: seq![FROMWEST],
            },
            Tile::WALLSPIKEST => TileKindView::DEADLY {
                from: seq![FROMNORTH],
            },
            Tile::WALLSPIKESR => TileKindView::DEADLY {
                from: seq![FROMEAST],
            },
            Tile::WALLSPIKESLR => TileKindView::DEADLY {
                from: seq![FROMEAST, FROMWEST],
            },
            Tile::WALLSPIKESLT => TileKindView::DEADLY {
                from: seq![FROMWEST, FROMNORTH],
            },
            Tile::WALLSPIKESRT => TileKindView::DEADLY {
                from: seq![FROMEAST, FROMNORTH],
            },
            Tile::WALLSPIKESB => TileKindView::DEADLY {
                from: seq![FROMSOUTH],
            },
            Tile::WALLSPIKESLB => TileKindView::DEADLY {
                from: seq![FROMWEST, FROMSOUTH],
            },
            Tile::WALLSPIKESRB => TileKindView::DEADLY {
                from: seq![FROMEAST, FROMSOUTH],
            },
            Tile::WALLSPIKESTB => TileKindView::DEADLY {
                from: seq![FROMNORTH, FROMSOUTH],
            },
            Tile::WALLSPIKESRLTB => TileKindView::DEADLY {
                from: seq![FROMNORTH, FROMSOUTH, FROMEAST, FROMWEST],
            },
            Tile::WALLSPIKESRTB => TileKindView::DEADLY {
                from: seq![FROMNORTH, FROMSOUTH, FROMEAST],
            },
            Tile::WALLSPIKESLTB => TileKindView::DEADLY {
                from: seq![FROMNORTH, FROMSOUTH, FROMWEST],
            },
            Tile::WALLSPIKESRLB => TileKindView::DEADLY {
                from: seq![FROMSOUTH, FROMEAST, FROMWEST],
            },
            Tile::WALLSPIKESRLT => TileKindView::DEADLY {
                from: seq![FROMNORTH, FROMEAST, FROMWEST],
            },
            Tile::DOOR => TileKindView::DOOR,
            Tile::KEY => TileKindView::COLLECTIBLE {
                kind: CollectibleKind::Keys { amount: 1 },
            },
            Tile::OPENDOOR => TileKindView::AIR,
            Tile::ARROWRIGHT => TileKindView::COLLECTIBLE {
                kind: CollectibleKind::Decorative,
            },
            Tile::ARROWLEFT => TileKindView::COLLECTIBLE {
                kind: CollectibleKind::Decorative,
            },
            Tile::ARROWUP => TileKindView::COLLECTIBLE {
                kind: CollectibleKind::Decorative,
            },
            Tile::ARROWDOWN => TileKindView::COLLECTIBLE {
                kind: CollectibleKind::Decorative,
            },
            Tile::MESSAGE { .. } => TileKindView::COLLECTIBLE {
                kind: CollectibleKind::Decorative,
            },
            Tile::EXIT => TileKindView::EXIT,
            Tile::CAMPAIGNTRAILWALKWAY => TileKindView::LADDER,
            Tile::CAMPAIGNTRAILMAPENTRYPOINT { interaction } => TileKindView::SPECIAL {
                interaction: interaction@,
            },
            Tile::CAMPAIGNTRAILBORDER => TileKindView::SOLID,
            Tile::CAMPAIGNTRAILLOCKEDMAPENTRYPOINT { .. } => TileKindView::SOLID,
            Tile::TELEPORTENTRY { teleport_id } => TileKindView::SPECIAL {
                interaction: InteractionKindView::TeleportTo {
                    teleport_id: teleport_id,
                },
            },
            Tile::TELEPORTEXIT { .. } => TileKindView::AIR,
            Tile::COBBLEROOFSLOPEL => TileKindView::AIR,
            Tile::COBBLEROOFSLOPER => TileKindView::AIR,
            Tile::VENDINGMACHINEL => TileKindView::SOLIDINTERACTABLE {
                from: seq![FROMWEST, FROMNORTH],
                kind: InteractionKindView::VendingMachine,
            },
            Tile::VENDINGMACHINER => TileKindView::SOLIDINTERACTABLE {
                from: seq![FROMEAST, FROMNORTH],
                kind: InteractionKindView::VendingMachine,
            },
            Tile::STARCRYSTAL => TileKindView::COLLECTIBLE {
                kind: CollectibleKind::StarCrystals { amount: 1 },
            },
        }
    }

    /// The sprite of each tile, if it has one.
    pub open spec fn spec_atlas_index(self) -> Option<AtlasIndex> {
        match self {
            Tile::AIR => None,
            Tile::WALL => Some(58),
            Tile::WALLNATURE => Some(103),
            Tile::WALLCOBBLE => Some(123),
            Tile::WALLSMOOTH => Some(57),
            Tile::WALLCHISELED => Some(52),
            Tile::SLOPE => Some(140),
            Tile::PILLAR => Some(29),
            Tile::PLAYERSPAWN => None,
            Tile::COIN => Some(217),
            Tile::LADDER => Some(220),
            Tile::LADDERNATURE => Some(226),
            Tile::LADDERSLOPE => Some(225),
            Tile::SPIKES => Some(227),
            Tile::SPIKESALT => Some(228),
            Tile::SPIKESSLOPED => Some(250),
            Tile::WALLSPIKESL => Some(244),
            Tile::WALLSPIKESR => Some(242),
            Tile::WALLSPIKEST => Some(231),
            Tile::WALLSPIKESLR => Some(243),
            Tile::WALLSPIKESB => Some(233),
            Tile::WALLSPIKESLB => Some(232),
            Tile::WALLSPIKESRT => Some(230),
            Tile::WALLSPIKESRB => Some(234),
            Tile::WALLSPIKESLT => Some(216),
            Tile::WALLSPIKESTB => Some(238),
            Tile::WALLSPIKESRLTB => Some(254),
            Tile::WALLSPIKESLTB => Some(237),
            Tile::WALLSPIKESRLB => Some(236),
            Tile::WALLSPIKESRLT => Some(235),
            Tile::WALLSPIKESRTB => Some(239),
            Tile::DOOR => Some(200),
            Tile::KEY => Some(201),
            Tile::OPENDOOR => Some(196),
            Tile::ARROWRIGHT => Some(35),
            Tile::ARROWLEFT => Some(36),
            Tile::ARROWUP => Some(37),
            Tile::ARROWDOWN => Some(34),
            Tile::EXIT => Some(40),
            Tile::CAMPAIGNTRAILWALKWAY => Some(78),
            Tile::CAMPAIGNTRAILMAPENTRYPOINT { .. } => Some(76),
            Tile::CAMPAIGNTRAILBORDER => None,
            Tile::CAMPAIGNTRAILLOCKEDMAPENTRYPOINT { .. } => Some(77),
            Tile::MESSAGE { .. } => Some(33),
            Tile::TELEPORTENTRY { teleport_id } => {
                Some((1 + teleport_id.spec_to_u8() * 2) as usize)
            },
            Tile::TELEPORTEXIT { teleport_id } => {
                Some((2 + teleport_id.spec_to_u8() * 2) as usize)
            },
            Tile::COBBLEROOFSLOPEL => Some(124),
            Tile::COBBLEROOFSLOPER => Some(125),
            Tile::VENDINGMACHINEL => Some(74),
            Tile::VENDINGMACHINER => Some(75),
            Tile::STARCRYSTAL => Some(202),
        }
    }

    /// The identifier of each tile, suitable as a translation key.
    pub open spec fn spec_str_id(self) -> Seq<char> {
        match self {
            Tile::AIR => "air"@,
            Tile::WALL => "wall"@,
            Tile::WALLNATURE => "wallnature"@,
            Tile::WALLCOBBLE => "wallcobble"@,
            Tile::WALLSMOOTH => "wallsmooth"@,
            Tile::WALLCHISELED => "wallchiseled"@,
            Tile::SLOPE => "slope"@,
            Tile::PILLAR => "pillar"@,
            Tile::PLAYERSPAWN => "playerspawn"@,
            Tile::DOOR => "door"@,
            Tile::OPENDOOR => "opendoor"@,
            Tile::COIN => "coin"@,
            Tile::KEY => "key"@,
            Tile::LADDER => "ladder"@,
            Tile::LADDERNATURE => "laddernature"@,
            Tile::LADDERSLOPE => "ladderslope"@,
            Tile::SPIKES => "spikes"@,
            Tile::SPIKESALT => "spikes_alt"@,
            Tile::SPIKESSLOPED => "spikes_sloped"@,
            Tile::WALLSPIKESL => "spikes_wall_l"@,
            Tile::WALLSPIKESR => "spikes_wall_r"@,
            Tile::WALLSPIKESLR => "spikes_wall_lr"@,
            Tile::WALLSPIKESB => "spikes_wall_b"@,
            Tile::WALLSPIKESLB => "spikes_wall_lb"@,
            Tile::WALLSPIKESRB => "spikes_wall_rb"@,
            Tile::WALLSPIKESTB => "spikes_wall_tb"@,
            Tile::WALLSPIKESRLTB => "spikes_wall_rltb"@,
            Tile::WALLSPIKESRTB => "spikes_wall_rtb"@,
            Tile::WALLSPIKESLTB => "spikes_wall_ltb"@,
            Tile::WALLSPIKEST => "spikes_wall_t"@,
            Tile::WALLSPIKESLT => "spikes_wall_lt"@,
            Tile::WALLSPIKESRT => "spikes_wall_rt"@,
            Tile::WALLSPIKESRLB => "spikes_wall_rlb"@,
            Tile::WALLSPIKESRLT => "spikes_wall_rlt"@,
            Tile::ARROWRIGHT => "arrow_right"@,
            Tile::ARROWLEFT => "arrow_left"@,
            Tile::ARROWUP => "arrow_up"@,
            Tile::ARROWDOWN => "arrow_down"@,
            Tile::EXIT => "exit"@,
            Tile::CAMPAIGNTRAILWALKWAY => "campaign_trail_walkway"@,
            Tile::CAMPAIGNTRAILMAPENTRYPOINT { .. } => "campaign_trail_entry_point"@,
            Tile::CAMPAIGNTRAILBORDER => "campaign_trail_border"@,
            Tile::CAMPAIGNTRAILLOCKEDMAPENTRYPOINT { .. } => "campaign_trail_locked_entry_point"@,
            Tile::MESSAGE { .. } => "message"@,
            Tile::TELEPORTENTRY { .. } => "teleport_entry"@,
            Tile::TELEPORTEXIT { .. } => "teleport_exit"@,
            Tile::COBBLEROOFSLOPEL => "cobblestone_roof_l"@,
            Tile::COBBLEROOFSLOPER => "cobblestone_roof_r"@,
            Tile::VENDINGMACHINEL => "vending_machine_l"@,
            Tile::VENDINGMACHINER => "vending_machine_r"@,
            Tile::STARCRYSTAL => "star_crystal"@,
        }
    }

    /// `self` and `other` are the same variant of tile, whatever payload each carries.
    pub open spec fn same_variant(self, other: Tile) -> bool {
        match (self, other) {
            (Tile::CAMPAIGNTRAILMAPENTRYPOINT { .. }, Tile::CAMPAIGNTRAILMAPENTRYPOINT { .. }) => true,
            (Tile::CAMPAIGNTRAILLOCKEDMAPENTRYPOINT { .. }, Tile::CAMPAIGNTRAILLOCKEDMAPENTRYPOINT { .. }) => true,
            (Tile::MESSAGE { .. }, Tile::MESSAGE { .. }) => true,
            (Tile::TELEPORTENTRY { .. }, Tile::TELEPORTENTRY { .. }) => true,
            (Tile::TELEPORTEXIT { .. }, Tile::TELEPORTEXIT { .. }) => true,
            _ => self == other,
        }
    }

    /// The human-readable name of each tile.
    pub open spec fn spec_display_name(self) -> Seq<char> {
        match self {
                Tile::AIR => "Air"@,
                Tile::WALL => "Wall"@,
                Tile::WALLNATURE => "Wall (Nature)"@,
                Tile::WALLCOBBLE => "Wall (Cobblestone)"@,
                Tile::WALLSMOOTH => "Wall (Smooth)"@,
                Tile::WALLCHISELED => "Wall (Chiseled)"@,
                Tile::SLOPE => "Slope"@,
                Tile::PILLAR => "Pillar"@,
                Tile::PLAYERSPAWN => "Player Spawn"@,
                Tile::COIN => "Coin"@,
                Tile::LADDER => "Ladder"@,
                Tile::LADDERNATURE => "Ladder with Nature Slope"@,
                Tile::LADDERSLOPE => "Ladder with Slope"@,
                Tile::SPIKES => "Spikes"@,
                Tile::SPIKESALT => "Spikes (Alt Texture)"@,
                Tile::SPIKESSLOPED => "Sloped Spikes"@,
                Tile::WALLSPIKESL => "L Wall Spikes"@,
                Tile::WALLSPIKESR => "R Wall Spikes"@,
                Tile::WALLSPIKESLR => "LR Wall Spikes"@,
                Tile::WALLSPIKESB => "B Wall Spikes"@,
                Tile::WALLSPIKESLB => "LB Wall Spikes"@,
                Tile::WALLSPIKESRB => "RB Wall Spikes"@,
                Tile::WALLSPIKESTB => "TB Wall Spikes"@,
                Tile::WALLSPIKESRLTB => "RLTB Wall Spikes"@,
                Tile::WALLSPIKESRTB => "RTB Wall Spikes"@,
                Tile::WALLSPIKESLTB => "LTB Wall Spikes"@,
                Tile::WALLSPIKEST => "T Wall Spikes"@,
                Tile::WALLSPIKESLT => "LT Wall Spikes"@,
                Tile::WALLSPIKESRT => "RT Wall Spikes"@,
                Tile::WALLSPIKESRLB => "RLB Wall Spikes"@,
                Tile::WALLSPIKESRLT => "RLT Wall Spikes"@,
                Tile::DOOR => "Door"@,
                Tile::OPENDOOR => "Open Door"@,
                Tile::KEY => "Key"@,
                Tile::ARROWRIGHT => "Arrow Right"@,
                Tile::ARROWLEFT => "Arrow Left"@,
                Tile::ARROWUP => "Arrow Up"@,
                Tile::ARROWDOWN => "Arrow Down"@,
                Tile::EXIT => "Exit"@,
                Tile::CAMPAIGNTRAILWALKWAY => "Campaign Trail Walkway"@,
                Tile::CAMPAIGNTRAILMAPENTRYPOINT { .. } => "Campaign Trail Map Entry Point"@,
                Tile::CAMPAIGNTRAILBORDER => "Campaign Trail Border"@,
                Tile::CAMPAIGNTRAILLOCKEDMAPENTRYPOINT { .. } => "Campaign Trail Locked Map Entry Point"@,
                Tile::MESSAGE { .. } => "Message"@,
                Tile::TELEPORTENTRY { .. } => "Teleport Entry"@,
                Tile::TELEPORTEXIT { .. } => "Teleport Exit"@,
                Tile::COBBLEROOFSLOPEL => "Cobblestone Roof L"@,
                Tile::COBBLEROOFSLOPER => "Cobblestone Roof R"@,
                Tile::VENDINGMACHINEL => "L Vending Machine"@,
                Tile::VENDINGMACHINER => "R Vending Machine"@,
                Tile::STARCRYSTAL => "Star Crystal"@,
        }
    }

    /// Get the tile kind of the given tile
    pub fn kind(&self) -> (r: TileKind)
        ensures
            r@ == self.spec_kind(),
    {
        let r = match self {
            Tile::AIR => TileKind::AIR,
            Tile::WALL => TileKind::SOLID,
            Tile::WALLNATURE => TileKind::SOLID,
            Tile::WALLCOBBLE => TileKind::SOLID,
            Tile::WALLSMOOTH => TileKind::SOLID,
            Tile::WALLCHISELED => TileKind::SOLID,
            Tile::SLOPE => TileKind::SOLID,
            Tile::PILLAR => TileKind::SOLID,
            Tile::PLAYERSPAWN => TileKind::PLAYERSPAWN,
            Tile::COIN => TileKind::COLLECTIBLE {
                kind: CollectibleKind::Coins { amount: 1 },
            },
            Tile::LADDER => TileKind::LADDER,
            Tile::LADDERNATURE => TileKind::LADDER,
            Tile::LADDERSLOPE => TileKind::LADDER,
            Tile::SPIKES => TileKind::DEADLY {
                from: vec![FROMNORTH, FROMSOUTH, FROMEAST, FROMWEST],
            },
            Tile::SPIKESALT => TileKind::DEADLY {
                from: vec![FROMNORTH, FROMSOUTH, FROMEAST, FROMWEST],
            },
            Tile::SPIKESSLOPED => TileKind::DEADLY {
                from: vec![FROMNORTH],
            },
            Tile::WALLSPIKESL => TileKind::DEADLY {
                from: vec![FROMWEST],
            },
            Tile::WALLSPIKEST => TileKind::DEADLY {
                from: vec![FROMNORTH],
            },
            Tile::WALLSPIKESR => TileKind::DEADLY {
                from: vec![FROMEAST],
            },
            Tile::WALLSPIKESLR => TileKind::DEADLY {
                from: vec![FROMEAST, FROMWEST],
            },
            Tile::WALLSPIKESLT => TileKind::DEADLY {
                from: vec![FROMWEST, FROMNORTH],
            },
            Tile::WALLSPIKESRT => TileKind::DEADLY {
                from: vec![FROMEAST, FROMNORTH],
            },
            Tile::WALLSPIKESB => TileKind::DEADLY {
                from: vec![FROMSOUTH],
            },
            Tile::WALLSPIKESLB => TileKind::DEADLY {
                from: vec![FROMWEST, FROMSOUTH],
            },
            Tile::WALLSPIKESRB => TileKind::DEADLY {
                from: vec![FROMEAST, FROMSOUTH],
            },
            Tile::WALLSPIKESTB => TileKind::DEADLY {
                from: vec![FROMNORTH, FROMSOUTH],
            },
            Tile::WALLSPIKESRLTB => TileKind::DEADLY {
                from: vec![FROMNORTH, FROMSOUTH, FROMEAST, FROMWEST],
            },
            Tile::WALLSPIKESRTB => TileKind::DEADLY {
                from: vec![FROMNORTH, FROMSOUTH, FROMEAST],
            },
            Tile::WALLSPIKESLTB => TileKind::DEADLY {
                from: vec![FROMNORTH, FROMSOUTH, FROMWEST],
            },
            Tile::WALLSPIKESRLB => TileKind::DEADLY {
                from: vec![FROMSOUTH, FROMEAST, FROMWEST],
            },
            Tile::WALLSPIKESRLT => TileKind::DEADLY {
                from: vec![FROMNORTH, FROMEAST, FROMWEST],
            },
            Tile::DOOR => TileKind::DOOR,
            Tile::KEY => TileKind::COLLECTIBLE {
                kind: CollectibleKind::Keys { amount: 1 },
            },
            Tile::OPENDOOR => TileKind::AIR,
            Tile::ARROWRIGHT => TileKind::COLLECTIBLE {
                kind: CollectibleKind::Decorative,
            },
            Tile::ARROWLEFT => TileKind::COLLECTIBLE {
                kind: CollectibleKind::Decorative,
            },
            Tile::ARROWUP => TileKind::COLLECTIBLE {
                kind: CollectibleKind::Decorative,
            },
            Tile::ARROWDOWN => TileKind::COLLECTIBLE {
                kind: CollectibleKind::Decorative,
            },
            Tile::MESSAGE { .. } => TileKind::COLLECTIBLE {
                kind: CollectibleKind::Decorative,
            },
            Tile::EXIT => TileKind::EXIT,
            Tile::CAMPAIGNTRAILWALKWAY => TileKind::LADDER,
            Tile::CAMPAIGNTRAILMAPENTRYPOINT { interaction } => TileKind::SPECIAL {
                interaction: interaction.clone(),
            },
            Tile::CAMPAIGNTRAILBORDER => TileKind::SOLID,
            Tile::CAMPAIGNTRAILLOCKEDMAPENTRYPOINT { .. } => TileKind::SOLID,
            Tile::TELEPORTENTRY { teleport_id } => TileKind::SPECIAL {
                interaction: InteractionKind::TeleportTo {
                    teleport_id: *teleport_id,
                },
            },
            Tile::TELEPORTEXIT { .. } => TileKind::AIR,
            Tile::COBBLEROOFSLOPEL => TileKind::AIR,
            Tile::COBBLEROOFSLOPER => TileKind::AIR,
            Tile::VENDINGMACHINEL => TileKind::SOLIDINTERACTABLE {
                from: vec![FROMWEST, FROMNORTH],
                kind: InteractionKind::VendingMachine,
            },
            Tile::VENDINGMACHINER => TileKind::SOLIDINTERACTABLE {
                from: vec![FROMEAST, FROMNORTH],
                kind: InteractionKind::VendingMachine,
            },
            Tile::STARCRYSTAL => TileKind::COLLECTIBLE {
                kind: CollectibleKind::StarCrystals { amount: 1 },
            },
        };
        assert(r@ =~= self.spec_kind());
        r
    }
}

impl Tile {
    /// The number of distinct tiles.
    pub const COUNT: usize = 51;

    /// The byte that stands for each tile in a map file. The payload of a message tile
    /// and of a campaign entry point is not part of it.
    pub open spec fn spec_to_bytes(self) -> u8 {
        match self {
            Tile::AIR => 0x00,
            Tile::WALL => 0x01,
            Tile::WALLNATURE => 0x02,
            Tile::WALLCOBBLE => 0x03,
            Tile::WALLSMOOTH => 0x04,
            Tile::WALLCHISELED => 0x05,
            Tile::SLOPE => 0x06,
            Tile::PILLAR => 0x07,
            Tile::PLAYERSPAWN => 0x10,
            Tile::DOOR => 0x20,
            Tile::OPENDOOR => 0x21,
            Tile::COIN => 0x30,
            Tile::KEY => 0x31,
            Tile::STARCRYSTAL => 0x36,
            Tile::LADDER => 0x22,
            Tile::LADDERNATURE => 0x23,
            Tile::LADDERSLOPE => 0x24,
            Tile::SPIKES => 0x40,
            Tile::SPIKESALT => 0x41,
            Tile::SPIKESSLOPED => 0x42,
            Tile::WALLSPIKEST => 0x5A,
            Tile::WALLSPIKESL => 0x50,
            Tile::WALLSPIKESR => 0x51,
            Tile::WALLSPIKESLR => 0x52,
            Tile::WALLSPIKESB => 0x53,
            Tile::WALLSPIKESLB => 0x54,
            Tile::WALLSPIKESRB => 0x55,
            Tile::WALLSPIKESTB => 0x56,
            Tile::WALLSPIKESLT => 0x5B,
            Tile::WALLSPIKESRT => 0x5C,
            Tile::WALLSPIKESRLTB => 0x57,
            Tile::WALLSPIKESRTB => 0x58,
            Tile::WALLSPIKESRLB => 0x5D,
            Tile::WALLSPIKESRLT => 0x5E,
            Tile::WALLSPIKESLTB => 0x59,
            Tile::COBBLEROOFSLOPEL => 0x08,
            Tile::COBBLEROOFSLOPER => 0x09,
            Tile::ARROWRIGHT => 0x32,
            Tile::ARROWLEFT => 0x33,
            Tile::ARROWUP => 0x34,
            Tile::ARROWDOWN => 0x35,
            Tile::EXIT => 0x11,
            Tile::CAMPAIGNTRAILWALKWAY => 0x60,
            Tile::CAMPAIGNTRAILMAPENTRYPOINT { .. } => 0x61,
            Tile::CAMPAIGNTRAILBORDER => 0x62,
            Tile::CAMPAIGNTRAILLOCKEDMAPENTRYPOINT { .. } => 0x63,
            Tile::MESSAGE { .. } => 0x70,
            Tile::TELEPORTENTRY { teleport_id } => (0x80 + teleport_id.spec_to_u8()) as u8,
            Tile::TELEPORTEXIT { teleport_id } => (0x84 + teleport_id.spec_to_u8()) as u8,
            Tile::VENDINGMACHINEL => 0x90,
            Tile::VENDINGMACHINER => 0x91,
        }
    }

    /// The bytes that stand for a tile in a map file.
    pub open spec fn is_tile_byte(b: u8) -> bool {
        ||| b == 0x00
        ||| b == 0x01
        ||| b == 0x02
        ||| b == 0x03
        ||| b == 0x04
        ||| b == 0x05
        ||| b == 0x06
        ||| b == 0x07
        ||| b == 0x08
        ||| b == 0x09
        ||| b == 0x10
        ||| b == 0x11
        ||| b == 0x20
        ||| b == 0x21
        ||| b == 0x22
        ||| b == 0x23
        ||| b == 0x24
        ||| b == 0x30
        ||| b == 0x31
        ||| b == 0x32
        ||| b == 0x33
        ||| b == 0x34
        ||| b == 0x35
        ||| b == 0x36
        ||| b == 0x40
        ||| b == 0x41
        ||| b == 0x42
        ||| b == 0x50
        ||| b == 0x51
        ||| b == 0x52
        ||| b == 0x53
        ||| b == 0x54
        ||| b == 0x55
        ||| b == 0x56
        ||| b == 0x57
        ||| b == 0x58
        ||| b == 0x59
        ||| b == 0x5A
        ||| b == 0x5B
        ||| b == 0x5C
        ||| b == 0x5D
        ||| b == 0x5E
        ||| b == 0x60
        ||| b == 0x61
        ||| b == 0x62
        ||| b == 0x63
        ||| b == 0x70
        ||| b == 0x90
        ||| b == 0x91
        ||| (0x80 <= b && b <= 0x87)
    }

    /// A tile as it is read back from a map file: a message tile shows message 0 and a
    /// campaign entry point launches the map with the empty name.
    pub open spec fn has_default_payload(self) -> bool {
        match self {
            Tile::CAMPAIGNTRAILMAPENTRYPOINT { interaction } => interaction@ == (InteractionKindView::LaunchMap { map_name: Seq::empty() }),
            Tile::CAMPAIGNTRAILLOCKEDMAPENTRYPOINT { interaction } => interaction@ == (InteractionKindView::LaunchMap { map_name: Seq::empty() }),
            Tile::MESSAGE { message_id } => message_id == 0,
            _ => true,
        }
    }

    /// Whether a collision happens when approaching this tile from the given side.
    pub open spec fn spec_can_collide_from(self, from_direction: FromDirection) -> bool {
        match self.spec_kind() {
            TileKindView::AIR => false,
            TileKindView::SOLID => true,
            TileKindView::SOLIDINTERACTABLE { .. } => true,
            TileKindView::DEADLY { from } => !from.contains(from_direction),
            TileKindView::SPECIAL { .. } => false,
            TileKindView::PLAYERSPAWN => false,
            TileKindView::COLLECTIBLE { .. } => false,
            TileKindView::LADDER => false,
            TileKindView::DOOR => true,
            TileKindView::EXIT => false,
        }
    }

    /// Whether approaching this tile from the given side kills the player.
    pub open spec fn spec_is_deadly_from(self, from_direction: FromDirection) -> bool {
        match self.spec_kind() {
            TileKindView::DEADLY { from } => from.contains(from_direction),
            _ => false,
        }
    }

    pub fn atlas_index(&self) -> (r: Option<AtlasIndex>)
        ensures
            r == self.spec_atlas_index(),
    {
        match self {
            Tile::AIR => None,
            Tile::WALL => Some(58),
            Tile::WALLNATURE => Some(103),
            Tile::WALLCOBBLE => Some(123),
            Tile::WALLSMOOTH => Some(57),
            Tile::WALLCHISELED => Some(52),
            Tile::SLOPE => Some(140),
            Tile::PILLAR => Some(29),
            Tile::PLAYERSPAWN => None,
            Tile::COIN => Some(217),
            Tile::LADDER => Some(220),
            Tile::LADDERNATURE => Some(226),
            Tile::LADDERSLOPE => Some(225),
            Tile::SPIKES => Some(227),
            Tile::SPIKESALT => Some(228),
            Tile::SPIKESSLOPED => Some(250),
            Tile::WALLSPIKESL => Some(244),
            Tile::WALLSPIKESR => Some(242),
            Tile::WALLSPIKEST => Some(231),
            Tile::WALLSPIKESLR => Some(243),
            Tile::WALLSPIKESB => Some(233),
            Tile::WALLSPIKESLB => Some(232),
            Tile::WALLSPIKESRT => Some(230),
            Tile::WALLSPIKESRB => Some(234),
            Tile::WALLSPIKESLT => Some(216),
            Tile::WALLSPIKESTB => Some(238),
            Tile::WALLSPIKESRLTB => Some(254),
            Tile::WALLSPIKESLTB => Some(237),
            Tile::WALLSPIKESRLB => Some(236),
            Tile::WALLSPIKESRLT => Some(235),
            Tile::WALLSPIKESRTB => Some(239),
            Tile::DOOR => Some(200),
            Tile::KEY => Some(201),
            Tile::OPENDOOR => Some(196),
            Tile::ARROWRIGHT => Some(35),
            Tile::ARROWLEFT => Some(36),
            Tile::ARROWUP => Some(37),
            Tile::ARROWDOWN => Some(34),
            Tile::EXIT => Some(40),
            Tile::CAMPAIGNTRAILWALKWAY => Some(78),
            Tile::CAMPAIGNTRAILMAPENTRYPOINT { .. } => Some(76),
            Tile::CAMPAIGNTRAILBORDER => None,
            Tile::CAMPAIGNTRAILLOCKEDMAPENTRYPOINT { .. } => Some(77),
            Tile::MESSAGE { .. } => Some(33),
            Tile::TELEPORTENTRY { teleport_id } => {
                Some(1 + (u8::from(teleport_id) * 2) as AtlasIndex)
            },
            Tile::TELEPORTEXIT { teleport_id } => {
                Some(2 + (u8::from(teleport_id) * 2) as AtlasIndex)
            },
            Tile::COBBLEROOFSLOPEL => Some(124),
            Tile::COBBLEROOFSLOPER => Some(125),
            Tile::VENDINGMACHINEL => Some(74),
            Tile::VENDINGMACHINER => Some(75),
            Tile::STARCRYSTAL => Some(202),
        }
    }

    pub fn can_collide_from(&self, from_direction: &FromDirection) -> (r: bool)
        ensures
            r == self.spec_can_collide_from(*from_direction),
    {
        match self.kind() {
            TileKind::AIR => false,
            TileKind::SOLID => true,
            TileKind::SOLIDINTERACTABLE { .. } => true,
            TileKind::DEADLY { from } => !directions_contain(&from, from_direction),
            TileKind::SPECIAL { .. } => false,
            TileKind::PLAYERSPAWN => false,
            TileKind::COLLECTIBLE { .. } => false,
            TileKind::LADDER => false,
            TileKind::DOOR => true,
            TileKind::EXIT => false,
        }
    }

    pub fn is_deadly_from(&self, from_direction: &FromDirection) -> (r: bool)
        ensures
            r == self.spec_is_deadly_from(*from_direction),
    {
        match self.kind() {
            TileKind::AIR => false,
            TileKind::SOLID => false,
            TileKind::SOLIDINTERACTABLE { .. } => false,
            TileKind::DEADLY { from } => directions_contain(&from, from_direction),
            TileKind::SPECIAL { .. } => false,
            TileKind::PLAYERSPAWN => false,
            TileKind::LADDER => false,
            TileKind::DOOR => false,
            TileKind::COLLECTIBLE { .. } => false,
            TileKind::EXIT => false,
        }
    }

    /// Get a unique string id, describing this tile. Suitable for i18n keys.
    /// Consists only of underscores and lower-case characters.
    pub fn str_id(&self) -> (r: &str)
        ensures
            r@ == self.spec_str_id(),
    {
        match self {
            Tile::AIR => "air",
            Tile::WALL => "wall",
            Tile::WALLNATURE => "wallnature",
            Tile::WALLCOBBLE => "wallcobble",
            Tile::WALLSMOOTH => "wallsmooth",
            Tile::WALLCHISELED => "wallchiseled",
            Tile::SLOPE => "slope",
            Tile::PILLAR => "pillar",
            Tile::PLAYERSPAWN => "playerspawn",
            Tile::DOOR => "door",
            Tile::OPENDOOR => "opendoor",
            Tile::COIN => "coin",
            Tile::KEY => "key",
            Tile::LADDER => "ladder",
            Tile::LADDERNATURE => "laddernature",
            Tile::LADDERSLOPE => "ladderslope",
            Tile::SPIKES => "spikes",
            Tile::SPIKESALT => "spikes_alt",
            Tile::SPIKESSLOPED => "spikes_sloped",
            Tile::WALLSPIKESL => "spikes_wall_l",
            Tile::WALLSPIKESR => "spikes_wall_r",
            Tile::WALLSPIKESLR => "spikes_wall_lr",
            Tile::WALLSPIKESB => "spikes_wall_b",
            Tile::WALLSPIKESLB => "spikes_wall_lb",
            Tile::WALLSPIKESRB => "spikes_wall_rb",
            Tile::WALLSPIKESTB => "spikes_wall_tb",
            Tile::WALLSPIKESRLTB => "spikes_wall_rltb",
            Tile::WALLSPIKESRTB => "spikes_wall_rtb",
            Tile::WALLSPIKESLTB => "spikes_wall_ltb",
            Tile::WALLSPIKEST => "spikes_wall_t",
            Tile::WALLSPIKESLT => "spikes_wall_lt",
            Tile::WALLSPIKESRT => "spikes_wall_rt",
            Tile::WALLSPIKESRLB => "spikes_wall_rlb",
            Tile::WALLSPIKESRLT => "spikes_wall_rlt",
            Tile::ARROWRIGHT => "arrow_right",
            Tile::ARROWLEFT => "arrow_left",
            Tile::ARROWUP => "arrow_up",
            Tile::ARROWDOWN => "arrow_down",
            Tile::EXIT => "exit",
            Tile::CAMPAIGNTRAILWALKWAY => "campaign_trail_walkway",
            Tile::CAMPAIGNTRAILMAPENTRYPOINT { .. } => "campaign_trail_entry_point",
            Tile::CAMPAIGNTRAILBORDER => "campaign_trail_border",
            Tile::CAMPAIGNTRAILLOCKEDMAPENTRYPOINT { .. } => "campaign_trail_locked_entry_point",
            Tile::MESSAGE { .. } => "message",
            Tile::TELEPORTENTRY { .. } => "teleport_entry",
            Tile::TELEPORTEXIT { .. } => "teleport_exit",
            Tile::COBBLEROOFSLOPEL => "cobblestone_roof_l",
            Tile::COBBLEROOFSLOPER => "cobblestone_roof_r",
            Tile::VENDINGMACHINEL => "vending_machine_l",
            Tile::VENDINGMACHINER => "vending_machine_r",
            Tile::STARCRYSTAL => "star_crystal",
        }
    }

    /// The human-readable name of this tile.
    fn display_name(&self) -> (r: &str)
        ensures
            r@ == self.spec_display_name(),
    {
        match self {
                Tile::AIR => "Air",
                Tile::WALL => "Wall",
                Tile::WALLNATURE => "Wall (Nature)",
                Tile::WALLCOBBLE => "Wall (Cobblestone)",
                Tile::WALLSMOOTH => "Wall (Smooth)",
                Tile::WALLCHISELED => "Wall (Chiseled)",
                Tile::SLOPE => "Slope",
                Tile::PILLAR => "Pillar",
                Tile::PLAYERSPAWN => "Player Spawn",
                Tile::COIN => "Coin",
                Tile::LADDER => "Ladder",
                Tile::LADDERNATURE => "Ladder with Nature Slope",
                Tile::LADDERSLOPE => "Ladder with Slope",
                Tile::SPIKES => "Spikes",
                Tile::SPIKESALT => "Spikes (Alt Texture)",
                Tile::SPIKESSLOPED => "Sloped Spikes",
                Tile::WALLSPIKESL => "L Wall Spikes",
                Tile::WALLSPIKESR => "R Wall Spikes",
                Tile::WALLSPIKESLR => "LR Wall Spikes",
                Tile::WALLSPIKESB => "B Wall Spikes",
                Tile::WALLSPIKESLB => "LB Wall Spikes",
                Tile::WALLSPIKESRB => "RB Wall Spikes",
                Tile::WALLSPIKESTB => "TB Wall Spikes",
                Tile::WALLSPIKESRLTB => "RLTB Wall Spikes",
                Tile::WALLSPIKESRTB => "RTB Wall Spikes",
                Tile::WALLSPIKESLTB => "LTB Wall Spikes",
                Tile::WALLSPIKEST => "T Wall Spikes",
                Tile::WALLSPIKESLT => "LT Wall Spikes",
                Tile::WALLSPIKESRT => "RT Wall Spikes",
                Tile::WALLSPIKESRLB => "RLB Wall Spikes",
                Tile::WALLSPIKESRLT => "RLT Wall Spikes",
                Tile::DOOR => "Door",
                Tile::OPENDOOR => "Open Door",
                Tile::KEY => "Key",
                Tile::ARROWRIGHT => "Arrow Right",
                Tile::ARROWLEFT => "Arrow Left",
                Tile::ARROWUP => "Arrow Up",
                Tile::ARROWDOWN => "Arrow Down",
                Tile::EXIT => "Exit",
                Tile::CAMPAIGNTRAILWALKWAY => "Campaign Trail Walkway",
                Tile::CAMPAIGNTRAILMAPENTRYPOINT { .. } => "Campaign Trail Map Entry Point",
                Tile::CAMPAIGNTRAILBORDER => "Campaign Trail Border",
                Tile::CAMPAIGNTRAILLOCKEDMAPENTRYPOINT { .. } => "Campaign Trail Locked Map Entry Point",
                Tile::MESSAGE { .. } => "Message",
                Tile::TELEPORTENTRY { .. } => "Teleport Entry",
                Tile::TELEPORTEXIT { .. } => "Teleport Exit",
                Tile::COBBLEROOFSLOPEL => "Cobblestone Roof L",
                Tile::COBBLEROOFSLOPER => "Cobblestone Roof R",
                Tile::VENDINGMACHINEL => "L Vending Machine",
                Tile::VENDINGMACHINER => "R Vending Machine",
                Tile::STARCRYSTAL => "Star Crystal",
        }
    }

    /// The human-readable name of this tile, as a new string.
    pub fn to_string(&self) -> (r: String)
        ensures
            r@ == self.spec_display_name(),
    {
        String::from_str(self.display_name())
    }

    /// Serialize a map tile into a byte.
    ///
    /// Since this is a fixed value for each tile defined in the map format, we explicitly define it here.
    pub fn to_bytes(&self) -> (r: u8)
        ensures
            r == self.spec_to_bytes(),
    {
        match self {
            Tile::AIR => 0x00,
            Tile::WALL => 0x01,
            Tile::WALLNATURE => 0x02,
            Tile::WALLCOBBLE => 0x03,
            Tile::WALLSMOOTH => 0x04,
            Tile::WALLCHISELED => 0x05,
            Tile::SLOPE => 0x06,
            Tile::PILLAR => 0x07,
            Tile::PLAYERSPAWN => 0x10,
            Tile::DOOR => 0x20,
            Tile::OPENDOOR => 0x21,
            Tile::COIN => 0x30,
            Tile::KEY => 0x31,
            Tile::STARCRYSTAL => 0x36,
            Tile::LADDER => 0x22,
            Tile::LADDERNATURE => 0x23,
            Tile::LADDERSLOPE => 0x24,
            Tile::SPIKES => 0x40,
            Tile::SPIKESALT => 0x41,
            Tile::SPIKESSLOPED => 0x42,
            Tile::WALLSPIKEST => 0x5A,
            Tile::WALLSPIKESL => 0x50,
            Tile::WALLSPIKESR => 0x51,
            Tile::WALLSPIKESLR => 0x52,
            Tile::WALLSPIKESB => 0x53,
            Tile::WALLSPIKESLB => 0x54,
            Tile::WALLSPIKESRB => 0x55,
            Tile::WALLSPIKESTB => 0x56,
            Tile::WALLSPIKESLT => 0x5B,
            Tile::WALLSPIKESRT => 0x5C,
            Tile::WALLSPIKESRLTB => 0x57,
            Tile::WALLSPIKESRTB => 0x58,
            Tile::WALLSPIKESRLB => 0x5D,
            Tile::WALLSPIKESRLT => 0x5E,
            Tile::WALLSPIKESLTB => 0x59,
            Tile::COBBLEROOFSLOPEL => 0x08,
            Tile::COBBLEROOFSLOPER => 0x09,
            Tile::ARROWRIGHT => 0x32,
            Tile::ARROWLEFT => 0x33,
            Tile::ARROWUP => 0x34,
            Tile::ARROWDOWN => 0x35,
            Tile::EXIT => 0x11,
            Tile::CAMPAIGNTRAILWALKWAY => 0x60,
            Tile::CAMPAIGNTRAILMAPENTRYPOINT { .. } => 0x61,
            Tile::CAMPAIGNTRAILBORDER => 0x62,
            Tile::CAMPAIGNTRAILLOCKEDMAPENTRYPOINT { .. } => 0x63,
            Tile::MESSAGE { .. } => 0x70,
            Tile::TELEPORTENTRY { teleport_id } => 0x80 + teleport_id.const_to_u8(),
            Tile::TELEPORTEXIT { teleport_id } => 0x84 + teleport_id.const_to_u8(),
            Tile::VENDINGMACHINEL => 0x90,
            Tile::VENDINGMACHINER => 0x91,
        }
    }

    /// Read a map tile from its byte, if the byte stands for a tile.
    pub fn from_bytes(byte: u8) -> (r: Option<Self>)
        ensures
            r is Some <==> Tile::is_tile_byte(byte),
            r matches Some(t) ==> t.spec_to_bytes() == byte && t.has_default_payload(),
    {
        match byte {
            0x00 => Some(Tile::AIR),
            0x01 => Some(Tile::WALL),
            0x02 => Some(Tile::WALLNATURE),
            0x03 => Some(Tile::WALLCOBBLE),
            0x04 => Some(Tile::WALLSMOOTH),
            0x05 => Some(Tile::WALLCHISELED),
            0x06 => Some(Tile::SLOPE),
            0x07 => Some(Tile::PILLAR),
            0x10 => Some(Tile::PLAYERSPAWN),
            0x20 => Some(Tile::DOOR),
            0x21 => Some(Tile::OPENDOOR),
            0x30 => Some(Tile::COIN),
            0x31 => Some(Tile::KEY),
            0x36 => Some(Tile::STARCRYSTAL),
            0x22 => Some(Tile::LADDER),
            0x23 => Some(Tile::LADDERNATURE),
            0x24 => Some(Tile::LADDERSLOPE),
            0x40 => Some(Tile::SPIKES),
            0x41 => Some(Tile::SPIKESALT),
            0x42 => Some(Tile::SPIKESSLOPED),
            0x5A => Some(Tile::WALLSPIKEST),
            0x50 => Some(Tile::WALLSPIKESL),
            0x51 => Some(Tile::WALLSPIKESR),
            0x52 => Some(Tile::WALLSPIKESLR),
            0x53 => Some(Tile::WALLSPIKESB),
            0x54 => Some(Tile::WALLSPIKESLB),
            0x55 => Some(Tile::WALLSPIKESRB),
            0x56 => Some(Tile::WALLSPIKESTB),
            0x5B => Some(Tile::WALLSPIKESLT),
            0x5C => Some(Tile::WALLSPIKESRT),
            0x57 => Some(Tile::WALLSPIKESRLTB),
            0x58 => Some(Tile::WALLSPIKESRTB),
            0x5D => Some(Tile::WALLSPIKESRLB),
            0x5E => Some(Tile::WALLSPIKESRLT),
            0x59 => Some(Tile::WALLSPIKESLTB),
            0x08 => Some(Tile::COBBLEROOFSLOPEL),
            0x09 => Some(Tile::COBBLEROOFSLOPER),
            0x32 => Some(Tile::ARROWRIGHT),
            0x33 => Some(Tile::ARROWLEFT),
            0x34 => Some(Tile::ARROWUP),
            0x35 => Some(Tile::ARROWDOWN),
            0x11 => Some(Tile::EXIT),
            0x60 => Some(Tile::CAMPAIGNTRAILWALKWAY),
            0x61 => Some(Tile::CAMPAIGNTRAILMAPENTRYPOINT { interaction: InteractionKind::LaunchMap { map_name: String::new() } }),
            0x62 => Some(Tile::CAMPAIGNTRAILBORDER),
            0x63 => Some(Tile::CAMPAIGNTRAILLOCKEDMAPENTRYPOINT { interaction: InteractionKind::LaunchMap { map_name: String::new() } }),
            0x70 => Some(Tile::MESSAGE { message_id: 0 }),
            0x90 => Some(Tile::VENDINGMACHINEL),
            0x91 => Some(Tile::VENDINGMACHINER),
            0x80..=0x83 => Some(Tile::TELEPORTENTRY { teleport_id: TeleportId::const_from_u8(byte - 0x80) }),
            0x84..=0x87 => Some(Tile::TELEPORTEXIT { teleport_id: TeleportId::const_from_u8(byte - 0x84) }),
            _ => None,
        }
    }

    /// Whether this is an opened door.
    pub fn is_open_door(&self) -> (r: bool)
        ensures
            r <==> *self == Tile::OPENDOOR,
    {
        match self {
            Tile::OPENDOOR => true,
            _ => false,
        }
    }

    /// Whether this is air.
    pub fn is_air(&self) -> (r: bool)
        ensures
            r <==> *self == Tile::AIR,
    {
        match self {
            Tile::AIR => true,
            _ => false,
        }
    }

    /// The place of each tile's variant in the list of all tiles, in the order of their
    /// declaration.
    pub open spec fn iter_position(self) -> int {
        match self {
            Tile::AIR => 0,
            Tile::WALL => 1,
            Tile::WALLNATURE => 2,
            Tile::WALLCOBBLE => 3,
            Tile::WALLSMOOTH => 4,
            Tile::WALLCHISELED => 5,
            Tile::SLOPE => 6,
            Tile::PILLAR => 7,
            Tile::PLAYERSPAWN => 8,
            Tile::DOOR => 9,
            Tile::OPENDOOR => 10,
            Tile::COIN => 11,
            Tile::KEY => 12,
            Tile::STARCRYSTAL => 13,
            Tile::LADDER => 14,
            Tile::LADDERNATURE => 15,
            Tile::LADDERSLOPE => 16,
            Tile::SPIKES => 17,
            Tile::SPIKESALT => 18,
            Tile::SPIKESSLOPED => 19,
            Tile::WALLSPIKEST => 20,
            Tile::WALLSPIKESL => 21,
            Tile::WALLSPIKESR => 22,
            Tile::WALLSPIKESLR => 23,
            Tile::WALLSPIKESB => 24,
            Tile::WALLSPIKESLB => 25,
            Tile::WALLSPIKESRB => 26,
            Tile::WALLSPIKESTB => 27,
            Tile::WALLSPIKESLT => 28,
            Tile::WALLSPIKESRT => 29,
            Tile::WALLSPIKESRLTB => 30,
            Tile::WALLSPIKESRTB => 31,
            Tile::WALLSPIKESRLB => 32,
            Tile::WALLSPIKESRLT => 33,
            Tile::WALLSPIKESLTB => 34,
            Tile::COBBLEROOFSLOPEL => 35,
            Tile::COBBLEROOFSLOPER => 36,
            Tile::ARROWRIGHT => 37,
            Tile::ARROWLEFT => 38,
            Tile::ARROWUP => 39,
            Tile::ARROWDOWN => 40,
            Tile::EXIT => 41,
            Tile::CAMPAIGNTRAILWALKWAY => 42,
            Tile::CAMPAIGNTRAILMAPENTRYPOINT { .. } => 43,
            Tile::CAMPAIGNTRAILBORDER => 44,
            Tile::CAMPAIGNTRAILLOCKEDMAPENTRYPOINT { .. } => 45,
            Tile::MESSAGE { .. } => 46,
            Tile::TELEPORTENTRY { .. } => 47,
            Tile::TELEPORTEXIT { .. } => 48,
            Tile::VENDINGMACHINEL => 49,
            Tile::VENDINGMACHINER => 50,
        }
    }

    /// All tiles, in the order of their declaration, each with its default payload: a message
    /// tile of message 0, campaign entry points of the unnamed map, and teleports of number one.
    pub fn iter() -> (r: Vec<Tile>)
        ensures
            r@.len() == Tile::COUNT,
            forall|i: int| 0 <= i < r@.len() ==> (#[trigger] r@[i]).has_default_payload() && r@[i].iter_position() == i,
            forall|i: int|
                0 <= i < r@.len() ==> ((#[trigger] r@[i]) matches Tile::TELEPORTENTRY { teleport_id } ==> teleport_id
                    == TeleportId::ONE),
            forall|i: int|
                0 <= i < r@.len() ==> ((#[trigger] r@[i]) matches Tile::TELEPORTEXIT { teleport_id } ==> teleport_id
                    == TeleportId::ONE),
            forall|t: Tile| 0 <= #[trigger] t.iter_position() < r@.len() && r@[t.iter_position()].same_variant(t),
    {
        let r = vec![
            Tile::AIR,
            Tile::WALL,
            Tile::WALLNATURE,
            Tile::WALLCOBBLE,
            Tile::WALLSMOOTH,
            Tile::WALLCHISELED,
            Tile::SLOPE,
            Tile::PILLAR,
            Tile::PLAYERSPAWN,
            Tile::DOOR,
            Tile::OPENDOOR,
            Tile::COIN,
            Tile::KEY,
            Tile::STARCRYSTAL,
            Tile::LADDER,
            Tile::LADDERNATURE,
            Tile::LADDERSLOPE,
            Tile::SPIKES,
            Tile::SPIKESALT,
            Tile::SPIKESSLOPED,
            Tile::WALLSPIKEST,
            Tile::WALLSPIKESL,
            Tile::WALLSPIKESR,
            Tile::WALLSPIKESLR,
            Tile::WALLSPIKESB,
            Tile::WALLSPIKESLB,
            Tile::WALLSPIKESRB,
            Tile::WALLSPIKESTB,
            Tile::WALLSPIKESLT,
            Tile::WALLSPIKESRT,
            Tile::WALLSPIKESRLTB,
            Tile::WALLSPIKESRTB,
            Tile::WALLSPIKESRLB,
            Tile::WALLSPIKESRLT,
            Tile::WALLSPIKESLTB,
            Tile::COBBLEROOFSLOPEL,
            Tile::COBBLEROOFSLOPER,
            Tile::ARROWRIGHT,
            Tile::ARROWLEFT,
            Tile::ARROWUP,
            Tile::ARROWDOWN,
            Tile::EXIT,
            Tile::CAMPAIGNTRAILWALKWAY,
            Tile::CAMPAIGNTRAILMAPENTRYPOINT { interaction: InteractionKind::LaunchMap { map_name: String::new() } },
            Tile::CAMPAIGNTRAILBORDER,
            Tile::CAMPAIGNTRAILLOCKEDMAPENTRYPOINT { interaction: InteractionKind::LaunchMap { map_name: String::new() } },
            Tile::MESSAGE { message_id: 0 },
            Tile::TELEPORTENTRY { teleport_id: TeleportId::ONE },
            Tile::TELEPORTEXIT { teleport_id: TeleportId::ONE },
            Tile::VENDINGMACHINEL,
            Tile::VENDINGMACHINER
        ];
        proof {
            assert forall|t: Tile| 0 <= #[trigger] t.iter_position() < r@.len() && r@[t.iter_position()].same_variant(t) by {
                lemma_iter_position(t, r@[t.iter_position()]);
            }
        }
        r
    }
}

/// Whether the side `d` is in the list `v`.
pub(crate) fn directions_contain(v: &Vec<FromDirection>, d: &FromDirection) -> (r: bool)
    ensures
        r == v@.contains(*d),
{
    let mut i: usize = 0;
    while i < v.len()
        invariant
            i <= v.len(),
            forall|j: int| 0 <= j < i ==> v@[j] != *d,
        decreases v.len() - i,
    {
        if v[i] == *d {
            return true;
        }
        i += 1;
    }
    false
}

/// Approaching a tile from a side where it is deadly never counts as a collision, and for
/// spikes exactly the sides that do not kill are those that collide.
pub proof fn lemma_deadly_sides_do_not_collide(t: Tile, d: FromDirection)
    ensures
        t.spec_is_deadly_from(d) ==> !t.spec_can_collide_from(d),
        t.spec_kind() is DEADLY ==> (t.spec_can_collide_from(d) <==> !t.spec_is_deadly_from(d)),
{
}

/// Writing a tile as its byte and reading the byte back gives the same tile, for every tile
/// that a map file can hold (a message tile of message 0, a campaign entry point of the
/// unnamed map, or any other tile); and each such byte is read as a tile.
pub proof fn lemma_tile_byte_round_trip(t: Tile, read: Tile)
    requires
        t.has_default_payload(),
        read.has_default_payload(),
        read.spec_to_bytes() == t.spec_to_bytes(),
    ensures
        read.eqv(t),
        Tile::is_tile_byte(t.spec_to_bytes()),
{
}

/// Exactly the player spawn tile has the player spawn kind, and it is written as byte 0x10.
pub proof fn lemma_spawn_byte(t: Tile)
    ensures
        (t.spec_kind() is PLAYERSPAWN) <==> t.spec_to_bytes() == 0x10,
        (t.spec_kind() is PLAYERSPAWN) <==> t == Tile::PLAYERSPAWN,
{
}

/// Textures of the user interface.
pub enum UITiles {
    /// Texture for the Edit Map Button
    EDITBUTTON,
    /// Texture for the Play Button
    PLAYBUTTON,
    /// Texture for the Delete Button
    DELETEBUTTON,
    /// Texture for the Back Button
    BACKBUTTON,
    /// Texture for the Save Button
    SAVEBUTTON,
    /// Texture for the Replay Button
    REPLAYBUTTON,
    /// Texture for the Discard Highscore Button
    DISCARDBUTTON,
    /// Texture for the Create new Map Button
    CREATENEWBUTTON,
}

impl UITiles {
    /// The sprite of each button texture.
    pub open spec fn spec_atlas_index(self) -> AtlasIndex {
        match self {
            UITiles::EDITBUTTON => 22,
            UITiles::PLAYBUTTON => 21,
            UITiles::DELETEBUTTON => 20,
            UITiles::BACKBUTTON => 19,
            UITiles::SAVEBUTTON => 31,
            UITiles::CREATENEWBUTTON => 63,
            UITiles::REPLAYBUTTON => 47,
            UITiles::DISCARDBUTTON => 15,
        }
    }

    pub fn atlas_index(&self) -> (r: Option<AtlasIndex>)
        ensures
            r == Some(self.spec_atlas_index()),
    {
        Some(match *self {
            UITiles::EDITBUTTON => 22,
            UITiles::PLAYBUTTON => 21,
            UITiles::DELETEBUTTON => 20,
            UITiles::BACKBUTTON => 19,
            UITiles::SAVEBUTTON => 31,
            UITiles::CREATENEWBUTTON => 63,
            UITiles::REPLAYBUTTON => 47,
            UITiles::DISCARDBUTTON => 15,
        })
    }
}


/// A character that string identifiers are made of: a lower-case ASCII letter or `_`.
pub open spec fn is_id_char(c: char) -> bool {
    c == '_' || ('a' <= c && c <= 'z')
}

/// Every character of `s` is one that string identifiers are made of.
pub open spec fn is_id_text(s: Seq<char>) -> bool
    decreases s.len(),
{
    s.len() == 0 || (is_id_char(s[0]) && is_id_text(s.drop_first()))
}

/// Where `is_id_text(s)` holds, each character of `s` is one that identifiers are made of.
proof fn lemma_id_text_chars(s: Seq<char>)
    requires
        is_id_text(s),
    ensures
        forall|i: int| 0 <= i < s.len() ==> is_id_char(#[trigger] s[i]),
    decreases s.len(),
{
    if s.len() > 0 {
        lemma_id_text_chars(s.drop_first());
        assert forall|i: int| 0 <= i < s.len() implies is_id_char(#[trigger] s[i]) by {
            if i > 0 {
                assert(s[i] == s.drop_first()[i - 1]);
            }
        }
    }
}

/// Every tile's string identifier is not empty and is made of identifier characters.
proof fn lemma_str_id_text(t: Tile)
    ensures
        t.spec_str_id().len() > 0,
        is_id_text(t.spec_str_id()),
{
    reveal_strlit("air");
    reveal_strlit("wall");
    reveal_strlit("wallnature");
    reveal_strlit("wallcobble");
    reveal_strlit("wallsmooth");
    reveal_strlit("wallchiseled");
    reveal_strlit("slope");
    reveal_strlit("pillar");
    reveal_strlit("playerspawn");
    reveal_strlit("door");
    reveal_strlit("opendoor");
    reveal_strlit("coin");
    reveal_strlit("key");
    reveal_strlit("ladder");
    reveal_strlit("laddernature");
    reveal_strlit("ladderslope");
    reveal_strlit("spikes");
    reveal_strlit("spikes_alt");
    reveal_strlit("spikes_sloped");
    reveal_strlit("spikes_wall_l");
    reveal_strlit("spikes_wall_r");
    reveal_strlit("spikes_wall_lr");
    reveal_strlit("spikes_wall_b");
    reveal_strlit("spikes_wall_lb");
    reveal_strlit("spikes_wall_rb");
    reveal_strlit("spikes_wall_tb");
    reveal_strlit("spikes_wall_rltb");
    reveal_strlit("spikes_wall_rtb");
    reveal_strlit("spikes_wall_ltb");
    reveal_strlit("spikes_wall_t");
    reveal_strlit("spikes_wall_lt");
    reveal_strlit("spikes_wall_rt");
    reveal_strlit("spikes_wall_rlb");
    reveal_strlit("spikes_wall_rlt");
    reveal_strlit("arrow_right");
    reveal_strlit("arrow_left");
    reveal_strlit("arrow_up");
    reveal_strlit("arrow_down");
    reveal_strlit("exit");
    reveal_strlit("campaign_trail_walkway");
    reveal_strlit("campaign_trail_entry_point");
    reveal_strlit("campaign_trail_border");
    reveal_strlit("campaign_trail_locked_entry_point");
    reveal_strlit("message");
    reveal_strlit("teleport_entry");
    reveal_strlit("teleport_exit");
    reveal_strlit("cobblestone_roof_l");
    reveal_strlit("cobblestone_roof_r");
    reveal_strlit("vending_machine_l");
    reveal_strlit("vending_machine_r");
    reveal_strlit("star_crystal");
    reveal_with_fuel(is_id_text, 34);
}

/// The length and the last three characters of a text.
spec fn id_fingerprint(s: Seq<char>) -> (nat, char, char, char) {
    (s.len(), s[s.len() - 1], s[s.len() - 2], s[s.len() - 3])
}

/// The length and the last three characters of each tile's string identifier.
spec fn tile_fingerprint(t: Tile) -> (nat, char, char, char) {
    match t {
        Tile::AIR => (3, 'r', 'i', 'a'),
        Tile::WALL => (4, 'l', 'l', 'a'),
        Tile::WALLNATURE => (10, 'e', 'r', 'u'),
        Tile::WALLCOBBLE => (10, 'e', 'l', 'b'),
        Tile::WALLSMOOTH => (10, 'h', 't', 'o'),
        Tile::WALLCHISELED => (12, 'd', 'e', 'l'),
        Tile::SLOPE => (5, 'e', 'p', 'o'),
        Tile::PILLAR => (6, 'r', 'a', 'l'),
        Tile::PLAYERSPAWN => (11, 'n', 'w', 'a'),
        Tile::DOOR => (4, 'r', 'o', 'o'),
        Tile::OPENDOOR => (8, 'r', 'o', 'o'),
        Tile::COIN => (4, 'n', 'i', 'o'),
        Tile::KEY => (3, 'y', 'e', 'k'),
        Tile::LADDER => (6, 'r', 'e', 'd'),
        Tile::LADDERNATURE => (12, 'e', 'r', 'u'),
        Tile::LADDERSLOPE => (11, 'e', 'p', 'o'),
        Tile::SPIKES => (6, 's', 'e', 'k'),
        Tile::SPIKESALT => (10, 't', 'l', 'a'),
        Tile::SPIKESSLOPED => (13, 'd', 'e', 'p'),
        Tile::WALLSPIKESL => (13, 'l', '_', 'l'),
        Tile::WALLSPIKESR => (13, 'r', '_', 'l'),
        Tile::WALLSPIKESLR => (14, 'r', 'l', '_'),
        Tile::WALLSPIKESB => (13, 'b', '_', 'l'),
        Tile::WALLSPIKESLB => (14, 'b', 'l', '_'),
        Tile::WALLSPIKESRB => (14, 'b', 'r', '_'),
        Tile::WALLSPIKESTB => (14, 'b', 't', '_'),
        Tile::WALLSPIKESRLTB => (16, 'b', 't', 'l'),
        Tile::WALLSPIKESRTB => (15, 'b', 't', 'r'),
        Tile::WALLSPIKESLTB => (15, 'b', 't', 'l'),
        Tile::WALLSPIKEST => (13, 't', '_', 'l'),
        Tile::WALLSPIKESLT => (14, 't', 'l', '_'),
        Tile::WALLSPIKESRT => (14, 't', 'r', '_'),
        Tile::WALLSPIKESRLB => (15, 'b', 'l', 'r'),
        Tile::WALLSPIKESRLT => (15, 't', 'l', 'r'),
        Tile::ARROWRIGHT => (11, 't', 'h', 'g'),
        Tile::ARROWLEFT => (10, 't', 'f', 'e'),
        Tile::ARROWUP => (8, 'p', 'u', '_'),
        Tile::ARROWDOWN => (10, 'n', 'w', 'o'),
        Tile::EXIT => (4, 't', 'i', 'x'),
        Tile::CAMPAIGNTRAILWALKWAY => (22, 'y', 'a', 'w'),
        Tile::CAMPAIGNTRAILMAPENTRYPOINT { .. } => (26, 't', 'n', 'i'),
        Tile::CAMPAIGNTRAILBORDER => (21, 'r', 'e', 'd'),
        Tile::CAMPAIGNTRAILLOCKEDMAPENTRYPOINT { .. } => (33, 't', 'n', 'i'),
        Tile::MESSAGE { .. } => (7, 'e', 'g', 'a'),
        Tile::TELEPORTENTRY { .. } => (14, 'y', 'r', 't'),
        Tile::TELEPORTEXIT { .. } => (13, 't', 'i', 'x'),
        Tile::COBBLEROOFSLOPEL => (18, 'l', '_', 'f'),
        Tile::COBBLEROOFSLOPER => (18, 'r', '_', 'f'),
        Tile::VENDINGMACHINEL => (17, 'l', '_', 'e'),
        Tile::VENDINGMACHINER => (17, 'r', '_', 'e'),
        Tile::STARCRYSTAL => (12, 'l', 'a', 't'),
    }
}

/// The fingerprint of each tile's string identifier is the one `tile_fingerprint` lists.
proof fn lemma_str_id_fingerprint(t: Tile)
    ensures
        id_fingerprint(t.spec_str_id()) == tile_fingerprint(t),
{
    reveal_strlit("air");
    reveal_strlit("wall");
    reveal_strlit("wallnature");
    reveal_strlit("wallcobble");
    reveal_strlit("wallsmooth");
    reveal_strlit("wallchiseled");
    reveal_strlit("slope");
    reveal_strlit("pillar");
    reveal_strlit("playerspawn");
    reveal_strlit("door");
    reveal_strlit("opendoor");
    reveal_strlit("coin");
    reveal_strlit("key");
    reveal_strlit("ladder");
    reveal_strlit("laddernature");
    reveal_strlit("ladderslope");
    reveal_strlit("spikes");
    reveal_strlit("spikes_alt");
    reveal_strlit("spikes_sloped");
    reveal_strlit("spikes_wall_l");
    reveal_strlit("spikes_wall_r");
    reveal_strlit("spikes_wall_lr");
    reveal_strlit("spikes_wall_b");
    reveal_strlit("spikes_wall_lb");
    reveal_strlit("spikes_wall_rb");
    reveal_strlit("spikes_wall_tb");
    reveal_strlit("spikes_wall_rltb");
    reveal_strlit("spikes_wall_rtb");
    reveal_strlit("spikes_wall_ltb");
    reveal_strlit("spikes_wall_t");
    reveal_strlit("spikes_wall_lt");
    reveal_strlit("spikes_wall_rt");
    reveal_strlit("spikes_wall_rlb");
    reveal_strlit("spikes_wall_rlt");
    reveal_strlit("arrow_right");
    reveal_strlit("arrow_left");
    reveal_strlit("arrow_up");
    reveal_strlit("arrow_down");
    reveal_strlit("exit");
    reveal_strlit("campaign_trail_walkway");
    reveal_strlit("campaign_trail_entry_point");
    reveal_strlit("campaign_trail_border");
    reveal_strlit("campaign_trail_locked_entry_point");
    reveal_strlit("message");
    reveal_strlit("teleport_entry");
    reveal_strlit("teleport_exit");
    reveal_strlit("cobblestone_roof_l");
    reveal_strlit("cobblestone_roof_r");
    reveal_strlit("vending_machine_l");
    reveal_strlit("vending_machine_r");
    reveal_strlit("star_crystal");
}

/// Each tile's string identifier is not empty and is made of lower-case ASCII letters and `_`,
/// and tiles of different variants have different identifiers.
pub proof fn lemma_str_ids_distinct(t: Tile, u: Tile)
    ensures
        t.spec_str_id().len() > 0,
        forall|i: int| 0 <= i < t.spec_str_id().len() ==> is_id_char(#[trigger] t.spec_str_id()[i]),
        t.spec_str_id() == u.spec_str_id() ==> t.same_variant(u),
{
    lemma_str_id_text(t);
    lemma_id_text_chars(t.spec_str_id());
    lemma_str_id_fingerprint(t);
    lemma_str_id_fingerprint(u);
}

/// Each tile's place in the list of all tiles is one of its places, and tiles of one variant
/// have one place, tiles of different variants different places.
pub proof fn lemma_iter_position(t: Tile, u: Tile)
    ensures
        0 <= t.iter_position() < Tile::COUNT,
        t.iter_position() == u.iter_position() <==> t.same_variant(u),
{
}

/// The string identifiers of the tiles that `Tile::iter` lists are pairwise different.
pub proof fn lemma_iter_str_ids_distinct(tiles: Seq<Tile>)
    requires
        forall|i: int| 0 <= i < tiles.len() ==> (#[trigger] tiles[i]).iter_position() == i,
    ensures
        forall|i: int, j: int|
            0 <= i < j < tiles.len() ==> (#[trigger] tiles[i]).spec_str_id() != (#[trigger] tiles[j]).spec_str_id(),
{
    assert forall|i: int, j: int| 0 <= i < j < tiles.len() implies (#[trigger] tiles[i]).spec_str_id() != (
    #[trigger] tiles[j]).spec_str_id() by {
        lemma_str_ids_distinct(tiles[i], tiles[j]);
        lemma_iter_position(tiles[i], tiles[j]);
    }
}

/// The letter by which the identifier of wall spikes names a side: `t` for the top, which a
/// player coming from the north meets, `b` for the bottom, `l` for the left (west) and `r` for
/// the right (east).
pub open spec fn side_letter(d: FromDirection) -> char {
    match d {
        FromDirection::FROMNORTH => 't',
        FromDirection::FROMSOUTH => 'b',
        FromDirection::FROMWEST => 'l',
        FromDirection::FROMEAST => 'r',
    }
}

/// Some character of `id` from its `i`-th on is `c`.
pub open spec fn names_side(id: Seq<char>, i: int, c: char) -> bool
    decreases id.len() - i,
{
    if i < 0 || i >= id.len() {
        false
    } else if id[i] == c {
        true
    } else {
        names_side(id, i + 1, c)
    }
}

/// A list of at most four sides holds `d` exactly when one of its places does.
proof fn lemma_sides_contain(from: Seq<FromDirection>, d: FromDirection)
    requires
        from.len() <= 4,
    ensures
        from.contains(d) <==> ((from.len() > 0 && from[0] == d) || (from.len() > 1 && from[1] == d) || (from.len() > 2
            && from[2] == d) || (from.len() > 3 && from[3] == d)),
{
    if from.contains(d) {
        let i = choose|i: int| 0 <= i < from.len() && from[i] == d;
        assert(i == 0 || i == 1 || i == 2 || i == 3);
    }
}

/// Spikes kill from the sides they point to. Wall spikes (the tiles of bytes 0x50 to 0x5E)
/// kill a player coming from exactly the sides that their identifier lists after
/// `spikes_wall_`, and block the player from every other side; so top wall spikes kill a
/// player falling onto them. Spikes (bytes 0x40 and 0x41) kill from every side, sloped spikes
/// (byte 0x42) from the north only, and no other tile kills.
pub proof fn lemma_spikes_kill_where_they_point(t: Tile, d: FromDirection)
    ensures
        0x50 <= t.spec_to_bytes() <= 0x5E ==> (t.spec_is_deadly_from(d) <==> names_side(t.spec_str_id(), 12, side_letter(d))),
        0x50 <= t.spec_to_bytes() <= 0x5E ==> (t.spec_can_collide_from(d) <==> !names_side(t.spec_str_id(), 12, side_letter(d))),
        t.spec_to_bytes() == 0x40 || t.spec_to_bytes() == 0x41 ==> t.spec_is_deadly_from(d),
        t.spec_to_bytes() == 0x42 ==> (t.spec_is_deadly_from(d) <==> d == FromDirection::FROMNORTH),
        !(0x40 <= t.spec_to_bytes() <= 0x5E) ==> !t.spec_is_deadly_from(d),
{
    reveal_strlit("spikes_wall_l");
    reveal_strlit("spikes_wall_r");
    reveal_strlit("spikes_wall_lr");
    reveal_strlit("spikes_wall_b");
    reveal_strlit("spikes_wall_lb");
    reveal_strlit("spikes_wall_rb");
    reveal_strlit("spikes_wall_tb");
    reveal_strlit("spikes_wall_rltb");
    reveal_strlit("spikes_wall_rtb");
    reveal_strlit("spikes_wall_ltb");
    reveal_strlit("spikes_wall_t");
    reveal_strlit("spikes_wall_lt");
    reveal_strlit("spikes_wall_rt");
    reveal_strlit("spikes_wall_rlb");
    reveal_strlit("spikes_wall_rlt");
    reveal_with_fuel(names_side, 6);
    if let TileKindView::DEADLY { from } = t.spec_kind() {
        lemma_sides_contain(from, d);
    }
    if let Tile::TELEPORTENTRY { teleport_id } = t {
        assert(teleport_id.spec_to_u8() <= 3);
    }
    if let Tile::TELEPORTEXIT { teleport_id } = t {
        assert(teleport_id.spec_to_u8() <= 3);
    }
}

/// What each family of tiles does to the player, by the byte that stands for the tile in a
/// map file: walls, slopes and pillars (0x01 to 0x07), the border of a campaign trail (0x62)
/// and its locked entry points (0x63) block the player from every side; air (0x00), an open
/// door (0x21), roof slopes (0x08, 0x09) and teleport exits (0x84 to 0x87) let it through;
/// ladders (0x22 to 0x24) and the walkways of a campaign trail (0x60) hold it; a coin (0x30),
/// a key (0x31) and a star crystal (0x36) are collected one at a time; arrows (0x32 to 0x35)
/// and message tiles (0x70) are decoration; a door (0x20) is a door; the exit (0x11) is the
/// exit, and the player spawn (0x10) is the spawn.
pub proof fn lemma_tile_kinds_by_byte(t: Tile, d: FromDirection)
    ensures
        0x01 <= t.spec_to_bytes() <= 0x07 || t.spec_to_bytes() == 0x62 || t.spec_to_bytes() == 0x63 ==> t.spec_kind()
            is SOLID && t.spec_can_collide_from(d),
        t.spec_to_bytes() == 0x00 || t.spec_to_bytes() == 0x21 || t.spec_to_bytes() == 0x08 || t.spec_to_bytes() == 0x09
            || 0x84 <= t.spec_to_bytes() <= 0x87 ==> t.spec_kind() is AIR && !t.spec_can_collide_from(d),
        0x22 <= t.spec_to_bytes() <= 0x24 || t.spec_to_bytes() == 0x60 ==> t.spec_kind() is LADDER,
        t.spec_to_bytes() == 0x30 ==> t.spec_kind() == (TileKindView::COLLECTIBLE { kind: CollectibleKind::Coins { amount: 1 } }),
        t.spec_to_bytes() == 0x31 ==> t.spec_kind() == (TileKindView::COLLECTIBLE { kind: CollectibleKind::Keys { amount: 1 } }),
        t.spec_to_bytes() == 0x36 ==> t.spec_kind() == (TileKindView::COLLECTIBLE {
            kind: CollectibleKind::StarCrystals { amount: 1 },
        }),
        0x32 <= t.spec_to_bytes() <= 0x35 || t.spec_to_bytes() == 0x70 ==> t.spec_kind() == (TileKindView::COLLECTIBLE {
            kind: CollectibleKind::Decorative,
        }),
        t.spec_to_bytes() == 0x20 ==> t.spec_kind() is DOOR && t.spec_can_collide_from(d),
        t.spec_to_bytes() == 0x11 ==> t.spec_kind() is EXIT && !t.spec_can_collide_from(d),
        t.spec_to_bytes() == 0x10 ==> t.spec_kind() is PLAYERSPAWN,
{
    if let Tile::TELEPORTENTRY { teleport_id } = t {
        assert(teleport_id.spec_to_u8() <= 3);
    }
    if let Tile::TELEPORTEXIT { teleport_id } = t {
        assert(teleport_id.spec_to_u8() <= 3);
    }
}

} // verus!
