//! The rules of play: what a key press, gravity, a step towards a cell, the arrival on a cell
//! and a collected item do to the player, the map and the score.
//!
//! The front end draws the game and knows where the player stands on screen; it hands these
//! functions the cells it computed and carries out what they answer.
use crate::directions::{spec_from_direction, Directions, FromDirection};
use crate::movement::Movement;
use crate::player::Player;
use crate::scoreboard::Scoreboard;
use crate::tiles::{
    directions_contain, lemma_spikes_kill_where_they_point, lemma_tile_kinds_by_byte, names_side, side_letter, CollectibleKind, InteractionKind,
    InteractionKindView, TeleportId, Tile, TileKind, TileKindView,
};
use crate::world::GameWorld;
use vstd::prelude::*;

verus! {

/// The keys that move the player.
#[derive(Debug, Clone, Copy, PartialEq, Eq, Structural)]
pub enum MoveKey {
    /// Arrow left: one step left.
    Left,
    /// Arrow up: a jump three cells high, or one step up a ladder.
    Up,
    /// Arrow right: one step right.
    Right,
    /// Arrow down: one step down.
    Down,
    /// Q: a jump two cells high and two cells to the left.
    JumpLeft,
    /// W: a jump two cells high and two cells to the right.
    JumpRight,
}

/// A movement the player asked for, to the cell (`x`, `y`).
pub open spec fn manual(direction: Directions, x: int, y: int) -> Movement {
    Movement { direction, target: (x as i32, y as i32), is_manual: true }
}

/// The movements a key asks for, from the cell (`x`, `y`), in order.
pub open spec fn key_movements(key: MoveKey, x: int, y: int, ladder: bool) -> Seq<Movement> {
    match key {
        MoveKey::Left => seq![manual(Directions::WEST, x - 1, y)],
        MoveKey::Up => if ladder {
            seq![manual(Directions::NORTH, x, y + 1)]
        } else {
            seq![
                manual(Directions::NORTH, x, y + 1),
                manual(Directions::NORTH, x, y + 2),
                manual(Directions::NORTH, x, y + 3),
            ]
        },
        MoveKey::Right => seq![manual(Directions::EAST, x + 1, y)],
        MoveKey::Down => seq![manual(Directions::SOUTH, x, y - 1)],
        MoveKey::JumpLeft => seq![
            manual(Directions::NORTH, x, y + 1),
            manual(Directions::NORTH, x, y + 2),
            manual(Directions::WEST, x - 1, y + 2),
            manual(Directions::WEST, x - 2, y + 2),
        ],
        MoveKey::JumpRight => seq![
            manual(Directions::NORTH, x, y + 1),
            manual(Directions::NORTH, x, y + 2),
            manual(Directions::EAST, x + 1, y + 2),
            manual(Directions::EAST, x + 2, y + 2),
        ],
    }
}

/// Whether a key turns the player to the right (`Some(true)`), to the left (`Some(false)`),
/// or not at all.
pub open spec fn key_turns_right(key: MoveKey) -> Option<bool> {
    match key {
        MoveKey::Left | MoveKey::JumpLeft => Some(false),
        MoveKey::Right | MoveKey::JumpRight => Some(true),
        _ => None,
    }
}

/// A ladder stands at (`x`, `y`) on the map.
pub open spec fn ladder_at(world: GameWorld, x: int, y: int) -> bool {
    world.in_bounds(x, y) && world.spec_tile(x, y).spec_kind() is LADDER
}

/// The cells a key leads to from (`x`, `y`) have coordinates of type `i32`.
pub open spec fn key_targets_fit(key: MoveKey, x: int, y: int, ladder: bool) -> bool {
    match key {
        MoveKey::Left => x - 1 >= i32::MIN,
        MoveKey::Up => if ladder {
            y + 1 <= i32::MAX
        } else {
            y + 3 <= i32::MAX
        },
        MoveKey::Right => x + 1 <= i32::MAX,
        MoveKey::Down => y - 1 >= i32::MIN,
        MoveKey::JumpLeft => x - 2 >= i32::MIN && y + 2 <= i32::MAX,
        MoveKey::JumpRight => x + 2 <= i32::MAX && y + 2 <= i32::MAX,
    }
}

/// Whether the tile is a ladder.
fn is_ladder(tile: &Tile) -> (r: bool)
    ensures
        r == (tile.spec_kind() is LADDER),
{
    match tile.kind() {
        TileKind::LADDER => true,
        _ => false,
    }
}

/// What a key press does for a player standing at `cur`: a player with movements still waiting
/// ignores it; else the key's movements are queued, the player turns as the key says, and the
/// move is counted.
pub fn press_key(
    player: &mut Player<Movement>,
    scoreboard: &mut Scoreboard,
    world: &GameWorld,
    cur: (i32, i32),
    key: MoveKey,
)
    requires
        old(player).queue().len() == 0 ==> {
            &&& key == MoveKey::Up ==> world.in_bounds(cur.0 as int, cur.1 as int)
            &&& key_targets_fit(key, cur.0 as int, cur.1 as int, ladder_at(*world, cur.0 as int, cur.1 as int))
            &&& old(scoreboard).moves < usize::MAX
        },
    ensures
        old(player).queue().len() > 0 ==> *final(player) == *old(player) && *final(scoreboard) == *old(scoreboard),
        old(player).queue().len() == 0 ==> {
            &&& final(player).queue() == key_movements(
                key,
                cur.0 as int,
                cur.1 as int,
                ladder_at(*world, cur.0 as int, cur.1 as int),
            )
            &&& final(player).faces_left() == match key_turns_right(key) {
                Some(right) => !right,
                None => old(player).faces_left(),
            }
            &&& *final(scoreboard) == (Scoreboard { moves: (old(scoreboard).moves + 1) as usize, ..*old(scoreboard) })
        },
{
    if !player.movement_queue_is_empty() {
        return;
    }
    let (x, y) = cur;
    let ghost start = player.queue();
    match key {
        MoveKey::Left => {
            player.set_face_right(false);
            player.push_movement_queue(Movement { direction: Directions::WEST, target: (x - 1, y), is_manual: true });
        },
        MoveKey::Up => {
            let ladder = match world.get(x, y) {
                Some(tile) => is_ladder(tile),
                None => false,
            };
            player.push_movement_queue(Movement { direction: Directions::NORTH, target: (x, y + 1), is_manual: true });
            // Only one step up at the end of a ladder, so that the player cannot jump off it
            if !ladder {
                player.push_movement_queue(
                    Movement { direction: Directions::NORTH, target: (x, y + 2), is_manual: true },
                );
                player.push_movement_queue(
                    Movement { direction: Directions::NORTH, target: (x, y + 3), is_manual: true },
                );
            }
        },
        MoveKey::Right => {
            player.set_face_right(true);
            player.push_movement_queue(Movement { direction: Directions::EAST, target: (x + 1, y), is_manual: true });
        },
        MoveKey::Down => {
            player.push_movement_queue(Movement { direction: Directions::SOUTH, target: (x, y - 1), is_manual: true });
        },
        MoveKey::JumpLeft => {
            player.set_face_right(false);
            player.push_movement_queue(Movement { direction: Directions::NORTH, target: (x, y + 1), is_manual: true });
            player.push_movement_queue(Movement { direction: Directions::NORTH, target: (x, y + 2), is_manual: true });
            player.push_movement_queue(Movement { direction: Directions::WEST, target: (x - 1, y + 2), is_manual: true });
            player.push_movement_queue(Movement { direction: Directions::WEST, target: (x - 2, y + 2), is_manual: true });
        },
        MoveKey::JumpRight => {
            player.set_face_right(true);
            player.push_movement_queue(Movement { direction: Directions::NORTH, target: (x, y + 1), is_manual: true });
            player.push_movement_queue(Movement { direction: Directions::NORTH, target: (x, y + 2), is_manual: true });
            player.push_movement_queue(Movement { direction: Directions::EAST, target: (x + 1, y + 2), is_manual: true });
            player.push_movement_queue(Movement { direction: Directions::EAST, target: (x + 2, y + 2), is_manual: true });
        },
    }
    assert(player.queue() =~= key_movements(key, x as int, y as int, ladder_at(*world, x as int, y as int)));
    scoreboard.moves = scoreboard.moves + 1;
}

/// The movement by which gravity pulls the player at (`x`, `y`) one cell down.
pub open spec fn fall(x: int, y: int) -> Movement {
    Movement { direction: Directions::SOUTH, target: (x as i32, (y - 1) as i32), is_manual: false }
}

/// What gravity queues for a player at (`x`, `y`) with no movement waiting: a fall where the
/// tile below can be entered from above; nothing where the player stands on or above a ladder.
pub open spec fn gravity_movements(world: GameWorld, x: int, y: int) -> Seq<Movement> {
    if ladder_at(world, x, y) || ladder_at(world, x, y - 1) {
        Seq::empty()
    } else if world.in_bounds(x, y - 1) && !world.spec_tile(x, y - 1).spec_can_collide_from(FromDirection::FROMNORTH) {
        seq![fall(x, y)]
    } else {
        Seq::empty()
    }
}

/// What gravity does to a player at `cur`: nothing while movements wait; else the player falls
/// where nothing holds it.
pub fn gravity(player: &mut Player<Movement>, world: &GameWorld, cur: (i32, i32))
    requires
        old(player).queue().len() == 0 ==> cur.1 > i32::MIN,
    ensures
        old(player).queue().len() > 0 ==> *final(player) == *old(player),
        old(player).queue().len() == 0 ==> final(player).queue() == gravity_movements(
            *world,
            cur.0 as int,
            cur.1 as int,
        ),
        final(player).faces_left() == old(player).faces_left(),
{
    if !player.movement_queue_is_empty() {
        return;
    }
    let (x, y) = cur;
    if let Some(block) = world.get(x, y - 1) {
        if !block.can_collide_from(&FromDirection::FROMNORTH) {
            player.push_movement_queue(Movement { direction: Directions::SOUTH, target: (x, y - 1), is_manual: false });
        }
    }
    // No gravity pulls the player off a ladder
    if let Some(block) = world.get(x, y) {
        if is_ladder(block) {
            player.clear_movement_queue();
        }
    }
    // The player stands on ladders
    if let Some(block) = world.get(x, y - 1) {
        if is_ladder(block) {
            player.clear_movement_queue();
        }
    }
    assert(player.queue() =~= gravity_movements(*world, x as int, y as int));
}

/// What came of checking the next movement of the player.
#[derive(Debug, Clone, Copy, PartialEq, Eq, Structural)]
pub enum StepOutcome {
    /// No movement waits.
    Idle,
    /// The movement's target lies off the map; the movement was dropped.
    OffMap,
    /// The movement runs into the tile at its target; the movement was dropped.
    Blocked,
    /// The player ran into a vending machine from a side it serves; the movement was dropped
    /// and the machine is to be opened.
    VendingMachine,
    /// The movement runs into a door, which a key opened; the movement goes on.
    DoorOpened,
    /// Nothing is in the way; the movement goes on.
    Free,
}

/// What the movement `m` towards `target` runs into.
pub open spec fn step_outcome(world: GameWorld, scoreboard: Scoreboard, m: Movement, target: (i32, i32)) -> StepOutcome {
    let (x, y) = (target.0 as int, target.1 as int);
    let from = spec_from_direction(m.direction);
    if !world.in_bounds(x, y) {
        StepOutcome::OffMap
    } else if !world.spec_tile(x, y).spec_can_collide_from(from) {
        StepOutcome::Free
    } else {
        match world.spec_tile(x, y).spec_kind() {
            TileKindView::SOLIDINTERACTABLE { from: sides, kind } => if sides.contains(from) && m.is_manual
                && kind is VendingMachine {
                StepOutcome::VendingMachine
            } else {
                StepOutcome::Blocked
            },
            TileKindView::DOOR => if scoreboard.keys > 0 {
                StepOutcome::DoorOpened
            } else {
                StepOutcome::Blocked
            },
            _ => StepOutcome::Blocked,
        }
    }
}

/// Check the next movement of the player, which goes to `target`: a movement that leaves the
/// map or runs into a tile is dropped, and running into a vending machine from a side it
/// serves, when the player asked for the movement, opens the machine; a door that the
/// movement runs into is opened with a key, if the player has one.
pub fn check_step(
    player: &mut Player<Movement>,
    world: &mut GameWorld,
    scoreboard: &mut Scoreboard,
    target: (i32, i32),
) -> (r: StepOutcome)
    ensures
        old(player).queue().len() == 0 ==> r == StepOutcome::Idle && *final(player) == *old(player) && *final(world)
            == *old(world) && *final(scoreboard) == *old(scoreboard),
        old(player).queue().len() > 0 ==> {
            let m = old(player).queue()[0];
            &&& r == step_outcome(*old(world), *old(scoreboard), m, target)
            &&& final(player).faces_left() == old(player).faces_left()
            &&& final(player).queue() == if r == StepOutcome::DoorOpened || r == StepOutcome::Free {
                old(player).queue()
            } else {
                old(player).queue().drop_first()
            }
            &&& if r == StepOutcome::DoorOpened {
                &&& *final(scoreboard) == (Scoreboard { keys: (old(scoreboard).keys - 1) as usize, ..*old(scoreboard) })
                &&& old(world).same_tiles_except(*final(world), target.0 as int, target.1 as int)
                &&& old(world).same_but_tiles(*final(world))
                &&& final(world).spec_tile(target.0 as int, target.1 as int) == Tile::OPENDOOR
            } else {
                *final(world) == *old(world) && *final(scoreboard) == *old(scoreboard)
            }
        },
{
    let m = match player.peek_movement_queue() {
        None => return StepOutcome::Idle,
        Some(m) => *m,
    };
    let from = FromDirection::from(m.direction);
    let outcome = match world.get(target.0, target.1) {
        None => StepOutcome::OffMap,
        Some(tile) => if !tile.can_collide_from(&from) {
            StepOutcome::Free
        } else {
            match tile.kind() {
                TileKind::SOLIDINTERACTABLE { from: sides, kind } => {
                    let serves = directions_contain(&sides, &from);
                    let machine = match kind {
                        InteractionKind::VendingMachine => true,
                        _ => false,
                    };
                    if serves && m.is_manual && machine {
                        StepOutcome::VendingMachine
                    } else {
                        StepOutcome::Blocked
                    }
                },
                TileKind::DOOR => if scoreboard.keys > 0 {
                    StepOutcome::DoorOpened
                } else {
                    StepOutcome::Blocked
                },
                _ => StepOutcome::Blocked,
            }
        },
    };
    match outcome {
        StepOutcome::DoorOpened => {
            world.set(target.0 as usize, target.1 as usize, Tile::OPENDOOR);
            scoreboard.keys = scoreboard.keys - 1;
        },
        StepOutcome::Free => {},
        _ => {
            player.pop_movement_queue();
        },
    }
    outcome
}

/// A door that a key opened lets every later movement into its cell through: checking a step
/// there again finds nothing in the way.
pub proof fn lemma_opened_door_lets_through(world: GameWorld, scoreboard: Scoreboard, m: Movement, target: (i32, i32))
    requires
        world.in_bounds(target.0 as int, target.1 as int),
        world.spec_tile(target.0 as int, target.1 as int) == Tile::OPENDOOR,
    ensures
        step_outcome(world, scoreboard, m, target) == StepOutcome::Free,
{
}

/// What arriving on a cell brings.
#[derive(Debug, Clone, Copy, PartialEq, Eq, Structural)]
pub enum Arrival {
    /// No movement waits.
    Idle,
    /// Nothing happens.
    Stay,
    /// The player ran into a deadly tile from a side on which it kills, and lost.
    Died,
    /// The player stepped on a teleport, which sends it to the teleport exit of this number.
    Teleport { teleport_id: TeleportId },
    /// The player reached the exit and won with this score.
    Won { score: Scoreboard },
}

/// What arriving on `target` by the movement `m` brings.
pub open spec fn arrival(world: GameWorld, scoreboard: Scoreboard, m: Movement, target: (i32, i32)) -> Arrival {
    let (x, y) = (target.0 as int, target.1 as int);
    if !world.in_bounds(x, y) {
        Arrival::Stay
    } else {
        match world.spec_tile(x, y).spec_kind() {
            TileKindView::DEADLY { from } => if from.contains(spec_from_direction(m.direction)) {
                Arrival::Died
            } else {
                Arrival::Stay
            },
            TileKindView::SPECIAL { interaction } => match interaction {
                InteractionKindView::TeleportTo { teleport_id } => Arrival::Teleport { teleport_id },
                _ => Arrival::Stay,
            },
            TileKindView::EXIT => Arrival::Won { score: scoreboard },
            _ => Arrival::Stay,
        }
    }
}

/// The player's next movement has arrived at `target`: the movement is done, a ladder there
/// drops all movements that wait (so that the player climbs rather than jumps), and the tile
/// decides what comes of it.
pub fn arrive(player: &mut Player<Movement>, world: &GameWorld, scoreboard: &Scoreboard, target: (i32, i32)) -> (r:
    Arrival)
    ensures
        old(player).queue().len() == 0 ==> r == Arrival::Idle && *final(player) == *old(player),
        old(player).queue().len() > 0 ==> {
            &&& r == arrival(*world, *scoreboard, old(player).queue()[0], target)
            &&& final(player).queue() == if ladder_at(*world, target.0 as int, target.1 as int) {
                Seq::<Movement>::empty()
            } else {
                old(player).queue().drop_first()
            }
            &&& final(player).faces_left() == old(player).faces_left()
        },
{
    let m = match player.peek_movement_queue() {
        None => return Arrival::Idle,
        Some(m) => *m,
    };
    let mut r = Arrival::Stay;
    if let Some(block) = world.get(target.0, target.1) {
        match block.kind() {
            TileKind::DEADLY { .. } => {
                if block.is_deadly_from(&FromDirection::from(m.direction)) {
                    r = Arrival::Died;
                }
            },
            TileKind::SPECIAL { interaction } => {
                if let InteractionKind::TeleportTo { teleport_id } = interaction {
                    r = Arrival::Teleport { teleport_id };
                }
            },
            TileKind::LADDER => {
                player.clear_movement_queue();
            },
            TileKind::EXIT => {
                r = Arrival::Won { score: *scoreboard };
            },
            _ => {},
        }
    }
    player.pop_movement_queue();
    r
}

/// What collecting an item adds to the score: coins, keys or star crystals; a decorative item
/// adds nothing. The amount of coins is read as an `i32` (an amount above `i32::MAX` counts as
/// negative); the new counts must fit their types, as in the game, where an overflow panics.
pub fn collect(scoreboard: &mut Scoreboard, kind: CollectibleKind)
    requires
        kind matches CollectibleKind::Coins { amount } ==> i32::MIN <= old(scoreboard).coins + (amount as i32)
            <= i32::MAX,
        kind matches CollectibleKind::Keys { amount } ==> old(scoreboard).keys + amount <= usize::MAX,
        kind matches CollectibleKind::StarCrystals { amount } ==> old(scoreboard).crystals + amount <= usize::MAX,
    ensures
        *final(scoreboard) == match kind {
            CollectibleKind::Decorative => *old(scoreboard),
            CollectibleKind::Coins { amount } => Scoreboard {
                coins: (old(scoreboard).coins + (amount as i32)) as i32,
                ..*old(scoreboard)
            },
            CollectibleKind::Keys { amount } => Scoreboard { keys: (old(scoreboard).keys + amount) as usize, ..*old(scoreboard) },
            CollectibleKind::StarCrystals { amount } => Scoreboard {
                crystals: (old(scoreboard).crystals + amount) as usize,
                ..*old(scoreboard)
            },
        },
{
    match kind {
        CollectibleKind::Decorative => {},
        CollectibleKind::Coins { amount } => scoreboard.coins = scoreboard.coins + (amount as i32),
        CollectibleKind::Keys { amount } => scoreboard.keys = scoreboard.keys + amount,
        CollectibleKind::StarCrystals { amount } => scoreboard.crystals = scoreboard.crystals + amount,
    }
}

/// Gravity pulls the player down exactly where a step down would find nothing in the way:
/// unless a ladder holds the player (it stands on one or above one), a player with no movement
/// waiting is given a fall to the cell below exactly when checking that fall finds it free. So
/// the player falls onto air, coins, keys, spikes that do not point up, the exit and every
/// other tile that does not block it from above, and never off the map.
pub proof fn lemma_gravity_pulls_where_the_step_down_is_free(world: GameWorld, scoreboard: Scoreboard, x: i32, y: i32)
    requires
        y > i32::MIN,
    ensures
        ({
            let f = Movement { direction: Directions::SOUTH, target: (x, (y - 1) as i32), is_manual: false };
            &&& ladder_at(world, x as int, y as int) || ladder_at(world, x as int, y - 1) ==> gravity_movements(
                world,
                x as int,
                y as int,
            ) == Seq::<Movement>::empty()
            &&& !ladder_at(world, x as int, y as int) && !ladder_at(world, x as int, y - 1) ==> (gravity_movements(
                world,
                x as int,
                y as int,
            ) == seq![f] <==> step_outcome(world, scoreboard, f, f.target) == StepOutcome::Free)
            &&& gravity_movements(world, x as int, y as int) == Seq::<Movement>::empty() || gravity_movements(
                world,
                x as int,
                y as int,
            ) == seq![f]
        }),
{
    let f = Movement { direction: Directions::SOUTH, target: (x, (y - 1) as i32), is_manual: false };
    assert(fall(x as int, y as int) == f);
    if gravity_movements(world, x as int, y as int) == seq![f] {
        assert(seq![f].len() == 1);
    }
}

/// Arriving on wall spikes kills exactly when the spikes point to the side the movement comes
/// from, as their identifier lists the sides: moving down onto spikes whose identifier lists
/// the top (`t`) kills, moving down onto any others does not.
pub proof fn lemma_arrival_on_wall_spikes(world: GameWorld, scoreboard: Scoreboard, m: Movement, target: (i32, i32))
    requires
        world.in_bounds(target.0 as int, target.1 as int),
        0x50 <= world.spec_tile(target.0 as int, target.1 as int).spec_to_bytes() <= 0x5E,
    ensures
        (arrival(world, scoreboard, m, target) == Arrival::Died) <==> names_side(
            world.spec_tile(target.0 as int, target.1 as int).spec_str_id(),
            12,
            side_letter(spec_from_direction(m.direction)),
        ),
{
    let t = world.spec_tile(target.0 as int, target.1 as int);
    lemma_spikes_kill_where_they_point(t, spec_from_direction(m.direction));
}

/// Arriving on the exit (byte 0x11) wins with the score as it stands; arriving on a teleport
/// entry sends the player to the teleport exit of its number; arriving on any tile that is
/// neither of these nor spikes (bytes 0x40 to 0x5E) nor a campaign entry point (whose
/// interaction decides) does nothing.
pub proof fn lemma_arrival_by_tile(world: GameWorld, scoreboard: Scoreboard, m: Movement, target: (i32, i32))
    requires
        world.in_bounds(target.0 as int, target.1 as int),
    ensures
        ({
            let t = world.spec_tile(target.0 as int, target.1 as int);
            &&& t.spec_to_bytes() == 0x11 ==> arrival(world, scoreboard, m, target) == (Arrival::Won { score: scoreboard })
            &&& t matches Tile::TELEPORTENTRY { teleport_id } ==> arrival(world, scoreboard, m, target) == (Arrival::Teleport {
                teleport_id,
            })
            &&& t.spec_to_bytes() != 0x11 && !(t is TELEPORTENTRY) && !(t is CAMPAIGNTRAILMAPENTRYPOINT) && !(0x40
                <= t.spec_to_bytes() <= 0x5E) ==> arrival(
                world,
                scoreboard,
                m,
                target,
            ) == Arrival::Stay
        }),
{
    let t = world.spec_tile(target.0 as int, target.1 as int);
    lemma_tile_kinds_by_byte(t, spec_from_direction(m.direction));
    lemma_spikes_kill_where_they_point(t, spec_from_direction(m.direction));
    if let Tile::TELEPORTEXIT { teleport_id } = t {
        assert(teleport_id.spec_to_u8() <= 3);
    }
    if let Tile::TELEPORTENTRY { teleport_id } = t {
        assert(teleport_id.spec_to_u8() <= 3);
        assert(t.spec_kind() == (TileKindView::SPECIAL {
            interaction: InteractionKindView::TeleportTo { teleport_id },
        }));
    }
}

} // verus!
