use libexodus::directions::Directions;
use libexodus::movement::Movement;
use libexodus::player::Player;
use libexodus::rules::{arrive, check_step, collect, gravity, press_key, Arrival, MoveKey, StepOutcome};
use libexodus::scoreboard::Scoreboard;
use libexodus::tiles::{CollectibleKind, TeleportId, Tile};
use libexodus::world::GameWorld;

fn manual(direction: Directions, x: i32, y: i32) -> Movement {
    Movement { direction, target: (x, y), is_manual: true }
}

fn queue(player: &mut Player<Movement>) -> Vec<Movement> {
    let mut out = Vec::new();
    while let Some(m) = player.pop_movement_queue() {
        out.push(m);
    }
    out
}

#[test]
fn keys_queue_their_movements() {
    let mut world = GameWorld::new(6, 6);
    world.set(2, 2, Tile::LADDER);
    let mut board = Scoreboard::new(0, 0, 0, 0);
    let mut player = Player::new();
    press_key(&mut player, &mut board, &world, (1, 1), MoveKey::Left);
    assert!(!player.is_facing_right());
    assert_eq!(board.moves, 1);
    // With a movement waiting, a key does nothing.
    press_key(&mut player, &mut board, &world, (1, 1), MoveKey::Right);
    assert_eq!(board.moves, 1);
    assert!(!player.is_facing_right());
    assert_eq!(queue(&mut player), vec![manual(Directions::WEST, 0, 1)]);
    press_key(&mut player, &mut board, &world, (1, 1), MoveKey::Up);
    assert_eq!(
        queue(&mut player),
        vec![manual(Directions::NORTH, 1, 2), manual(Directions::NORTH, 1, 3), manual(Directions::NORTH, 1, 4)]
    );
    // On a ladder, up is one step.
    press_key(&mut player, &mut board, &world, (2, 2), MoveKey::Up);
    assert_eq!(queue(&mut player), vec![manual(Directions::NORTH, 2, 3)]);
    press_key(&mut player, &mut board, &world, (2, 2), MoveKey::JumpRight);
    assert!(player.is_facing_right());
    assert_eq!(
        queue(&mut player),
        vec![
            manual(Directions::NORTH, 2, 3),
            manual(Directions::NORTH, 2, 4),
            manual(Directions::EAST, 3, 4),
            manual(Directions::EAST, 4, 4),
        ]
    );
    press_key(&mut player, &mut board, &world, (3, 3), MoveKey::JumpLeft);
    assert!(!player.is_facing_right());
    assert_eq!(queue(&mut player).last(), Some(&manual(Directions::WEST, 1, 5)));
    press_key(&mut player, &mut board, &world, (3, 3), MoveKey::Down);
    assert_eq!(queue(&mut player), vec![manual(Directions::SOUTH, 3, 2)]);
    assert_eq!(board, Scoreboard::new(0, 0, 6, 0));
}

#[test]
fn gravity_pulls_where_nothing_holds() {
    let mut world = GameWorld::new(4, 4);
    world.set(1, 0, Tile::WALL);
    world.set(2, 1, Tile::LADDER);
    world.set(3, 0, Tile::LADDER);
    let mut player: Player<Movement> = Player::new();
    gravity(&mut player, &world, (0, 2));
    assert_eq!(queue(&mut player), vec![Movement { direction: Directions::SOUTH, target: (0, 1), is_manual: false }]);
    gravity(&mut player, &world, (1, 1));
    assert!(player.movement_queue_is_empty());
    gravity(&mut player, &world, (2, 1));
    assert!(player.movement_queue_is_empty());
    gravity(&mut player, &world, (3, 1));
    assert!(player.movement_queue_is_empty());
    gravity(&mut player, &world, (0, 0));
    assert!(player.movement_queue_is_empty());
}

#[test]
fn steps_run_into_tiles() {
    let mut world = GameWorld::new(5, 3);
    world.set(1, 0, Tile::WALL);
    world.set(2, 0, Tile::DOOR);
    world.set(3, 0, Tile::VENDINGMACHINEL);
    let mut board = Scoreboard::new(0, 0, 0, 0);
    let mut player = Player::new();
    assert_eq!(check_step(&mut player, &mut world, &mut board, (0, 0)), StepOutcome::Idle);
    player.push_movement_queue(manual(Directions::WEST, -1, 0));
    assert_eq!(check_step(&mut player, &mut world, &mut board, (-1, 0)), StepOutcome::OffMap);
    assert!(player.movement_queue_is_empty());
    player.push_movement_queue(manual(Directions::EAST, 1, 0));
    assert_eq!(check_step(&mut player, &mut world, &mut board, (1, 0)), StepOutcome::Blocked);
    player.push_movement_queue(manual(Directions::EAST, 2, 0));
    assert_eq!(check_step(&mut player, &mut world, &mut board, (2, 0)), StepOutcome::Blocked);
    board.keys = 1;
    player.push_movement_queue(manual(Directions::EAST, 2, 0));
    assert_eq!(check_step(&mut player, &mut world, &mut board, (2, 0)), StepOutcome::DoorOpened);
    assert_eq!(board.keys, 0);
    assert_eq!(world.get(2, 0), Some(&Tile::OPENDOOR));
    assert!(!player.movement_queue_is_empty());
    assert_eq!(check_step(&mut player, &mut world, &mut board, (2, 0)), StepOutcome::Free);
    player.pop_movement_queue();
    // The left vending machine serves from the west and from above.
    player.push_movement_queue(manual(Directions::EAST, 3, 0));
    assert_eq!(check_step(&mut player, &mut world, &mut board, (3, 0)), StepOutcome::VendingMachine);
    player.push_movement_queue(Movement { direction: Directions::EAST, target: (3, 0), is_manual: false });
    assert_eq!(check_step(&mut player, &mut world, &mut board, (3, 0)), StepOutcome::Blocked);
    player.push_movement_queue(manual(Directions::WEST, 3, 0));
    assert_eq!(check_step(&mut player, &mut world, &mut board, (3, 0)), StepOutcome::Blocked);
    assert!(player.movement_queue_is_empty());
}

#[test]
fn arriving_on_tiles() {
    let mut world = GameWorld::new(5, 2);
    world.set(0, 0, Tile::EXIT);
    world.set(1, 0, Tile::SPIKES);
    world.set(2, 0, Tile::WALLSPIKESL);
    world.set(3, 0, Tile::TELEPORTENTRY { teleport_id: TeleportId::THREE });
    world.set(4, 0, Tile::LADDER);
    let board = Scoreboard::new(7, 1, 20, 0);
    let mut player = Player::new();
    assert_eq!(arrive(&mut player, &world, &board, (0, 0)), Arrival::Idle);
    player.push_movement_queue(manual(Directions::WEST, 0, 0));
    assert_eq!(arrive(&mut player, &world, &board, (0, 0)), Arrival::Won { score: board });
    assert!(player.movement_queue_is_empty());
    player.push_movement_queue(manual(Directions::SOUTH, 1, 0));
    assert_eq!(arrive(&mut player, &world, &board, (1, 0)), Arrival::Died);
    // Wall spikes on the left kill only a player coming from the west.
    player.push_movement_queue(manual(Directions::EAST, 2, 0));
    assert_eq!(arrive(&mut player, &world, &board, (2, 0)), Arrival::Died);
    player.push_movement_queue(manual(Directions::SOUTH, 2, 0));
    assert_eq!(arrive(&mut player, &world, &board, (2, 0)), Arrival::Stay);
    player.push_movement_queue(manual(Directions::EAST, 3, 0));
    assert_eq!(arrive(&mut player, &world, &board, (3, 0)), Arrival::Teleport { teleport_id: TeleportId::THREE });
    player.push_movement_queue(manual(Directions::EAST, 4, 0));
    player.push_movement_queue(manual(Directions::NORTH, 4, 1));
    assert_eq!(arrive(&mut player, &world, &board, (4, 0)), Arrival::Stay);
    assert!(player.movement_queue_is_empty());
    player.push_movement_queue(manual(Directions::NORTH, 4, 1));
    player.push_movement_queue(manual(Directions::NORTH, 4, 2));
    assert_eq!(arrive(&mut player, &world, &board, (4, 1)), Arrival::Stay);
    assert_eq!(queue(&mut player), vec![manual(Directions::NORTH, 4, 2)]);
}

#[test]
fn collecting_items() {
    let mut board = Scoreboard::new(1, 2, 3, 4);
    collect(&mut board, CollectibleKind::Coins { amount: 5 });
    collect(&mut board, CollectibleKind::Keys { amount: 1 });
    collect(&mut board, CollectibleKind::StarCrystals { amount: 2 });
    collect(&mut board, CollectibleKind::Decorative);
    assert_eq!(board, Scoreboard::new(6, 4, 3, 5));
}
