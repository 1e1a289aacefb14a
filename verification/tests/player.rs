use libexodus::highscores::highscore::Highscore;
use libexodus::player::Player;
use libexodus::scoreboard::{CoinsItem, KeysItem, Scoreboard};

/// A movement as the game makes them: a velocity, a target cell and whether the player asked
/// for it.
#[derive(Clone, Copy, Debug, PartialEq)]
struct Movement {
    velocity: (f32, f32),
    target: (i32, i32),
    is_manual: bool,
}

#[test]
fn test_movement_queue_default_empty() {
    let player: Player<Movement> = Player::new();
    assert!(player.movement_queue_is_empty());
}

#[test]
fn test_look_left() {
    let mut player: Player<Movement> = Player::new();
    player.set_face_right(false);
    assert_eq!(Player::<Movement>::atlas_index_left(), player.atlas_index());
    assert!(!player.is_facing_right());
}

#[test]
fn test_look_right() {
    let mut player: Player<Movement> = Player::new();
    player.set_face_right(true);
    assert_eq!(Player::<Movement>::atlas_index_right(), player.atlas_index());
    assert!(player.is_facing_right());
    player.set_face_right(false);
    assert_eq!(Player::<Movement>::atlas_index_left(), player.atlas_index());
    assert!(!player.is_facing_right());
}

#[test]
fn test_movement_queue_peek() {
    let mut player = Player::new();
    player.push_movement_queue(Movement { velocity: (1.0, 0.0), target: (1, 0), is_manual: true });
    assert!(!player.movement_queue_is_empty());
    player.push_movement_queue(Movement { velocity: (0.0, 1.0), target: (1, 1), is_manual: true });
    assert_eq!(player.peek_movement_queue().unwrap().velocity, (1.0, 0.0));
    assert_eq!(player.pop_movement_queue().unwrap().velocity, (1.0, 0.0));
    assert_eq!(player.peek_movement_queue().unwrap().velocity, (0.0, 1.0));
    assert_eq!(player.pop_movement_queue().unwrap().velocity, (0.0, 1.0));
    assert!(player.movement_queue_is_empty());
}

#[test]
fn test_movement_queue_clear() {
    let mut player = Player::new();
    player.push_movement_queue(Movement { velocity: (1.0, 0.0), target: (1, 0), is_manual: true });
    assert!(!player.movement_queue_is_empty());
    player.clear_movement_queue();
    assert!(player.movement_queue_is_empty());
}

#[test]
fn player_atlas_indices_and_empty_pop() {
    let mut player: Player<Movement> = Player::new();
    assert_eq!(player.atlas_index(), 255);
    assert!(player.is_facing_right());
    assert_eq!(player.pop_movement_queue(), None);
    assert_eq!(player.peek_movement_queue(), None);
    player.set_face_right(false);
    assert_eq!(player.atlas_index(), 249);
    let m = Movement { velocity: (0.0, -1.0), target: (3, 4), is_manual: false };
    player.push_movement_queue(m).set_face_right(true);
    assert_eq!(player.pop_movement_queue(), Some(m));
    assert!(m.target == (3, 4) && !m.is_manual);
}

#[test]
fn scoreboard_from_highscore() {
    let board = Scoreboard::from(&Highscore::new(12, 5));
    assert_eq!(board, Scoreboard::new(5, 0, 12, 0));
    assert_eq!(board.crystals, 0);
    assert_eq!(board.keys, 0);
    let wrapped = Scoreboard::from(&Highscore::new(1, u32::MAX));
    assert_eq!(wrapped.coins, -1);
    assert_eq!(wrapped.moves, 1);
}

#[test]
fn vending_machine_purchases() {
    let mut board = Scoreboard::new(10, 5, 7, 0);
    assert_eq!(KeysItem.cost(), 3);
    assert_eq!(CoinsItem.cost(), 1);
    KeysItem.purchase(&mut board);
    assert_eq!(board, Scoreboard::new(10, 2, 7, 1));
    CoinsItem.purchase(&mut board);
    assert_eq!(board, Scoreboard::new(15, 1, 7, 1));
    // Too few crystals leave none, never fewer.
    KeysItem.purchase(&mut board);
    assert_eq!(board, Scoreboard::new(15, 0, 7, 2));
}
