use libexodus::highscores::highscore::Highscore;
use libexodus::highscores::highscore_records::HighscoreRecords;
use libexodus::highscores::highscores_database::HighscoresDatabase;
use libexodus::highscores::io_error::HighscoreParseError;
use libexodus::highscores::player_highscores::{PlayerHighscores, PlayerHighscoresWrapper};
use std::cmp::Ordering;

#[test]
fn test_highscore_getters() {
    let highscore = Highscore::new(69, 42069);
    assert_eq!(69, highscore.moves());
    assert_eq!(42069, highscore.coins());
}

#[test]
fn test_highscore_invalid_version() {
    let highscore0 = Highscore::new(1, 1);
    let mut data = highscore0.serialize().unwrap();
    data[0] = 0xff;
    let mut highscore = Highscore::new(1, 1);
    let result = highscore.parse(&data);
    assert!(result.is_err());
    assert_eq!(
        result.unwrap_err().numeric_error(),
        HighscoreParseError::InvalidVersion { invalid_version: 0xff }.numeric_error()
    );
}

#[test]
fn test_highscore_constructor() {
    let highscore = Highscore::new(0, 111);
    let highscore2 = Highscore { num_moves: 0, num_coins: 111 };
    assert_eq!(highscore, highscore2);
}

fn serialize_and_parse(num_moves: u32, num_coins: u32) {
    let highscore = Highscore::new(num_moves, num_coins);
    let result = highscore.serialize();
    assert!(result.is_ok(), "Highscore failed to serialize with error: {:?}", result.as_ref().unwrap_err());
    let data = result.unwrap();
    let mut result_highscore = Highscore::new(123, 123);
    let result = result_highscore.parse(&data);
    assert!(result.is_ok(), "Highscore failed to parse with error: {:?}", result.unwrap_err());
    assert_eq!(num_moves, result_highscore.moves());
    assert_eq!(num_coins, result_highscore.coins());
}

#[test]
fn serialize_highscore_0() {
    serialize_and_parse(0, 0);
}

#[test]
fn serialize_highscore_11() {
    serialize_and_parse(1, 1);
}

#[test]
fn serialize_highscore_01() {
    serialize_and_parse(0, 1);
}

#[test]
fn serialize_highscore_10() {
    serialize_and_parse(1, 0);
}

#[test]
fn serialize_highscore_1337() {
    serialize_and_parse(1337, 69);
}

#[test]
fn serialize_highscore_limit1() {
    serialize_and_parse(u32::MAX, u32::MIN);
}

#[test]
fn serialize_highscore_limit2() {
    serialize_and_parse(u32::MIN, u32::MAX);
}

#[test]
fn serialize_highscore_limit3() {
    serialize_and_parse(u32::MAX, u32::MAX);
}

#[test]
fn highscore_bytes_and_short_data() {
    let data = Highscore::new(0x0102, 7).serialize().unwrap();
    assert_eq!(data, vec![0x01, 0x02, 0x01, 0, 0, 7, 0, 0, 0]);
    let mut h = Highscore::new(5, 5);
    let result = h.parse(&data[0..6]);
    assert_eq!(result.unwrap_err().numeric_error(), 4);
    assert_eq!(h, Highscore::new(5, 5));
    let result = h.parse(&[]);
    assert_eq!(result.unwrap_err().numeric_error(), 3);
}

#[test]
fn test_total_ordering() {
    let good_score = PlayerHighscoresWrapper { timestamp: 0, highscore: Highscore::new(5, 4) };
    let bad_score = PlayerHighscoresWrapper { timestamp: 0, highscore: Highscore::new(6, 4) };
    assert_eq!(Ordering::Greater, good_score.cmp(&bad_score));
    assert!(good_score > bad_score);
}

#[test]
fn test_total_newest() {
    let good_score = PlayerHighscoresWrapper { timestamp: 1, highscore: Highscore::new(6, 4) };
    let bad_score = PlayerHighscoresWrapper { timestamp: 0, highscore: Highscore::new(6, 4) };
    assert_eq!(Ordering::Greater, good_score.cmp(&bad_score));
    assert!(good_score > bad_score);
}

#[test]
fn test_total_ordering_equal() {
    let good_score = PlayerHighscoresWrapper { timestamp: 0, highscore: Highscore::new(5, 0) };
    let equal_score = PlayerHighscoresWrapper { timestamp: 0, highscore: Highscore::new(5, 0) };
    assert_eq!(Ordering::Equal, good_score.cmp(&equal_score));
}

#[test]
fn test_player_highscores_default_empty() {
    let player_highscores = PlayerHighscores::new("Thorsten".to_string());
    assert_eq!(0, player_highscores.len());
    assert_eq!("Thorsten", player_highscores.player());
}

#[test]
fn test_player_highscores_is_empty() {
    let mut player_highscores = PlayerHighscores::new("Thorsten".to_string());
    assert!(player_highscores.is_empty());
    player_highscores.store_with_current_time(Highscore::new(3, 3));
    assert!(!player_highscores.is_empty());
}

#[test]
fn test_player_highscores_get_best() {
    let mut player_highscores = PlayerHighscores::new("Thorsten".to_string());
    player_highscores.store(0, Highscore::new(5, 0));
    player_highscores.store(3, Highscore::new(5, 1));
    player_highscores.store(2, Highscore::new(5, 2));
    player_highscores.store(4, Highscore::new(5, 0));
    assert_eq!(4, player_highscores.len());
    let (best_ts, best) = player_highscores.best().unwrap();
    assert_eq!(2, best.coins());
    assert_eq!(5, best.moves());
    assert_eq!(2, best_ts);
}

#[test]
fn test_player_highscores_get_best_same_time() {
    let mut player_highscores = PlayerHighscores::new("Thorsten".to_string());
    player_highscores.store(3, Highscore::new(5, 0));
    player_highscores.store(3, Highscore::new(5, 1));
    player_highscores.store(3, Highscore::new(5, 2));
    player_highscores.store(0, Highscore::new(5, 0));
    assert_eq!(4, player_highscores.len());
    let (best_ts, best) = player_highscores.best().unwrap();
    assert_eq!(2, best.coins());
    assert_eq!(5, best.moves());
    assert_eq!(3, best_ts);
}

#[test]
fn test_player_highscores_get_best_same_score() {
    let mut player_highscores = PlayerHighscores::new("Thorsten".to_string());
    player_highscores.store(1, Highscore::new(5, 2));
    player_highscores.store(2, Highscore::new(5, 2));
    player_highscores.store(3, Highscore::new(5, 2));
    player_highscores.store(4, Highscore::new(5, 2));
    assert_eq!(4, player_highscores.len());
    let (best_ts, best) = player_highscores.best().unwrap();
    assert_eq!(2, best.coins());
    assert_eq!(5, best.moves());
    assert_eq!(4, best_ts);
}

#[test]
fn test_player_highscores_get_best_empty() {
    let player_highscores = PlayerHighscores::new("Thorsten".to_string());
    assert!(player_highscores.best().is_none());
}

#[test]
fn player_highscores_keep_the_first_of_equal_results() {
    let mut player_highscores = PlayerHighscores::new("Ada".to_string());
    player_highscores.store(7, Highscore::new(2, 5));
    player_highscores.store(7, Highscore::new(3, 6));
    assert_eq!(1, player_highscores.len());
    let (ts, best) = player_highscores.best().unwrap();
    assert_eq!(7, ts);
    assert_eq!(2, best.moves());
    assert_eq!(5, best.coins());
}

#[test]
fn test_get() {
    let mut records = HighscoreRecords::new([0u8; 32]);
    records.put("Thorsten".to_string(), 0, Highscore::new(3, 0));
    let highscore = records.get(&"Thorsten".to_string());
    assert!(highscore.is_some());
    assert_eq!(1, highscore.unwrap().len());
    let (timestamp, score) = highscore.unwrap().best().unwrap();
    assert_eq!(0, timestamp);
    assert_eq!(0, score.coins());
    assert_eq!(3, score.moves());
}

#[test]
fn highscore_records_test_is_empty() {
    let mut records = HighscoreRecords::new([0u8; 32]);
    assert!(records.is_empty());
    records.put("Thorsten".to_string(), 0, Highscore::new(3, 0));
    assert!(!records.is_empty());
}

#[test]
fn test_get_best() {
    let mut records = HighscoreRecords::new([0u8; 32]);
    records.put("Thorsten".to_string(), 0, Highscore::new(3, 0));
    records.put("Thorsten".to_string(), 1337, Highscore::new(3, 0));
    let (timestamp, score) = records.get_best(&"Thorsten".to_string()).unwrap();
    assert_eq!(1337, timestamp);
    assert_eq!(0, score.coins());
    assert_eq!(3, score.moves());
}

#[test]
fn test_get_mut() {
    let mut records = HighscoreRecords::new([0u8; 32]);
    records.put("Thorsten".to_string(), 1337, Highscore::new(5, 0));
    {
        let highscore = records.get_mut(&"Thorsten".to_string());
        assert!(highscore.is_some());
        let highscore = highscore.unwrap();
        assert_eq!(1, highscore.len());
        highscore.store(0, Highscore::new(3, 0));
    }
    let highscore = records.get(&"Thorsten".to_string());
    assert!(highscore.is_some());
    assert_eq!(2, highscore.unwrap().len());
    let (timestamp, score) = highscore.unwrap().best().unwrap();
    assert_eq!(0, timestamp);
    assert_eq!(0, score.coins());
    assert_eq!(3, score.moves());
}

#[test]
fn test_multiple_players() {
    let mut records = HighscoreRecords::new([0u8; 32]);
    assert_eq!(0, records.len());
    records.put("Thorsten".to_string(), 1337, Highscore::new(5, 0));
    assert_eq!(1, records.len());
    records.put("Dieter".to_string(), 1337, Highscore::new(5, 0));
    assert_eq!(2, records.len());
    records.put("Frank".to_string(), 1337, Highscore::new(5, 0));
    assert_eq!(3, records.len());
    records.put("Bernhard".to_string(), 1337, Highscore::new(5, 0));
    assert_eq!(4, records.len());
    records.put("Thorsten".to_string(), 1337, Highscore::new(5, 0));
    assert_eq!(4, records.len());
}

#[test]
fn test_len_default() {
    let database = HighscoresDatabase::default();
    assert_eq!(0, database.len());
}

#[test]
fn highscores_database_test_is_empty() {
    let mut database = HighscoresDatabase::new();
    assert!(database.is_empty());
    database.put([0u8; 32], "Thorsten".to_string(), 1337, Highscore::new(10, 0));
    assert!(!database.is_empty());
}

#[test]
fn test_get_default() {
    let database = HighscoresDatabase::new();
    let res = database.get(&[0u8; 32]);
    assert!(res.is_none());
}

#[test]
fn test_get_mut_default() {
    let mut database = HighscoresDatabase::new();
    let res = database.get_mut(&[0u8; 32]);
    assert!(res.is_none());
}

#[test]
fn test_get_best_default() {
    let database = HighscoresDatabase::new();
    let res = database.get_best(&[0u8; 32], &"Max".to_string());
    assert!(res.is_none());
}

fn create_complex_database() -> HighscoresDatabase {
    let mut database = HighscoresDatabase::new();
    database.put([0u8; 32], "Thorsten".to_string(), 1337, Highscore::new(10, 0));
    assert_eq!(1, database.len());
    assert_eq!(1, database.get(&[0u8; 32]).unwrap().len());
    assert_eq!(1, database.get(&[0u8; 32]).unwrap().get(&"Thorsten".to_string()).unwrap().len());

    database.put([0u8; 32], "Thorsten".to_string(), 69, Highscore::new(10, 0));
    assert_eq!(1, database.len());
    assert_eq!(1, database.get(&[0u8; 32]).unwrap().len());
    assert_eq!(2, database.get(&[0u8; 32]).unwrap().get(&"Thorsten".to_string()).unwrap().len());

    database.put([0u8; 32], "Frank".to_string(), 1337, Highscore::new(10, 0));
    assert_eq!(1, database.len());
    assert_eq!(2, database.get(&[0u8; 32]).unwrap().len());
    assert_eq!(2, database.get(&[0u8; 32]).unwrap().get(&"Thorsten".to_string()).unwrap().len());
    assert_eq!(1, database.get(&[0u8; 32]).unwrap().get(&"Frank".to_string()).unwrap().len());

    database.put([1u8; 32], "Thorsten".to_string(), 1337, Highscore::new(10, 0));
    assert_eq!(2, database.len());
    assert_eq!(2, database.get(&[0u8; 32]).unwrap().len());
    assert_eq!(2, database.get(&[0u8; 32]).unwrap().get(&"Thorsten".to_string()).unwrap().len());
    assert_eq!(1, database.get(&[0u8; 32]).unwrap().get(&"Frank".to_string()).unwrap().len());
    assert_eq!(1, database.get(&[1u8; 32]).unwrap().len());
    assert_eq!(1, database.get(&[1u8; 32]).unwrap().get(&"Thorsten".to_string()).unwrap().len());

    let (time, best1) = database.get_best(&[0u8; 32], &"Thorsten".to_string()).unwrap();
    assert_eq!(1337, time);
    assert_eq!(10, best1.moves());
    assert_eq!(0, best1.coins());
    database
}

#[test]
fn test_multiple_highscores() {
    let _ = create_complex_database();
}

#[test]
fn test_serialize_complex_database() {
    let db = create_complex_database();
    let result = db.serialize();
    assert!(result.is_ok(), "Database failed to serialize with error: {:?}", result.as_ref().unwrap_err());
    let data = result.unwrap();
    let mut db2 = HighscoresDatabase::default();
    let result = db2.parse(&data);
    assert!(result.is_ok(), "Highscore Database failed to parse with error: {:?}", result.unwrap_err());
    assert_eq!(db.len(), db2.len());
    for r_hash in [[0u8; 32], [1u8; 32]] {
        assert!(db.get(&r_hash).is_some());
        assert!(db2.get(&r_hash).is_some());
    }
    let (time, best) = db2.get_best(&[0u8; 32], &"Thorsten".to_string()).unwrap();
    assert_eq!(1337, time);
    assert_eq!(10, best.moves());
    assert_eq!(2, db2.get(&[0u8; 32]).unwrap().get(&"Thorsten".to_string()).unwrap().len());
}

#[test]
fn database_parse_errors() {
    let mut db = HighscoresDatabase::new();
    assert_eq!(db.parse(&[0u8; 10]).unwrap_err().numeric_error(), 3);
    assert_eq!(db.parse(&[0u8; 30]).unwrap_err().numeric_error(), 0);
    let mut data = HighscoresDatabase::new().serialize().unwrap();
    data[18] = 0x07;
    assert!(matches!(db.parse(&data), Err(HighscoreParseError::InvalidVersion { invalid_version: 0x07 })));
    let mut source = HighscoresDatabase::new();
    source.put([3u8; 32], "Eve".to_string(), 1, Highscore::new(1, 1));
    let mut data = source.serialize().unwrap();
    data[27] = 4;
    assert!(matches!(db.parse(&data), Err(HighscoreParseError::HashMismatch { .. })));
    let data = source.serialize().unwrap();
    assert!(db.parse(&data).is_ok());
    assert_eq!(db.parse(&data).unwrap_err().numeric_error(), 9);
    assert_eq!(1, db.len());
}

/// Wait until the clock has moved on by two milliseconds, so that results stored one after the
/// other get different times.
fn wait_two_millis() {
    let start = chrono::Utc::now().timestamp_millis();
    while chrono::Utc::now().timestamp_millis() < start + 2 {}
}

#[test]
fn test_player_highscores_get_best_current_time() {
    let mut player_highscores = PlayerHighscores::new("Thorsten".to_string());
    player_highscores.store_with_current_time(Highscore::new(5, 2));
    wait_two_millis();
    player_highscores.store_with_current_time(Highscore::new(5, 2));
    assert_eq!(2, player_highscores.len());
    let (_best_ts, best) = player_highscores.best().unwrap();
    assert_eq!(2, best.coins());
    assert_eq!(5, best.moves());
}

#[test]
fn highscore_records_test_put_with_current_time() {
    let mut records = HighscoreRecords::new([0u8; 32]);
    records.put_with_current_time("Thorsten".to_string(), Highscore::new(5, 0));
    wait_two_millis();
    records.put_with_current_time("Thorsten".to_string(), Highscore::new(5, 1));
    wait_two_millis();
    records.put_with_current_time("Thorsten".to_string(), Highscore::new(5, 1));
    wait_two_millis();
    records.put_with_current_time("Thorsten".to_string(), Highscore::new(5, 0));
    assert_eq!(1, records.len());
    let record = records.get(&"Thorsten".to_string()).unwrap();
    assert_eq!(4, record.len());
    let (_, best) = record.best().unwrap();
    assert_eq!(5, best.moves());
    assert_eq!(1, best.coins());
}

#[test]
fn highscores_database_test_put_with_current_time() {
    let mut database = HighscoresDatabase::new();
    database.put_with_current_time([0u8; 32], "Leo".to_string(), Highscore::new(3, 2));
    wait_two_millis();
    database.put_with_current_time([0u8; 32], "Leo".to_string(), Highscore::new(3, 1));
    wait_two_millis();
    assert_eq!(1, database.len());
    assert_eq!(1, database.get(&[0u8; 32]).unwrap().len());
    assert_eq!(2, database.get(&[0u8; 32]).unwrap().get(&"Leo".to_string()).unwrap().len());
    let (_, best) = database.get_best(&[0u8; 32], &"Leo".to_string()).unwrap();
    assert_eq!(3, best.moves());
    assert_eq!(2, best.coins());
}
