use libexodus::campaign::graph::Graph;
use libexodus::campaign::trail::trail_world;
use libexodus::highscores::highscore::Highscore;
use libexodus::highscores::highscores_database::HighscoresDatabase;
use libexodus::tiles::{InteractionKind, Tile};

fn trail_graph() -> Graph {
    let graph_file = r#"
        0 0 0
        1 a.exm 2 0
        2 b.exm 4 0
        3 c.exm 6 0
        4 2 2
        #
        0 1
        1 2
        2 3
        1 4
        "#;
    let mut graph = Graph::default();
    graph.parse(graph_file.as_bytes()).unwrap();
    graph
}

fn campaign_maps() -> Vec<(String, [u8; 32])> {
    vec![
        ("a.exm".to_string(), [1u8; 32]),
        ("b.exm".to_string(), [2u8; 32]),
        ("c.exm".to_string(), [3u8; 32]),
    ]
}

fn entry(map: &str) -> Tile {
    Tile::CAMPAIGNTRAILMAPENTRYPOINT { interaction: InteractionKind::LaunchMap { map_name: map.to_string() } }
}

fn locked(map: &str) -> Tile {
    Tile::CAMPAIGNTRAILLOCKEDMAPENTRYPOINT { interaction: InteractionKind::LaunchMap { map_name: map.to_string() } }
}

#[test]
fn trail_opens_maps_next_to_won_ones() {
    let graph = trail_graph();
    let mut db = HighscoresDatabase::new();
    db.put([1u8; 32], "player".to_string(), 0, Highscore::new(5, 3));
    let world = trail_world(&graph, (0, 2), &campaign_maps(), &db);
    assert_eq!(world.width(), 7);
    assert_eq!(world.height(), 3);
    assert_eq!(world.player_spawn(), (0, 2));
    assert_eq!(world.get(0, 2), Some(&Tile::PLAYERSPAWN));
    assert_eq!(world.get(0, 0), Some(&Tile::CAMPAIGNTRAILWALKWAY));
    assert_eq!(world.get(1, 0), Some(&Tile::CAMPAIGNTRAILWALKWAY));
    // won: open
    assert_eq!(world.get(2, 0), Some(&entry("a.exm")));
    assert_eq!(world.get(3, 0), Some(&Tile::CAMPAIGNTRAILWALKWAY));
    // not won, but next to a won map: opened
    assert_eq!(world.get(4, 0), Some(&entry("b.exm")));
    assert_eq!(world.get(5, 0), Some(&Tile::CAMPAIGNTRAILWALKWAY));
    // behind a map that is not won: stays locked
    assert_eq!(world.get(6, 0), Some(&locked("c.exm")));
    assert_eq!(world.get(2, 1), Some(&Tile::CAMPAIGNTRAILWALKWAY));
    assert_eq!(world.get(2, 2), Some(&Tile::CAMPAIGNTRAILWALKWAY));
    assert_eq!(world.get(1, 1), Some(&Tile::CAMPAIGNTRAILBORDER));
    assert_eq!(world.get(6, 2), Some(&Tile::CAMPAIGNTRAILBORDER));
}

#[test]
fn trail_without_results_opens_maps_next_to_the_start() {
    let graph = trail_graph();
    let db = HighscoresDatabase::new();
    let world = trail_world(&graph, (0, 0), &campaign_maps(), &db);
    assert_eq!(world.get(2, 0), Some(&entry("a.exm")));
    assert_eq!(world.get(4, 0), Some(&locked("b.exm")));
    assert_eq!(world.get(6, 0), Some(&locked("c.exm")));
    // the spawn lies on the start node, whose walkway is placed over it
    assert_eq!(world.player_spawn(), (0, 0));
    assert_eq!(world.get(0, 0), Some(&Tile::CAMPAIGNTRAILWALKWAY));
}

#[test]
fn trail_spawn_beyond_the_trail_is_at_the_start_node() {
    let graph = trail_graph();
    let db = HighscoresDatabase::new();
    let world = trail_world(&graph, (100, 1), &campaign_maps(), &db);
    assert_eq!(world.player_spawn(), (0, 0));
}

#[test]
fn trail_map_missing_from_the_campaign_is_locked() {
    let graph = trail_graph();
    let mut db = HighscoresDatabase::new();
    db.put([1u8; 32], "player".to_string(), 0, Highscore::new(5, 3));
    let maps = vec![("b.exm".to_string(), [2u8; 32])];
    let world = trail_world(&graph, (0, 0), &maps, &db);
    // a.exm is not among the maps: locked, and opened next to the start
    assert_eq!(world.get(2, 0), Some(&entry("a.exm")));
    assert_eq!(world.get(4, 0), Some(&locked("b.exm")));
}

#[test]
fn trail_walks_through_an_entry_point_it_reaches_twice() {
    let graph_file = r#"
        0 0 0
        1 0 2
        2 b.exm 2 0
        3 c.exm 4 0
        #
        0 1
        0 2
        1 2
        2 3
        "#;
    let mut graph = Graph::default();
    graph.parse(graph_file.as_bytes()).unwrap();
    let db = HighscoresDatabase::new();
    let world = trail_world(&graph, (0, 0), &campaign_maps(), &db);
    // b is opened from the start node and walked through from node 1, which opens c
    assert_eq!(world.get(2, 0), Some(&entry("b.exm")));
    assert_eq!(world.get(4, 0), Some(&entry("c.exm")));
}
