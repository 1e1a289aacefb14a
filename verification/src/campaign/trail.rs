//! The campaign trail as a map that the player walks on: the nodes of a campaign graph as
//! walkways and map entry points, joined by walkways along the edges, in a map of border tiles.
//! Entry points of maps that the player has won are open; locked ones that a walk from the
//! start node reaches are opened too.
use crate::campaign::graph::{has_node, unique_ids, Coord, Graph, GraphView, Node, NodeID, NodeKind, NodeView, node_views};
use crate::highscores::highscore_records::RecordsView;
use crate::highscores::highscores_database::{has_map, HighscoresDatabase};
use crate::tiles::{InteractionKind, InteractionKindView, Tile};
use crate::world::GameWorld;
use vstd::prelude::*;

verus! {

/// What a tile of a campaign trail shows, as plain values.
pub enum TrailTile {
    /// A border tile that the player cannot cross.
    Border,
    /// A walkway.
    Walkway,
    /// Where the player starts.
    Spawn,
    /// The open entry point of the map in the given file.
    Entry(Seq<char>),
    /// The locked entry point of the map in the given file.
    Locked(Seq<char>),
}

/// The tile `t` shows `d`.
pub open spec fn shows(t: Tile, d: TrailTile) -> bool {
    match d {
        TrailTile::Border => t == Tile::CAMPAIGNTRAILBORDER,
        TrailTile::Walkway => t == Tile::CAMPAIGNTRAILWALKWAY,
        TrailTile::Spawn => t == Tile::PLAYERSPAWN,
        TrailTile::Entry(m) => t matches Tile::CAMPAIGNTRAILMAPENTRYPOINT { interaction }
            && interaction@ == (InteractionKindView::LaunchMap { map_name: m }),
        TrailTile::Locked(m) => t matches Tile::CAMPAIGNTRAILLOCKEDMAPENTRYPOINT { interaction }
            && interaction@ == (InteractionKindView::LaunchMap { map_name: m }),
    }
}

/// The hash of the first map of `maps` whose file name is `name`, if there is one.
pub open spec fn map_hash(maps: Seq<(String, [u8; 32])>, name: Seq<char>) -> Option<Seq<u8>>
    decreases maps.len(),
{
    if maps.len() == 0 {
        None
    } else if maps[0].0@ == name {
        Some(maps[0].1@)
    } else {
        map_hash(maps.drop_first(), name)
    }
}

/// What the node `n` shows on the trail: a walkway where it stands for no map; the open entry
/// point of its map where the map is among `maps` and the player has a result for it in `won`;
/// else the locked entry point.
pub open spec fn node_tile(n: NodeView, maps: Seq<(String, [u8; 32])>, won: Seq<RecordsView>) -> TrailTile {
    match n.map {
        None => TrailTile::Walkway,
        Some(m) => match map_hash(maps, m) {
            Some(h) => if has_map(won, h) {
                TrailTile::Entry(m)
            } else {
                TrailTile::Locked(m)
            },
            None => TrailTile::Locked(m),
        },
    }
}

/// The node of `g` with the identifier `id`.
pub open spec fn node_with_id(g: GraphView, id: NodeID) -> NodeView {
    g.nodes[choose|i: int| 0 <= i < g.nodes.len() && #[trigger] g.nodes[i].id == id]
}

/// The column of the trail that the X coordinate `x` of the graph falls in.
pub open spec fn column(g: GraphView, x: Coord) -> int {
    x - g.min_x
}

/// The row of the trail that the Y coordinate `y` of the graph falls in.
pub open spec fn row(g: GraphView, y: Coord) -> int {
    y - g.min_y
}

/// Where on the trail the node with the identifier `id` lies.
pub open spec fn node_position(g: GraphView, id: NodeID) -> (int, int) {
    (column(g, node_with_id(g, id).coord.0), row(g, node_with_id(g, id).coord.1))
}

/// What the last of the nodes `ns` that lies at `(x, y)` shows, if one lies there.
pub open spec fn tile_of_nodes(
    g: GraphView,
    ns: Seq<NodeView>,
    maps: Seq<(String, [u8; 32])>,
    won: Seq<RecordsView>,
    x: int,
    y: int,
) -> Option<TrailTile>
    decreases ns.len(),
{
    if ns.len() == 0 {
        None
    } else if column(g, ns.last().coord.0) == x && row(g, ns.last().coord.1) == y {
        Some(node_tile(ns.last(), maps, won))
    } else {
        tile_of_nodes(g, ns.drop_last(), maps, won, x, y)
    }
}

/// `(x, y)` lies strictly between the two nodes of the edge `e`: in the column of the first
/// node where both share a column, else in its row.
pub open spec fn on_edge(g: GraphView, e: (NodeID, NodeID), x: int, y: int) -> bool {
    let a = node_with_id(g, e.0).coord;
    let b = node_with_id(g, e.1).coord;
    if a.0 == b.0 {
        x == column(g, a.0) && ((a.1 < y + g.min_y < b.1) || (b.1 < y + g.min_y < a.1))
    } else {
        y == row(g, a.1) && ((a.0 < x + g.min_x < b.0) || (b.0 < x + g.min_x < a.0))
    }
}

/// `(x, y)` lies strictly between the two nodes of some edge of `g`.
pub open spec fn on_some_edge(g: GraphView, x: int, y: int) -> bool {
    exists|k: int| 0 <= k < g.edges.len() && on_edge(g, #[trigger] g.edges[k], x, y)
}

/// `v` as a 16-bit signed number, for `v` from 0 up to 65535.
pub open spec fn wrap_i16(v: int) -> int {
    if v > i16::MAX {
        v - 65536
    } else {
        v
    }
}

/// The number of columns of the trail.
pub open spec fn trail_width(g: GraphView) -> int {
    g.max_x - g.min_x + 1
}

/// The number of rows of the trail.
pub open spec fn trail_height(g: GraphView) -> int {
    g.max_y - g.min_y + 1
}

/// `last` lies beyond the right or the bottom edge of the trail, as 16-bit numbers compare.
pub open spec fn beyond_trail(g: GraphView, last: (Coord, Coord)) -> bool {
    column(g, last.0) >= wrap_i16(trail_width(g)) || row(g, last.1) >= wrap_i16(trail_height(g))
}

/// Where the player starts: at the last position `last`, unless it lies beyond the trail;
/// there at the start node, the node with identifier 0.
pub open spec fn spawn_position(g: GraphView, last: (Coord, Coord)) -> (int, int) {
    if beyond_trail(g, last) {
        node_position(g, 0)
    } else {
        (column(g, last.0), row(g, last.1))
    }
}

/// What the trail shows at `(x, y)` before any locked entry point is opened: a walkway between
/// the nodes of an edge; else what the last node there shows; else the spawn, where the player
/// starts; else the border.
pub open spec fn base_tile(
    g: GraphView,
    last: (Coord, Coord),
    maps: Seq<(String, [u8; 32])>,
    won: Seq<RecordsView>,
    x: int,
    y: int,
) -> TrailTile {
    if on_some_edge(g, x, y) {
        TrailTile::Walkway
    } else {
        match tile_of_nodes(g, g.nodes, maps, won, x, y) {
            Some(t) => t,
            None => if (x, y) == spawn_position(g, last) {
                TrailTile::Spawn
            } else {
                TrailTile::Border
            },
        }
    }
}

/// Some edge of `g` leads away from the node with the identifier `id`.
pub open spec fn has_edge_from(g: GraphView, id: NodeID) -> bool {
    exists|k: int| 0 <= k < g.edges.len() && (#[trigger] g.edges[k]).0 == id
}

/// The graph `g` and the last position `last` make a trail: the offsets and the sizes fit in
/// 16-bit numbers, the nodes lie within the bounds that `g` records, there is a start node
/// with identifier 0 that has an edge, every edge joins two nodes, and the node an edge leads
/// to has an edge of its own; two nodes of an edge in one column lie above the last row of
/// 16-bit numbers where they share a row; and the last position, where it lies within the
/// trail's last row and column, lies within the trail.
pub open spec fn valid_trail(g: GraphView, last: (Coord, Coord)) -> bool {
    &&& g.min_x > i16::MIN && g.min_y > i16::MIN
    &&& g.min_x <= g.max_x && g.max_x - g.min_x <= i16::MAX
    &&& g.min_y <= g.max_y && g.max_y - g.min_y <= i16::MAX
    &&& forall|i: int|
        0 <= i < g.nodes.len() ==> g.min_x <= (#[trigger] g.nodes[i]).coord.0 <= g.max_x && g.min_y
            <= g.nodes[i].coord.1 <= g.max_y
    &&& has_node(g.nodes, 0)
    &&& has_edge_from(g, 0)
    &&& forall|k: int|
        0 <= k < g.edges.len() ==> has_node(g.nodes, (#[trigger] g.edges[k]).0) && has_node(g.nodes, g.edges[k].1)
    &&& forall|k: int| 0 <= k < g.edges.len() ==> #[trigger] has_edge_from(g, g.edges[k].1)
    &&& forall|k: int|
        0 <= k < g.edges.len() && node_with_id(g, (#[trigger] g.edges[k]).0).coord == node_with_id(g, g.edges[k].1).coord
            ==> node_with_id(g, g.edges[k].0).coord.1 < i16::MAX
    &&& i16::MIN <= column(g, last.0) <= i16::MAX && i16::MIN <= row(g, last.1) <= i16::MAX
    &&& !beyond_trail(g, last) ==> column(g, last.0) >= 0 && row(g, last.1) >= 0
}

/// With node identifiers unique, the node `n` of `g` is the node with its identifier.
proof fn lemma_node_with_id(g: GraphView, n: NodeView)
    requires
        unique_ids(g.nodes),
        g.nodes.contains(n),
    ensures
        node_with_id(g, n.id) == n,
{
    let j = choose|j: int| 0 <= j < g.nodes.len() && g.nodes[j] == n;
    assert(g.nodes[j].id == n.id);
    let i = choose|i: int| 0 <= i < g.nodes.len() && #[trigger] g.nodes[i].id == n.id;
    if i != j {
        if i < j {
            assert(g.nodes[i].id != g.nodes[j].id);
        } else {
            assert(g.nodes[j].id != g.nodes[i].id);
        }
    }
}

/// The node of `graph` with the identifier `id`, which it has.
fn node_by_id<'a>(graph: &'a Graph, id: NodeID) -> (r: &'a Node)
    requires
        has_node(graph@.nodes, id),
    ensures
        r.view() == node_with_id(graph@, id),
        r.id == id,
{
    let nodes = graph.nodes();
    match graph.get_node(&id) {
        Some(n) => {
            proof {
                lemma_node_with_id(graph@, n.view());
            }
            n
        },
        None => {
            proof {
                assert(false);
            }
            &nodes[0]
        },
    }
}

/// The hash of the first map of `maps` whose file name is `name`, if there is one.
fn map_hash_of(maps: &Vec<(String, [u8; 32])>, name: &String) -> (r: Option<[u8; 32]>)
    ensures
        match r {
            Some(h) => map_hash(maps@, name@) == Some(h@),
            None => map_hash(maps@, name@) is None,
        },
{
    let mut i: usize = 0;
    assert(maps@.skip(0) =~= maps@);
    while i < maps.len()
        invariant
            i <= maps@.len(),
            map_hash(maps@, name@) == map_hash(maps@.skip(i as int), name@),
        decreases maps@.len() - i,
    {
        assert(maps@.skip(i as int).drop_first() =~= maps@.skip(i + 1));
        if maps[i].0 == *name {
            return Some(maps[i].1);
        }
        i += 1;
    }
    None
}

/// The tile that the node `n` shows on the trail.
fn node_trail_tile(n: &Node, maps: &Vec<(String, [u8; 32])>, db: &HighscoresDatabase) -> (r: Tile)
    ensures
        shows(r, node_tile(n.view(), maps@, db@)),
{
    match &n.kind {
        NodeKind::Empty => Tile::CAMPAIGNTRAILWALKWAY,
        NodeKind::MapFilename { map } => {
            let won = match map_hash_of(maps, map) {
                Some(h) => db.get(&h).is_some(),
                None => false,
            };
            if won {
                Tile::CAMPAIGNTRAILMAPENTRYPOINT { interaction: InteractionKind::LaunchMap { map_name: map.clone() } }
            } else {
                Tile::CAMPAIGNTRAILLOCKEDMAPENTRYPOINT { interaction: InteractionKind::LaunchMap { map_name: map.clone() } }
            }
        },
    }
}

/// What the trail shows at `(x, y)` after the nodes are placed and before the edges are.
pub open spec fn nodes_tile(
    g: GraphView,
    last: (Coord, Coord),
    maps: Seq<(String, [u8; 32])>,
    won: Seq<RecordsView>,
    ns: Seq<NodeView>,
    x: int,
    y: int,
) -> TrailTile {
    match tile_of_nodes(g, ns, maps, won, x, y) {
        Some(t) => t,
        None => if (x, y) == spawn_position(g, last) {
            TrailTile::Spawn
        } else {
            TrailTile::Border
        },
    }
}

/// `(x, y)` lies strictly between the nodes of one of the first `k` edges of `g`.
pub open spec fn on_first_edges(g: GraphView, k: int, x: int, y: int) -> bool {
    exists|j: int| 0 <= j < k && on_edge(g, #[trigger] g.edges[j], x, y)
}

/// Paint the walkway between the two nodes of the edge `k` of `graph`.
fn draw_edge(world: &mut GameWorld, graph: &Graph, last_pos: (Coord, Coord), k: usize)
    requires
        valid_trail(graph@, last_pos),
        k < graph@.edges.len(),
        old(world).spec_width() == trail_width(graph@),
        old(world).spec_height() == trail_height(graph@),
    ensures
        final(world).spec_width() == old(world).spec_width(),
        final(world).spec_height() == old(world).spec_height(),
        final(world).spec_spawn() == old(world).spec_spawn(),
        forall|x: int, y: int|
            final(world).in_bounds(x, y) ==> #[trigger] final(world).spec_tile(x, y) == (if on_edge(graph@, graph@.edges[k as int], x, y) {
                Tile::CAMPAIGNTRAILWALKWAY
            } else {
                old(world).spec_tile(x, y)
            }),
{
    let ghost g = graph@;
    let min_x = graph.min_x() as i32;
    let min_y = graph.min_y() as i32;
    let (from_id, to_id) = graph.edges()[k];
    assert(g.edges[k as int] == (from_id, to_id));
    let from = node_by_id(graph, from_id);
    let to = node_by_id(graph, to_id);
    let nodes = graph.nodes();
    proof {
        let jf = choose|j: int| 0 <= j < g.nodes.len() && #[trigger] g.nodes[j].id == from_id;
        assert(g.min_x <= g.nodes[jf].coord.0 <= g.max_x);
        let jt = choose|j: int| 0 <= j < g.nodes.len() && #[trigger] g.nodes[j].id == to_id;
        assert(g.min_x <= g.nodes[jt].coord.0 <= g.max_x);
        lemma_node_with_id(g, g.nodes[jf]);
        lemma_node_with_id(g, g.nodes[jt]);
    }
    let fx = from.coord.0 as i32;
    let fy = from.coord.1 as i32;
    let tx = to.coord.0 as i32;
    let ty = to.coord.1 as i32;
    let ghost before = *world;
    if fx == tx {
        let lo = if fy < ty { fy } else { ty };
        let hi = if fy < ty { ty } else { fy };
        let col = (fx - min_x) as usize;
        let mut y = lo + 1;
        while y < hi
            invariant
                lo < y,
                y <= hi || y == lo + 1,
                g.min_y <= lo <= hi <= g.max_y,
                min_y == g.min_y,
                col == fx - g.min_x,
                0 <= col < trail_width(g),
                world.spec_width() == before.spec_width() == trail_width(g),
                world.spec_height() == before.spec_height() == trail_height(g),
                world.spec_spawn() == before.spec_spawn(),
                forall|a: int, b: int|
                    world.in_bounds(a, b) ==> #[trigger] world.spec_tile(a, b) == (if a == col && lo < b + g.min_y < y {
                        Tile::CAMPAIGNTRAILWALKWAY
                    } else {
                        before.spec_tile(a, b)
                    }),
            decreases hi - y,
        {
            world.set(col, (y - min_y) as usize, Tile::CAMPAIGNTRAILWALKWAY);
            y += 1;
        }
        proof {
            assert(y >= hi);
            assert forall|a: int, b: int| world.in_bounds(a, b) implies #[trigger] world.spec_tile(a, b) == (if on_edge(g, g.edges[k as int], a, b) {
                Tile::CAMPAIGNTRAILWALKWAY
            } else {
                before.spec_tile(a, b)
            }) by {
                assert(on_edge(g, g.edges[k as int], a, b) == (a == col && lo < b + g.min_y < hi));
            }
        }
    } else {
        let lo = if fx < tx { fx } else { tx };
        let hi = if fx < tx { tx } else { fx };
        let rw = (fy - min_y) as usize;
        let mut x = lo + 1;
        while x < hi
            invariant
                lo < x <= hi,
                g.min_x <= lo < hi <= g.max_x,
                min_x == g.min_x,
                rw == fy - g.min_y,
                0 <= rw < trail_height(g),
                world.spec_width() == before.spec_width() == trail_width(g),
                world.spec_height() == before.spec_height() == trail_height(g),
                world.spec_spawn() == before.spec_spawn(),
                forall|a: int, b: int|
                    world.in_bounds(a, b) ==> #[trigger] world.spec_tile(a, b) == (if b == rw && lo < a + g.min_x < x {
                        Tile::CAMPAIGNTRAILWALKWAY
                    } else {
                        before.spec_tile(a, b)
                    }),
            decreases hi - x,
        {
            world.set((x - min_x) as usize, rw, Tile::CAMPAIGNTRAILWALKWAY);
            x += 1;
        }
        proof {
            assert forall|a: int, b: int| world.in_bounds(a, b) implies #[trigger] world.spec_tile(a, b) == (if on_edge(g, g.edges[k as int], a, b) {
                Tile::CAMPAIGNTRAILWALKWAY
            } else {
                before.spec_tile(a, b)
            }) by {
                assert(on_edge(g, g.edges[k as int], a, b) == (b == rw && lo < a + g.min_x < hi));
            }
        }
    }
}

/// Place the tile of each node of `graph`, in order, on a trail of border tiles and the spawn.
fn place_nodes(world: &mut GameWorld, graph: &Graph, last_pos: (Coord, Coord), maps: &Vec<(String, [u8; 32])>, db: &HighscoresDatabase)
    requires
        valid_trail(graph@, last_pos),
        old(world).spec_width() == trail_width(graph@),
        old(world).spec_height() == trail_height(graph@),
        forall|x: int, y: int|
            old(world).in_bounds(x, y) ==> shows(
                #[trigger] old(world).spec_tile(x, y),
                nodes_tile(graph@, last_pos, maps@, db@, Seq::empty(), x, y),
            ),
    ensures
        final(world).spec_width() == old(world).spec_width(),
        final(world).spec_height() == old(world).spec_height(),
        final(world).spec_spawn() == old(world).spec_spawn(),
        forall|x: int, y: int|
            final(world).in_bounds(x, y) ==> shows(
                #[trigger] final(world).spec_tile(x, y),
                nodes_tile(graph@, last_pos, maps@, db@, graph@.nodes, x, y),
            ),
{
    let ghost g = graph@;
    let ghost start = *world;
    let min_x = graph.min_x() as i32;
    let min_y = graph.min_y() as i32;
    let nodes = graph.nodes();
    let mut i: usize = 0;
    assert(g.nodes.take(0) =~= Seq::<NodeView>::empty());
    while i < nodes.len()
        invariant
            g == graph@,
            node_views(nodes@) == g.nodes,
            valid_trail(g, last_pos),
            i <= nodes@.len(),
            min_x == g.min_x,
            min_y == g.min_y,
            world.spec_width() == trail_width(g),
            world.spec_height() == trail_height(g),
            world.spec_spawn() == start.spec_spawn(),
            forall|x: int, y: int|
                world.in_bounds(x, y) ==> shows(
                    #[trigger] world.spec_tile(x, y),
                    nodes_tile(g, last_pos, maps@, db@, g.nodes.take(i as int), x, y),
                ),
        decreases nodes@.len() - i,
    {
        let n = &nodes[i];
        assert(g.nodes[i as int] == n.view());
        assert(g.min_x <= g.nodes[i as int].coord.0 <= g.max_x);
        let t = node_trail_tile(n, maps, db);
        let nx = (n.coord.0 as i32 - min_x) as usize;
        let ny = (n.coord.1 as i32 - min_y) as usize;
        let ghost before = *world;
        world.set(nx, ny, t);
        proof {
            let ns = g.nodes.take(i + 1);
            assert(ns.drop_last() =~= g.nodes.take(i as int));
            assert(ns.last() == n.view());
            assert forall|x: int, y: int| world.in_bounds(x, y) implies shows(
                #[trigger] world.spec_tile(x, y),
                nodes_tile(g, last_pos, maps@, db@, ns, x, y),
            ) by {
                if !(x == nx && y == ny) {
                    assert(world.spec_tile(x, y) == before.spec_tile(x, y));
                }
            }
        }
        i += 1;
    }
    assert(g.nodes.take(i as int) =~= g.nodes);
}

/// The trail before any locked entry point is opened: border tiles, the spawn, the nodes and
/// the walkways between the nodes of each edge.
fn base_trail(graph: &Graph, last_pos: (Coord, Coord), maps: &Vec<(String, [u8; 32])>, db: &HighscoresDatabase) -> (w: GameWorld)
    requires
        valid_trail(graph@, last_pos),
    ensures
        w.spec_width() == trail_width(graph@),
        w.spec_height() == trail_height(graph@),
        w.spec_spawn() == ((spawn_position(graph@, last_pos).0) as usize, (spawn_position(graph@, last_pos).1) as usize),
        forall|x: int, y: int|
            w.in_bounds(x, y) ==> shows(#[trigger] w.spec_tile(x, y), base_tile(graph@, last_pos, maps@, db@, x, y)),
{
    let ghost g = graph@;
    let min_x = graph.min_x() as i32;
    let min_y = graph.min_y() as i32;
    let width = graph.width();
    let height = graph.height();
    let mut world = GameWorld::new(width, height);
    world.fill(&Tile::CAMPAIGNTRAILBORDER);
    let w16: i32 = if width > 32767 {
        width as i32 - 65536
    } else {
        width as i32
    };
    let h16: i32 = if height > 32767 {
        height as i32 - 65536
    } else {
        height as i32
    };
    let lx = last_pos.0 as i32 - min_x;
    let ly = last_pos.1 as i32 - min_y;
    let (sx, sy) = if lx >= w16 || ly >= h16 {
        let start = node_by_id(graph, 0);
        let nodes = graph.nodes();
        proof {
            let j = choose|j: int| 0 <= j < g.nodes.len() && #[trigger] g.nodes[j].id == 0;
            assert(g.min_x <= g.nodes[j].coord.0 <= g.max_x);
            lemma_node_with_id(g, g.nodes[j]);
        }
        ((start.coord.0 as i32 - min_x) as usize, (start.coord.1 as i32 - min_y) as usize)
    } else {
        (lx as usize, ly as usize)
    };
    let ghost filled = world;
    world.set(sx, sy, Tile::PLAYERSPAWN);
    proof {
        assert forall|x: int, y: int| world.in_bounds(x, y) implies shows(
            #[trigger] world.spec_tile(x, y),
            nodes_tile(g, last_pos, maps@, db@, Seq::empty(), x, y),
        ) by {
            if !(x == sx && y == sy) {
                assert(world.spec_tile(x, y) == filled.spec_tile(x, y));
                assert(filled.spec_tile(x, y).eqv(Tile::CAMPAIGNTRAILBORDER));
            }
        }
    }
    place_nodes(&mut world, graph, last_pos, maps, db);
    let ghost placed = world;
    let n_edges = graph.edges().len();
    let mut k: usize = 0;
    while k < n_edges
        invariant
            g == graph@,
            n_edges == g.edges.len(),
            valid_trail(g, last_pos),
            k <= n_edges,
            world.spec_width() == trail_width(g),
            world.spec_height() == trail_height(g),
            world.spec_spawn() == ((spawn_position(g, last_pos).0) as usize, (spawn_position(g, last_pos).1) as usize),
            forall|x: int, y: int|
                world.in_bounds(x, y) ==> shows(
                    #[trigger] world.spec_tile(x, y),
                    if on_first_edges(g, k as int, x, y) {
                        TrailTile::Walkway
                    } else {
                        nodes_tile(g, last_pos, maps@, db@, g.nodes, x, y)
                    },
                ),
        decreases n_edges - k,
    {
        let ghost before = world;
        draw_edge(&mut world, graph, last_pos, k);
        proof {
            assert forall|x: int, y: int| world.in_bounds(x, y) implies shows(
                #[trigger] world.spec_tile(x, y),
                if on_first_edges(g, k + 1, x, y) {
                    TrailTile::Walkway
                } else {
                    nodes_tile(g, last_pos, maps@, db@, g.nodes, x, y)
                },
            ) by {
                assert(before.in_bounds(x, y));
                if on_edge(g, g.edges[k as int], x, y) {
                    assert(on_first_edges(g, k + 1, x, y));
                } else if on_first_edges(g, k as int, x, y) {
                    let j = choose|j: int| 0 <= j < k && on_edge(g, #[trigger] g.edges[j], x, y);
                    assert(on_first_edges(g, k + 1, x, y));
                } else {
                    assert(!on_first_edges(g, k + 1, x, y)) by {
                        if on_first_edges(g, k + 1, x, y) {
                            let j = choose|j: int| 0 <= j < k + 1 && on_edge(g, #[trigger] g.edges[j], x, y);
                            if j < k {
                                assert(on_first_edges(g, k as int, x, y));
                            }
                        }
                    }
                }
            }
        }
        k += 1;
    }
    proof {
        assert forall|x: int, y: int| world.in_bounds(x, y) implies shows(
            #[trigger] world.spec_tile(x, y),
            base_tile(g, last_pos, maps@, db@, x, y),
        ) by {
            if on_first_edges(g, k as int, x, y) {
                let j = choose|j: int| 0 <= j < k && on_edge(g, #[trigger] g.edges[j], x, y);
                assert(on_some_edge(g, x, y));
            }
            if on_some_edge(g, x, y) {
                let j = choose|j: int| 0 <= j < g.edges.len() && on_edge(g, #[trigger] g.edges[j], x, y);
                assert(on_first_edges(g, k as int, x, y));
            }
        }
    }
    world
}

/// Some node of `v` has an edge to a node that lies at `(x, y)`.
pub open spec fn reached_from(g: GraphView, v: Set<NodeID>, x: int, y: int) -> bool {
    exists|k: int| 0 <= k < g.edges.len() && v.contains((#[trigger] g.edges[k]).0) && node_position(g, g.edges[k].1) == (x, y)
}

/// What the trail shows at `(x, y)` once the walk through the nodes `v` is done: a locked
/// entry point that a node of `v` leads to is open; every other tile is as before.
pub open spec fn trail_tile(
    g: GraphView,
    last: (Coord, Coord),
    maps: Seq<(String, [u8; 32])>,
    won: Seq<RecordsView>,
    v: Set<NodeID>,
    x: int,
    y: int,
) -> TrailTile {
    match base_tile(g, last, maps, won, x, y) {
        TrailTile::Locked(m) => if reached_from(g, v, x, y) {
            TrailTile::Entry(m)
        } else {
            TrailTile::Locked(m)
        },
        t => t,
    }
}

/// The edge `k` of `g` leads from a node of `v` to the node `id`.
pub open spec fn edge_into(g: GraphView, v: Set<NodeID>, k: int, id: NodeID) -> bool {
    0 <= k < g.edges.len() && v.contains(g.edges[k].0) && g.edges[k].1 == id
}

/// The set of nodes `v` is closed under the walk from the start node: the start node is in it;
/// a node that an edge from `v` leads to is in it unless its tile is a locked entry point; and
/// a node that two edges from `v` lead to is in it in any case (the first opens its entry
/// point, the second walks through).
pub open spec fn walk_closed(
    g: GraphView,
    last: (Coord, Coord),
    maps: Seq<(String, [u8; 32])>,
    won: Seq<RecordsView>,
    v: Set<NodeID>,
) -> bool {
    &&& v.contains(0)
    &&& forall|k: int|
        0 <= k < g.edges.len() && v.contains((#[trigger] g.edges[k]).0) && !(base_tile(
            g,
            last,
            maps,
            won,
            node_position(g, g.edges[k].1).0,
            node_position(g, g.edges[k].1).1,
        ) is Locked) ==> v.contains(g.edges[k].1)
    &&& forall|k1: int, k2: int, id: NodeID|
        k1 != k2 && #[trigger] edge_into(g, v, k1, id) && #[trigger] edge_into(g, v, k2, id) ==> v.contains(id)
}

/// `v` is a set of nodes that a walk from the start node reaches: it is closed under the walk,
/// its members are nodes, and each of them but the start node is led to by an edge from `v`.
pub open spec fn walked(
    g: GraphView,
    last: (Coord, Coord),
    maps: Seq<(String, [u8; 32])>,
    won: Seq<RecordsView>,
    v: Set<NodeID>,
) -> bool {
    &&& walk_closed(g, last, maps, won, v)
    &&& forall|id: NodeID| #[trigger] v.contains(id) ==> has_node(g.nodes, id)
    &&& forall|id: NodeID|
        #[trigger] v.contains(id) && id != 0 ==> exists|k: int|
            0 <= k < g.edges.len() && (#[trigger] g.edges[k]).1 == id && v.contains(g.edges[k].0)
}

/// No two nodes of `g` lie at the same position.
pub open spec fn distinct_positions(g: GraphView) -> bool {
    forall|i: int, j: int| 0 <= i < j < g.nodes.len() ==> (#[trigger] g.nodes[i]).coord != (#[trigger] g.nodes[j]).coord
}

/// Where no two nodes share a position, a position holds one node at most.
proof fn lemma_one_node_at(g: GraphView, a: NodeID, b: NodeID)
    requires
        distinct_positions(g),
        has_node(g.nodes, a),
        has_node(g.nodes, b),
        node_position(g, a) == node_position(g, b),
    ensures
        a == b,
{
    let ia = choose|i: int| 0 <= i < g.nodes.len() && #[trigger] g.nodes[i].id == a;
    let ib = choose|i: int| 0 <= i < g.nodes.len() && #[trigger] g.nodes[i].id == b;
    assert(g.nodes[ia].id == a && g.nodes[ib].id == b);
    assert(node_with_id(g, a).coord == node_with_id(g, b).coord);
    if ia < ib {
        assert(g.nodes[ia].coord != g.nodes[ib].coord);
    } else if ib < ia {
        assert(g.nodes[ib].coord != g.nodes[ia].coord);
    }
}

/// The number of `true` in `s`.
spec fn count_true(s: Seq<bool>) -> nat
    decreases s.len(),
{
    if s.len() == 0 {
        0
    } else {
        count_true(s.drop_last()) + if s.last() {
            1nat
        } else {
            0nat
        }
    }
}

/// There are no more `true` in `s` than it has elements, and none where all are `false`.
proof fn lemma_count_true_bound(s: Seq<bool>)
    ensures
        count_true(s) <= s.len(),
        (forall|i: int| 0 <= i < s.len() ==> !s[i]) ==> count_true(s) == 0,
    decreases s.len(),
{
    if s.len() > 0 {
        lemma_count_true_bound(s.drop_last());
        if forall|i: int| 0 <= i < s.len() ==> !s[i] {
            assert forall|i: int| 0 <= i < s.drop_last().len() implies !s.drop_last()[i] by {
                assert(s.drop_last()[i] == s[i]);
            }
        }
    }
}

/// Setting an element that is `false` to `true` adds one `true`.
proof fn lemma_count_true_update(s: Seq<bool>, i: int)
    requires
        0 <= i < s.len(),
        !s[i],
    ensures
        count_true(s.update(i, true)) == count_true(s) + 1,
    decreases s.len(),
{
    let t = s.update(i, true);
    if i == s.len() - 1 {
        assert(t.drop_last() =~= s.drop_last());
    } else {
        assert(t.drop_last() =~= s.drop_last().update(i, true));
        lemma_count_true_update(s.drop_last(), i);
    }
}

/// The edge `k` has been followed on the trail `w`: the tile of the node it leads to is not a
/// locked entry point, and that node is marked in `visited` or its tile was a locked entry
/// point before any was opened.
spec fn followed(
    g: GraphView,
    last: (Coord, Coord),
    maps: Seq<(String, [u8; 32])>,
    won: Seq<RecordsView>,
    w: GameWorld,
    visited: Seq<bool>,
    k: int,
) -> bool {
    let p = node_position(g, g.edges[k].1);
    &&& !(w.spec_tile(p.0, p.1) is CAMPAIGNTRAILLOCKEDMAPENTRYPOINT)
    &&& (visited[g.edges[k].1 as int] || base_tile(g, last, maps, won, p.0, p.1) is Locked)
}

/// The edge `k` has been walked along: it leads from a node in `popped`, and, where that
/// node is `cur`, it comes before the `j`-th edge.
spec fn processed(g: GraphView, popped: Set<NodeID>, cur: NodeID, j: int, k: int) -> bool {
    0 <= k < g.edges.len() && popped.contains(g.edges[k].0) && (g.edges[k].0 != cur || k < j)
}

/// Each tile of `w` shows what the trail showed before any locked entry point was opened, or
/// it was a locked entry point that is open now and an edge walked along leads to it.
spec fn opened_only(
    g: GraphView,
    last: (Coord, Coord),
    maps: Seq<(String, [u8; 32])>,
    won: Seq<RecordsView>,
    w: GameWorld,
    popped: Set<NodeID>,
    cur: NodeID,
    j: int,
) -> bool {
    forall|x: int, y: int|
        w.in_bounds(x, y) ==> shows(#[trigger] w.spec_tile(x, y), base_tile(g, last, maps, won, x, y)) || (
        base_tile(g, last, maps, won, x, y) matches TrailTile::Locked(m) && shows(w.spec_tile(x, y), TrailTile::Entry(m))
            && exists|k: int| #[trigger] processed(g, popped, cur, j, k) && node_position(g, g.edges[k].1) == (x, y))
}

/// Walking along more edges keeps the opened tiles accounted for.
proof fn lemma_opened_only_more(
    g: GraphView,
    last: (Coord, Coord),
    maps: Seq<(String, [u8; 32])>,
    won: Seq<RecordsView>,
    w: GameWorld,
    p1: Set<NodeID>,
    c1: NodeID,
    j1: int,
    p2: Set<NodeID>,
    c2: NodeID,
    j2: int,
)
    requires
        opened_only(g, last, maps, won, w, p1, c1, j1),
        forall|k: int| #[trigger] processed(g, p1, c1, j1, k) ==> processed(g, p2, c2, j2, k),
    ensures
        opened_only(g, last, maps, won, w, p2, c2, j2),
{
    assert forall|x: int, y: int| w.in_bounds(x, y) implies shows(#[trigger] w.spec_tile(x, y), base_tile(g, last, maps, won, x, y)) || (
    base_tile(g, last, maps, won, x, y) matches TrailTile::Locked(m) && shows(w.spec_tile(x, y), TrailTile::Entry(m))
        && exists|k: int| #[trigger] processed(g, p2, c2, j2, k) && node_position(g, g.edges[k].1) == (x, y)) by {
        if !shows(w.spec_tile(x, y), base_tile(g, last, maps, won, x, y)) {
            let k = choose|k: int| #[trigger] processed(g, p1, c1, j1, k) && node_position(g, g.edges[k].1) == (x, y);
            assert(processed(g, p2, c2, j2, k));
        }
    }
}

/// A node of a trail lies on the trail.
proof fn lemma_node_in_bounds(g: GraphView, last: (Coord, Coord), id: NodeID)
    requires
        valid_trail(g, last),
        has_node(g.nodes, id),
    ensures
        0 <= node_position(g, id).0 < trail_width(g),
        0 <= node_position(g, id).1 < trail_height(g),
{
    let i = choose|i: int| 0 <= i < g.nodes.len() && #[trigger] g.nodes[i].id == id;
    assert(g.nodes[i].id == id);
}

/// An edge that was followed stays followed while tiles that are not locked entry points stay
/// so and no mark is taken away.
proof fn lemma_followed_stays(
    g: GraphView,
    last: (Coord, Coord),
    maps: Seq<(String, [u8; 32])>,
    won: Seq<RecordsView>,
    w0: GameWorld,
    v0: Seq<bool>,
    w1: GameWorld,
    v1: Seq<bool>,
)
    requires
        valid_trail(g, last),
        w0.spec_width() == trail_width(g),
        w0.spec_height() == trail_height(g),
        forall|x: int, y: int|
            w0.in_bounds(x, y) && !(#[trigger] w0.spec_tile(x, y) is CAMPAIGNTRAILLOCKEDMAPENTRYPOINT) ==> !(w1.spec_tile(
                x,
                y,
            ) is CAMPAIGNTRAILLOCKEDMAPENTRYPOINT),
        v0.len() == v1.len() == 65536,
        forall|i: int| 0 <= i < v0.len() && #[trigger] v0[i] ==> v1[i],
    ensures
        forall|k: int|
            0 <= k < g.edges.len() && followed(g, last, maps, won, w0, v0, k) ==> #[trigger] followed(g, last, maps, won, w1, v1, k),
{
    assert forall|k: int| 0 <= k < g.edges.len() && followed(g, last, maps, won, w0, v0, k) implies #[trigger] followed(g, last, maps, won, w1, v1, k) by {
        assert(has_node(g.nodes, g.edges[k].1));
        lemma_node_in_bounds(g, last, g.edges[k].1);
        let p = node_position(g, g.edges[k].1);
        assert(w0.in_bounds(p.0, p.1));
        assert(!(w0.spec_tile(p.0, p.1) is CAMPAIGNTRAILLOCKEDMAPENTRYPOINT));
        if v0[g.edges[k].1 as int] {
            assert(v1[g.edges[k].1 as int]);
        }
    }
}

/// The campaign trail of `graph` as a map to walk on, for a player who last stood at
/// `last_pos` (in the coordinates of the graph), with the file names and hashes `maps` of the
/// campaign's maps and the player's results `db`.
///
/// The map spans the nodes; it shows border tiles, the spawn where the player last stood (or at
/// the start node, where that lies beyond the trail), each node as a walkway or as the entry
/// point of its map (open where the player has a result for the map, else locked), and walkways
/// between the nodes of each edge. A walk from the start node then follows the edges: a locked
/// entry point that it comes to is opened, and the walk goes on through every other node it
/// comes to, and through an entry point it opened when it comes to that again. Every locked
/// entry point that an edge from a walked node leads to is open in the end.
///
/// Where no two nodes share a position, the nodes walked are exactly the least set that is
/// closed under the walk (`walk_closed`). Where nodes share a position, which of them is
/// walked depends on the order of the walk, and the set is one that is closed under it.
pub fn trail_world(
    graph: &Graph,
    last_pos: (Coord, Coord),
    maps: &Vec<(String, [u8; 32])>,
    db: &HighscoresDatabase,
) -> (r: GameWorld)
    requires
        valid_trail(graph@, last_pos),
    ensures
        r.spec_width() == trail_width(graph@),
        r.spec_height() == trail_height(graph@),
        r.spec_spawn() == ((spawn_position(graph@, last_pos).0) as usize, (spawn_position(graph@, last_pos).1) as usize),
        exists|v: Set<NodeID>|
            {
                &&& walked(graph@, last_pos, maps@, db@, v)
                &&& distinct_positions(graph@) ==> forall|s: Set<NodeID>|
                    #[trigger] walk_closed(graph@, last_pos, maps@, db@, s) ==> v.subset_of(s)
                &&& forall|x: int, y: int|
                    r.in_bounds(x, y) ==> shows(
                        #[trigger] r.spec_tile(x, y),
                        trail_tile(graph@, last_pos, maps@, db@, v, x, y),
                    )
            },
{
    let ghost g = graph@;
    let ghost won = db@;
    let mut world = base_trail(graph, last_pos, maps, db);
    let ghost base = world;
    let min_x = graph.min_x() as i32;
    let min_y = graph.min_y() as i32;
    let edges = graph.edges();
    let ghost n_edges = g.edges.len() as int;
    let mut visited: Vec<bool> = Vec::new();
    let mut c: usize = 0;
    while c < 65536
        invariant
            c <= 65536,
            visited@.len() == c,
            forall|i: int| 0 <= i < c ==> !visited@[i],
        decreases 65536 - c,
    {
        visited.push(false);
        c += 1;
    }
    proof {
        lemma_count_true_bound(visited@);
        lemma_count_true_update(visited@, 0);
    }
    visited.set(0, true);
    let mut n_visited: usize = 1;
    let mut stack: Vec<NodeID> = Vec::new();
    stack.push(0);
    let ghost mut popped: Set<NodeID> = Set::empty();
    proof {
        assert(stack@[0] == 0u16);
        assert forall|id: NodeID| #[trigger] visited@[id as int] implies id == 0 by {}
        assert forall|sc: Set<NodeID>| #[trigger] walk_closed(g, last_pos, maps@, won, sc) implies (forall|id: NodeID|
            #[trigger] visited@[id as int] ==> sc.contains(id)) by {
            assert forall|id: NodeID| #[trigger] visited@[id as int] implies sc.contains(id) by {
                assert(id == 0);
            }
        }
    }
    while stack.len() > 0
        invariant
            g == graph@,
            won == db@,
            edges@ == g.edges,
            n_edges == g.edges.len(),
            valid_trail(g, last_pos),
            min_x == g.min_x,
            min_y == g.min_y,
            world.spec_width() == trail_width(g),
            world.spec_height() == trail_height(g),
            world.spec_spawn() == base.spec_spawn(),
            visited@.len() == 65536,
            n_visited == count_true(visited@),
            n_visited <= 65536,
            visited@[0],
            forall|id: NodeID| #[trigger] visited@[id as int] ==> has_node(g.nodes, id),
            forall|id: NodeID|
                #[trigger] visited@[id as int] && id != 0 ==> exists|k: int|
                    0 <= k < g.edges.len() && (#[trigger] g.edges[k]).1 == id && visited@[g.edges[k].0 as int],
            forall|i: int|
                0 <= i < stack@.len() ==> visited@[(#[trigger] stack@[i]) as int] && !popped.contains(stack@[i]),
            forall|i: int, i2: int| 0 <= i < i2 < stack@.len() ==> #[trigger] stack@[i] != #[trigger] stack@[i2],
            forall|id: NodeID| #[trigger] popped.contains(id) ==> visited@[id as int],
            forall|id: NodeID| #[trigger] visited@[id as int] ==> popped.contains(id) || stack@.contains(id),
            forall|k: int|
                #[trigger] processed(g, popped, 0, n_edges, k) ==> followed(g, last_pos, maps@, won, world, visited@, k),
            forall|k1: int, k2: int|
                #[trigger] processed(g, popped, 0, n_edges, k1) && #[trigger] processed(g, popped, 0, n_edges, k2) && k1
                    != k2 && g.edges[k1].1 == g.edges[k2].1 ==> visited@[g.edges[k1].1 as int],
            opened_only(g, last_pos, maps@, won, world, popped, 0, n_edges),
            distinct_positions(g) ==> forall|sc: Set<NodeID>|
                #[trigger] walk_closed(g, last_pos, maps@, won, sc) ==> (forall|id: NodeID|
                    #[trigger] visited@[id as int] ==> sc.contains(id)),
            forall|x: int, y: int|
                base.in_bounds(x, y) ==> shows(#[trigger] base.spec_tile(x, y), base_tile(g, last_pos, maps@, won, x, y)),
        decreases 65536 - n_visited, stack@.len(),
    {
        proof {
            lemma_count_true_bound(visited@);
        }
        let ghost old_stack = stack@;
        let ghost old_popped = popped;
        let cur = match stack.pop() {
            Some(c) => c,
            None => 0,
        };
        proof {
            popped = popped.insert(cur);
            assert(old_stack[old_stack.len() - 1] == cur);
            assert forall|k: int| #[trigger] processed(g, popped, cur, 0, k) <==> processed(g, old_popped, 0, n_edges, k) by {}
            lemma_opened_only_more(g, last_pos, maps@, won, world, old_popped, 0, n_edges, popped, cur, 0);
            assert forall|i: int| 0 <= i < stack@.len() implies visited@[(#[trigger] stack@[i]) as int] && !popped.contains(
                stack@[i],
            ) by {
                assert(stack@[i] == old_stack[i]);
                assert(old_stack[i] != old_stack[old_stack.len() - 1]);
            }
            assert forall|id: NodeID| #[trigger] visited@[id as int] implies popped.contains(id) || stack@.contains(id) by {
                if old_stack.contains(id) && id != cur {
                    let i = choose|i: int| 0 <= i < old_stack.len() && old_stack[i] == id;
                    assert(stack@[i] == id);
                }
            }
        }
        let ghost n0 = n_visited;
        let ghost s0 = stack@.len();
        let mut j: usize = 0;
        while j < edges.len()
            invariant
                g == graph@,
                won == db@,
                edges@ == g.edges,
                n_edges == g.edges.len(),
                valid_trail(g, last_pos),
                min_x == g.min_x,
                min_y == g.min_y,
                j <= edges@.len(),
                world.spec_width() == trail_width(g),
                world.spec_height() == trail_height(g),
                world.spec_spawn() == base.spec_spawn(),
                visited@.len() == 65536,
                n_visited == count_true(visited@),
                n_visited >= n0,
                n_visited <= 65536,
                n_visited == n0 ==> stack@.len() == s0,
                visited@[0],
                visited@[cur as int],
                popped.contains(cur),
                forall|id: NodeID| #[trigger] visited@[id as int] ==> has_node(g.nodes, id),
                forall|id: NodeID|
                    #[trigger] visited@[id as int] && id != 0 ==> exists|k: int|
                        0 <= k < g.edges.len() && (#[trigger] g.edges[k]).1 == id && visited@[g.edges[k].0 as int],
                forall|i: int|
                    0 <= i < stack@.len() ==> visited@[(#[trigger] stack@[i]) as int] && !popped.contains(stack@[i]),
                forall|i: int, i2: int| 0 <= i < i2 < stack@.len() ==> #[trigger] stack@[i] != #[trigger] stack@[i2],
                forall|id: NodeID| #[trigger] popped.contains(id) ==> visited@[id as int],
                forall|id: NodeID| #[trigger] visited@[id as int] ==> popped.contains(id) || stack@.contains(id),
                forall|k: int|
                    #[trigger] processed(g, popped, cur, j as int, k) ==> followed(g, last_pos, maps@, won, world, visited@, k),
                forall|k1: int, k2: int|
                    #[trigger] processed(g, popped, cur, j as int, k1) && #[trigger] processed(g, popped, cur, j as int, k2)
                        && k1 != k2 && g.edges[k1].1 == g.edges[k2].1 ==> visited@[g.edges[k1].1 as int],
                opened_only(g, last_pos, maps@, won, world, popped, cur, j as int),
                distinct_positions(g) ==> forall|sc: Set<NodeID>|
                    #[trigger] walk_closed(g, last_pos, maps@, won, sc) ==> (forall|id: NodeID|
                        #[trigger] visited@[id as int] ==> sc.contains(id)),
                forall|x: int, y: int|
                    base.in_bounds(x, y) ==> shows(#[trigger] base.spec_tile(x, y), base_tile(g, last_pos, maps@, won, x, y)),
            decreases edges@.len() - j,
        {
            if edges[j].0 == cur {
                let t = edges[j].1;
                assert(has_node(g.nodes, g.edges[j as int].1));
                let n = node_by_id(graph, t);
                proof {
                    lemma_node_in_bounds(g, last_pos, t);
                }
                let px = n.coord.0 as i32 - min_x;
                let py = n.coord.1 as i32 - min_y;
                let opened: Option<InteractionKind> = match world.get(px, py) {
                    Some(Tile::CAMPAIGNTRAILLOCKEDMAPENTRYPOINT { interaction }) => Some(interaction.clone()),
                    _ => None,
                };
                let ghost w0 = world;
                let ghost v0 = visited@;
                let ghost st0 = stack@;
                proof {
                    assert(node_position(g, t) == (px as int, py as int));
                    assert forall|k: int| #[trigger] processed(g, popped, cur, j + 1, k) <==> (processed(
                        g,
                        popped,
                        cur,
                        j as int,
                        k,
                    ) || k == j) by {}
                    lemma_opened_only_more(g, last_pos, maps@, won, world, popped, cur, j as int, popped, cur, j + 1);
                }
                match opened {
                    Some(interaction) => {
                        world.set(px as usize, py as usize, Tile::CAMPAIGNTRAILMAPENTRYPOINT { interaction });
                        proof {
                            assert(w0.spec_tile(px as int, py as int) is CAMPAIGNTRAILLOCKEDMAPENTRYPOINT);
                            assert(shows(w0.spec_tile(px as int, py as int), base_tile(g, last_pos, maps@, won, px as int, py as int)));
                            assert(processed(g, popped, cur, j + 1, j as int));
                            assert forall|x: int, y: int| world.in_bounds(x, y) implies shows(
                                #[trigger] world.spec_tile(x, y),
                                base_tile(g, last_pos, maps@, won, x, y),
                            ) || (base_tile(g, last_pos, maps@, won, x, y) matches TrailTile::Locked(m) && shows(
                                world.spec_tile(x, y),
                                TrailTile::Entry(m),
                            ) && exists|k: int|
                                #[trigger] processed(g, popped, cur, j + 1, k) && node_position(g, g.edges[k].1) == (x, y)) by {
                                if x == px && y == py {
                                    assert(processed(g, popped, cur, j + 1, j as int));
                                } else {
                                    assert(world.spec_tile(x, y) == w0.spec_tile(x, y));
                                    if !shows(w0.spec_tile(x, y), base_tile(g, last_pos, maps@, won, x, y)) {
                                        let k = choose|k: int|
                                            #[trigger] processed(g, popped, cur, j as int, k) && node_position(g, g.edges[k].1) == (x, y);
                                        assert(processed(g, popped, cur, j + 1, k));
                                    }
                                }
                            }
                            assert forall|k: int| #[trigger] processed(g, popped, cur, j as int, k) && g.edges[k].1 == t implies false by {
                                assert(followed(g, last_pos, maps@, won, w0, v0, k));
                            }
                        }
                    },
                    None => {
                        if !visited[t as usize] {
                            proof {
                                lemma_count_true_update(visited@, t as int);
                                lemma_count_true_bound(visited@.update(t as int, true));
                                if distinct_positions(g) {
                                    assert forall|sc: Set<NodeID>| #[trigger] walk_closed(g, last_pos, maps@, won, sc) implies sc.contains(t) by {
                                        assert(v0[cur as int]);
                                        assert(sc.contains(cur));
                                        let p = node_position(g, t);
                                        if !(base_tile(g, last_pos, maps@, won, p.0, p.1) is Locked) {
                                            assert(sc.contains(g.edges[j as int].0));
                                        } else {
                                            assert(!shows(w0.spec_tile(px as int, py as int), base_tile(g, last_pos, maps@, won, px as int, py as int)));
                                            let k = choose|k: int|
                                                #[trigger] processed(g, popped, cur, j as int, k) && node_position(g, g.edges[k].1) == (px as int, py as int);
                                            assert(has_node(g.nodes, g.edges[k].1));
                                            lemma_one_node_at(g, g.edges[k].1, t);
                                            assert(popped.contains(g.edges[k].0));
                                            assert(v0[g.edges[k].0 as int]);
                                            assert(edge_into(g, sc, k, t));
                                            assert(edge_into(g, sc, j as int, t));
                                        }
                                    }
                                }
                            }
                            visited.set(t as usize, true);
                            n_visited += 1;
                            stack.push(t);
                            proof {
                                assert(g.edges[j as int].1 == t && visited@[g.edges[j as int].0 as int]);
                                assert forall|i: int| 0 <= i < st0.len() implies stack@[i] == st0[i] by {}
                                assert(stack@[st0.len() as int] == t);
                                assert forall|i: int| 0 <= i < st0.len() implies st0[i] != t by {
                                    assert(v0[st0[i] as int]);
                                }
                                assert forall|id: NodeID| #[trigger] visited@[id as int] implies popped.contains(id) || stack@.contains(id) by {
                                    if id != t {
                                        assert(v0[id as int]);
                                        if st0.contains(id) {
                                            let i = choose|i: int| 0 <= i < st0.len() && st0[i] == id;
                                            assert(stack@[i] == id);
                                        }
                                    }
                                }
                                if distinct_positions(g) {
                                    assert forall|sc: Set<NodeID>| #[trigger] walk_closed(g, last_pos, maps@, won, sc) implies (forall|id: NodeID|
                                        #[trigger] visited@[id as int] ==> sc.contains(id)) by {
                                        assert forall|id: NodeID| #[trigger] visited@[id as int] implies sc.contains(id) by {
                                            if id != t {
                                                assert(v0[id as int]);
                                            }
                                        }
                                    }
                                }
                            }
                        }
                    },
                }
                proof {
                    lemma_followed_stays(g, last_pos, maps@, won, w0, v0, world, visited@);
                    assert(followed(g, last_pos, maps@, won, world, visited@, j as int));
                    assert forall|k: int| #[trigger] processed(g, popped, cur, j + 1, k) implies followed(
                        g,
                        last_pos,
                        maps@,
                        won,
                        world,
                        visited@,
                        k,
                    ) by {
                        if k != j {
                            assert(processed(g, popped, cur, j as int, k));
                            assert(followed(g, last_pos, maps@, won, w0, v0, k));
                        }
                    }
                    assert forall|k1: int, k2: int|
                        #[trigger] processed(g, popped, cur, j + 1, k1) && #[trigger] processed(g, popped, cur, j + 1, k2) && k1
                            != k2 && g.edges[k1].1 == g.edges[k2].1 implies visited@[g.edges[k1].1 as int] by {
                        if k1 != j && k2 != j {
                            assert(processed(g, popped, cur, j as int, k1) && processed(g, popped, cur, j as int, k2));
                            assert(v0[g.edges[k1].1 as int]);
                        }
                    }
                }
            } else {
                proof {
                    assert forall|k: int| #[trigger] processed(g, popped, cur, j + 1, k) <==> processed(
                        g,
                        popped,
                        cur,
                        j as int,
                        k,
                    ) by {}
                    lemma_opened_only_more(g, last_pos, maps@, won, world, popped, cur, j as int, popped, cur, j + 1);
                }
            }
            j += 1;
        }
        proof {
            assert forall|k: int| #[trigger] processed(g, popped, 0, n_edges, k) <==> processed(g, popped, cur, j as int, k) by {}
            lemma_opened_only_more(g, last_pos, maps@, won, world, popped, cur, j as int, popped, 0, n_edges);
        }
    }
    proof {
        let v = Set::new(|id: NodeID| visited@[id as int]);
        assert forall|k: int| 0 <= k < g.edges.len() && v.contains(g.edges[k].0) implies #[trigger] processed(
            g,
            popped,
            0,
            n_edges,
            k,
        ) by {
            assert(popped.contains(g.edges[k].0) || stack@.contains(g.edges[k].0));
        }
        assert(walk_closed(g, last_pos, maps@, won, v)) by {
            assert forall|k1: int, k2: int, id: NodeID|
                k1 != k2 && #[trigger] edge_into(g, v, k1, id) && #[trigger] edge_into(g, v, k2, id) implies v.contains(id) by {
                assert(processed(g, popped, 0, n_edges, k1) && processed(g, popped, 0, n_edges, k2));
            }
            assert forall|k: int|
                0 <= k < g.edges.len() && v.contains((#[trigger] g.edges[k]).0) && !(base_tile(
                    g,
                    last_pos,
                    maps@,
                    won,
                    node_position(g, g.edges[k].1).0,
                    node_position(g, g.edges[k].1).1,
                ) is Locked) implies v.contains(g.edges[k].1) by {
                assert(processed(g, popped, 0, n_edges, k));
            }
        }
        assert(walked(g, last_pos, maps@, won, v));
        if distinct_positions(g) {
            assert forall|sc: Set<NodeID>| #[trigger] walk_closed(g, last_pos, maps@, won, sc) implies v.subset_of(sc) by {
                assert forall|id: NodeID| v.contains(id) implies sc.contains(id) by {
                    assert(visited@[id as int]);
                }
            }
        }
        assert forall|x: int, y: int| world.in_bounds(x, y) implies shows(
            #[trigger] world.spec_tile(x, y),
            trail_tile(g, last_pos, maps@, won, v, x, y),
        ) by {
            if reached_from(g, v, x, y) {
                let k = choose|k: int|
                    0 <= k < g.edges.len() && v.contains((#[trigger] g.edges[k]).0) && node_position(g, g.edges[k].1) == (x, y);
                assert(processed(g, popped, 0, n_edges, k));
                assert(followed(g, last_pos, maps@, won, world, visited@, k));
            } else if !shows(world.spec_tile(x, y), base_tile(g, last_pos, maps@, won, x, y)) {
                let k = choose|k: int| #[trigger] processed(g, popped, 0, n_edges, k) && node_position(g, g.edges[k].1) == (x, y);
                assert(v.contains(g.edges[k].0));
            }
        }
    }
    world
}

} // verus!
