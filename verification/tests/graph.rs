use libexodus::campaign::graph::{Coord, Graph, GraphParseError, GraphValidationError, Node, NodeID, NodeKind};
use libexodus::campaign::syntax::{parse_edge_line, parse_node_line, EdgeParseResult, NodeParseResult};
use libexodus::numbers::{IntErrorKind, ParseIntError};

/// Assert that a node with the given properties exists in the graph.
fn assert_node_in_graph(graph: &Graph, id: NodeID, kind: NodeKind, coord: (Coord, Coord)) {
    assert_eq!(
        graph.get_node(&id),
        Some(&Node { id, kind, coord }),
        "Expected Node with ID {} to be inside graph!",
        id
    )
}

/// Assert that the ordered list of node IDs is connected in the given graph.
fn assert_edges_are_connected(graph: &Graph, edges: &[NodeID]) {
    if edges.len() <= 1 {
        assert_eq!(graph.edges().len(), 0, "Expected Graph to have no edges at all!");
    }
    let mut prev: Option<NodeID> = None;
    for &next_node in edges {
        prev = match prev {
            None => next_node,
            Some(prev_node) => {
                assert!(
                    graph.edges().contains(&(prev_node, next_node)),
                    "Expected Node {} to be connected to node {}!",
                    prev_node,
                    next_node
                );
                next_node
            },
        }
        .into();
    }
}

#[test]
fn test_simple_in_memory_deserialization() {
    let graph_file: String = r#"
        0 0 0
        1 0 1
        2 1 1
        3 1 0
        #
        0 1
        1 2
        2 3
        3 0
        "#
    .to_string();
    let mut graph = Graph::default();
    let result = graph.parse(graph_file.as_bytes());
    if result.is_err() {
        panic!("{:?}", result.unwrap_err());
    }
    assert_eq!(graph.nodes().len(), 4);
    assert_node_in_graph(&graph, 0, NodeKind::Empty, (0, 0));
    assert_node_in_graph(&graph, 1, NodeKind::Empty, (0, 1));
    assert_node_in_graph(&graph, 2, NodeKind::Empty, (1, 1));
    assert_node_in_graph(&graph, 3, NodeKind::Empty, (1, 0));
    assert_edges_are_connected(&graph, &[0, 1, 2, 3, 0]);
}

#[test]
fn test_simple_in_memory_deserialization_with_edge_names() {
    let graph_file: String = r#"
        0 0 0
        1 0 1
        2 1 1
        3 1 0
        #
        0 1 Campaign Mode
        1 2 lululu
        2 3 1 2 3 4 5 Text
        3 0 TestCase
        "#
    .to_string();
    let mut graph = Graph::default();
    let result = graph.parse(graph_file.as_bytes());
    assert!(result.is_ok());
    assert_eq!(graph.nodes().len(), 4);
    assert_node_in_graph(&graph, 0, NodeKind::Empty, (0, 0));
    assert_node_in_graph(&graph, 1, NodeKind::Empty, (0, 1));
    assert_node_in_graph(&graph, 2, NodeKind::Empty, (1, 1));
    assert_node_in_graph(&graph, 3, NodeKind::Empty, (1, 0));
    assert_edges_are_connected(&graph, &[0, 1, 2, 3, 0]);
    assert_eq!("Campaign Mode", graph.edge_label(0, 1).unwrap());
    assert_eq!("lululu", graph.edge_label(1, 2).unwrap());
    assert_eq!("1 2 3 4 5 Text", graph.edge_label(2, 3).unwrap());
    assert_eq!("TestCase", graph.edge_label(3, 0).unwrap());
}

#[test]
fn test_simple_in_memory_deserialization_with_edge_names_and_file_names() {
    let graph_file: String = r#"
        0 0 0
        1 testmap.exm 0 1
        2 hello world.exm 1 1
        3 Oh! Really?.exm 1 0
        #
        0 1 Campaign Mode
        1 2 lululu
        2 3 1 2 3 4 5 Text
        3 0 TestCase
        "#
    .to_string();
    let mut graph = Graph::default();
    let result = graph.parse(graph_file.as_bytes());
    assert!(result.is_ok());
    assert_eq!(graph.nodes().len(), 4);
    assert_node_in_graph(&graph, 0, NodeKind::Empty, (0, 0));
    assert_node_in_graph(&graph, 1, NodeKind::MapFilename { map: "testmap.exm".to_string() }, (0, 1));
    assert_node_in_graph(&graph, 2, NodeKind::MapFilename { map: "hello world.exm".to_string() }, (1, 1));
    assert_node_in_graph(&graph, 3, NodeKind::MapFilename { map: "Oh! Really?.exm".to_string() }, (1, 0));
    assert_edges_are_connected(&graph, &[0, 1, 2, 3, 0]);
    assert_eq!("Campaign Mode", graph.edge_label(0, 1).unwrap());
    assert_eq!("lululu", graph.edge_label(1, 2).unwrap());
    assert_eq!("1 2 3 4 5 Text", graph.edge_label(2, 3).unwrap());
    assert_eq!("TestCase", graph.edge_label(3, 0).unwrap());
    assert_eq!(2usize, graph.width());
    assert_eq!(2usize, graph.height());
}

fn assert_unnamed_node(result: &NodeParseResult, id: &str, x: &str, y: &str) {
    match result {
        NodeParseResult::UnnamedNode { id: i, x: a, y: b } => {
            assert_eq!(i, id);
            assert_eq!(a, x);
            assert_eq!(b, y);
        },
        _ => panic!("Got {:?}", result),
    }
}

fn assert_named_node(result: &NodeParseResult, id: &str, map_file: &str, x: &str, y: &str) {
    match result {
        NodeParseResult::NamedNode { id: i, map_file: m, x: a, y: b } => {
            assert_eq!(i, id);
            assert_eq!(m, map_file);
            assert_eq!(a, x);
            assert_eq!(b, y);
        },
        _ => panic!("Got {:?}", result),
    }
}

#[test]
fn test_parse_node_line_1() {
    let line = "0 1 2".to_string();
    let result = parse_node_line(line.as_str());
    assert_unnamed_node(&result, "0", "1", "2");
}

#[test]
fn test_parse_node_line_2() {
    let line = "  \t 0 12 2345   \t \t".to_string();
    let result = parse_node_line(line.as_str());
    assert_unnamed_node(&result, "0", "12", "2345");
}

#[test]
fn test_parse_node_line_3() {
    let line = "  \t 0 map \t\t  12      2345   \t \t".to_string();
    let result = parse_node_line(line.as_str());
    assert_named_node(&result, "0", "map", "12", "2345");
}

#[test]
fn test_parse_node_line_4() {
    let line = "  \t 0 map with whitespaces.exm \t\t  -12345      -2   \t \t".to_string();
    let result = parse_node_line(line.as_str());
    assert_named_node(&result, "0", "map with whitespaces.exm", "-12345", "-2");
}

#[test]
fn test_parse_node_line_5() {
    let line = "  \t #   \t \t".to_string();
    let result = parse_node_line(line.as_str());
    assert!(matches!(result, NodeParseResult::Hash), "Got {:?}", result);
}

#[test]
fn test_parse_node_line_6() {
    let line = "  \t    \t \t".to_string();
    let result = parse_node_line(line.as_str());
    assert!(matches!(result, NodeParseResult::Empty), "Got {:?}", result);
}

#[test]
fn test_parse_node_line_err_1() {
    let line = "0 1".to_string();
    let result = parse_node_line(line.as_str());
    assert!(matches!(result, NodeParseResult::Error), "Expected Parse Error, got {:?}", result);
}

#[test]
fn test_parse_node_line_err_2() {
    let line = "# 0 ".to_string();
    let result = parse_node_line(line.as_str());
    assert!(matches!(result, NodeParseResult::Error), "Expected Parse Error, got {:?}", result);
}

fn assert_unnamed_edge(result: &EdgeParseResult, id_a: &str, id_b: &str) {
    match result {
        EdgeParseResult::UnnamedEdge { id_a: a, id_b: b } => {
            assert_eq!(a, id_a);
            assert_eq!(b, id_b);
        },
        _ => panic!("Got {:?}", result),
    }
}

fn assert_named_edge(result: &EdgeParseResult, id_a: &str, id_b: &str, edge_label: &str) {
    match result {
        EdgeParseResult::NamedEdge { id_a: a, id_b: b, edge_label: l } => {
            assert_eq!(a, id_a);
            assert_eq!(b, id_b);
            assert_eq!(l, edge_label);
        },
        _ => panic!("Got {:?}", result),
    }
}

#[test]
fn test_parse_edge_line_1() {
    let line = "0 1".to_string();
    let result = parse_edge_line(line.as_str());
    assert_unnamed_edge(&result, "0", "1");
}

#[test]
fn test_parse_edge_line_2() {
    let line = "0 1 lululu".to_string();
    let result = parse_edge_line(line.as_str());
    assert_named_edge(&result, "0", "1", "lululu");
}

#[test]
fn test_parse_edge_line_3() {
    let line = "0 1 lululu Name with Whitespaces".to_string();
    let result = parse_edge_line(line.as_str());
    assert_named_edge(&result, "0", "1", "lululu Name with Whitespaces");
}

#[test]
fn test_parse_edge_line_4() {
    let line = "\t 0123 12345  \t\t  lululu Name with Whitespaces \t\t".to_string();
    let result = parse_edge_line(line.as_str());
    assert_named_edge(&result, "0123", "12345", "lululu Name with Whitespaces");
}

#[test]
fn test_parse_edge_line_5() {
    let line = "\t   \t\t  \t\t".to_string();
    let result = parse_edge_line(line.as_str());
    assert!(matches!(result, EdgeParseResult::Empty), "Got {:?}", result);
}

#[test]
fn test_parse_edge_line_err_1() {
    let line = "#".to_string();
    let result = parse_edge_line(line.as_str());
    assert!(matches!(result, EdgeParseResult::Error), "Expected Parse Error, got {:?}", result);
}

#[test]
fn test_simple_in_memory_deserialization_with_filenames() {
    let graph_file: String = r#"
        0 0 0
        1 map1.exm 0 1
        2 map with whitespaces.exm 1 1
        3 map 1 2 3 1 0
        #
        0 1
        1 2
        2 3
        3 0
        "#
    .to_string();
    let mut graph = Graph::default();
    match graph.parse(graph_file.as_bytes()) {
        Ok(_) => {},
        Err(e) => panic!("{:?}", e),
    };
    assert_eq!(graph.nodes().len(), 4);
    assert_node_in_graph(&graph, 0, NodeKind::Empty, (0, 0));
    assert_node_in_graph(&graph, 1, NodeKind::MapFilename { map: "map1.exm".to_string() }, (0, 1));
    assert_node_in_graph(&graph, 2, NodeKind::MapFilename { map: "map with whitespaces.exm".to_string() }, (1, 1));
    assert_node_in_graph(&graph, 3, NodeKind::MapFilename { map: "map 1 2 3".to_string() }, (1, 0));
    assert_edges_are_connected(&graph, &[0, 1, 2, 3, 0]);
}

#[test]
fn test_simple_in_memory_deserialization_with_empty_edges() {
    let graph_file: String = r#"
        0 0 0
        1 0 2
        2 2 2
        3 2 0
        #
        "#
    .to_string();
    let mut graph = Graph::default();
    let result = graph.parse(graph_file.as_bytes());
    assert!(result.is_ok());
    assert_eq!(graph.nodes().len(), 4);
    assert_edges_are_connected(&graph, &[]);
}

#[test]
fn test_limits_simple() {
    let graph_file: String = r#"
        0 0 0
        1 -2 2
        2 2 2
        3 2 0
        #
        0 3 lululu
        "#
    .to_string();
    let mut graph = Graph::default();
    let result = graph.parse(graph_file.as_bytes());
    assert!(result.is_ok());
    assert_eq!(graph.min_x(), -2);
    assert_eq!(graph.max_x(), 2);
    assert_eq!(graph.min_y(), 0);
    assert_eq!(graph.max_y(), 2);
    assert_eq!(5, graph.width());
    assert_eq!(3, graph.height());
}

#[test]
fn test_err_graph_adjacent_nodes() {
    let graph_file: String = r#"
        0 0 0
        1 0 1
        #
        "#
    .to_string();
    let mut graph = Graph::default();
    let result = graph.parse(graph_file.as_bytes());
    assert!(matches!(
        result.expect_err("Expected unconnected adjacent nodes to return a Validation Error"),
        GraphParseError::ValidationError { error: GraphValidationError::AdjacentNodesAreNotConnected { .. } }
    ));
}

#[test]
fn test_err_graph_not_a_number() {
    let graph_file: String = r#"
        0 0 0
        1 0 2
        3 x 1
        #
        "#
    .to_string();
    let mut graph = Graph::default();
    let result = graph.parse(graph_file.as_bytes());
    assert!(matches!(
        result.expect_err("Expected graphs containing invalid numbers to return a Parse Error"),
        GraphParseError::InvalidInteger { error: ParseIntError { .. } }
    ));
}

#[test]
fn graph_duplicate_node_id_is_reported_with_its_line() {
    let graph_file = "0 0 0\n1 5 5\n0 9 9\n#\n";
    let mut graph = Graph::default();
    let result = graph.parse(graph_file.as_bytes());
    assert!(matches!(result, Err(GraphParseError::DuplicateNodeId { line: 2, id: 0 })));
    assert_eq!(graph.nodes().len(), 0);
}

#[test]
fn graph_syntax_error_is_reported_with_its_line() {
    let graph_file = "0 0 0\n1 2\n#\n";
    let mut graph = Graph::default();
    let result = graph.parse(graph_file.as_bytes());
    assert!(matches!(result, Err(GraphParseError::SyntaxError { line: 1 })));
}

#[test]
fn graph_second_label_for_an_edge_is_a_duplicate() {
    let graph_file = "0 0 0\n1 0 1\n#\n0 1 first\n1 0 second\n";
    let mut graph = Graph::default();
    let result = graph.parse(graph_file.as_bytes());
    match result {
        Err(GraphParseError::DuplicateEdgeLabel { label }) => assert_eq!(label, "first"),
        other => panic!("Expected a duplicate edge label, got {:?}", other),
    }
}

#[test]
fn graph_labelled_loop_is_a_duplicate() {
    let graph_file = "0 0 0\n#\n0 0 loop\n";
    let mut graph = Graph::default();
    let result = graph.parse(graph_file.as_bytes());
    match result {
        Err(GraphParseError::DuplicateEdgeLabel { label }) => assert_eq!(label, "loop"),
        other => panic!("Expected a duplicate edge label, got {:?}", other),
    }
}

#[test]
fn graph_integer_errors_have_their_kind() {
    let mut graph = Graph::default();
    let result = graph.parse("70000 0 0\n#\n".as_bytes());
    assert!(matches!(
        result,
        Err(GraphParseError::InvalidInteger { error: ParseIntError { kind: IntErrorKind::PosOverflow } })
    ));
    let result = graph.parse("0 0 -40000\n#\n".as_bytes());
    assert!(matches!(
        result,
        Err(GraphParseError::InvalidInteger { error: ParseIntError { kind: IntErrorKind::NegOverflow } })
    ));
    let result = graph.parse("-1 0 0\n#\n".as_bytes());
    assert!(matches!(
        result,
        Err(GraphParseError::InvalidInteger { error: ParseIntError { kind: IntErrorKind::InvalidDigit } })
    ));
}

#[test]
fn graph_invalid_utf8_is_an_io_error() {
    let mut graph = Graph::default();
    let result = graph.parse(&[0x30, 0x20, 0x30, 0x20, 0xff, 0x0a]);
    assert_eq!(result.unwrap_err().numeric_error(), 5);
}

#[test]
fn graph_error_numbers() {
    assert_eq!(GraphParseError::SyntaxError { line: 0 }.numeric_error(), 0);
    assert_eq!(GraphParseError::MissingEdgeSpecificationSection.numeric_error(), 3);
    let e = GraphValidationError::AdjacentNodesAreNotConnected {
        node1_id: 0,
        node1_x: 0,
        node1_y: 0,
        node2_id: 1,
        node2_x: 0,
        node2_y: 1,
    };
    assert_eq!(e.numeric_error(), 0);
    assert_eq!(GraphParseError::ValidationError { error: e }.numeric_error(), 7);
}

#[test]
fn graph_serialize_writes_nodes_and_edges() {
    let graph_file = "0 0 0\n1 my map.exm 0 1\n#\n0 1 go\n";
    let mut graph = Graph::default();
    assert!(graph.parse(graph_file.as_bytes()).is_ok());
    assert_eq!(graph.serialize(), "0 0 0\n1 my map.exm 0 1\n#\n0 1 go\n1 0 go\n");
}

#[test]
fn node_adjacency() {
    let a = Node { id: 0, kind: NodeKind::Empty, coord: (0, 0) };
    let b = Node { id: 1, kind: NodeKind::Empty, coord: (0, 1) };
    let c = Node { id: 2, kind: NodeKind::Empty, coord: (1, 1) };
    assert!(a.is_adjacent_to(&b));
    assert!(b.is_adjacent_to(&a));
    assert!(!a.is_adjacent_to(&c));
    assert!(b.is_adjacent_to(&c));
}

#[test]
fn graph_lines_read_back_what_serialize_wrote() {
    // Nodes far apart and no edges: each line that serialize writes reads back as it was.
    let graph_file = "7 -32768 32767\n65535 a map.exm 10 -10\n#\n";
    let mut graph = Graph::default();
    assert!(graph.parse(graph_file.as_bytes()).is_ok());
    let text = graph.serialize();
    assert_eq!(text, graph_file);
    let mut again = Graph::default();
    assert!(again.parse(text.as_bytes()).is_ok());
    assert_eq!(again.serialize(), text);
    assert_node_in_graph(&again, 7, NodeKind::Empty, (-32768, 32767));
    assert_node_in_graph(&again, 65535, NodeKind::MapFilename { map: "a map.exm".to_string() }, (10, -10));
}

#[test]
fn graph_edges_are_written_in_both_directions() {
    // An edge is written once for each direction, so reading the text back doubles it,
    // and a labelled edge comes back as a duplicate label.
    let mut graph = Graph::default();
    assert!(graph.parse("0 0 0\n1 0 1\n#\n0 1\n".as_bytes()).is_ok());
    let text = graph.serialize();
    assert_eq!(text, "0 0 0\n1 0 1\n#\n0 1\n1 0\n");
    let mut again = Graph::default();
    assert!(again.parse(text.as_bytes()).is_ok());
    assert_eq!(again.serialize(), "0 0 0\n1 0 1\n#\n0 1\n1 0\n1 0\n0 1\n");
    let mut labelled = Graph::default();
    assert!(labelled.parse("0 0 0\n1 0 1\n#\n0 1 go\n".as_bytes()).is_ok());
    let mut again = Graph::default();
    let result = again.parse(labelled.serialize().as_bytes());
    assert!(matches!(result, Err(GraphParseError::DuplicateEdgeLabel { .. })));
}
