//! Campaign graphs and their text format.
//!
//! A graph file lists nodes, one per line, as `id x y` or `id map x y`; a line `#` ends the
//! node section, and edges follow, one per line, as `id_a id_b` or `id_a id_b label`. An edge
//! connects both of its nodes with each other. Lines of white space only are skipped, and
//! nodes that lie next to each other must be connected by an edge.
use crate::campaign::syntax::{
    is_white_space, lemma_first_token_at_start, lemma_tokens, lemma_tokens_piece_space, lemma_tokens_word,
    parse_edge_line, parse_node_line, shift_tokens, spec_edge_line, spec_node_line, token, tokens, EdgeLine,
    EdgeParseResult, NodeLine, NodeParseResult,
};
use crate::io_error::{io_message, push_io_message, IoError};
use crate::numbers::{
    is_digit, lemma_decimal_is_digits, lemma_parse_decimal, lemma_parse_signed_decimal, parse_i16, parse_u16,
    push_decimal, push_signed_decimal, spec_decimal, spec_parse_int,
    spec_int_error_message, spec_signed_decimal, IntErrorKind, ParseIntError,
};
use crate::text::{chars_of, push_str, string_from_chars};
use vstd::prelude::*;
use crate::codec::{lemma_encode_utf8_concat, lemma_encode_utf8_no_line_feed};
use vstd::utf8::{decode_utf8, encode_utf8, encode_utf8_decode_utf8, encode_utf8_valid_utf8, valid_utf8};

verus! {

pub type NodeID = u16;

pub type Coord = i16;

/// What a node of a campaign stands for.
#[derive(Debug, PartialEq, Eq)]
pub enum NodeKind {
    /// A node without a map.
    Empty,
    /// A node that stands for the map in the given file.
    MapFilename { map: String },
}

/// A node of a campaign graph.
#[derive(Debug, PartialEq, Eq)]
pub struct Node {
    pub id: NodeID,
    pub kind: NodeKind,
    pub coord: (Coord, Coord),
}

/// A node as plain values: its identifier, its map file name if it has one, and where it lies.
pub struct NodeView {
    pub id: NodeID,
    pub map: Option<Seq<char>>,
    pub coord: (Coord, Coord),
}

impl Node {
    pub open spec fn view(self) -> NodeView {
        NodeView {
            id: self.id,
            map: match self.kind {
                NodeKind::Empty => None,
                NodeKind::MapFilename { map } => Some(map@),
            },
            coord: self.coord,
        }
    }

    /// Whether the node lies right next to `other`: left, right, above or below it.
    pub fn is_adjacent_to(&self, other: &Node) -> (r: bool)
        requires
            self.coord.0 == other.coord.0 ==> other.coord.1 > i16::MIN && (self.coord.1 != other.coord.1 - 1
                ==> other.coord.1 < i16::MAX),
            self.coord.0 != other.coord.0 && self.coord.1 == other.coord.1 ==> other.coord.0 > i16::MIN && (
            self.coord.0 != other.coord.0 - 1 ==> other.coord.0 < i16::MAX),
        ensures
            r == spec_adjacent(self.coord, other.coord),
    {
        if self.coord.0 == other.coord.0 {
            self.coord.1 == other.coord.1 - 1 || self.coord.1 == other.coord.1 + 1
        } else if self.coord.1 == other.coord.1 {
            self.coord.0 == other.coord.0 - 1 || self.coord.0 == other.coord.0 + 1
        } else {
            false
        }
    }
}

/// Whether the positions `a` and `b` lie right next to each other.
pub open spec fn spec_adjacent(a: (Coord, Coord), b: (Coord, Coord)) -> bool {
    if a.0 == b.0 {
        a.1 == b.1 - 1 || a.1 == b.1 + 1
    } else if a.1 == b.1 {
        a.0 == b.0 - 1 || a.0 == b.0 + 1
    } else {
        false
    }
}

/// Whether the positions of two nodes lie right next to each other.
fn adjacent(a: (Coord, Coord), b: (Coord, Coord)) -> (r: bool)
    ensures
        r == spec_adjacent(a, b),
{
    let (ax, ay) = (a.0 as i32, a.1 as i32);
    let (bx, by) = (b.0 as i32, b.1 as i32);
    if ax == bx {
        ay == by - 1 || ay == by + 1
    } else if ay == by {
        ax == bx - 1 || ax == bx + 1
    } else {
        false
    }
}

/// A campaign graph.
#[derive(Debug)]
pub struct Graph {
    /// All nodes, in the order in which they were read
    nodes: Vec<Node>,
    /// All edges, each from a node to a node, in the order in which they were added
    edges: Vec<(NodeID, NodeID)>,
    /// The labels of labeled edges
    edge_labels: Vec<((NodeID, NodeID), String)>,
    /// The smallest X coordinate of all nodes of this graph
    min_x: Coord,
    /// The greatest X coordinate of all nodes of this graph
    max_x: Coord,
    /// The smallest Y coordinate of all nodes of this graph
    min_y: Coord,
    /// The greatest Y coordinate of all nodes of this graph
    max_y: Coord,
}

/// A graph as plain values.
pub struct GraphView {
    pub nodes: Seq<NodeView>,
    pub edges: Seq<(NodeID, NodeID)>,
    pub labels: Map<(NodeID, NodeID), Seq<char>>,
    pub min_x: Coord,
    pub max_x: Coord,
    pub min_y: Coord,
    pub max_y: Coord,
}

/// No two nodes have the same identifier.
pub open spec fn unique_ids(nodes: Seq<NodeView>) -> bool {
    forall|i: int, j: int| 0 <= i < j < nodes.len() ==> #[trigger] nodes[i].id != #[trigger] nodes[j].id
}

/// No two labels are stored for the same edge.
pub open spec fn unique_keys(labels: Seq<((NodeID, NodeID), String)>) -> bool {
    forall|i: int, j: int| 0 <= i < j < labels.len() ==> #[trigger] labels[i].0 != #[trigger] labels[j].0
}

/// The labels stored in `labels`, by edge.
pub open spec fn labels_map(labels: Seq<((NodeID, NodeID), String)>) -> Map<(NodeID, NodeID), Seq<char>> {
    Map::new(
        |k: (NodeID, NodeID)| exists|i: int| 0 <= i < labels.len() && #[trigger] labels[i].0 == k,
        |k: (NodeID, NodeID)| labels[choose|i: int| 0 <= i < labels.len() && #[trigger] labels[i].0 == k].1@,
    )
}

/// The nodes as plain values.
pub open spec fn node_views(nodes: Seq<Node>) -> Seq<NodeView> {
    nodes.map_values(|n: Node| n.view())
}

impl Graph {
    #[verifier::type_invariant]
    spec fn wf(self) -> bool {
        &&& unique_ids(node_views(self.nodes@))
        &&& unique_keys(self.edge_labels@)
    }

    pub closed spec fn spec_view(self) -> GraphView {
        GraphView {
            nodes: node_views(self.nodes@),
            edges: self.edges@,
            labels: labels_map(self.edge_labels@),
            min_x: self.min_x,
            max_x: self.max_x,
            min_y: self.min_y,
            max_y: self.max_y,
        }
    }
}

impl View for Graph {
    type V = GraphView;

    open spec fn view(&self) -> GraphView {
        self.spec_view()
    }
}

/// An error that might be thrown in a Graph Validator
#[derive(Debug, Clone, Copy, PartialEq, Eq, Structural)]
pub enum GraphValidationError {
    AdjacentNodesAreNotConnected {
        node1_id: NodeID,
        node1_x: Coord,
        node1_y: Coord,
        node2_id: NodeID,
        node2_x: Coord,
        node2_y: Coord,
    },
}

impl GraphValidationError {
    pub fn numeric_error(&self) -> (r: u8)
        ensures
            r == 0,
    {
        match *self {
            GraphValidationError::AdjacentNodesAreNotConnected { .. } => 0,
        }
    }

    /// The message that describes the error.
    pub fn to_string(&self) -> (r: String)
        ensures
            r@ == validation_message(*self),
    {
        let mut v: Vec<char> = Vec::new();
        push_validation_message(&mut v, *self);
        assert(v@ =~= validation_message(*self));
        string_from_chars(&v)
    }
}

/// The message that describes a failed validation.
pub open spec fn validation_message(e: GraphValidationError) -> Seq<char> {
    match e {
        GraphValidationError::AdjacentNodesAreNotConnected { node1_id, node1_x, node1_y, node2_id, node2_x, node2_y } =>
            "The adjacent nodes "@ + spec_decimal(node1_id as nat) + " (at "@ + spec_signed_decimal(node1_x as int)
            + ","@ + spec_signed_decimal(node1_y as int) + ") and "@ + spec_decimal(node2_id as nat) + " (at "@
            + spec_signed_decimal(node2_x as int) + ","@ + spec_signed_decimal(node2_y as int)
            + ") must be connected through an edge explicitly!"@,
    }
}

/// Append the message that describes a failed validation.
fn push_validation_message(v: &mut Vec<char>, e: GraphValidationError)
    ensures
        final(v)@ == old(v)@ + validation_message(e),
{
    match e {
        GraphValidationError::AdjacentNodesAreNotConnected { node1_id, node1_x, node1_y, node2_id, node2_x, node2_y } => {
            push_str(v, "The adjacent nodes ");
            push_decimal(v, node1_id as u64);
            push_str(v, " (at ");
            push_signed_decimal(v, node1_x as i64);
            push_str(v, ",");
            push_signed_decimal(v, node1_y as i64);
            push_str(v, ") and ");
            push_decimal(v, node2_id as u64);
            push_str(v, " (at ");
            push_signed_decimal(v, node2_x as i64);
            push_str(v, ",");
            push_signed_decimal(v, node2_y as i64);
            push_str(v, ") must be connected through an edge explicitly!");
            assert(v@ =~= old(v)@ + validation_message(e));
        },
    }
}

/// The message that describes an error of reading a graph.
pub open spec fn graph_error_message(e: ParseErrorView) -> Seq<char> {
    match e {
        ParseErrorView::IOError { error } => io_message(error),
        ParseErrorView::SyntaxError { line } => "Syntax Error in line "@ + spec_decimal(line as nat),
        ParseErrorView::DuplicateNodeId { line, id } => "Duplicate Node "@ + spec_decimal(id as nat) + " in line "@
            + spec_decimal(line as nat),
        ParseErrorView::NegativeIDGiven { id, line } => "Invalid negative ID "@ + spec_signed_decimal(id as int)
            + " in line "@ + spec_decimal(line as nat),
        ParseErrorView::MissingEdgeSpecificationSection => "Missing Edge Specification Section"@,
        ParseErrorView::DuplicateEdgeLabel { label } => "Duplicate Edge Label: "@ + label,
        ParseErrorView::InvalidInteger { error } => "Could not parse Integer: "@ + spec_int_error_message(error.kind),
        ParseErrorView::ValidationError { error } => "Graph Validation failed: "@ + validation_message(error),
    }
}

/// An error that might be thrown in a Campaign Graph Parser
#[derive(Debug)]
pub enum GraphParseError {
    SyntaxError { line: usize },
    DuplicateNodeId { line: usize, id: NodeID },
    NegativeIDGiven { id: i32, line: usize },
    MissingEdgeSpecificationSection,
    DuplicateEdgeLabel { label: String },
    IOError { error: IoError },
    InvalidInteger { error: ParseIntError },
    ValidationError { error: GraphValidationError },
}

/// An error of reading a graph, as plain values.
pub enum ParseErrorView {
    SyntaxError { line: int },
    DuplicateNodeId { line: int, id: NodeID },
    NegativeIDGiven { id: i32, line: int },
    MissingEdgeSpecificationSection,
    DuplicateEdgeLabel { label: Seq<char> },
    IOError { error: IoError },
    InvalidInteger { error: ParseIntError },
    ValidationError { error: GraphValidationError },
}

impl GraphParseError {
    pub open spec fn view(self) -> ParseErrorView {
        match self {
            GraphParseError::SyntaxError { line } => ParseErrorView::SyntaxError { line: line as int },
            GraphParseError::DuplicateNodeId { line, id } => ParseErrorView::DuplicateNodeId { line: line as int, id },
            GraphParseError::NegativeIDGiven { id, line } => ParseErrorView::NegativeIDGiven { id, line: line as int },
            GraphParseError::MissingEdgeSpecificationSection => ParseErrorView::MissingEdgeSpecificationSection,
            GraphParseError::DuplicateEdgeLabel { label } => ParseErrorView::DuplicateEdgeLabel { label: label@ },
            GraphParseError::IOError { error } => ParseErrorView::IOError { error },
            GraphParseError::InvalidInteger { error } => ParseErrorView::InvalidInteger { error },
            GraphParseError::ValidationError { error } => ParseErrorView::ValidationError { error },
        }
    }

    /// The number that identifies each kind of error.
    pub open spec fn spec_numeric_error(self) -> u8 {
        match self {
            GraphParseError::SyntaxError { .. } => 0,
            GraphParseError::DuplicateNodeId { .. } => 1,
            GraphParseError::NegativeIDGiven { .. } => 2,
            GraphParseError::MissingEdgeSpecificationSection => 3,
            GraphParseError::DuplicateEdgeLabel { .. } => 4,
            GraphParseError::IOError { .. } => 5,
            GraphParseError::InvalidInteger { .. } => 6,
            GraphParseError::ValidationError { .. } => 7,
        }
    }

    pub fn numeric_error(&self) -> (r: u8)
        ensures
            r == self.spec_numeric_error(),
    {
        match *self {
            GraphParseError::SyntaxError { .. } => 0,
            GraphParseError::DuplicateNodeId { .. } => 1,
            GraphParseError::NegativeIDGiven { .. } => 2,
            GraphParseError::MissingEdgeSpecificationSection => 3,
            GraphParseError::DuplicateEdgeLabel { .. } => 4,
            GraphParseError::IOError { .. } => 5,
            GraphParseError::InvalidInteger { .. } => 6,
            GraphParseError::ValidationError { .. } => 7,
        }
    }

    /// The message that describes the error.
    pub fn to_string(&self) -> (r: String)
        ensures
            r@ == graph_error_message(self.view()),
    {
        let mut v: Vec<char> = Vec::new();
        match self {
            GraphParseError::IOError { error } => {
                push_io_message(&mut v, *error);
            },
            GraphParseError::SyntaxError { line } => {
                push_str(&mut v, "Syntax Error in line ");
                push_decimal(&mut v, *line as u64);
            },
            GraphParseError::DuplicateNodeId { line, id } => {
                push_str(&mut v, "Duplicate Node ");
                push_decimal(&mut v, *id as u64);
                push_str(&mut v, " in line ");
                push_decimal(&mut v, *line as u64);
            },
            GraphParseError::NegativeIDGiven { id, line } => {
                push_str(&mut v, "Invalid negative ID ");
                push_signed_decimal(&mut v, *id as i64);
                push_str(&mut v, " in line ");
                push_decimal(&mut v, *line as u64);
            },
            GraphParseError::MissingEdgeSpecificationSection => {
                push_str(&mut v, "Missing Edge Specification Section");
            },
            GraphParseError::DuplicateEdgeLabel { label } => {
                push_str(&mut v, "Duplicate Edge Label: ");
                push_str(&mut v, label.as_str());
            },
            GraphParseError::InvalidInteger { error } => {
                push_str(&mut v, "Could not parse Integer: ");
                let m = error.to_string();
                push_str(&mut v, m.as_str());
            },
            GraphParseError::ValidationError { error } => {
                push_str(&mut v, "Graph Validation failed: ");
                push_validation_message(&mut v, *error);
            },
        }
        assert(v@ =~= graph_error_message(self.view()));
        string_from_chars(&v)
    }
}

/// What reading a graph file has built up after some of its lines.
pub struct ParseState {
    pub nodes: Seq<NodeView>,
    pub edges: Seq<(NodeID, NodeID)>,
    pub labels: Map<(NodeID, NodeID), Seq<char>>,
    /// Whether the node section has ended.
    pub in_edges: bool,
}

/// The state before the first line.
pub open spec fn initial_state() -> ParseState {
    ParseState { nodes: Seq::empty(), edges: Seq::empty(), labels: Map::empty(), in_edges: false }
}

/// Read a node identifier.
pub open spec fn read_id(s: Seq<char>) -> Result<NodeID, IntErrorKind> {
    match spec_parse_int(s, false, 0, u16::MAX as int) {
        Ok(v) => Ok(v as NodeID),
        Err(k) => Err(k),
    }
}

/// Read a coordinate.
pub open spec fn read_coord(s: Seq<char>) -> Result<Coord, IntErrorKind> {
    match spec_parse_int(s, true, i16::MIN as int, i16::MAX as int) {
        Ok(v) => Ok(v as Coord),
        Err(k) => Err(k),
    }
}

/// Whether some node has the identifier `id`.
pub open spec fn has_node(nodes: Seq<NodeView>, id: NodeID) -> bool {
    exists|j: int| 0 <= j < nodes.len() && #[trigger] nodes[j].id == id
}

/// Add the node that line `line` describes: identifier, then X, then Y are read, and the
/// first of them that is no number of its type gives the error.
pub open spec fn add_node(
    st: ParseState,
    line: int,
    id: Seq<char>,
    map: Option<Seq<char>>,
    x: Seq<char>,
    y: Seq<char>,
) -> Result<ParseState, ParseErrorView> {
    match read_id(id) {
        Err(k) => Err(ParseErrorView::InvalidInteger { error: ParseIntError { kind: k } }),
        Ok(i) => match read_coord(x) {
            Err(k) => Err(ParseErrorView::InvalidInteger { error: ParseIntError { kind: k } }),
            Ok(cx) => match read_coord(y) {
                Err(k) => Err(ParseErrorView::InvalidInteger { error: ParseIntError { kind: k } }),
                Ok(cy) => if has_node(st.nodes, i) {
                    Err(ParseErrorView::DuplicateNodeId { line, id: i })
                } else {
                    Ok(ParseState { nodes: st.nodes.push(NodeView { id: i, map, coord: (cx, cy) }), ..st })
                },
            },
        },
    }
}

/// Read line `line`, with characters `l`, of the node section.
pub open spec fn node_step(st: ParseState, line: int, l: Seq<char>) -> Result<ParseState, ParseErrorView> {
    match spec_node_line(l) {
        NodeLine::Empty => Ok(st),
        NodeLine::Hash => Ok(ParseState { in_edges: true, ..st }),
        NodeLine::Error => Err(ParseErrorView::SyntaxError { line }),
        NodeLine::Unnamed { id, x, y } => add_node(st, line, id, None, x, y),
        NodeLine::Named { id, map, x, y } => add_node(st, line, id, Some(map), x, y),
    }
}

/// Add an edge, in both directions, and its label if it has one. The label is stored for the
/// edge from `a` to `b` first; if then one is stored for the edge from `b` to `a`, that one is
/// reported as a duplicate.
pub open spec fn add_edge(
    st: ParseState,
    id_a: Seq<char>,
    id_b: Seq<char>,
    label: Option<Seq<char>>,
) -> Result<ParseState, ParseErrorView> {
    match read_id(id_a) {
        Err(k) => Err(ParseErrorView::InvalidInteger { error: ParseIntError { kind: k } }),
        Ok(a) => match read_id(id_b) {
            Err(k) => Err(ParseErrorView::InvalidInteger { error: ParseIntError { kind: k } }),
            Ok(b) => insert_edge(st, a, b, label),
        },
    }
}

/// Add the edge between `a` and `b`, in both directions, and its label if it has one.
pub open spec fn insert_edge(st: ParseState, a: NodeID, b: NodeID, label: Option<Seq<char>>) -> Result<
    ParseState,
    ParseErrorView,
> {
    let edges = st.edges.push((a, b)).push((b, a));
    match label {
        None => Ok(ParseState { edges, ..st }),
        Some(text) => {
            let labels = st.labels.insert((a, b), text);
            if labels.dom().contains((b, a)) {
                Err(ParseErrorView::DuplicateEdgeLabel { label: labels[(b, a)] })
            } else {
                Ok(ParseState { edges, labels: labels.insert((b, a), text), ..st })
            }
        },
    }
}

/// Read line `line`, with characters `l`, of the edge section.
pub open spec fn edge_step(st: ParseState, line: int, l: Seq<char>) -> Result<ParseState, ParseErrorView> {
    match spec_edge_line(l) {
        EdgeLine::Empty => Ok(st),
        EdgeLine::Error => Err(ParseErrorView::SyntaxError { line }),
        EdgeLine::Unnamed { id_a, id_b } => add_edge(st, id_a, id_b, None),
        EdgeLine::Named { id_a, id_b, label } => add_edge(st, id_a, id_b, Some(label)),
    }
}

/// Read line `line`, whose bytes are `bytes`; it must be UTF-8.
pub open spec fn line_step(st: ParseState, line: int, bytes: Seq<u8>) -> Result<ParseState, ParseErrorView> {
    if !valid_utf8(bytes) {
        Err(ParseErrorView::IOError { error: IoError::InvalidData })
    } else if st.in_edges {
        edge_step(st, line, decode_utf8(bytes))
    } else {
        node_step(st, line, decode_utf8(bytes))
    }
}

/// Read the lines `ls` one after the other, numbered from zero; the first line that fails
/// gives the error.
pub open spec fn parse_lines(ls: Seq<Seq<u8>>) -> Result<ParseState, ParseErrorView>
    decreases ls.len(),
{
    if ls.len() == 0 {
        Ok(initial_state())
    } else {
        match parse_lines(ls.drop_last()) {
            Err(e) => Err(e),
            Ok(st) => line_step(st, ls.len() - 1, ls.last()),
        }
    }
}

/// The position of the first line feed in `d`, or its length if it holds none.
pub open spec fn newline_pos(d: Seq<u8>) -> nat
    decreases d.len(),
{
    if d.len() == 0 {
        0
    } else if d[0] == 10 {
        0
    } else {
        1 + newline_pos(d.drop_first())
    }
}

/// The lines of `d`: the pieces between line feeds, where a line feed at the end starts no
/// further line.
pub open spec fn split_lines(d: Seq<u8>) -> Seq<Seq<u8>>
    decreases d.len(),
{
    if d.len() == 0 {
        Seq::empty()
    } else if newline_pos(d) >= d.len() {
        seq![d]
    } else {
        seq![d.take(newline_pos(d) as int)] + split_lines(d.skip(newline_pos(d) + 1int))
    }
}

/// The smallest X coordinate of the nodes, or `i16::MAX` for no nodes.
pub open spec fn fold_min_x(nodes: Seq<NodeView>) -> Coord
    decreases nodes.len(),
{
    if nodes.len() == 0 {
        i16::MAX
    } else if nodes.last().coord.0 < fold_min_x(nodes.drop_last()) {
        nodes.last().coord.0
    } else {
        fold_min_x(nodes.drop_last())
    }
}

/// The greatest X coordinate of the nodes, or `i16::MIN` for no nodes.
pub open spec fn fold_max_x(nodes: Seq<NodeView>) -> Coord
    decreases nodes.len(),
{
    if nodes.len() == 0 {
        i16::MIN
    } else if nodes.last().coord.0 > fold_max_x(nodes.drop_last()) {
        nodes.last().coord.0
    } else {
        fold_max_x(nodes.drop_last())
    }
}

/// The smallest Y coordinate of the nodes, or `i16::MAX` for no nodes.
pub open spec fn fold_min_y(nodes: Seq<NodeView>) -> Coord
    decreases nodes.len(),
{
    if nodes.len() == 0 {
        i16::MAX
    } else if nodes.last().coord.1 < fold_min_y(nodes.drop_last()) {
        nodes.last().coord.1
    } else {
        fold_min_y(nodes.drop_last())
    }
}

/// The greatest Y coordinate of the nodes, or `i16::MIN` for no nodes.
pub open spec fn fold_max_y(nodes: Seq<NodeView>) -> Coord
    decreases nodes.len(),
{
    if nodes.len() == 0 {
        i16::MIN
    } else if nodes.last().coord.1 > fold_max_y(nodes.drop_last()) {
        nodes.last().coord.1
    } else {
        fold_max_y(nodes.drop_last())
    }
}

/// The graph that reading ends with in state `st`.
pub open spec fn finish(st: ParseState) -> GraphView {
    GraphView {
        nodes: st.nodes,
        edges: st.edges,
        labels: st.labels,
        min_x: fold_min_x(st.nodes),
        max_x: fold_max_x(st.nodes),
        min_y: fold_min_y(st.nodes),
        max_y: fold_max_y(st.nodes),
    }
}

/// The nodes at `i` and `j` have different identifiers and lie next to each other, and no edge
/// leads from the first to the second.
pub open spec fn unconnected_neighbours(g: GraphView, i: int, j: int) -> bool {
    &&& 0 <= i < g.nodes.len()
    &&& 0 <= j < g.nodes.len()
    &&& g.nodes[i].id != g.nodes[j].id
    &&& spec_adjacent(g.nodes[i].coord, g.nodes[j].coord)
    &&& !g.edges.contains((g.nodes[i].id, g.nodes[j].id))
}

/// Whether every two nodes that lie next to each other are connected by an edge.
pub open spec fn valid_graph(g: GraphView) -> bool {
    forall|i: int, j: int| !#[trigger] unconnected_neighbours(g, i, j)
}

/// The error that reports the nodes at `i` and `j` of `g`.
pub open spec fn neighbours_error(g: GraphView, i: int, j: int) -> GraphValidationError {
    GraphValidationError::AdjacentNodesAreNotConnected {
        node1_id: g.nodes[i].id,
        node1_x: g.nodes[i].coord.0,
        node1_y: g.nodes[i].coord.1,
        node2_id: g.nodes[j].id,
        node2_x: g.nodes[j].coord.0,
        node2_y: g.nodes[j].coord.1,
    }
}

/// `std::str::from_utf8`: the text of the bytes, when they are UTF-8.
#[verifier::external_body]
fn str_from_utf8(bytes: &[u8]) -> (r: Option<&str>)
    ensures
        r is Some <==> valid_utf8(bytes@),
        r matches Some(s) ==> s@ == decode_utf8(bytes@),
{
    std::str::from_utf8(bytes).ok()
}

/// Storing a label for an edge that has none yet.
proof fn lemma_labels_push(v: Seq<((NodeID, NodeID), String)>, k: (NodeID, NodeID), s: String)
    requires
        unique_keys(v),
        !labels_map(v).dom().contains(k),
    ensures
        unique_keys(v.push((k, s))),
        labels_map(v.push((k, s))) == labels_map(v).insert(k, s@),
{
    let w = v.push((k, s));
    assert forall|i: int, j: int| 0 <= i < j < w.len() implies #[trigger] w[i].0 != #[trigger] w[j].0 by {
        if j == v.len() {
            if w[i].0 == k {
                assert(v[i].0 == k);
            }
        } else {
            assert(v[i].0 != v[j].0);
        }
    }
    assert forall|key: (NodeID, NodeID)| #[trigger] labels_map(w).dom().contains(key) implies labels_map(w)[key]
        == labels_map(v).insert(k, s@)[key] by {
        let i = choose|i: int| 0 <= i < w.len() && #[trigger] w[i].0 == key;
        if key == k {
            assert(w[v.len() as int].0 == key);
            assert(i == v.len());
        } else {
            assert(v[i].0 == key);
            let j = choose|j: int| 0 <= j < v.len() && #[trigger] v[j].0 == key;
            assert(w[j].0 == key);
        }
    }
    assert forall|key: (NodeID, NodeID)| #[trigger] labels_map(v).insert(k, s@).dom().contains(key) implies labels_map(
        w,
    ).dom().contains(key) by {
        if key == k {
            assert(w[v.len() as int].0 == key);
        } else {
            let j = choose|j: int| 0 <= j < v.len() && #[trigger] v[j].0 == key;
            assert(w[j].0 == key);
        }
    }
    assert(labels_map(w) =~= labels_map(v).insert(k, s@));
}

/// Replacing the label stored at position `i`.
proof fn lemma_labels_set(v: Seq<((NodeID, NodeID), String)>, i: int, s: String)
    requires
        unique_keys(v),
        0 <= i < v.len(),
    ensures
        unique_keys(v.update(i, (v[i].0, s))),
        labels_map(v.update(i, (v[i].0, s))) == labels_map(v).insert(v[i].0, s@),
{
    let k = v[i].0;
    let w = v.update(i, (k, s));
    assert forall|a: int, b: int| 0 <= a < b < w.len() implies #[trigger] w[a].0 != #[trigger] w[b].0 by {
        assert(v[a].0 != v[b].0);
    }
    assert(w[i].0 == k);
    assert forall|key: (NodeID, NodeID)| #[trigger] labels_map(w).dom().contains(key) implies labels_map(w)[key]
        == labels_map(v).insert(k, s@)[key] by {
        let a = choose|a: int| 0 <= a < w.len() && #[trigger] w[a].0 == key;
        if key == k {
            assert(a == i);
        } else {
            assert(v[a].0 == key);
            let j = choose|j: int| 0 <= j < v.len() && #[trigger] v[j].0 == key;
            assert(w[j].0 == key);
        }
    }
    assert forall|key: (NodeID, NodeID)| #[trigger] labels_map(v).insert(k, s@).dom().contains(key) implies labels_map(
        w,
    ).dom().contains(key) by {
        if key != k {
            let j = choose|j: int| 0 <= j < v.len() && #[trigger] v[j].0 == key;
            assert(w[j].0 == key);
        }
    }
    assert forall|key: (NodeID, NodeID)| #[trigger] labels_map(w).dom().contains(key) implies labels_map(v).insert(
        k,
        s@,
    ).dom().contains(key) by {
        let a = choose|a: int| 0 <= a < w.len() && #[trigger] w[a].0 == key;
        if key != k {
            assert(v[a].0 == key);
        }
    }
    assert(labels_map(w) =~= labels_map(v).insert(k, s@));
}

/// The position of the label stored for `key`, if one is.
fn find_label(v: &Vec<((NodeID, NodeID), String)>, key: (NodeID, NodeID)) -> (r: Option<usize>)
    requires
        unique_keys(v@),
    ensures
        r is None <==> !labels_map(v@).dom().contains(key),
        r matches Some(i) ==> i < v@.len() && v@[i as int].0 == key && labels_map(v@)[key] == v@[i as int].1@,
{
    let mut i: usize = 0;
    while i < v.len()
        invariant
            i <= v@.len(),
            unique_keys(v@),
            forall|j: int| 0 <= j < i ==> #[trigger] v@[j].0 != key,
        decreases v@.len() - i,
    {
        if v[i].0 .0 == key.0 && v[i].0 .1 == key.1 {
            proof {
                assert(v@[i as int].0 == key);
                let j = choose|j: int| 0 <= j < v@.len() && #[trigger] v@[j].0 == key;
                if j != i {
                    if j < i {
                        assert(v@[j].0 != v@[i as int].0);
                    } else {
                        assert(v@[i as int].0 != v@[j].0);
                    }
                }
            }
            return Some(i);
        }
        i += 1;
    }
    None
}

/// Store `label` for `key`, replacing a label stored for it before.
fn put_label(v: &mut Vec<((NodeID, NodeID), String)>, key: (NodeID, NodeID), label: String)
    requires
        unique_keys(old(v)@),
    ensures
        unique_keys(final(v)@),
        labels_map(final(v)@) == labels_map(old(v)@).insert(key, label@),
{
    match find_label(v, key) {
        Some(i) => {
            proof {
                lemma_labels_set(v@, i as int, label);
            }
            v.set(i, (key, label));
        },
        None => {
            proof {
                lemma_labels_push(v@, key, label);
            }
            v.push((key, label));
        },
    }
}

/// What has been read of a graph file so far.
struct Reader {
    nodes: Vec<Node>,
    edges: Vec<(NodeID, NodeID)>,
    labels: Vec<((NodeID, NodeID), String)>,
    in_edges: bool,
}

impl Reader {
    spec fn state(self) -> ParseState {
        ParseState {
            nodes: node_views(self.nodes@),
            edges: self.edges@,
            labels: labels_map(self.labels@),
            in_edges: self.in_edges,
        }
    }

    spec fn inv(self) -> bool {
        &&& unique_ids(node_views(self.nodes@))
        &&& unique_keys(self.labels@)
    }

    /// Whether some node has the identifier `id`.
    fn has_node(&self, id: NodeID) -> (r: bool)
        ensures
            r == has_node(node_views(self.nodes@), id),
    {
        let mut i: usize = 0;
        while i < self.nodes.len()
            invariant
                i <= self.nodes@.len(),
                forall|j: int| 0 <= j < i ==> #[trigger] self.nodes@[j].id != id,
            decreases self.nodes@.len() - i,
        {
            if self.nodes[i].id == id {
                assert(node_views(self.nodes@)[i as int].id == id);
                return true;
            }
            i += 1;
        }
        proof {
            if has_node(node_views(self.nodes@), id) {
                let j = choose|j: int| 0 <= j < node_views(self.nodes@).len() && #[trigger] node_views(
                    self.nodes@,
                )[j].id == id;
                assert(self.nodes@[j].id == id);
            }
        }
        false
    }

    /// Add the node of line `lineno`.
    fn add_node(&mut self, lineno: usize, id: String, kind: NodeKind, x: String, y: String) -> (r: Result<
        (),
        GraphParseError,
    >)
        requires
            old(self).inv(),
        ensures
            match add_node(
                old(self).state(),
                lineno as int,
                id@,
                (Node { id: 0, kind, coord: (0, 0) }).view().map,
                x@,
                y@,
            ) {
                Ok(st) => r is Ok && final(self).state() == st && final(self).inv(),
                Err(e) => (r matches Err(e2) && e2.view() == e),
            },
    {
        let i = match parse_u16(id.as_str()) {
            Ok(v) => v,
            Err(e) => return Err(GraphParseError::InvalidInteger { error: e }),
        };
        let cx = match parse_i16(x.as_str()) {
            Ok(v) => v,
            Err(e) => return Err(GraphParseError::InvalidInteger { error: e }),
        };
        let cy = match parse_i16(y.as_str()) {
            Ok(v) => v,
            Err(e) => return Err(GraphParseError::InvalidInteger { error: e }),
        };
        if self.has_node(i) {
            return Err(GraphParseError::DuplicateNodeId { line: lineno, id: i });
        }
        let node = Node { id: i, kind, coord: (cx, cy) };
        let ghost before = self.nodes@;
        self.nodes.push(node);
        proof {
            assert(node_views(self.nodes@) =~= node_views(before).push(node.view()));
            let vs = node_views(self.nodes@);
            assert forall|a: int, b: int| 0 <= a < b < vs.len() implies #[trigger] vs[a].id != #[trigger] vs[b].id by {
                if b == vs.len() - 1 {
                    if vs[a].id == i {
                        assert(node_views(before)[a].id == i);
                    }
                } else {
                    assert(node_views(before)[a].id != node_views(before)[b].id);
                }
            }
        }
        Ok(())
    }

    /// Add an edge in both directions, with its label if it has one.
    fn add_edge(&mut self, id_a: String, id_b: String, label: Option<String>) -> (r: Result<(), GraphParseError>)
        requires
            old(self).inv(),
        ensures
            match add_edge(
                old(self).state(),
                id_a@,
                id_b@,
                match label {
                    Some(t) => Some(t@),
                    None => None,
                },
            ) {
                Ok(st) => r is Ok && final(self).state() == st && final(self).inv(),
                Err(e) => (r matches Err(e2) && e2.view() == e),
            },
    {
        let a = match parse_u16(id_a.as_str()) {
            Ok(v) => v,
            Err(e) => return Err(GraphParseError::InvalidInteger { error: e }),
        };
        let b = match parse_u16(id_b.as_str()) {
            Ok(v) => v,
            Err(e) => return Err(GraphParseError::InvalidInteger { error: e }),
        };
        match label {
            None => {},
            Some(text) => {
                put_label(&mut self.labels, (a, b), text.clone());
                match find_label(&self.labels, (b, a)) {
                    Some(i) => {
                        return Err(GraphParseError::DuplicateEdgeLabel { label: self.labels[i].1.clone() });
                    },
                    None => {},
                }
                put_label(&mut self.labels, (b, a), text);
            },
        }
        self.edges.push((a, b));
        self.edges.push((b, a));
        Ok(())
    }

    /// Read line `lineno` of the file.
    fn step(&mut self, lineno: usize, line: &str) -> (r: Result<(), GraphParseError>)
        requires
            old(self).inv(),
        ensures
            match (if old(self).in_edges {
                edge_step(old(self).state(), lineno as int, line@)
            } else {
                node_step(old(self).state(), lineno as int, line@)
            }) {
                Ok(st) => r is Ok && final(self).state() == st && final(self).inv(),
                Err(e) => (r matches Err(e2) && e2.view() == e),
            },
    {
        if self.in_edges {
            match parse_edge_line(line) {
                EdgeParseResult::Empty => Ok(()),
                EdgeParseResult::Error => Err(GraphParseError::SyntaxError { line: lineno }),
                EdgeParseResult::UnnamedEdge { id_a, id_b } => self.add_edge(id_a, id_b, None),
                EdgeParseResult::NamedEdge { id_a, id_b, edge_label } => self.add_edge(
                    id_a,
                    id_b,
                    Some(edge_label),
                ),
            }
        } else {
            match parse_node_line(line) {
                NodeParseResult::Empty => Ok(()),
                NodeParseResult::Hash => {
                    self.in_edges = true;
                    Ok(())
                },
                NodeParseResult::Error => Err(GraphParseError::SyntaxError { line: lineno }),
                NodeParseResult::UnnamedNode { id, x, y } => self.add_node(lineno, id, NodeKind::Empty, x, y),
                NodeParseResult::NamedNode { id, map_file, x, y } => self.add_node(
                    lineno,
                    id,
                    NodeKind::MapFilename { map: map_file },
                    x,
                    y,
                ),
            }
        }
    }
}

/// The first line feed from `pos` on starts where the scan stopped.
proof fn lemma_newline_pos(d: Seq<u8>, m: int)
    requires
        0 <= m <= d.len(),
        forall|k: int| 0 <= k < m ==> d[k] != 10,
        m == d.len() || d[m] == 10,
    ensures
        newline_pos(d) == m,
    decreases m,
{
    if m > 0 {
        lemma_newline_pos(d.drop_first(), m - 1);
    }
}

/// Read the line `lineno`, whose bytes are `bytes`.
fn read_line(rd: &mut Reader, lineno: usize, bytes: &[u8]) -> (r: Result<(), GraphParseError>)
    requires
        old(rd).inv(),
    ensures
        match line_step(old(rd).state(), lineno as int, bytes@) {
            Ok(st) => r is Ok && final(rd).state() == st && final(rd).inv(),
            Err(e) => (r matches Err(e2) && e2.view() == e),
        },
{
    match str_from_utf8(bytes) {
        None => Err(GraphParseError::IOError { error: IoError::InvalidData }),
        Some(line) => rd.step(lineno, line),
    }
}

/// The lines from `pos` on are the line that ends at `j`, then the lines after it.
proof fn lemma_split_step(d: Seq<u8>, pos: int, j: int)
    requires
        0 <= pos < j <= d.len() || (0 <= pos == j < d.len()),
        forall|k: int| pos <= k < j ==> d[k] != 10,
        j == d.len() || d[j] == 10,
    ensures
        split_lines(d.skip(pos)) == seq![d.subrange(pos, j)] + split_lines(d.skip(if j < d.len() {
            j + 1
        } else {
            j
        })),
{
    let rest = d.skip(pos);
    lemma_newline_pos(rest, j - pos);
    assert(rest.take(j - pos) =~= d.subrange(pos, j));
    if j < d.len() {
        assert(rest.skip(j - pos + 1) =~= d.skip(j + 1));
    } else {
        assert(rest =~= d.subrange(pos, j));
        assert(d.skip(j) =~= Seq::<u8>::empty());
        assert(split_lines(d.skip(j)) =~= Seq::<Seq<u8>>::empty());
    }
}

/// Reading one more line.
proof fn lemma_parse_lines_push(ls: Seq<Seq<u8>>, l: Seq<u8>)
    ensures
        parse_lines(ls.push(l)) == match parse_lines(ls) {
            Err(e) => Err(e),
            Ok(st) => line_step(st, ls.len() as int, l),
        },
{
    assert(ls.push(l).drop_last() =~= ls);
}

/// Read the lines of a graph file into its nodes, edges and labels.
fn read_lines(data: &[u8]) -> (r: Result<Reader, GraphParseError>)
    ensures
        match parse_lines(split_lines(data@)) {
            Ok(st) => (r matches Ok(rd) && rd.state() == st && rd.inv()),
            Err(e) => (r matches Err(e2) && e2.view() == e),
        },
{
    let mut rd = Reader { nodes: Vec::new(), edges: Vec::new(), labels: Vec::new(), in_edges: false };
    proof {
        assert(node_views(rd.nodes@) =~= Seq::<NodeView>::empty());
        assert(labels_map(rd.labels@) =~= Map::<(NodeID, NodeID), Seq<char>>::empty());
        assert(data@.skip(0) =~= data@);
        assert(Seq::<Seq<u8>>::empty() + split_lines(data@) =~= split_lines(data@));
    }
    let mut pos: usize = 0;
    let mut lineno: usize = 0;
    let ghost mut done: Seq<Seq<u8>> = Seq::empty();
    while pos < data.len()
        invariant
            pos <= data@.len(),
            lineno <= pos,
            lineno == done.len(),
            split_lines(data@) == done + split_lines(data@.skip(pos as int)),
            parse_lines(done) == Ok::<ParseState, ParseErrorView>(rd.state()),
            rd.inv(),
        decreases data@.len() - pos,
    {
        let mut j: usize = pos;
        while j < data.len() && data[j] != 10
            invariant
                pos <= j <= data@.len(),
                forall|k: int| pos <= k < j ==> data@[k] != 10,
            decreases data@.len() - j,
        {
            j += 1;
        }
        let line_bytes = &data[pos..j];
        let next: usize = if j < data.len() {
            j + 1
        } else {
            j
        };
        proof {
            lemma_split_step(data@, pos as int, j as int);
            lemma_parse_lines_push(done, line_bytes@);
            assert(done + split_lines(data@.skip(pos as int)) =~= done.push(line_bytes@) + split_lines(
                data@.skip(next as int),
            ));
            done = done.push(line_bytes@);
        }
        match read_line(&mut rd, lineno, line_bytes) {
            Ok(()) => {},
            Err(e) => {
                proof {
                    assert(split_lines(data@).take(done.len() as int) =~= done);
                    lemma_parse_lines_error(split_lines(data@), done.len() as int);
                }
                return Err(e);
            },
        }
        pos = next;
        lineno += 1;
    }
    proof {
        assert(data@.skip(pos as int) =~= Seq::<u8>::empty());
        assert(split_lines(data@) =~= done);
    }
    Ok(rd)
}

/// Once reading the first `k` lines fails, reading all of them fails the same way.
proof fn lemma_parse_lines_error(ls: Seq<Seq<u8>>, k: int)
    requires
        0 <= k <= ls.len(),
        parse_lines(ls.take(k)) is Err,
    ensures
        parse_lines(ls) == parse_lines(ls.take(k)),
    decreases ls.len() - k,
{
    if k < ls.len() {
        assert(ls.drop_last().take(k) =~= ls.take(k));
        lemma_parse_lines_error(ls.drop_last(), k);
    } else {
        assert(ls.take(k) =~= ls);
    }
}

impl Graph {
    /// The graph of what was read, with the smallest and greatest coordinates of its nodes.
    fn from_reader(rd: Reader) -> (g: Graph)
        requires
            rd.inv(),
        ensures
            g@ == finish(rd.state()),
    {
        let mut min_x: Coord = i16::MAX;
        let mut max_x: Coord = i16::MIN;
        let mut min_y: Coord = i16::MAX;
        let mut max_y: Coord = i16::MIN;
        let ghost views = node_views(rd.nodes@);
        let mut i: usize = 0;
        while i < rd.nodes.len()
            invariant
                i <= rd.nodes@.len(),
                views == node_views(rd.nodes@),
                min_x == fold_min_x(views.take(i as int)),
                max_x == fold_max_x(views.take(i as int)),
                min_y == fold_min_y(views.take(i as int)),
                max_y == fold_max_y(views.take(i as int)),
            decreases rd.nodes@.len() - i,
        {
            let (x, y) = rd.nodes[i].coord;
            proof {
                assert(views.take(i + 1).drop_last() =~= views.take(i as int));
                assert(views.take(i + 1).last() == views[i as int]);
            }
            if x < min_x {
                min_x = x;
            }
            if x > max_x {
                max_x = x;
            }
            if y < min_y {
                min_y = y;
            }
            if y > max_y {
                max_y = y;
            }
            i += 1;
        }
        assert(views.take(i as int) =~= views);
        Graph { nodes: rd.nodes, edges: rd.edges, edge_labels: rd.labels, min_x, max_x, min_y, max_y }
    }

    /// Read a graph file into this graph, which it replaces. Reading fails on the first line
    /// that is not UTF-8, has no valid form, holds an identifier or a coordinate that is no
    /// number of its type, repeats a node identifier or labels an edge from `b` to `a` that
    /// already has a label; the graph then stays as it was.
    pub fn parse_current_version(&mut self, data: &[u8]) -> (r: Result<(), GraphParseError>)
        ensures
            match parse_lines(split_lines(data@)) {
                Ok(st) => r is Ok && final(self)@ == finish(st),
                Err(e) => (r matches Err(e2) && e2.view() == e) && final(self)@ == old(self)@,
            },
    {
        match read_lines(data) {
            Ok(rd) => {
                *self = Graph::from_reader(rd);
                Ok(())
            },
            Err(e) => Err(e),
        }
    }

    /// Whether an edge leads from `a` to `b`.
    fn has_edge(&self, a: NodeID, b: NodeID) -> (r: bool)
        ensures
            r == self@.edges.contains((a, b)),
    {
        let mut i: usize = 0;
        while i < self.edges.len()
            invariant
                i <= self.edges@.len(),
                forall|j: int| 0 <= j < i ==> #[trigger] self.edges@[j] != (a, b),
            decreases self.edges@.len() - i,
        {
            if self.edges[i].0 == a && self.edges[i].1 == b {
                assert(self.edges@[i as int] == (a, b));
                return true;
            }
            i += 1;
        }
        false
    }

    /// Check that every two nodes that lie next to each other are connected by an edge; if
    /// not, report two such nodes.
    fn validate(&self) -> (r: Result<(), GraphValidationError>)
        ensures
            r is Ok <==> valid_graph(self@),
            r matches Err(e) ==> exists|i: int, j: int|
                unconnected_neighbours(self@, i, j) && e == neighbours_error(self@, i, j),
    {
        let n = self.nodes.len();
        let ghost g = self@;
        let mut i: usize = 0;
        while i < n
            invariant
                i <= n,
                n == g.nodes.len(),
                g == self@,
                forall|a: int, b: int| 0 <= a < i ==> !#[trigger] unconnected_neighbours(g, a, b),
            decreases n - i,
        {
            let mut j: usize = 0;
            while j < n
                invariant
                    i < n,
                    j <= n,
                    n == g.nodes.len(),
                    g == self@,
                    forall|a: int, b: int| 0 <= a < i ==> !#[trigger] unconnected_neighbours(g, a, b),
                    forall|b: int| 0 <= b < j ==> !#[trigger] unconnected_neighbours(g, i as int, b),
                decreases n - j,
            {
                let a = &self.nodes[i];
                let b = &self.nodes[j];
                proof {
                    assert(g.nodes[i as int] == a.view());
                    assert(g.nodes[j as int] == b.view());
                }
                if a.id != b.id && adjacent(a.coord, b.coord) && !self.has_edge(a.id, b.id) {
                    let e = GraphValidationError::AdjacentNodesAreNotConnected {
                        node1_id: a.id,
                        node1_x: a.coord.0,
                        node1_y: a.coord.1,
                        node2_id: b.id,
                        node2_x: b.coord.0,
                        node2_y: b.coord.1,
                    };
                    assert(unconnected_neighbours(g, i as int, j as int));
                    assert(e == neighbours_error(g, i as int, j as int));
                    return Err(e);
                }
                j += 1;
            }
            i += 1;
        }
        proof {
            assert forall|a: int, b: int| !#[trigger] unconnected_neighbours(g, a, b) by {
                if 0 <= a < n {
                } else {
                }
            }
        }
        Ok(())
    }

    /// Read a graph file into this graph, as `parse_current_version` does, and check that
    /// every two nodes that lie next to each other are connected by an edge. When that check
    /// fails, the graph holds what was read and the error names two such nodes.
    pub fn parse(&mut self, data: &[u8]) -> (r: Result<(), GraphParseError>)
        ensures
            match parse_lines(split_lines(data@)) {
                Err(e) => (r matches Err(e2) && e2.view() == e) && final(self)@ == old(self)@,
                Ok(st) => {
                    &&& final(self)@ == finish(st)
                    &&& r is Ok <==> valid_graph(finish(st))
                    &&& r matches Err(e) ==> (e matches GraphParseError::ValidationError { error } && exists|
                        i: int,
                        j: int,
                    | unconnected_neighbours(finish(st), i, j) && error == neighbours_error(finish(st), i, j))
                },
            },
    {
        match self.parse_current_version(data) {
            Ok(()) => {},
            Err(e) => return Err(e),
        }
        match self.validate() {
            Ok(()) => Ok(()),
            Err(error) => Err(GraphParseError::ValidationError { error }),
        }
    }

    /// The smallest X coordinate of all nodes.
    pub fn min_x(&self) -> (r: Coord)
        ensures
            r == self@.min_x,
    {
        self.min_x
    }

    /// The smallest Y coordinate of all nodes.
    pub fn min_y(&self) -> (r: Coord)
        ensures
            r == self@.min_y,
    {
        self.min_y
    }

    /// The greatest X coordinate of all nodes.
    pub fn max_x(&self) -> (r: Coord)
        ensures
            r == self@.max_x,
    {
        self.max_x
    }

    /// The greatest Y coordinate of all nodes.
    pub fn max_y(&self) -> (r: Coord)
        ensures
            r == self@.max_y,
    {
        self.max_y
    }

    /// The number of columns that the nodes span.
    pub fn width(&self) -> (r: usize)
        requires
            self@.min_x <= self@.max_x,
            self@.max_x - self@.min_x <= i16::MAX,
        ensures
            r == self@.max_x - self@.min_x + 1,
    {
        (self.max_x - self.min_x) as usize + 1
    }

    /// The number of rows that the nodes span.
    pub fn height(&self) -> (r: usize)
        requires
            self@.min_y <= self@.max_y,
            self@.max_y - self@.min_y <= i16::MAX,
        ensures
            r == self@.max_y - self@.min_y + 1,
    {
        (self.max_y - self.min_y) as usize + 1
    }

    /// All nodes.
    pub fn nodes(&self) -> (r: &Vec<Node>)
        ensures
            node_views(r@) == self@.nodes,
            unique_ids(self@.nodes),
    {
        proof {
            use_type_invariant(self);
        }
        &self.nodes
    }

    /// The node with the given identifier, if there is one.
    pub fn get_node(&self, node_id: &NodeID) -> (r: Option<&Node>)
        ensures
            r is Some <==> has_node(self@.nodes, *node_id),
            r matches Some(n) ==> n.id == *node_id && self@.nodes.contains(n.view()),
    {
        let mut i: usize = 0;
        while i < self.nodes.len()
            invariant
                i <= self.nodes@.len(),
                forall|j: int| 0 <= j < i ==> #[trigger] self.nodes@[j].id != *node_id,
            decreases self.nodes@.len() - i,
        {
            if self.nodes[i].id == *node_id {
                assert(self@.nodes[i as int] == self.nodes@[i as int].view());
                assert(self@.nodes[i as int].id == *node_id);
                return Some(&self.nodes[i]);
            }
            i += 1;
        }
        proof {
            if has_node(self@.nodes, *node_id) {
                let j = choose|j: int| 0 <= j < self@.nodes.len() && #[trigger] self@.nodes[j].id == *node_id;
                assert(self.nodes@[j].id == *node_id);
            }
        }
        None
    }

    /// All edges, each from a node to a node; every edge of the file appears in both directions.
    pub fn edges(&self) -> (r: &Vec<(NodeID, NodeID)>)
        ensures
            r@ == self@.edges,
    {
        &self.edges
    }

    /// The label of the edge from `a` to `b`, if it has one.
    pub fn edge_label(&self, a: NodeID, b: NodeID) -> (r: Option<&str>)
        ensures
            r is Some <==> self@.labels.dom().contains((a, b)),
            r matches Some(l) ==> l@ == self@.labels[(a, b)],
    {
        proof {
            use_type_invariant(self);
        }
        match find_label(&self.edge_labels, (a, b)) {
            Some(i) => Some(self.edge_labels[i].1.as_str()),
            None => None,
        }
    }
}

impl Default for Graph {
    fn default() -> (r: Self)
        ensures
            r@ == finish(initial_state()),
    {
        let r = Graph {
            nodes: Vec::new(),
            edges: Vec::new(),
            edge_labels: Vec::new(),
            min_x: i16::MAX,
            max_x: i16::MIN,
            min_y: i16::MAX,
            max_y: i16::MIN,
        };
        assert(node_views(r.nodes@) =~= Seq::<NodeView>::empty());
        assert(labels_map(r.edge_labels@) =~= Map::<(NodeID, NodeID), Seq<char>>::empty());
        r
    }
}

/// The line that describes a node: identifier, map file name if there is one, X and Y.
pub open spec fn node_text(n: NodeView) -> Seq<char> {
    spec_decimal(n.id as nat) + seq![' '] + match n.map {
        Some(m) => m + seq![' '],
        None => Seq::empty(),
    } + spec_signed_decimal(n.coord.0 as int) + seq![' '] + spec_signed_decimal(n.coord.1 as int) + seq!['\n']
}

/// The lines that describe the nodes, in order.
pub open spec fn nodes_text(ns: Seq<NodeView>) -> Seq<char>
    decreases ns.len(),
{
    if ns.len() == 0 {
        Seq::empty()
    } else {
        nodes_text(ns.drop_last()) + node_text(ns.last())
    }
}

/// The line that describes an edge: its two nodes, and its label if it has one.
pub open spec fn edge_text(e: (NodeID, NodeID), labels: Map<(NodeID, NodeID), Seq<char>>) -> Seq<char> {
    spec_decimal(e.0 as nat) + seq![' '] + spec_decimal(e.1 as nat) + if labels.dom().contains(e) {
        seq![' '] + labels[e]
    } else {
        Seq::empty()
    } + seq!['\n']
}

/// The lines that describe the edges, in order.
pub open spec fn edges_text(es: Seq<(NodeID, NodeID)>, labels: Map<(NodeID, NodeID), Seq<char>>) -> Seq<char>
    decreases es.len(),
{
    if es.len() == 0 {
        Seq::empty()
    } else {
        edges_text(es.drop_last(), labels) + edge_text(es.last(), labels)
    }
}

/// A graph file: the node lines, a line `#`, and the edge lines.
pub open spec fn graph_text(g: GraphView) -> Seq<char> {
    nodes_text(g.nodes) + seq!['#', '\n'] + edges_text(g.edges, g.labels)
}

impl Graph {
    /// Write this graph in the graph file format: a line for each node, a line `#`, and a line
    /// for each edge in each of its directions, with its label if it has one.
    pub fn serialize(&self) -> (r: String)
        ensures
            r@ == graph_text(self@),
    {
        proof {
            use_type_invariant(self);
        }
        let mut out: Vec<char> = Vec::new();
        let ghost g = self@;
        let mut i: usize = 0;
        while i < self.nodes.len()
            invariant
                i <= self.nodes@.len(),
                g == self@,
                out@ == nodes_text(g.nodes.take(i as int)),
            decreases self.nodes@.len() - i,
        {
            let node = &self.nodes[i];
            let ghost before = out@;
            push_decimal(&mut out, node.id as u64);
            out.push(' ');
            match &node.kind {
                NodeKind::Empty => {},
                NodeKind::MapFilename { map } => {
                    let mut m = chars_of(map.as_str());
                    out.append(&mut m);
                    out.push(' ');
                },
            }
            push_signed_decimal(&mut out, node.coord.0 as i64);
            out.push(' ');
            push_signed_decimal(&mut out, node.coord.1 as i64);
            out.push('\n');
            proof {
                assert(g.nodes.take(i + 1).drop_last() =~= g.nodes.take(i as int));
                assert(g.nodes[i as int] == node.view());
                assert(out@ =~= before + node_text(node.view()));
            }
            i += 1;
        }
        assert(g.nodes.take(i as int) =~= g.nodes);
        out.push('#');
        out.push('\n');
        let ghost header = out@;
        let mut k: usize = 0;
        while k < self.edges.len()
            invariant
                k <= self.edges@.len(),
                g == self@,
                unique_keys(self.edge_labels@),
                out@ == header + edges_text(g.edges.take(k as int), g.labels),
            decreases self.edges@.len() - k,
        {
            let (a, b) = self.edges[k];
            let ghost before = out@;
            push_decimal(&mut out, a as u64);
            out.push(' ');
            push_decimal(&mut out, b as u64);
            match find_label(&self.edge_labels, (a, b)) {
                Some(li) => {
                    out.push(' ');
                    let mut l = chars_of(self.edge_labels[li].1.as_str());
                    out.append(&mut l);
                },
                None => {},
            }
            out.push('\n');
            proof {
                assert(g.edges.take(k + 1).drop_last() =~= g.edges.take(k as int));
                assert(out@ =~= before + edge_text((a, b), g.labels));
                assert(header + edges_text(g.edges.take(k + 1), g.labels) =~= before + edge_text((a, b), g.labels));
            }
            k += 1;
        }
        assert(g.edges.take(k as int) =~= g.edges);
        assert(out@ =~= graph_text(g));
        string_from_chars(&out)
    }
}

/// A map file name or an edge label that a line carries and gives back: at least two
/// characters, and no white space at either end.
pub open spec fn clean_text(m: Seq<char>) -> bool {
    m.len() >= 2 && !is_white_space(m[0]) && !is_white_space(m.last())
}

/// A run of characters without white space.
pub open spec fn is_word(w: Seq<char>) -> bool {
    w.len() > 0 && forall|i: int| 0 <= i < w.len() ==> !is_white_space(#[trigger] w[i])
}

/// The decimal notation of a number is a word.
proof fn lemma_decimal_word(n: nat)
    ensures
        is_word(spec_decimal(n)),
{
    lemma_decimal_is_digits(n);
    let d = spec_decimal(n);
    assert forall|i: int| 0 <= i < d.len() implies !is_white_space(#[trigger] d[i]) by {
        assert(is_digit(d[i]));
    }
}

/// The signed decimal notation of an integer is a word.
proof fn lemma_signed_decimal_word(n: int)
    ensures
        is_word(spec_signed_decimal(n)),
{
    if n < 0 {
        let m = (-n) as nat;
        lemma_decimal_is_digits(m);
        let d = spec_signed_decimal(n);
        assert forall|i: int| 0 <= i < d.len() implies !is_white_space(#[trigger] d[i]) by {
            if i > 0 {
                assert(d[i] == spec_decimal(m)[i - 1]);
                assert(is_digit(spec_decimal(m)[i - 1]));
            }
        }
    } else {
        lemma_decimal_word(n as nat);
    }
}

/// The tokens of two words with a space between them.
proof fn lemma_tokens_two_words(x: Seq<char>, y: Seq<char>)
    requires
        is_word(x),
        is_word(y),
    ensures
        tokens(x + seq![' '] + y) == seq![(0int, x.len() as int), (x.len() + 1int, x.len() + 1int + y.len())],
{
    lemma_tokens_piece_space(x, y);
    lemma_tokens_word(x);
    lemma_tokens_word(y);
    assert(shift_tokens(tokens(y), x.len() + 1int) =~= seq![(x.len() + 1int, x.len() + 1int + y.len())]);
    assert(tokens(x + seq![' '] + y) =~= seq![(0int, x.len() as int), (x.len() + 1int, x.len() + 1int + y.len())]);
}

/// A line of three words reads as a node without a map file name.
proof fn lemma_unnamed_node_line(d: Seq<char>, x: Seq<char>, y: Seq<char>)
    requires
        is_word(d),
        is_word(x),
        is_word(y),
    ensures
        spec_node_line(d + seq![' '] + (x + seq![' '] + y)) == (NodeLine::Unnamed { id: d, x, y }),
{
    let sp = seq![' '];
    let xy = x + sp + y;
    let l = d + sp + xy;
    let dl = d.len() as int;
    lemma_tokens_two_words(x, y);
    lemma_tokens_piece_space(d, xy);
    lemma_tokens_word(d);
    let t = tokens(l);
    assert(t =~= seq![(0int, dl), (dl + 1, dl + 1 + x.len()), (dl + 2 + x.len(), dl + 2 + x.len() + y.len())]);
    assert(token(l, 0) =~= d);
    assert(token(l, 1) =~= x);
    assert(token(l, 2) =~= y);
}

/// A word, a clean map file name and two words read as a node with that map file name.
#[verifier::rlimit(30)]
proof fn lemma_named_node_line(d: Seq<char>, m: Seq<char>, x: Seq<char>, y: Seq<char>)
    requires
        is_word(d),
        clean_text(m),
        is_word(x),
        is_word(y),
    ensures
        spec_node_line(d + seq![' '] + (m + seq![' '] + (x + seq![' '] + y))) == (NodeLine::Named {
            id: d,
            map: m,
            x,
            y,
        }),
{
    let sp = seq![' '];
    let xy = x + sp + y;
    let rest = m + sp + xy;
    let l = d + sp + rest;
    let dl = d.len() as int;
    let ml = m.len() as int;
    lemma_tokens_two_words(x, y);
    lemma_tokens_piece_space(d, rest);
    lemma_tokens_piece_space(m, xy);
    lemma_tokens_word(d);
    lemma_tokens(m);
    lemma_first_token_at_start(m);
    let tm = tokens(m);
    let k = tm.len() as int;
    let t = tokens(l);
    let txy = seq![(0int, x.len() as int), (x.len() + 1int, x.len() + 1int + y.len())];
    assert(tokens(rest) == tm + shift_tokens(txy, ml + 1));
    assert(t == seq![(0int, dl)] + shift_tokens(tm + shift_tokens(txy, ml + 1), dl + 1));
    assert(t.len() == k + 3);
    assert(t[0] == (0int, dl));
    assert(t[1] == (tm[0].0 + dl + 1, tm[0].1 + dl + 1));
    assert(t[k] == (tm[k - 1].0 + dl + 1, tm[k - 1].1 + dl + 1));
    assert(t[k + 1] == (dl + 2 + ml, dl + 2 + ml + x.len()));
    assert(t[k + 2] == (dl + 3 + ml + x.len(), dl + 3 + ml + x.len() + y.len()));
    assert(tm[k - 1].1 == ml);
    if k == 1 {
        assert(t[1].1 - t[1].0 == ml);
    }
    assert(l.subrange(t[1].0, t[k].1) =~= m);
    assert(token(l, 0) =~= d);
    assert(token(l, k + 1) =~= x);
    assert(token(l, k + 2) =~= y);
}

/// The line that `serialize` writes for a node, without its line break, reads back as that
/// node: where no node of that identifier was read before, it is added as it is; else it is a
/// duplicate. Its map file name, if it has one, must be clean.
pub proof fn lemma_node_line_round_trip(st: ParseState, line: int, n: NodeView)
    requires
        n.map matches Some(m) ==> clean_text(m),
    ensures
        node_step(st, line, node_text(n).drop_last()) == if has_node(st.nodes, n.id) {
            Err::<ParseState, ParseErrorView>(ParseErrorView::DuplicateNodeId { line, id: n.id })
        } else {
            Ok::<ParseState, ParseErrorView>(ParseState { nodes: st.nodes.push(n), ..st })
        },
{
    let d = spec_decimal(n.id as nat);
    let x = spec_signed_decimal(n.coord.0 as int);
    let y = spec_signed_decimal(n.coord.1 as int);
    let sp = seq![' '];
    lemma_decimal_word(n.id as nat);
    lemma_signed_decimal_word(n.coord.0 as int);
    lemma_signed_decimal_word(n.coord.1 as int);
    lemma_parse_decimal(n.id as nat, false, 0, u16::MAX as int);
    lemma_parse_signed_decimal(n.coord.0 as int, i16::MIN as int, i16::MAX as int);
    lemma_parse_signed_decimal(n.coord.1 as int, i16::MIN as int, i16::MAX as int);
    match n.map {
        None => {
            assert(node_text(n).drop_last() =~= d + sp + (x + sp + y));
            lemma_unnamed_node_line(d, x, y);
        },
        Some(m) => {
            assert(node_text(n).drop_last() =~= d + sp + (m + sp + (x + sp + y)));
            lemma_named_node_line(d, m, x, y);
        },
    }
    assert(read_id(d) == Ok::<NodeID, IntErrorKind>(n.id));
    assert(read_coord(x) == Ok::<Coord, IntErrorKind>(n.coord.0));
    assert(read_coord(y) == Ok::<Coord, IntErrorKind>(n.coord.1));
}

/// A word, a word and a clean label read as a labelled edge.
#[verifier::rlimit(30)]
proof fn lemma_named_edge_line(a: Seq<char>, b: Seq<char>, label: Seq<char>)
    requires
        is_word(a),
        is_word(b),
        clean_text(label),
    ensures
        spec_edge_line(a + seq![' '] + (b + seq![' '] + label)) == (EdgeLine::Named { id_a: a, id_b: b, label }),
{
    let sp = seq![' '];
    let rest = b + sp + label;
    let l = a + sp + rest;
    let al = a.len() as int;
    let bl = b.len() as int;
    let ll = label.len() as int;
    lemma_tokens_piece_space(a, rest);
    lemma_tokens_piece_space(b, label);
    lemma_tokens_word(a);
    lemma_tokens_word(b);
    lemma_tokens(label);
    lemma_first_token_at_start(label);
    let tl = tokens(label);
    let k = tl.len() as int;
    let t = tokens(l);
    assert(tokens(rest) == seq![(0int, bl)] + shift_tokens(tl, bl + 1));
    assert(t == seq![(0int, al)] + shift_tokens(seq![(0int, bl)] + shift_tokens(tl, bl + 1), al + 1));
    assert(t.len() == k + 2);
    assert(t[0] == (0int, al));
    assert(t[1] == (al + 1, al + 1 + bl));
    assert(t[2] == (tl[0].0 + al + bl + 2, tl[0].1 + al + bl + 2));
    assert(t[k + 1] == (tl[k - 1].0 + al + bl + 2, tl[k - 1].1 + al + bl + 2));
    assert(tl[k - 1].1 == ll);
    if k == 1 {
        assert(t[2].1 - t[2].0 == ll);
    }
    assert(l.subrange(t[2].0, t[k + 1].1) =~= label);
    assert(token(l, 0) =~= a);
    assert(token(l, 1) =~= b);
}

/// The line that `serialize` writes for an edge, without its line break, reads back as that
/// edge: it is added in both directions, with its label if it has one. The label, if there is
/// one, must be clean.
pub proof fn lemma_edge_line_round_trip(
    st: ParseState,
    line: int,
    e: (NodeID, NodeID),
    labels: Map<(NodeID, NodeID), Seq<char>>,
)
    requires
        labels.dom().contains(e) ==> clean_text(labels[e]),
    ensures
        edge_step(st, line, edge_text(e, labels).drop_last()) == insert_edge(
            st,
            e.0,
            e.1,
            if labels.dom().contains(e) {
                Some(labels[e])
            } else {
                None
            },
        ),
{
    let a = spec_decimal(e.0 as nat);
    let b = spec_decimal(e.1 as nat);
    let sp = seq![' '];
    lemma_decimal_word(e.0 as nat);
    lemma_decimal_word(e.1 as nat);
    lemma_parse_decimal(e.0 as nat, false, 0, u16::MAX as int);
    lemma_parse_decimal(e.1 as nat, false, 0, u16::MAX as int);
    if labels.dom().contains(e) {
        assert(edge_text(e, labels).drop_last() =~= a + sp + (b + sp + labels[e]));
        lemma_named_edge_line(a, b, labels[e]);
    } else {
        let l = a + sp + b;
        assert(edge_text(e, labels).drop_last() =~= l);
        lemma_tokens_two_words(a, b);
        assert(token(l, 0) =~= a);
        assert(token(l, 1) =~= b);
    }
    assert(read_id(a) == Ok::<NodeID, IntErrorKind>(e.0));
    assert(read_id(b) == Ok::<NodeID, IntErrorKind>(e.1));
}

/// The first line feed in a line's bytes followed by a line feed is that one.
proof fn lemma_newline_pos_of_line(b: Seq<u8>, rest: Seq<u8>)
    requires
        !b.contains(10u8),
    ensures
        newline_pos(b + seq![10u8] + rest) == b.len(),
    decreases b.len(),
{
    let d = b + seq![10u8] + rest;
    if b.len() > 0 {
        let b1 = b.drop_first();
        assert(!b1.contains(10u8)) by {
            if b1.contains(10u8) {
                let j = choose|j: int| 0 <= j < b1.len() && b1[j] == 10u8;
                assert(b[j + 1] == 10u8);
            }
        }
        lemma_newline_pos_of_line(b1, rest);
        assert(d.drop_first() =~= b1 + seq![10u8] + rest);
        assert(d[0] == b[0]);
        assert(b[0] != 10u8);
    } else {
        assert(d[0] == 10u8);
    }
}

/// Bytes that start with a line and its line feed split into that line, then the lines of
/// the rest.
proof fn lemma_split_first_line(b: Seq<u8>, rest: Seq<u8>)
    requires
        !b.contains(10u8),
    ensures
        split_lines(b + seq![10u8] + rest) == seq![b] + split_lines(rest),
{
    let d = b + seq![10u8] + rest;
    lemma_newline_pos_of_line(b, rest);
    assert(d.take(b.len() as int) =~= b);
    assert(d.skip(b.len() + 1int) =~= rest);
}

/// The lines that describe the nodes start with the line of the first node.
proof fn lemma_nodes_text_front(ns: Seq<NodeView>)
    requires
        ns.len() > 0,
    ensures
        nodes_text(ns) == node_text(ns[0]) + nodes_text(ns.drop_first()),
    decreases ns.len(),
{
    if ns.len() == 1 {
        assert(ns.drop_last() =~= Seq::<NodeView>::empty());
        assert(ns.drop_first() =~= Seq::<NodeView>::empty());
        assert(nodes_text(ns) =~= node_text(ns[0]) + nodes_text(ns.drop_first()));
    } else {
        lemma_nodes_text_front(ns.drop_last());
        assert(ns.drop_last().drop_first() =~= ns.drop_first().drop_last());
        assert(ns.drop_last()[0] == ns[0]);
        assert(ns.drop_first().last() == ns.last());
        assert(nodes_text(ns) =~= node_text(ns[0]) + nodes_text(ns.drop_first()));
    }
}

/// A node whose line `serialize` writes and reads back as it is: its map file name, if it
/// has one, is clean and holds no line break.
pub open spec fn writable_node(n: NodeView) -> bool {
    n.map matches Some(m) ==> clean_text(m) && !m.contains('\n')
}

/// The bytes of the line of each node, without its line feed.
pub open spec fn node_lines(ns: Seq<NodeView>) -> Seq<Seq<u8>> {
    ns.map_values(|n: NodeView| encode_utf8(node_text(n).drop_last()))
}

/// The line of a node holds no line break but the one at its end.
proof fn lemma_node_line_has_no_line_break(n: NodeView)
    requires
        writable_node(n),
    ensures
        !node_text(n).drop_last().contains('\n'),
        node_text(n) == node_text(n).drop_last().push('\n'),
{
    let l = node_text(n).drop_last();
    lemma_decimal_word(n.id as nat);
    lemma_signed_decimal_word(n.coord.0 as int);
    lemma_signed_decimal_word(n.coord.1 as int);
    assert(node_text(n) =~= l.push('\n'));
    if l.contains('\n') {
        let j = choose|j: int| 0 <= j < l.len() && l[j] == '\n';
        let d = spec_decimal(n.id as nat);
        let x = spec_signed_decimal(n.coord.0 as int);
        let y = spec_signed_decimal(n.coord.1 as int);
        let sp = seq![' '];
        match n.map {
            None => {
                assert(l =~= d + sp + x + sp + y);
                if j < d.len() {
                    assert(l[j] == d[j]);
                } else if j < d.len() + 1 {
                } else if j < d.len() + 1 + x.len() {
                    assert(l[j] == x[j - d.len() - 1]);
                } else if j < d.len() + 2 + x.len() {
                } else {
                    assert(l[j] == y[j - d.len() - 2 - x.len()]);
                }
            },
            Some(m) => {
                assert(l =~= d + sp + m + sp + x + sp + y);
                if j < d.len() {
                    assert(l[j] == d[j]);
                } else if j < d.len() + 1 {
                } else if j < d.len() + 1 + m.len() {
                    assert(l[j] == m[j - d.len() - 1]);
                } else if j < d.len() + 2 + m.len() {
                } else if j < d.len() + 2 + m.len() + x.len() {
                    assert(l[j] == x[j - d.len() - 2 - m.len()]);
                } else if j < d.len() + 3 + m.len() + x.len() {
                } else {
                    assert(l[j] == y[j - d.len() - 3 - m.len() - x.len()]);
                }
            },
        }
    }
}

/// An ASCII character is one byte in UTF-8: its code.
proof fn lemma_encode_ascii_char(c: char)
    requires
        (c as u32) < 0x80,
    ensures
        encode_utf8(seq![c]) == seq![(c as u32) as u8],
{
    let v = c as u32;
    assert(v < 0x80 ==> (v & 0x7f) as u8 == v as u8) by (bit_vector);
    assert(vstd::utf8::encode_scalar(v) =~= seq![vstd::utf8::leading_byte_width_1(v)]);
    assert(seq![c][0] == c);
    assert(seq![c].drop_first() =~= Seq::<char>::empty());
    assert(encode_utf8(seq![c].drop_first()) =~= Seq::<u8>::empty());
    assert(encode_utf8(seq![c]) =~= seq![(c as u32) as u8]);
}

/// A line feed is one byte in UTF-8.
proof fn lemma_encode_line_feed()
    ensures
        encode_utf8(seq!['\n']) == seq![10u8],
{
    lemma_encode_ascii_char('\n');
}

/// The lines that describe the nodes, followed by more bytes, split into the line of each
/// node, then the lines of those bytes.
proof fn lemma_split_node_lines(ns: Seq<NodeView>, rest: Seq<u8>)
    requires
        forall|i: int| 0 <= i < ns.len() ==> writable_node(#[trigger] ns[i]),
    ensures
        split_lines(encode_utf8(nodes_text(ns)) + rest) == node_lines(ns) + split_lines(rest),
    decreases ns.len(),
{
    if ns.len() == 0 {
        assert(encode_utf8(nodes_text(ns)) =~= Seq::<u8>::empty());
        assert(encode_utf8(nodes_text(ns)) + rest =~= rest);
        assert(node_lines(ns) + split_lines(rest) =~= split_lines(rest));
    } else {
        let n = ns[0];
        let tail = ns.drop_first();
        assert(writable_node(n));
        assert forall|i: int| 0 <= i < tail.len() implies writable_node(#[trigger] tail[i]) by {
            assert(tail[i] == ns[i + 1]);
        }
        lemma_split_node_lines(tail, rest);
        lemma_nodes_text_front(ns);
        lemma_node_line_has_no_line_break(n);
        let l = node_text(n).drop_last();
        lemma_encode_utf8_concat(node_text(n), nodes_text(tail));
        lemma_encode_utf8_concat(l, seq!['\n']);
        lemma_encode_line_feed();
        lemma_encode_utf8_no_line_feed(l);
        let el = encode_utf8(l);
        let et = encode_utf8(nodes_text(tail));
        assert(l.push('\n') =~= l + seq!['\n']);
        assert(encode_utf8(node_text(n)) == el + seq![10u8]);
        assert(encode_utf8(nodes_text(ns)) == el + seq![10u8] + et);
        assert(encode_utf8(nodes_text(ns)) + rest =~= el + seq![10u8] + (et + rest));
        lemma_split_first_line(el, et + rest);
        assert(node_lines(ns) =~= seq![el] + node_lines(tail));
    }
}

/// Reading the line of each node, one after the other, gives back the nodes, where no two have
/// the same identifier.
proof fn lemma_parse_node_lines(ns: Seq<NodeView>)
    requires
        unique_ids(ns),
        forall|i: int| 0 <= i < ns.len() ==> writable_node(#[trigger] ns[i]),
    ensures
        parse_lines(node_lines(ns)) == Ok::<ParseState, ParseErrorView>(
            ParseState { nodes: ns, edges: Seq::empty(), labels: Map::empty(), in_edges: false },
        ),
    decreases ns.len(),
{
    broadcast use encode_utf8_valid_utf8, encode_utf8_decode_utf8;

    let ls = node_lines(ns);
    if ns.len() == 0 {
        assert(ls =~= Seq::<Seq<u8>>::empty());
        assert(initial_state().nodes =~= ns);
    } else {
        let front = ns.drop_last();
        let n = ns.last();
        assert forall|i: int, j: int| 0 <= i < j < front.len() implies #[trigger] front[i].id != #[trigger] front[j].id by {
            assert(front[i] == ns[i] && front[j] == ns[j]);
        }
        assert forall|i: int| 0 <= i < front.len() implies writable_node(#[trigger] front[i]) by {
            assert(front[i] == ns[i]);
        }
        lemma_parse_node_lines(front);
        assert(ls.drop_last() =~= node_lines(front));
        let st = ParseState { nodes: front, edges: Seq::empty(), labels: Map::empty(), in_edges: false };
        assert(writable_node(n));
        assert(!has_node(front, n.id)) by {
            if has_node(front, n.id) {
                let j = choose|j: int| 0 <= j < front.len() && #[trigger] front[j].id == n.id;
                assert(ns[j].id == ns[ns.len() - 1].id);
            }
        }
        lemma_node_line_round_trip(st, ls.len() - 1, n);
        assert(ls.last() == encode_utf8(node_text(n).drop_last()));
        assert(decode_utf8(ls.last()) == node_text(n).drop_last());
        assert(st.nodes.push(n) =~= ns);
    }
}

/// The edges as reading their lines adds them: each one followed by its reverse.
pub open spec fn doubled(es: Seq<(NodeID, NodeID)>) -> Seq<(NodeID, NodeID)>
    decreases es.len(),
{
    if es.len() == 0 {
        Seq::empty()
    } else {
        doubled(es.drop_last()).push(es.last()).push((es.last().1, es.last().0))
    }
}

/// The bytes of the line of each edge, without its line feed.
pub open spec fn edge_lines(es: Seq<(NodeID, NodeID)>, labels: Map<(NodeID, NodeID), Seq<char>>) -> Seq<Seq<u8>> {
    es.map_values(|e: (NodeID, NodeID)| encode_utf8(edge_text(e, labels).drop_last()))
}

/// The lines that describe the edges start with the line of the first edge.
proof fn lemma_edges_text_front(es: Seq<(NodeID, NodeID)>, labels: Map<(NodeID, NodeID), Seq<char>>)
    requires
        es.len() > 0,
    ensures
        edges_text(es, labels) == edge_text(es[0], labels) + edges_text(es.drop_first(), labels),
    decreases es.len(),
{
    if es.len() == 1 {
        assert(es.drop_last() =~= Seq::<(NodeID, NodeID)>::empty());
        assert(es.drop_first() =~= Seq::<(NodeID, NodeID)>::empty());
        assert(edges_text(es, labels) =~= edge_text(es[0], labels) + edges_text(es.drop_first(), labels));
    } else {
        lemma_edges_text_front(es.drop_last(), labels);
        assert(es.drop_last().drop_first() =~= es.drop_first().drop_last());
        assert(es.drop_last()[0] == es[0]);
        assert(es.drop_first().last() == es.last());
        assert(edges_text(es, labels) =~= edge_text(es[0], labels) + edges_text(es.drop_first(), labels));
    }
}

/// The line of an edge without a label holds no line break but the one at its end.
proof fn lemma_edge_line_has_no_line_break(e: (NodeID, NodeID), labels: Map<(NodeID, NodeID), Seq<char>>)
    requires
        !labels.dom().contains(e),
    ensures
        !edge_text(e, labels).drop_last().contains('\n'),
        edge_text(e, labels) == edge_text(e, labels).drop_last().push('\n'),
{
    let a = spec_decimal(e.0 as nat);
    let b = spec_decimal(e.1 as nat);
    let l = edge_text(e, labels).drop_last();
    lemma_decimal_word(e.0 as nat);
    lemma_decimal_word(e.1 as nat);
    assert(l =~= a + seq![' '] + b);
    assert(edge_text(e, labels) =~= l.push('\n'));
    if l.contains('\n') {
        let j = choose|j: int| 0 <= j < l.len() && l[j] == '\n';
        if j < a.len() {
            assert(l[j] == a[j]);
        } else if j > a.len() {
            assert(l[j] == b[j - a.len() - 1]);
        }
    }
}

/// The lines that describe unlabelled edges, followed by more bytes, split into the line of
/// each edge, then the lines of those bytes.
proof fn lemma_split_edge_lines(es: Seq<(NodeID, NodeID)>, labels: Map<(NodeID, NodeID), Seq<char>>, rest: Seq<u8>)
    requires
        forall|i: int| 0 <= i < es.len() ==> !labels.dom().contains(#[trigger] es[i]),
    ensures
        split_lines(encode_utf8(edges_text(es, labels)) + rest) == edge_lines(es, labels) + split_lines(rest),
    decreases es.len(),
{
    if es.len() == 0 {
        assert(encode_utf8(edges_text(es, labels)) =~= Seq::<u8>::empty());
        assert(encode_utf8(edges_text(es, labels)) + rest =~= rest);
        assert(edge_lines(es, labels) + split_lines(rest) =~= split_lines(rest));
    } else {
        let e = es[0];
        let tail = es.drop_first();
        assert(!labels.dom().contains(e));
        assert forall|i: int| 0 <= i < tail.len() implies !labels.dom().contains(#[trigger] tail[i]) by {
            assert(tail[i] == es[i + 1]);
        }
        lemma_split_edge_lines(tail, labels, rest);
        lemma_edges_text_front(es, labels);
        lemma_edge_line_has_no_line_break(e, labels);
        let l = edge_text(e, labels).drop_last();
        lemma_encode_utf8_concat(edge_text(e, labels), edges_text(tail, labels));
        lemma_encode_utf8_concat(l, seq!['\n']);
        lemma_encode_line_feed();
        lemma_encode_utf8_no_line_feed(l);
        let el = encode_utf8(l);
        let et = encode_utf8(edges_text(tail, labels));
        assert(l.push('\n') =~= l + seq!['\n']);
        assert(encode_utf8(edge_text(e, labels)) == el + seq![10u8]);
        assert(encode_utf8(edges_text(es, labels)) == el + seq![10u8] + et);
        assert(encode_utf8(edges_text(es, labels)) + rest =~= el + seq![10u8] + (et + rest));
        lemma_split_first_line(el, et + rest);
        assert(edge_lines(es, labels) =~= seq![el] + edge_lines(tail, labels));
    }
}

/// Reading the lines of unlabelled edges, after lines that leave the reader in the edge
/// section, adds each edge and its reverse.
proof fn lemma_parse_edge_lines(
    front: Seq<Seq<u8>>,
    st: ParseState,
    es: Seq<(NodeID, NodeID)>,
    labels: Map<(NodeID, NodeID), Seq<char>>,
)
    requires
        parse_lines(front) == Ok::<ParseState, ParseErrorView>(st),
        st.in_edges,
        forall|i: int| 0 <= i < es.len() ==> !labels.dom().contains(#[trigger] es[i]),
    ensures
        parse_lines(front + edge_lines(es, labels)) == Ok::<ParseState, ParseErrorView>(
            ParseState { edges: st.edges + doubled(es), ..st },
        ),
    decreases es.len(),
{
    broadcast use encode_utf8_valid_utf8, encode_utf8_decode_utf8;

    let ls = front + edge_lines(es, labels);
    if es.len() == 0 {
        assert(ls =~= front);
        assert(st.edges + doubled(es) =~= st.edges);
    } else {
        let init = es.drop_last();
        let e = es.last();
        assert forall|i: int| 0 <= i < init.len() implies !labels.dom().contains(#[trigger] init[i]) by {
            assert(init[i] == es[i]);
        }
        lemma_parse_edge_lines(front, st, init, labels);
        assert(ls.drop_last() =~= front + edge_lines(init, labels));
        let mid = ParseState { edges: st.edges + doubled(init), ..st };
        assert(!labels.dom().contains(e));
        lemma_edge_line_round_trip(mid, ls.len() - 1, e, labels);
        assert(ls.last() == encode_utf8(edge_text(e, labels).drop_last()));
        assert(decode_utf8(ls.last()) == edge_text(e, labels).drop_last());
        assert(mid.edges.push(e).push((e.1, e.0)) =~= st.edges + doubled(es));
    }
}

/// A graph without edge labels reads back from the text that `serialize` writes, in UTF-8:
/// the same nodes in the same order, and each edge followed by its reverse (every line adds
/// an edge in both directions, and `serialize` writes every direction), where no two nodes
/// have the same identifier (which every graph keeps) and each map file name is clean and
/// holds no line break. (A graph with a labelled edge reads back as a duplicate label, as the
/// label is written for both directions.)
pub proof fn lemma_graph_text_round_trip(g: GraphView)
    requires
        unique_ids(g.nodes),
        g.labels == Map::<(NodeID, NodeID), Seq<char>>::empty(),
        forall|i: int| 0 <= i < g.nodes.len() ==> writable_node(#[trigger] g.nodes[i]),
    ensures
        parse_lines(split_lines(encode_utf8(graph_text(g)))) == Ok::<ParseState, ParseErrorView>(
            ParseState { nodes: g.nodes, edges: doubled(g.edges), labels: Map::empty(), in_edges: true },
        ),
{
    broadcast use encode_utf8_decode_utf8;

    let hash = seq!['#', '\n'];
    let et = edges_text(g.edges, g.labels);
    assert(graph_text(g) =~= nodes_text(g.nodes) + (hash + et));
    lemma_encode_utf8_concat(nodes_text(g.nodes), hash + et);
    lemma_encode_utf8_concat(hash, et);
    lemma_encode_line_feed();
    lemma_encode_ascii_char('#');
    assert(hash =~= seq!['#'] + seq!['\n']);
    lemma_encode_utf8_concat(seq!['#'], seq!['\n']);
    assert(encode_utf8(hash) =~= seq![0x23u8, 10u8]);
    let ee = encode_utf8(et);
    lemma_split_node_lines(g.nodes, seq![0x23u8, 10u8] + ee);
    assert(!seq![0x23u8].contains(10u8)) by {
        if seq![0x23u8].contains(10u8) {
            let j = choose|j: int| 0 <= j < 1 && seq![0x23u8][j] == 10u8;
        }
    }
    lemma_split_first_line(seq![0x23u8], ee);
    assert(seq![0x23u8] + seq![10u8] + ee =~= seq![0x23u8, 10u8] + ee);
    assert forall|i: int| 0 <= i < g.edges.len() implies !g.labels.dom().contains(#[trigger] g.edges[i]) by {}
    lemma_split_edge_lines(g.edges, g.labels, Seq::empty());
    assert(ee + Seq::<u8>::empty() =~= ee);
    assert(split_lines(Seq::<u8>::empty()) =~= Seq::<Seq<u8>>::empty());
    let ls = node_lines(g.nodes);
    let front = ls.push(seq![0x23u8]);
    let all = split_lines(encode_utf8(graph_text(g)));
    assert(encode_utf8(graph_text(g)) =~= encode_utf8(nodes_text(g.nodes)) + (seq![0x23u8, 10u8] + ee));
    assert(all =~= front + edge_lines(g.edges, g.labels));
    assert(front.drop_last() =~= ls);
    lemma_parse_node_lines(g.nodes);
    vstd::utf8::encode_utf8_valid_utf8(seq!['#']);
    assert(decode_utf8(seq![0x23u8]) == seq!['#']);
    lemma_tokens_word(seq!['#']);
    assert(token(seq!['#'], 0) =~= seq!['#']);
    let st = ParseState { nodes: g.nodes, edges: Seq::empty(), labels: Map::empty(), in_edges: true };
    assert(parse_lines(front) == Ok::<ParseState, ParseErrorView>(st));
    lemma_parse_edge_lines(front, st, g.edges, g.labels);
    assert(st.edges + doubled(g.edges) =~= doubled(g.edges));
}

} // verus!
