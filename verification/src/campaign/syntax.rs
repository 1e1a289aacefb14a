//! The line grammar of campaign graph files.
//!
//! A line is cut into tokens: maximal runs of characters that are not white space. A node line
//! is `id x y`, or `id map x y` where the map file name may hold white space and is at least
//! two characters long; a line holding only `#` ends the node section. An edge line is
//! `id_a id_b`, or `id_a id_b label` where the label may hold white space and is at least two
//! characters long. Lines of white space only are skipped.
use crate::text::{chars_of, string_from_chars};
use vstd::prelude::*;

verus! {

/// White space in the sense of Unicode's `White_Space` property.
pub open spec fn is_white_space(c: char) -> bool {
    let u = c as u32;
    ||| 0x09 <= u <= 0x0d
    ||| u == 0x20
    ||| u == 0x85
    ||| u == 0xa0
    ||| u == 0x1680
    ||| 0x2000 <= u <= 0x200a
    ||| u == 0x2028
    ||| u == 0x2029
    ||| u == 0x202f
    ||| u == 0x205f
    ||| u == 0x3000
}

/// Whether `c` is white space.
pub fn white_space(c: char) -> (r: bool)
    ensures
        r == is_white_space(c),
{
    let u = c as u32;
    (0x09 <= u && u <= 0x0d) || u == 0x20 || u == 0x85 || u == 0xa0 || u == 0x1680 || (0x2000 <= u
        && u <= 0x200a) || u == 0x2028 || u == 0x2029 || u == 0x202f || u == 0x205f || u == 0x3000
}

/// The tokens of `l`, each as the positions where it starts and where it ends: the maximal
/// runs of characters that are not white space, from left to right.
pub open spec fn tokens(l: Seq<char>) -> Seq<(int, int)>
    decreases l.len(),
{
    if l.len() == 0 {
        Seq::empty()
    } else {
        let t = tokens(l.drop_last());
        let n = l.len() as int;
        if is_white_space(l.last()) {
            t
        } else if n >= 2 && !is_white_space(l[n - 2]) {
            t.update(t.len() - 1, (t.last().0, n))
        } else {
            t.push((n - 1, n))
        }
    }
}

/// Tokens lie in order within the line, hold no white space, and the last one ends the line
/// when the line ends in a character that is not white space.
pub proof fn lemma_tokens(l: Seq<char>)
    ensures
        forall|k: int| 0 <= k < tokens(l).len() ==> 0 <= #[trigger] tokens(l)[k].0 < tokens(l)[k].1 <= l.len(),
        forall|k: int, j: int| 0 <= k < j < tokens(l).len() ==> #[trigger] tokens(l)[k].1 < #[trigger] tokens(l)[j].0,
        forall|k: int, p: int|
            #![trigger tokens(l)[k], l[p]]
            0 <= k < tokens(l).len() && tokens(l)[k].0 <= p < tokens(l)[k].1 ==> !is_white_space(l[p]),
        l.len() > 0 && !is_white_space(l.last()) ==> tokens(l).len() > 0 && tokens(l).last().1 == l.len(),
    decreases l.len(),
{
    if l.len() > 0 {
        let p = l.drop_last();
        lemma_tokens(p);
        let n = l.len() as int;
        let t = tokens(p);
        assert forall|k: int, q: int|
            #![trigger tokens(l)[k], l[q]]
            0 <= k < tokens(l).len() && tokens(l)[k].0 <= q < tokens(l)[k].1 implies !is_white_space(l[q]) by {
            if q < n - 1 {
                assert(l[q] == p[q]);
                if k < t.len() && t[k].0 <= q < t[k].1 {
                    assert(!is_white_space(p[q]));
                } else if k < t.len() {
                    assert(k == t.len() - 1);
                    assert(t[k].0 <= q);
                    assert(!is_white_space(p[q]));
                }
            }
        }
        if is_white_space(l.last()) {
        } else if n >= 2 && !is_white_space(l[n - 2]) {
            assert(p.last() == l[n - 2]);
        } else {
            if t.len() > 0 {
                if t.last().1 == n - 1 {
                    assert(!is_white_space(l[t.last().1 - 1]));
                }
            }
        }
    }
}

/// Token positions moved `k` characters to the right.
pub open spec fn shift_tokens(t: Seq<(int, int)>, k: int) -> Seq<(int, int)> {
    t.map_values(|p: (int, int)| (p.0 + k, p.1 + k))
}

/// Where white space stands between two pieces of a line, or one of them is empty, the
/// tokens of the line are those of the first piece and then those of the second.
pub proof fn lemma_tokens_concat(a: Seq<char>, b: Seq<char>)
    requires
        a.len() == 0 || b.len() == 0 || is_white_space(a.last()) || is_white_space(b[0]),
    ensures
        tokens(a + b) == tokens(a) + shift_tokens(tokens(b), a.len() as int),
    decreases b.len(),
{
    let l = a + b;
    if b.len() == 0 {
        assert(l =~= a);
        assert(shift_tokens(tokens(b), a.len() as int) =~= Seq::<(int, int)>::empty());
        assert(tokens(a) + Seq::<(int, int)>::empty() =~= tokens(a));
    } else {
        let b1 = b.drop_last();
        lemma_tokens_concat(a, b1);
        assert(l.drop_last() =~= a + b1);
        lemma_tokens(b1);
        let n = l.len() as int;
        let k = a.len() as int;
        let ta = tokens(a);
        let tb1 = tokens(b1);
        let sh = shift_tokens(tb1, k);
        assert(l.last() == b.last());
        if is_white_space(b.last()) {
        } else if b.len() >= 2 && !is_white_space(b[b.len() - 2]) {
            assert(l[n - 2] == b[b.len() - 2]);
            assert(b1.last() == b[b.len() - 2]);
            assert(tb1.len() > 0);
            assert((ta + sh).last() == sh.last());
            assert(tokens(l) =~= ta + shift_tokens(tokens(b), k));
        } else if b.len() >= 2 {
            assert(l[n - 2] == b[b.len() - 2]);
            assert(tokens(l) =~= ta + shift_tokens(tokens(b), k));
        } else {
            assert(b1 =~= Seq::<char>::empty());
            assert(tb1 =~= Seq::<(int, int)>::empty());
            if n >= 2 {
                assert(l[n - 2] == a.last());
            }
            assert(tokens(l) =~= ta + shift_tokens(tokens(b), k));
        }
    }
}

/// A piece of a line, a space and the rest of the line: the tokens of the piece, then those
/// of the rest.
pub proof fn lemma_tokens_piece_space(p: Seq<char>, rest: Seq<char>)
    ensures
        tokens(p + seq![' '] + rest) == tokens(p) + shift_tokens(tokens(rest), p.len() + 1int),
{
    let sp = seq![' '];
    lemma_tokens_concat(p, sp);
    assert(sp.drop_last() =~= Seq::<char>::empty());
    assert(tokens(sp.drop_last()) =~= Seq::<(int, int)>::empty());
    assert(tokens(sp) =~= Seq::<(int, int)>::empty());
    assert(tokens(p + sp) =~= tokens(p));
    lemma_tokens_concat(p + sp, rest);
}

/// A run of characters that are not white space is one token.
pub proof fn lemma_tokens_word(w: Seq<char>)
    requires
        w.len() > 0,
        forall|i: int| 0 <= i < w.len() ==> !is_white_space(#[trigger] w[i]),
    ensures
        tokens(w) == seq![(0int, w.len() as int)],
    decreases w.len(),
{
    let n = w.len() as int;
    assert(!is_white_space(w[n - 1]));
    if n > 1 {
        let w1 = w.drop_last();
        assert forall|i: int| 0 <= i < w1.len() implies !is_white_space(#[trigger] w1[i]) by {
            assert(w1[i] == w[i]);
        }
        lemma_tokens_word(w1);
        assert(!is_white_space(w[n - 2]));
        assert(tokens(w) =~= seq![(0int, n)]);
    } else {
        assert(w.drop_last() =~= Seq::<char>::empty());
        assert(tokens(w.drop_last()) =~= Seq::<(int, int)>::empty());
        assert(tokens(w) =~= seq![(0int, n)]);
    }
}

/// A line that starts with a character that is not white space has its first token there.
pub proof fn lemma_first_token_at_start(l: Seq<char>)
    requires
        l.len() > 0,
        !is_white_space(l[0]),
    ensures
        tokens(l).len() > 0,
        tokens(l)[0].0 == 0,
    decreases l.len(),
{
    let n = l.len() as int;
    if n > 1 {
        let l1 = l.drop_last();
        assert(l1[0] == l[0]);
        lemma_first_token_at_start(l1);
        let t = tokens(l1);
        if is_white_space(l.last()) {
        } else if !is_white_space(l[n - 2]) {
            if t.len() == 1 {
                assert(tokens(l)[0] == (t.last().0, n));
            } else {
                assert(tokens(l)[0] == t[0]);
            }
        } else {
            assert(tokens(l)[0] == t[0]);
        }
    } else {
        assert(l.drop_last() =~= Seq::<char>::empty());
        assert(tokens(l.drop_last()) =~= Seq::<(int, int)>::empty());
        assert(l.last() == l[0]);
    }
}

/// The characters of the `k`-th token of `l`.
pub open spec fn token(l: Seq<char>, k: int) -> Seq<char> {
    l.subrange(tokens(l)[k].0, tokens(l)[k].1)
}

/// What a node line holds.
pub enum NodeLine {
    Error,
    Unnamed { id: Seq<char>, x: Seq<char>, y: Seq<char> },
    Named { id: Seq<char>, map: Seq<char>, x: Seq<char>, y: Seq<char> },
    Hash,
    Empty,
}

/// What the node line `l` holds.
pub open spec fn spec_node_line(l: Seq<char>) -> NodeLine {
    let t = tokens(l);
    let n = t.len() as int;
    if n == 0 {
        NodeLine::Empty
    } else if n == 1 && token(l, 0) == seq!['#'] {
        NodeLine::Hash
    } else if n >= 4 && (n >= 5 || t[1].1 - t[1].0 >= 2) {
        NodeLine::Named {
            id: token(l, 0),
            map: l.subrange(t[1].0, t[n - 3].1),
            x: token(l, n - 2),
            y: token(l, n - 1),
        }
    } else if n == 3 {
        NodeLine::Unnamed { id: token(l, 0), x: token(l, 1), y: token(l, 2) }
    } else {
        NodeLine::Error
    }
}

/// What an edge line holds.
pub enum EdgeLine {
    Error,
    Unnamed { id_a: Seq<char>, id_b: Seq<char> },
    Named { id_a: Seq<char>, id_b: Seq<char>, label: Seq<char> },
    Empty,
}

/// What the edge line `l` holds.
pub open spec fn spec_edge_line(l: Seq<char>) -> EdgeLine {
    let t = tokens(l);
    let n = t.len() as int;
    if n == 0 {
        EdgeLine::Empty
    } else if n >= 3 && (n >= 4 || t[2].1 - t[2].0 >= 2) {
        EdgeLine::Named { id_a: token(l, 0), id_b: token(l, 1), label: l.subrange(t[2].0, t[n - 1].1) }
    } else if n == 2 {
        EdgeLine::Unnamed { id_a: token(l, 0), id_b: token(l, 1) }
    } else {
        EdgeLine::Error
    }
}

/// The result of reading a node line.
#[derive(Debug)]
pub enum NodeParseResult {
    Error,
    UnnamedNode { id: String, x: String, y: String },
    NamedNode { id: String, map_file: String, x: String, y: String },
    Hash,
    Empty,
}

impl NodeParseResult {
    /// What the result holds.
    pub open spec fn view(self) -> NodeLine {
        match self {
            NodeParseResult::Error => NodeLine::Error,
            NodeParseResult::UnnamedNode { id, x, y } => NodeLine::Unnamed { id: id@, x: x@, y: y@ },
            NodeParseResult::NamedNode { id, map_file, x, y } => NodeLine::Named {
                id: id@,
                map: map_file@,
                x: x@,
                y: y@,
            },
            NodeParseResult::Hash => NodeLine::Hash,
            NodeParseResult::Empty => NodeLine::Empty,
        }
    }
}

/// The result of reading an edge line.
#[derive(Debug)]
pub enum EdgeParseResult {
    Error,
    UnnamedEdge { id_a: String, id_b: String },
    NamedEdge { id_a: String, id_b: String, edge_label: String },
    Empty,
}

impl EdgeParseResult {
    /// What the result holds.
    pub open spec fn view(self) -> EdgeLine {
        match self {
            EdgeParseResult::Error => EdgeLine::Error,
            EdgeParseResult::UnnamedEdge { id_a, id_b } => EdgeLine::Unnamed { id_a: id_a@, id_b: id_b@ },
            EdgeParseResult::NamedEdge { id_a, id_b, edge_label } => EdgeLine::Named {
                id_a: id_a@,
                id_b: id_b@,
                label: edge_label@,
            },
            EdgeParseResult::Empty => EdgeLine::Empty,
        }
    }
}

/// The tokens of a line.
fn scan_tokens(l: &Vec<char>) -> (r: Vec<(usize, usize)>)
    ensures
        r@.len() == tokens(l@).len(),
        forall|k: int| 0 <= k < r@.len() ==> (#[trigger] r@[k]).0 as int == tokens(l@)[k].0 && r@[k].1 as int
            == tokens(l@)[k].1,
{
    let mut r: Vec<(usize, usize)> = Vec::new();
    let mut i: usize = 0;
    while i < l.len()
        invariant
            i <= l@.len(),
            r@.len() == tokens(l@.take(i as int)).len(),
            forall|k: int| 0 <= k < r@.len() ==> (#[trigger] r@[k]).0 as int == tokens(l@.take(i as int))[k].0
                && r@[k].1 as int == tokens(l@.take(i as int))[k].1,
        decreases l@.len() - i,
    {
        let ghost prev = l@.take(i as int);
        let ghost next = l@.take(i + 1);
        proof {
            assert(next.drop_last() =~= prev);
            lemma_tokens(prev);
        }
        let c = l[i];
        if white_space(c) {
        } else if i >= 1 && !white_space(l[i - 1]) {
            proof {
                assert(prev.last() == l@[i - 1]);
            }
            let last = r.len() - 1;
            let start = r[last].0;
            r.set(last, (start, i + 1));
        } else {
            r.push((i, i + 1));
        }
        i += 1;
        proof {
            assert(r@.len() == tokens(next).len());
        }
    }
    assert(l@.take(l@.len() as int) =~= l@);
    r
}

/// The characters `l[start..end]` as a string.
fn substring(l: &Vec<char>, start: usize, end: usize) -> (r: String)
    requires
        start <= end <= l@.len(),
    ensures
        r@ == l@.subrange(start as int, end as int),
{
    let mut v: Vec<char> = Vec::new();
    let mut i: usize = start;
    while i < end
        invariant
            start <= i <= end <= l@.len(),
            v@ == l@.subrange(start as int, i as int),
        decreases end - i,
    {
        v.push(l[i]);
        i += 1;
        assert(v@ =~= l@.subrange(start as int, i as int));
    }
    string_from_chars(&v)
}

/// Read a line of the node section.
pub fn parse_node_line(line: &str) -> (r: NodeParseResult)
    ensures
        r.view() == spec_node_line(line@),
{
    let l = chars_of(line);
    let t = scan_tokens(&l);
    proof {
        lemma_tokens(l@);
    }
    let n = t.len();
    if n == 0 {
        NodeParseResult::Empty
    } else if n == 1 && t[0].1 - t[0].0 == 1 && l[t[0].0] == '#' {
        assert(token(l@, 0) =~= seq!['#']);
        NodeParseResult::Hash
    } else if n >= 4 && (n >= 5 || t[1].1 - t[1].0 >= 2) {
        proof {
            if n == 1 {
                assert(token(l@, 0).len() != 1 || token(l@, 0)[0] != '#');
            }
        }
        let _ = t[n - 3];
        NodeParseResult::NamedNode {
            id: substring(&l, t[0].0, t[0].1),
            map_file: substring(&l, t[1].0, t[n - 3].1),
            x: substring(&l, t[n - 2].0, t[n - 2].1),
            y: substring(&l, t[n - 1].0, t[n - 1].1),
        }
    } else if n == 3 {
        NodeParseResult::UnnamedNode {
            id: substring(&l, t[0].0, t[0].1),
            x: substring(&l, t[1].0, t[1].1),
            y: substring(&l, t[2].0, t[2].1),
        }
    } else {
        proof {
            if n == 1 {
                assert(token(l@, 0).len() != 1 || token(l@, 0)[0] != '#');
            }
        }
        NodeParseResult::Error
    }
}

/// Read a line of the edge section.
pub fn parse_edge_line(line: &str) -> (r: EdgeParseResult)
    ensures
        r.view() == spec_edge_line(line@),
{
    let l = chars_of(line);
    let t = scan_tokens(&l);
    proof {
        lemma_tokens(l@);
    }
    let n = t.len();
    if n == 0 {
        EdgeParseResult::Empty
    } else if n >= 3 && (n >= 4 || t[2].1 - t[2].0 >= 2) {
        EdgeParseResult::NamedEdge {
            id_a: substring(&l, t[0].0, t[0].1),
            id_b: substring(&l, t[1].0, t[1].1),
            edge_label: substring(&l, t[2].0, t[n - 1].1),
        }
    } else if n == 2 {
        EdgeParseResult::UnnamedEdge {
            id_a: substring(&l, t[0].0, t[0].1),
            id_b: substring(&l, t[1].0, t[1].1),
        }
    } else {
        EdgeParseResult::Error
    }
}

} // verus!
