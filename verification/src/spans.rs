//! Source positions of document paths (`timeline[4].duration`), so diagnostics
//! can point at the line they are about.
use crate::codes;
use crate::diag::{code_of, error_view, DiagView, Diagnostic, Position};
use crate::text::{append_decimal, decimal, str_chars, str_eq, string_from_chars};
use marked_yaml::Node;
use vstd::prelude::*;

verus! {

#[verifier::external_type_specification]
#[verifier::external_body]
pub struct ExMarkedNode(Node);

/// A parsed YAML document reduced to its shape and the position where each node
/// starts.
#[derive(Debug)]
pub enum SpanNode {
    Scalar(Option<Position>),
    Mapping(Option<Position>, Vec<(String, SpanNode)>),
    Sequence(Option<Position>, Vec<SpanNode>),
}

impl SpanNode {
    pub open spec fn position(self) -> Option<Position> {
        match self {
            SpanNode::Scalar(p) => p,
            SpanNode::Mapping(p, _) => p,
            SpanNode::Sequence(p, _) => p,
        }
    }
}

/// Maps document paths to source positions.
#[derive(Debug)]
pub struct SpanIndex {
    positions: Vec<(String, Position)>,
}

/// The recorded positions as a map, later ones winning.
pub open spec fn positions_map(s: Seq<(String, Position)>) -> Map<Seq<char>, Position>
    decreases s.len(),
{
    if s.len() == 0 {
        Map::empty()
    } else {
        positions_map(s.drop_last()).insert(s.last().0@, s.last().1)
    }
}

impl View for SpanIndex {
    type V = Map<Seq<char>, Position>;

    closed spec fn view(&self) -> Map<Seq<char>, Position> {
        positions_map(self.positions@)
    }
}

/// `path.key`, or just `key` at the top level.
pub open spec fn key_path(path: Seq<char>, key: Seq<char>) -> Seq<char> {
    if path.len() == 0 {
        key
    } else {
        path + "."@ + key
    }
}

/// `path[i]`.
pub open spec fn item_path(path: Seq<char>, i: nat) -> Seq<char> {
    path + "["@ + decimal(i) + "]"@
}

/// Recording `node` at `path` into `m`: its own position (except at the root),
/// then its children in order.
pub open spec fn walk_spec(m: Map<Seq<char>, Position>, path: Seq<char>, node: SpanNode) -> Map<Seq<char>, Position>
    decreases node, 0nat,
{
    let m1 = match node.position() {
        Some(p) => if path.len() > 0 {
            m.insert(path, p)
        } else {
            m
        },
        None => m,
    };
    match node {
        SpanNode::Scalar(_) => m1,
        SpanNode::Mapping(_, entries) => walk_entries(m1, path, entries@, entries@.len()),
        SpanNode::Sequence(_, items) => walk_items(m1, path, items@, items@.len()),
    }
}

/// Recording the first `n` entries of a mapping at `path`.
pub open spec fn walk_entries(m: Map<Seq<char>, Position>, path: Seq<char>, es: Seq<(String, SpanNode)>, n: nat) -> Map<Seq<char>, Position>
    decreases es, n,
{
    if n == 0 || n > es.len() {
        m
    } else {
        let m1 = walk_entries(m, path, es, (n - 1) as nat);
        walk_spec(m1, key_path(path, es[n - 1].0@), es[n - 1].1)
    }
}

/// Recording the first `n` items of a sequence at `path`.
pub open spec fn walk_items(m: Map<Seq<char>, Position>, path: Seq<char>, items: Seq<SpanNode>, n: nat) -> Map<Seq<char>, Position>
    decreases items, n,
{
    if n == 0 || n > items.len() {
        m
    } else {
        let m1 = walk_items(m, path, items, (n - 1) as nat);
        walk_spec(m1, item_path(path, (n - 1) as nat), items[n - 1])
    }
}

/// The position of the last `.` or `[` in `p`.
pub open spec fn last_separator(p: Seq<char>) -> Option<int>
    decreases p.len(),
{
    if p.len() == 0 {
        None
    } else if p.last() == '.' || p.last() == '[' {
        Some(p.len() - 1)
    } else {
        last_separator(p.drop_last())
    }
}

proof fn lemma_last_separator(p: Seq<char>)
    ensures
        match last_separator(p) {
            Some(c) => 0 <= c < p.len() && (p[c] == '.' || p[c] == '[') && forall|k: int|
                c < k < p.len() ==> #[trigger] p[k] != '.' && p[k] != '[',
            None => forall|k: int| 0 <= k < p.len() ==> #[trigger] p[k] != '.' && p[k] != '[',
        },
    decreases p.len(),
{
    if p.len() > 0 && !(p.last() == '.' || p.last() == '[') {
        let q = p.drop_last();
        lemma_last_separator(q);
        assert(forall|k: int| 0 <= k < p.len() - 1 ==> #[trigger] q[k] == p[k]);
        match last_separator(q) {
            Some(c) => {
                assert forall|k: int| c < k < p.len() implies #[trigger] p[k] != '.' && p[k] != '[' by {
                    if k < p.len() - 1 {
                        assert(q[k] == p[k]);
                    }
                }
            },
            None => {
                assert forall|k: int| 0 <= k < p.len() implies #[trigger] p[k] != '.' && p[k] != '[' by {
                    if k < p.len() - 1 {
                        assert(q[k] == p[k]);
                    }
                }
            },
        }
    }
}

/// The position of `path`, or of its nearest recorded ancestor (the path cut
/// at its last `.` or `[`, repeatedly).
pub open spec fn ancestor_lookup(m: Map<Seq<char>, Position>, path: Seq<char>) -> Option<Position>
    decreases path.len(),
{
    if m.contains_key(path) {
        Some(m[path])
    } else {
        match last_separator(path) {
            None => None,
            Some(c) => if 0 <= c < path.len() {
                ancestor_lookup(m, path.take(c))
            } else {
                None
            },
        }
    }
}

impl SpanIndex {
    pub fn new() -> (s: SpanIndex)
        ensures
            s@ == Map::<Seq<char>, Position>::empty(),
    {
        SpanIndex { positions: Vec::new() }
    }

    fn record(&mut self, path: String, p: Position)
        ensures
            final(self)@ == old(self)@.insert(path@, p),
    {
        let ghost e0 = self.positions@;
        self.positions.push((path, p));
        proof {
            assert(self.positions@.drop_last() =~= e0);
        }
    }

    pub fn lookup(&self, path: &str) -> (r: Option<Position>)
        ensures
            match r {
                Some(p) => self@.contains_key(path@) && self@[path@] == p,
                None => !self@.contains_key(path@),
            },
    {
        let mut i: usize = self.positions.len();
        while i > 0
            invariant
                i <= self.positions@.len(),
                forall|k: int| i <= k < self.positions@.len() ==> #[trigger] self.positions@[k].0@ != path@,
            decreases i,
        {
            if str_eq(self.positions[i - 1].0.as_str(), path) {
                proof {
                    lemma_positions_last_match(self.positions@, i as int, path@);
                }
                return Some(self.positions[i - 1].1);
            }
            i = i - 1;
        }
        proof {
            lemma_positions_absent(self.positions@, path@);
        }
        None
    }

    /// Falls back to progressively shorter prefixes so a deeply nested error still
    /// points somewhere useful rather than nowhere.
    pub fn lookup_or_ancestor(&self, path: &str) -> (r: Option<Position>)
        ensures
            r == ancestor_lookup(self@, path@),
        decreases path@.len(),
    {
        match self.lookup(path) {
            Some(p) => Some(p),
            None => {
                let chars = str_chars(path);
                proof {
                    lemma_last_separator(path@);
                }
                let mut c: usize = chars.len();
                while c > 0 && chars[c - 1] != '.' && chars[c - 1] != '['
                    invariant
                        c <= chars@.len(),
                        chars@ == path@,
                        forall|k: int| c <= k < chars@.len() ==> #[trigger] chars@[k] != '.' && chars@[k] != '[',
                    decreases c,
                {
                    c = c - 1;
                }
                if c == 0 {
                    proof {
                        match last_separator(path@) {
                            Some(x) => {
                                assert(chars@[x] != '.' && chars@[x] != '[');
                            },
                            None => {},
                        }
                    }
                    return None;
                }
                let cut = c - 1;
                proof {
                    match last_separator(path@) {
                        Some(x) => {
                            if x < cut {
                                assert(chars@[cut as int] != '.' && chars@[cut as int] != '[');
                            } else if x > cut {
                                assert(chars@[x] != '.' && chars@[x] != '[');
                            }
                        },
                        None => {
                            assert(chars@[cut as int] != '.' && chars@[cut as int] != '[');
                        },
                    }
                }
                let mut prefix: Vec<char> = Vec::new();
                let mut k: usize = 0;
                while k < cut
                    invariant
                        k <= cut < chars@.len(),
                        prefix@ == chars@.subrange(0, k as int),
                    decreases cut - k,
                {
                    prefix.push(chars[k]);
                    k = k + 1;
                    proof {
                        assert(prefix@ =~= chars@.subrange(0, k as int));
                    }
                }
                let candidate = string_from_chars(prefix.as_slice());
                proof {
                    assert(candidate@ =~= path@.take(cut as int));
                }
                self.lookup_or_ancestor(candidate.as_str())
            },
        }
    }
}

proof fn lemma_positions_last_match(s: Seq<(String, Position)>, i: int, key: Seq<char>)
    requires
        0 < i <= s.len(),
        s[i - 1].0@ == key,
        forall|k: int| i <= k < s.len() ==> #[trigger] s[k].0@ != key,
    ensures
        positions_map(s).contains_key(key),
        positions_map(s)[key] == s[i - 1].1,
    decreases s.len() - i,
{
    if i < s.len() {
        lemma_positions_last_match(s.drop_last(), i, key);
        assert(forall|k: int| i <= k < s.drop_last().len() ==> #[trigger] s.drop_last()[k] == s[k]);
        assert(s.drop_last()[i - 1] == s[i - 1]);
    }
}

proof fn lemma_positions_absent(s: Seq<(String, Position)>, key: Seq<char>)
    requires
        forall|k: int| 0 <= k < s.len() ==> #[trigger] s[k].0@ != key,
    ensures
        !positions_map(s).contains_key(key),
    decreases s.len(),
{
    if s.len() > 0 {
        assert(forall|k: int| 0 <= k < s.drop_last().len() ==> #[trigger] s.drop_last()[k] == s[k]);
        lemma_positions_absent(s.drop_last(), key);
    }
}

impl SpanIndex {
    #[verifier::loop_isolation(false)]
    fn walk(&mut self, path: &str, node: &SpanNode)
        ensures
            final(self)@ == walk_spec(old(self)@, path@, *node),
        decreases node,
    {
        let p = match node {
            SpanNode::Scalar(p) => *p,
            SpanNode::Mapping(p, _) => *p,
            SpanNode::Sequence(p, _) => *p,
        };
        match p {
            Some(pos) => {
                if path.unicode_len() > 0 {
                    self.record(String::from_str(path), pos);
                }
            },
            None => {},
        }
        let ghost m1 = self@;
        match node {
            SpanNode::Scalar(_) => {},
            SpanNode::Mapping(_, entries) => {
                let mut i: usize = 0;
                while i < entries.len()
                    invariant
                        i <= entries@.len(),
                        self@ == walk_entries(m1, path@, entries@, i as nat),
                    decreases entries@.len() - i,
                {
                    let child = if path.unicode_len() == 0 {
                        entries[i].0.clone()
                    } else {
                        proof {
                            reveal_strlit(".");
                        }
                        let mut c = String::from_str(path);
                        c.append(".");
                        c.append(entries[i].0.as_str());
                        c
                    };
                    self.walk(child.as_str(), &entries[i].1);
                    i = i + 1;
                }
            },
            SpanNode::Sequence(_, items) => {
                let mut i: usize = 0;
                while i < items.len()
                    invariant
                        i <= items@.len(),
                        self@ == walk_items(m1, path@, items@, i as nat),
                    decreases items@.len() - i,
                {
                    proof {
                        reveal_strlit("[");
                        reveal_strlit("]");
                    }
                    let mut c = String::from_str(path);
                    c.append("[");
                    append_decimal(&mut c, i as u64);
                    c.append("]");
                    self.walk(c.as_str(), &items[i]);
                    i = i + 1;
                }
            },
        }
    }

    /// The index of a document's positions: every mapping value and sequence item
    /// under its document path.
    pub fn from_tree(root: &SpanNode) -> (s: SpanIndex)
        ensures
            s@ == walk_spec(Map::empty(), Seq::empty(), *root),
    {
        let mut s = SpanIndex::new();
        proof {
            reveal_strlit("");
            assert(""@ =~= Seq::<char>::empty());
        }
        s.walk("", root);
        s
    }
}

/// What `marked_yaml` makes of the text `source`: its document tree reduced to
/// shape and start positions, or the message of the error it reports.
pub uninterp spec fn marked_tree(source: Seq<char>) -> Result<SpanNode, Seq<char>>;

/// Converts a parsed `marked_yaml` node into a `SpanNode` one for one: the node's
/// start marker gives its line and column, a mapping keeps each key's text and
/// value in order, a sequence its items in order. It is the conversion
/// `parse_marked` applies to the parsed root; nothing is claimed of it alone.
#[verifier::external_body]
fn marked_span_node(node: &Node) -> SpanNode {
    let pos = node.span().start().map(|m| Position { line: m.line() as u32, column: m.column() as u32 });
    match node {
        Node::Scalar(_) => SpanNode::Scalar(pos),
        Node::Mapping(map) => SpanNode::Mapping(
            pos,
            map.iter().map(|(k, v)| (k.as_str().to_string(), marked_span_node(v))).collect(),
        ),
        Node::Sequence(seq) => SpanNode::Sequence(pos, seq.iter().map(marked_span_node).collect()),
    }
}

/// `marked_yaml::parse_yaml(0, source)`, the tree converted by `marked_span_node`
/// and the error by `to_string`. Claimed: the outcome is a function of the text
/// alone, named `marked_tree`; nothing further is stated of the tree or the
/// message.
#[verifier::external_body]
fn parse_marked(source: &str) -> (r: Result<SpanNode, String>)
    ensures
        match r {
            Ok(t) => marked_tree(source@) == Ok::<SpanNode, Seq<char>>(t),
            Err(m) => marked_tree(source@) == Err::<SpanNode, Seq<char>>(m@),
        },
{
    marked_yaml::parse_yaml(0, source).map(|root| marked_span_node(&root)).map_err(|e| e.to_string())
}

/// The positions of every document path of the YAML text `source`: the index of
/// the tree `marked_yaml` parses it into, or, when it does not parse, a YAML
/// syntax error carrying the parser's message.
pub fn span_index(source: &str) -> (r: Result<SpanIndex, Diagnostic>)
    ensures
        match r {
            Ok(index) => marked_tree(source@) matches Ok(t) && index@ == walk_spec(
                Map::empty(),
                Seq::empty(),
                t,
            ),
            Err(d) => marked_tree(source@) matches Err(m) && d@ == error_view(
                code_of(codes::YAML_SYNTAX),
                "invalid YAML: "@ + m,
            ),
        },
{
    match parse_marked(source) {
        Ok(tree) => Ok(SpanIndex::from_tree(&tree)),
        Err(m) => {
            proof {
                reveal_strlit("invalid YAML: ");
            }
            let mut msg = String::from_str("invalid YAML: ");
            msg.append(m.as_str());
            Err(Diagnostic::error(codes::YAML_SYNTAX, msg.as_str()))
        },
    }
}

} // verus!
