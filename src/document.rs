//! The parsed document: source text plus its concrete syntax tree, held as
//! an arena of nodes in which every node stands after its parent.

use vstd::prelude::*;
use crate::coords::{TextPosition, TextRange, utf8_width, lemma_widths_grow};
use crate::grammar::{
    cursor_field, cursor_first_child, cursor_next_sibling, cursor_node, cursor_parent, node_descendant_count,
    node_end, node_end_byte, node_for_points, node_id, node_is_named, node_kind, node_start, node_start_byte,
    parse_go, parse_python, parse_rust, tree_copy, tree_root, tree_walk,
};
use tree_sitter::Tree;
use crate::text::{chars_of, string_of, split_nl, join_nl, views, split_newlines, lemma_split_nl_nonempty};

verus! {

/// One node of the syntax tree. Positions are internal: a line and a byte
/// offset within it.
#[derive(Clone, Debug)]
pub struct SyntaxNode {
    pub kind: String,
    pub parent: Option<usize>,
    pub start: TextPosition,
    pub end: TextPosition,
    pub start_byte: usize,
    pub end_byte: usize,
    /// Whether the node is named in the grammar (not punctuation).
    pub named: bool,
    /// The field under which the node stands in its parent, if any.
    pub field: Option<String>,
    /// The parser's identifier of the node within its tree.
    pub id: usize,
}

/// The `d`-th ancestor of node `i` (its `0`-th ancestor is itself).
pub open spec fn ancestor(nodes: Seq<SyntaxNode>, i: int, d: nat) -> Option<int>
    decreases d,
{
    if d == 0 {
        Some(i)
    } else if 0 <= i < nodes.len() {
        match nodes[i].parent {
            Some(p) => ancestor(nodes, p as int, (d - 1) as nat),
            None => None,
        }
    } else {
        None
    }
}

/// Every parent link points to an earlier node.
pub open spec fn arena_wf(nodes: Seq<SyntaxNode>) -> bool {
    forall|i: int| 0 <= i < nodes.len() ==> match (#[trigger] nodes[i]).parent {
        Some(p) => p < i,
        None => true,
    }
}

/// Some ancestor of `i`, or `i` itself, has kind `k`.
pub open spec fn has_ancestor_of_kind(nodes: Seq<SyntaxNode>, i: int, k: Seq<char>) -> bool {
    exists|d: nat| #[trigger] ancestor(nodes, i, d) is Some && nodes[ancestor(nodes, i, d)->0].kind@ == k
}

/// `a` is the nearest ancestor of `i` (counting `i` itself) of kind `k`.
pub open spec fn nearest_of_kind(nodes: Seq<SyntaxNode>, i: int, k: Seq<char>, a: int) -> bool {
    exists|d: nat| {
        &&& #[trigger] ancestor(nodes, i, d) == Some(a)
        &&& nodes[a].kind@ == k
        &&& forall|e: nat| e < d ==> #[trigger] ancestor(nodes, i, e) is Some && nodes[ancestor(nodes, i, e)->0].kind@ != k
    }
}

proof fn lemma_ancestor_step(nodes: Seq<SyntaxNode>, i: int, d: nat)
    requires
        arena_wf(nodes),
        0 <= i < nodes.len(),
        ancestor(nodes, i, d) is Some,
    ensures
        0 <= ancestor(nodes, i, d)->0 < nodes.len(),
        ancestor(nodes, i, d + 1) == match nodes[ancestor(nodes, i, d)->0].parent {
            Some(p) => Some(p as int),
            None => None::<int>,
        },
    decreases d,
{
    if d > 0 {
        let p = nodes[i].parent->0;
        assert(p < i);
        lemma_ancestor_step(nodes, p as int, (d - 1) as nat);
    } else {
        if let Some(p) = nodes[i].parent {
            assert(ancestor(nodes, p as int, 0) == Some(p as int));
        }
    }
}

proof fn lemma_ancestor_none_after(nodes: Seq<SyntaxNode>, i: int, d: nat, e: nat)
    requires
        ancestor(nodes, i, d) is None,
        d <= e,
    ensures
        ancestor(nodes, i, e) is None,
    decreases d,
{
    if d > 0 {
        if 0 <= i < nodes.len() {
            if let Some(p) = nodes[i].parent {
                lemma_ancestor_none_after(nodes, p as int, (d - 1) as nat, (e - 1) as nat);
            }
        }
    }
}

/// Walks up from `node` to the nearest node (itself included) of kind
/// `kind`; `None` when there is no start node or no such ancestor.
pub fn findup(nodes: &Vec<SyntaxNode>, node: Option<usize>, kind: &String) -> (r: Option<usize>)
    requires
        arena_wf(nodes@),
        node matches Some(i) ==> i < nodes.len(),
    ensures
        node is None ==> r is None,
        node matches Some(i) ==> (r is None <==> !has_ancestor_of_kind(nodes@, i as int, kind@)),
        node matches Some(i) ==> (r matches Some(a) ==> nearest_of_kind(nodes@, i as int, kind@, a as int)),
        r matches Some(a) ==> a < nodes.len(),
{
    let start = match node {
        Some(i) => i,
        None => return None,
    };
    let mut cur: usize = start;
    let ghost mut d: nat = 0;
    loop
        invariant
            arena_wf(nodes@),
            node == Some(start),
            start < nodes.len(),
            cur < nodes.len(),
            ancestor(nodes@, start as int, d) == Some(cur as int),
            forall|e: nat| e < d ==> #[trigger] ancestor(nodes@, start as int, e) is Some
                && nodes@[ancestor(nodes@, start as int, e)->0].kind@ != kind@,
        decreases cur,
    {
        proof {
            lemma_ancestor_step(nodes@, start as int, d);
        }
        if nodes[cur].kind == *kind {
            assert(ancestor(nodes@, start as int, d) is Some && nodes@[ancestor(nodes@, start as int, d)->0].kind@ == kind@);
            return Some(cur);
        }
        match nodes[cur].parent {
            Some(p) => {
                assert(p < cur);
                cur = p;
                proof {
                    d = d + 1;
                }
            },
            None => {
                proof {
                    assert forall|e: nat| !(#[trigger] ancestor(nodes@, start as int, e) is Some
                        && nodes@[ancestor(nodes@, start as int, e)->0].kind@ == kind@) by {
                        if e > d {
                            lemma_ancestor_none_after(nodes@, start as int, d + 1, e);
                        }
                    };
                }
                return None;
            },
        }
    }
}

/// The span of a node, in internal positions.
pub open spec fn span_of(n: SyntaxNode) -> TextRange {
    TextRange { start: n.start, end: n.end }
}

/// The span of a node.
pub fn node_range(n: &SyntaxNode) -> (r: TextRange)
    ensures
        r == span_of(*n),
{
    TextRange { start: n.start, end: n.end }
}

/// A zero-width range at the start of the node's first line.
pub open spec fn line_start_of(n: SyntaxNode) -> TextRange {
    let p = TextPosition { line: n.start.line, character: 0 };
    TextRange { start: p, end: p }
}

/// A zero-width range at column zero of the line where the node starts.
pub fn prepend_node_range(n: &SyntaxNode) -> (r: TextRange)
    ensures
        r == line_start_of(*n),
{
    let p = TextPosition { line: n.start.line, character: 0 };
    TextRange { start: p, end: p }
}

/// The characters of `src` between the byte offsets `sb` and `eb`, when
/// both fall on character boundaries and `sb` comes first.
pub open spec fn byte_span_text(src: Seq<char>, sb: int, eb: int) -> Option<Seq<char>> {
    if exists|i: int, j: int|
        0 <= i <= j <= src.len() && #[trigger] utf8_width(src.take(i)) == sb && #[trigger] utf8_width(src.take(j)) == eb
    {
        let (i, j) = choose|i: int, j: int|
            0 <= i <= j <= src.len() && #[trigger] utf8_width(src.take(i)) == sb && #[trigger] utf8_width(src.take(j)) == eb;
        Some(src.subrange(i, j))
    } else {
        None
    }
}

/// The index of the character boundary at byte offset `b`, if there is one.
fn boundary_at_byte(chars: &Vec<char>, b: usize) -> (r: Option<usize>)
    ensures
        r matches Some(k) ==> k <= chars.len() && utf8_width(chars@.take(k as int)) == b,
        r is None ==> forall|k: int| 0 <= k <= chars.len() ==> utf8_width(#[trigger] chars@.take(k)) != b,
{
    let mut acc: u128 = 0;
    let mut k: usize = 0;
    assert(chars@.take(0) =~= Seq::<char>::empty());
    while k < chars.len() && acc < b as u128
        invariant
            k <= chars.len(),
            acc == utf8_width(chars@.take(k as int)),
            acc <= b,
        decreases chars.len() - k,
    {
        let v = chars[k] as u32;
        let w: u128 = if v < 0x80 {
            1
        } else if v < 0x800 {
            2
        } else if v < 0x10000 {
            3
        } else {
            4
        };
        assert(chars@.take(k + 1).drop_last() =~= chars@.take(k as int));
        acc = acc + w;
        k = k + 1;
        if acc > b as u128 {
            proof {
                assert forall|m: int| 0 <= m <= chars.len() implies utf8_width(#[trigger] chars@.take(m)) != b by {
                    if m < k {
                        lemma_widths_grow(chars@, m, k as int);
                        if m < k - 1 {
                            lemma_widths_grow(chars@, m, k - 1);
                        }
                    } else if m > k {
                        lemma_widths_grow(chars@, k as int, m);
                    }
                };
            }
            return None;
        }
    }
    if acc == b as u128 {
        Some(k)
    } else {
        proof {
            assert forall|m: int| 0 <= m <= chars.len() implies utf8_width(#[trigger] chars@.take(m)) != b by {
                if m < k {
                    lemma_widths_grow(chars@, m, k as int);
                }
            };
        }
        None
    }
}

/// The index of the character boundary of `line` at byte offset `b`.
pub open spec fn boundary_index(line: Seq<char>, b: int) -> Option<int> {
    if exists|k: int| 0 <= k <= line.len() && #[trigger] utf8_width(line.take(k)) == b {
        Some(choose|k: int| 0 <= k <= line.len() && #[trigger] utf8_width(line.take(k)) == b)
    } else {
        None
    }
}

/// The text from byte `sc` of line `sl` to byte `ec` of line `el`, the
/// lines between them whole, joined by newlines; `None` when a line is past
/// the end, an offset is not a character boundary, or the start comes after
/// the end.
pub open spec fn subtext(text: Seq<char>, sl: int, sc: int, el: int, ec: int) -> Option<Seq<char>> {
    let lines = split_nl(text);
    if 0 <= sl < lines.len() && 0 <= el < lines.len() && boundary_index(lines[sl], sc) is Some
        && boundary_index(lines[el], ec) is Some {
        let i = boundary_index(lines[sl], sc)->0;
        let j = boundary_index(lines[el], ec)->0;
        if sl == el {
            if i <= j {
                Some(lines[sl].subrange(i, j))
            } else {
                None
            }
        } else if sl < el {
            Some(join_nl(seq![lines[sl].skip(i)] + lines.subrange(sl + 1, el) + seq![lines[el].take(j)]))
        } else {
            None
        }
    } else {
        None
    }
}

proof fn lemma_boundary_unique(line: Seq<char>, b: int, k: int)
    requires
        0 <= k <= line.len(),
        utf8_width(line.take(k)) == b,
    ensures
        boundary_index(line, b) == Some(k),
{
    let c = choose|c: int| 0 <= c <= line.len() && #[trigger] utf8_width(line.take(c)) == b;
    if c < k {
        lemma_widths_grow(line, c, k);
    } else if c > k {
        lemma_widths_grow(line, k, c);
    }
}

fn copy_range(v: &Vec<char>, from: usize, to: usize, out: &mut Vec<char>)
    requires
        from <= to <= v.len(),
    ensures
        final(out)@ == old(out)@ + v@.subrange(from as int, to as int),
{
    let ghost base = old(out)@;
    let mut k: usize = from;
    while k < to
        invariant
            from <= k <= to <= v.len(),
            out@ == base + v@.subrange(from as int, k as int),
        decreases to - k,
    {
        out.push(v[k]);
        k = k + 1;
        assert(out@ =~= base + v@.subrange(from as int, k as int));
    }
}

/// The text between two internal positions, as `subtext` states.
pub fn get_subtext(text: &str, start_line: usize, start_char: usize, end_line: usize, end_char: usize) -> (r: Option<String>)
    ensures
        match subtext(text@, start_line as int, start_char as int, end_line as int, end_char as int) {
            Some(t) => r matches Some(s) && s@ == t,
            None => r is None,
        },
{
    let chars = chars_of(text);
    let lines = split_newlines(&chars);
    let ghost ls = split_nl(text@);
    if start_line >= lines.len() || end_line >= lines.len() || start_line > end_line {
        return None;
    }
    assert(lines@[start_line as int]@ == ls[start_line as int]);
    assert(lines@[end_line as int]@ == ls[end_line as int]);
    let i = match boundary_at_byte(&lines[start_line], start_char) {
        Some(i) => i,
        None => return None,
    };
    let j = match boundary_at_byte(&lines[end_line], end_char) {
        Some(j) => j,
        None => return None,
    };
    proof {
        lemma_boundary_unique(ls[start_line as int], start_char as int, i as int);
        lemma_boundary_unique(ls[end_line as int], end_char as int, j as int);
    }
    let mut out: Vec<char> = Vec::new();
    if start_line == end_line {
        if i > j {
            return None;
        }
        copy_range(&lines[start_line], i, j, &mut out);
        assert(out@ =~= ls[start_line as int].subrange(i as int, j as int));
        return Some(string_of(&out));
    }
    let first = &lines[start_line];
    copy_range(first, i, first.len(), &mut out);
    let ghost pieces = seq![ls[start_line as int].skip(i as int)] + ls.subrange(start_line + 1, end_line as int)
        + seq![ls[end_line as int].take(j as int)];
    assert(out@ =~= ls[start_line as int].skip(i as int));
    assert(pieces.take(1) =~= seq![pieces[0]]);
    let mut m: usize = start_line + 1;
    while m < end_line
        invariant
            start_line < m <= end_line < lines.len(),
            views(lines@) == ls,
            pieces == seq![ls[start_line as int].skip(i as int)] + ls.subrange(start_line + 1, end_line as int)
                + seq![ls[end_line as int].take(j as int)],
            out@ == join_nl(pieces.take(m - start_line)),
        decreases end_line - m,
    {
        assert(lines@[m as int]@ == ls[m as int]);
        out.push('\n');
        copy_range(&lines[m], 0, lines[m].len(), &mut out);
        let ghost t = pieces.take(m + 1 - start_line);
        assert(t.drop_last() =~= pieces.take(m - start_line));
        assert(t.last() == ls[m as int]);
        assert(ls[m as int].subrange(0, ls[m as int].len() as int) =~= ls[m as int]);
        assert(out@ =~= join_nl(t));
        m = m + 1;
    }
    out.push('\n');
    copy_range(&lines[end_line], 0, j, &mut out);
    assert(pieces.take(pieces.len() as int) =~= pieces);
    assert(pieces.drop_last() =~= pieces.take(end_line - start_line));
    assert(out@ =~= join_nl(pieces));
    Some(string_of(&out))
}

/// Source text, its language, its address, and its syntax tree: the
/// parser's tree, when the document was parsed, and the node arena read
/// out of it.
pub struct ParsedDocument {
    pub source: String,
    pub language: String,
    pub uri: String,
    pub nodes: Vec<SyntaxNode>,
    pub tree: Option<Tree>,
}

/// Node 0 is the only node without a parent.
pub open spec fn rooted(nodes: Seq<SyntaxNode>) -> bool {
    forall|i: int| 0 <= i < nodes.len() ==> ((#[trigger] nodes[i]).parent is None <==> i == 0)
}

/// Parses `source` with the grammar of `language`; Python for a name it
/// does not know.
fn parse_for(language: &str, source: &str) -> (r: Option<Tree>)
    ensures
        r is Some,
{
    let name = language.to_owned();
    if name == "rust".to_owned() {
        parse_rust(source)
    } else if name == "go".to_owned() {
        parse_go(source)
    } else {
        parse_python(source)
    }
}

/// The nodes of a parsed tree in preorder: each node after its parent,
/// siblings in source order.
fn arena_of(tree: &Tree) -> (nodes: Vec<SyntaxNode>)
    ensures
        arena_wf(nodes@),
        rooted(nodes@),
{
    let root = tree_root(tree);
    let limit = node_descendant_count(&root);
    let mut cursor = tree_walk(tree);
    let mut nodes: Vec<SyntaxNode> = Vec::new();
    let mut stack: Vec<usize> = Vec::new();
    while nodes.len() < limit
        invariant
            arena_wf(nodes@),
            rooted(nodes@),
            nodes.len() > 0 <==> stack.len() > 0,
            forall|k: int| 0 <= k < stack.len() ==> #[trigger] stack@[k] < nodes.len(),
        decreases limit - nodes.len(),
    {
        let node = cursor_node(&cursor);
        let idx = nodes.len();
        let parent = if stack.len() > 0 {
            Some(stack[stack.len() - 1])
        } else {
            None
        };
        let ghost before = nodes@;
        nodes.push(SyntaxNode {
            kind: node_kind(&node),
            parent,
            start: node_start(&node),
            end: node_end(&node),
            start_byte: node_start_byte(&node),
            end_byte: node_end_byte(&node),
            named: node_is_named(&node),
            field: cursor_field(&cursor),
            id: node_id(&node),
        });
        assert forall|i: int| 0 <= i < nodes.len() implies match (#[trigger] nodes@[i]).parent {
            Some(p) => p < i,
            None => true,
        } by {
            if i < idx {
                assert(nodes@[i] == before[i]);
            }
        };
        assert forall|i: int| 0 <= i < nodes.len() implies ((#[trigger] nodes@[i]).parent is None <==> i == 0) by {
            if i < idx {
                assert(nodes@[i] == before[i]);
            }
        };
        if cursor_first_child(&mut cursor) {
            stack.push(idx);
        } else {
            loop
                invariant
                    arena_wf(nodes@),
                    rooted(nodes@),
                    forall|k: int| 0 <= k < stack.len() ==> #[trigger] stack@[k] < nodes.len(),
                ensures
                    stack.len() > 0,
                    forall|k: int| 0 <= k < stack.len() ==> #[trigger] stack@[k] < nodes.len(),
                decreases stack.len(),
            {
                if stack.len() == 0 {
                    return nodes;
                }
                if cursor_next_sibling(&mut cursor) {
                    break;
                }
                if !cursor_parent(&mut cursor) {
                    return nodes;
                }
                stack.pop();
            }
        }
    }
    nodes
}

/// Whether each parent link of the arena points to an earlier node.
pub fn check_arena(nodes: &Vec<SyntaxNode>) -> (r: bool)
    ensures
        r == arena_wf(nodes@),
{
    let mut i: usize = 0;
    while i < nodes.len()
        invariant
            i <= nodes.len(),
            forall|m: int| 0 <= m < i ==> match (#[trigger] nodes@[m]).parent {
                Some(p) => p < m,
                None => true,
            },
        decreases nodes.len() - i,
    {
        if let Some(p) = nodes[i].parent {
            if p >= i {
                assert(!arena_wf(nodes@)) by {
                    assert(nodes@[i as int].parent == Some(p));
                };
                return false;
            }
        }
        i = i + 1;
    }
    true
}

/// Whether node 0 is the only node without a parent.
pub fn check_rooted(nodes: &Vec<SyntaxNode>) -> (r: bool)
    ensures
        r == rooted(nodes@),
{
    let mut i: usize = 0;
    while i < nodes.len()
        invariant
            i <= nodes.len(),
            forall|m: int| 0 <= m < i ==> ((#[trigger] nodes@[m]).parent is None <==> m == 0),
        decreases nodes.len() - i,
    {
        if nodes[i].parent.is_none() != (i == 0) {
            assert(!rooted(nodes@)) by {
                assert(nodes@[i as int].parent is None <==> nodes[i as int].parent is None);
            };
            return false;
        }
        i = i + 1;
    }
    true
}

/// Position `a` comes no later than position `b`.
pub open spec fn pos_le(a: TextPosition, b: TextPosition) -> bool {
    a.line < b.line || (a.line == b.line && a.character <= b.character)
}

/// The node's span contains the range.
pub open spec fn covers(n: SyntaxNode, r: TextRange) -> bool {
    pos_le(n.start, r.start) && pos_le(r.end, n.end)
}

/// Node `i` covers the range and none of its children does.
pub open spec fn innermost(nodes: Seq<SyntaxNode>, i: int, r: TextRange) -> bool {
    &&& covers(nodes[i], r)
    &&& forall|m: int| 0 <= m < kids(nodes, i, false).len() ==> !covers(nodes[#[trigger] kids(nodes, i, false)[m]], r)
}

fn pos_le_exec(a: TextPosition, b: TextPosition) -> (r: bool)
    ensures
        r == pos_le(a, b),
{
    a.line < b.line || (a.line == b.line && a.character <= b.character)
}

fn covers_exec(n: &SyntaxNode, r: &TextRange) -> (b: bool)
    ensures
        b == covers(*n, *r),
{
    pos_le_exec(n.start, r.start) && pos_le_exec(r.end, n.end)
}

/// The first child of node `i` that covers the range.
fn first_covering_child(nodes: &Vec<SyntaxNode>, i: usize, r: &TextRange) -> (c: Option<usize>)
    requires
        arena_wf(nodes@),
    ensures
        c matches Some(k) ==> i < k < nodes.len() && covers(nodes@[k as int], *r),
        c matches Some(k) ==> exists|m: int| 0 <= m < kids(nodes@, i as int, false).len()
            && #[trigger] kids(nodes@, i as int, false)[m] == k,
        c is None ==> forall|m: int| 0 <= m < kids(nodes@, i as int, false).len() ==>
            !covers(nodes@[#[trigger] kids(nodes@, i as int, false)[m]], *r),
{
    let ks = children(nodes, i, false);
    let ghost kv = kids(nodes@, i as int, false);
    proof {
        lemma_kids_increasing(nodes@, i as int, nodes.len() as int, false);
    }
    let mut m: usize = 0;
    while m < ks.len()
        invariant
            m <= ks.len(),
            arena_wf(nodes@),
            ks@.map_values(|x: usize| x as int) == kv,
            kv == kids(nodes@, i as int, false),
            forall|a: int| 0 <= a < kv.len() ==> 0 <= #[trigger] kv[a] < nodes.len(),
            forall|a: int| 0 <= a < kv.len() ==> nodes@[#[trigger] kv[a]].parent == Some(i),
            forall|e: int| 0 <= e < m ==> !covers(nodes@[#[trigger] kv[e]], *r),
        decreases ks.len() - m,
    {
        assert(kv[m as int] == ks@[m as int] as int);
        let k = ks[m];
        if covers_exec(&nodes[k], r) {
            assert(nodes@[k as int].parent == Some(i));
            assert(kv[m as int] == k);
            return Some(k);
        }
        m = m + 1;
    }
    None
}

impl SyntaxNode {
    /// A copy with the same fields.
    pub fn duplicate(&self) -> (r: SyntaxNode)
        ensures
            r.kind@ == self.kind@,
            r.parent == self.parent,
            r.start == self.start,
            r.end == self.end,
            r.start_byte == self.start_byte,
            r.end_byte == self.end_byte,
            r.named == self.named,
            r.id == self.id,
            field_view(r.field) == field_view(self.field),
    {
        SyntaxNode {
            kind: self.kind.clone(),
            parent: self.parent,
            start: self.start,
            end: self.end,
            start_byte: self.start_byte,
            end_byte: self.end_byte,
            named: self.named,
            id: self.id,
            field: match &self.field {
                Some(f) => Some(f.clone()),
                None => None,
            },
        }
    }
}

/// The two nodes have the same fields.
pub open spec fn same_node(a: SyntaxNode, b: SyntaxNode) -> bool {
    &&& a.kind@ == b.kind@
    &&& a.parent == b.parent
    &&& a.start == b.start
    &&& a.end == b.end
    &&& a.start_byte == b.start_byte
    &&& a.end_byte == b.end_byte
    &&& a.named == b.named
    &&& a.id == b.id
    &&& field_view(a.field) == field_view(b.field)
}

/// The view of a node's field name.
pub open spec fn field_view(f: Option<String>) -> Option<Seq<char>> {
    match f {
        Some(s) => Some(s@),
        None => None,
    }
}

/// The children of node `i` among the first `n` nodes, in arena order;
/// only the named ones when `named_only`.
pub open spec fn kids_upto(nodes: Seq<SyntaxNode>, i: int, n: int, named_only: bool) -> Seq<int>
    decreases n,
{
    if n <= 0 {
        Seq::empty()
    } else {
        let prev = kids_upto(nodes, i, n - 1, named_only);
        if nodes[n - 1].parent == Some(i as usize) && (!named_only || nodes[n - 1].named) {
            prev.push(n - 1)
        } else {
            prev
        }
    }
}

/// The children of node `i`, in order.
pub open spec fn kids(nodes: Seq<SyntaxNode>, i: int, named_only: bool) -> Seq<int> {
    kids_upto(nodes, i, nodes.len() as int, named_only)
}

pub proof fn lemma_kids_increasing(nodes: Seq<SyntaxNode>, i: int, n: int, named_only: bool)
    requires
        0 <= n <= nodes.len(),
    ensures
        forall|a: int, b: int| 0 <= a < b < kids_upto(nodes, i, n, named_only).len() ==>
            kids_upto(nodes, i, n, named_only)[a] < kids_upto(nodes, i, n, named_only)[b],
        forall|a: int| 0 <= a < kids_upto(nodes, i, n, named_only).len() ==>
            0 <= #[trigger] kids_upto(nodes, i, n, named_only)[a] < n,
        forall|a: int| 0 <= a < kids_upto(nodes, i, n, named_only).len() ==>
            nodes[#[trigger] kids_upto(nodes, i, n, named_only)[a]].parent == Some(i as usize),
    decreases n,
{
    if n > 0 {
        lemma_kids_increasing(nodes, i, n - 1, named_only);
        let prev = kids_upto(nodes, i, n - 1, named_only);
        let cur = kids_upto(nodes, i, n, named_only);
        assert forall|a: int| 0 <= a < cur.len() implies 0 <= #[trigger] cur[a] < n by {
            if a < prev.len() {
                assert(cur[a] == prev[a]);
            }
        };
        assert forall|a: int| 0 <= a < cur.len() implies nodes[#[trigger] cur[a]].parent == Some(i as usize) by {
            if a < prev.len() {
                assert(cur[a] == prev[a]);
            }
        };
        assert forall|a: int, b: int| 0 <= a < b < cur.len() implies cur[a] < cur[b] by {
            assert(cur[a] == prev[a]);
            if b < prev.len() {
                assert(cur[b] == prev[b]);
            }
        };
    }
}

impl ParsedDocument {
    pub open spec fn wf(&self) -> bool {
        arena_wf(self.nodes@) && rooted(self.nodes@)
    }

    /// Parses `source` with the grammar of `language` (Python for a name
    /// the parser does not know) and reads the tree into the node arena.
    pub fn new(source: &str, uri: &str, language: &str) -> (d: ParsedDocument)
        ensures
            d.wf(),
            d.tree is Some,
            d.source@ == source@,
            d.uri@ == uri@,
            d.language@ == language@,
    {
        let tree = parse_for(language, source).unwrap();
        let nodes = arena_of(&tree);
        ParsedDocument {
            source: source.to_owned(),
            language: language.to_owned(),
            uri: uri.to_owned(),
            nodes,
            tree: Some(tree),
        }
    }

    /// A document over `source` whose syntax tree is the arena `nodes`,
    /// without a parser tree; `None` when a parent link of `nodes` does not
    /// point to an earlier node, or a node other than node 0 has no parent.
    pub fn from_parts(source: &str, uri: &str, language: &str, nodes: Vec<SyntaxNode>) -> (r: Option<ParsedDocument>)
        ensures
            r is Some <==> arena_wf(nodes@) && rooted(nodes@),
            r matches Some(d) ==> {
                &&& d.wf()
                &&& d.tree is None
                &&& d.source@ == source@
                &&& d.uri@ == uri@
                &&& d.language@ == language@
                &&& d.nodes@ == nodes@
            },
    {
        if !check_arena(&nodes) || !check_rooted(&nodes) {
            return None;
        }
        Some(ParsedDocument {
            source: source.to_owned(),
            language: language.to_owned(),
            uri: uri.to_owned(),
            nodes,
            tree: None,
        })
    }

    fn copy_nodes(&self) -> (nodes: Vec<SyntaxNode>)
        requires
            self.wf(),
        ensures
            arena_wf(nodes@),
            rooted(nodes@),
            nodes.len() == self.nodes.len(),
            forall|i: int| 0 <= i < nodes.len() ==> same_node(#[trigger] nodes@[i], self.nodes@[i]),
    {
        let mut nodes: Vec<SyntaxNode> = Vec::new();
        let mut i: usize = 0;
        while i < self.nodes.len()
            invariant
                i <= self.nodes.len(),
                nodes.len() == i,
                forall|m: int| 0 <= m < i ==> same_node(#[trigger] nodes@[m], self.nodes@[m]),
            decreases self.nodes.len() - i,
        {
            nodes.push(self.nodes[i].duplicate());
            i = i + 1;
        }
        assert forall|m: int| 0 <= m < nodes.len() implies match (#[trigger] nodes@[m]).parent {
            Some(p) => p < m,
            None => true,
        } by {
            assert(same_node(nodes@[m], self.nodes@[m]));
        };
        assert forall|m: int| 0 <= m < nodes.len() implies ((#[trigger] nodes@[m]).parent is None <==> m == 0) by {
            assert(same_node(nodes@[m], self.nodes@[m]));
        };
        nodes
    }

    /// An independent copy: the same text, language, address and nodes,
    /// with a parser tree of its own when the document has one.
    pub fn duplicate(&self) -> (r: ParsedDocument)
        requires
            self.wf(),
        ensures
            r.wf(),
            r.source@ == self.source@,
            r.language@ == self.language@,
            r.uri@ == self.uri@,
            r.tree is Some <==> self.tree is Some,
            r.nodes.len() == self.nodes.len(),
            forall|i: int| 0 <= i < r.nodes.len() ==> same_node(#[trigger] r.nodes@[i], self.nodes@[i]),
    {
        let tree = match &self.tree {
            Some(t) => Some(tree_copy(t)),
            None => None,
        };
        ParsedDocument {
            source: self.source.clone(),
            language: self.language.clone(),
            uri: self.uri.clone(),
            nodes: self.copy_nodes(),
            tree,
        }
    }

    /// Replaces text and tree together: parses `source` afresh with the
    /// document's grammar and reads the new tree into the arena.
    pub fn update(&mut self, source: &str)
        ensures
            final(self).wf(),
            final(self).source@ == source@,
            final(self).tree is Some,
            final(self).language@ == old(self).language@,
            final(self).uri@ == old(self).uri@,
    {
        let tree = parse_for(self.language.as_str(), source).unwrap();
        self.nodes = arena_of(&tree);
        self.source = source.to_owned();
        self.tree = Some(tree);
    }

    /// The arena index of the node with parser identifier `id`.
    pub fn index_of_id(&self, id: usize) -> (r: Option<usize>)
        ensures
            r matches Some(i) ==> i < self.nodes.len() && self.nodes@[i as int].id == id,
            r is None ==> forall|i: int| 0 <= i < self.nodes.len() ==> (#[trigger] self.nodes@[i]).id != id,
    {
        let mut i: usize = 0;
        while i < self.nodes.len()
            invariant
                i <= self.nodes.len(),
                forall|m: int| 0 <= m < i ==> (#[trigger] self.nodes@[m]).id != id,
            decreases self.nodes.len() - i,
        {
            if self.nodes[i].id == id {
                return Some(i);
            }
            i = i + 1;
        }
        None
    }

    /// Whether node `i` is the innermost node covering the range.
    fn is_innermost(&self, i: usize, range: &TextRange) -> (b: bool)
        requires
            self.wf(),
            i < self.nodes.len(),
        ensures
            b == innermost(self.nodes@, i as int, *range),
    {
        covers_exec(&self.nodes[i], range) && first_covering_child(&self.nodes, i, range).is_none()
    }

    /// The innermost node that covers an internal range: the parser's
    /// answer when it is one, else found by descending from the root
    /// through the first child that covers the range. `None` when the root
    /// does not cover the range (it reaches past the end of the text).
    pub fn node_for_range(&self, range: &TextRange) -> (r: Option<usize>)
        requires
            self.wf(),
        ensures
            r is None <==> !(self.nodes.len() > 0 && covers(self.nodes@[0], *range)),
            r matches Some(i) ==> i < self.nodes.len() && innermost(self.nodes@, i as int, *range),
    {
        if self.nodes.len() == 0 || !covers_exec(&self.nodes[0], range) {
            return None;
        }
        if let Some(tree) = &self.tree {
            let root = tree_root(tree);
            if let Some(n) = node_for_points(&root, range.start, range.end) {
                if let Some(i) = self.index_of_id(node_id(&n)) {
                    if self.is_innermost(i, range) {
                        return Some(i);
                    }
                }
            }
        }
        let mut cur: usize = 0;
        loop
            invariant
                self.wf(),
                cur < self.nodes.len(),
                covers(self.nodes@[cur as int], *range),
                covers(self.nodes@[0], *range),
            decreases self.nodes.len() - cur,
        {
            match first_covering_child(&self.nodes, cur, range) {
                Some(c) => {
                    cur = c;
                },
                None => {
                    return Some(cur);
                },
            }
        }
    }

    /// The text in an internal range, as `get_subtext` gives it.
    pub fn text_from_range(&self, range: &TextRange) -> (r: Option<String>)
        ensures
            match subtext(self.source@, range.start.line as int, range.start.character as int,
                range.end.line as int, range.end.character as int) {
                Some(t) => r matches Some(s) && s@ == t,
                None => r is None,
            },
    {
        get_subtext(
            self.source.as_str(),
            range.start.line as usize,
            range.start.character as usize,
            range.end.line as usize,
            range.end.character as usize,
        )
    }

    /// The text of a node: the source between its byte offsets; `None` when
    /// those do not fall on character boundaries in order.
    pub fn text_from_node(&self, node: usize) -> (r: Option<String>)
        requires
            node < self.nodes.len(),
        ensures
            r matches Some(t) ==> byte_span_text(self.source@, self.nodes@[node as int].start_byte as int,
                self.nodes@[node as int].end_byte as int) == Some(t@),
            r is None ==> byte_span_text(self.source@, self.nodes@[node as int].start_byte as int,
                self.nodes@[node as int].end_byte as int) is None,
    {
        let chars = chars_of(self.source.as_str());
        let sb = self.nodes[node].start_byte;
        let eb = self.nodes[node].end_byte;
        let ghost src = self.source@;
        let i = boundary_at_byte(&chars, sb);
        let j = boundary_at_byte(&chars, eb);
        match (i, j) {
            (Some(i), Some(j)) => {
                if i > j {
                    proof {
                        lemma_widths_grow(src, j as int, i as int);
                        assert forall|a: int, b: int|
                            !(0 <= a <= b <= src.len() && #[trigger] utf8_width(src.take(a)) == sb
                                && #[trigger] utf8_width(src.take(b)) == eb) by {
                            if 0 <= a <= b <= src.len() && utf8_width(src.take(a)) == sb && utf8_width(src.take(b)) == eb {
                                if a != i { if a < i { lemma_widths_grow(src, a, i as int); } else { lemma_widths_grow(src, i as int, a); } }
                                if b != j { if b < j { lemma_widths_grow(src, b, j as int); } else { lemma_widths_grow(src, j as int, b); } }
                            }
                        };
                    }
                    return None;
                }
                proof {
                    assert(utf8_width(src.take(i as int)) == sb && utf8_width(src.take(j as int)) == eb);
                    let (a, b) = choose|a: int, b: int|
                        0 <= a <= b <= src.len() && #[trigger] utf8_width(src.take(a)) == sb
                            && #[trigger] utf8_width(src.take(b)) == eb;
                    if a != i { if a < i { lemma_widths_grow(src, a, i as int); } else { lemma_widths_grow(src, i as int, a); } }
                    if b != j { if b < j { lemma_widths_grow(src, b, j as int); } else { lemma_widths_grow(src, j as int, b); } }
                }
                let mut out: Vec<char> = Vec::new();
                let mut k: usize = i;
                while k < j
                    invariant
                        i <= k <= j <= chars.len(),
                        out@ == chars@.subrange(i as int, k as int),
                    decreases j - k,
                {
                    out.push(chars[k]);
                    k = k + 1;
                    assert(out@ =~= chars@.subrange(i as int, k as int));
                }
                Some(string_of(&out))
            },
            _ => None,
        }
    }
}

/// The children of node `i`, in order; only the named ones when `named_only`.
pub fn children(nodes: &Vec<SyntaxNode>, i: usize, named_only: bool) -> (r: Vec<usize>)
    ensures
        r@.map_values(|j: usize| j as int) == kids(nodes@, i as int, named_only),
{
    let mut out: Vec<usize> = Vec::new();
    let mut j: usize = 0;
    while j < nodes.len()
        invariant
            j <= nodes.len(),
            out@.map_values(|x: usize| x as int) == kids_upto(nodes@, i as int, j as int, named_only),
        decreases nodes.len() - j,
    {
        let ghost before = out@;
        if nodes[j].parent == Some(i) && (!named_only || nodes[j].named) {
            out.push(j);
            assert(out@.map_values(|x: usize| x as int) =~= before.map_values(|x: usize| x as int).push(j as int));
        }
        j = j + 1;
    }
    out
}

/// The `k`-th child of node `i`; only named children count when `named_only`.
pub fn child(nodes: &Vec<SyntaxNode>, i: usize, k: usize, named_only: bool) -> (r: Option<usize>)
    ensures
        k < kids(nodes@, i as int, named_only).len() ==> r == Some(kids(nodes@, i as int, named_only)[k as int] as usize),
        k >= kids(nodes@, i as int, named_only).len() ==> r is None,
{
    let ks = children(nodes, i, named_only);
    assert(ks@.map_values(|j: usize| j as int).len() == ks.len());
    if k < ks.len() {
        assert(ks@.map_values(|j: usize| j as int)[k as int] == ks@[k as int] as int);
        Some(ks[k])
    } else {
        None
    }
}

/// `r` is the sibling after (`forward`) or before node `j` among the
/// children of its parent; nothing for a root or at the end of the row.
pub open spec fn sibling_of(nodes: Seq<SyntaxNode>, j: int, forward: bool, r: Option<usize>) -> bool {
    match nodes[j].parent {
        None => r is None,
        Some(p) => {
            let ks = kids(nodes, p as int, false);
            if exists|m: int| 0 <= m < ks.len() && #[trigger] ks[m] == j {
                let m = choose|m: int| 0 <= m < ks.len() && #[trigger] ks[m] == j;
                let t = if forward {
                    m + 1
                } else {
                    m - 1
                };
                if 0 <= t < ks.len() {
                    r == Some(ks[t] as usize)
                } else {
                    r is None
                }
            } else {
                r is None
            }
        },
    }
}

/// The sibling after (`forward`) or before node `j` under its parent.
pub fn sibling(nodes: &Vec<SyntaxNode>, j: usize, forward: bool) -> (r: Option<usize>)
    requires
        j < nodes.len(),
    ensures
        sibling_of(nodes@, j as int, forward, r),
{
    let p = match nodes[j].parent {
        Some(p) => p,
        None => return None,
    };
    let ks = children(nodes, p, false);
    let ghost kv = kids(nodes@, p as int, false);
    proof {
        lemma_kids_increasing(nodes@, p as int, nodes.len() as int, false);
    }
    let mut m: usize = 0;
    while m < ks.len()
        invariant
            m <= ks.len(),
            j < nodes.len(),
            nodes@[j as int].parent == Some(p),
            ks@.map_values(|x: usize| x as int) == kv,
            kv == kids(nodes@, p as int, false),
            forall|a: int, b: int| 0 <= a < b < kv.len() ==> kv[a] < kv[b],
            forall|e: int| 0 <= e < m ==> kv[e] != j,
        decreases ks.len() - m,
    {
        assert(kv[m as int] == ks@[m as int] as int);
        if ks[m] == j {
            proof {
                assert forall|e: int| 0 <= e < kv.len() && #[trigger] kv[e] == j implies e == m by {
                    if e > m {
                        assert(kv[m as int] < kv[e]);
                    }
                };
                assert(kv[m as int] == j);
                let c = choose|c: int| 0 <= c < kv.len() && #[trigger] kv[c] == j;
                assert(c == m);
            }
            if forward {
                if m + 1 < ks.len() {
                    assert(kv[m + 1] == ks@[m + 1] as int);
                    return Some(ks[m + 1]);
                }
                return None;
            } else {
                if m >= 1 {
                    assert(kv[m - 1] == ks@[m - 1] as int);
                    return Some(ks[m - 1]);
                }
                return None;
            }
        }
        m = m + 1;
    }
    None
}

/// The first child of node `i` that stands under the field `name`.
pub fn child_by_field_name(nodes: &Vec<SyntaxNode>, i: usize, name: &str) -> (r: Option<usize>)
    ensures
        r matches Some(c) ==> exists|m: int|
            0 <= m < kids(nodes@, i as int, false).len() && #[trigger] kids(nodes@, i as int, false)[m] == c
                && field_view(nodes@[c as int].field) == Some(name@)
                && forall|e: int| 0 <= e < m ==> field_view(nodes@[#[trigger] kids(nodes@, i as int, false)[e]].field) != Some(name@),
        r is None ==> forall|m: int| 0 <= m < kids(nodes@, i as int, false).len() ==>
            field_view(nodes@[#[trigger] kids(nodes@, i as int, false)[m]].field) != Some(name@),
{
    let ks = children(nodes, i, false);
    let ghost kv = kids(nodes@, i as int, false);
    proof {
        lemma_kids_increasing(nodes@, i as int, nodes.len() as int, false);
    }
    let want = name.to_owned();
    let mut m: usize = 0;
    while m < ks.len()
        invariant
            m <= ks.len(),
            want@ == name@,
            ks@.map_values(|x: usize| x as int) == kv,
            kv == kids(nodes@, i as int, false),
            forall|a: int| 0 <= a < kv.len() ==> 0 <= #[trigger] kv[a] < nodes.len(),
            forall|e: int| 0 <= e < m ==> field_view(nodes@[#[trigger] kv[e]].field) != Some(name@),
        decreases ks.len() - m,
    {
        assert(kv[m as int] == ks@[m as int] as int);
        let c = ks[m];
        let hit = match &nodes[c].field {
            Some(f) => *f == want,
            None => false,
        };
        if hit {
            return Some(c);
        }
        m = m + 1;
    }
    None
}

} // verus!
