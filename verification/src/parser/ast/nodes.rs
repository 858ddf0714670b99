//! Syntax-tree nodes of a justfile: their kinds, and navigation over the
//! nodes the parser reports, listed in preorder.
use vstd::prelude::*;
use std::sync::Arc;
use vstd::utf8::encode_utf8;
use vstd::string::StringSliceAdditionalSpecFns;
use crate::text::{owned, push_str, str_eq, trim, str_trim, is_blank, replace, str_replace, decimal, usize_to_string, starts_with};
use crate::parser::legacy::{byte_slice, on_boundary, lemma_boundary_in_prefix};
use crate::parser::ast::errors::ASTError;
use crate::parser::ast::syntax::{NodeRecord, NodeView, nodes_view};

verus! {

/// The node kinds the parser distinguishes.
#[derive(Debug, PartialEq, Eq)]
pub enum NodeType {
    Justfile,
    Recipe,
    RecipeName,
    Parameters,
    Parameter,
    Body,
    Comment,
    Assignment,
    String,
    Identifier,
    Dependencies,
    /// Any other kind, by its grammar name.
    Unknown(String),
}

/// Text of a node type.
pub open spec fn spec_node_type_text(t: NodeType) -> Seq<char> {
    match t {
        NodeType::Justfile => "justfile"@,
        NodeType::Recipe => "recipe"@,
        NodeType::RecipeName => "recipe_name"@,
        NodeType::Parameters => "parameters"@,
        NodeType::Parameter => "parameter"@,
        NodeType::Body => "body"@,
        NodeType::Comment => "comment"@,
        NodeType::Assignment => "assignment"@,
        NodeType::String => "string"@,
        NodeType::Identifier => "identifier"@,
        NodeType::Dependencies => "dependencies"@,
        NodeType::Unknown(s) => "unknown("@ + s@ + ")"@,
    }
}

/// Node type of a grammar kind the parser knows.
pub open spec fn spec_known_node_type(k: Seq<char>) -> Option<NodeType> {
    if k == "justfile"@ || k == "source_file"@ {
        Some(NodeType::Justfile)
    } else if k == "recipe"@ {
        Some(NodeType::Recipe)
    } else if k == "recipe_name"@ || k == "name"@ {
        Some(NodeType::RecipeName)
    } else if k == "parameters"@ || k == "parameter_list"@ {
        Some(NodeType::Parameters)
    } else if k == "parameter"@ {
        Some(NodeType::Parameter)
    } else if k == "body"@ || k == "recipe_body"@ {
        Some(NodeType::Body)
    } else if k == "comment"@ {
        Some(NodeType::Comment)
    } else if k == "assignment"@ {
        Some(NodeType::Assignment)
    } else if k == "string"@ || k == "string_literal"@ {
        Some(NodeType::String)
    } else if k == "identifier"@ || k == "NAME"@ {
        Some(NodeType::Identifier)
    } else if k == "dependencies"@ || k == "dependency_list"@ {
        Some(NodeType::Dependencies)
    } else {
        None
    }
}

impl NodeType {
    /// The node type as text, such as `recipe` or `unknown(kind)`.
    pub fn to_string(&self) -> (s: String)
        ensures
            s@ == spec_node_type_text(*self),
    {
        match self {
            NodeType::Justfile => owned("justfile"),
            NodeType::Recipe => owned("recipe"),
            NodeType::RecipeName => owned("recipe_name"),
            NodeType::Parameters => owned("parameters"),
            NodeType::Parameter => owned("parameter"),
            NodeType::Body => owned("body"),
            NodeType::Comment => owned("comment"),
            NodeType::Assignment => owned("assignment"),
            NodeType::String => owned("string"),
            NodeType::Identifier => owned("identifier"),
            NodeType::Dependencies => owned("dependencies"),
            NodeType::Unknown(k) => {
                let mut s = owned("unknown(");
                push_str(&mut s, k.as_str());
                push_str(&mut s, ")");
                s
            },
        }
    }

    /// The node type of a grammar kind; kinds not listed are `Unknown`
    /// with the kind's name.
    pub fn from_kind(kind: &str) -> (t: Self)
        ensures
            match spec_known_node_type(kind@) {
                Some(k) => t == k,
                None => t matches NodeType::Unknown(n) && n@ == kind@,
            },
    {
        if str_eq(kind, "justfile") || str_eq(kind, "source_file") {
            NodeType::Justfile
        } else if str_eq(kind, "recipe") {
            NodeType::Recipe
        } else if str_eq(kind, "recipe_name") || str_eq(kind, "name") {
            NodeType::RecipeName
        } else if str_eq(kind, "parameters") || str_eq(kind, "parameter_list") {
            NodeType::Parameters
        } else if str_eq(kind, "parameter") {
            NodeType::Parameter
        } else if str_eq(kind, "body") || str_eq(kind, "recipe_body") {
            NodeType::Body
        } else if str_eq(kind, "comment") {
            NodeType::Comment
        } else if str_eq(kind, "assignment") {
            NodeType::Assignment
        } else if str_eq(kind, "string") || str_eq(kind, "string_literal") {
            NodeType::String
        } else if str_eq(kind, "identifier") || str_eq(kind, "NAME") {
            NodeType::Identifier
        } else if str_eq(kind, "dependencies") || str_eq(kind, "dependency_list") {
            NodeType::Dependencies
        } else {
            NodeType::Unknown(owned(kind))
        }
    }
}

/// Node types that are the same: the same variant, and for `Unknown` the same name.
pub open spec fn same_type(a: NodeType, b: NodeType) -> bool {
    match (a, b) {
        (NodeType::Unknown(x), NodeType::Unknown(y)) => x@ == y@,
        (NodeType::Unknown(_), _) => false,
        (_, NodeType::Unknown(_)) => false,
        _ => a == b,
    }
}

/// The node type of a grammar kind.
pub open spec fn type_of_kind(k: Seq<char>, t: NodeType) -> bool {
    match spec_known_node_type(k) {
        Some(known) => t == known,
        None => t matches NodeType::Unknown(n) && n@ == k,
    }
}

/// Whether two node types are the same.
pub fn types_match(a: &NodeType, b: &NodeType) -> (r: bool)
    ensures
        r == same_type(*a, *b),
{
    match (a, b) {
        (NodeType::Unknown(x), NodeType::Unknown(y)) => str_eq(x.as_str(), y.as_str()),
        (NodeType::Unknown(_), _) => false,
        (_, NodeType::Unknown(_)) => false,
        (NodeType::Justfile, NodeType::Justfile) => true,
        (NodeType::Recipe, NodeType::Recipe) => true,
        (NodeType::RecipeName, NodeType::RecipeName) => true,
        (NodeType::Parameters, NodeType::Parameters) => true,
        (NodeType::Parameter, NodeType::Parameter) => true,
        (NodeType::Body, NodeType::Body) => true,
        (NodeType::Comment, NodeType::Comment) => true,
        (NodeType::Assignment, NodeType::Assignment) => true,
        (NodeType::String, NodeType::String) => true,
        (NodeType::Identifier, NodeType::Identifier) => true,
        (NodeType::Dependencies, NodeType::Dependencies) => true,
        _ => false,
    }
}

// ---------------------------------------------------------------------------
// The node table
// ---------------------------------------------------------------------------

/// The table lists a tree in preorder: the root first, every other node
/// after its parent, every byte range ordered and within the text.
pub open spec fn table_wf(t: Seq<NodeView>, text_len: nat) -> bool {
    &&& t.len() > 0
    &&& t[0].6 is None
    &&& forall|i: int| 0 < i < t.len() ==> (#[trigger] t[i].6 matches Some(p) && p < i)
    &&& forall|i: int| 0 <= i < t.len() ==> (#[trigger] t[i].3).0 <= t[i].3.1 <= text_len
}

/// Node `j` is `i`'s child.
pub open spec fn is_child(t: Seq<NodeView>, i: int, j: int) -> bool {
    &&& 0 <= j < t.len()
    &&& t[j].6 matches Some(p) && p as int == i
}

/// The children of node `i` among the first `n` nodes, in order.
pub open spec fn children_upto(t: Seq<NodeView>, i: int, n: int) -> Seq<int>
    decreases n,
{
    if n <= 0 {
        seq![]
    } else {
        children_upto(t, i, n - 1) + if is_child(t, i, n - 1) {
            seq![n - 1]
        } else {
            seq![]
        }
    }
}

/// The children of node `i`, in order.
pub open spec fn children_of(t: Seq<NodeView>, i: int) -> Seq<int> {
    children_upto(t, i, t.len() as int)
}

/// Node `a` lies on the way from node `j` up to the root, `j` excluded.
pub open spec fn is_ancestor(t: Seq<NodeView>, a: int, j: int) -> bool
    decreases j,
{
    if 0 <= j < t.len() {
        match t[j].6 {
            Some(p) => if (p as int) < j {
                p as int == a || is_ancestor(t, a, p as int)
            } else {
                p as int == a
            },
            None => false,
        }
    } else {
        false
    }
}

/// The nodes below node `i` among the first `n` nodes, in preorder.
pub open spec fn descendants_upto(t: Seq<NodeView>, i: int, n: int) -> Seq<int>
    decreases n,
{
    if n <= 0 {
        seq![]
    } else {
        descendants_upto(t, i, n - 1) + if is_ancestor(t, i, n - 1) {
            seq![n - 1]
        } else {
            seq![]
        }
    }
}

/// The nodes below node `i`, in preorder.
pub open spec fn descendants_of(t: Seq<NodeView>, i: int) -> Seq<int> {
    descendants_upto(t, i, t.len() as int)
}

/// A kind has node type `ty`.
pub open spec fn node_type_is(k: Seq<char>, ty: NodeType) -> bool {
    match spec_known_node_type(k) {
        Some(known) => same_type(known, ty),
        None => ty matches NodeType::Unknown(n) && n@ == k,
    }
}

/// The nearest node above `j` whose kind has node type `ty`.
pub open spec fn ancestor_of_type(t: Seq<NodeView>, j: int, ty: NodeType) -> Option<int>
    decreases j,
{
    if 0 <= j < t.len() {
        match t[j].6 {
            Some(p) => if (p as int) < j {
                if node_type_is(t[p as int].0, ty) {
                    Some(p as int)
                } else {
                    ancestor_of_type(t, p as int, ty)
                }
            } else {
                None
            },
            None => None,
        }
    } else {
        None
    }
}

/// The node type of a kind compares as `node_type_is` says.
proof fn lemma_type_of_kind(k: Seq<char>, t: NodeType, ty: NodeType)
    requires
        type_of_kind(k, t),
    ensures
        same_type(t, ty) == node_type_is(k, ty),
{
}

/// A node of a parse: its place in the node table of the parse, and the
/// parsed text.
pub struct ASTNode {
    nodes: Arc<Vec<NodeRecord>>,
    source: Arc<String>,
    index: usize,
}

impl ASTNode {
    /// The table is a tree in preorder and the node lies in it.
    #[verifier::type_invariant]
    spec fn in_table(self) -> bool {
        &&& table_wf(nodes_view(self.nodes@), encode_utf8(self.source@).len())
        &&& self.index < self.nodes@.len()
    }

    /// The node table of the parse.
    pub closed spec fn table(&self) -> Seq<NodeView> {
        nodes_view(self.nodes@)
    }

    /// The parsed text.
    pub closed spec fn text_view(&self) -> Seq<char> {
        self.source@
    }

    /// The place of the node in the table.
    pub closed spec fn place(&self) -> int {
        self.index as int
    }

    /// What the parser reports of the node.
    pub open spec fn info(&self) -> NodeView {
        self.table()[self.place()]
    }

    /// The node at `index` of a well-formed table.
    pub fn at(nodes: Arc<Vec<NodeRecord>>, source: Arc<String>, index: usize) -> (n: ASTNode)
        requires
            table_wf(nodes_view(nodes@), encode_utf8(source@).len()),
            index < nodes@.len(),
        ensures
            n.table() == nodes_view(nodes@),
            n.text_view() == source@,
            n.place() == index,
    {
        ASTNode { nodes, source, index }
    }

    /// The same node of the same table.
    fn sibling_at(&self, index: usize) -> (n: ASTNode)
        requires
            index < self.table().len(),
        ensures
            n.table() == self.table(),
            n.text_view() == self.text_view(),
            n.place() == index,
    {
        proof {
            use_type_invariant(self);
        }
        ASTNode { nodes: self.nodes.clone(), source: self.source.clone(), index }
    }

    /// The grammar kind of the node.
    pub fn kind(&self) -> (k: &str)
        ensures
            k@ == self.info().0,
    {
        proof {
            use_type_invariant(self);
        }
        assert(self.table()[self.place()] == crate::parser::ast::syntax::node_view(self.nodes@[self.place()]));
        self.nodes[self.index].kind.as_str()
    }

    /// The node type of the node's kind.
    pub fn node_type(&self) -> (t: NodeType)
        ensures
            type_of_kind(self.info().0, t),
    {
        NodeType::from_kind(self.kind())
    }

    /// Whether the node is or holds a syntax error.
    pub fn has_error(&self) -> (b: bool)
        ensures
            b == self.info().4,
    {
        proof {
            use_type_invariant(self);
        }
        assert(self.table()[self.place()] == crate::parser::ast::syntax::node_view(self.nodes@[self.place()]));
        self.nodes[self.index].has_error
    }

    /// Whether error recovery inserted the node.
    pub fn is_missing(&self) -> (b: bool)
        ensures
            b == self.info().5,
    {
        proof {
            use_type_invariant(self);
        }
        assert(self.table()[self.place()] == crate::parser::ast::syntax::node_view(self.nodes@[self.place()]));
        self.nodes[self.index].is_missing
    }

    /// The (row, column) where the node starts, both from zero.
    pub fn start_position(&self) -> (p: (usize, usize))
        ensures
            p == self.info().1,
    {
        proof {
            use_type_invariant(self);
        }
        assert(self.table()[self.place()] == crate::parser::ast::syntax::node_view(self.nodes@[self.place()]));
        self.nodes[self.index].start_position
    }

    /// The (row, column) where the node ends.
    pub fn end_position(&self) -> (p: (usize, usize))
        ensures
            p == self.info().2,
    {
        proof {
            use_type_invariant(self);
        }
        assert(self.table()[self.place()] == crate::parser::ast::syntax::node_view(self.nodes@[self.place()]));
        self.nodes[self.index].end_position
    }

    /// The byte range of the node in the text.
    pub fn byte_range(&self) -> (r: (usize, usize))
        ensures
            r == self.info().3,
            r.0 <= r.1 <= encode_utf8(self.text_view()).len(),
    {
        proof {
            use_type_invariant(self);
        }
        let ghost t = self.table();
        assert(t[self.place()] == crate::parser::ast::syntax::node_view(self.nodes@[self.place()]));
        assert(t[self.place()].3.0 <= t[self.place()].3.1 <= encode_utf8(self.text_view()).len());
        self.nodes[self.index].byte_range
    }
}

/// Calls `std::str::from_utf8` on bytes `a` to `b` of `text` and gives the
/// message of its error, or nothing when they decode. Nothing is claimed of
/// the message.
#[verifier::external_body]
pub(crate) fn utf8_error_text(text: &str, a: usize, b: usize) -> (m: String)
    requires
        a <= b <= encode_utf8(text@).len(),
{
    match std::str::from_utf8(&text.as_bytes()[a..b]) {
        Ok(_) => String::new(),
        Err(e) => e.to_string(),
    }
}

/// Both ends of the node's byte range start characters (or end the text).
pub open spec fn range_on_boundaries(text: Seq<char>, v: NodeView) -> bool {
    on_boundary(text, v.3.0 as int) && on_boundary(text, v.3.1 as int)
}

/// The node's text, when its range falls on character boundaries.
pub open spec fn node_text(text: Seq<char>, v: NodeView) -> Option<Seq<char>> {
    if range_on_boundaries(text, v) {
        Some(byte_slice(text, v.3.0 as int, v.3.1 as int))
    } else {
        None
    }
}

/// A text-extraction error whose details start with `UTF-8 decode error: `.
pub open spec fn is_decode_error(e: ASTError) -> bool {
    e matches ASTError::TextExtraction { details } && starts_with(details@, "UTF-8 decode error: "@)
}

/// Two nodes of the same parse.
pub open spec fn same_parse(a: ASTNode, b: ASTNode) -> bool {
    a.table() == b.table() && a.text_view() == b.text_view()
}

/// Places of nodes.
pub open spec fn places(v: Seq<ASTNode>) -> Seq<int> {
    v.map_values(|n: ASTNode| n.place())
}

/// Nodes all of the parse of `n`.
pub open spec fn all_of_parse(v: Seq<ASTNode>, n: ASTNode) -> bool {
    forall|k: int| 0 <= k < v.len() ==> same_parse(#[trigger] v[k], n)
}

impl ASTNode {
    /// The node's source text; an error when its byte range cuts a character.
    pub fn text(&self) -> (r: Result<&str, ASTError>)
        ensures
            match r {
                Ok(s) => node_text(self.text_view(), self.info()) == Some(s@),
                Err(e) => node_text(self.text_view(), self.info()) is None && is_decode_error(e),
            },
    {
        let (a, b) = self.byte_range();
        let src: &str = self.source.as_str();
        if src.is_char_boundary(a) && src.is_char_boundary(b) {
            proof {
                vstd::utf8::encode_utf8_valid_utf8(src@);
                lemma_boundary_in_prefix(encode_utf8(src@), a as int, b as int);
            }
            let (left, _) = src.split_at(b);
            let (_, mid) = left.split_at(a);
            proof {
                vstd::utf8::encode_utf8_decode_utf8(mid@);
                assert(mid.spec_bytes() =~= encode_utf8(src@).subrange(a as int, b as int));
            }
            Ok(mid)
        } else {
            let mut d = owned("UTF-8 decode error: ");
            let m = utf8_error_text(src, a, b);
            push_str(&mut d, m.as_str());
            proof {
                assert(d@.subrange(0, "UTF-8 decode error: "@.len() as int) =~= "UTF-8 decode error: "@);
            }
            Err(ASTError::text_extraction(d.as_str()))
        }
    }

    /// The node's source text without surrounding blanks.
    pub fn text_trimmed(&self) -> (r: Result<String, ASTError>)
        ensures
            match r {
                Ok(s) => node_text(self.text_view(), self.info()) matches Some(x) && s@ == trim(x),
                Err(e) => node_text(self.text_view(), self.info()) is None && is_decode_error(e),
            },
    {
        match self.text() {
            Ok(t) => Ok(str_trim(t)),
            Err(e) => Err(e),
        }
    }

    /// Whether node `j` of the table is this node's child.
    fn parent_is_self(&self, j: usize) -> (b: bool)
        requires
            j < self.table().len(),
        ensures
            b == is_child(self.table(), self.place(), j as int),
    {
        proof {
            use_type_invariant(self);
        }
        assert(self.table()[j as int] == crate::parser::ast::syntax::node_view(self.nodes@[j as int]));
        match self.nodes[j].parent {
            Some(p) => p == self.index,
            None => false,
        }
    }

    /// The number of children.
    pub fn child_count(&self) -> (n: usize)
        ensures
            n == children_of(self.table(), self.place()).len(),
    {
        proof {
            use_type_invariant(self);
        }
        let ghost t = self.table();
        let ghost i = self.place();
        let mut n: usize = 0;
        let mut j: usize = 0;
        while j < self.nodes.len()
            invariant
                j <= t.len(),
                t == self.table(),
                i == self.place(),
                t.len() == self.nodes@.len(),
                n == children_upto(t, i, j as int).len(),
                n <= j,
            decreases t.len() - j,
        {
            if self.parent_is_self(j) {
                n = n + 1;
            }
            j = j + 1;
        }
        n
    }

    /// The children, in order.
    pub fn children(&self) -> (r: Vec<ASTNode>)
        ensures
            places(r@) == children_of(self.table(), self.place()),
            all_of_parse(r@, *self),
    {
        proof {
            use_type_invariant(self);
        }
        let ghost t = self.table();
        let ghost i = self.place();
        let mut out: Vec<ASTNode> = Vec::new();
        let mut j: usize = 0;
        while j < self.nodes.len()
            invariant
                j <= t.len(),
                t == self.table(),
                i == self.place(),
                t.len() == self.nodes@.len(),
                places(out@) == children_upto(t, i, j as int),
                all_of_parse(out@, *self),
            decreases t.len() - j,
        {
            if self.parent_is_self(j) {
                let c = self.sibling_at(j);
                let ghost prev = places(out@);
                out.push(c);
                assert(places(out@) =~= prev.push(j as int));
            } else {
                assert(children_upto(t, i, j + 1) =~= children_upto(t, i, j as int));
            }
            j = j + 1;
        }
        out
    }

    /// The child at `index`, if there is one.
    pub fn child(&self, index: usize) -> (r: Option<ASTNode>)
        ensures
            r is Some <==> index < children_of(self.table(), self.place()).len(),
            r matches Some(n) ==> n.place() == children_of(self.table(), self.place())[index as int] && same_parse(
                n,
                *self,
            ),
    {
        let mut all = self.children();
        if index < all.len() {
            let ghost before = all@;
            let n = all.swap_remove(index);
            assert(n == before[index as int]);
            Some(n)
        } else {
            None
        }
    }

    /// Whether the node's kind has node type `node_type`.
    pub fn is_type(&self, node_type: NodeType) -> (b: bool)
        ensures
            b == node_type_is(self.info().0, node_type),
    {
        let t = self.node_type();
        proof {
            lemma_type_of_kind(self.info().0, t, node_type);
        }
        types_match(&t, &node_type)
    }

    /// Whether the node's kind is `kind`.
    pub fn is_kind(&self, kind: &str) -> (b: bool)
        ensures
            b == (self.info().0 == kind@),
    {
        str_eq(self.kind(), kind)
    }
}

/// The children of node `i` whose kind has node type `ty`.
pub open spec fn children_of_type(t: Seq<NodeView>, i: int, ty: NodeType) -> Seq<int> {
    children_of(t, i).filter(|c: int| node_type_is(t[c].0, ty))
}

/// The children of node `i` of kind `k`.
pub open spec fn children_of_kind(t: Seq<NodeView>, i: int, k: Seq<char>) -> Seq<int> {
    children_of(t, i).filter(|c: int| t[c].0 == k)
}

impl Clone for ASTNode {
    /// The same node of the same parse.
    fn clone(&self) -> (c: Self)
        ensures
            c.place() == self.place(),
            same_parse(c, *self),
    {
        proof {
            use_type_invariant(self);
        }
        self.sibling_at(self.index)
    }
}

impl ASTNode {
    /// The children whose kind has node type `node_type`, in order.
    pub fn find_children(&self, node_type: NodeType) -> (r: Vec<ASTNode>)
        ensures
            places(r@) == children_of_type(self.table(), self.place(), node_type),
            all_of_parse(r@, *self),
    {
        let all = self.children();
        let ghost t = self.table();
        let ghost f = |c: int| node_type_is(t[c].0, node_type);
        let mut out: Vec<ASTNode> = Vec::new();
        let mut k: usize = 0;
        while k < all.len()
            invariant
                k <= all@.len(),
                t == self.table(),
                f == (|c: int| node_type_is(t[c].0, node_type)),
                places(all@) == children_of(t, self.place()),
                all_of_parse(all@, *self),
                all_of_parse(out@, *self),
                places(out@) == places(all@).take(k as int).filter(f),
            decreases all@.len() - k,
        {
            proof {
                crate::parser::ast::queries::processor::lemma_filter_take(places(all@), f, k as int);
            }
            let c = &all[k];
            assert(places(all@)[k as int] == c.place());
            assert(c.info() == t[c.place()]);
            if c.is_type(node_type.clone_type()) {
                let ghost prev = places(out@);
                out.push(c.clone());
                assert(places(out@) =~= prev.push(c.place()));
            }
            k = k + 1;
        }
        assert(places(all@).take(all@.len() as int) =~= places(all@));
        out
    }

    /// The first child whose kind has node type `node_type`.
    pub fn find_child(&self, node_type: NodeType) -> (r: Option<ASTNode>)
        ensures
            match r {
                Some(n) => children_of_type(self.table(), self.place(), node_type).len() > 0 && n.place()
                    == children_of_type(self.table(), self.place(), node_type)[0] && same_parse(n, *self),
                None => children_of_type(self.table(), self.place(), node_type).len() == 0,
            },
    {
        let mut found = self.find_children(node_type);
        if found.len() > 0 {
            let ghost before = found@;
            let n = found.swap_remove(0);
            assert(n == before[0]);
            Some(n)
        } else {
            None
        }
    }

    /// The children of kind `kind`, in order.
    pub fn find_children_by_kind(&self, kind: &str) -> (r: Vec<ASTNode>)
        ensures
            places(r@) == children_of_kind(self.table(), self.place(), kind@),
            all_of_parse(r@, *self),
    {
        let all = self.children();
        let ghost t = self.table();
        let ghost f = |c: int| t[c].0 == kind@;
        let mut out: Vec<ASTNode> = Vec::new();
        let mut k: usize = 0;
        while k < all.len()
            invariant
                k <= all@.len(),
                t == self.table(),
                f == (|c: int| t[c].0 == kind@),
                places(all@) == children_of(t, self.place()),
                all_of_parse(all@, *self),
                all_of_parse(out@, *self),
                places(out@) == places(all@).take(k as int).filter(f),
            decreases all@.len() - k,
        {
            proof {
                crate::parser::ast::queries::processor::lemma_filter_take(places(all@), f, k as int);
            }
            let c = &all[k];
            assert(places(all@)[k as int] == c.place());
            assert(c.info() == t[c.place()]);
            if c.is_kind(kind) {
                let ghost prev = places(out@);
                out.push(c.clone());
                assert(places(out@) =~= prev.push(c.place()));
            }
            k = k + 1;
        }
        assert(places(all@).take(all@.len() as int) =~= places(all@));
        out
    }

    /// The first child of kind `kind`.
    pub fn find_child_by_kind(&self, kind: &str) -> (r: Option<ASTNode>)
        ensures
            match r {
                Some(n) => children_of_kind(self.table(), self.place(), kind@).len() > 0 && n.place()
                    == children_of_kind(self.table(), self.place(), kind@)[0] && same_parse(n, *self),
                None => children_of_kind(self.table(), self.place(), kind@).len() == 0,
            },
    {
        let mut found = self.find_children_by_kind(kind);
        if found.len() > 0 {
            let ghost before = found@;
            let n = found.swap_remove(0);
            assert(n == before[0]);
            Some(n)
        } else {
            None
        }
    }

    /// The parent node, if any.
    pub fn parent(&self) -> (r: Option<ASTNode>)
        ensures
            match self.info().6 {
                Some(p) => r matches Some(n) && n.place() == p && same_parse(n, *self),
                None => r is None,
            },
    {
        proof {
            use_type_invariant(self);
        }
        assert(self.table()[self.place()] == crate::parser::ast::syntax::node_view(self.nodes@[self.place()]));
        match self.nodes[self.index].parent {
            Some(p) => {
                assert(p < self.index || self.index == 0);
                Some(self.sibling_at(p))
            },
            None => None,
        }
    }

    /// The nearest node above whose kind has node type `node_type`.
    pub fn find_ancestor(&self, node_type: NodeType) -> (r: Option<ASTNode>)
        ensures
            match ancestor_of_type(self.table(), self.place(), node_type) {
                Some(a) => r matches Some(n) && n.place() == a && same_parse(n, *self),
                None => r is None,
            },
    {
        proof {
            use_type_invariant(self);
        }
        let ghost t = self.table();
        let mut current = self.parent();
        let ghost mut below = self.place();
        while current.is_some()
            invariant
                t == self.table(),
                0 <= below < t.len(),
                table_wf(t, encode_utf8(self.text_view()).len()),
                ancestor_of_type(t, self.place(), node_type) == ancestor_of_type(t, below, node_type),
                match t[below].6 {
                    Some(p) => current matches Some(n) && n.place() == p && (p as int) < below && same_parse(n, *self),
                    None => current is None,
                },
            decreases below,
        {
            let node = match current {
                Some(n) => n,
                None => {
                    return None;
                },
            };
            if node.is_type(node_type.clone_type()) {
                return Some(node);
            }
            proof {
                below = node.place();
            }
            current = node.parent();
        }
        None
    }

    /// Whether node `a` lies above node `j`.
    fn is_above(&self, a: usize, j: usize) -> (b: bool)
        requires
            j < self.table().len(),
        ensures
            b == is_ancestor(self.table(), a as int, j as int),
    {
        proof {
            use_type_invariant(self);
        }
        let ghost t = self.table();
        let mut cur = j;
        loop
            invariant
                t == self.table(),
                cur < t.len(),
                t.len() == self.nodes@.len(),
                table_wf(t, encode_utf8(self.text_view()).len()),
                is_ancestor(t, a as int, j as int) == is_ancestor(t, a as int, cur as int),
            decreases cur,
        {
            assert(t[cur as int] == crate::parser::ast::syntax::node_view(self.nodes@[cur as int]));
            match self.nodes[cur].parent {
                Some(p) => {
                    if p == a {
                        return true;
                    }
                    if p >= cur {
                        return false;
                    }
                    cur = p;
                },
                None => {
                    return false;
                },
            }
        }
    }

    /// The nodes below this one, in preorder.
    pub fn descendants(&self) -> (r: Vec<ASTNode>)
        ensures
            places(r@) == descendants_of(self.table(), self.place()),
            all_of_parse(r@, *self),
    {
        proof {
            use_type_invariant(self);
        }
        let ghost t = self.table();
        let ghost i = self.place();
        let mut out: Vec<ASTNode> = Vec::new();
        let mut j: usize = 0;
        while j < self.nodes.len()
            invariant
                j <= t.len(),
                t == self.table(),
                i == self.place(),
                t.len() == self.nodes@.len(),
                places(out@) == descendants_upto(t, i, j as int),
                all_of_parse(out@, *self),
            decreases t.len() - j,
        {
            if self.is_above(self.index, j) {
                let c = self.sibling_at(j);
                let ghost prev = places(out@);
                out.push(c);
                assert(places(out@) =~= prev.push(j as int));
            } else {
                assert(descendants_upto(t, i, j + 1) =~= descendants_upto(t, i, j as int));
            }
            j = j + 1;
        }
        out
    }
}

impl NodeType {
    /// A copy of the node type.
    pub fn clone_type(&self) -> (t: NodeType)
        ensures
            same_type(t, *self),
    {
        match self {
            NodeType::Justfile => NodeType::Justfile,
            NodeType::Recipe => NodeType::Recipe,
            NodeType::RecipeName => NodeType::RecipeName,
            NodeType::Parameters => NodeType::Parameters,
            NodeType::Parameter => NodeType::Parameter,
            NodeType::Body => NodeType::Body,
            NodeType::Comment => NodeType::Comment,
            NodeType::Assignment => NodeType::Assignment,
            NodeType::String => NodeType::String,
            NodeType::Identifier => NodeType::Identifier,
            NodeType::Dependencies => NodeType::Dependencies,
            NodeType::Unknown(k) => NodeType::Unknown(k.clone()),
        }
    }
}

// ---------------------------------------------------------------------------
// Helpers over whole subtrees
// ---------------------------------------------------------------------------

/// Steps from node `k` up to node `a`.
pub open spec fn depth_below(t: Seq<NodeView>, a: int, k: int) -> nat
    decreases k,
{
    if k == a || !(0 <= k < t.len()) {
        0
    } else {
        match t[k].6 {
            Some(p) => if (p as int) < k {
                1 + depth_below(t, a, p as int)
            } else {
                0
            },
            None => 0,
        }
    }
}

/// `n` times two blanks.
pub open spec fn indent_text(n: nat) -> Seq<char>
    decreases n,
{
    if n == 0 {
        seq![]
    } else {
        "  "@ + indent_text((n - 1) as nat)
    }
}

/// The node's text, or `<error>`.
pub open spec fn text_or_error(text: Seq<char>, v: NodeView) -> Seq<char> {
    match node_text(text, v) {
        Some(x) => x,
        None => "<error>"@,
    }
}

/// A line of the tree dump: indentation, kind, start, and the text with
/// newlines written `\n`.
pub open spec fn debug_line(text: Seq<char>, v: NodeView, indent: nat) -> Seq<char> {
    indent_text(indent) + v.0 + "["@ + decimal(v.1.0 as nat) + ":"@ + decimal(v.1.1 as nat) + "] '"@ + replace(
        text_or_error(text, v),
        "\n"@,
        "\\n"@,
    ) + "'\n"@
}

/// The dump of the subtree of `root` among the first `n` nodes.
pub open spec fn debug_upto(t: Seq<NodeView>, text: Seq<char>, root: int, indent: nat, n: int) -> Seq<char>
    decreases n,
{
    if n <= 0 {
        seq![]
    } else {
        debug_upto(t, text, root, indent, n - 1) + if n - 1 == root || is_ancestor(t, root, n - 1) {
            debug_line(text, t[n - 1], indent + depth_below(t, root, n - 1))
        } else {
            seq![]
        }
    }
}

/// The nodes of the subtree of `root` (itself first) whose kind has node type `ty`.
pub open spec fn subtree_of_type(t: Seq<NodeView>, root: int, ty: NodeType) -> Seq<int> {
    (seq![root] + descendants_of(t, root)).filter(|c: int| node_type_is(t[c].0, ty))
}

impl ASTNode {
    /// Steps from node `j` up to this node, `j` being this node or below it.
    fn steps_up_to_self(&self, j: usize) -> (d: usize)
        requires
            j < self.table().len(),
            j as int == self.place() || is_ancestor(self.table(), self.place(), j as int),
        ensures
            d == depth_below(self.table(), self.place(), j as int),
    {
        proof {
            use_type_invariant(self);
        }
        let ghost t = self.table();
        let mut cur = j;
        let mut d: usize = 0;
        while cur != self.index
            invariant
                t == self.table(),
                cur < t.len(),
                t.len() == self.nodes@.len(),
                table_wf(t, encode_utf8(self.text_view()).len()),
                cur as int == self.place() || is_ancestor(t, self.place(), cur as int),
                depth_below(t, self.place(), j as int) == d + depth_below(t, self.place(), cur as int),
                d + cur <= j,
            decreases cur,
        {
            assert(t[cur as int] == crate::parser::ast::syntax::node_view(self.nodes@[cur as int]));
            match self.nodes[cur].parent {
                Some(p) => {
                    cur = p;
                    d = d + 1;
                },
                None => {
                    assert(false);
                    return d;
                },
            }
        }
        d
    }
}

/// The node's text, or `<error>` when it cannot be cut from the parsed text.
pub fn extract_text_safe(node: &ASTNode) -> (s: String)
    ensures
        s@ == text_or_error(node.text_view(), node.info()),
{
    match node.text() {
        Ok(t) => owned(t),
        Err(_) => owned("<error>"),
    }
}

/// Whether the node's text is blank; a node whose text cannot be cut counts as blank.
pub fn is_whitespace_only(node: &ASTNode) -> (b: bool)
    ensures
        b == match node_text(node.text_view(), node.info()) {
            Some(x) => trim(x).len() == 0,
            None => true,
        },
{
    match node.text() {
        Ok(t) => is_blank(t),
        Err(_) => true,
    }
}

/// The nodes of the subtree of `root`, itself first, whose kind has node
/// type `node_type`, in preorder.
pub fn find_all_nodes(root: &ASTNode, node_type: NodeType) -> (r: Vec<ASTNode>)
    ensures
        places(r@) == subtree_of_type(root.table(), root.place(), node_type),
        all_of_parse(r@, *root),
{
    let mut all: Vec<ASTNode> = Vec::new();
    all.push(root.clone());
    let below = root.descendants();
    let mut k: usize = 0;
    let ghost head = places(all@);
    while k < below.len()
        invariant
            k <= below@.len(),
            places(below@) == descendants_of(root.table(), root.place()),
            all_of_parse(below@, *root),
            all_of_parse(all@, *root),
            head == seq![root.place()],
            places(all@) == head + places(below@).take(k as int),
        decreases below@.len() - k,
    {
        let ghost prev = places(all@);
        all.push(below[k].clone());
        assert(places(all@) =~= prev.push(below@[k as int].place()));
        assert(places(below@).take(k + 1) =~= places(below@).take(k as int).push(below@[k as int].place()));
        k = k + 1;
    }
    assert(places(below@).take(below@.len() as int) =~= places(below@));
    let ghost t = root.table();
    let ghost f = |c: int| node_type_is(t[c].0, node_type);
    let mut out: Vec<ASTNode> = Vec::new();
    let mut j: usize = 0;
    while j < all.len()
        invariant
            j <= all@.len(),
            t == root.table(),
            f == (|c: int| node_type_is(t[c].0, node_type)),
            places(all@) == seq![root.place()] + descendants_of(t, root.place()),
            all_of_parse(all@, *root),
            all_of_parse(out@, *root),
            places(out@) == places(all@).take(j as int).filter(f),
        decreases all@.len() - j,
    {
        proof {
            crate::parser::ast::queries::processor::lemma_filter_take(places(all@), f, j as int);
        }
        let c = &all[j];
        assert(places(all@)[j as int] == c.place());
        assert(c.info() == t[c.place()]);
        if c.is_type(node_type.clone_type()) {
            let ghost prev = places(out@);
            out.push(c.clone());
            assert(places(out@) =~= prev.push(c.place()));
        }
        j = j + 1;
    }
    assert(places(all@).take(all@.len() as int) =~= places(all@));
    out
}

/// A dump of the subtree of `node`: one line per node in preorder, indented
/// by two blanks per level from `indent` on.
pub fn debug_tree(node: &ASTNode, indent: usize) -> (s: String)
    ensures
        s@ == debug_upto(node.table(), node.text_view(), node.place(), indent as nat, node.table().len() as int),
{
    debug_lines(node, indent)
}

/// The dump of the subtree of `node`, built node by node in table order.
fn debug_lines(node: &ASTNode, indent: usize) -> (s: String)
    ensures
        s@ == debug_upto(node.table(), node.text_view(), node.place(), indent as nat, node.table().len() as int),
{
    let ghost t = node.table();
    let ghost text = node.text_view();
    let ghost root = node.place();
    let n = node.table_len();
    let mut out = String::new();
    let mut j: usize = 0;
    assert(out@ =~= debug_upto(t, text, root, indent as nat, 0));
    while j < n
        invariant
            j <= n,
            n == t.len(),
            t == node.table(),
            text == node.text_view(),
            root == node.place(),
            out@ == debug_upto(t, text, root, indent as nat, j as int),
        decreases n - j,
    {
        let member = j == node.index_in_table() || node.is_above_public(j);
        if member {
            let d = node.steps_up_to_self(j);
            let m = node.sibling_at(j);
            let ghost before = out@;
            let mut line = String::new();
            let mut q: usize = 0;
            assert(line@ =~= indent_text(0));
            while q < indent
                invariant
                    q <= indent,
                    line@ == indent_text(q as nat),
                decreases indent - q,
            {
                push_str(&mut line, "  ");
                proof {
                    lemma_indent_push(q as nat);
                }
                q = q + 1;
            }
            let mut r: usize = 0;
            while r < d
                invariant
                    r <= d,
                    line@ == indent_text((indent + r) as nat),
                decreases d - r,
            {
                push_str(&mut line, "  ");
                proof {
                    lemma_indent_push((indent + r) as nat);
                }
                r = r + 1;
            }
            push_str(&mut line, m.kind());
            push_str(&mut line, "[");
            let (row, col) = m.start_position();
            push_str(&mut line, usize_to_string(row).as_str());
            push_str(&mut line, ":");
            push_str(&mut line, usize_to_string(col).as_str());
            push_str(&mut line, "] '");
            let shown = extract_text_safe(&m);
            let escaped = str_replace(shown.as_str(), "\n", "\\n");
            push_str(&mut line, escaped.as_str());
            push_str(&mut line, "'\n");
            assert(line@ == debug_line(text, t[j as int], (indent + depth_below(t, root, j as int)) as nat));
            push_str(&mut out, line.as_str());
        }
        assert(out@ == debug_upto(t, text, root, indent as nat, j + 1));
        j = j + 1;
    }
    out
}

/// Two more blanks of indentation.
proof fn lemma_indent_push(n: nat)
    ensures
        indent_text(n) + "  "@ == indent_text(n + 1),
    decreases n,
{
    if n > 0 {
        lemma_indent_push((n - 1) as nat);
        assert(indent_text(n) + "  "@ =~= "  "@ + (indent_text((n - 1) as nat) + "  "@));
    } else {
        assert(indent_text(0) + "  "@ =~= "  "@ + indent_text(0));
    }
}

impl ASTNode {
    /// The number of nodes of the parse.
    pub fn table_len(&self) -> (n: usize)
        ensures
            n == self.table().len(),
    {
        self.nodes.len()
    }

    /// The place of the node in the table.
    pub fn index_in_table(&self) -> (i: usize)
        ensures
            i == self.place(),
    {
        self.index
    }

    /// Whether the node lies above node `j` of the table.
    pub fn is_above_public(&self, j: usize) -> (b: bool)
        requires
            j < self.table().len(),
        ensures
            b == is_ancestor(self.table(), self.place(), j as int),
    {
        self.is_above(self.index, j)
    }
}

// ---------------------------------------------------------------------------
// Walking a subtree
// ---------------------------------------------------------------------------

/// Index of the first occurrence of `c` in `cs`.
pub open spec fn position_in(cs: Seq<int>, c: int, k: int) -> Option<int>
    decreases cs.len() - k,
{
    if k < 0 || k >= cs.len() {
        None
    } else if cs[k] == c {
        Some(k)
    } else {
        position_in(cs, c, k + 1)
    }
}

/// The first child of node `i`.
pub open spec fn first_child(t: Seq<NodeView>, i: int) -> Option<int> {
    if children_of(t, i).len() > 0 {
        Some(children_of(t, i)[0])
    } else {
        None
    }
}

/// The child of `p` that follows its child `c`.
pub open spec fn next_sibling(t: Seq<NodeView>, p: int, c: int) -> Option<int> {
    let cs = children_of(t, p);
    match position_in(cs, c, 0) {
        Some(k) => if k + 1 < cs.len() {
            Some(cs[k + 1])
        } else {
            None
        },
        None => None,
    }
}

/// From the walk `path`, the next sibling at the deepest level that has one,
/// climbing as needed; never past the walk's start.
pub open spec fn sibling_climb(t: Seq<NodeView>, path: Seq<int>) -> Option<Seq<int>>
    decreases path.len(),
{
    if path.len() <= 1 {
        None
    } else {
        match next_sibling(t, path[path.len() - 2], path.last()) {
            Some(s) => Some(path.drop_last().push(s)),
            None => sibling_climb(t, path.drop_last()),
        }
    }
}

/// The walk after one step of preorder: down to the first child, else on
/// to the next sibling, climbing as needed.
pub open spec fn walk_next(t: Seq<NodeView>, path: Seq<int>) -> Option<Seq<int>> {
    match first_child(t, path.last()) {
        Some(c) => Some(path.push(c)),
        None => sibling_climb(t, path),
    }
}

/// A walk of a subtree in preorder, which never leaves the node it started from.
pub struct NodeIterator {
    current: ASTNode,
    depth: usize,
    path: Ghost<Seq<int>>,
}

impl NodeIterator {
    /// The walk goes from its start down to the current node, child by child.
    #[verifier::type_invariant]
    spec fn on_path(self) -> bool {
        &&& self.path@.len() == self.depth + 1
        &&& self.path@.last() == self.current.place()
        &&& forall|k: int| 0 <= k < self.depth ==> is_child(self.current.table(), #[trigger] self.path@[k], self.path@[k + 1])
        &&& forall|k: int| 0 <= k < self.path@.len() ==> #[trigger] self.path@[k] >= k
    }

    /// The nodes from the start of the walk to the current node.
    pub closed spec fn path(&self) -> Seq<int> {
        self.path@
    }

    /// The current node.
    pub closed spec fn node(&self) -> ASTNode {
        self.current
    }

    /// A walk that starts at `node`.
    pub fn new(node: &ASTNode) -> (it: NodeIterator)
        ensures
            it.path() == seq![node.place()],
            it.node().place() == node.place(),
            same_parse(it.node(), *node),
    {
        let current = node.clone();
        proof {
            use_type_invariant(&current);
        }
        let ghost start = seq![node.place()];
        NodeIterator { current, depth: 0, path: Ghost(start) }
    }

    /// The current node.
    pub fn current(&self) -> (n: ASTNode)
        ensures
            n.place() == self.path().last(),
            same_parse(n, self.node()),
    {
        proof {
            use_type_invariant(self);
        }
        self.current.clone()
    }

    /// Levels below the start of the walk.
    pub fn depth(&self) -> (d: usize)
        ensures
            d == self.path().len() - 1,
    {
        proof {
            use_type_invariant(self);
        }
        self.depth
    }

    /// Goes down to the first child of the current node, if any.
    pub fn goto_first_child(&mut self) -> (moved: bool)
        ensures
            same_parse(final(self).node(), old(self).node()),
            match first_child(old(self).node().table(), old(self).path().last()) {
                Some(c) => moved && final(self).path() == old(self).path().push(c),
                None => !moved && final(self).path() == old(self).path(),
            },
    {
        proof {
            use_type_invariant(&*self);
        }
        match self.current.child(0) {
            Some(c) => {
                proof {
                    use_type_invariant(&c);
                    let t = c.table();
                    assert(children_of(t, self.current.place())[0] == c.place());
                    lemma_children_are_children(t, self.current.place(), t.len() as int, 0);
                    assert(is_child(t, self.current.place(), c.place()));
                }
                let ghost old_path = self.path@;
                let ghost new_path = old_path.push(c.place());
                let d = self.depth + 1;
                proof {
                    assert forall|k: int| 0 <= k < d implies is_child(c.table(), #[trigger] new_path[k], new_path[k + 1]) by {
                        if k + 1 < d as int {
                            assert(new_path[k] == old_path[k]);
                            assert(new_path[k + 1] == old_path[k + 1]);
                        } else {
                            assert(new_path[k] == old_path[k]);
                        }
                    }
                    assert forall|k: int| 0 <= k < new_path.len() implies #[trigger] new_path[k] >= k by {
                        if k < old_path.len() {
                            assert(new_path[k] == old_path[k]);
                        } else {
                            assert(old_path[k - 1] >= k - 1);
                        }
                    }
                }
                *self = NodeIterator { current: c, depth: d, path: Ghost(new_path) };
                true
            },
            None => false,
        }
    }

    /// Goes on to the next sibling of the current node; never from the start.
    pub fn goto_next_sibling(&mut self) -> (moved: bool)
        ensures
            same_parse(final(self).node(), old(self).node()),
            old(self).path().len() <= 1 ==> !moved && final(self).path() == old(self).path(),
            old(self).path().len() > 1 ==> match next_sibling(
                old(self).node().table(),
                old(self).path()[old(self).path().len() - 2],
                old(self).path().last(),
            ) {
                Some(s) => moved && final(self).path() == old(self).path().drop_last().push(s),
                None => !moved && final(self).path() == old(self).path(),
            },
    {
        proof {
            use_type_invariant(&*self);
        }
        if self.depth == 0 {
            return false;
        }
        let ghost t = self.current.table();
        let ghost p = self.path@[self.depth - 1];
        assert(is_child(t, self.path@[self.depth - 1], self.path@[self.depth as int]));
        let parent = match self.current.parent() {
            Some(n) => n,
            None => {
                return false;
            },
        };
        assert(parent.place() == p);
        let siblings = parent.children();
        let mut k: usize = 0;
        let here = self.current.index_in_table();
        while k < siblings.len()
            invariant
                k <= siblings@.len(),
                places(siblings@) == children_of(t, p),
                all_of_parse(siblings@, parent),
                position_in(children_of(t, p), here as int, 0) == position_in(children_of(t, p), here as int, k as int),
                *self == *old(self),
                t == self.node().table(),
                self.depth > 0,
                p == self.path()[self.depth - 1],
                here as int == self.node().place(),
                same_parse(parent, self.node()),
            decreases siblings@.len() - k,
        {
            assert(places(siblings@)[k as int] == siblings@[k as int].place());
            if siblings[k].index_in_table() == here {
                proof {
                    use_type_invariant(&*self);
                    assert(position_in(children_of(t, p), here as int, k as int) == Some(k as int));
                }
                if k + 1 < siblings.len() {
                    let ghost old_path = self.path@;
                    let next = siblings[k + 1].clone();
                    proof {
                        assert(places(siblings@)[k + 1] == next.place());
                        lemma_children_are_children(t, p, t.len() as int, k as int + 1);
                        use_type_invariant(&next);
                        lemma_children_increase(t, p, t.len() as int, k as int);
                        assert(next.table() == t);
                        assert(is_child(t, p, next.place()));
                    }
                    let ghost new_path = old_path.drop_last().push(next.place());
                    let d = self.depth;
                    proof {
                        assert forall|m: int| 0 <= m < d implies is_child(
                            next.table(),
                            #[trigger] new_path[m],
                            new_path[m + 1],
                        ) by {
                            if m + 1 < d as int {
                                assert(new_path[m] == old_path[m]);
                                assert(new_path[m + 1] == old_path[m + 1]);
                            } else {
                                assert(new_path[m] == old_path[m]);
                            }
                        }
                        assert forall|m: int| 0 <= m < new_path.len() implies #[trigger] new_path[m] >= m by {
                            if m < old_path.len() - 1 {
                                assert(new_path[m] == old_path[m]);
                            } else {
                                assert(old_path[m] >= m);
                            }
                        }
                    }
                    *self = NodeIterator { current: next, depth: d, path: Ghost(new_path) };
                    return true;
                }
                return false;
            }
            k = k + 1;
        }
        false
    }

    /// Goes up to the parent of the current node; never above the start.
    pub fn goto_parent(&mut self) -> (moved: bool)
        ensures
            same_parse(final(self).node(), old(self).node()),
            old(self).path().len() > 1 ==> moved && final(self).path() == old(self).path().drop_last(),
            old(self).path().len() <= 1 ==> !moved && final(self).path() == old(self).path(),
    {
        proof {
            use_type_invariant(&*self);
        }
        if self.depth == 0 {
            return false;
        }
        let ghost old_path = self.path@;
        assert(is_child(self.current.table(), old_path[self.depth - 1], old_path[self.depth as int]));
        match self.current.parent() {
            Some(up) => {
                let ghost new_path = old_path.drop_last();
                let d = self.depth - 1;
                proof {
                    assert forall|m: int| 0 <= m < d implies is_child(up.table(), #[trigger] new_path[m], new_path[m + 1]) by {
                        assert(new_path[m] == old_path[m]);
                        assert(new_path[m + 1] == old_path[m + 1]);
                    }
                    assert forall|m: int| 0 <= m < new_path.len() implies #[trigger] new_path[m] >= m by {
                        assert(new_path[m] == old_path[m]);
                    }
                }
                *self = NodeIterator { current: up, depth: d, path: Ghost(new_path) };
                true
            },
            None => {
                assert(false);
                false
            },
        }
    }

    /// The next node of the walk in preorder, or `None` when the subtree is
    /// done (the walk is then back at its start).
    pub fn next(&mut self) -> (r: Option<ASTNode>)
        ensures
            same_parse(final(self).node(), old(self).node()),
            match walk_next(old(self).node().table(), old(self).path()) {
                Some(p) => r matches Some(n) && n.place() == p.last() && final(self).path() == p && same_parse(
                    n,
                    old(self).node(),
                ),
                None => r is None && final(self).path() == seq![old(self).path()[0]],
            },
    {
        proof {
            use_type_invariant(&*self);
        }
        let ghost t = self.current.table();
        let ghost start = self.path@;
        if self.goto_first_child() {
            return Some(self.current());
        }
        assert(walk_next(t, start) == sibling_climb(t, self.path()));
        loop
            invariant
                t == self.node().table(),
                same_parse(self.node(), old(self).node()),
                walk_next(t, start) == sibling_climb(t, self.path()),
                self.path().len() >= 1,
                self.path()[0] == start[0],
                start == old(self).path(),
                t == old(self).node().table(),
            decreases self.path().len(),
        {
            let ghost before = self.path();
            if self.goto_next_sibling() {
                assert(sibling_climb(t, before) == Some(self.path()));
                assert(walk_next(t, start) == Some(self.path()));
                assert(t == old(self).node().table());
                assert(start == old(self).path());
                let n = self.current();
                return Some(n);
            }
            if !self.goto_parent() {
                assert(before.len() <= 1);
                assert(sibling_climb(t, before) is None);
                assert(walk_next(t, start) is None);
                assert(t == old(self).node().table());
                assert(start == old(self).path());
                assert(self.path() =~= seq![start[0]]);
                return None;
            }
            assert(sibling_climb(t, before) == sibling_climb(t, self.path()));
        }
    }
}

/// Entries of the children list are children.
proof fn lemma_children_are_children(t: Seq<NodeView>, i: int, n: int, k: int)
    requires
        0 <= k < children_upto(t, i, n).len(),
    ensures
        is_child(t, i, children_upto(t, i, n)[k]),
        children_upto(t, i, n)[k] < n,
    decreases n,
{
    if n > 0 {
        let prev = children_upto(t, i, n - 1);
        if k < prev.len() {
            lemma_children_are_children(t, i, n - 1, k);
            assert(children_upto(t, i, n)[k] == prev[k]);
        }
    }
}

/// The children list increases.
proof fn lemma_children_increase(t: Seq<NodeView>, i: int, n: int, k: int)
    requires
        0 <= k,
        k + 1 < children_upto(t, i, n).len(),
    ensures
        children_upto(t, i, n)[k] < children_upto(t, i, n)[k + 1],
    decreases n,
{
    if n > 0 {
        let prev = children_upto(t, i, n - 1);
        if k + 1 < prev.len() {
            lemma_children_increase(t, i, n - 1, k);
            assert(children_upto(t, i, n)[k] == prev[k]);
            assert(children_upto(t, i, n)[k + 1] == prev[k + 1]);
        } else {
            lemma_children_are_children(t, i, n - 1, k);
            assert(children_upto(t, i, n)[k] == prev[k]);
        }
    }
}

} // verus!
