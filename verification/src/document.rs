//! The document tree produced by the markup parser.
//!
//! A `Document` is an ordered sequence of `Node`s; order is significant and
//! rendering is left to right.  Colors carried on `Foreground` and
//! `Background` nodes are stored in the linear encoding, so that widgets and
//! the parser share one arithmetic-capable representation; renderers convert
//! back to the display encoding only at emission time.
//!
//! The view of a tree is a `SpecNode` tree whose strings are character
//! sequences; every contract in this crate speaks about those views.

use vstd::prelude::*;

use crate::color::LinearColor;

verus! {

/// The specification-level shape of one markup construct.
pub enum SpecNode {
    /// Literal text.
    Text(Seq<char>),
    /// Sets the text color for a child document.
    Foreground(LinearColor, Seq<SpecNode>),
    /// Sets the background color for a child document.
    Background(LinearColor, Seq<SpecNode>),
    /// Marks a child document bold.
    Bold(Seq<SpecNode>),
    /// An unresolved placeholder: a widget name and its ordered arguments.
    Widget(Seq<char>, Seq<Seq<char>>),
}

/// Document is a sequence of nodes concatenated together.
#[derive(Debug)]
pub struct Document(pub Vec<Node>);

/// One markup construct.
#[derive(Debug)]
pub enum Node {
    /// Pure text.
    Text(String),
    /// Set foreground color for the child document.
    Foreground(LinearColor, Document),
    /// Set background color for the child document.
    Background(LinearColor, Document),
    /// Bold the child document.
    Bold(Document),
    /// `Widget(name, args)` calls the widget named `name` with `args`.
    Widget(String, Vec<String>),
}

/// The view of a node.
pub open spec fn node_view(n: Node) -> SpecNode
    decreases n,
{
    match n {
        Node::Text(s) => SpecNode::Text(s@),
        Node::Foreground(c, d) => SpecNode::Foreground(c, nodes_view(d.0)),
        Node::Background(c, d) => SpecNode::Background(c, nodes_view(d.0)),
        Node::Bold(d) => SpecNode::Bold(nodes_view(d.0)),
        Node::Widget(name, args) => SpecNode::Widget(name@, args.deep_view()),
    }
}

/// The view of a vector of nodes.
pub open spec fn nodes_view(v: Vec<Node>) -> Seq<SpecNode>
    decreases v,
{
    Seq::new(
        v@.len(),
        |i: int|
            if 0 <= i < v@.len() {
                node_view(v@[i])
            } else {
                SpecNode::Text(Seq::empty())
            },
    )
}

impl View for Node {
    type V = SpecNode;

    open spec fn view(&self) -> SpecNode {
        node_view(*self)
    }
}

impl View for Document {
    type V = Seq<SpecNode>;

    open spec fn view(&self) -> Seq<SpecNode> {
        nodes_view(self.0)
    }
}

impl From<Vec<Node>> for Document {
    /// Wrap a vector of nodes as a document.
    fn from(nodes: Vec<Node>) -> (r: Self) {
        Document(nodes)
    }
}

impl vstd::std_specs::convert::FromSpecImpl<Vec<Node>> for Document {
    open spec fn obeys_from_spec() -> bool {
        true
    }

    open spec fn from_spec(nodes: Vec<Node>) -> Self {
        Document(nodes)
    }
}

/// No `Widget` node occurs anywhere in this tree.
pub open spec fn spec_widget_free(n: SpecNode) -> bool
    decreases n,
{
    match n {
        SpecNode::Text(_) => true,
        SpecNode::Foreground(_, d) => spec_widget_free_seq(d),
        SpecNode::Background(_, d) => spec_widget_free_seq(d),
        SpecNode::Bold(d) => spec_widget_free_seq(d),
        SpecNode::Widget(_, _) => false,
    }
}

/// No `Widget` node occurs anywhere below any node of this sequence.
pub open spec fn spec_widget_free_seq(s: Seq<SpecNode>) -> bool
    decreases s,
{
    forall|i: int| 0 <= i < s.len() ==> spec_widget_free(#[trigger] s[i])
}

/// Whether any `Widget` node occurs in this tree.
pub fn node_contains_widget(n: &Node) -> (r: bool)
    ensures
        r == !spec_widget_free(n@),
    decreases *n,
{
    match n {
        Node::Text(_) => false,
        Node::Foreground(_, d) => doc_contains_widget(d),
        Node::Background(_, d) => doc_contains_widget(d),
        Node::Bold(d) => doc_contains_widget(d),
        Node::Widget(_, _) => true,
    }
}

/// Whether any `Widget` node occurs in this document.
pub fn doc_contains_widget(d: &Document) -> (r: bool)
    ensures
        r == !spec_widget_free_seq(d@),
    decreases *d,
{
    let mut i: usize = 0;
    let n: usize = d.0.len();
    let mut found: bool = false;
    while i < n && !found
        invariant
            i <= n,
            n == d.0.len(),
            d@.len() == n,
            !found ==> forall|j: int| 0 <= j < i ==> spec_widget_free(#[trigger] d@[j]),
            found ==> exists|j: int| 0 <= j < i && !spec_widget_free(#[trigger] d@[j]),
        decreases n - i,
    {
        proof {
            assert(d@[i as int] == node_view(d.0@[i as int]));
        }
        if node_contains_widget(&d.0[i]) {
            found = true;
        }
        i = i + 1;
    }
    found
}

} // verus!
