//! The widget expansion engine.
//!
//! Expansion transforms a document that may contain `Widget` nodes into one
//! that provably does not, by resolving every `Widget(name, args)` node
//! through a registry of handlers.  A handler receives the ordered argument
//! list (and the injected system snapshot) and returns a single node,
//! typically built by formatting a markup-text string — embedding computed
//! colors and escaped dynamic values — and re-parsing it through the
//! parser's single-node entry point.
//!
//! An unregistered widget name, or a handler rejecting its argument list,
//! does not abort expansion: the placeholder is replaced by a visually
//! distinct, styled error node built through the same re-parse mechanism,
//! so one bad invocation cannot take down a whole status line.

use vstd::prelude::*;

use crate::document::{
    node_contains_widget,
    spec_widget_free,
    spec_widget_free_seq,
    Document,
    Node,
    SpecNode,
};
use crate::parser::{parse_for_first_node, spec_parse};
use crate::stats::Snapshot;
use crate::strutil::{push_str_chars, str_eq, string_from_chars};

pub mod cpu;
pub mod mem;
pub mod net;
pub mod gradient;
pub mod time;

verus! {

/// What re-parsing a piece of generated markup yields: its first node when
/// that node exists and is widget-free, and the raw markup as literal text
/// otherwise.
pub open spec fn spec_node_from_markup(s: Seq<char>) -> SpecNode {
    match spec_parse(s) {
        Some(nodes) => if nodes.len() > 0 && spec_widget_free(nodes[0]) {
            nodes[0]
        } else {
            SpecNode::Text(s)
        },
        None => SpecNode::Text(s),
    }
}

/// Re-parse generated markup into a single, widget-free node.
///
/// A handler's output is itself markup text, and in the general case could
/// contain further widget placeholders whose resolution could in turn
/// generate more — with no bound on that regress.  The handlers in this
/// registry all escape their dynamic content, so their output never holds a
/// placeholder; the run-time check here enforces exactly that, substituting
/// the raw markup as plain text should it ever fail, which keeps expansion
/// a single, terminating pass.
pub fn node_from_markup(src: String) -> (n: Node)
    ensures
        n@ == spec_node_from_markup(src@),
        spec_widget_free(n@),
{
    match parse_for_first_node(src.as_str()) {
        Ok(node) => {
            if node_contains_widget(&node) {
                Node::Text(src)
            } else {
                node
            }
        },
        Err(_) => Node::Text(src),
    }
}

/// The markup of the in-band error fragment for `err` (which is itself
/// markup text).
pub open spec fn spec_error_markup(err: Seq<char>) -> Seq<char> {
    "[551100: (ff6666: \\ (44ccdd:\\<)ERROR: "@ + err + "(44ccdd:\\>) )]"@
}

/// The visually distinct error node for `err`.
pub open spec fn spec_error_node(err: Seq<char>) -> SpecNode {
    spec_node_from_markup(spec_error_markup(err))
}

/// Create a node holding the formatted error message `err`, which should
/// itself be valid markup text.
pub fn error_node(err: &str) -> (n: Node)
    ensures
        n@ == spec_error_node(err@),
        spec_widget_free(n@),
{
    let mut v: Vec<char> = Vec::new();
    push_str_chars(&mut v, "[551100: (ff6666: \\ (44ccdd:\\<)ERROR: ");
    push_str_chars(&mut v, err);
    push_str_chars(&mut v, "(44ccdd:\\>) )]");
    proof {
        assert(v@ =~= spec_error_markup(err@));
    }
    node_from_markup(string_from_chars(&v))
}

/// The error node for an unregistered widget name.
pub open spec fn spec_no_widget_error(name: Seq<char>) -> SpecNode {
    spec_error_node("no such widget: (ccdd44: "@ + name + ")"@)
}

fn no_widget_error_node(name: &str) -> (n: Node)
    ensures
        n@ == spec_no_widget_error(name@),
        spec_widget_free(n@),
{
    let mut v: Vec<char> = Vec::new();
    push_str_chars(&mut v, "no such widget: (ccdd44: ");
    push_str_chars(&mut v, name);
    push_str_chars(&mut v, ")");
    let msg: String = string_from_chars(&v);
    proof {
        assert(msg@ =~= "no such widget: (ccdd44: "@ + name@ + ")"@);
    }
    error_node(msg.as_str())
}

/// What the handler registered under `name` produces for `args` under the
/// given snapshot; an unregistered name produces the error node.
pub open spec fn spec_expand_widget(name: Seq<char>, args: Seq<Seq<char>>, snap: Snapshot) -> SpecNode {
    if name == "time"@ {
        time::spec_expand(args, snap)
    } else if name == "gradient"@ {
        gradient::spec_expand(args, snap)
    } else if name == "cpu"@ {
        cpu::spec_expand(args, snap)
    } else if name == "mem"@ {
        mem::spec_expand(args, snap)
    } else if name == "net"@ {
        net::spec_expand(args, snap)
    } else {
        spec_no_widget_error(name)
    }
}

/// Resolve one widget placeholder through the registry.
fn expand_widget(name: String, args: Vec<String>, snap: &Snapshot) -> (r: Node)
    ensures
        r@ == spec_expand_widget(name@, args.deep_view(), *snap),
        spec_widget_free(r@),
{
    if str_eq(name.as_str(), "time") {
        time::expand(&args, snap)
    } else if str_eq(name.as_str(), "gradient") {
        gradient::expand(&args, snap)
    } else if str_eq(name.as_str(), "cpu") {
        cpu::expand(&args, snap)
    } else if str_eq(name.as_str(), "mem") {
        mem::expand(&args, snap)
    } else if str_eq(name.as_str(), "net") {
        net::expand(&args, snap)
    } else {
        no_widget_error_node(name.as_str())
    }
}

/// What expanding one node yields: non-widget nodes keep their shape and
/// expand their children; a widget node is replaced by its handler's
/// (widget-free) output.
pub open spec fn spec_expand_node(n: SpecNode, snap: Snapshot) -> SpecNode
    decreases n, 0int,
{
    match n {
        SpecNode::Text(_) => n,
        SpecNode::Foreground(c, d) => SpecNode::Foreground(c, spec_expand_seq(d, snap)),
        SpecNode::Background(c, d) => SpecNode::Background(c, spec_expand_seq(d, snap)),
        SpecNode::Bold(d) => SpecNode::Bold(spec_expand_seq(d, snap)),
        SpecNode::Widget(name, args) => spec_expand_widget(name, args, snap),
    }
}

/// What expanding a sequence of nodes yields, in order.
pub open spec fn spec_expand_seq(d: Seq<SpecNode>, snap: Snapshot) -> Seq<SpecNode>
    decreases d, 1int,
{
    if d.len() == 0 {
        Seq::empty()
    } else {
        seq![spec_expand_node(d[0], snap)] + spec_expand_seq(d.drop_first(), snap)
    }
}

/// Expand one node.
pub fn expand_node(n: Node, snap: &Snapshot) -> (r: Node)
    ensures
        r@ == spec_expand_node(n@, *snap),
        spec_widget_free(r@),
    decreases n, 0int,
{
    match n {
        Node::Text(t) => Node::Text(t),
        Node::Foreground(c, d) => Node::Foreground(c, expand(d, snap)),
        Node::Background(c, d) => Node::Background(c, expand(d, snap)),
        Node::Bold(d) => Node::Bold(expand(d, snap)),
        Node::Widget(name, args) => expand_widget(name, args, snap),
    }
}

/// Expand widgets to nodes until no widget remains in the tree: every node
/// of the returned document is guaranteed widget-free.
#[verifier::loop_isolation(false)]
pub fn expand(doc: Document, snap: &Snapshot) -> (r: Document)
    ensures
        r@ == spec_expand_seq(doc@, *snap),
        spec_widget_free_seq(r@),
    decreases doc, 1int,
{
    let ghost doc_val: Document = doc;
    let ghost dv: Seq<SpecNode> = doc@;
    let ghost d0: Seq<Node> = doc.0@;
    let mut nodes: Vec<Node> = doc.0;
    let mut out: Vec<Node> = Vec::new();
    proof {
        assert(nodes@ =~= d0.subrange(0, d0.len() as int));
        assert(crate::document::nodes_view(out) =~= Seq::<SpecNode>::empty());
        assert(dv.subrange(0, dv.len() as int) =~= dv);
    }
    let ghost mut i: int = 0;
    while nodes.len() > 0
        invariant
            0 <= i <= d0.len(),
            dv.len() == d0.len(),
            nodes@ =~= d0.subrange(i, d0.len() as int),
            spec_expand_seq(dv, *snap) =~= crate::document::nodes_view(out) + spec_expand_seq(
                dv.subrange(i, dv.len() as int),
                *snap,
            ),
            spec_widget_free_seq(crate::document::nodes_view(out)),
            forall|k: int| i <= k < dv.len() ==> dv[k] == crate::document::node_view(d0[k]),
        decreases nodes@.len(),
    {
        let n: Node = nodes.remove(0);
        proof {
            assert(n == d0[i]);
            vstd::std_specs::vec::axiom_vec_index_decreases::<Node>(doc_val.0, i);
            assert(decreases_to!(doc_val => doc_val.0));
            assert(decreases_to!(doc_val.0 => doc_val.0@[i]));
            assert(decreases_to!(doc_val => n));
            assert(dv.subrange(i, dv.len() as int)[0] == dv[i]);
            assert(dv.subrange(i, dv.len() as int).drop_first() =~= dv.subrange(
                i + 1,
                dv.len() as int,
            ));
        }
        let e: Node = expand_node(n, snap);
        let ghost out_view_before = crate::document::nodes_view(out);
        out.push(e);
        proof {
            assert(crate::document::nodes_view(out) =~= out_view_before + seq![e@]);
            assert(spec_expand_seq(dv, *snap) =~= crate::document::nodes_view(out)
                + spec_expand_seq(dv.subrange(i + 1, dv.len() as int), *snap));
            assert(nodes@ =~= d0.subrange(i + 1, d0.len() as int));
            i = i + 1;
        }
    }
    proof {
        assert(d0.subrange(i, d0.len() as int).len() == 0);
        assert(i == d0.len());
        assert(spec_expand_seq(dv.subrange(i, dv.len() as int), *snap) =~= Seq::<
            SpecNode,
        >::empty());
        assert(crate::document::nodes_view(out) =~= spec_expand_seq(dv, *snap));
    }
    Document(out)
}

/// Re-parsed markup is always widget-free: either the guard in
/// `spec_node_from_markup` held, or the fallback is plain text.
pub proof fn lemma_node_from_markup_widget_free(s: Seq<char>)
    ensures
        spec_widget_free(spec_node_from_markup(s)),
{
}

/// Every handler output is widget-free, whatever the name and arguments.
proof fn lemma_expand_widget_widget_free(name: Seq<char>, args: Seq<Seq<char>>, snap: Snapshot)
    ensures
        spec_widget_free(spec_expand_widget(name, args, snap)),
{
    assert forall|s: Seq<char>| spec_widget_free(#[trigger] spec_node_from_markup(s)) by {
        lemma_node_from_markup_widget_free(s);
    }
}

/// Widget-free postcondition, at the specification level: expanding one
/// node leaves no widget anywhere below it.
pub proof fn lemma_expand_node_widget_free(n: SpecNode, snap: Snapshot)
    ensures
        spec_widget_free(spec_expand_node(n, snap)),
    decreases n, 0int,
{
    match n {
        SpecNode::Text(_) => {},
        SpecNode::Foreground(_, d) => {
            lemma_expand_seq_widget_free(d, snap);
        },
        SpecNode::Background(_, d) => {
            lemma_expand_seq_widget_free(d, snap);
        },
        SpecNode::Bold(d) => {
            lemma_expand_seq_widget_free(d, snap);
        },
        SpecNode::Widget(name, args) => {
            lemma_expand_widget_widget_free(name, args, snap);
        },
    }
}

/// Widget-free postcondition, at the specification level: after expansion
/// no widget node remains anywhere in the tree, for any input document.
pub proof fn lemma_expand_seq_widget_free(d: Seq<SpecNode>, snap: Snapshot)
    ensures
        spec_widget_free_seq(spec_expand_seq(d, snap)),
    decreases d, 1int,
{
    if d.len() > 0 {
        lemma_expand_node_widget_free(d[0], snap);
        lemma_expand_seq_widget_free(d.drop_first(), snap);
        let e = spec_expand_seq(d, snap);
        assert forall|i: int| 0 <= i < e.len() implies spec_widget_free(#[trigger] e[i]) by {
            if i == 0 {
                assert(e[i] == spec_expand_node(d[0], snap));
            } else {
                assert(e[i] == spec_expand_seq(d.drop_first(), snap)[i - 1]);
            }
        }
    }
}

/// The names of all registered widgets, in registry order.
pub fn list() -> (r: Vec<String>)
    ensures
        r.deep_view() =~= seq!["time"@, "gradient"@, "cpu"@, "mem"@, "net"@],
{
    let mut v: Vec<String> = Vec::new();
    v.push(String::from_str("time"));
    v.push(String::from_str("gradient"));
    v.push(String::from_str("cpu"));
    v.push(String::from_str("mem"));
    v.push(String::from_str("net"));
    v
}

/// Escape arbitrary text so that it can be embedded in generated markup.
pub fn escape_fastup(input: &str) -> (r: String)
    ensures
        r@ == crate::parser::spec_escape(input@),
{
    crate::parser::escape_for_text(input)
}

/// Linearly remap `x` from the inclusive range `[xa, xb]` to the inclusive
/// range `[ra, rb]`.
pub fn remap(x: i64, xa: i64, xb: i64, ra: i64, rb: i64) -> (r: i64)
    requires
        xa <= x <= xb,
        xa < xb,
        -1_000_000 <= xa && xb <= 1_000_000,
        -1_000_000 <= ra <= rb <= 1_000_000,
    ensures
        r == (x - xa) * (rb - ra) / (xb - xa) + ra,
        ra <= r <= rb,
{
    proof {
        assert(0 <= (x - xa) * (rb - ra) <= (xb - xa) * (rb - ra)) by (nonlinear_arith)
            requires
                0 <= x - xa <= xb - xa,
                0 <= rb - ra,
        ;
        vstd::arithmetic::div_mod::lemma_div_pos_is_pos((x - xa) * (rb - ra), xb - xa);
        vstd::arithmetic::div_mod::lemma_div_is_ordered(
            (x - xa) * (rb - ra),
            (xb - xa) * (rb - ra),
            xb - xa,
        );
        vstd::arithmetic::div_mod::lemma_div_by_multiple(rb - ra, xb - xa);
        assert((rb - ra) * (xb - xa) == (xb - xa) * (rb - ra)) by (nonlinear_arith);
        assert((x - xa) * (rb - ra) <= 2_000_000int * 2_000_000int) by (nonlinear_arith)
            requires
                0 <= x - xa <= 2_000_000,
                0 <= rb - ra <= 2_000_000,
        ;
    }
    (x - xa) * (rb - ra) / (xb - xa) + ra
}

} // verus!
