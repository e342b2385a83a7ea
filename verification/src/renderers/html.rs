//! The `html` backend: nested `<span style="...">` and `<b>` wrappers.
//!
//! Text is escaped for HTML: `<` and `>` become entities, a space becomes a
//! non-breaking space (status lines rely on exact spacing), and a newline
//! becomes a line break.

use vstd::prelude::*;

use crate::color::{spec_clamp_to_888, spec_hex, push_hex_color};
use crate::document::{nodes_view, spec_widget_free, spec_widget_free_seq, Document, Node, SpecNode};
use crate::strutil::push_str_chars;

verus! {

/// The HTML text for one character of literal text.
pub open spec fn spec_html_char(c: char) -> Seq<char> {
    if c == '\n' {
        "<br>"@
    } else if c == ' ' {
        "&nbsp;"@
    } else if c == '>' {
        "&gt;"@
    } else if c == '<' {
        "&lt;"@
    } else {
        seq![c]
    }
}

/// Literal text escaped for HTML.
pub open spec fn spec_html_text(t: Seq<char>) -> Seq<char>
    decreases t.len(),
{
    if t.len() == 0 {
        Seq::empty()
    } else {
        spec_html_char(t[0]) + spec_html_text(t.drop_first())
    }
}

/// The HTML for one node.
pub open spec fn spec_html_node(n: SpecNode) -> Seq<char>
    decreases n,
{
    match n {
        SpecNode::Text(t) => spec_html_text(t),
        SpecNode::Foreground(c, d) => "<span style=\"color: #"@ + spec_hex(spec_clamp_to_888(c))
            + "\">"@ + spec_html_doc(d) + "</span>"@,
        SpecNode::Background(c, d) => "<span style=\"background-color: #"@ + spec_hex(
            spec_clamp_to_888(c),
        ) + "\">"@ + spec_html_doc(d) + "</span>"@,
        SpecNode::Bold(d) => "<b>"@ + spec_html_doc(d) + "</b>"@,
        SpecNode::Widget(_, _) => Seq::empty(),
    }
}

/// The HTML for a sequence of nodes, concatenated in order.
pub open spec fn spec_html_doc(d: Seq<SpecNode>) -> Seq<char>
    decreases d,
{
    if d.len() == 0 {
        Seq::empty()
    } else {
        spec_html_node(d[0]) + spec_html_doc(d.drop_first())
    }
}

/// Escape one character of literal text for HTML.
fn push_html_char(out: &mut Vec<char>, c: char)
    ensures
        final(out)@ == old(out)@ + spec_html_char(c),
{
    if c == '\n' {
        push_str_chars(out, "<br>");
    } else if c == ' ' {
        push_str_chars(out, "&nbsp;");
    } else if c == '>' {
        push_str_chars(out, "&gt;");
    } else if c == '<' {
        push_str_chars(out, "&lt;");
    } else {
        out.push(c);
        proof {
            assert(out@ =~= old(out)@ + spec_html_char(c));
        }
    }
}

/// Escape literal text for HTML.
fn push_html_text(out: &mut Vec<char>, t: &Vec<char>)
    ensures
        final(out)@ == old(out)@ + spec_html_text(t@),
{
    let n: usize = t.len();
    let mut i: usize = 0;
    proof {
        assert(t@.subrange(0, n as int) =~= t@);
    }
    while i < n
        invariant
            i <= n,
            n == t@.len(),
            old(out)@ + spec_html_text(t@) =~= out@ + spec_html_text(t@.subrange(i as int, n as int)),
        decreases n - i,
    {
        proof {
            assert(t@.subrange(i as int, n as int).drop_first() =~= t@.subrange(
                i + 1,
                n as int,
            ));
            assert(t@.subrange(i as int, n as int)[0] == t@[i as int]);
        }
        push_html_char(out, t[i]);
        i = i + 1;
    }
    proof {
        assert(spec_html_text(t@.subrange(n as int, n as int)) =~= Seq::<char>::empty());
        assert(out@ =~= old(out)@ + spec_html_text(t@));
    }
}

/// Escape `text` for HTML.
pub fn escape_html(text: &str) -> (r: String)
    ensures
        r@ == spec_html_text(text@),
{
    let chars = crate::strutil::chars_of_str(text);
    let mut out: Vec<char> = Vec::new();
    push_html_text(&mut out, &chars);
    crate::strutil::string_from_chars(&out)
}

/// Escape one character for HTML.
pub fn escape_html_char(ch: char) -> (r: String)
    ensures
        r@ == spec_html_char(ch),
{
    let mut out: Vec<char> = Vec::new();
    push_html_char(&mut out, ch);
    crate::strutil::string_from_chars(&out)
}

/// Render one node.
fn html_from_node(n: &Node, out: &mut Vec<char>)
    requires
        spec_widget_free(n@),
    ensures
        final(out)@ == old(out)@ + spec_html_node(n@),
    decreases *n,
{
    match n {
        Node::Text(t) => {
            let chars = crate::strutil::chars_of_str(t.as_str());
            push_html_text(out, &chars);
        },
        Node::Foreground(c, d) => {
            push_str_chars(out, "<span style=\"color: #");
            push_hex_color(out, c.clamp_to_888());
            push_str_chars(out, "\">");
            html_from_document(d, out);
            push_str_chars(out, "</span>");
            proof {
                assert(out@ =~= old(out)@ + spec_html_node(n@));
            }
        },
        Node::Background(c, d) => {
            push_str_chars(out, "<span style=\"background-color: #");
            push_hex_color(out, c.clamp_to_888());
            push_str_chars(out, "\">");
            html_from_document(d, out);
            push_str_chars(out, "</span>");
            proof {
                assert(out@ =~= old(out)@ + spec_html_node(n@));
            }
        },
        Node::Bold(d) => {
            push_str_chars(out, "<b>");
            html_from_document(d, out);
            push_str_chars(out, "</b>");
            proof {
                assert(out@ =~= old(out)@ + spec_html_node(n@));
            }
        },
        Node::Widget(_, _) => {
            proof {
                assert(false);
            }
        },
    }
}

/// Render every node of a document, in order.
fn html_from_document(d: &Document, out: &mut Vec<char>)
    requires
        spec_widget_free_seq(d@),
    ensures
        final(out)@ == old(out)@ + spec_html_doc(d@),
    decreases *d,
{
    let n: usize = d.0.len();
    let mut i: usize = 0;
    proof {
        assert(d@.subrange(0, n as int) =~= d@);
    }
    while i < n
        invariant
            i <= n,
            n == d.0@.len(),
            d@.len() == n,
            spec_widget_free_seq(d@),
            old(out)@ + spec_html_doc(d@) =~= out@ + spec_html_doc(d@.subrange(i as int, n as int)),
        decreases n - i,
    {
        proof {
            assert(d@.subrange(i as int, n as int).drop_first() =~= d@.subrange(i + 1, n as int));
            assert(d@.subrange(i as int, n as int)[0] == d@[i as int]);
            assert(d@[i as int] == crate::document::node_view(d.0@[i as int]));
        }
        html_from_node(&d.0[i], out);
        i = i + 1;
    }
    proof {
        assert(spec_html_doc(d@.subrange(n as int, n as int)) =~= Seq::<char>::empty());
        assert(out@ =~= old(out)@ + spec_html_doc(d@));
    }
}

/// Render a widget-free document as HTML.
pub fn render_into(doc: &Document, out: &mut Vec<char>)
    requires
        spec_widget_free_seq(doc@),
    ensures
        final(out)@ == old(out)@ + spec_html_doc(doc@),
{
    html_from_document(doc, out);
}

} // verus!
