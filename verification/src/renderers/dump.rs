//! The `dump` backend: a structural, indented textual dump of the tree.
//!
//! Not meant for display; useful for tests and inspection.  Text is shown
//! quoted, with quotes, backslashes and common control characters escaped;
//! a style node shows its color in brackets and then its child document,
//! inline when the child is a single node and indented on fresh lines
//! otherwise.

use vstd::prelude::*;

use crate::color::{push_hex_color, spec_clamp_to_888, spec_hex};
use crate::document::{spec_widget_free, spec_widget_free_seq, Document, Node, SpecNode};
use crate::strutil::push_str_chars;

verus! {

/// One level of indentation.
pub open spec fn spec_indent_step() -> Seq<char> {
    "    "@
}

/// The quoted form of one character of literal text.
pub open spec fn spec_dump_char(c: char) -> Seq<char> {
    if c == '"' {
        seq!['\\', '"']
    } else if c == '\\' {
        seq!['\\', '\\']
    } else if c == '\n' {
        seq!['\\', 'n']
    } else if c == '\r' {
        seq!['\\', 'r']
    } else if c == '\t' {
        seq!['\\', 't']
    } else {
        seq![c]
    }
}

/// Literal text escaped for the quoted dump form.
pub open spec fn spec_dump_text(t: Seq<char>) -> Seq<char>
    decreases t.len(),
{
    if t.len() == 0 {
        Seq::empty()
    } else {
        spec_dump_char(t[0]) + spec_dump_text(t.drop_first())
    }
}

/// The dump of one node at a given indentation.
pub open spec fn spec_dump_node(n: SpecNode, indent: Seq<char>) -> Seq<char>
    decreases n, 0int,
{
    match n {
        SpecNode::Text(t) => seq!['"'] + spec_dump_text(t) + seq!['"'],
        SpecNode::Foreground(c, d) => seq!['('] + spec_hex(spec_clamp_to_888(c)) + seq![')']
            + spec_dump_followed(d, indent),
        SpecNode::Background(c, d) => seq!['['] + spec_hex(spec_clamp_to_888(c)) + seq![']']
            + spec_dump_followed(d, indent),
        SpecNode::Bold(d) => "{}"@ + spec_dump_followed(d, indent),
        SpecNode::Widget(_, _) => Seq::empty(),
    }
}

/// The dump of a child document that follows a node header: inline after a
/// space when it is a single node, else on fresh, deeper-indented lines.
pub open spec fn spec_dump_followed(d: Seq<SpecNode>, indent: Seq<char>) -> Seq<char>
    decreases d, 2int,
{
    if d.len() == 1 {
        seq![' '] + spec_dump_doc(d, indent)
    } else {
        let deeper = spec_indent_step() + indent;
        seq![':', '\n'] + deeper + spec_dump_doc(d, deeper)
    }
}

/// The dump of a document: its nodes, separated by a newline and the
/// current indentation.
pub open spec fn spec_dump_doc(d: Seq<SpecNode>, indent: Seq<char>) -> Seq<char>
    decreases d, 1int,
{
    if d.len() == 0 {
        Seq::empty()
    } else if d.len() == 1 {
        spec_dump_node(d[0], indent)
    } else {
        spec_dump_node(d[0], indent) + seq!['\n'] + indent + spec_dump_doc(d.drop_first(), indent)
    }
}

/// The whole output: the document at the outermost indentation.
pub open spec fn spec_dump(doc: Seq<SpecNode>) -> Seq<char> {
    spec_dump_doc(doc, Seq::empty())
}

/// Escape literal text for the quoted dump form.
fn push_dump_text(out: &mut Vec<char>, t: &Vec<char>)
    ensures
        final(out)@ == old(out)@ + spec_dump_text(t@),
{
    let n: usize = t.len();
    let mut i: usize = 0;
    proof {
        assert(t@.subrange(0, n as int) =~= t@);
    }
    while i < n
        invariant
            i <= n,
            n == t@.len(),
            old(out)@ + spec_dump_text(t@) =~= out@ + spec_dump_text(
                t@.subrange(i as int, n as int),
            ),
        decreases n - i,
    {
        proof {
            assert(t@.subrange(i as int, n as int).drop_first() =~= t@.subrange(i + 1, n as int));
            assert(t@.subrange(i as int, n as int)[0] == t@[i as int]);
        }
        let c: char = t[i];
        if c == '"' {
            out.push('\\');
            out.push('"');
        } else if c == '\\' {
            out.push('\\');
            out.push('\\');
        } else if c == '\n' {
            out.push('\\');
            out.push('n');
        } else if c == '\r' {
            out.push('\\');
            out.push('r');
        } else if c == '\t' {
            out.push('\\');
            out.push('t');
        } else {
            out.push(c);
        }
        proof {
            assert(old(out)@ + spec_dump_text(t@) =~= out@ + spec_dump_text(
                t@.subrange(i + 1, n as int),
            ));
        }
        i = i + 1;
    }
    proof {
        assert(spec_dump_text(t@.subrange(n as int, n as int)) =~= Seq::<char>::empty());
        assert(out@ =~= old(out)@ + spec_dump_text(t@));
    }
}

/// Render one node at a given indentation.
fn dump_from_node(n: &Node, indent: &Vec<char>, out: &mut Vec<char>)
    requires
        spec_widget_free(n@),
    ensures
        final(out)@ == old(out)@ + spec_dump_node(n@, indent@),
    decreases *n, 0int,
{
    match n {
        Node::Text(t) => {
            out.push('"');
            let chars = crate::strutil::chars_of_str(t.as_str());
            push_dump_text(out, &chars);
            out.push('"');
            proof {
                assert(out@ =~= old(out)@ + spec_dump_node(n@, indent@));
            }
        },
        Node::Foreground(c, d) => {
            out.push('(');
            push_hex_color(out, c.clamp_to_888());
            out.push(')');
            dump_followed(d, indent, out);
            proof {
                assert(out@ =~= old(out)@ + spec_dump_node(n@, indent@));
            }
        },
        Node::Background(c, d) => {
            out.push('[');
            push_hex_color(out, c.clamp_to_888());
            out.push(']');
            dump_followed(d, indent, out);
            proof {
                assert(out@ =~= old(out)@ + spec_dump_node(n@, indent@));
            }
        },
        Node::Bold(d) => {
            push_str_chars(out, "{}");
            dump_followed(d, indent, out);
            proof {
                assert(out@ =~= old(out)@ + spec_dump_node(n@, indent@));
            }
        },
        Node::Widget(_, _) => {
            proof {
                assert(false);
            }
        },
    }
}

/// Render a child document that follows a node header.
fn dump_followed(d: &Document, indent: &Vec<char>, out: &mut Vec<char>)
    requires
        spec_widget_free_seq(d@),
    ensures
        final(out)@ == old(out)@ + spec_dump_followed(d@, indent@),
    decreases *d, 2int,
{
    if d.0.len() == 1 {
        out.push(' ');
        dump_from_document(d, indent, out);
        proof {
            assert(out@ =~= old(out)@ + spec_dump_followed(d@, indent@));
        }
    } else {
        let mut deeper: Vec<char> = Vec::new();
        push_str_chars(&mut deeper, "    ");
        let mut k: usize = 0;
        let m: usize = indent.len();
        while k < m
            invariant
                k <= m,
                m == indent@.len(),
                deeper@ =~= spec_indent_step() + indent@.subrange(0, k as int),
            decreases m - k,
        {
            deeper.push(indent[k]);
            proof {
                assert(indent@.subrange(0, k + 1) =~= indent@.subrange(0, k as int).push(
                    indent@[k as int],
                ));
            }
            k = k + 1;
        }
        proof {
            assert(indent@.subrange(0, m as int) =~= indent@);
            assert(deeper@ =~= spec_indent_step() + indent@);
        }
        out.push(':');
        out.push('\n');
        crate::strutil::push_chars(out, &deeper);
        dump_from_document(d, &deeper, out);
        proof {
            assert(out@ =~= old(out)@ + spec_dump_followed(d@, indent@));
        }
    }
}

/// What follows the first node of a document in its dump: nothing when the
/// document is exhausted, else a separator and the dump of the rest.
spec fn spec_dump_rest(s: Seq<SpecNode>, indent: Seq<char>) -> Seq<char> {
    if s.len() == 0 {
        Seq::empty()
    } else {
        seq!['\n'] + indent + spec_dump_doc(s, indent)
    }
}

/// Render the nodes of a document, separated by a newline and the current
/// indentation.
fn dump_from_document(d: &Document, indent: &Vec<char>, out: &mut Vec<char>)
    requires
        spec_widget_free_seq(d@),
    ensures
        final(out)@ == old(out)@ + spec_dump_doc(d@, indent@),
    decreases *d, 1int,
{
    let n: usize = d.0.len();
    if n == 0 {
        proof {
            assert(spec_dump_doc(d@, indent@) =~= Seq::<char>::empty());
            assert(out@ =~= old(out)@ + spec_dump_doc(d@, indent@));
        }
    } else {
        proof {
            assert(d@[0] == crate::document::node_view(d.0@[0]));
        }
        dump_from_node(&d.0[0], indent, out);
        let mut i: usize = 1;
        proof {
            if n > 1 {
                assert(d@.drop_first() =~= d@.subrange(1, n as int));
            }
            assert(old(out)@ + spec_dump_doc(d@, indent@) =~= out@ + spec_dump_rest(
                d@.subrange(1, n as int),
                indent@,
            ));
        }
        while i < n
            invariant
                1 <= i <= n,
                n == d.0@.len(),
                d@.len() == n,
                spec_widget_free_seq(d@),
                old(out)@ + spec_dump_doc(d@, indent@) =~= out@ + spec_dump_rest(
                    d@.subrange(i as int, n as int),
                    indent@,
                ),
            decreases n - i,
        {
            out.push('\n');
            crate::strutil::push_chars(out, indent);
            proof {
                assert(d@.subrange(i as int, n as int)[0] == d@[i as int]);
                assert(d@[i as int] == crate::document::node_view(d.0@[i as int]));
                assert(d@.subrange(i as int, n as int).drop_first() =~= d@.subrange(
                    i + 1,
                    n as int,
                ));
            }
            dump_from_node(&d.0[i], indent, out);
            proof {
                let tail = d@.subrange(i as int, n as int);
                if tail.len() == 1 {
                    assert(spec_dump_doc(tail, indent@) == spec_dump_node(tail[0], indent@));
                } else {
                    assert(spec_dump_doc(tail, indent@) == spec_dump_node(tail[0], indent@)
                        + seq!['\n'] + indent@ + spec_dump_doc(tail.drop_first(), indent@));
                }
                assert(old(out)@ + spec_dump_doc(d@, indent@) =~= out@ + spec_dump_rest(
                    d@.subrange(i + 1, n as int),
                    indent@,
                ));
            }
            i = i + 1;
        }
        proof {
            assert(spec_dump_rest(d@.subrange(n as int, n as int), indent@) =~= Seq::<
                char,
            >::empty());
            assert(out@ =~= old(out)@ + spec_dump_doc(d@, indent@));
        }
    }
}

/// Render a widget-free document as a structural dump.
pub fn render_into(doc: &Document, out: &mut Vec<char>)
    requires
        spec_widget_free_seq(doc@),
    ensures
        final(out)@ == old(out)@ + spec_dump(doc@),
{
    let indent: Vec<char> = Vec::new();
    dump_from_document(doc, &indent, out);
    proof {
        assert(out@ =~= old(out)@ + spec_dump(doc@));
    }
}

} // verus!
