//! The `tmux` backend: status-format directives (`#[...]`).
//!
//! The full style directive is re-emitted before every text run, and a
//! `#[default]` directive is appended at the very end.  A literal `#` in
//! text would start a directive, so it is escaped by substituting a benign
//! placeholder sequence.

use vstd::prelude::*;

use crate::color::{push_hex_color, spec_clamp_to_888, spec_hex};
use crate::document::{spec_widget_free, spec_widget_free_seq, Document, Node, SpecNode};
use crate::renderers::Environment;
use crate::strutil::push_str_chars;

verus! {

/// The full style directive for an environment.
pub open spec fn spec_tmux_env(env: Environment) -> Seq<char> {
    "#[default"@ + (match env.foreground {
        Some(c) => ",fg=#"@ + spec_hex(c),
        None => Seq::empty(),
    }) + (match env.background {
        Some(c) => ",bg=#"@ + spec_hex(c),
        None => Seq::empty(),
    }) + (if env.bold {
        ",bold"@
    } else {
        Seq::empty()
    }) + "]"@
}

/// The tmux text for one character of literal text.
pub open spec fn spec_tmux_char(c: char) -> Seq<char> {
    if c == '#' {
        "###[]"@
    } else {
        seq![c]
    }
}

/// Literal text escaped for tmux format strings.
pub open spec fn spec_tmux_text(t: Seq<char>) -> Seq<char>
    decreases t.len(),
{
    if t.len() == 0 {
        Seq::empty()
    } else {
        spec_tmux_char(t[0]) + spec_tmux_text(t.drop_first())
    }
}

/// The tmux output for one node under an inherited environment.
pub open spec fn spec_tmux_node(n: SpecNode, env: Environment) -> Seq<char>
    decreases n,
{
    match n {
        SpecNode::Text(t) => spec_tmux_env(env) + spec_tmux_text(t),
        SpecNode::Foreground(c, d) => spec_tmux_doc(
            d,
            Environment { foreground: Some(spec_clamp_to_888(c)), ..env },
        ),
        SpecNode::Background(c, d) => spec_tmux_doc(
            d,
            Environment { background: Some(spec_clamp_to_888(c)), ..env },
        ),
        SpecNode::Bold(d) => spec_tmux_doc(d, Environment { bold: true, ..env }),
        SpecNode::Widget(_, _) => Seq::empty(),
    }
}

/// The tmux output for a sequence of nodes, concatenated in order.
pub open spec fn spec_tmux_doc(d: Seq<SpecNode>, env: Environment) -> Seq<char>
    decreases d,
{
    if d.len() == 0 {
        Seq::empty()
    } else {
        spec_tmux_node(d[0], env) + spec_tmux_doc(d.drop_first(), env)
    }
}

/// The whole output: the document under an empty environment, then a
/// closing `#[default]`.
pub open spec fn spec_tmux(doc: Seq<SpecNode>) -> Seq<char> {
    spec_tmux_doc(doc, Environment::spec_empty()) + "#[default]"@
}

/// Emit the full style directive of an environment.
fn push_tmux_env(out: &mut Vec<char>, env: &Environment)
    ensures
        final(out)@ == old(out)@ + spec_tmux_env(*env),
{
    push_str_chars(out, "#[default");
    match env.foreground {
        Some(c) => {
            push_str_chars(out, ",fg=#");
            push_hex_color(out, c);
        },
        None => {},
    }
    match env.background {
        Some(c) => {
            push_str_chars(out, ",bg=#");
            push_hex_color(out, c);
        },
        None => {},
    }
    if env.bold {
        push_str_chars(out, ",bold");
    }
    push_str_chars(out, "]");
    proof {
        assert(out@ =~= old(out)@ + spec_tmux_env(*env));
    }
}

/// Escape literal text for tmux format strings.
fn push_tmux_text(out: &mut Vec<char>, t: &Vec<char>)
    ensures
        final(out)@ == old(out)@ + spec_tmux_text(t@),
{
    let n: usize = t.len();
    let mut i: usize = 0;
    proof {
        assert(t@.subrange(0, n as int) =~= t@);
    }
    while i < n
        invariant
            i <= n,
            n == t@.len(),
            old(out)@ + spec_tmux_text(t@) =~= out@ + spec_tmux_text(
                t@.subrange(i as int, n as int),
            ),
        decreases n - i,
    {
        proof {
            assert(t@.subrange(i as int, n as int).drop_first() =~= t@.subrange(i + 1, n as int));
            assert(t@.subrange(i as int, n as int)[0] == t@[i as int]);
        }
        let c: char = t[i];
        if c == '#' {
            push_str_chars(out, "###[]");
        } else {
            out.push(c);
        }
        proof {
            assert(old(out)@ + spec_tmux_text(t@) =~= out@ + spec_tmux_text(
                t@.subrange(i + 1, n as int),
            ));
        }
        i = i + 1;
    }
    proof {
        assert(spec_tmux_text(t@.subrange(n as int, n as int)) =~= Seq::<char>::empty());
        assert(out@ =~= old(out)@ + spec_tmux_text(t@));
    }
}

/// Escape `text` for a tmux format string: a literal `#` would start a
/// directive, so it is replaced by a benign placeholder sequence.
pub fn escape_tmux_format(text: &str) -> (r: String)
    ensures
        r@ == spec_tmux_text(text@),
{
    let chars = crate::strutil::chars_of_str(text);
    let mut out: Vec<char> = Vec::new();
    push_tmux_text(&mut out, &chars);
    crate::strutil::string_from_chars(&out)
}

/// Render one node under an inherited environment.
fn tmux_from_node(n: &Node, env: Environment, out: &mut Vec<char>)
    requires
        spec_widget_free(n@),
    ensures
        final(out)@ == old(out)@ + spec_tmux_node(n@, env),
    decreases *n,
{
    match n {
        Node::Text(t) => {
            push_tmux_env(out, &env);
            let chars = crate::strutil::chars_of_str(t.as_str());
            push_tmux_text(out, &chars);
            proof {
                assert(out@ =~= old(out)@ + spec_tmux_node(n@, env));
            }
        },
        Node::Foreground(c, d) => {
            let env2 = Environment { foreground: Some(c.clamp_to_888()), ..env };
            tmux_from_document(d, env2, out);
        },
        Node::Background(c, d) => {
            let env2 = Environment { background: Some(c.clamp_to_888()), ..env };
            tmux_from_document(d, env2, out);
        },
        Node::Bold(d) => {
            let env2 = Environment { bold: true, ..env };
            tmux_from_document(d, env2, out);
        },
        Node::Widget(_, _) => {
            proof {
                assert(false);
            }
        },
    }
}

/// Render every node of a document, in order, under one environment.
fn tmux_from_document(d: &Document, env: Environment, out: &mut Vec<char>)
    requires
        spec_widget_free_seq(d@),
    ensures
        final(out)@ == old(out)@ + spec_tmux_doc(d@, env),
    decreases *d,
{
    let n: usize = d.0.len();
    let mut i: usize = 0;
    proof {
        assert(d@.subrange(0, n as int) =~= d@);
    }
    while i < n
        invariant
            i <= n,
            n == d.0@.len(),
            d@.len() == n,
            spec_widget_free_seq(d@),
            old(out)@ + spec_tmux_doc(d@, env) =~= out@ + spec_tmux_doc(
                d@.subrange(i as int, n as int),
                env,
            ),
        decreases n - i,
    {
        proof {
            assert(d@.subrange(i as int, n as int).drop_first() =~= d@.subrange(i + 1, n as int));
            assert(d@.subrange(i as int, n as int)[0] == d@[i as int]);
            assert(d@[i as int] == crate::document::node_view(d.0@[i as int]));
        }
        tmux_from_node(&d.0[i], env, out);
        i = i + 1;
    }
    proof {
        assert(spec_tmux_doc(d@.subrange(n as int, n as int), env) =~= Seq::<char>::empty());
        assert(out@ =~= old(out)@ + spec_tmux_doc(d@, env));
    }
}

/// Render a widget-free document as a tmux status-format string.
pub fn render_into(doc: &Document, out: &mut Vec<char>)
    requires
        spec_widget_free_seq(doc@),
    ensures
        final(out)@ == old(out)@ + spec_tmux(doc@),
{
    tmux_from_document(doc, Environment::empty(), out);
    push_str_chars(out, "#[default]");
    proof {
        assert(out@ =~= old(out)@ + spec_tmux(doc@));
    }
}

} // verus!
