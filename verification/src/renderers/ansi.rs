//! The `ansi` backend: SGR true-color escape sequences for terminals.
//!
//! The full style prefix (reset, then foreground, background and bold as
//! set) is emitted before every text run, and a full reset sequence is
//! appended at the very end of the output.

use vstd::prelude::*;

use crate::color::{spec_clamp_to_888, Color};
use crate::document::{spec_widget_free, spec_widget_free_seq, Document, Node, SpecNode};
use crate::renderers::Environment;
use crate::strutil::{push_dec_u64, push_str_chars, spec_dec};

verus! {

/// The decimal triplet `r;g;b` of a display color.
pub open spec fn spec_dec_triplet(c: Color) -> Seq<char> {
    spec_dec(c.0 as int) + ";"@ + spec_dec(c.1 as int) + ";"@ + spec_dec(c.2 as int) + "m"@
}

/// The full style prefix for an environment: a reset, then one SGR
/// sequence for each field that is set.
pub open spec fn spec_ansi_env(env: Environment) -> Seq<char> {
    "\x1b[0m"@ + (match env.foreground {
        Some(c) => "\x1b[38;2;"@ + spec_dec_triplet(c),
        None => Seq::empty(),
    }) + (match env.background {
        Some(c) => "\x1b[48;2;"@ + spec_dec_triplet(c),
        None => Seq::empty(),
    }) + (if env.bold {
        "\x1b[1m"@
    } else {
        Seq::empty()
    })
}

/// The ANSI output for one node under an inherited environment.
pub open spec fn spec_ansi_node(n: SpecNode, env: Environment) -> Seq<char>
    decreases n,
{
    match n {
        SpecNode::Text(t) => spec_ansi_env(env) + t,
        SpecNode::Foreground(c, d) => spec_ansi_doc(
            d,
            Environment { foreground: Some(spec_clamp_to_888(c)), ..env },
        ),
        SpecNode::Background(c, d) => spec_ansi_doc(
            d,
            Environment { background: Some(spec_clamp_to_888(c)), ..env },
        ),
        SpecNode::Bold(d) => spec_ansi_doc(d, Environment { bold: true, ..env }),
        SpecNode::Widget(_, _) => Seq::empty(),
    }
}

/// The ANSI output for a sequence of nodes, concatenated in order.
pub open spec fn spec_ansi_doc(d: Seq<SpecNode>, env: Environment) -> Seq<char>
    decreases d,
{
    if d.len() == 0 {
        Seq::empty()
    } else {
        spec_ansi_node(d[0], env) + spec_ansi_doc(d.drop_first(), env)
    }
}

/// The whole output: the document under an empty environment, then a full
/// reset.
pub open spec fn spec_ansi(doc: Seq<SpecNode>) -> Seq<char> {
    spec_ansi_doc(doc, Environment::spec_empty()) + "\x1b[0m"@
}

/// Emit the decimal triplet `r;g;b` followed by `m`.
fn push_dec_triplet(out: &mut Vec<char>, c: Color)
    ensures
        final(out)@ == old(out)@ + spec_dec_triplet(c),
{
    push_dec_u64(out, c.0 as u64);
    push_str_chars(out, ";");
    push_dec_u64(out, c.1 as u64);
    push_str_chars(out, ";");
    push_dec_u64(out, c.2 as u64);
    push_str_chars(out, "m");
    proof {
        assert(out@ =~= old(out)@ + spec_dec_triplet(c));
    }
}

/// Emit the full style prefix of an environment.
fn push_ansi_env(out: &mut Vec<char>, env: &Environment)
    ensures
        final(out)@ == old(out)@ + spec_ansi_env(*env),
{
    push_str_chars(out, "\x1b[0m");
    match env.foreground {
        Some(c) => {
            push_str_chars(out, "\x1b[38;2;");
            push_dec_triplet(out, c);
        },
        None => {},
    }
    match env.background {
        Some(c) => {
            push_str_chars(out, "\x1b[48;2;");
            push_dec_triplet(out, c);
        },
        None => {},
    }
    if env.bold {
        push_str_chars(out, "\x1b[1m");
    }
    proof {
        assert(out@ =~= old(out)@ + spec_ansi_env(*env));
    }
}

/// Render one node under an inherited environment.
fn ansi_from_node(n: &Node, env: Environment, out: &mut Vec<char>)
    requires
        spec_widget_free(n@),
    ensures
        final(out)@ == old(out)@ + spec_ansi_node(n@, env),
    decreases *n,
{
    match n {
        Node::Text(t) => {
            push_ansi_env(out, &env);
            push_str_chars(out, t.as_str());
            proof {
                assert(out@ =~= old(out)@ + spec_ansi_node(n@, env));
            }
        },
        Node::Foreground(c, d) => {
            let env2 = Environment { foreground: Some(c.clamp_to_888()), ..env };
            ansi_from_document(d, env2, out);
        },
        Node::Background(c, d) => {
            let env2 = Environment { background: Some(c.clamp_to_888()), ..env };
            ansi_from_document(d, env2, out);
        },
        Node::Bold(d) => {
            let env2 = Environment { bold: true, ..env };
            ansi_from_document(d, env2, out);
        },
        Node::Widget(_, _) => {
            proof {
                assert(false);
            }
        },
    }
}

/// Render every node of a document, in order, under one environment.
fn ansi_from_document(d: &Document, env: Environment, out: &mut Vec<char>)
    requires
        spec_widget_free_seq(d@),
    ensures
        final(out)@ == old(out)@ + spec_ansi_doc(d@, env),
    decreases *d,
{
    let n: usize = d.0.len();
    let mut i: usize = 0;
    proof {
        assert(d@.subrange(0, n as int) =~= d@);
    }
    while i < n
        invariant
            i <= n,
            n == d.0@.len(),
            d@.len() == n,
            spec_widget_free_seq(d@),
            old(out)@ + spec_ansi_doc(d@, env) =~= out@ + spec_ansi_doc(
                d@.subrange(i as int, n as int),
                env,
            ),
        decreases n - i,
    {
        proof {
            assert(d@.subrange(i as int, n as int).drop_first() =~= d@.subrange(i + 1, n as int));
            assert(d@.subrange(i as int, n as int)[0] == d@[i as int]);
            assert(d@[i as int] == crate::document::node_view(d.0@[i as int]));
        }
        ansi_from_node(&d.0[i], env, out);
        i = i + 1;
    }
    proof {
        assert(spec_ansi_doc(d@.subrange(n as int, n as int), env) =~= Seq::<char>::empty());
        assert(out@ =~= old(out)@ + spec_ansi_doc(d@, env));
    }
}

/// Render a widget-free document as ANSI terminal text.
pub fn render_into(doc: &Document, out: &mut Vec<char>)
    requires
        spec_widget_free_seq(doc@),
    ensures
        final(out)@ == old(out)@ + spec_ansi(doc@),
{
    ansi_from_document(doc, Environment::empty(), out);
    push_str_chars(out, "\x1b[0m");
    proof {
        assert(out@ =~= old(out)@ + spec_ansi(doc@));
    }
}

} // verus!
