//! Renderer backends.
//!
//! A renderer turns a widget-free `Document` into a target-specific string:
//! HTML for browsers, ANSI escape sequences for terminals, tmux status-format
//! directives, or an indented structural dump for debugging.
//!
//! The walk carries an inherited style environment of optional foreground
//! color, optional background color and a bold flag.  Entering a style node
//! overrides exactly one field for its subtree; because terminal and tmux
//! escape state does not nest safely, the full style prefix is re-emitted at
//! every text leaf rather than a delta.

use vstd::prelude::*;

use crate::color::Color;
use crate::document::{spec_widget_free_seq, Document};
use crate::strutil::{str_eq, string_from_chars};

pub mod ansi;
pub mod dump;
pub mod html;
pub mod tmux;

verus! {

/// The inherited style environment a renderer carries while walking.
#[derive(Debug, Clone, Copy)]
pub struct Environment {
    pub foreground: Option<Color>,
    pub background: Option<Color>,
    pub bold: bool,
}

impl Environment {
    /// The style at the root of a document: nothing set.
    pub open spec fn spec_empty() -> Environment {
        Environment { foreground: None, background: None, bold: false }
    }

    /// The style at the root of a document: nothing set.
    pub fn empty() -> (r: Environment)
        ensures
            r == Environment::spec_empty(),
    {
        Environment { foreground: None, background: None, bold: false }
    }
}

/// The closed set of renderer backends.
#[derive(Debug, Clone, Copy, PartialEq, Eq, Structural)]
pub enum RendererKind {
    Dump,
    Html,
    Ansi,
    Tmux,
}

/// The backend registered under `name`, if any.
pub open spec fn spec_make(name: Seq<char>) -> Option<RendererKind> {
    if name == "dump"@ {
        Some(RendererKind::Dump)
    } else if name == "html"@ {
        Some(RendererKind::Html)
    } else if name == "ansi"@ {
        Some(RendererKind::Ansi)
    } else if name == "tmux"@ {
        Some(RendererKind::Tmux)
    } else {
        None
    }
}

/// Look a renderer up by name.
pub fn make(name: &str) -> (r: Option<RendererKind>)
    ensures
        r == spec_make(name@),
{
    if str_eq(name, "dump") {
        Some(RendererKind::Dump)
    } else if str_eq(name, "html") {
        Some(RendererKind::Html)
    } else if str_eq(name, "ansi") {
        Some(RendererKind::Ansi)
    } else if str_eq(name, "tmux") {
        Some(RendererKind::Tmux)
    } else {
        None
    }
}

/// The names of all renderers, in registry order; the first one is the
/// conventional default.
pub fn list() -> (r: Vec<String>)
    ensures
        r.deep_view() =~= seq!["dump"@, "html"@, "ansi"@, "tmux"@],
{
    let mut v: Vec<String> = Vec::new();
    v.push(String::from_str("dump"));
    v.push(String::from_str("html"));
    v.push(String::from_str("ansi"));
    v.push(String::from_str("tmux"));
    v
}

/// What rendering a widget-free document with each backend produces.
pub open spec fn spec_render(kind: RendererKind, doc: Seq<crate::document::SpecNode>) -> Seq<
    char,
> {
    match kind {
        RendererKind::Dump => dump::spec_dump(doc),
        RendererKind::Html => html::spec_html_doc(doc),
        RendererKind::Ansi => ansi::spec_ansi(doc),
        RendererKind::Tmux => tmux::spec_tmux(doc),
    }
}

impl RendererKind {
    /// Render a widget-free document to the backend's output text.
    pub fn render(&self, doc: &Document) -> (r: String)
        requires
            spec_widget_free_seq(doc@),
        ensures
            r@ == spec_render(*self, doc@),
    {
        let mut out: Vec<char> = Vec::new();
        match self {
            RendererKind::Dump => dump::render_into(doc, &mut out),
            RendererKind::Html => html::render_into(doc, &mut out),
            RendererKind::Ansi => ansi::render_into(doc, &mut out),
            RendererKind::Tmux => tmux::render_into(doc, &mut out),
        }
        string_from_chars(&out)
    }
}

} // verus!
