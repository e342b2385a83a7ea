//! A renderer for a small status-line markup language.
//!
//! Source text is parsed into a document tree, every widget placeholder in
//! the tree is expanded against an injected system snapshot, and the
//! resulting widget-free tree is rendered by a named backend (terminal ANSI
//! escapes, tmux format directives, HTML, or a structural dump).

use vstd::prelude::*;

pub mod color;
pub mod document;
pub mod parser;
pub mod renderers;
pub mod stats;
pub mod strutil;
pub mod utils;
pub mod widgets;

verus! {

/// Why a render failed: the source did not parse, or no renderer is
/// registered under the requested name.  A widget failure never raises an
/// error; it renders as an in-band error fragment instead.
#[derive(Debug)]
pub enum Error {
    ParseFailed(String),
    RendererNotFound(String),
}

impl Error {
    /// The human-readable message of this error.
    pub fn to_message(&self) -> (r: String)
        ensures
            self is ParseFailed ==> r@ == self->ParseFailed_0@,
            self is RendererNotFound ==> r@ == "no such renderer: "@ + self->RendererNotFound_0@,
    {
        match self {
            Error::ParseFailed(e) => e.clone(),
            Error::RendererNotFound(name) => {
                let mut v: Vec<char> = Vec::new();
                crate::strutil::push_str_chars(&mut v, "no such renderer: ");
                crate::strutil::push_str_chars(&mut v, name.as_str());
                crate::strutil::string_from_chars(&v)
            },
        }
    }
}

/// What a successful render returns: the parsed document, expanded under
/// the snapshot, rendered by the chosen backend.
pub open spec fn spec_render_status(
    source: Seq<char>,
    renderer_name: Seq<char>,
    snap: stats::Snapshot,
) -> Seq<char> {
    renderers::spec_render(
        renderers::spec_make(renderer_name)->0,
        widgets::spec_expand_seq(parser::spec_parse(source)->0, snap),
    )
}

/// Parse `source` as markup, expand all widgets against `snap`, then render
/// the result with the renderer named `renderer_name`.
///
/// Returns `Ok` exactly when the renderer name is registered and the whole
/// source parses.  An unknown renderer name is a configuration error,
/// raised before any parsing work begins.
pub fn render_status(source: &str, renderer_name: &str, snap: &stats::Snapshot) -> (r: Result<
    String,
    Error,
>)
    ensures
        (r is Ok) == (renderers::spec_make(renderer_name@) is Some && parser::spec_parse(source@)
            is Some),
        r is Ok ==> r->Ok_0@ == spec_render_status(source@, renderer_name@, *snap),
        renderers::spec_make(renderer_name@) is None ==> r is Err && r->Err_0
            is RendererNotFound && r->Err_0->RendererNotFound_0@ == renderer_name@,
        renderers::spec_make(renderer_name@) is Some && parser::spec_parse(source@) is None ==> r
            is Err && r->Err_0 is ParseFailed && r->Err_0->ParseFailed_0@
            == parser::spec_parse_error_message(source@),
{
    match renderers::make(renderer_name) {
        None => Err(Error::RendererNotFound(String::from_str(renderer_name))),
        Some(kind) => match parser::parse(source) {
            Err(e) => Err(Error::ParseFailed(e)),
            Ok(doc) => {
                let doc = widgets::expand(doc, snap);
                Ok(kind.render(&doc))
            },
        },
    }
}

/// What one invocation needs: the markup to evaluate and the name of the
/// output format.
#[derive(Debug)]
pub struct Configuration {
    pub expression: String,
    pub renderer_name: String,
}

} // verus!
