//! The markup parser.
//!
//! The grammar, over characters:
//!
//! ```text
//! document   := node*
//! node       := text-run | foreground | background | bold | widget
//! foreground := '(' color-literal ':' ws* document ')'
//! background := '[' color-literal ':' ws* document ']'
//! bold       := '{' document '}'
//! widget     := '<' name ('|' arg)* '>'
//! color-literal := exactly 6 lowercase hex digits
//! name, arg  := like text-run, possibly empty
//! text-run   := one or more of: an escape, or any character that is not
//!               one of the structural characters ( ) [ ] { } < > | \
//! escape     := '\' followed by a structural character or a space,
//!               producing that character
//! ```
//!
//! Parsing is all-or-nothing: the whole input must match `document` up to
//! end-of-input, otherwise no partial document is returned.  Whitespace is
//! ordinary text everywhere except directly after the colon of a color
//! bracket, where a run of it is skipped.  The space is escapable — beyond
//! the structural characters — because the generated-markup mechanism needs
//! a way to keep a literal space in exactly that position; a backslash
//! before any other character fails the parse.
//!
//! The grammar is written once as specification functions over `Seq<char>`;
//! the executable parser is proved to return exactly what they describe.

use vstd::prelude::*;

use crate::color::{spec_from_display, Color, LinearColor};
use crate::document::{nodes_view, Document, Node, SpecNode};
use crate::strutil::{chars_of_str, push_dec_u64, string_from_chars};

verus! {

/// The characters that structure the markup; they appear literally in text
/// only behind a backslash escape.
pub open spec fn is_structural(c: char) -> bool {
    ||| c == '('
    ||| c == ')'
    ||| c == '['
    ||| c == ']'
    ||| c == '{'
    ||| c == '}'
    ||| c == '<'
    ||| c == '>'
    ||| c == '|'
    ||| c == '\\'
}

/// The characters a backslash may escape: the structural characters, and
/// the space (which would otherwise be skipped right after a color
/// bracket's colon).
pub open spec fn is_escapable(c: char) -> bool {
    is_structural(c) || c == ' '
}

/// Whitespace that is skipped after the colon of a color bracket.
pub open spec fn is_space(c: char) -> bool {
    c == ' ' || c == '\t' || c == '\n' || c == '\r'
}

/// A lowercase hex digit.
pub open spec fn is_hex_lower(c: char) -> bool {
    (48 <= c as u32 <= 57) || (97 <= c as u32 <= 102)
}

/// The value of a lowercase hex digit.
pub open spec fn hex_val(c: char) -> int {
    if 48 <= c as u32 <= 57 {
        c as u32 - 48
    } else if 97 <= c as u32 <= 102 {
        c as u32 - 87
    } else {
        0
    }
}

/// A maximal text run starting at `i`: the characters it denotes and the
/// position after it.  A backslash not followed by an escapable character
/// (a lone trailing one included) ends the run before it.
pub open spec fn spec_text_run(s: Seq<char>, i: int) -> (Seq<char>, int)
    decreases s.len() - i,
{
    if !(0 <= i < s.len()) {
        (Seq::empty(), i)
    } else if s[i] == '\\' {
        if i + 1 < s.len() && is_escapable(s[i + 1]) {
            let (rest, j) = spec_text_run(s, i + 2);
            (seq![s[i + 1]] + rest, j)
        } else {
            (Seq::empty(), i)
        }
    } else if !is_structural(s[i]) {
        let (rest, j) = spec_text_run(s, i + 1);
        (seq![s[i]] + rest, j)
    } else {
        (Seq::empty(), i)
    }
}

/// The position after the run of whitespace starting at `i`.
pub open spec fn spec_skip_ws(s: Seq<char>, i: int) -> int
    decreases s.len() - i,
{
    if 0 <= i < s.len() && is_space(s[i]) {
        spec_skip_ws(s, i + 1)
    } else {
        i
    }
}

/// Six lowercase hex digits start at `i`.
pub open spec fn spec_color_ok(s: Seq<char>, i: int) -> bool {
    i + 6 <= s.len() && forall|k: int| i <= k < i + 6 ==> is_hex_lower(#[trigger] s[k])
}

/// The display color denoted by the six hex digits at `i`.
pub open spec fn spec_color_at(s: Seq<char>, i: int) -> Color {
    Color(
        (hex_val(s[i]) * 16 + hex_val(s[i + 1])) as u8,
        (hex_val(s[i + 2]) * 16 + hex_val(s[i + 3])) as u8,
        (hex_val(s[i + 4]) * 16 + hex_val(s[i + 5])) as u8,
    )
}

/// The widget argument list from `i`, which must sit on `'|'` or `'>'`:
/// the arguments and the position after the closing `'>'`.
pub open spec fn spec_parse_args(s: Seq<char>, i: int) -> Option<(Seq<Seq<char>>, int)>
    decreases s.len() - i,
{
    if !(0 <= i < s.len()) {
        None
    } else if s[i] == '>' {
        Some((Seq::empty(), i + 1))
    } else if s[i] == '|' {
        let (arg, j) = spec_text_run(s, i + 1);
        if i + 1 <= j <= s.len() {
            match spec_parse_args(s, j) {
                None => None,
                Some((rest, k)) => Some((seq![arg] + rest, k)),
            }
        } else {
            None
        }
    } else {
        None
    }
}

/// One node starting at `i`, if the input matches one there: the node and
/// the position after it (always strictly beyond `i`).
pub open spec fn spec_parse_node(s: Seq<char>, i: int) -> Option<(SpecNode, int)>
    decreases s.len() - i, 0int,
{
    if !(0 <= i < s.len()) {
        None
    } else {
        let c = s[i];
        if c == '(' || c == '[' {
            if spec_color_ok(s, i + 1) && i + 7 < s.len() && s[i + 7] == ':' {
                let col = spec_from_display(spec_color_at(s, i + 1));
                let k = spec_skip_ws(s, i + 8);
                if i + 8 <= k <= s.len() {
                    let (children, m) = spec_parse_doc(s, k);
                    if k <= m < s.len() && s[m] == (if c == '(' {
                        ')'
                    } else {
                        ']'
                    }) {
                        if c == '(' {
                            Some((SpecNode::Foreground(col, children), m + 1))
                        } else {
                            Some((SpecNode::Background(col, children), m + 1))
                        }
                    } else {
                        None
                    }
                } else {
                    None
                }
            } else {
                None
            }
        } else if c == '{' {
            let (children, m) = spec_parse_doc(s, i + 1);
            if i + 1 <= m < s.len() && s[m] == '}' {
                Some((SpecNode::Bold(children), m + 1))
            } else {
                None
            }
        } else if c == '<' {
            let (name, j) = spec_text_run(s, i + 1);
            if i + 1 <= j <= s.len() {
                match spec_parse_args(s, j) {
                    None => None,
                    Some((args, k)) => Some((SpecNode::Widget(name, args), k)),
                }
            } else {
                None
            }
        } else if c == ')' || c == ']' || c == '}' || c == '>' || c == '|' {
            None
        } else {
            let (content, j) = spec_text_run(s, i);
            if i < j {
                Some((SpecNode::Text(content), j))
            } else {
                None
            }
        }
    }
}

/// The longest sequence of nodes from `i`: the nodes and the position where
/// no further node matches.
pub open spec fn spec_parse_doc(s: Seq<char>, i: int) -> (Seq<SpecNode>, int)
    decreases s.len() - i, 1int,
{
    if !(0 <= i < s.len()) {
        (Seq::empty(), i)
    } else {
        match spec_parse_node(s, i) {
            None => (Seq::empty(), i),
            Some((n, j)) => {
                if i < j <= s.len() {
                    let (rest, k) = spec_parse_doc(s, j);
                    (seq![n] + rest, k)
                } else {
                    (Seq::empty(), i)
                }
            },
        }
    }
}

/// The whole input parsed as a document, all-or-nothing.
pub open spec fn spec_parse(s: Seq<char>) -> Option<Seq<SpecNode>> {
    let (nodes, j) = spec_parse_doc(s, 0);
    if j == s.len() {
        Some(nodes)
    } else {
        None
    }
}

/// The whole input parsed as a bare color literal.
pub open spec fn spec_parse_color(s: Seq<char>) -> Option<Color> {
    if s.len() == 6 && spec_color_ok(s, 0) {
        Some(spec_color_at(s, 0))
    } else {
        None
    }
}

// ---------------------------------------------------------------------------
// Executable scanning helpers
// ---------------------------------------------------------------------------
fn is_structural_exec(c: char) -> (r: bool)
    ensures
        r == is_structural(c),
{
    c == '(' || c == ')' || c == '[' || c == ']' || c == '{' || c == '}' || c == '<' || c == '>'
        || c == '|' || c == '\\'
}

fn is_space_exec(c: char) -> (r: bool)
    ensures
        r == is_space(c),
{
    c == ' ' || c == '\t' || c == '\n' || c == '\r'
}

fn is_hex_lower_exec(c: char) -> (r: bool)
    ensures
        r == is_hex_lower(c),
{
    let u: u32 = c as u32;
    (48 <= u && u <= 57) || (97 <= u && u <= 102)
}

fn hex_val_exec(c: char) -> (r: u32)
    ensures
        r as int == hex_val(c),
        r < 16,
{
    let u: u32 = c as u32;
    if 48 <= u && u <= 57 {
        u - 48
    } else if 97 <= u && u <= 102 {
        u - 87
    } else {
        0
    }
}

/// Whether the text run continues at `i`.
spec fn text_run_continues(s: Seq<char>, i: int) -> bool {
    0 <= i < s.len() && (if s[i] == '\\' {
        i + 1 < s.len() && is_escapable(s[i + 1])
    } else {
        !is_structural(s[i])
    })
}

fn is_escapable_exec(c: char) -> (r: bool)
    ensures
        r == is_escapable(c),
{
    is_structural_exec(c) || c == ' '
}

fn text_run_continues_exec(s: &Vec<char>, i: usize) -> (r: bool)
    ensures
        r == text_run_continues(s@, i as int),
{
    if i >= s.len() {
        false
    } else if s[i] == '\\' {
        i + 1 < s.len() && is_escapable_exec(s[i + 1])
    } else {
        !is_structural_exec(s[i])
    }
}

/// Scan a maximal text run starting at `i`.
fn text_run(s: &Vec<char>, i: usize) -> (r: (Vec<char>, usize))
    requires
        i <= s@.len(),
    ensures
        r.0@ == spec_text_run(s@, i as int).0,
        r.1 as int == spec_text_run(s@, i as int).1,
        i <= r.1 <= s@.len(),
{
    let n: usize = s.len();
    let mut out: Vec<char> = Vec::new();
    let mut j: usize = i;
    loop
        invariant
            i <= j <= n,
            n == s@.len(),
            spec_text_run(s@, i as int).0 =~= out@ + spec_text_run(s@, j as int).0,
            spec_text_run(s@, i as int).1 == spec_text_run(s@, j as int).1,
        ensures
            i <= j <= n,
            n == s@.len(),
            spec_text_run(s@, i as int).0 =~= out@ + spec_text_run(s@, j as int).0,
            spec_text_run(s@, i as int).1 == spec_text_run(s@, j as int).1,
            !text_run_continues(s@, j as int),
        decreases s@.len() - j,
    {
        if !text_run_continues_exec(s, j) {
            break;
        }
        if s[j] == '\\' {
            out.push(s[j + 1]);
            j = j + 2;
        } else {
            out.push(s[j]);
            j = j + 1;
        }
        proof {
            assert(spec_text_run(s@, i as int).0 =~= out@ + spec_text_run(s@, j as int).0);
        }
    }
    proof {
        assert(spec_text_run(s@, j as int).0 =~= Seq::<char>::empty());
        assert(spec_text_run(s@, i as int).0 =~= out@);
    }
    (out, j)
}

/// Skip the run of whitespace starting at `i`.
fn skip_ws(s: &Vec<char>, i: usize) -> (r: usize)
    requires
        i <= s@.len(),
    ensures
        r as int == spec_skip_ws(s@, i as int),
        i <= r <= s@.len(),
{
    let n: usize = s.len();
    let mut j: usize = i;
    loop
        invariant
            i <= j <= n,
            n == s@.len(),
            spec_skip_ws(s@, i as int) == spec_skip_ws(s@, j as int),
        ensures
            i <= j <= n,
            spec_skip_ws(s@, i as int) == spec_skip_ws(s@, j as int),
            !(j < s@.len() && is_space(s@[j as int])),
        decreases s@.len() - j,
    {
        if j >= n {
            break;
        }
        if !is_space_exec(s[j]) {
            break;
        }
        j = j + 1;
    }
    j
}

/// Check for six lowercase hex digits at `i`.
fn color_ok(s: &Vec<char>, i: usize) -> (r: bool)
    requires
        i <= s@.len(),
    ensures
        r == spec_color_ok(s@, i as int),
{
    let n: usize = s.len();
    if n - i < 6 {
        false
    } else {
        let mut k: usize = 0;
        let mut ok: bool = true;
        while k < 6
            invariant
                k <= 6,
                n == s@.len(),
                i + 6 <= n,
                ok == forall|x: int| i <= x < i + k ==> is_hex_lower(#[trigger] s@[x]),
            decreases 6 - k,
        {
            proof {
                if ok && !is_hex_lower(s@[i + k as int]) {
                    assert(!(forall|x: int|
                        i <= x < i + k + 1 ==> is_hex_lower(#[trigger] s@[x])));
                } else if !ok {
                    let ghost x0 = choose|x: int|
                        i <= x < i + k && !is_hex_lower(#[trigger] s@[x]);
                    assert(i <= x0 < i + k + 1 && !is_hex_lower(s@[x0]));
                }
            }
            ok = ok && is_hex_lower_exec(s[i + k]);
            k = k + 1;
        }
        ok
    }
}

/// Read the display color denoted by the six hex digits at `i`.
fn color_at(s: &Vec<char>, i: usize) -> (r: Color)
    requires
        spec_color_ok(s@, i as int),
        i + 6 <= s@.len(),
    ensures
        r == spec_color_at(s@, i as int),
{
    let n: usize = s.len();
    let r0: u32 = hex_val_exec(s[i]) * 16 + hex_val_exec(s[i + 1]);
    let g0: u32 = hex_val_exec(s[i + 2]) * 16 + hex_val_exec(s[i + 3]);
    let b0: u32 = hex_val_exec(s[i + 4]) * 16 + hex_val_exec(s[i + 5]);
    Color(r0 as u8, g0 as u8, b0 as u8)
}

// ---------------------------------------------------------------------------
// The executable parser
// ---------------------------------------------------------------------------
/// Parse a widget argument list sitting on `'|'` or `'>'`.
fn parse_args(s: &Vec<char>, i: usize) -> (r: Option<(Vec<String>, usize)>)
    requires
        i <= s@.len(),
    ensures
        (r is Some) == (spec_parse_args(s@, i as int) is Some),
        r is Some ==> (r->0).0.deep_view() == (spec_parse_args(s@, i as int)->0).0 && (r->0).1 as int
            == (spec_parse_args(s@, i as int)->0).1 && i < (r->0).1 <= s@.len(),
    decreases s@.len() - i,
{
    let n: usize = s.len();
    if i >= n {
        None
    } else if s[i] == '>' {
        let empty_args: Vec<String> = Vec::new();
        proof {
            assert(empty_args.deep_view() =~= (spec_parse_args(s@, i as int)->0).0);
        }
        Some((empty_args, i + 1))
    } else if s[i] == '|' {
        let (arg, j) = text_run(s, i + 1);
        let arg_s: String = string_from_chars(&arg);
        match parse_args(s, j) {
            None => None,
            Some((rest, k)) => {
                let ghost rest_dv = rest.deep_view();
                let mut args: Vec<String> = Vec::new();
                args.push(arg_s);
                let mut tail: Vec<String> = rest;
                args.append(&mut tail);
                proof {
                    assert(args.deep_view() =~= seq![arg@] + rest_dv);
                }
                Some((args, k))
            },
        }
    } else {
        None
    }
}

/// Parse one node starting at `i`.
fn parse_node(s: &Vec<char>, i: usize) -> (r: Option<(Node, usize)>)
    requires
        i <= s@.len(),
    ensures
        (r is Some) == (spec_parse_node(s@, i as int) is Some),
        r is Some ==> (r->0).0@ == (spec_parse_node(s@, i as int)->0).0 && (r->0).1 as int
            == (spec_parse_node(s@, i as int)->0).1 && i < (r->0).1 <= s@.len(),
    decreases s@.len() - i, 0int,
{
    let n: usize = s.len();
    if i >= n {
        None
    } else {
        let c = s[i];
        if c == '(' || c == '[' {
            if color_ok(s, i + 1) && n - i > 7 && s[i + 7] == ':' {
                let col_disp: Color = color_at(s, i + 1);
                let col: LinearColor = LinearColor::from(col_disp);
                let k: usize = skip_ws(s, i + 8);
                let (children, m) = parse_doc(s, k);
                let closer: char = if c == '(' {
                    ')'
                } else {
                    ']'
                };
                if m < n && s[m] == closer {
                    let node: Node = if c == '(' {
                        Node::Foreground(col, Document(children))
                    } else {
                        Node::Background(col, Document(children))
                    };
                    Some((node, m + 1))
                } else {
                    None
                }
            } else {
                None
            }
        } else if c == '{' {
            let (children, m) = parse_doc(s, i + 1);
            if m < n && s[m] == '}' {
                Some((Node::Bold(Document(children)), m + 1))
            } else {
                None
            }
        } else if c == '<' {
            let (name, j) = text_run(s, i + 1);
            let name_s: String = string_from_chars(&name);
            match parse_args(s, j) {
                None => None,
                Some((args, k)) => Some((Node::Widget(name_s, args), k)),
            }
        } else if c == ')' || c == ']' || c == '}' || c == '>' || c == '|' {
            None
        } else {
            let (content, j) = text_run(s, i);
            if j > i {
                Some((Node::Text(string_from_chars(&content)), j))
            } else {
                None
            }
        }
    }
}

/// Parse the longest sequence of nodes starting at `i`.
fn parse_doc(s: &Vec<char>, i: usize) -> (r: (Vec<Node>, usize))
    requires
        i <= s@.len(),
    ensures
        nodes_view(r.0) == spec_parse_doc(s@, i as int).0,
        r.1 as int == spec_parse_doc(s@, i as int).1,
        i <= r.1 <= s@.len(),
    decreases s@.len() - i, 1int,
{
    let n: usize = s.len();
    if i >= n {
        let empty: Vec<Node> = Vec::new();
        proof {
            assert(nodes_view(empty) =~= spec_parse_doc(s@, i as int).0);
        }
        (empty, i)
    } else {
        match parse_node(s, i) {
            None => {
                let empty: Vec<Node> = Vec::new();
                proof {
                    assert(nodes_view(empty) =~= spec_parse_doc(s@, i as int).0);
                }
                (empty, i)
            },
            Some((node, j)) => {
                let (rest, k) = parse_doc(s, j);
                let ghost rest_view = nodes_view(rest);
                let mut nodes: Vec<Node> = Vec::new();
                nodes.push(node);
                let mut tail: Vec<Node> = rest;
                nodes.append(&mut tail);
                proof {
                    assert(nodes_view(nodes) =~= spec_parse_doc(s@, i as int).0);
                }
                (nodes, k)
            },
        }
    }
}

// ---------------------------------------------------------------------------
// Entry points
// ---------------------------------------------------------------------------
/// The error message of a failed parse: it names the character position
/// where no further node matched.
pub open spec fn spec_parse_error_message(s: Seq<char>) -> Seq<char> {
    "markup syntax error at character "@ + crate::strutil::spec_dec(spec_parse_doc(s, 0).1)
}

/// Parse `input` into a `Document`.
///
/// All-or-nothing: returns a document exactly when the whole input matches
/// the grammar, and a descriptive error otherwise.
pub fn parse(input: &str) -> (r: Result<Document, String>)
    ensures
        (r is Ok) == (spec_parse(input@) is Some),
        r is Ok ==> r->Ok_0@ == spec_parse(input@)->0,
        r is Err ==> r->Err_0@ == spec_parse_error_message(input@),
{
    let chars: Vec<char> = chars_of_str(input);
    let (nodes, j) = parse_doc(&chars, 0);
    if j == chars.len() {
        Ok(Document(nodes))
    } else {
        let mut msg: Vec<char> = Vec::new();
        crate::strutil::push_str_chars(&mut msg, "markup syntax error at character ");
        push_dec_u64(&mut msg, j as u64);
        Err(string_from_chars(&msg))
    }
}

/// Parse `input` into a `Document`, then hand back only its first node,
/// discarding the rest.  Fails on an empty document or a syntax error,
/// passing a syntax error's message through.
pub fn parse_for_first_node(input: &str) -> (r: Result<Node, String>)
    ensures
        (r is Ok) == (spec_parse(input@) is Some && spec_parse(input@)->0.len() > 0),
        r is Ok ==> r->Ok_0@ == spec_parse(input@)->0[0],
        spec_parse(input@) is None ==> r is Err && r->Err_0@ == spec_parse_error_message(input@),
        spec_parse(input@) is Some && spec_parse(input@)->0.len() == 0 ==> r is Err && r->Err_0@
            == "not a single node"@,
{
    match parse(input) {
        Err(e) => Err(e),
        Ok(doc) => {
            let mut nodes: Vec<Node> = doc.0;
            if nodes.len() == 0 {
                Err(String::from_str("not a single node"))
            } else {
                let first: Node = nodes.remove(0);
                Ok(first)
            }
        },
    }
}

/// Parse `input` as a bare color literal: exactly six lowercase hex digits.
pub fn parse_color(input: &str) -> (r: Result<Color, String>)
    ensures
        (r is Ok) == (spec_parse_color(input@) is Some),
        r is Ok ==> r->Ok_0 == spec_parse_color(input@)->0,
        r is Err ==> r->Err_0@
            == "malformed color literal: expected exactly 6 lowercase hex digits"@,
{
    let chars: Vec<char> = chars_of_str(input);
    if chars.len() == 6 && color_ok(&chars, 0) {
        Ok(color_at(&chars, 0))
    } else {
        Err(String::from_str("malformed color literal: expected exactly 6 lowercase hex digits"))
    }
}

// ---------------------------------------------------------------------------
// Escaping text so that it parses back as itself
// ---------------------------------------------------------------------------
/// The escape of one character: structural characters get a backslash.
pub open spec fn spec_escape_char(c: char) -> Seq<char> {
    if is_structural(c) {
        seq!['\\', c]
    } else {
        seq![c]
    }
}

/// The escape of a text: every structural character gets a backslash, so
/// that parsing the result yields the original text verbatim.
pub open spec fn spec_escape(s: Seq<char>) -> Seq<char>
    decreases s.len(),
{
    if s.len() == 0 {
        Seq::empty()
    } else {
        spec_escape_char(s[0]) + spec_escape(s.drop_first())
    }
}

proof fn lemma_escape_snoc(s: Seq<char>, c: char)
    ensures
        spec_escape(s.push(c)) == spec_escape(s) + spec_escape_char(c),
    decreases s.len(),
{
    if s.len() == 0 {
        assert(s.push(c).len() == 1);
        assert(s.push(c)[0] == c);
        assert(s.push(c).drop_first() =~= Seq::<char>::empty());
        assert(spec_escape(s.push(c)) == spec_escape_char(c) + spec_escape(
            Seq::<char>::empty(),
        ));
        assert(spec_escape(Seq::<char>::empty()) =~= Seq::<char>::empty());
        assert(spec_escape(s) =~= Seq::<char>::empty());
        assert(spec_escape(s.push(c)) =~= spec_escape(s) + spec_escape_char(c));
    } else {
        assert(s.push(c).drop_first() =~= s.drop_first().push(c));
        lemma_escape_snoc(s.drop_first(), c);
        assert(s.push(c)[0] == s[0]);
        assert(spec_escape(s.push(c)) == spec_escape_char(s.push(c)[0]) + spec_escape(
            s.push(c).drop_first(),
        ));
        assert(spec_escape(s.push(c).drop_first()) == spec_escape(s.drop_first().push(c)));
        assert(spec_escape(s.push(c)) == spec_escape_char(s[0]) + (spec_escape(s.drop_first())
            + spec_escape_char(c)));
        assert(spec_escape(s) == spec_escape_char(s[0]) + spec_escape(s.drop_first()));
        assert(spec_escape(s.push(c)) =~= spec_escape(s) + spec_escape_char(c));
    }
}

/// Escape one character for use inside literal text.
pub fn escape_char_for_text(ch: char) -> (r: String)
    ensures
        r@ == spec_escape_char(ch),
{
    let mut v: Vec<char> = Vec::new();
    if is_structural_exec(ch) {
        v.push('\\');
    }
    v.push(ch);
    proof {
        assert(v@ =~= spec_escape_char(ch));
    }
    string_from_chars(&v)
}

/// Push the escape of `src` onto `out`.
pub fn push_escaped(out: &mut Vec<char>, src: &Vec<char>)
    ensures
        final(out)@ == old(out)@ + spec_escape(src@),
{
    let n: usize = src.len();
    let mut i: usize = 0;
    while i < n
        invariant
            i <= n,
            n == src@.len(),
            out@ =~= old(out)@ + spec_escape(src@.subrange(0, i as int)),
        decreases n - i,
    {
        let c: char = src[i];
        if is_structural_exec(c) {
            out.push('\\');
        }
        out.push(c);
        proof {
            assert(src@.subrange(0, i + 1) =~= src@.subrange(0, i as int).push(c));
            lemma_escape_snoc(src@.subrange(0, i as int), c);
            assert(out@ =~= old(out)@ + spec_escape(src@.subrange(0, i + 1)));
        }
        i = i + 1;
    }
    proof {
        assert(src@.subrange(0, n as int) =~= src@);
    }
}

/// Escape `input` so that parsing the result yields exactly one `Text`
/// node whose content is `input`, removing all markup magic from it.
pub fn escape_for_text(input: &str) -> (r: String)
    ensures
        r@ == spec_escape(input@),
{
    let chars: Vec<char> = chars_of_str(input);
    let n: usize = chars.len();
    let mut out: Vec<char> = Vec::new();
    let mut i: usize = 0;
    while i < n
        invariant
            i <= n,
            n == chars@.len(),
            chars@ == input@,
            out@ =~= spec_escape(chars@.subrange(0, i as int)),
        decreases n - i,
    {
        let c: char = chars[i];
        if is_structural_exec(c) {
            out.push('\\');
        }
        out.push(c);
        proof {
            assert(chars@.subrange(0, i + 1) =~= chars@.subrange(0, i as int).push(c));
            lemma_escape_snoc(chars@.subrange(0, i as int), c);
            assert(out@ =~= spec_escape(chars@.subrange(0, i + 1)));
        }
        i = i + 1;
    }
    proof {
        assert(chars@.subrange(0, n as int) =~= chars@);
    }
    string_from_chars(&out)
}

// ---------------------------------------------------------------------------
// The escape round trip, proved
// ---------------------------------------------------------------------------
proof fn lemma_escape_len(t: Seq<char>)
    ensures
        t.len() <= spec_escape(t).len() <= 2 * t.len(),
    decreases t.len(),
{
    if t.len() > 0 {
        lemma_escape_len(t.drop_first());
    }
}

/// A text run at `i` over the escape of `t` scans to the end of the input
/// and denotes exactly `t`.
proof fn lemma_text_run_escaped(s: Seq<char>, i: int, t: Seq<char>)
    requires
        0 <= i <= s.len(),
        s.subrange(i, s.len() as int) == spec_escape(t),
    ensures
        spec_text_run(s, i) == (t, s.len() as int),
    decreases t.len(),
{
    let suffix = s.subrange(i, s.len() as int);
    if t.len() == 0 {
        assert(suffix.len() == 0);
        assert(i == s.len());
        assert(spec_text_run(s, i) == (Seq::<char>::empty(), i));
        assert(t =~= Seq::<char>::empty());
    } else {
        let c = t[0];
        let rest = t.drop_first();
        assert(suffix =~= spec_escape_char(c) + spec_escape(rest));
        lemma_escape_len(rest);
        if is_structural(c) {
            assert(suffix[0] == '\\');
            assert(suffix[1] == c);
            assert(s[i] == '\\');
            assert(s[i + 1] == c);
            assert(i + 1 < s.len());
            assert(spec_escape(rest).len() == suffix.len() - 2);
            assert forall|k: int| 0 <= k < spec_escape(rest).len() implies s.subrange(
                i + 2,
                s.len() as int,
            )[k] == spec_escape(rest)[k] by {
                assert(s.subrange(i + 2, s.len() as int)[k] == s[i + 2 + k]);
                assert(suffix[2 + k] == s[i + 2 + k]);
                assert(suffix[2 + k] == spec_escape(rest)[k]);
            }
            assert(s.subrange(i + 2, s.len() as int) =~= spec_escape(rest));
            lemma_text_run_escaped(s, i + 2, rest);
            assert(spec_text_run(s, i).0 =~= seq![c] + rest);
            assert(seq![c] + rest =~= t);
        } else {
            assert(suffix[0] == c);
            assert(s[i] == c);
            assert(c != '\\');
            assert(spec_escape(rest).len() == suffix.len() - 1);
            assert forall|k: int| 0 <= k < spec_escape(rest).len() implies s.subrange(
                i + 1,
                s.len() as int,
            )[k] == spec_escape(rest)[k] by {
                assert(s.subrange(i + 1, s.len() as int)[k] == s[i + 1 + k]);
                assert(suffix[1 + k] == s[i + 1 + k]);
                assert(suffix[1 + k] == spec_escape(rest)[k]);
            }
            assert(s.subrange(i + 1, s.len() as int) =~= spec_escape(rest));
            lemma_text_run_escaped(s, i + 1, rest);
            assert(spec_text_run(s, i).0 =~= seq![c] + rest);
            assert(seq![c] + rest =~= t);
        }
    }
}

/// Escape/unescape law: for any nonempty text, parsing its escape yields
/// exactly one `Text` node whose content is the original text.
pub proof fn lemma_parse_escape_round_trip(t: Seq<char>)
    requires
        t.len() > 0,
    ensures
        spec_parse(spec_escape(t)) == Some(seq![SpecNode::Text(t)]),
{
    let e = spec_escape(t);
    lemma_escape_len(t);
    assert(e.subrange(0, e.len() as int) =~= e);
    lemma_text_run_escaped(e, 0, t);
    let c0 = e[0];
    assert(c0 == spec_escape_char(t[0])[0]);
    if is_structural(t[0]) {
        assert(c0 == '\\');
    } else {
        assert(c0 == t[0]);
    }
    assert(!(c0 == '(' || c0 == '[' || c0 == '{' || c0 == '<' || c0 == ')' || c0 == ']' || c0
        == '}' || c0 == '>' || c0 == '|'));
    assert(spec_parse_node(e, 0) == Some((SpecNode::Text(t), e.len() as int)));
    assert(spec_parse_doc(e, e.len() as int) == (Seq::<SpecNode>::empty(), e.len() as int));
    assert(spec_parse_doc(e, 0).0 =~= seq![SpecNode::Text(t)]);
    assert(spec_parse_doc(e, 0).1 == e.len() as int);
    assert(spec_parse(e) == Some(seq![SpecNode::Text(t)]));
}

} // verus!
