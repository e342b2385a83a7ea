use fancy_status::color::{Color, LinearColor};
use fancy_status::document::{Document, Node};
use fancy_status::parser::{parse, parse_for_first_node};
use fancy_status::render_status;
use fancy_status::renderers;
use fancy_status::stats::{Snapshot, TimeParts};
use fancy_status::Error;

fn snapshot() -> Snapshot {
    Snapshot {
        cpu_total_permille: 370,
        cpu_per_core_permille: vec![100, 800],
        mem_total_mib: 16000,
        mem_used_mib: 8000,
        net_down: 150000,
        net_up: 3000,
        time: TimeParts { year: 117, month: 4, mday: 9, wday: 2, hour: 13, min: 5, sec: 59 },
    }
}

const TEST_SOURCE: &str =
    r"[ffffff:(000000: hello [cceeff: world(0000ff: yes) or {\[n\]o}] <time|hello|world> up)]";

#[test]
fn dump() {
    println!("{}", render_status(TEST_SOURCE, "dump", &snapshot()).unwrap());
}

#[test]
fn html() {
    println!("{}", render_status(TEST_SOURCE, "html", &snapshot()).unwrap());
}

#[test]
fn ansi() {
    println!("{}", render_status(TEST_SOURCE, "ansi", &snapshot()).unwrap());
}

#[test]
fn tmux_renders() {
    let out = render_status(TEST_SOURCE, "tmux", &snapshot()).unwrap();
    assert!(out.starts_with("#[default"));
    assert!(out.ends_with("#[default]"));
    println!("{}", out);
}

#[test]
fn renderer_not_found_error() {
    let r = render_status(TEST_SOURCE, "not exists", &snapshot());
    match r {
        Err(Error::RendererNotFound(name)) => assert_eq!(name, "not exists"),
        other => panic!("unexpected {:?}", other),
    }
    // the configuration error comes before any parsing work: it wins even
    // when the source does not parse either
    let r2 = render_status("unbalanced (", "not exists", &snapshot());
    match r2 {
        Err(Error::RendererNotFound(name)) => assert_eq!(name, "not exists"),
        other => panic!("unexpected {:?}", other),
    }
}

#[test]
fn parse_failed_error() {
    let r = render_status("unbalanced (", "html", &snapshot());
    match r {
        Err(Error::ParseFailed(msg)) => {
            assert_eq!(msg, "markup syntax error at character 11");
        },
        other => panic!("unexpected {:?}", other),
    }
}

#[test]
fn renderer_registry() {
    let names: Vec<String> = renderers::list();
    assert_eq!(names, vec!["dump", "html", "ansi", "tmux"]);
    assert!(renderers::make("dump").is_some());
    assert!(renderers::make("nope").is_none());
}

/// HTML escaping of text: angle brackets become entities and a space a
/// non-breaking space.
#[test]
fn html_escaping() {
    let doc = Document(vec![Node::Text("<a b>".to_string())]);
    let html = renderers::make("html").unwrap().render(&doc);
    assert_eq!(html, "&lt;a&nbsp;b&gt;");
}

/// The ANSI backend emits a true-color escape for the foreground and ends
/// with a full reset.
#[test]
fn ansi_hex_example() {
    let color = LinearColor::from(Color(255, 0, 0));
    let doc = Document(vec![Node::Foreground(color, Document(vec![Node::Text("x".to_string())]))]);
    let out = renderers::make("ansi").unwrap().render(&doc);
    assert!(out.contains("\x1b[38;2;255;0;0mx"));
    assert!(out.ends_with("\x1b[0m"));
    assert_eq!(out, "\x1b[0m\x1b[38;2;255;0;0mx\x1b[0m");
}

/// The end-to-end example: nested color wrappers survive the round trip
/// through linear colors exactly.
#[test]
fn end_to_end_html() {
    let out = render_status("hello [cceeff: world(0000ff: yes)]", "html", &snapshot()).unwrap();
    assert!(out.contains("hello"));
    assert!(out.contains("<span style=\"background-color: #cceeff\">"));
    assert!(out.contains("<span style=\"color: #0000ff\">yes</span>"));
    assert_eq!(
        out,
        "hello&nbsp;<span style=\"background-color: #cceeff\">world<span style=\"color: #0000ff\">yes</span></span>",
    );
}

fn expand_widget_stub(name: String) -> Node {
    parse_for_first_node(
        &format!("[ff0000: (ffffff: {{\\<Error: {} accepts no argument\\>}})]", name),
    ).unwrap()
}

fn expand_widgets_stub(doc: Document) -> Document {
    Document(
        doc.0.into_iter().map(
            |node| match node {
                Node::Text(_) => node,
                Node::Foreground(c, d) => Node::Foreground(c, expand_widgets_stub(d)),
                Node::Background(c, d) => Node::Background(c, expand_widgets_stub(d)),
                Node::Bold(d) => Node::Bold(expand_widgets_stub(d)),
                Node::Widget(name, _) => expand_widget_stub(name),
            },
        ).collect(),
    )
}

const STUB_SOURCE: &str = r"hello [cceeff: world(0000ff: yes) or {\[n\]o}] <date|hello|world> up";

#[test]
fn generate_html() {
    let doc = parse(STUB_SOURCE).unwrap();
    let doc = expand_widgets_stub(doc);
    let html = renderers::make("html").unwrap().render(&doc);
    let correct = r#"hello&nbsp;<span style="background-color: #cceeff">world<span style="color: #0000ff">yes</span>&nbsp;or&nbsp;<b>[n]o</b></span>&nbsp;<span style="background-color: #ff0000"><span style="color: #ffffff"><b>&lt;Error:&nbsp;date&nbsp;accepts&nbsp;no&nbsp;argument&gt;</b></span></span>&nbsp;up"#;
    assert_eq!(html, correct);
}

#[test]
fn dump_structure() {
    let doc = parse(r"(010203: a{b})").unwrap();
    let out = renderers::make("dump").unwrap().render(&doc);
    assert_eq!(out, "(010203):\n    \"a\"\n    {} \"b\"");
}
