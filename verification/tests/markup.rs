use fancy_status::color::Color;
use fancy_status::document::Node;
use fancy_status::parser::{escape_for_text, parse, parse_color, parse_for_first_node};

#[test]
fn test() {
    println!("{:?}", parse("f{f1\\[  }234(123456: a<sd|h|>el\\)lo) \\("));
    println!("{:?}", parse("f{f1\\[\\}234(123456: a<sd|h|>el\\)lo) \\("));
}

#[test]
fn escape() {
    let escaped = escape_for_text("hello <([{\\|}])> world");
    let should_be = "hello \\<\\(\\[\\{\\\\\\|\\}\\]\\)\\> world";
    assert_eq!(escaped, should_be);
}

/// The escape/unescape law on concrete values: parsing an escaped text
/// yields exactly one text node holding the original.
#[test]
fn escape_round_trip() {
    for s in ["hello <([{\\|}])> world", "a|b", "plain", "\\", "()[]{}<>", "x > y"] {
        let doc = parse(&escape_for_text(s)).unwrap();
        assert_eq!(doc.0.len(), 1);
        match &doc.0[0] {
            Node::Text(t) => assert_eq!(t, s),
            other => panic!("expected a text node, got {:?}", other),
        }
    }
}

#[test]
fn parse_structure() {
    let doc = parse("ab(010203: cd)[fdfeff:{z}]<w|1|>").unwrap();
    assert_eq!(doc.0.len(), 4);
    match &doc.0[0] {
        Node::Text(t) => assert_eq!(t, "ab"),
        other => panic!("unexpected {:?}", other),
    }
    match &doc.0[1] {
        Node::Foreground(c, d) => {
            assert_eq!(c.clamp_to_888(), Color(1, 2, 3));
            assert_eq!(d.0.len(), 1);
            match &d.0[0] {
                Node::Text(t) => assert_eq!(t, "cd"),
                other => panic!("unexpected {:?}", other),
            }
        },
        other => panic!("unexpected {:?}", other),
    }
    match &doc.0[2] {
        Node::Background(c, d) => {
            assert_eq!(c.clamp_to_888(), Color(253, 254, 255));
            assert_eq!(d.0.len(), 1);
            assert!(matches!(&d.0[0], Node::Bold(_)));
        },
        other => panic!("unexpected {:?}", other),
    }
    match &doc.0[3] {
        Node::Widget(name, args) => {
            assert_eq!(name, "w");
            assert_eq!(args.len(), 2);
            assert_eq!(args[0], "1");
            assert_eq!(args[1], "");
        },
        other => panic!("unexpected {:?}", other),
    }
}

#[test]
fn parse_rejects_bad_markup() {
    assert!(parse("(123456: unterminated").is_err());
    assert!(parse("stray ) closer").is_err());
    assert!(parse("bad color (12345z: x)").is_err());
    assert!(parse("lonely backslash \\").is_err());
    assert!(parse("<widget never closed").is_err());
    assert!(parse("pipe | outside").is_err());
    // only structural characters and the space can be escaped
    assert!(parse("\\a").is_err());
    assert!(parse("\\ ").is_ok());
    assert_eq!(parse("no node here (").unwrap_err(), "markup syntax error at character 13");
}

#[test]
fn first_node_error_payloads() {
    assert_eq!(parse_for_first_node("").unwrap_err(), "not a single node");
    assert_eq!(
        parse_for_first_node("oops ]").unwrap_err(),
        "markup syntax error at character 5",
    );
}

#[test]
fn parse_color_literals() {
    assert_eq!(parse_color("000000").unwrap(), Color(0, 0, 0));
    assert_eq!(parse_color("01fe0a").unwrap(), Color(1, 254, 10));
    assert!(parse_color("01FE0A").is_err());
    assert!(parse_color("01fe0").is_err());
    assert!(parse_color("01fe0aa").is_err());
}

#[test]
fn first_node_entry_point() {
    match parse_for_first_node("one(112233: two)").unwrap() {
        Node::Text(t) => assert_eq!(t, "one"),
        other => panic!("unexpected {:?}", other),
    }
    assert!(parse_for_first_node("").is_err());
    assert!(parse_for_first_node("}").is_err());
}

#[test]
fn whitespace_after_colon_is_skipped() {
    let doc = parse("(123456:   x)").unwrap();
    match &doc.0[0] {
        Node::Foreground(_, d) => match &d.0[0] {
            Node::Text(t) => assert_eq!(t, "x"),
            other => panic!("unexpected {:?}", other),
        },
        other => panic!("unexpected {:?}", other),
    }
    // an escaped space survives
    let doc2 = parse("(123456: \\ x)").unwrap();
    match &doc2.0[0] {
        Node::Foreground(_, d) => match &d.0[0] {
            Node::Text(t) => assert_eq!(t, " x"),
            other => panic!("unexpected {:?}", other),
        },
        other => panic!("unexpected {:?}", other),
    }
}
