use fancy_status::document::doc_contains_widget;
use fancy_status::parser::parse;
use fancy_status::render_status;
use fancy_status::stats::{Snapshot, TimeParts};
use fancy_status::widgets;
use fancy_status::widgets::net::format_byte_size;
use fancy_status::widgets::time::stylised_weekday;
use fancy_status::widgets::mem::{byte_index_from_char_index, zipper_split};

fn snapshot() -> Snapshot {
    Snapshot {
        cpu_total_permille: 370,
        cpu_per_core_permille: vec![100, 800],
        mem_total_mib: 16000,
        mem_used_mib: 8000,
        net_down: 150000,
        net_up: 3000,
        time: TimeParts { year: 117, month: 4, mday: 9, wday: 2, hour: 13, min: 5, sec: 59 },
    }
}

#[test]
fn test_stylised_weekdays() {
    assert_eq!(stylised_weekday(0), '×');
    assert_eq!(stylised_weekday(1), '1');
    assert_eq!(stylised_weekday(2), '2');
    assert_eq!(stylised_weekday(3), '3');
    assert_eq!(stylised_weekday(4), '4');
    assert_eq!(stylised_weekday(5), '5');
    assert_eq!(stylised_weekday(6), '·');
}

/// Widget-free postcondition: after expansion no widget node remains, for
/// anything that parses.
#[test]
fn widget_free_after_expansion() {
    let sources = [
        "<time>",
        "<cpu|00ff88|ff3322>",
        "<mem|0000ff|ff0000>",
        "<net|0000ff|ff0000|10|1000>",
        "<gradient|5|ff0000|00ffff>",
        "<nosuchwidget>",
        "<cpu>",
        "mixed (112233: <time>) and [445566: <mem|bad|args|x>]",
    ];
    for s in sources {
        let doc = parse(s).unwrap();
        let expanded = widgets::expand(doc, &snapshot());
        assert!(!doc_contains_widget(&expanded));
    }
}

/// An unknown widget becomes a distinguishable, styled error node instead
/// of aborting the render.
#[test]
fn unknown_widget() {
    let out = render_status("<nosuchwidget>", "html", &snapshot()).unwrap();
    assert!(out.contains("ERROR"));
    assert!(out.contains("nosuchwidget"));
    // the surrounding document still renders
    let out2 = render_status("before <nosuchwidget> after", "html", &snapshot()).unwrap();
    assert!(out2.contains("before"));
    assert!(out2.contains("after"));
}

#[test]
fn time_widget_shows_the_snapshot() {
    let out = render_status("<time>", "dump", &snapshot()).unwrap();
    assert!(out.contains("2017-05-09"));
    assert!(out.contains("13:05:59"));
    assert!(out.contains('2'));
    let err = render_status("<time|arg>", "dump", &snapshot()).unwrap();
    assert!(err.contains("ERROR"));
}

#[test]
fn gradient_widget_cells() {
    let out = render_status("<gradient|3|ff0000|0000ff>", "dump", &snapshot()).unwrap();
    // three cells, each a background with an inner foreground block
    assert_eq!(out.matches('\u{2584}').count(), 3);
    // a too-small width is rejected in-band
    let err = render_status("<gradient|1|ff0000|0000ff>", "dump", &snapshot()).unwrap();
    assert!(err.contains("ERROR"));
    let err2 = render_status("<gradient|x|ff0000|0000ff>", "dump", &snapshot()).unwrap();
    assert!(err2.contains("ERROR"));
}

#[test]
fn cpu_widget_cells() {
    let out = render_status("<cpu|00ff88|ff3322>", "ansi", &snapshot()).unwrap();
    // one bar glyph per core in the snapshot, plus the total percentage
    assert!(out.contains("37%"));
    let explicit = render_status("<cpu|00ff88|ff3322|50|100>", "ansi", &snapshot()).unwrap();
    assert!(explicit.contains("75%"));
    let err = render_status("<cpu|00ff88>", "dump", &snapshot()).unwrap();
    assert!(err.contains("ERROR"));
}

#[test]
fn mem_widget_gauge() {
    let out = render_status("<mem|0000ff|ff0000>", "ansi", &snapshot()).unwrap();
    assert!(out.contains("8000"));
    assert!(out.contains("50%"));
    let err = render_status("<mem|0000ff>", "dump", &snapshot()).unwrap();
    assert!(err.contains("ERROR"));
}

#[test]
fn net_widget_speeds() {
    // snapshot speeds: 150000 B/s down shows as 146K, 3000 B/s up as 2.9K
    let out = render_status("<net|0000ff|ff0000|10|1000>", "ansi", &snapshot()).unwrap();
    assert!(out.contains("146K"));
    let err = render_status("<net|0000ff|ff0000|10|-3>", "dump", &snapshot()).unwrap();
    assert!(err.contains("ERROR"));
    assert!(err.contains("negative"));
    let err2 = render_status("<net|0000ff|ff0000|10>", "dump", &snapshot()).unwrap();
    assert!(err2.contains("ERROR"));
}

#[test]
fn byte_size_short_form() {
    assert_eq!(format_byte_size(0), "0B");
    assert_eq!(format_byte_size(10), "10B");
    assert_eq!(format_byte_size(999), "999B");
    assert_eq!(format_byte_size(1000), "0.9K");
    assert_eq!(format_byte_size(9216), "9.0K");
    assert_eq!(format_byte_size(10240), "10K");
    assert_eq!(format_byte_size(1048576), "1.0M");
    assert_eq!(format_byte_size(u64::MAX), "17179869183G");
}

#[test]
fn byte_indexing() {
    assert_eq!(byte_index_from_char_index("h\u{e9}llo", 2), 3);
    assert_eq!(byte_index_from_char_index("abc", 99), 3);
    assert_eq!(byte_index_from_char_index("", 1), 0);
}

#[test]
fn zipper_splitting() {
    let (first, elem, last) = zipper_split("hello world", 3);
    assert_eq!(first, "hel");
    assert_eq!(elem, "l");
    assert_eq!(last, "o world");
    let (a, b, c) = zipper_split("ab", 5);
    assert_eq!((a.as_str(), b.as_str(), c.as_str()), ("ab", "", ""));
}

#[test]
fn widget_registry() {
    let names: Vec<String> = widgets::list();
    assert_eq!(names, vec!["time", "gradient", "cpu", "mem", "net"]);
}
