//! The `time` widget: the current date, a stylised weekday, and the time.

use vstd::prelude::*;

use crate::document::{spec_widget_free, Node, SpecNode};
use crate::stats::{Snapshot, TimeParts};
use crate::strutil::{push_pad_zero, push_str_chars, spec_pad_zero, string_from_chars};
use crate::widgets::{error_node, node_from_markup, spec_error_node, spec_node_from_markup};

verus! {

/// The stylised one-character form of a weekday: a multiplication sign for
/// Sunday, the digits 1 through 5 for the working days, and a middle dot
/// for Saturday.  Out-of-range values fall back to the Sunday sign.
pub open spec fn spec_weekday_char(w: int) -> char {
    if w == 1 {
        '1'
    } else if w == 2 {
        '2'
    } else if w == 3 {
        '3'
    } else if w == 4 {
        '4'
    } else if w == 5 {
        '5'
    } else if w == 6 {
        '\u{b7}'
    } else {
        '\u{d7}'
    }
}

fn weekday_char(w: i32) -> (r: char)
    ensures
        r == spec_weekday_char(w as int),
{
    if w == 1 {
        '1'
    } else if w == 2 {
        '2'
    } else if w == 3 {
        '3'
    } else if w == 4 {
        '4'
    } else if w == 5 {
        '5'
    } else if w == 6 {
        '\u{b7}'
    } else {
        '\u{d7}'
    }
}

/// The stylised one-character form of a weekday, 0 (Sunday) through 6.
pub fn stylised_weekday(weekday: i32) -> (r: char)
    requires
        0 <= weekday < 7,
    ensures
        r == spec_weekday_char(weekday as int),
{
    weekday_char(weekday)
}

/// The markup the time widget generates for a given instant.
pub open spec fn spec_markup(t: TimeParts) -> Seq<char> {
    "(000000:(88ff00:"@ + spec_pad_zero(t.year as int + 1900, 4) + "-"@ + spec_pad_zero(
        t.month as int + 1,
        2,
    ) + "-"@ + spec_pad_zero(t.mday as int, 2) + ")(ff8800:\u{2590})[ff8800:"@ + seq![
        spec_weekday_char(t.wday as int),
    ] + "](ff8800:\u{258c})(33ccff:"@ + spec_pad_zero(t.hour as int, 2) + ":"@ + spec_pad_zero(
        t.min as int,
        2,
    ) + ":"@ + spec_pad_zero(t.sec as int, 2) + ")"@
}

/// What the time widget expands to: its generated markup when called with
/// no argument, and an error node otherwise.
pub open spec fn spec_expand(args: Seq<Seq<char>>, snap: Snapshot) -> SpecNode {
    if args.len() == 0 {
        spec_node_from_markup(spec_markup(snap.time))
    } else {
        spec_error_node("(ccdd44: time) takes no argument"@)
    }
}

fn node_from_time(t: &TimeParts) -> (r: Node)
    ensures
        r@ == spec_node_from_markup(spec_markup(*t)),
        spec_widget_free(r@),
{
    let mut v: Vec<char> = Vec::new();
    push_str_chars(&mut v, "(000000:(88ff00:");
    push_pad_zero(&mut v, t.year as i64 + 1900, 4);
    push_str_chars(&mut v, "-");
    push_pad_zero(&mut v, t.month as i64 + 1, 2);
    push_str_chars(&mut v, "-");
    push_pad_zero(&mut v, t.mday as i64, 2);
    push_str_chars(&mut v, ")(ff8800:\u{2590})[ff8800:");
    v.push(weekday_char(t.wday));
    push_str_chars(&mut v, "](ff8800:\u{258c})(33ccff:");
    push_pad_zero(&mut v, t.hour as i64, 2);
    push_str_chars(&mut v, ":");
    push_pad_zero(&mut v, t.min as i64, 2);
    push_str_chars(&mut v, ":");
    push_pad_zero(&mut v, t.sec as i64, 2);
    push_str_chars(&mut v, ")");
    proof {
        assert(v@ =~= spec_markup(*t));
    }
    node_from_markup(string_from_chars(&v))
}

/// The time widget takes no argument and shows the snapshot's instant.
pub fn expand(args: &Vec<String>, snap: &Snapshot) -> (r: Node)
    ensures
        r@ == spec_expand(args.deep_view(), *snap),
        spec_widget_free(r@),
{
    if args.len() == 0 {
        node_from_time(&snap.time)
    } else {
        error_node("(ccdd44: time) takes no argument")
    }
}

} // verus!
