//! The `mem` widget: the used and total memory as a text gauge whose cells
//! fill, from a cold color toward a hot one, with the usage.

use vstd::prelude::*;

use crate::color::{
    push_hex_color,
    spec_clamp_to_888,
    spec_from_display,
    spec_hex,
    spec_mix,
    spec_set_lightness,
    LinearColor,
};
use crate::document::{spec_widget_free, Node, SpecNode};
use crate::parser::{parse_color, push_escaped, spec_escape, spec_parse_color};
use crate::stats::Snapshot;
use crate::strutil::{
    push_dec_i64,
    push_pad_left,
    push_str_chars,
    spec_dec_i64,
    spec_pad_left,
    string_from_chars,
    subvec,
};
use crate::widgets::{error_node, node_from_markup, spec_error_node, spec_node_from_markup};

verus! {

/// Split a text in three at a character index: the characters before it,
/// the character at it, and the characters after it; the index saturates at
/// the end of the text.
pub open spec fn spec_zipper_split(s: Seq<char>, at: int) -> (Seq<char>, Seq<char>, Seq<char>) {
    let a = if at > s.len() {
        s.len() as int
    } else {
        at
    };
    let b = if a + 1 > s.len() {
        s.len() as int
    } else {
        a + 1
    };
    (s.subrange(0, a), s.subrange(a, b), s.subrange(b, s.len() as int))
}

/// How many bytes one character takes in the common eight-bit text
/// encoding.
pub open spec fn spec_utf8_len(c: char) -> int {
    if (c as u32) < 0x80 {
        1
    } else if (c as u32) < 0x800 {
        2
    } else if (c as u32) < 0x10000 {
        3
    } else {
        4
    }
}

/// The total encoded size of the first `k` characters (all of them when
/// `k` passes the end).
pub open spec fn spec_byte_index(s: Seq<char>, k: int) -> int
    decreases s.len(),
{
    if k <= 0 || s.len() == 0 {
        0
    } else {
        spec_utf8_len(s[0]) + spec_byte_index(s.drop_first(), k - 1)
    }
}

/// The byte index where the `nchar`th character of `s` starts, saturating
/// at the end of the text.  The index must fit the machine word, as any
/// index into an actual text does.
pub fn byte_index_from_char_index(s: &str, nchar: usize) -> (r: usize)
    requires
        spec_byte_index(s@, nchar as int) <= usize::MAX,
    ensures
        r as int == spec_byte_index(s@, nchar as int),
{
    let chars: Vec<char> = crate::strutil::chars_of_str(s);
    let n: usize = chars.len();
    let stop: usize = if nchar > n {
        n
    } else {
        nchar
    };
    let ghost whole = s@;
    let mut sum: usize = 0;
    let mut i: usize = 0;
    proof {
        assert(whole.subrange(0, n as int) =~= whole);
        lemma_byte_index_nonneg(whole, nchar as int);
    }
    while i < stop
        invariant
            i <= stop <= n,
            n == whole.len(),
            chars@ == whole,
            stop as int == (if nchar > n {
                n as int
            } else {
                nchar as int
            }),
            sum + spec_byte_index(whole.subrange(i as int, n as int), nchar - i)
                == spec_byte_index(whole, nchar as int),
            spec_byte_index(whole, nchar as int) <= usize::MAX,
            0 <= spec_byte_index(whole.subrange(i as int, n as int), nchar - i),
        decreases stop - i,
    {
        proof {
            assert(whole.subrange(i as int, n as int)[0] == whole[i as int]);
            assert(whole.subrange(i as int, n as int).drop_first() =~= whole.subrange(
                i + 1,
                n as int,
            ));
        }
        let c: char = chars[i];
        let u: u32 = c as u32;
        let w: usize = if u < 0x80 {
            1
        } else if u < 0x800 {
            2
        } else if u < 0x10000 {
            3
        } else {
            4
        };
        proof {
            lemma_byte_index_nonneg(whole.subrange(i + 1, n as int), nchar - i - 1);
        }
        sum = sum + w;
        i = i + 1;
    }
    proof {
        if stop < n {
            // nchar <= stop here, so the remaining count is zero
            assert(spec_byte_index(whole.subrange(stop as int, n as int), nchar - stop) == 0);
        } else {
            assert(whole.subrange(n as int, n as int).len() == 0);
        }
    }
    sum
}

proof fn lemma_byte_index_nonneg(s: Seq<char>, k: int)
    ensures
        spec_byte_index(s, k) >= 0,
    decreases s.len(),
{
    if !(k <= 0 || s.len() == 0) {
        lemma_byte_index_nonneg(s.drop_first(), k - 1);
    }
}

/// Split a text in two at a character index, saturating at the end.
pub fn split_at_char_index(s: &str, at: usize) -> (r: (String, String))
    ensures
        r.0@ == s@.subrange(
            0,
            if at > s@.len() {
                s@.len() as int
            } else {
                at as int
            },
        ),
        r.1@ == s@.subrange(
            if at > s@.len() {
                s@.len() as int
            } else {
                at as int
            },
            s@.len() as int,
        ),
{
    let chars: Vec<char> = crate::strutil::chars_of_str(s);
    let n: usize = chars.len();
    let a: usize = if at > n {
        n
    } else {
        at
    };
    let first: Vec<char> = subvec(&chars, 0, a);
    let rest: Vec<char> = subvec(&chars, a, n);
    (string_from_chars(&first), string_from_chars(&rest))
}

/// Split a text in three: the characters before `at`, the one at `at`, and
/// the rest.
pub fn zipper_split(s: &str, at: usize) -> (r: (String, String, String))
    ensures
        ({
            let (a, b, c) = spec_zipper_split(s@, at as int);
            r.0@ == a && r.1@ == b && r.2@ == c
        }),
{
    let chars: Vec<char> = crate::strutil::chars_of_str(s);
    let n: usize = chars.len();
    let a: usize = if at > n {
        n
    } else {
        at
    };
    let b: usize = if a >= n {
        n
    } else {
        a + 1
    };
    let first: Vec<char> = subvec(&chars, 0, a);
    let mid: Vec<char> = subvec(&chars, a, b);
    let last: Vec<char> = subvec(&chars, b, n);
    (string_from_chars(&first), string_from_chars(&mid), string_from_chars(&last))
}

/// The gauge text: the used MiB and the usage percentage, right-aligned.
pub open spec fn spec_usage_text(used: int, percent: int) -> Seq<char> {
    " "@ + spec_pad_left(spec_dec_i64(used), 4, ' ') + "M"@ + spec_pad_left(
        spec_dec_i64(percent),
        3,
        ' ',
    ) + "% "@
}

/// The markup the mem widget generates.  The usage fraction drives every
/// color: the empty shade, the filled shade (brightening with usage), the
/// text shade, and how many gauge cells are filled; the cell at the fill
/// boundary blends the two shades by the remainder.
pub open spec fn spec_markup(cold: LinearColor, hot: LinearColor, used: int, total: int) -> Seq<
    char,
> {
    let ok = total > 0 && used >= 0;
    let den = if ok {
        total
    } else {
        1
    };
    let num = if ok {
        if used > total {
            total
        } else {
            used
        }
    } else {
        0
    };
    let raw = if ok {
        used
    } else {
        0
    };
    let none_c = spec_mix(spec_set_lightness(cold, 150), spec_set_lightness(hot, 150), num, den);
    let full_light = 150 + 550 * num / den;
    let full_c = spec_mix(
        spec_set_lightness(cold, full_light),
        spec_set_lightness(hot, full_light),
        num,
        den,
    );
    let text_light = full_light + 150 + 100 * num / den;
    let text_c = spec_mix(
        spec_set_lightness(cold, text_light),
        spec_set_lightness(hot, text_light),
        num,
        den,
    );
    let percent = 100 * raw / den;
    let usage = spec_usage_text(used, percent);
    let width = usage.len() as int;
    let filled = raw * width / den;
    let pnum = raw * width % den;
    let partial_c = spec_mix(none_c, full_c, pnum, den);
    let (first, mid, last) = spec_zipper_split(usage, filled);
    "("@ + spec_hex(spec_clamp_to_888(text_c)) + ":"@ + "["@ + spec_hex(spec_clamp_to_888(full_c))
        + ":"@ + spec_escape(first) + "]"@ + "["@ + spec_hex(spec_clamp_to_888(partial_c)) + ":"@
        + spec_escape(mid) + "]"@ + "["@ + spec_hex(spec_clamp_to_888(none_c)) + ":"@
        + spec_escape(last) + "]"@ + ")"@
}

/// What the mem widget expands to.
pub open spec fn spec_expand(args: Seq<Seq<char>>, snap: Snapshot) -> SpecNode {
    if args.len() != 2 {
        spec_error_node("(ccdd44: mem) takes 2 arguments: color-cold\\|color-hot"@)
    } else {
        match (spec_parse_color(args[0]), spec_parse_color(args[1])) {
            (Some(d1), Some(d2)) => spec_node_from_markup(
                spec_markup(
                    spec_from_display(d1),
                    spec_from_display(d2),
                    snap.mem_used_mib as int,
                    snap.mem_total_mib as int,
                ),
            ),
            _ => spec_error_node(
                "malformed color literal: expected exactly 6 lowercase hex digits"@,
            ),
        }
    }
}

#[verifier::rlimit(80)]
fn mem_node(cold: LinearColor, hot: LinearColor, used: i64, total: i64) -> (r: Node)
    requires
        -0x8000_0000 <= used <= 0x7fff_ffff,
        -0x8000_0000 <= total <= 0x7fff_ffff,
    ensures
        r@ == spec_node_from_markup(spec_markup(cold, hot, used as int, total as int)),
        spec_widget_free(r@),
{
    let ok: bool = total > 0 && used >= 0;
    let den: i64 = if ok {
        total
    } else {
        1
    };
    let num: i64 = if ok {
        if used > total {
            total
        } else {
            used
        }
    } else {
        0
    };
    let raw: i64 = if ok {
        used
    } else {
        0
    };
    proof {
        vstd::arithmetic::div_mod::lemma_div_pos_is_pos(550 * num as int, den as int);
        vstd::arithmetic::div_mod::lemma_div_is_ordered(550 * num as int, 550 * den as int, den as int);
        vstd::arithmetic::div_mod::lemma_div_by_multiple(550, den as int);
        assert(550 * num as int <= 550 * den as int) by (nonlinear_arith)
            requires
                num <= den,
                0 <= num,
        ;
        assert(550 * den as int == den as int * 550) by (nonlinear_arith);
        vstd::arithmetic::div_mod::lemma_div_pos_is_pos(100 * num as int, den as int);
        vstd::arithmetic::div_mod::lemma_div_is_ordered(100 * num as int, 100 * den as int, den as int);
        vstd::arithmetic::div_mod::lemma_div_by_multiple(100, den as int);
        assert(100 * num as int <= 100 * den as int) by (nonlinear_arith)
            requires
                num <= den,
                0 <= num,
        ;
        assert(100 * den as int == den as int * 100) by (nonlinear_arith);
        vstd::arithmetic::div_mod::lemma_div_pos_is_pos(100 * raw as int, den as int);
    }
    let none_c = cold.set_lightness(150).mix(hot.set_lightness(150), num, den);
    let full_light: i64 = 150 + 550 * num / den;
    let full_c = cold.set_lightness(full_light).mix(hot.set_lightness(full_light), num, den);
    let text_light: i64 = full_light + 150 + 100 * num / den;
    let text_c = cold.set_lightness(text_light).mix(hot.set_lightness(text_light), num, den);
    let percent: i64 = 100 * raw / den;
    // the gauge text
    let mut usage: Vec<char> = Vec::new();
    push_str_chars(&mut usage, " ");
    let mut dtxt: Vec<char> = Vec::new();
    push_dec_i64(&mut dtxt, used);
    push_pad_left(&mut usage, &dtxt, 4, ' ');
    push_str_chars(&mut usage, "M");
    let mut ptxt: Vec<char> = Vec::new();
    push_dec_i64(&mut ptxt, percent);
    push_pad_left(&mut usage, &ptxt, 3, ' ');
    push_str_chars(&mut usage, "% ");
    proof {
        assert(usage@ =~= spec_usage_text(used as int, percent as int));
    }
    let width: usize = usage.len();
    proof {
        assert(0 <= raw as int * width as int) by (nonlinear_arith)
            requires
                0 <= raw,
                0 <= width,
        ;
        vstd::arithmetic::div_mod::lemma_div_pos_is_pos(raw as int * width as int, den as int);
        vstd::arithmetic::div_mod::lemma_mod_bound(raw as int * width as int, den as int);
        assert(raw as int * width as int <= 0x8000_0000int * 0x1_0000_0000_0000_0000int)
            by (nonlinear_arith)
            requires
                0 <= raw as int <= 0x8000_0000int,
                0 <= width as int <= 0x1_0000_0000_0000_0000int,
        ;
    }
    let wide: i128 = (raw as i128) * (width as i128);
    let filled128: i128 = wide / (den as i128);
    let pnum: i64 = (wide % (den as i128)) as i64;
    let ghost filled_spec: int = raw as int * width as int / den as int;
    proof {
        assert(filled128 == filled_spec);
    }
    let partial_c2 = none_c.mix(full_c, pnum, den);
    let a: usize = if filled128 >= (width as i128) {
        width
    } else {
        filled128 as usize
    };
    let b: usize = if a >= width {
        width
    } else {
        a + 1
    };
    let first: Vec<char> = subvec(&usage, 0, a);
    let mid: Vec<char> = subvec(&usage, a, b);
    let last: Vec<char> = subvec(&usage, b, width);
    let mut v: Vec<char> = Vec::new();
    push_str_chars(&mut v, "(");
    push_hex_color(&mut v, text_c.clamp_to_888());
    push_str_chars(&mut v, ":");
    push_str_chars(&mut v, "[");
    push_hex_color(&mut v, full_c.clamp_to_888());
    push_str_chars(&mut v, ":");
    push_escaped(&mut v, &first);
    push_str_chars(&mut v, "]");
    push_str_chars(&mut v, "[");
    push_hex_color(&mut v, partial_c2.clamp_to_888());
    push_str_chars(&mut v, ":");
    push_escaped(&mut v, &mid);
    push_str_chars(&mut v, "]");
    push_str_chars(&mut v, "[");
    push_hex_color(&mut v, none_c.clamp_to_888());
    push_str_chars(&mut v, ":");
    push_escaped(&mut v, &last);
    push_str_chars(&mut v, "]");
    push_str_chars(&mut v, ")");
    proof {
        assert(a as int == (if filled_spec > usage@.len() {
            usage@.len() as int
        } else {
            filled_spec
        }));
        assert(first@ == spec_zipper_split(usage@, filled_spec).0);
        assert(mid@ == spec_zipper_split(usage@, filled_spec).1);
        assert(last@ == spec_zipper_split(usage@, filled_spec).2);
        assert(v@ =~= spec_markup(cold, hot, used as int, total as int));
    }
    node_from_markup(string_from_chars(&v))
}

/// The mem widget takes a cold color and a hot color.
pub fn expand(args: &Vec<String>, snap: &Snapshot) -> (r: Node)
    ensures
        r@ == spec_expand(args.deep_view(), *snap),
        spec_widget_free(r@),
{
    if args.len() != 2 {
        error_node("(ccdd44: mem) takes 2 arguments: color-cold\\|color-hot")
    } else {
        proof {
            assert(args.deep_view()[0] == args@[0]@);
            assert(args.deep_view()[1] == args@[1]@);
        }
        let col1 = parse_color(args[0].as_str());
        let col2 = parse_color(args[1].as_str());
        match (col1, col2) {
            (Ok(d1), Ok(d2)) => mem_node(
                LinearColor::from(d1),
                LinearColor::from(d2),
                snap.mem_used_mib as i64,
                snap.mem_total_mib as i64,
            ),
            _ => error_node("malformed color literal: expected exactly 6 lowercase hex digits"),
        }
    }
}

} // verus!
