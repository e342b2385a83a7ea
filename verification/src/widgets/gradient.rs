//! The `gradient` widget: a row of cells blending one color into another,
//! showing the perceptually corrected mix over the plain linear mix.

use vstd::prelude::*;

use crate::color::{
    spec_clamp_to_888,
    spec_from_display,
    spec_hex,
    spec_mix,
    spec_mix_fast,
    spec_set_lightness,
    push_hex_color,
    LinearColor,
};
use crate::document::{spec_widget_free, Node, SpecNode};
use crate::parser::{parse_color, spec_parse_color};
use crate::stats::Snapshot;
use crate::strutil::{
    contains_char,
    is_blank,
    parse_number,
    push_str_chars,
    spec_contains_char,
    spec_is_blank,
    spec_parse_number,
    spec_pow10,
    string_from_chars,
};
use crate::widgets::{error_node, node_from_markup, spec_error_node, spec_node_from_markup};

verus! {

/// The gradient width argument: exactly the decimal integers that fit a
/// 32-bit signed machine word.
pub open spec fn spec_width_arg(s: Seq<char>) -> Option<int> {
    match spec_parse_number(s) {
        Some((neg, m, f)) => {
            if !spec_contains_char(s, '.') && (if neg {
                m <= 2147483648
            } else {
                m <= 2147483647
            }) {
                Some(
                    if neg {
                        -m
                    } else {
                        m
                    },
                )
            } else {
                None
            }
        },
        None => None,
    }
}

fn width_arg(s: &str) -> (r: Option<i32>)
    ensures
        (r is Some) == (spec_width_arg(s@) is Some),
        r is Some ==> r->0 as int == spec_width_arg(s@)->0,
{
    match parse_number(s) {
        Some((neg, m, _f)) => {
            if contains_char(s, '.') {
                None
            } else if neg && m <= 2147483648 {
                proof {
                    assert(spec_width_arg(s@) is Some);
                }
                Some((-(m as i64)) as i32)
            } else if !neg && m <= 2147483647 {
                Some(m as i32)
            } else {
                None
            }
        },
        None => None,
    }
}

/// An optional lightness argument, in thousandths, clamped to `[0, 1000]`:
/// absent (missing or blank) is allowed, a malformed number is an error.
pub open spec fn spec_lightness_arg(args: Seq<Seq<char>>, i: int) -> Result<Option<int>, ()> {
    if args.len() <= i || spec_is_blank(args[i]) {
        Ok(None)
    } else {
        match spec_parse_number(args[i]) {
            None => Err(()),
            Some((neg, m, f)) => Ok(
                Some(
                    if neg {
                        0
                    } else if m * 1000 / spec_pow10(f) > 1000 {
                        1000
                    } else {
                        m * 1000 / spec_pow10(f)
                    },
                ),
            ),
        }
    }
}

fn lightness_arg(args: &Vec<String>, i: usize) -> (r: Result<Option<i64>, ()>)
    ensures
        (r is Ok) == (spec_lightness_arg(args.deep_view(), i as int) is Ok),
        r is Ok ==> (r->Ok_0 is Some) == (spec_lightness_arg(args.deep_view(), i as int)->Ok_0
            is Some),
        r is Ok && r->Ok_0 is Some ==> r->Ok_0->0 as int == spec_lightness_arg(
            args.deep_view(),
            i as int,
        )->Ok_0->0 && 0 <= r->Ok_0->0 <= 1000,
{
    proof {
        if i < args.len() {
            assert(args.deep_view()[i as int] == args@[i as int]@);
        }
    }
    if args.len() <= i || is_blank(args[i].as_str()) {
        Ok(None)
    } else {
        match parse_number(args[i].as_str()) {
            None => Err(()),
            Some((neg, m, f)) => {
                if neg {
                    Ok(Some(0))
                } else {
                    let scale: u64 = crate::strutil::pow10_of(f);
                    proof {
                        vstd::arithmetic::div_mod::lemma_div_pos_is_pos(
                            m as int * 1000,
                            scale as int,
                        );
                    }
                    let v: u128 = (m as u128) * 1000 / (scale as u128);
                    if v > 1000 {
                        Ok(Some(1000))
                    } else {
                        Ok(Some(v as i64))
                    }
                }
            },
        }
    }
}

/// One gradient cell: the perceptual mix as background, the fast linear mix
/// as an inner foreground block.
pub open spec fn spec_cell(c1: LinearColor, c2: LinearColor, x: int, den: int) -> Seq<char> {
    "["@ + spec_hex(spec_clamp_to_888(spec_mix(c1, c2, x, den))) + ": ("@ + spec_hex(
        spec_clamp_to_888(spec_mix_fast(c1, c2, x, den)),
    ) + ": \u{2584})]"@
}

/// The cells from `x` up to `width`.
pub open spec fn spec_cells(c1: LinearColor, c2: LinearColor, x: int, width: int) -> Seq<char>
    decreases width - x,
{
    if x >= width || width < 2 {
        Seq::empty()
    } else {
        spec_cell(c1, c2, x, width - 1) + spec_cells(c1, c2, x + 1, width)
    }
}

/// The markup the gradient widget generates.
pub open spec fn spec_markup(c1: LinearColor, c2: LinearColor, width: int) -> Seq<char> {
    "(000000: "@ + spec_cells(c1, c2, 0, width) + ")"@
}

/// What the gradient widget expands to.
pub open spec fn spec_expand(args: Seq<Seq<char>>, snap: Snapshot) -> SpecNode {
    if !(args.len() == 3 || (4 <= args.len() && args.len() <= 5)) {
        spec_error_node("(ccdd44: gradient) takes 3 arguments: width\\|color1\\|color2"@)
    } else {
        match spec_width_arg(args[0]) {
            None => spec_error_node("malformed number"@),
            Some(w) => {
                if w < 2 {
                    spec_error_node("(ccdd44: gradient width) must \\>= 2"@)
                } else {
                    match (spec_parse_color(args[1]), spec_parse_color(args[2])) {
                        (Some(d1), Some(d2)) => {
                            match (
                                spec_lightness_arg(args, 3),
                                spec_lightness_arg(args, 4),
                            ) {
                                (Ok(l1), Ok(l2)) => {
                                    let c1 = match l1 {
                                        Some(l) => spec_set_lightness(spec_from_display(d1), l),
                                        None => spec_from_display(d1),
                                    };
                                    let c2 = match l2 {
                                        Some(l) => spec_set_lightness(spec_from_display(d2), l),
                                        None => spec_from_display(d2),
                                    };
                                    spec_node_from_markup(spec_markup(c1, c2, w))
                                },
                                _ => spec_error_node("malformed number"@),
                            }
                        },
                        _ => spec_error_node(
                            "malformed color literal: expected exactly 6 lowercase hex digits"@,
                        ),
                    }
                }
            },
        }
    }
}

fn gradient_node(width: i32, color1: LinearColor, color2: LinearColor) -> (r: Node)
    requires
        width >= 2,
        color1.in_range(),
        color2.in_range(),
    ensures
        r@ == spec_node_from_markup(spec_markup(color1, color2, width as int)),
        spec_widget_free(r@),
{
    let mut v: Vec<char> = Vec::new();
    push_str_chars(&mut v, "(000000: ");
    let ghost before = v@;
    let mut x: i32 = 0;
    while x < width
        invariant
            0 <= x <= width,
            2 <= width,
            color1.in_range(),
            color2.in_range(),
            before + spec_cells(color1, color2, 0, width as int) =~= v@ + spec_cells(
                color1,
                color2,
                x as int,
                width as int,
            ),
        decreases width - x,
    {
        let mix1 = color1.mix(color2, x as i64, (width - 1) as i64);
        let mix2 = color1.clamp().mix_fast(color2.clamp(), x as i64, (width - 1) as i64);
        push_str_chars(&mut v, "[");
        push_hex_color(&mut v, mix1.clamp_to_888());
        push_str_chars(&mut v, ": (");
        push_hex_color(&mut v, mix2.clamp_to_888());
        push_str_chars(&mut v, ": \u{2584})]");
        proof {
            crate::color::lemma_clamp01_identity(color1);
            crate::color::lemma_clamp01_identity(color2);
            assert(before + spec_cells(color1, color2, 0, width as int) =~= v@ + spec_cells(
                color1,
                color2,
                x + 1,
                width as int,
            ));
        }
        x = x + 1;
    }
    push_str_chars(&mut v, ")");
    proof {
        assert(spec_cells(color1, color2, width as int, width as int) =~= Seq::<char>::empty());
        assert(v@ =~= spec_markup(color1, color2, width as int));
    }
    node_from_markup(string_from_chars(&v))
}

/// The gradient widget takes a width and two colors, with two optional
/// lightness overrides.
pub fn expand(args: &Vec<String>, snap: &Snapshot) -> (r: Node)
    ensures
        r@ == spec_expand(args.deep_view(), *snap),
        spec_widget_free(r@),
{
    let n: usize = args.len();
    if !(n == 3 || (4 <= n && n <= 5)) {
        error_node("(ccdd44: gradient) takes 3 arguments: width\\|color1\\|color2")
    } else {
        proof {
            assert(args.deep_view()[0] == args@[0]@);
            assert(args.deep_view()[1] == args@[1]@);
            assert(args.deep_view()[2] == args@[2]@);
        }
        match width_arg(args[0].as_str()) {
            None => error_node("malformed number"),
            Some(w) => {
                if w < 2 {
                    error_node("(ccdd44: gradient width) must \\>= 2")
                } else {
                    let col1 = parse_color(args[1].as_str());
                    let col2 = parse_color(args[2].as_str());
                    match (col1, col2) {
                        (Ok(d1), Ok(d2)) => {
                            let la = lightness_arg(args, 3);
                            let lb = lightness_arg(args, 4);
                            match (la, lb) {
                                (Ok(l1), Ok(l2)) => {
                                    let mut c1 = LinearColor::from(d1);
                                    let mut c2 = LinearColor::from(d2);
                                    if let Some(l) = l1 {
                                        c1 = c1.set_lightness(l);
                                    }
                                    if let Some(l) = l2 {
                                        c2 = c2.set_lightness(l);
                                    }
                                    proof {
                                        crate::color::lemma_from_display_range(d1);
                                        crate::color::lemma_from_display_range(d2);
                                    }
                                    gradient_node(w, c1, c2)
                                },
                                _ => error_node("malformed number"),
                            }
                        },
                        _ => error_node(
                            "malformed color literal: expected exactly 6 lowercase hex digits",
                        ),
                    }
                }
            },
        }
    }
}

} // verus!
