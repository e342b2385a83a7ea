//! The `net` widget: upload and download rates as two bar glyphs (the
//! download bar drawn upside down) and the faster rate as short text, all
//! colored from a cold color toward a hot one within a configured range.

use vstd::prelude::*;

use crate::color::{
    push_hex_color,
    spec_clamp_to_888,
    spec_from_display,
    spec_hex,
    spec_mix,
    spec_set_lightness,
    Color,
    LinearColor,
};
use crate::document::{spec_widget_free, Node, SpecNode};
use crate::parser::{parse_color, push_escaped, spec_escape, spec_parse_color};
use crate::stats::Snapshot;
use crate::strutil::{
    is_blank,
    parse_number,
    pow10_of,
    push_dec_u64,
    push_pad_left,
    push_str_chars,
    spec_dec,
    spec_dec_digit,
    spec_is_blank,
    spec_pad_left,
    spec_parse_number,
    spec_pow10,
    string_from_chars,
};
use crate::widgets::cpu::{bar_char, clamp_pm, spec_bar_char, spec_clamp_pm};
use crate::widgets::{error_node, node_from_markup, spec_error_node, spec_node_from_markup};

verus! {

/// Stands in for an unboundedly large ratio: beyond any value a finite
/// range can produce.
pub open spec fn spec_ratio_inf() -> int {
    1_000_000_000_000_000_000_000_000
}

/// `a / b` rounded toward minus infinity, for a positive `b`.
pub open spec fn spec_fdiv(a: int, b: int) -> int {
    if a >= 0 {
        a / b
    } else {
        -(((-a) + b - 1) / b)
    }
}

/// How far `x` sits between `lo` and `hi`, in thousandths, unclamped.  An
/// empty range puts everything above it at an unboundedly large ratio,
/// everything below at an unboundedly small one, and its own point at zero.
pub open spec fn spec_ratio(x: int, lo: int, hi: int) -> int {
    if hi == lo {
        if x > lo {
            spec_ratio_inf()
        } else if x < lo {
            -spec_ratio_inf()
        } else {
            0
        }
    } else if hi > lo {
        spec_fdiv(1000 * (x - lo), hi - lo)
    } else {
        spec_fdiv(1000 * (lo - x), lo - hi)
    }
}

fn fdiv128(a: i128, b: i128) -> (r: i128)
    requires
        1 <= b <= 0x1000_0000_0000_0000_0000_0000_0000,
        -0x1000_0000_0000_0000_0000_0000_0000 <= a <= 0x1000_0000_0000_0000_0000_0000_0000,
    ensures
        r == spec_fdiv(a as int, b as int),
{
    proof {
        if a >= 0 {
            vstd::arithmetic::div_mod::lemma_div_pos_is_pos(a as int, b as int);
            vstd::arithmetic::div_mod::lemma_div_is_ordered_by_denominator(a as int, 1, b as int);
        } else {
            vstd::arithmetic::div_mod::lemma_div_pos_is_pos((-a) + b - 1, b as int);
            vstd::arithmetic::div_mod::lemma_div_is_ordered_by_denominator(
                (-a) + b - 1,
                1,
                b as int,
            );
        }
    }
    if a >= 0 {
        a / b
    } else {
        -(((-a) + b - 1) / b)
    }
}

fn ratio(x: u64, lo: u64, hi: u64) -> (r: i128)
    ensures
        r == spec_ratio(x as int, lo as int, hi as int),
{
    if hi == lo {
        if x > lo {
            1_000_000_000_000_000_000_000_000
        } else if x < lo {
            -1_000_000_000_000_000_000_000_000
        } else {
            0
        }
    } else if hi > lo {
        fdiv128(1000 * ((x as i128) - (lo as i128)), (hi as i128) - (lo as i128))
    } else {
        fdiv128(1000 * ((lo as i128) - (x as i128)), (lo as i128) - (hi as i128))
    }
}

/// A raw ratio clamped to the nominal thousandths range.
pub open spec fn spec_clamp_ratio(r: int) -> int {
    if r < 0 {
        0
    } else if r > 1000 {
        1000
    } else {
        r
    }
}

fn clamp_ratio(r: i128) -> (c: i64)
    ensures
        c == spec_clamp_ratio(r as int),
        0 <= c <= 1000,
{
    if r < 0 {
        0
    } else if r > 1000 {
        1000
    } else {
        r as i64
    }
}

/// The dim shade used when a direction is idle.
pub open spec fn spec_idle_for(cold: LinearColor, hot: LinearColor, r: int, boost: int) -> Color {
    spec_clamp_to_888(
        spec_mix(spec_set_lightness(cold, 200 + boost), spec_set_lightness(hot, 200 + boost), r, 1000),
    )
}

/// The glyph color for one direction: the idle shade at zero, else a blend
/// from cold to hot with the (clamped) ratio.
pub open spec fn spec_fg_for(cold: LinearColor, hot: LinearColor, r: int, boost: int) -> Color {
    if r == 0 {
        spec_idle_for(cold, hot, r, boost)
    } else {
        spec_clamp_to_888(
            spec_mix(
                spec_set_lightness(cold, 400 + boost),
                spec_set_lightness(hot, 400 + boost),
                r,
                1000,
            ),
        )
    }
}

fn fg_for(cold: LinearColor, hot: LinearColor, r: i64, boost: i64) -> (c: Color)
    requires
        0 <= r <= 1000,
        0 <= boost <= 300,
    ensures
        c == spec_fg_for(cold, hot, r as int, boost as int),
{
    if r == 0 {
        cold.set_lightness(200 + boost).mix(hot.set_lightness(200 + boost), r, 1000).clamp_to_888()
    } else {
        cold.set_lightness(400 + boost).mix(hot.set_lightness(400 + boost), r, 1000).clamp_to_888()
    }
}

/// The bar glyph for a (clamped) ratio, flipped when drawn upside down.
pub open spec fn spec_indicator_for(r: int, reverse: bool) -> char {
    let i0 = 7 * r / 1000;
    let i1 = if reverse {
        6 - i0
    } else {
        i0
    };
    spec_bar_char(
        if i1 > 6 {
            6
        } else {
            i1
        },
    )
}

fn indicator_for(r: i64, reverse: bool) -> (c: char)
    requires
        0 <= r <= 1000,
    ensures
        c == spec_indicator_for(r as int, reverse),
{
    proof {
        vstd::arithmetic::div_mod::lemma_div_pos_is_pos(7 * r as int, 1000);
    }
    let i0: i64 = 7 * r / 1000;
    let i1: i64 = if reverse {
        6 - i0
    } else {
        i0
    };
    bar_char(
        if i1 > 6 {
            6
        } else {
            i1
        },
    )
}

/// One styled bar: the shared background and the direction's glyph, with
/// the two colors swapped when the bar is drawn upside down.
pub open spec fn spec_styled_indicator(
    cold: LinearColor,
    hot: LinearColor,
    bg: Color,
    r: int,
    boost: int,
    upside_down: bool,
) -> Seq<char> {
    let f0 = spec_fg_for(cold, hot, r, boost);
    let fs = if upside_down {
        bg
    } else {
        f0
    };
    let bs = if upside_down {
        f0
    } else {
        bg
    };
    "["@ + spec_hex(bs) + ":("@ + spec_hex(fs) + ":"@ + seq![spec_indicator_for(r, upside_down)]
        + ")]"@
}

/// How many powers of 1024 the size is scaled down by, so that it shows at
/// most four digits, capped at the third power.
pub open spec fn spec_size_scale(size: int) -> int {
    if size * 10 <= 9999 {
        0
    } else if size * 10 <= 9999 * 1024 {
        1
    } else if size * 10 <= 9999 * 1024 * 1024 {
        2
    } else {
        3
    }
}

/// 1024 to the `k`th power, for small `k`.
pub open spec fn spec_pow1024(k: int) -> int {
    if k <= 0 {
        1
    } else if k == 1 {
        1024
    } else if k == 2 {
        1048576
    } else {
        1073741824
    }
}

/// The unit letter for each scale step.
pub open spec fn spec_size_unit(k: int) -> char {
    if k <= 0 {
        'B'
    } else if k == 1 {
        'K'
    } else if k == 2 {
        'M'
    } else {
        'G'
    }
}

/// A byte size in short, human-readable form: scaled to at most four
/// digits, with one decimal place while the scaled value is under ten.
/// Shortness matters most here, so there are no spaces and the largest
/// unit is `G`.
pub open spec fn spec_format_byte_size(size: int) -> Seq<char> {
    let k = spec_size_scale(size);
    let t = size * 10 / spec_pow1024(k);
    if k == 0 {
        spec_dec(size) + "B"@
    } else if t < 100 {
        spec_dec(t / 10) + "."@ + seq![spec_dec_digit(t % 10)] + seq![spec_size_unit(k)]
    } else {
        spec_dec(size / spec_pow1024(k)) + seq![spec_size_unit(k)]
    }
}

/// Format a byte size in short, human-readable form.
pub fn format_byte_size(size: u64) -> (r: String)
    ensures
        r@ == spec_format_byte_size(size as int),
{
    let mut v: Vec<char> = Vec::new();
    let (t128, k): (u128, usize) = find_byte_size_unit(size);
    proof {
        vstd::arithmetic::div_mod::lemma_div_pos_is_pos(size as int * 10, spec_pow1024(k as int));
    }
    if k == 0 {
        push_dec_u64(&mut v, size);
        push_str_chars(&mut v, "B");
        proof {
            assert(v@ =~= spec_format_byte_size(size as int));
        }
    } else if t128 < 100 {
        let t: u64 = t128 as u64;
        push_dec_u64(&mut v, t / 10);
        push_str_chars(&mut v, ".");
        proof {
            vstd::arithmetic::div_mod::lemma_mod_bound(t as int, 10);
        }
        v.push(crate::strutil::dec_digit(t % 10));
        v.push(size_unit(k));
        proof {
            assert(v@ =~= spec_format_byte_size(size as int));
        }
    } else {
        let p: u64 = pow1024(k);
        proof {
            vstd::arithmetic::div_mod::lemma_div_pos_is_pos(size as int, p as int);
            vstd::arithmetic::div_mod::lemma_div_is_ordered_by_denominator(
                size as int,
                1,
                p as int,
            );
            // dividing the tenths by ten gives the whole part
            vstd::arithmetic::div_mod::lemma_div_denominator(size as int * 10, p as int, 10);
            vstd::arithmetic::div_mod::lemma_div_denominator(size as int * 10, 10, p as int);
            assert(p as int * 10 == 10 * p as int) by (nonlinear_arith);
            assert(size as int * 10 == 10 * size as int) by (nonlinear_arith);
            vstd::arithmetic::div_mod::lemma_div_multiples_vanish(size as int, 10);
        }
        let whole: u64 = (t128 / 10) as u64;
        push_dec_u64(&mut v, whole);
        v.push(size_unit(k));
        proof {
            assert(v@ =~= spec_format_byte_size(size as int));
        }
    }
    string_from_chars(&v)
}

fn size_unit(k: usize) -> (c: char)
    ensures
        c == spec_size_unit(k as int),
{
    if k == 0 {
        'B'
    } else if k == 1 {
        'K'
    } else if k == 2 {
        'M'
    } else {
        'G'
    }
}

fn pow1024(k: usize) -> (r: u64)
    ensures
        r as int == spec_pow1024(k as int),
        1 <= r,
{
    if k == 0 {
        1
    } else if k == 1 {
        1024
    } else if k == 2 {
        1024 * 1024
    } else {
        1024 * 1024 * 1024
    }
}

/// Find the unit scale for a byte size, handing back the size in tenths at
/// that scale.
fn find_byte_size_unit(size: u64) -> (r: (u128, usize))
    ensures
        r.1 as int == spec_size_scale(size as int),
        r.0 as int == size as int * 10 / spec_pow1024(r.1 as int),
{
    let wide: u128 = (size as u128) * 10;
    let k: usize = if wide <= 9999 {
        0
    } else if wide <= 9999 * 1024 {
        1
    } else if wide <= 9999 * 1024 * 1024 {
        2
    } else {
        3
    };
    let p: u64 = pow1024(k);
    proof {
        vstd::arithmetic::div_mod::lemma_div_pos_is_pos(wide as int, p as int);
    }
    (wide / (p as u128), k)
}

/// One parsed speed argument.
#[derive(Debug, Clone, Copy, PartialEq, Eq, Structural)]
pub enum SpeedArg {
    /// Missing or blank: the caller's default applies.
    Absent,
    /// Not a number.
    Malformed,
    /// A negative number: speeds cannot be negative.
    Negative,
    /// A speed, converted from KiB to bytes, saturating at the machine
    /// bound.
    Present(u64),
}

/// The speed argument at position `i`, in bytes per second.
pub open spec fn spec_speed_arg(args: Seq<Seq<char>>, i: int) -> SpeedArg {
    if args.len() <= i || spec_is_blank(args[i]) {
        SpeedArg::Absent
    } else {
        match spec_parse_number(args[i]) {
            None => SpeedArg::Malformed,
            Some((neg, m, f)) => {
                if neg {
                    SpeedArg::Negative
                } else {
                    SpeedArg::Present(
                        if m * 1024 / spec_pow10(f) > 0xffff_ffff_ffff_ffff {
                            0xffff_ffff_ffff_ffffu64
                        } else {
                            (m * 1024 / spec_pow10(f)) as u64
                        },
                    )
                }
            },
        }
    }
}

fn speed_arg(args: &Vec<String>, i: usize) -> (r: SpeedArg)
    ensures
        r == spec_speed_arg(args.deep_view(), i as int),
{
    proof {
        if i < args.len() {
            assert(args.deep_view()[i as int] == args@[i as int]@);
        }
    }
    if args.len() <= i || is_blank(args[i].as_str()) {
        SpeedArg::Absent
    } else {
        match parse_number(args[i].as_str()) {
            None => SpeedArg::Malformed,
            Some((neg, m, f)) => {
                if neg {
                    SpeedArg::Negative
                } else {
                    let scale: u64 = pow10_of(f);
                    proof {
                        vstd::arithmetic::div_mod::lemma_div_pos_is_pos(
                            m as int * 1024,
                            scale as int,
                        );
                    }
                    let wide: u128 = (m as u128) * 1024 / (scale as u128);
                    if wide > 0xffff_ffff_ffff_ffff {
                        SpeedArg::Present(0xffff_ffff_ffff_ffff)
                    } else {
                        SpeedArg::Present(wide as u64)
                    }
                }
            },
        }
    }
}

/// The markup the net widget generates.
pub open spec fn spec_markup(
    cold: LinearColor,
    hot: LinearColor,
    lo_d: int,
    hi_d: int,
    lo_u: int,
    hi_u: int,
    sd: int,
    su: int,
) -> Seq<char> {
    let rd_raw = spec_ratio(sd, lo_d, hi_d);
    let ru_raw = spec_ratio(su, lo_u, hi_u);
    let fast = if sd == 0 && su == 0 {
        (0, 0, 0, 0, 0)
    } else if ru_raw == rd_raw {
        (sd, rd_raw, 300, 300, 0)
    } else if ru_raw > rd_raw {
        (su, ru_raw, 300, 0, 300)
    } else {
        (sd, rd_raw, 300, 300, 0)
    };
    let fast_speed = fast.0;
    let fast_ratio = spec_clamp_ratio(fast.1);
    let fast_boost = fast.2;
    let boost_down = fast.3;
    let boost_up = fast.4;
    let rd = spec_clamp_ratio(rd_raw);
    let ru = spec_clamp_ratio(ru_raw);
    let bg = spec_clamp_to_888(
        spec_mix(spec_set_lightness(cold, 150), spec_set_lightness(hot, 150), fast_ratio, 1000),
    );
    let ind_up = spec_styled_indicator(cold, hot, bg, ru, boost_up, false);
    let ind_down = spec_styled_indicator(cold, hot, bg, rd, boost_down, true);
    let fast_text = "("@ + spec_hex(spec_fg_for(cold, hot, fast_ratio, fast_boost)) + ":"@
        + spec_escape(spec_pad_left(spec_format_byte_size(fast_speed), 5, ' ')) + ")"@;
    "["@ + spec_hex(bg) + ": \\ "@ + ind_up + ind_down + fast_text + " ]"@
}

#[verifier::rlimit(80)]
fn net_node(
    cold: LinearColor,
    hot: LinearColor,
    lo_d: u64,
    hi_d: u64,
    lo_u: u64,
    hi_u: u64,
    sd: u64,
    su: u64,
) -> (r: Node)
    ensures
        r@ == spec_node_from_markup(
            spec_markup(
                cold,
                hot,
                lo_d as int,
                hi_d as int,
                lo_u as int,
                hi_u as int,
                sd as int,
                su as int,
            ),
        ),
        spec_widget_free(r@),
{
    let rd_raw: i128 = ratio(sd, lo_d, hi_d);
    let ru_raw: i128 = ratio(su, lo_u, hi_u);
    let (fast_speed, fast_ratio_raw, fast_boost, boost_down, boost_up): (
        u64,
        i128,
        i64,
        i64,
        i64,
    ) = if sd == 0 && su == 0 {
        (0, 0, 0, 0, 0)
    } else if ru_raw == rd_raw {
        (sd, rd_raw, 300, 300, 0)
    } else if ru_raw > rd_raw {
        (su, ru_raw, 300, 0, 300)
    } else {
        (sd, rd_raw, 300, 300, 0)
    };
    let fast_ratio: i64 = clamp_ratio(fast_ratio_raw);
    let rd: i64 = clamp_ratio(rd_raw);
    let ru: i64 = clamp_ratio(ru_raw);
    let bg: Color = cold.set_lightness(150).mix(hot.set_lightness(150), fast_ratio, 1000)
        .clamp_to_888();
    let mut v: Vec<char> = Vec::new();
    push_str_chars(&mut v, "[");
    push_hex_color(&mut v, bg);
    push_str_chars(&mut v, ": \\ ");
    // the upload bar
    push_styled_indicator(&mut v, cold, hot, bg, ru, boost_up, false);
    // the download bar, upside down
    push_styled_indicator(&mut v, cold, hot, bg, rd, boost_down, true);
    // the faster speed as text
    push_str_chars(&mut v, "(");
    push_hex_color(&mut v, fg_for(cold, hot, fast_ratio, fast_boost));
    push_str_chars(&mut v, ":");
    let text: String = format_byte_size(fast_speed);
    let tchars: Vec<char> = crate::strutil::chars_of_str(text.as_str());
    let mut padded: Vec<char> = Vec::new();
    push_pad_left(&mut padded, &tchars, 5, ' ');
    push_escaped(&mut v, &padded);
    push_str_chars(&mut v, ")");
    push_str_chars(&mut v, " ]");
    proof {
        assert(v@ =~= spec_markup(
            cold,
            hot,
            lo_d as int,
            hi_d as int,
            lo_u as int,
            hi_u as int,
            sd as int,
            su as int,
        ));
    }
    node_from_markup(string_from_chars(&v))
}

fn push_styled_indicator(
    out: &mut Vec<char>,
    cold: LinearColor,
    hot: LinearColor,
    bg: Color,
    r: i64,
    boost: i64,
    upside_down: bool,
)
    requires
        0 <= r <= 1000,
        0 <= boost <= 300,
    ensures
        final(out)@ == old(out)@ + spec_styled_indicator(
            cold,
            hot,
            bg,
            r as int,
            boost as int,
            upside_down,
        ),
{
    let f0: Color = fg_for(cold, hot, r, boost);
    let fs: Color = if upside_down {
        bg
    } else {
        f0
    };
    let bs: Color = if upside_down {
        f0
    } else {
        bg
    };
    push_str_chars(out, "[");
    push_hex_color(out, bs);
    push_str_chars(out, ":(");
    push_hex_color(out, fs);
    push_str_chars(out, ":");
    out.push(indicator_for(r, upside_down));
    push_str_chars(out, ")]");
    proof {
        assert(out@ =~= old(out)@ + spec_styled_indicator(
            cold,
            hot,
            bg,
            r as int,
            boost as int,
            upside_down,
        ));
    }
}

/// What the net widget expands to: colors, a download range, an optional
/// upload range, and (for inspection) optional speed overrides.
pub open spec fn spec_expand(args: Seq<Seq<char>>, snap: Snapshot) -> SpecNode {
    if !(args.len() == 4 || args.len() == 6 || args.len() == 8) {
        spec_error_node(
        "(ccdd44: net) takes 4 or 6 arguments \\(speed in KiB\\): color-cold\\|color-hot\\|lo-speed\\|hi-speed{\\|lo-speed-upload\\|hi-speed-upload}"@,
        )
    } else {
        match (spec_parse_color(args[0]), spec_parse_color(args[1])) {
            (Some(d1), Some(d2)) => {
                let cold = spec_from_display(d1);
                let hot = spec_from_display(d2);
                spec_with_speeds(cold, hot, args, snap)
            },
            _ => spec_error_node(
                "malformed color literal: expected exactly 6 lowercase hex digits"@,
            ),
        }
    }
}

/// The error node for a negative speed argument.
pub open spec fn spec_negative_speed_error(arg: Seq<char>) -> SpecNode {
    spec_error_node("speed cannot be a negative number, but got "@ + spec_escape(arg))
}

/// Resolve the six speed parameters in argument order, stopping at the
/// first bad one.
pub open spec fn spec_with_speeds(
    cold: LinearColor,
    hot: LinearColor,
    args: Seq<Seq<char>>,
    snap: Snapshot,
) -> SpecNode {
    let a2 = spec_speed_arg(args, 2);
    let a3 = spec_speed_arg(args, 3);
    let a4 = spec_speed_arg(args, 4);
    let a5 = spec_speed_arg(args, 5);
    let a6 = spec_speed_arg(args, 6);
    let a7 = spec_speed_arg(args, 7);
    match a2 {
        SpeedArg::Malformed => spec_error_node("malformed number"@),
        SpeedArg::Negative => spec_negative_speed_error(args[2]),
        SpeedArg::Absent => spec_error_node("malformed number"@),
        SpeedArg::Present(lo_d) => match a3 {
            SpeedArg::Malformed => spec_error_node("malformed number"@),
            SpeedArg::Negative => spec_negative_speed_error(args[3]),
            SpeedArg::Absent => spec_error_node("malformed number"@),
            SpeedArg::Present(hi_d) => match a4 {
                SpeedArg::Malformed => spec_error_node("malformed number"@),
                SpeedArg::Negative => spec_negative_speed_error(args[4]),
                _ => {
                    let lo_u = match a4 {
                        SpeedArg::Present(x) => x,
                        _ => lo_d,
                    };
                    match a5 {
                        SpeedArg::Malformed => spec_error_node("malformed number"@),
                        SpeedArg::Negative => spec_negative_speed_error(args[5]),
                        _ => {
                            let hi_u = match a5 {
                                SpeedArg::Present(x) => x,
                                _ => hi_d,
                            };
                            match a6 {
                                SpeedArg::Malformed => spec_error_node("malformed number"@),
                                SpeedArg::Negative => spec_negative_speed_error(args[6]),
                                _ => {
                                    let sd = match a6 {
                                        SpeedArg::Present(x) => x,
                                        _ => snap.net_down,
                                    };
                                    match a7 {
                                        SpeedArg::Malformed => spec_error_node(
                                            "malformed number"@,
                                        ),
                                        SpeedArg::Negative => spec_negative_speed_error(args[7]),
                                        _ => {
                                            let su = match a7 {
                                                SpeedArg::Present(x) => x,
                                                _ => snap.net_up,
                                            };
                                            spec_node_from_markup(
                                                spec_markup(
                                                    cold,
                                                    hot,
                                                    lo_d as int,
                                                    hi_d as int,
                                                    lo_u as int,
                                                    hi_u as int,
                                                    sd as int,
                                                    su as int,
                                                ),
                                            )
                                        },
                                    }
                                },
                            }
                        },
                    }
                },
            },
        },
    }
}

fn negative_speed_error(arg: &str) -> (r: Node)
    ensures
        r@ == spec_negative_speed_error(arg@),
        spec_widget_free(r@),
{
    let mut v: Vec<char> = Vec::new();
    push_str_chars(&mut v, "speed cannot be a negative number, but got ");
    let achars: Vec<char> = crate::strutil::chars_of_str(arg);
    push_escaped(&mut v, &achars);
    let msg: String = string_from_chars(&v);
    proof {
        assert(msg@ =~= "speed cannot be a negative number, but got "@ + spec_escape(arg@));
    }
    error_node(msg.as_str())
}

/// The net widget takes a cold color, a hot color, and a speed range for
/// each direction.
#[verifier::rlimit(80)]
pub fn expand(args: &Vec<String>, snap: &Snapshot) -> (r: Node)
    ensures
        r@ == spec_expand(args.deep_view(), *snap),
        spec_widget_free(r@),
{
    let n: usize = args.len();
    if !(n == 4 || n == 6 || n == 8) {
        error_node(
            "(ccdd44: net) takes 4 or 6 arguments \\(speed in KiB\\): color-cold\\|color-hot\\|lo-speed\\|hi-speed{\\|lo-speed-upload\\|hi-speed-upload}",
        )
    } else {
        proof {
            assert(args.deep_view()[0] == args@[0]@);
            assert(args.deep_view()[1] == args@[1]@);
        }
        let col1 = parse_color(args[0].as_str());
        let col2 = parse_color(args[1].as_str());
        match (col1, col2) {
            (Ok(d1), Ok(d2)) => {
                let cold = LinearColor::from(d1);
                let hot = LinearColor::from(d2);
                proof {
                    assert(args.deep_view()[2] == args@[2]@);
                    assert(args.deep_view()[3] == args@[3]@);
                    if 4 < args.len() {
                        assert(args.deep_view()[4] == args@[4]@);
                    }
                    if 5 < args.len() {
                        assert(args.deep_view()[5] == args@[5]@);
                    }
                    if 6 < args.len() {
                        assert(args.deep_view()[6] == args@[6]@);
                    }
                    if 7 < args.len() {
                        assert(args.deep_view()[7] == args@[7]@);
                    }
                }
                let a2: SpeedArg = speed_arg(args, 2);
                let a3: SpeedArg = speed_arg(args, 3);
                let a4: SpeedArg = speed_arg(args, 4);
                let a5: SpeedArg = speed_arg(args, 5);
                let a6: SpeedArg = speed_arg(args, 6);
                let a7: SpeedArg = speed_arg(args, 7);
                match a2 {
                    SpeedArg::Malformed => error_node("malformed number"),
                    SpeedArg::Negative => negative_speed_error(args[2].as_str()),
                    SpeedArg::Absent => error_node("malformed number"),
                    SpeedArg::Present(lo_d) => match a3 {
                        SpeedArg::Malformed => error_node("malformed number"),
                        SpeedArg::Negative => negative_speed_error(args[3].as_str()),
                        SpeedArg::Absent => error_node("malformed number"),
                        SpeedArg::Present(hi_d) => match a4 {
                            SpeedArg::Malformed => error_node("malformed number"),
                            SpeedArg::Negative => negative_speed_error(args[4].as_str()),
                            _ => {
                                let lo_u: u64 = match a4 {
                                    SpeedArg::Present(x) => x,
                                    _ => lo_d,
                                };
                                match a5 {
                                    SpeedArg::Malformed => error_node("malformed number"),
                                    SpeedArg::Negative => negative_speed_error(args[5].as_str()),
                                    _ => {
                                        let hi_u: u64 = match a5 {
                                            SpeedArg::Present(x) => x,
                                            _ => hi_d,
                                        };
                                        match a6 {
                                            SpeedArg::Malformed => error_node("malformed number"),
                                            SpeedArg::Negative => negative_speed_error(
                                                args[6].as_str(),
                                            ),
                                            _ => {
                                                let sd: u64 = match a6 {
                                                    SpeedArg::Present(x) => x,
                                                    _ => snap.net_down,
                                                };
                                                match a7 {
                                                    SpeedArg::Malformed => error_node(
                                                        "malformed number",
                                                    ),
                                                    SpeedArg::Negative => negative_speed_error(
                                                        args[7].as_str(),
                                                    ),
                                                    _ => {
                                                        let su: u64 = match a7 {
                                                            SpeedArg::Present(x) => x,
                                                            _ => snap.net_up,
                                                        };
                                                        net_node(
                                                            cold,
                                                            hot,
                                                            lo_d,
                                                            hi_d,
                                                            lo_u,
                                                            hi_u,
                                                            sd,
                                                            su,
                                                        )
                                                    },
                                                }
                                            },
                                        }
                                    },
                                }
                            },
                        },
                    },
                }
            },
            _ => error_node("malformed color literal: expected exactly 6 lowercase hex digits"),
        }
    }
}

} // verus!
