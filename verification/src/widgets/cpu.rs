//! The `cpu` widget: one bar-glyph cell per core, colored from a cold color
//! toward a hot color with the load, plus the total usage as a percentage.

use vstd::prelude::*;

use crate::color::{
    push_hex_color,
    spec_clamp_to_888,
    spec_from_display,
    spec_mix,
    spec_set_lightness,
    spec_hex,
    Color,
    LinearColor,
};
use crate::document::{spec_widget_free, Node, SpecNode};
use crate::parser::{parse_color, push_escaped, spec_escape, spec_parse_color};
use crate::stats::Snapshot;
use crate::strutil::{
    div_trunc,
    parse_number,
    pow10_of,
    push_dec_i64,
    push_pad_left,
    push_str_chars,
    spec_dec_i64,
    spec_div_trunc,
    spec_pad_left,
    spec_parse_number,
    spec_pow10,
    string_from_chars,
};
use crate::widgets::{error_node, node_from_markup, spec_error_node, spec_node_from_markup};

verus! {

/// A usage fraction clamped to the nominal range of thousandths.
pub open spec fn spec_clamp_pm(u: int) -> int {
    if u < 0 {
        0
    } else if u > 1000 {
        1000
    } else {
        u
    }
}

pub fn clamp_pm(u: i64) -> (r: i64)
    ensures
        r == spec_clamp_pm(u as int),
        0 <= r <= 1000,
{
    if u < 0 {
        0
    } else if u > 1000 {
        1000
    } else {
        u
    }
}

/// The bar glyph for an eighth-step index 0 through 6.
pub open spec fn spec_bar_char(i: int) -> char {
    if i <= 0 {
        '\u{2581}'
    } else if i == 1 {
        '\u{2582}'
    } else if i == 2 {
        '\u{2583}'
    } else if i == 3 {
        '\u{2584}'
    } else if i == 4 {
        '\u{2585}'
    } else if i == 5 {
        '\u{2586}'
    } else {
        '\u{2587}'
    }
}

pub fn bar_char(i: i64) -> (r: char)
    ensures
        r == spec_bar_char(i as int),
{
    if i <= 0 {
        '\u{2581}'
    } else if i == 1 {
        '\u{2582}'
    } else if i == 2 {
        '\u{2583}'
    } else if i == 3 {
        '\u{2584}'
    } else if i == 4 {
        '\u{2585}'
    } else if i == 5 {
        '\u{2586}'
    } else {
        '\u{2587}'
    }
}

/// The bar glyph for a usage fraction: the seven glyphs split the range
/// evenly, saturating at the top one.
pub open spec fn spec_indicator(u: int) -> char {
    let i = 7 * spec_clamp_pm(u) / 1000;
    spec_bar_char(
        if i > 6 {
            6
        } else {
            i
        },
    )
}

fn indicator(u: i64) -> (r: char)
    ensures
        r == spec_indicator(u as int),
{
    let uc: i64 = clamp_pm(u);
    let i: i64 = 7 * uc / 1000;
    proof {
        vstd::arithmetic::div_mod::lemma_div_pos_is_pos(7 * uc as int, 1000);
    }
    bar_char(
        if i > 6 {
            6
        } else {
            i
        },
    )
}

/// The text color for one usage fraction: a dimmed idle shade when the core
/// is close to idle, else a blend from the cold color to the hot one over
/// the active range.
pub open spec fn spec_fg(cold: LinearColor, hot: LinearColor, total: int, u: int) -> Color {
    if u <= 50 {
        spec_clamp_to_888(
            spec_mix(
                spec_set_lightness(cold, 300),
                spec_set_lightness(hot, 300),
                spec_clamp_pm(total),
                1000,
            ),
        )
    } else {
        spec_clamp_to_888(
            spec_mix(
                spec_set_lightness(cold, 700),
                spec_set_lightness(hot, 700),
                if spec_clamp_pm(u) - 50 > 950 {
                    950
                } else {
                    spec_clamp_pm(u) - 50
                },
                950,
            ),
        )
    }
}

fn fg(cold: LinearColor, hot: LinearColor, total: i64, u: i64) -> (r: Color)
    ensures
        r == spec_fg(cold, hot, total as int, u as int),
{
    if u <= 50 {
        cold.set_lightness(300).mix(hot.set_lightness(300), clamp_pm(total), 1000).clamp_to_888()
    } else {
        let mut num: i64 = clamp_pm(u) - 50;
        if num > 950 {
            num = 950;
        }
        if num < 0 {
            num = 0;
        }
        cold.set_lightness(700).mix(hot.set_lightness(700), num, 950).clamp_to_888()
    }
}

/// One cell per core: its usage glyph in its usage color.
pub open spec fn spec_cells(cold: LinearColor, hot: LinearColor, total: int, us: Seq<int>) -> Seq<
    char,
>
    decreases us.len(),
{
    if us.len() == 0 {
        Seq::empty()
    } else {
        "("@ + spec_hex(spec_fg(cold, hot, total, us[0])) + ":"@ + seq![spec_indicator(us[0])]
            + ")"@ + spec_cells(cold, hot, total, us.drop_first())
    }
}

/// The total usage, as a right-aligned percentage in the total's color.
pub open spec fn spec_total_part(cold: LinearColor, hot: LinearColor, total: int) -> Seq<char> {
    "("@ + spec_hex(spec_fg(cold, hot, total, total)) + ":"@ + spec_escape(
        spec_pad_left(spec_dec_i64(spec_div_trunc(total, 10)), 3, ' ') + "%"@,
    ) + ")"@
}

/// The markup the cpu widget generates: a background blended with the total
/// load, the per-core cells, and the total percentage.
pub open spec fn spec_markup(
    cold: LinearColor,
    hot: LinearColor,
    total: int,
    us: Seq<int>,
) -> Seq<char> {
    "["@ + spec_hex(
        spec_clamp_to_888(
            spec_mix(
                spec_set_lightness(cold, 150),
                spec_set_lightness(hot, 150),
                spec_clamp_pm(total),
                1000,
            ),
        ),
    ) + ": \\ "@ + spec_cells(cold, hot, total, us) + spec_total_part(cold, hot, total) + " ]"@
}

#[verifier::rlimit(50)]
fn cpu_node(cold: LinearColor, hot: LinearColor, total: i64, us: &Vec<i64>) -> (r: Node)
    requires
        total != i64::MIN,
    ensures
        r@ == spec_node_from_markup(
            spec_markup(cold, hot, total as int, us@.map_values(|x: i64| x as int)),
        ),
        spec_widget_free(r@),
{
    let ghost usv = us@.map_values(|x: i64| x as int);
    let mut v: Vec<char> = Vec::new();
    push_str_chars(&mut v, "[");
    push_hex_color(
        &mut v,
        cold.set_lightness(150).mix(hot.set_lightness(150), clamp_pm(total), 1000).clamp_to_888(),
    );
    push_str_chars(&mut v, ": \\ ");
    let ghost head = v@;
    let n: usize = us.len();
    let mut i: usize = 0;
    proof {
        assert(usv.subrange(0, n as int) =~= usv);
    }
    while i < n
        invariant
            i <= n,
            n == us@.len(),
            usv.len() == n,
            usv == us@.map_values(|x: i64| x as int),
            head + spec_cells(cold, hot, total as int, usv) =~= v@ + spec_cells(
                cold,
                hot,
                total as int,
                usv.subrange(i as int, n as int),
            ),
            total != i64::MIN,
        decreases n - i,
    {
        proof {
            assert(usv.subrange(i as int, n as int)[0] == usv[i as int]);
            assert(usv[i as int] == us@[i as int] as int);
            assert(usv.subrange(i as int, n as int).drop_first() =~= usv.subrange(
                i + 1,
                n as int,
            ));
        }
        push_str_chars(&mut v, "(");
        push_hex_color(&mut v, fg(cold, hot, total, us[i]));
        push_str_chars(&mut v, ":");
        v.push(indicator(us[i]));
        push_str_chars(&mut v, ")");
        proof {
            assert(head + spec_cells(cold, hot, total as int, usv) =~= v@ + spec_cells(
                cold,
                hot,
                total as int,
                usv.subrange(i + 1, n as int),
            ));
        }
        i = i + 1;
    }
    proof {
        assert(spec_cells(cold, hot, total as int, usv.subrange(n as int, n as int)) =~= Seq::<
            char,
        >::empty());
    }
    // the total percentage, right-aligned to three characters
    push_str_chars(&mut v, "(");
    push_hex_color(&mut v, fg(cold, hot, total, total));
    push_str_chars(&mut v, ":");
    let mut ptxt: Vec<char> = Vec::new();
    push_dec_i64(&mut ptxt, div_trunc(total, 10));
    let mut padded: Vec<char> = Vec::new();
    push_pad_left(&mut padded, &ptxt, 3, ' ');
    push_str_chars(&mut padded, "%");
    proof {
        assert(padded@ =~= spec_pad_left(spec_dec_i64(spec_div_trunc(total as int, 10)), 3, ' ')
            + "%"@);
    }
    push_escaped(&mut v, &padded);
    push_str_chars(&mut v, ")");
    push_str_chars(&mut v, " ]");
    proof {
        assert(v@ =~= spec_markup(cold, hot, total as int, usv));
    }
    node_from_markup(string_from_chars(&v))
}

/// A usage argument in percent, parsed to thousandths, rounded toward
/// zero, saturating at a billion in magnitude.
pub open spec fn spec_percent_arg(s: Seq<char>) -> Option<int> {
    match spec_parse_number(s) {
        None => None,
        Some((neg, m, f)) => {
            let w = if m * 10 / spec_pow10(f) > 1_000_000_000 {
                1_000_000_000int
            } else {
                m * 10 / spec_pow10(f)
            };
            Some(
                if neg {
                    -w
                } else {
                    w
                },
            )
        },
    }
}

fn percent_arg(s: &str) -> (r: Option<i64>)
    ensures
        (r is Some) == (spec_percent_arg(s@) is Some),
        r is Some ==> r->0 as int == spec_percent_arg(s@)->0 && -1_000_000_000 <= r->0
            <= 1_000_000_000,
{
    match parse_number(s) {
        None => None,
        Some((neg, m, f)) => {
            let scale: u64 = pow10_of(f);
            proof {
                vstd::arithmetic::div_mod::lemma_div_pos_is_pos(m as int * 10, scale as int);
            }
            let wide: u128 = (m as u128) * 10 / (scale as u128);
            let w: u64 = if wide > 1_000_000_000 {
                1_000_000_000
            } else {
                wide as u64
            };
            if neg {
                Some(-(w as i64))
            } else {
                Some(w as i64)
            }
        },
    }
}

/// What the cpu widget expands to.  With two color arguments it shows the
/// snapshot's load; extra arguments are read as per-core percentages in
/// place of the snapshot (with the total as their average).
pub open spec fn spec_expand(args: Seq<Seq<char>>, snap: Snapshot) -> SpecNode {
    if args.len() < 2 {
        spec_error_node("(ccdd44: cpu) takes 2 arguments: color-cold\\|color-hot"@)
    } else {
        match (spec_parse_color(args[0]), spec_parse_color(args[1])) {
            (Some(d1), Some(d2)) => {
                let cold = spec_from_display(d1);
                let hot = spec_from_display(d2);
                if args.len() == 2 {
                    spec_node_from_markup(
                        spec_markup(
                            cold,
                            hot,
                            snap.cpu_total_permille as int,
                            snap.cpu_per_core_permille@.map_values(|x: u32| x as int),
                        ),
                    )
                } else {
                    match spec_percent_args(args, 2) {
                        None => spec_error_node("malformed number"@),
                        Some(us) => {
                            let total = spec_avg(us);
                            spec_node_from_markup(spec_markup(cold, hot, total, us))
                        },
                    }
                }
            },
            _ => spec_error_node(
                "malformed color literal: expected exactly 6 lowercase hex digits"@,
            ),
        }
    }
}

/// The percent arguments from position `i` on, all parsed, in order.
pub open spec fn spec_percent_args(args: Seq<Seq<char>>, i: int) -> Option<Seq<int>>
    decreases args.len() - i,
{
    if !(0 <= i < args.len()) {
        Some(Seq::empty())
    } else {
        match (spec_percent_arg(args[i]), spec_percent_args(args, i + 1)) {
            (Some(u), Some(rest)) => Some(seq![u] + rest),
            _ => None,
        }
    }
}

/// The average of a sequence of usage fractions, rounded toward zero.
pub open spec fn spec_avg(us: Seq<int>) -> int {
    if us.len() == 0 {
        0
    } else {
        spec_div_trunc(spec_sum(us), us.len() as int)
    }
}

/// The sum of a sequence.
pub open spec fn spec_sum(us: Seq<int>) -> int
    decreases us.len(),
{
    if us.len() == 0 {
        0
    } else {
        us[0] + spec_sum(us.drop_first())
    }
}

fn percent_args(args: &Vec<String>, from: usize) -> (r: Option<Vec<i64>>)
    requires
        from <= args@.len(),
    ensures
        (r is Some) == (spec_percent_args(args.deep_view(), from as int) is Some),
        r is Some ==> r->0@.map_values(|x: i64| x as int) =~= spec_percent_args(
            args.deep_view(),
            from as int,
        )->0 && forall|k: int|
            0 <= k < r->0@.len() ==> -1_000_000_000 <= #[trigger] r->0@[k] <= 1_000_000_000,
    decreases args@.len() - from,
{
    if from >= args.len() {
        let empty: Vec<i64> = Vec::new();
        proof {
            assert(empty@.map_values(|x: i64| x as int) =~= Seq::<int>::empty());
        }
        Some(empty)
    } else {
        proof {
            assert(args.deep_view()[from as int] == args@[from as int]@);
        }
        match percent_arg(args[from].as_str()) {
            None => None,
            Some(u) => {
                match percent_args(args, from + 1) {
                    None => None,
                    Some(rest) => {
                        let ghost rest_map = rest@.map_values(|x: i64| x as int);
                        let mut out: Vec<i64> = Vec::new();
                        out.push(u);
                        let mut tail: Vec<i64> = rest;
                        out.append(&mut tail);
                        proof {
                            assert(out@.map_values(|x: i64| x as int) =~= seq![u as int]
                                + rest_map);
                        }
                        Some(out)
                    },
                }
            },
        }
    }
}

/// The cpu widget takes a cold color and a hot color.
#[verifier::rlimit(50)]
pub fn expand(args: &Vec<String>, snap: &Snapshot) -> (r: Node)
    ensures
        r@ == spec_expand(args.deep_view(), *snap),
        spec_widget_free(r@),
{
    if args.len() < 2 {
        error_node("(ccdd44: cpu) takes 2 arguments: color-cold\\|color-hot")
    } else {
        proof {
            assert(args.deep_view()[0] == args@[0]@);
            assert(args.deep_view()[1] == args@[1]@);
        }
        let col1 = parse_color(args[0].as_str());
        let col2 = parse_color(args[1].as_str());
        match (col1, col2) {
            (Ok(d1), Ok(d2)) => {
                let cold = LinearColor::from(d1);
                let hot = LinearColor::from(d2);
                if args.len() == 2 {
                    let mut us: Vec<i64> = Vec::new();
                    let n: usize = snap.cpu_per_core_permille.len();
                    let mut i: usize = 0;
                    while i < n
                        invariant
                            i <= n,
                            n == snap.cpu_per_core_permille@.len(),
                            us@.len() == i,
                            forall|k: int|
                                0 <= k < i ==> #[trigger] us@[k] == snap.cpu_per_core_permille@[k]
                                    as i64,
                        decreases n - i,
                    {
                        us.push(snap.cpu_per_core_permille[i] as i64);
                        i = i + 1;
                    }
                    proof {
                        assert(us@.map_values(|x: i64| x as int) =~= snap.cpu_per_core_permille@
                            .map_values(|x: u32| x as int));
                    }
                    cpu_node(cold, hot, snap.cpu_total_permille as i64, &us)
                } else {
                    match percent_args(args, 2) {
                        None => error_node("malformed number"),
                        Some(us) => {
                            // the total is the plain average of the given cores
                            let n: usize = us.len();
                            let mut sum: i128 = 0;
                            let mut i: usize = 0;
                            proof {
                                assert(us@.map_values(|x: i64| x as int).subrange(0, 0)
                                    =~= Seq::<int>::empty());
                            }
                            while i < n
                                invariant
                                    i <= n,
                                    n == us@.len(),
                                    forall|k: int|
                                        0 <= k < us@.len() ==> -1_000_000_000
                                            <= #[trigger] us@[k] <= 1_000_000_000,
                                    sum == spec_sum(
                                        us@.map_values(|x: i64| x as int).subrange(0, i as int),
                                    ),
                                    -1_000_000_000 * (i as int) <= sum <= 1_000_000_000 * (
                                    i as int),
                                decreases n - i,
                            {
                                proof {
                                    lemma_sum_snoc(us@.map_values(|x: i64| x as int), i as int);
                                    assert(-1_000_000_000 * (i + 1) <= sum + us@[i as int]
                                        <= 1_000_000_000 * (i + 1)) by (nonlinear_arith)
                                        requires
                                            -1_000_000_000 * (i as int) <= sum
                                                <= 1_000_000_000 * (i as int),
                                            -1_000_000_000 <= us@[i as int] <= 1_000_000_000,
                                    ;
                                }
                                sum = sum + (us[i] as i128);
                                i = i + 1;
                            }
                            proof {
                                assert(us@.map_values(|x: i64| x as int).subrange(0, n as int)
                                    =~= us@.map_values(|x: i64| x as int));
                                assert(-1_000_000_000 * (n as int) <= sum <= 1_000_000_000 * (
                                n as int));
                            }
                            let total: i64 = if n == 0 {
                                0
                            } else {
                                proof {
                                    if sum >= 0 {
                                        vstd::arithmetic::div_mod::lemma_div_pos_is_pos(
                                            sum as int,
                                            n as int,
                                        );
                                        vstd::arithmetic::div_mod::lemma_div_is_ordered(
                                            sum as int,
                                            1_000_000_000 * (n as int),
                                            n as int,
                                        );
                                        vstd::arithmetic::div_mod::lemma_div_by_multiple(
                                            1_000_000_000,
                                            n as int,
                                        );
                                        assert(1_000_000_000 * (n as int) == (n as int)
                                            * 1_000_000_000) by (nonlinear_arith);
                                    } else {
                                        vstd::arithmetic::div_mod::lemma_div_pos_is_pos(
                                            -sum as int,
                                            n as int,
                                        );
                                        vstd::arithmetic::div_mod::lemma_div_is_ordered(
                                            -sum as int,
                                            1_000_000_000 * (n as int),
                                            n as int,
                                        );
                                        vstd::arithmetic::div_mod::lemma_div_by_multiple(
                                            1_000_000_000,
                                            n as int,
                                        );
                                        assert(1_000_000_000 * (n as int) == (n as int)
                                            * 1_000_000_000) by (nonlinear_arith);
                                    }
                                }
                                if sum >= 0 {
                                    (sum / (n as i128)) as i64
                                } else {
                                    (-((-sum) / (n as i128))) as i64
                                }
                            };
                            cpu_node(cold, hot, total, &us)
                        },
                    }
                }
            },
            _ => error_node("malformed color literal: expected exactly 6 lowercase hex digits"),
        }
    }
}

/// Summing one more element extends the sum from the left-closed prefix.
proof fn lemma_sum_snoc(s: Seq<int>, i: int)
    requires
        0 <= i < s.len(),
    ensures
        spec_sum(s.subrange(0, i + 1)) == spec_sum(s.subrange(0, i)) + s[i],
    decreases i,
{
    if i == 0 {
        assert(s.subrange(0, 1).drop_first() =~= Seq::<int>::empty());
        assert(s.subrange(0, 1)[0] == s[0]);
        assert(s.subrange(0, 0) =~= Seq::<int>::empty());
    } else {
        assert(s.subrange(0, i + 1).drop_first() =~= s.drop_first().subrange(0, i));
        assert(s.subrange(0, i).drop_first() =~= s.drop_first().subrange(0, i - 1));
        lemma_sum_snoc(s.drop_first(), i - 1);
        assert(s.subrange(0, i + 1)[0] == s[0]);
        assert(s.subrange(0, i)[0] == s[0]);
        assert(s.drop_first().subrange(0, i)[i - 1] == s[i]);
        assert(s.drop_first()[i - 1] == s[i]);
    }
}

} // verus!
