//! A strongly restrictive pair of color types.
//!
//! `Color` is display-encoded: three 8-bit channels, gamma-encoded, and the
//! only encoding that supports text formatting (`rrggbb`, lowercase hex).
//! `LinearColor` is linear-light: three fixed-point channels that support
//! arithmetic (clamping, interpolation, lightness adjustment) but never text
//! formatting.  Converting between the two encodings is the only bridge, and
//! the conversion is exact: `lemma_display_round_trip` proves that
//! display -> linear -> display reproduces the original triplet.
//!
//! A display channel `s` maps to the linear value `s * s` on a scale of
//! `SCALE = 255 * 255`, and the inverse conversion rounds to the nearest
//! display channel, saturating outside `[0, SCALE]`.  Because every channel
//! is an integer, the rounding is exact and no conversion bias is needed to
//! make the round trip lossless.

use vstd::arithmetic::div_mod::{
    lemma_div_by_multiple,
    lemma_div_is_ordered,
    lemma_div_pos_is_pos,
};
use vstd::prelude::*;

use crate::strutil::string_from_chars;

verus! {

/// The linear-light value of a full-intensity display channel.
pub const SCALE: i64 = 65025;

/// Linear channels are kept within this bound so that interpolation
/// arithmetic cannot overflow a machine word.
pub const CHAN_LIMIT: i64 = 1_000_000_000;

/// A display-encoded color: gamma-encoded 8-bit channels, text-representable.
#[derive(Debug, Clone, Copy, PartialEq, Eq, Structural)]
pub struct Color(pub u8, pub u8, pub u8);

/// A linear-light color: fixed-point channels on the scale `0..=SCALE`,
/// arithmetic-capable.  Values outside that range can be held (and are
/// saturated on conversion to `Color`), but never formatted as text.
#[derive(Debug, Clone, Copy, PartialEq, Eq, Structural)]
pub struct LinearColor {
    pub r: i64,
    pub g: i64,
    pub b: i64,
}

// ---------------------------------------------------------------------------
// Hex formatting of display colors
// ---------------------------------------------------------------------------
pub open spec fn spec_hex_digit(v: int) -> char {
    if v == 0 {
        '0'
    } else if v == 1 {
        '1'
    } else if v == 2 {
        '2'
    } else if v == 3 {
        '3'
    } else if v == 4 {
        '4'
    } else if v == 5 {
        '5'
    } else if v == 6 {
        '6'
    } else if v == 7 {
        '7'
    } else if v == 8 {
        '8'
    } else if v == 9 {
        '9'
    } else if v == 10 {
        'a'
    } else if v == 11 {
        'b'
    } else if v == 12 {
        'c'
    } else if v == 13 {
        'd'
    } else if v == 14 {
        'e'
    } else {
        'f'
    }
}

pub open spec fn spec_hex_byte(v: int) -> Seq<char> {
    seq![spec_hex_digit(v / 16), spec_hex_digit(v % 16)]
}

/// The `rrggbb` hex text of a display color, all lowercase.
pub open spec fn spec_hex(c: Color) -> Seq<char> {
    spec_hex_byte(c.0 as int) + spec_hex_byte(c.1 as int) + spec_hex_byte(c.2 as int)
}

fn hex_digit(v: u8) -> (r: char)
    requires
        v < 16,
    ensures
        r == spec_hex_digit(v as int),
{
    if v == 0 {
        '0'
    } else if v == 1 {
        '1'
    } else if v == 2 {
        '2'
    } else if v == 3 {
        '3'
    } else if v == 4 {
        '4'
    } else if v == 5 {
        '5'
    } else if v == 6 {
        '6'
    } else if v == 7 {
        '7'
    } else if v == 8 {
        '8'
    } else if v == 9 {
        '9'
    } else if v == 10 {
        'a'
    } else if v == 11 {
        'b'
    } else if v == 12 {
        'c'
    } else if v == 13 {
        'd'
    } else if v == 14 {
        'e'
    } else {
        'f'
    }
}

/// Push the two hex digits of one display channel.
pub fn push_hex_byte(out: &mut Vec<char>, v: u8)
    ensures
        final(out)@ == old(out)@ + spec_hex_byte(v as int),
{
    out.push(hex_digit(v / 16));
    out.push(hex_digit(v % 16));
    proof {
        assert(out@ =~= old(out)@ + spec_hex_byte(v as int));
    }
}

/// Push the six hex digits of a display color.
pub fn push_hex_color(out: &mut Vec<char>, c: Color)
    ensures
        final(out)@ == old(out)@ + spec_hex(c),
{
    push_hex_byte(out, c.0);
    push_hex_byte(out, c.1);
    push_hex_byte(out, c.2);
    proof {
        assert(out@ =~= old(out)@ + spec_hex(c));
    }
}

impl Color {
    /// The `rrggbb` hex text of this color.
    pub fn to_string(&self) -> (r: String)
        ensures
            r@ == spec_hex(*self),
    {
        let mut v: Vec<char> = Vec::new();
        push_hex_color(&mut v, *self);
        string_from_chars(&v)
    }
}

// ---------------------------------------------------------------------------
// Conversion between the two encodings
// ---------------------------------------------------------------------------
/// Display -> linear: a display channel `s` becomes the linear value `s * s`.
pub open spec fn spec_from_display(c: Color) -> LinearColor {
    LinearColor {
        r: (c.0 as int * c.0 as int) as i64,
        g: (c.1 as int * c.1 as int) as i64,
        b: (c.2 as int * c.2 as int) as i64,
    }
}

/// The smallest `b` at or above `lo` whose rounding interval contains `v`:
/// a linear value `v` rounds to the display channel `b` when
/// `b*b - b < v <= b*b + b`.
pub open spec fn nsqrt_from(v: int, lo: int) -> int
    decreases 256 - lo,
{
    if lo >= 255 {
        255
    } else if v <= lo * lo + lo {
        lo
    } else {
        nsqrt_from(v, lo + 1)
    }
}

/// Linear -> display for one channel: saturate outside `[0, SCALE]`,
/// otherwise round to the nearest display channel.
pub open spec fn spec_byte_of_lin(v: int) -> int {
    if v <= 0 {
        0
    } else if v >= SCALE {
        255
    } else {
        nsqrt_from(v, 0)
    }
}

/// Linear -> display: per-channel saturating, rounding conversion.
pub open spec fn spec_clamp_to_888(c: LinearColor) -> Color {
    Color(
        spec_byte_of_lin(c.r as int) as u8,
        spec_byte_of_lin(c.g as int) as u8,
        spec_byte_of_lin(c.b as int) as u8,
    )
}

/// `v` lies strictly above the rounding interval of `x`.
pub open spec fn above_interval(v: int, x: int) -> bool {
    v > x * x + x
}

/// The value the rounding loop stops at is the value of `nsqrt_from`.
proof fn lemma_nsqrt_loop(v: int, b: int, lo: int)
    requires
        0 <= lo <= b <= 255,
        v <= b * b + b,
        forall|x: int| lo <= x < b ==> #[trigger] above_interval(v, x),
    ensures
        nsqrt_from(v, lo) == b,
    decreases b - lo,
{
    if lo < b {
        assert(above_interval(v, lo));
        lemma_nsqrt_loop(v, b, lo + 1);
    }
}

/// The upper end of the rounding interval of display channel `b`.
fn interval_top(b: i64) -> (r: i64)
    requires
        0 <= b <= 255,
    ensures
        r == b * b + b,
{
    proof {
        assert(b * b + b <= 65280) by (nonlinear_arith)
            requires
                0 <= b <= 255,
        ;
    }
    b * b + b
}

fn byte_of_lin(v: i64) -> (r: u8)
    ensures
        r as int == spec_byte_of_lin(v as int),
{
    if v <= 0 {
        0
    } else if v >= SCALE {
        255
    } else {
        let mut b: i64 = 0;
        while v > interval_top(b)
            invariant
                1 <= v < SCALE,
                0 <= b <= 255,
                forall|x: int| 0 <= x < b ==> #[trigger] above_interval(v as int, x),
            decreases 255 - b,
        {
            proof {
                assert(b < 255) by (nonlinear_arith)
                    requires
                        0 <= b,
                        v as int > b * b + b,
                        v < 65025,
                ;
            }
            b = b + 1;
        }
        proof {
            lemma_nsqrt_loop(v as int, b as int, 0);
        }
        b as u8
    }
}

impl LinearColor {
    /// All channels within the machine bound that interpolation needs.
    pub open spec fn wf(self) -> bool {
        &&& -CHAN_LIMIT <= self.r <= CHAN_LIMIT
        &&& -CHAN_LIMIT <= self.g <= CHAN_LIMIT
        &&& -CHAN_LIMIT <= self.b <= CHAN_LIMIT
    }

    /// All channels within the nominal linear range `[0, SCALE]`.
    pub open spec fn in_range(self) -> bool {
        &&& 0 <= self.r <= SCALE
        &&& 0 <= self.g <= SCALE
        &&& 0 <= self.b <= SCALE
    }

    /// Convert to the display encoding, saturating out-of-range channels
    /// and rounding in-range ones to the nearest display value.
    pub fn clamp_to_888(self) -> (r: Color)
        ensures
            r == spec_clamp_to_888(self),
    {
        Color(byte_of_lin(self.r), byte_of_lin(self.g), byte_of_lin(self.b))
    }
}

impl From<Color> for LinearColor {
    /// Convert a display color to the linear encoding.
    fn from(c: Color) -> (r: Self) {
        proof {
            assert(c.0 as int * c.0 as int <= 65025) by (nonlinear_arith)
                requires
                    c.0 < 256,
            ;
            assert(c.1 as int * c.1 as int <= 65025) by (nonlinear_arith)
                requires
                    c.1 < 256,
            ;
            assert(c.2 as int * c.2 as int <= 65025) by (nonlinear_arith)
                requires
                    c.2 < 256,
            ;
        }
        LinearColor {
            r: (c.0 as i64) * (c.0 as i64),
            g: (c.1 as i64) * (c.1 as i64),
            b: (c.2 as i64) * (c.2 as i64),
        }
    }
}

impl vstd::std_specs::convert::FromSpecImpl<Color> for LinearColor {
    open spec fn obeys_from_spec() -> bool {
        true
    }

    open spec fn from_spec(c: Color) -> Self {
        spec_from_display(c)
    }
}

/// Round-trip law: converting a display color to the linear encoding and
/// back reproduces the original triplet exactly.
pub proof fn lemma_byte_round_trip(s: int)
    requires
        0 <= s <= 255,
    ensures
        spec_byte_of_lin(s * s) == s,
{
    if s == 0 {
        assert(s * s == 0);
    } else if s == 255 {
        assert(s * s >= SCALE);
    } else {
        assert(1 <= s * s < 65025) by (nonlinear_arith)
            requires
                1 <= s <= 254,
        ;
        assert forall|x: int| 0 <= x < s implies #[trigger] above_interval(s * s, x) by {
            assert(x * x + x < s * s) by (nonlinear_arith)
                requires
                    0 <= x < s,
            ;
        }
        assert(s * s <= s * s + s);
        lemma_nsqrt_loop(s * s, s, 0);
    }
}

/// Round-trip law, on whole colors.
pub proof fn lemma_display_round_trip(c: Color)
    ensures
        spec_clamp_to_888(spec_from_display(c)) == c,
{
    lemma_byte_round_trip(c.0 as int);
    lemma_byte_round_trip(c.1 as int);
    lemma_byte_round_trip(c.2 as int);
}

// ---------------------------------------------------------------------------
// Linear arithmetic: clamping, interpolation, lightness
// ---------------------------------------------------------------------------
/// `d * num / den`, with the division rounding toward zero.
pub open spec fn spec_muldiv(d: int, num: int, den: int) -> int {
    if d >= 0 {
        d * num / den
    } else {
        -((-d) * num / den)
    }
}

/// Interpolate from `a` toward `b` by the fraction `num / den`.
pub open spec fn spec_lerp(a: int, b: int, num: int, den: int) -> int {
    a + spec_muldiv(b - a, num, den)
}

proof fn lemma_muldiv_bounds(d: int, num: int, den: int)
    requires
        0 <= d,
        0 <= num <= den,
        1 <= den,
    ensures
        0 <= d * num / den <= d,
{
    assert(d * num <= d * den) by (nonlinear_arith)
        requires
            0 <= d,
            num <= den,
    ;
    assert(0 <= d * num) by (nonlinear_arith)
        requires
            0 <= d,
            0 <= num,
    ;
    lemma_div_is_ordered(d * num, d * den, den);
    lemma_div_by_multiple(d, den);
    lemma_div_pos_is_pos(d * num, den);
}

/// Interpolation lands between its two endpoints.
pub proof fn lemma_lerp_between(a: int, b: int, num: int, den: int)
    requires
        0 <= num <= den,
        1 <= den,
    ensures
        a <= b ==> a <= spec_lerp(a, b, num, den) <= b,
        b <= a ==> b <= spec_lerp(a, b, num, den) <= a,
{
    if a <= b {
        lemma_muldiv_bounds(b - a, num, den);
    } else {
        lemma_muldiv_bounds(a - b, num, den);
    }
}

/// Interpolate from `a` toward `b` by the fraction `num / den`.
fn lerp_val(a: i64, b: i64, num: i64, den: i64) -> (r: i64)
    requires
        -CHAN_LIMIT <= a <= CHAN_LIMIT,
        -CHAN_LIMIT <= b <= CHAN_LIMIT,
        1 <= den,
        0 <= num <= den,
    ensures
        r == spec_lerp(a as int, b as int, num as int, den as int),
        a <= b ==> a <= r <= b,
        b <= a ==> b <= r <= a,
{
    proof {
        lemma_lerp_between(a as int, b as int, num as int, den as int);
    }
    if b >= a {
        let d: i64 = b - a;
        proof {
            lemma_muldiv_bounds(d as int, num as int, den as int);
            assert(d as int * num as int <= 2_000_000_000int * 0x7fff_ffff_ffff_ffffint)
                by (nonlinear_arith)
                requires
                    0 <= d as int <= 2_000_000_000int,
                    0 <= num as int <= 0x7fff_ffff_ffff_ffffint,
            ;
            assert(0 <= d as int * num as int) by (nonlinear_arith)
                requires
                    0 <= d as int,
                    0 <= num as int,
            ;
        }
        let q: i128 = (d as i128) * (num as i128) / (den as i128);
        a + (q as i64)
    } else {
        let d: i64 = a - b;
        proof {
            lemma_muldiv_bounds(d as int, num as int, den as int);
            assert(d as int * num as int <= 2_000_000_000int * 0x7fff_ffff_ffff_ffffint)
                by (nonlinear_arith)
                requires
                    0 <= d as int <= 2_000_000_000int,
                    0 <= num as int <= 0x7fff_ffff_ffff_ffffint,
            ;
            assert(0 <= d as int * num as int) by (nonlinear_arith)
                requires
                    0 <= d as int,
                    0 <= num as int,
            ;
        }
        let q: i128 = (d as i128) * (num as i128) / (den as i128);
        a - (q as i64)
    }
}

/// Per-channel clamp to `[min, max]`.
pub open spec fn spec_clamp_chan(v: int, min: int, max: int) -> int {
    if v < min {
        min
    } else if v > max {
        max
    } else {
        v
    }
}

/// Per-channel clamp of a whole color.
pub open spec fn spec_clamp_with(c: LinearColor, min: int, max: int) -> LinearColor {
    LinearColor {
        r: spec_clamp_chan(c.r as int, min, max) as i64,
        g: spec_clamp_chan(c.g as int, min, max) as i64,
        b: spec_clamp_chan(c.b as int, min, max) as i64,
    }
}

/// Clamp to the nominal linear range `[0, SCALE]`.
pub open spec fn spec_clamp01(c: LinearColor) -> LinearColor {
    spec_clamp_with(c, 0, SCALE as int)
}

/// Per-channel linear interpolation in linear-light RGB.
pub open spec fn spec_mix_fast(a: LinearColor, b: LinearColor, num: int, den: int) -> LinearColor {
    LinearColor {
        r: spec_lerp(a.r as int, b.r as int, num, den) as i64,
        g: spec_lerp(a.g as int, b.g as int, num, den) as i64,
        b: spec_lerp(a.b as int, b.b as int, num, den) as i64,
    }
}

/// The relative luminance of an in-range linear color, on the scale
/// `0..=SCALE`; the channel weights sum to 10000.
pub open spec fn spec_luma(c: LinearColor) -> int {
    (2126 * c.r + 7152 * c.g + 722 * c.b) / 10000
}

/// The luminance that corresponds to a perceptual lightness of `l` (in
/// thousandths): lightness is modelled as the cube root of luminance, so
/// the target luminance is `SCALE * (l / 1000)^3`.
pub open spec fn spec_light_target(l: int) -> int {
    SCALE * l * l * l / 1_000_000_000
}

/// The perceptual lightness (in thousandths) whose target luminance
/// interval contains `y`, searching upward from `lo`.
pub open spec fn light_from(y: int, lo: int) -> int
    decreases 1001 - lo,
{
    if lo >= 1000 {
        1000
    } else if y < spec_light_target(lo + 1) {
        lo
    } else {
        light_from(y, lo + 1)
    }
}

/// The perceptual lightness of a color, in thousandths.
pub open spec fn spec_lightness_of(c: LinearColor) -> int {
    light_from(spec_luma(spec_clamp01(c)), 0)
}

/// Replace the perceptual lightness of a color, keeping the ratio of its
/// channels: scale every channel so that the luminance matches the target.
pub open spec fn spec_set_lightness(c: LinearColor, l: int) -> LinearColor {
    let cc = spec_clamp01(c);
    let y = spec_luma(cc);
    let yt = spec_light_target(l);
    if y == 0 {
        LinearColor { r: yt as i64, g: yt as i64, b: yt as i64 }
    } else {
        LinearColor {
            r: spec_scale_chan(cc.r as int, yt, y) as i64,
            g: spec_scale_chan(cc.g as int, yt, y) as i64,
            b: spec_scale_chan(cc.b as int, yt, y) as i64,
        }
    }
}

/// One channel scaled by `yt / y`, capped at full intensity.
pub open spec fn spec_scale_chan(v: int, yt: int, y: int) -> int {
    let s = v * yt / y;
    if s > SCALE {
        SCALE as int
    } else {
        s
    }
}

/// Perceptual interpolation: interpolate the channels in linear-light RGB,
/// then correct the perceptual lightness to the interpolation of the two
/// endpoint lightnesses.
pub open spec fn spec_mix(a: LinearColor, b: LinearColor, num: int, den: int) -> LinearColor {
    let ca = spec_clamp01(a);
    let cb = spec_clamp01(b);
    let base = spec_mix_fast(ca, cb, num, den);
    let l = spec_lerp(spec_lightness_of(a), spec_lightness_of(b), num, den);
    spec_set_lightness(base, l)
}

proof fn lemma_light_from_range(y: int, lo: int)
    requires
        0 <= lo <= 1000,
    ensures
        lo <= light_from(y, lo) <= 1000,
    decreases 1001 - lo,
{
    if lo < 1000 && y >= spec_light_target(lo + 1) {
        lemma_light_from_range(y, lo + 1);
    }
}

/// The value the lightness search loop stops at is `light_from`.
proof fn lemma_light_loop(y: int, l: int, lo: int)
    requires
        0 <= lo <= l <= 1000,
        l == 1000 || y < spec_light_target(l + 1),
        forall|x: int| lo <= x < l ==> y >= #[trigger] spec_light_target(x + 1),
    ensures
        light_from(y, lo) == l,
    decreases l - lo,
{
    if lo < l {
        assert(y >= spec_light_target(lo + 1));
        lemma_light_loop(y, l, lo + 1);
    }
}

/// The target luminance of a valid lightness is within `[0, SCALE]`.
proof fn lemma_light_target_range(l: int)
    requires
        0 <= l <= 1000,
    ensures
        0 <= spec_light_target(l) <= SCALE,
{
    assert(0 <= SCALE * l * l * l <= SCALE * 1_000_000_000) by (nonlinear_arith)
        requires
            0 <= l <= 1000,
    ;
    lemma_div_pos_is_pos(SCALE * l * l * l, 1_000_000_000);
    lemma_div_is_ordered(SCALE * l * l * l, SCALE * 1_000_000_000, 1_000_000_000);
    lemma_div_by_multiple(SCALE as int, 1_000_000_000);
}

fn light_target(l: i64) -> (r: i64)
    requires
        0 <= l <= 1000,
    ensures
        r == spec_light_target(l as int),
        0 <= r <= SCALE,
{
    proof {
        lemma_light_target_range(l as int);
        assert(0 <= SCALE * l * l * l <= SCALE * 1_000_000_000) by (nonlinear_arith)
            requires
                0 <= l <= 1000,
        ;
        assert(SCALE * l as int * l as int * l as int == SCALE * (l as int * l as int * l as int))
            by (nonlinear_arith);
        assert(l as int * l as int * l as int <= 1_000_000_000) by (nonlinear_arith)
            requires
                0 <= l <= 1000,
        ;
        assert(l as int * l as int <= 1_000_000) by (nonlinear_arith)
            requires
                0 <= l <= 1000,
        ;
    }
    let cube: i64 = l * l * l;
    SCALE * cube / 1_000_000_000
}

impl LinearColor {
    /// Clamp every channel to `[min, max]`.
    pub fn clamp_with(self, min: i64, max: i64) -> (r: Self)
        requires
            min <= max,
        ensures
            r == spec_clamp_with(self, min as int, max as int),
    {
        LinearColor {
            r: clamp_chan(self.r, min, max),
            g: clamp_chan(self.g, min, max),
            b: clamp_chan(self.b, min, max),
        }
    }

    /// Clamp every channel to the nominal range `[0, SCALE]`.
    pub fn clamp(self) -> (r: Self)
        ensures
            r == spec_clamp01(self),
            r.in_range(),
    {
        self.clamp_with(0, SCALE)
    }

    /// Linear interpolation between colors, done per channel in the
    /// linear-light RGB space: cheap, not perceptually uniform.
    pub fn mix_fast(self, other: Self, num: i64, den: i64) -> (r: Self)
        requires
            self.wf(),
            other.wf(),
            1 <= den,
            0 <= num <= den,
        ensures
            r == spec_mix_fast(self, other, num as int, den as int),
            r.wf(),
    {
        LinearColor {
            r: lerp_val(self.r, other.r, num, den),
            g: lerp_val(self.g, other.g, num, den),
            b: lerp_val(self.b, other.b, num, den),
        }
    }

    /// The perceptual lightness of this color, in thousandths of the way
    /// from black to white.
    pub fn lightness_permille(self) -> (r: i64)
        ensures
            r == spec_lightness_of(self),
            0 <= r <= 1000,
    {
        let cc = self.clamp();
        let y: i64 = (2126 * cc.r + 7152 * cc.g + 722 * cc.b) / 10000;
        let mut l: i64 = 0;
        while l < 1000 && y >= light_target(l + 1)
            invariant
                0 <= l <= 1000,
                y == spec_luma(spec_clamp01(self)),
                forall|x: int| 0 <= x < l ==> y as int >= #[trigger] spec_light_target(x + 1),
            decreases 1000 - l,
        {
            l = l + 1;
        }
        proof {
            lemma_light_loop(y as int, l as int, 0);
            lemma_light_from_range(y as int, 0);
        }
        l
    }

    /// Overwrite the perceptual lightness of this color, keeping the ratio
    /// of its channels.  `0` gives the darkest color and `1000` the whitest.
    pub fn set_lightness(self, lightness: i64) -> (r: Self)
        requires
            0 <= lightness <= 1000,
        ensures
            r == spec_set_lightness(self, lightness as int),
            r.in_range(),
            r.wf(),
    {
        let cc = self.clamp();
        let y: i64 = (2126 * cc.r + 7152 * cc.g + 722 * cc.b) / 10000;
        let yt: i64 = light_target(lightness);
        if y == 0 {
            LinearColor { r: yt, g: yt, b: yt }
        } else {
            LinearColor {
                r: scale_chan(cc.r, yt, y),
                g: scale_chan(cc.g, yt, y),
                b: scale_chan(cc.b, yt, y),
            }
        }
    }

    /// Linear interpolation between colors, perceptually corrected: the
    /// channels are interpolated in linear-light RGB and the perceptual
    /// lightness of the result is set to the interpolated lightness of the
    /// two endpoints, so ramps keep an even visual brightness.
    pub fn mix(self, other: Self, num: i64, den: i64) -> (r: Self)
        requires
            1 <= den,
            0 <= num <= den,
        ensures
            r == spec_mix(self, other, num as int, den as int),
            r.in_range(),
            r.wf(),
    {
        let ca = self.clamp();
        let cb = other.clamp();
        let base = ca.mix_fast(cb, num, den);
        let la: i64 = self.lightness_permille();
        let lb: i64 = other.lightness_permille();
        let l: i64 = lerp_val(la, lb, num, den);
        base.set_lightness(l)
    }
}

fn clamp_chan(v: i64, min: i64, max: i64) -> (r: i64)
    requires
        min <= max,
    ensures
        r == spec_clamp_chan(v as int, min as int, max as int),
{
    if v < min {
        min
    } else if v > max {
        max
    } else {
        v
    }
}

fn scale_chan(v: i64, yt: i64, y: i64) -> (r: i64)
    requires
        0 <= v <= SCALE,
        0 <= yt <= SCALE,
        1 <= y,
    ensures
        r == spec_scale_chan(v as int, yt as int, y as int),
        0 <= r <= SCALE,
{
    proof {
        assert(0 <= v as int * yt as int <= 65025int * 65025int) by (nonlinear_arith)
            requires
                0 <= v as int <= 65025,
                0 <= yt as int <= 65025,
        ;
        lemma_div_pos_is_pos(v as int * yt as int, y as int);
    }
    let s: i64 = v * yt / y;
    if s > SCALE {
        SCALE
    } else {
        s
    }
}

/// A display color converts to an in-range linear color.
pub proof fn lemma_from_display_range(c: Color)
    ensures
        spec_from_display(c).in_range(),
        spec_from_display(c).wf(),
{
    assert(c.0 as int * c.0 as int <= 65025) by (nonlinear_arith)
        requires
            c.0 < 256,
    ;
    assert(c.1 as int * c.1 as int <= 65025) by (nonlinear_arith)
        requires
            c.1 < 256,
    ;
    assert(c.2 as int * c.2 as int <= 65025) by (nonlinear_arith)
        requires
            c.2 < 256,
    ;
    assert(c.0 as int * c.0 as int >= 0) by (nonlinear_arith);
    assert(c.1 as int * c.1 as int >= 0) by (nonlinear_arith);
    assert(c.2 as int * c.2 as int >= 0) by (nonlinear_arith);
}

/// Clamping an in-range color changes nothing.
pub proof fn lemma_clamp01_identity(c: LinearColor)
    requires
        c.in_range(),
    ensures
        spec_clamp01(c) == c,
{
}

/// Clamp law: a linear channel outside the nominal range saturates to the
/// boundary display value instead of wrapping.
pub proof fn lemma_clamp_saturates(c: LinearColor)
    ensures
        c.r >= SCALE ==> spec_clamp_to_888(c).0 == 255,
        c.r <= 0 ==> spec_clamp_to_888(c).0 == 0,
        c.g >= SCALE ==> spec_clamp_to_888(c).1 == 255,
        c.g <= 0 ==> spec_clamp_to_888(c).1 == 0,
        c.b >= SCALE ==> spec_clamp_to_888(c).2 == 255,
        c.b <= 0 ==> spec_clamp_to_888(c).2 == 0,
{
}

} // verus!
