//! Convert byte sizes to a human-readable form, like `1024` to `1.0 KiB`.
//!
//! A size's magnitude is how many times it can be scaled down by 1024
//! before dropping below 1024, capped at the largest named unit; the text
//! form shows one decimal place for every unit above plain bytes.

use vstd::prelude::*;

use crate::strutil::{
    push_dec_u64,
    push_str_chars,
    spec_dec,
    spec_dec_digit,
    string_from_chars,
};

verus! {

/// A byte unit, from B and KiB up to EiB.
#[derive(Debug, Clone, Copy, PartialEq, Eq, PartialOrd, Ord)]
pub enum Unit {
    B,
    KiB,
    MiB,
    GiB,
    TiB,
    PiB,
    EiB,
}

/// The unit for a magnitude: 0 is `B`, 1 is `KiB`, and so on; magnitudes
/// past the largest named unit saturate at `EiB`.
pub open spec fn spec_unit_of(m: int) -> Unit {
    if m <= 0 {
        Unit::B
    } else if m == 1 {
        Unit::KiB
    } else if m == 2 {
        Unit::MiB
    } else if m == 3 {
        Unit::GiB
    } else if m == 4 {
        Unit::TiB
    } else if m == 5 {
        Unit::PiB
    } else {
        Unit::EiB
    }
}

impl From<u8> for Unit {
    /// Convert a magnitude to its unit.
    fn from(num: u8) -> (r: Self) {
        if num == 0 {
            Unit::B
        } else if num == 1 {
            Unit::KiB
        } else if num == 2 {
            Unit::MiB
        } else if num == 3 {
            Unit::GiB
        } else if num == 4 {
            Unit::TiB
        } else if num == 5 {
            Unit::PiB
        } else {
            Unit::EiB
        }
    }
}

impl vstd::std_specs::convert::FromSpecImpl<u8> for Unit {
    open spec fn obeys_from_spec() -> bool {
        true
    }

    open spec fn from_spec(num: u8) -> Self {
        spec_unit_of(num as int)
    }
}

/// The text of a unit.
pub open spec fn spec_unit_text(u: Unit) -> Seq<char> {
    match u {
        Unit::B => "B"@,
        Unit::KiB => "KiB"@,
        Unit::MiB => "MiB"@,
        Unit::GiB => "GiB"@,
        Unit::TiB => "TiB"@,
        Unit::PiB => "PiB"@,
        Unit::EiB => "EiB"@,
    }
}

impl Unit {
    /// The text of this unit.
    pub fn to_string(&self) -> (r: String)
        ensures
            r@ == spec_unit_text(*self),
    {
        match self {
            Unit::B => String::from_str("B"),
            Unit::KiB => String::from_str("KiB"),
            Unit::MiB => String::from_str("MiB"),
            Unit::GiB => String::from_str("GiB"),
            Unit::TiB => String::from_str("TiB"),
            Unit::PiB => String::from_str("PiB"),
            Unit::EiB => String::from_str("EiB"),
        }
    }
}

/// The magnitude of a size: how many powers of 1024 fit below it, capped
/// at the largest named unit.
pub open spec fn spec_magnitude(x: int) -> int {
    if x < 1024 {
        0
    } else if x < 1048576 {
        1
    } else if x < 1073741824 {
        2
    } else if x < 1099511627776 {
        3
    } else if x < 1125899906842624 {
        4
    } else if x < 1152921504606846976 {
        5
    } else {
        6
    }
}

/// 1024 to the `m`th power, for a valid magnitude.
pub open spec fn spec_scale_of(m: int) -> int {
    if m <= 0 {
        1
    } else if m == 1 {
        1024
    } else if m == 2 {
        1048576
    } else if m == 3 {
        1073741824
    } else if m == 4 {
        1099511627776
    } else if m == 5 {
        1125899906842624
    } else {
        1152921504606846976
    }
}

/// The magnitude of a size.
pub fn size_magnitude(x: u64) -> (r: u8)
    ensures
        r as int == spec_magnitude(x as int),
        r <= 6,
{
    if x < 1024 {
        0
    } else if x < 1048576 {
        1
    } else if x < 1073741824 {
        2
    } else if x < 1099511627776 {
        3
    } else if x < 1125899906842624 {
        4
    } else if x < 1152921504606846976 {
        5
    } else {
        6
    }
}

fn scale_of(m: u8) -> (r: u64)
    ensures
        r as int == spec_scale_of(m as int),
        1 <= r,
{
    if m == 0 {
        1
    } else if m == 1 {
        1024
    } else if m == 2 {
        1048576
    } else if m == 3 {
        1073741824
    } else if m == 4 {
        1099511627776
    } else if m == 5 {
        1125899906842624
    } else {
        1152921504606846976
    }
}

/// A size scaled down to its unit, in tenths, rounding half up.
pub open spec fn spec_unitize_tenths(x: int) -> int {
    let p = spec_scale_of(spec_magnitude(x));
    (x * 10 + p / 2) / p
}

/// Scale a size down to its unit: the value in tenths and the unit.
/// `unitize(1024)` gives `(10, Unit::KiB)`.
pub fn unitize(x: u64) -> (r: (u64, Unit))
    ensures
        r.0 as int == spec_unitize_tenths(x as int),
        r.1 == spec_unit_of(spec_magnitude(x as int)),
{
    let m: u8 = size_magnitude(x);
    let p: u64 = scale_of(m);
    proof {
        vstd::arithmetic::div_mod::lemma_div_pos_is_pos(
            x as int * 10 + spec_scale_of(m as int) / 2,
            spec_scale_of(m as int),
        );
        vstd::arithmetic::div_mod::lemma_div_nonincreasing(
            x as int * 10 + spec_scale_of(m as int) / 2,
            spec_scale_of(m as int),
        );
        if m >= 1 {
            vstd::arithmetic::div_mod::lemma_div_is_ordered_by_denominator(
                x as int * 10 + spec_scale_of(m as int) / 2,
                1024,
                spec_scale_of(m as int),
            );
        }
    }
    let wide: u128 = (x as u128) * 10 + ((p / 2) as u128);
    let t: u64 = (wide / (p as u128)) as u64;
    (t, Unit::from(m))
}

/// Wraps a value for byte-size formatting.
#[derive(Debug, Clone, Copy)]
pub struct ByteSize<T>(pub T);

/// The human-readable text of a byte size: the plain count for bytes, and
/// the scaled value with one decimal place for every larger unit.
pub open spec fn spec_byte_size_text(x: int) -> Seq<char> {
    let m = spec_magnitude(x);
    if m == 0 {
        spec_dec(x) + " "@ + spec_unit_text(Unit::B)
    } else {
        let t = spec_unitize_tenths(x);
        spec_dec(t / 10) + "."@ + seq![spec_dec_digit(t % 10)] + " "@ + spec_unit_text(
            spec_unit_of(m),
        )
    }
}

fn byte_size_string(x: u64) -> (r: String)
    ensures
        r@ == spec_byte_size_text(x as int),
{
    let m: u8 = size_magnitude(x);
    let mut v: Vec<char> = Vec::new();
    if m == 0 {
        push_dec_u64(&mut v, x);
        push_str_chars(&mut v, " ");
        push_str_chars(&mut v, "B");
        proof {
            assert(v@ =~= spec_byte_size_text(x as int));
        }
        string_from_chars(&v)
    } else {
        let (t, unit) = unitize(x);
        proof {
            vstd::arithmetic::div_mod::lemma_div_pos_is_pos(t as int, 10);
            vstd::arithmetic::div_mod::lemma_mod_bound(t as int, 10);
        }
        push_dec_u64(&mut v, t / 10);
        push_str_chars(&mut v, ".");
        v.push(crate::strutil::dec_digit(t % 10));
        push_str_chars(&mut v, " ");
        let u: String = unit.to_string();
        crate::strutil::push_str_chars(&mut v, u.as_str());
        proof {
            assert(v@ =~= spec_byte_size_text(x as int));
        }
        string_from_chars(&v)
    }
}

impl ByteSize<u8> {
    /// The human-readable text of this size.
    pub fn to_string(&self) -> (r: String)
        ensures
            r@ == spec_byte_size_text(self.0 as int),
    {
        byte_size_string(self.0 as u64)
    }
}

impl ByteSize<u16> {
    /// The human-readable text of this size.
    pub fn to_string(&self) -> (r: String)
        ensures
            r@ == spec_byte_size_text(self.0 as int),
    {
        byte_size_string(self.0 as u64)
    }
}

impl ByteSize<u32> {
    /// The human-readable text of this size.
    pub fn to_string(&self) -> (r: String)
        ensures
            r@ == spec_byte_size_text(self.0 as int),
    {
        byte_size_string(self.0 as u64)
    }
}

impl ByteSize<u64> {
    /// The human-readable text of this size.
    pub fn to_string(&self) -> (r: String)
        ensures
            r@ == spec_byte_size_text(self.0 as int),
    {
        byte_size_string(self.0)
    }
}

} // verus!
