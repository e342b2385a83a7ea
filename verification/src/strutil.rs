//! Small verified helpers for working with strings as character sequences.
//!
//! All text manipulation in this crate happens on `Vec<char>`, whose view is
//! a `Seq<char>` just like the view of `String`; the single trusted function
//! below turns a finished character vector back into a `String`.

use vstd::prelude::*;

verus! {

/// Relies on std's `FromIterator<char> for String`: collecting an iterator of
/// characters yields the string of exactly those characters, in order.
#[verifier::external_body]
pub(crate) fn string_from_chars(v: &Vec<char>) -> (r: String)
    ensures
        r@ == v@,
{
    v.iter().collect()
}

/// The characters of `s`, as a vector.
pub fn chars_of_str(s: &str) -> (r: Vec<char>)
    ensures
        r@ == s@,
{
    let n: usize = s.unicode_len();
    let mut v: Vec<char> = Vec::new();
    let mut i: usize = 0;
    while i < n
        invariant
            i <= n,
            n == s@.len(),
            v@ =~= s@.subrange(0, i as int),
        decreases n - i,
    {
        v.push(s.get_char(i));
        i = i + 1;
    }
    proof {
        assert(v@ =~= s@);
    }
    v
}

/// Character-for-character equality of two string slices.
pub fn str_eq(a: &str, b: &str) -> (r: bool)
    ensures
        r == (a@ == b@),
{
    let na: usize = a.unicode_len();
    let nb: usize = b.unicode_len();
    if na != nb {
        proof {
            assert(a@ != b@);
        }
        false
    } else {
        let mut i: usize = 0;
        let mut same: bool = true;
        while i < na
            invariant
                i <= na,
                na == a@.len(),
                na == b@.len(),
                same == (a@.subrange(0, i as int) =~= b@.subrange(0, i as int)),
            decreases na - i,
        {
            let ca = a.get_char(i);
            let cb = b.get_char(i);
            proof {
                if same && ca == cb {
                    assert(a@.subrange(0, i + 1) =~= b@.subrange(0, i + 1));
                } else {
                    assert(a@.subrange(0, i + 1)[i as int] == ca);
                    assert(b@.subrange(0, i + 1)[i as int] == cb);
                    if !same {
                        let ghost j = choose|j: int|
                            0 <= j < i && a@.subrange(0, i as int)[j] != b@.subrange(
                                0,
                                i as int,
                            )[j];
                        assert(a@.subrange(0, i + 1)[j] != b@.subrange(0, i + 1)[j]);
                    }
                }
            }
            same = same && ca == cb;
            i = i + 1;
        }
        proof {
            assert(a@.subrange(0, na as int) =~= a@);
            assert(b@.subrange(0, na as int) =~= b@);
        }
        same
    }
}

/// Push every character of `s` onto `out`.
pub fn push_str_chars(out: &mut Vec<char>, s: &str)
    ensures
        final(out)@ == old(out)@ + s@,
{
    let n: usize = s.unicode_len();
    let mut i: usize = 0;
    while i < n
        invariant
            i <= n,
            n == s@.len(),
            out@ =~= old(out)@ + s@.subrange(0, i as int),
        decreases n - i,
    {
        out.push(s.get_char(i));
        i = i + 1;
    }
    proof {
        assert(out@ =~= old(out)@ + s@);
    }
}

/// Push every character of `src` onto `out`.
pub fn push_chars(out: &mut Vec<char>, src: &Vec<char>)
    ensures
        final(out)@ == old(out)@ + src@,
{
    let n: usize = src.len();
    let mut i: usize = 0;
    while i < n
        invariant
            i <= n,
            n == src@.len(),
            out@ =~= old(out)@ + src@.subrange(0, i as int),
        decreases n - i,
    {
        out.push(src[i]);
        i = i + 1;
        proof {
            assert(src@.subrange(0, i as int) =~= src@.subrange(0, i - 1).push(src@[i - 1]));
        }
    }
    proof {
        assert(src@.subrange(0, n as int) =~= src@);
        assert(out@ =~= old(out)@ + src@);
    }
}

/// The decimal digit character for `v`.
pub open spec fn spec_dec_digit(v: int) -> char {
    if v == 0 {
        '0'
    } else if v == 1 {
        '1'
    } else if v == 2 {
        '2'
    } else if v == 3 {
        '3'
    } else if v == 4 {
        '4'
    } else if v == 5 {
        '5'
    } else if v == 6 {
        '6'
    } else if v == 7 {
        '7'
    } else if v == 8 {
        '8'
    } else {
        '9'
    }
}

/// The decimal text of a nonnegative number, without padding.
pub open spec fn spec_dec(n: int) -> Seq<char>
    decreases n,
{
    if n < 10 {
        seq![spec_dec_digit(n)]
    } else {
        spec_dec(n / 10) + seq![spec_dec_digit(n % 10)]
    }
}

pub fn dec_digit(v: u64) -> (r: char)
    requires
        v < 10,
    ensures
        r == spec_dec_digit(v as int),
{
    if v == 0 {
        '0'
    } else if v == 1 {
        '1'
    } else if v == 2 {
        '2'
    } else if v == 3 {
        '3'
    } else if v == 4 {
        '4'
    } else if v == 5 {
        '5'
    } else if v == 6 {
        '6'
    } else if v == 7 {
        '7'
    } else if v == 8 {
        '8'
    } else {
        '9'
    }
}

/// Push the decimal text of `n`.
pub fn push_dec_u64(out: &mut Vec<char>, n: u64)
    ensures
        final(out)@ == old(out)@ + spec_dec(n as int),
    decreases n,
{
    if n < 10 {
        out.push(dec_digit(n));
        proof {
            assert(out@ =~= old(out)@ + spec_dec(n as int));
        }
    } else {
        push_dec_u64(out, n / 10);
        out.push(dec_digit(n % 10));
        proof {
            assert(out@ =~= old(out)@ + spec_dec(n as int));
        }
    }
}

/// The decimal text of a signed number.
pub open spec fn spec_dec_i64(v: int) -> Seq<char> {
    if v >= 0 {
        spec_dec(v)
    } else {
        seq!['-'] + spec_dec(-v)
    }
}

/// Push the decimal text of a signed number.
pub fn push_dec_i64(out: &mut Vec<char>, v: i64)
    requires
        v != i64::MIN,
    ensures
        final(out)@ == old(out)@ + spec_dec_i64(v as int),
{
    if v >= 0 {
        push_dec_u64(out, v as u64);
    } else {
        out.push('-');
        push_dec_u64(out, (-v) as u64);
        proof {
            assert(out@ =~= old(out)@ + spec_dec_i64(v as int));
        }
    }
}

/// `a / b` rounded toward zero.
pub open spec fn spec_div_trunc(a: int, b: int) -> int {
    if a >= 0 {
        a / b
    } else {
        -((-a) / b)
    }
}

/// Divide, rounding toward zero.
pub fn div_trunc(a: i64, b: i64) -> (r: i64)
    requires
        a != i64::MIN,
        b > 0,
    ensures
        r == spec_div_trunc(a as int, b as int),
{
    proof {
        if a >= 0 {
            vstd::arithmetic::div_mod::lemma_div_pos_is_pos(a as int, b as int);
            vstd::arithmetic::div_mod::lemma_div_is_ordered(0, a as int, b as int);
            vstd::arithmetic::div_mod::lemma_div_is_ordered_by_denominator(a as int, 1, b as int);
        } else {
            vstd::arithmetic::div_mod::lemma_div_pos_is_pos(-a as int, b as int);
            vstd::arithmetic::div_mod::lemma_div_is_ordered_by_denominator(-a as int, 1, b as int);
        }
    }
    if a >= 0 {
        a / b
    } else {
        -((-a) / b)
    }
}

/// `s` left-padded with `fill` to at least `width` characters.
pub open spec fn spec_pad_left(s: Seq<char>, width: int, fill: char) -> Seq<char> {
    if s.len() >= width {
        s
    } else {
        Seq::new((width - s.len()) as nat, |i: int| fill) + s
    }
}

/// Push `content` onto `out`, left-padded with `fill` to at least `width`.
pub fn push_pad_left(out: &mut Vec<char>, content: &Vec<char>, width: usize, fill: char)
    ensures
        final(out)@ == old(out)@ + spec_pad_left(content@, width as int, fill),
{
    let n: usize = content.len();
    if n < width {
        let mut k: usize = 0;
        while k < width - n
            invariant
                k <= width - n,
                n == content@.len(),
                n < width,
                out@ =~= old(out)@ + Seq::new(k as nat, |i: int| fill),
            decreases width - n - k,
        {
            out.push(fill);
            proof {
                assert(out@ =~= old(out)@ + Seq::new((k + 1) as nat, |i: int| fill));
            }
            k = k + 1;
        }
    }
    let mut i: usize = 0;
    while i < n
        invariant
            i <= n,
            n == content@.len(),
            out@ =~= (if n >= width {
                old(out)@
            } else {
                old(out)@ + Seq::new((width - n) as nat, |j: int| fill)
            }) + content@.subrange(0, i as int),
        decreases n - i,
    {
        out.push(content[i]);
        i = i + 1;
        proof {
            assert(content@.subrange(0, i as int) =~= content@.subrange(0, i - 1).push(
                content@[i - 1],
            ));
        }
    }
    proof {
        assert(content@.subrange(0, n as int) =~= content@);
        assert(out@ =~= old(out)@ + spec_pad_left(content@, width as int, fill));
    }
}

/// The decimal text of `v`, zero-padded to `width` characters; a negative
/// value carries its sign in front, inside the width, as text formatting
/// does.
pub open spec fn spec_pad_zero(v: int, width: int) -> Seq<char> {
    if v >= 0 {
        spec_pad_left(spec_dec(v), width, '0')
    } else {
        seq!['-'] + spec_pad_left(spec_dec(-v), width - 1, '0')
    }
}

/// Push the decimal text of `v`, zero-padded to `width` characters.
pub fn push_pad_zero(out: &mut Vec<char>, v: i64, width: usize)
    requires
        v != i64::MIN,
        width >= 1,
    ensures
        final(out)@ == old(out)@ + spec_pad_zero(v as int, width as int),
{
    if v >= 0 {
        let mut tmp: Vec<char> = Vec::new();
        push_dec_u64(&mut tmp, v as u64);
        push_pad_left(out, &tmp, width, '0');
    } else {
        out.push('-');
        let mut tmp: Vec<char> = Vec::new();
        push_dec_u64(&mut tmp, (-v) as u64);
        push_pad_left(out, &tmp, width - 1, '0');
        proof {
            assert(out@ =~= old(out)@ + spec_pad_zero(v as int, width as int));
        }
    }
}

/// A decimal digit.
pub open spec fn is_digit(c: char) -> bool {
    48 <= c as u32 <= 57
}

/// Every character is a decimal digit.
pub open spec fn spec_all_digits(s: Seq<char>) -> bool {
    forall|i: int| 0 <= i < s.len() ==> is_digit(#[trigger] s[i])
}

/// The value of a run of decimal digits (most significant first).
pub open spec fn spec_digits_val(s: Seq<char>) -> int
    decreases s.len(),
{
    if s.len() == 0 {
        0
    } else {
        spec_digits_val(s.drop_last()) * 10 + (s.last() as u32 - 48)
    }
}

proof fn lemma_digits_val_nonneg(s: Seq<char>)
    requires
        spec_all_digits(s),
    ensures
        spec_digits_val(s) >= 0,
    decreases s.len(),
{
    if s.len() > 0 {
        assert(spec_all_digits(s.drop_last())) by {
            assert(forall|i: int|
                0 <= i < s.drop_last().len() ==> s.drop_last()[i] == #[trigger] s[i]);
        }
        lemma_digits_val_nonneg(s.drop_last());
    }
}

/// The value of a digit run never shrinks as the run grows to the right.
proof fn lemma_digits_val_prefix(s: Seq<char>, k: int)
    requires
        spec_all_digits(s),
        0 <= k <= s.len(),
    ensures
        spec_digits_val(s.subrange(0, k)) <= spec_digits_val(s),
    decreases s.len() - k,
{
    if k == s.len() {
        assert(s.subrange(0, k) =~= s);
    } else {
        lemma_digits_val_prefix(s, k + 1);
        let p1 = s.subrange(0, k + 1);
        assert(spec_all_digits(p1)) by {
            assert(forall|i: int| 0 <= i < p1.len() ==> p1[i] == #[trigger] s[i]);
        }
        assert(p1.drop_last() =~= s.subrange(0, k));
        lemma_digits_val_nonneg(s.subrange(0, k));
        assert(spec_digits_val(p1) == spec_digits_val(s.subrange(0, k)) * 10 + (p1.last() as u32
            - 48));
        assert(spec_digits_val(s.subrange(0, k)) <= spec_digits_val(s.subrange(0, k)) * 10);
    }
}

/// The position of the first `.` in `s` at or after `i`, or the length of
/// `s` when there is none.
pub open spec fn spec_first_dot(s: Seq<char>, i: int) -> int
    decreases s.len() - i,
{
    if !(0 <= i < s.len()) {
        s.len() as int
    } else if s[i] == '.' {
        i
    } else {
        spec_first_dot(s, i + 1)
    }
}

/// Ten to the `n`th power.
pub open spec fn spec_pow10(n: int) -> int
    decreases n,
{
    if n <= 0 {
        1
    } else {
        10 * spec_pow10(n - 1)
    }
}

pub fn pow10_of(n: usize) -> (r: u64)
    requires
        n <= 6,
    ensures
        r as int == spec_pow10(n as int),
        1 <= r <= 1_000_000,
{
    proof {
        reveal_with_fuel(spec_pow10, 8);
    }
    if n == 0 {
        1
    } else if n == 1 {
        10
    } else if n == 2 {
        100
    } else if n == 3 {
        1_000
    } else if n == 4 {
        10_000
    } else if n == 5 {
        100_000
    } else {
        1_000_000
    }
}

/// The largest integer part a number literal may carry.
pub open spec fn spec_number_limit() -> int {
    1_000_000_000_000
}

/// A parsed decimal number literal: its sign, its mantissa, and how many
/// fraction digits the mantissa carries (at most six; further fraction
/// digits are ignored).  A literal is an optional sign, one or more integer
/// digits, and an optional `.` with any run of fraction digits; integer
/// parts above the limit are rejected.
pub open spec fn spec_parse_number(s: Seq<char>) -> Option<(bool, int, int)> {
    let signed = s.len() > 0 && (s[0] == '-' || s[0] == '+');
    let neg = s.len() > 0 && s[0] == '-';
    let body = if signed {
        s.drop_first()
    } else {
        s
    };
    let d = spec_first_dot(body, 0);
    let ip = body.subrange(0, d);
    let fp_full = if d < body.len() {
        body.subrange(d + 1, body.len() as int)
    } else {
        Seq::empty()
    };
    let fp = if fp_full.len() <= 6 {
        fp_full
    } else {
        fp_full.subrange(0, 6)
    };
    if ip.len() > 0 && spec_all_digits(ip) && spec_all_digits(fp_full) && spec_digits_val(ip)
        <= spec_number_limit() {
        Some(
            (
                neg,
                spec_digits_val(ip) * spec_pow10(fp.len() as int) + spec_digits_val(fp),
                fp.len() as int,
            ),
        )
    } else {
        None
    }
}

/// Read a run of digits, giving its value, or nothing when a non-digit
/// occurs or the value passes the limit.
fn digits_val(chars: &Vec<char>, from: usize, to: usize, limit: u64) -> (r: Option<u64>)
    requires
        from <= to <= chars@.len(),
        limit <= 1_000_000_000_000_000_000,
    ensures
        r is Some ==> spec_all_digits(chars@.subrange(from as int, to as int)) && r->0 as int
            == spec_digits_val(chars@.subrange(from as int, to as int)) && r->0 <= limit,
        r is None ==> !spec_all_digits(chars@.subrange(from as int, to as int))
            || spec_digits_val(chars@.subrange(from as int, to as int)) > limit,
{
    let ghost whole = chars@.subrange(from as int, to as int);
    let mut acc: u64 = 0;
    let mut k: usize = from;
    proof {
        assert(chars@.subrange(from as int, from as int) =~= Seq::<char>::empty());
    }
    while k < to
        invariant
            from <= k <= to <= chars@.len(),
            whole == chars@.subrange(from as int, to as int),
            spec_all_digits(chars@.subrange(from as int, k as int)),
            acc as int == spec_digits_val(chars@.subrange(from as int, k as int)),
            acc <= limit,
            limit <= 1_000_000_000_000_000_000,
        decreases to - k,
    {
        let c: char = chars[k];
        let u: u32 = c as u32;
        proof {
            assert(chars@.subrange(from as int, k + 1).drop_last() =~= chars@.subrange(
                from as int,
                k as int,
            ));
            assert(chars@.subrange(from as int, k + 1).last() == chars@[k as int]);
        }
        if !(48 <= u && u <= 57) {
            proof {
                assert(whole[k - from] == chars@[k as int]);
                assert(!is_digit(whole[k - from]));
            }
            return None;
        }
        let d: u64 = (u - 48) as u64;
        let next: u64 = acc * 10 + d;
        if next > limit {
            proof {
                assert(spec_digits_val(chars@.subrange(from as int, k + 1)) == next);
                if spec_all_digits(whole) {
                    assert(forall|i: int|
                        0 <= i < k + 1 - from ==> chars@.subrange(from as int, k + 1)[i]
                            == #[trigger] whole[i]);
                    assert(spec_all_digits(chars@.subrange(from as int, k + 1))) by {
                        assert(forall|i: int|
                            0 <= i < k + 1 - from ==> #[trigger] chars@.subrange(
                                from as int,
                                k + 1,
                            )[i] == whole[i]);
                    }
                    assert(chars@.subrange(from as int, k + 1) =~= whole.subrange(
                        0,
                        k + 1 - from,
                    ));
                    lemma_digits_val_prefix(whole, k + 1 - from);
                    assert(spec_digits_val(whole) > limit);
                }
            }
            return None;
        }
        acc = next;
        k = k + 1;
    }
    proof {
        assert(chars@.subrange(from as int, to as int) =~= whole);
    }
    Some(acc)
}

/// Parse a decimal number literal: an optional sign, one or more integer
/// digits, and an optional fraction.  Gives the sign, the mantissa, and the
/// number of fraction digits kept (at most six).
pub fn parse_number(s: &str) -> (r: Option<(bool, u64, usize)>)
    ensures
        (r is Some) == (spec_parse_number(s@) is Some),
        r is Some ==> (r->0).0 == (spec_parse_number(s@)->0).0 && (r->0).1 as int
            == (spec_parse_number(s@)->0).1 && (r->0).2 as int == (spec_parse_number(s@)->0).2
            && (r->0).2 <= 6 && (r->0).1 <= 2_000_000_000_000_000_000,
{
    let chars: Vec<char> = chars_of_str(s);
    let n: usize = chars.len();
    let (neg, start): (bool, usize) = if n > 0 && chars[0] == '-' {
        (true, 1)
    } else if n > 0 && chars[0] == '+' {
        (false, 1)
    } else {
        (false, 0)
    };
    let ghost body = if start == 1 {
        s@.drop_first()
    } else {
        s@
    };
    proof {
        assert(body =~= chars@.subrange(start as int, n as int));
    }
    // find the first dot inside the body
    let mut dot: usize = start;
    while dot < n && chars[dot] != '.'
        invariant
            start <= dot <= n,
            n == chars@.len(),
            body == chars@.subrange(start as int, n as int),
            spec_first_dot(body, 0) == spec_first_dot(body, dot - start),
        decreases n - dot,
    {
        proof {
            assert(body[dot - start] == chars@[dot as int]);
        }
        dot = dot + 1;
    }
    proof {
        if dot < n {
            assert(body[dot - start] == chars@[dot as int]);
        }
        assert(spec_first_dot(body, dot - start) == dot - start);
        assert(spec_first_dot(body, 0) == dot - start);
    }
    if dot == start {
        // empty integer part
        proof {
            assert(body.subrange(0, spec_first_dot(body, 0)).len() == 0);
        }
        return None;
    }
    let ip_val: Option<u64> = digits_val(&chars, start, dot, 1_000_000_000_000);
    proof {
        assert(chars@.subrange(start as int, dot as int) =~= body.subrange(
            0,
            spec_first_dot(body, 0),
        ));
    }
    match ip_val {
        None => None,
        Some(iv) => {
            let (fstart, fend_full): (usize, usize) = if dot < n {
                (dot + 1, n)
            } else {
                (n, n)
            };
            let ghost fp_full = if spec_first_dot(body, 0) < body.len() {
                body.subrange(spec_first_dot(body, 0) + 1, body.len() as int)
            } else {
                Seq::<char>::empty()
            };
            proof {
                assert(fp_full =~= chars@.subrange(fstart as int, fend_full as int));
            }
            // the fraction must be all digits, however long it is
            let all_frac: Option<u64> = digits_val(&chars, fstart, fend_full, 1_000_000_000_000_000_000);
            let fend: usize = if fend_full - fstart <= 6 {
                fend_full
            } else {
                fstart + 6
            };
            let ghost fp = if fp_full.len() <= 6 {
                fp_full
            } else {
                fp_full.subrange(0, 6)
            };
            proof {
                assert(fp =~= chars@.subrange(fstart as int, fend as int));
            }
            let fp_ok: bool = match all_frac {
                Some(_) => true,
                None => {
                    // a long fraction of pure digits can pass the value limit;
                    // digits are all that matters here
                    all_digits_exec(&chars, fstart, fend_full)
                },
            };
            if !fp_ok {
                proof {
                    assert(!spec_all_digits(fp_full));
                }
                None
            } else {
                let fv: Option<u64> = digits_val(&chars, fstart, fend, 1_000_000_000_000_000_000);
                match fv {
                    None => {
                        proof {
                            assert(spec_all_digits(fp_full));
                            assert(forall|i: int|
                                0 <= i < fp.len() ==> #[trigger] fp[i] == fp_full[i]);
                            assert(spec_all_digits(fp));
                            lemma_digits_val_bound(fp);
                            reveal_with_fuel(spec_pow10, 8);
                            assert(spec_digits_val(fp) < 1_000_000_000_000_000_000);
                            assert(false);
                        }
                        None
                    },
                    Some(f) => {
                        let scale: u64 = pow10_of(fend - fstart);
                        proof {
                            lemma_digits_val_nonneg(fp);
                            lemma_digits_val_bound(fp);
                            reveal_with_fuel(spec_pow10, 8);
                            assert(iv as int * scale as int <= 1_000_000_000_000int
                                * 1_000_000int) by (nonlinear_arith)
                                requires
                                    0 <= iv as int <= 1_000_000_000_000int,
                                    0 <= scale as int <= 1_000_000int,
                            ;
                            assert(iv as int * scale as int >= 0) by (nonlinear_arith)
                                requires
                                    0 <= iv as int,
                                    0 <= scale as int,
                            ;
                        }
                        Some((neg, iv * scale + f, fend - fstart))
                    },
                }
            }
        },
    }
}

/// The value of a digit run stays below ten to the power of its length.
proof fn lemma_digits_val_bound(s: Seq<char>)
    requires
        spec_all_digits(s),
    ensures
        0 <= spec_digits_val(s) < spec_pow10(s.len() as int),
    decreases s.len(),
{
    if s.len() == 0 {
    } else {
        assert(spec_all_digits(s.drop_last())) by {
            assert(forall|i: int|
                0 <= i < s.drop_last().len() ==> s.drop_last()[i] == #[trigger] s[i]);
        }
        lemma_digits_val_bound(s.drop_last());
        assert(s.last() as u32 - 48 <= 9);
        assert(spec_pow10(s.len() as int) == 10 * spec_pow10(s.len() - 1));
    }
}

fn all_digits_exec(chars: &Vec<char>, from: usize, to: usize) -> (r: bool)
    requires
        from <= to <= chars@.len(),
    ensures
        r == spec_all_digits(chars@.subrange(from as int, to as int)),
{
    let ghost whole = chars@.subrange(from as int, to as int);
    let mut k: usize = from;
    while k < to
        invariant
            from <= k <= to <= chars@.len(),
            whole == chars@.subrange(from as int, to as int),
            forall|i: int| 0 <= i < k - from ==> is_digit(#[trigger] whole[i]),
        decreases to - k,
    {
        let u: u32 = chars[k] as u32;
        proof {
            assert(whole[k - from] == chars@[k as int]);
        }
        if !(48 <= u && u <= 57) {
            return false;
        }
        k = k + 1;
    }
    true
}

/// `s` holds the character `c` somewhere.
pub open spec fn spec_contains_char(s: Seq<char>, c: char) -> bool {
    exists|i: int| 0 <= i < s.len() && s[i] == c
}

/// Whether `s` holds the character `c`.
pub fn contains_char(s: &str, c: char) -> (r: bool)
    ensures
        r == spec_contains_char(s@, c),
{
    let n: usize = s.unicode_len();
    let mut i: usize = 0;
    while i < n
        invariant
            i <= n,
            n == s@.len(),
            forall|j: int| 0 <= j < i ==> s@[j] != c,
        decreases n - i,
    {
        if s.get_char(i) == c {
            return true;
        }
        i = i + 1;
    }
    false
}

/// Whitespace, for trimming arguments.
pub open spec fn is_blank_char(c: char) -> bool {
    c == ' ' || c == '\t' || c == '\n' || c == '\r'
}

/// Every character of `s` is whitespace (so `s` trims to nothing).
pub open spec fn spec_is_blank(s: Seq<char>) -> bool {
    forall|i: int| 0 <= i < s.len() ==> is_blank_char(#[trigger] s[i])
}

/// Whether `s` trims to nothing.
pub fn is_blank(s: &str) -> (r: bool)
    ensures
        r == spec_is_blank(s@),
{
    let n: usize = s.unicode_len();
    let mut i: usize = 0;
    while i < n
        invariant
            i <= n,
            n == s@.len(),
            forall|j: int| 0 <= j < i ==> is_blank_char(#[trigger] s@[j]),
        decreases n - i,
    {
        let c: char = s.get_char(i);
        if !(c == ' ' || c == '\t' || c == '\n' || c == '\r') {
            return false;
        }
        i = i + 1;
    }
    true
}

/// Copy the characters `from..to` of `v`.
pub fn subvec(v: &Vec<char>, from: usize, to: usize) -> (r: Vec<char>)
    requires
        from <= to <= v@.len(),
    ensures
        r@ == v@.subrange(from as int, to as int),
{
    let mut out: Vec<char> = Vec::new();
    let mut i: usize = from;
    while i < to
        invariant
            from <= i <= to <= v@.len(),
            out@ =~= v@.subrange(from as int, i as int),
        decreases to - i,
    {
        out.push(v[i]);
        proof {
            assert(v@.subrange(from as int, i + 1) =~= v@.subrange(from as int, i as int).push(
                v@[i as int],
            ));
        }
        i = i + 1;
    }
    proof {
        assert(out@ =~= v@.subrange(from as int, to as int));
    }
    out
}

} // verus!
