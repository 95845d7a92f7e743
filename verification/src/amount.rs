//! Fixed-point money arithmetic: `Amount64` with nine decimal places,
//! `Amount128` with eighteen, and the `Price` wrapper whose top raw value is
//! the "market" sentinel.
use crate::digits::{
    lemma_dec_chars_len, lemma_num_digits_le, lemma_num_digits_upper, lemma_pow10_adds,
    num_digits_u64, pow10_u128, pow10_u64, push_dec_chars_u128, push_dec_chars_u64,
    spec_dec_chars, spec_num_digits, spec_pow10,
};
use vstd::prelude::*;
use vstd::string::StringSliceAdditionalSpecFns;

verus! {

/// How many decimal digits an `Amount64` keeps.
pub const AMOUNT64_DECS: u64 = 9;

/// How many integer digits an `Amount64` can hold.
pub const AMOUNT64_INTS: u64 = 11;

/// The raw factor between one unit and one raw step.
pub const AMOUNT64_SCALE: u64 = 1_000_000_000;

/// The integer part of the largest `Amount64`.
pub const AMOUNT64_MAX_INT: u64 = 18_446_744_073;

/// The decimal part of the largest `Amount64`.
pub const AMOUNT64_MAX_DEC: u64 = 709_551_615;

/// `spec_pow10(9)` is the `Amount64` scale.
pub proof fn lemma_scale64()
    ensures
        spec_pow10(9) == AMOUNT64_SCALE,
{
    assert(spec_pow10(9) == 1_000_000_000) by {
        reveal_with_fuel(spec_pow10, 10);
    }
}

/// Why a decimal string failed to parse.
#[derive(Clone, Copy, Debug, PartialEq, Eq, Structural)]
pub enum ParseError {
    /// A byte that is neither a digit nor the one allowed point.
    NonDigit,
    /// A second decimal point.
    DoubleDecimal,
    /// The integer part ran past the largest representable value.
    MaxIntExceeded,
}

/// How [`Amount64::format`] and [`Amount128::format`] lay a value out.
#[derive(Clone, Debug)]
pub struct FormatOpts {
    /// Left-pad the integer part with zeros up to this many characters.
    pub width: Option<usize>,
    /// Round to this many decimal places and zero-pad up to it; zero drops
    /// the decimal point.
    pub precision: Option<usize>,
    pub sign: bool,
    pub accounting: bool,
}

impl Default for FormatOpts {
    fn default() -> (r: FormatOpts)
        ensures
            r.width is None,
            r.precision is None,
            !r.sign,
            !r.accounting,
    {
        FormatOpts { width: None, precision: None, sign: false, accounting: false }
    }
}

/// An unscaled decimal part shifted so its first digit sits in the top
/// decimal place: `5` means one half, as does `50`.
pub open spec fn spec_scale_up(dec: nat, decs: nat) -> nat
    recommends
        dec < spec_pow10(decs),
{
    if dec == 0 {
        0
    } else {
        dec * spec_pow10((decs - spec_num_digits(dec)) as nat)
    }
}

/// A scaled-up decimal part stays below the scale.
pub proof fn lemma_scale_up_bound(dec: nat, decs: nat)
    requires
        dec < spec_pow10(decs),
        decs >= 1,
    ensures
        spec_scale_up(dec, decs) < spec_pow10(decs),
{
    if dec != 0 {
        let d = spec_num_digits(dec);
        lemma_num_digits_le(dec, decs);
        lemma_num_digits_upper(dec);
        lemma_pow10_adds(d, (decs - d) as nat);
        assert(dec * spec_pow10((decs - d) as nat) < spec_pow10(d) * spec_pow10((decs - d) as nat))
            by (nonlinear_arith)
            requires
                dec < spec_pow10(d),
                spec_pow10((decs - d) as nat) >= 1,
        {
            crate::digits::lemma_pow10_pos((decs - d) as nat);
        }
    }
}

/// The value `from_parts` builds, or `None` where it refuses: an over-large
/// integer part, an over-large decimal on the last representable integer, or
/// a raw value past the top of the range.
pub open spec fn spec_fp64(int_part: nat, dec: nat) -> Option<nat> {
    if int_part > AMOUNT64_MAX_INT {
        None
    } else if int_part == AMOUNT64_MAX_INT && dec > AMOUNT64_MAX_DEC {
        None
    } else if int_part * AMOUNT64_SCALE + dec > u64::MAX {
        None
    } else {
        Some((int_part * AMOUNT64_SCALE + dec) as nat)
    }
}

/// As [`spec_fp64`], with zero where it refuses.
pub open spec fn spec_fp64_or_zero(int_part: nat, dec: nat) -> nat {
    match spec_fp64(int_part, dec) {
        Some(v) => v,
        None => 0,
    }
}

/// The rounding of `v` to `places` decimal places, as the implementation
/// performs it, carries and all.
pub open spec fn spec_round_dec64(v: nat, places: nat) -> nat
    recommends
        1 <= places < 9,
{
    let n = spec_pow10((8 - places) as nat);
    let int0 = v / (AMOUNT64_SCALE as nat);
    let dec0 = (v % (AMOUNT64_SCALE as nat)) / n;
    let d = dec0 % 10;
    let dec1 = (dec0 - d) as nat;
    if d >= 5 {
        if dec1 + 10 >= 100 {
            spec_fp64_or_zero(int0 + 1, 0)
        } else {
            spec_fp64_or_zero(int0, (dec1 + 10) * n)
        }
    } else {
        spec_fp64_or_zero(int0, dec1 * n)
    }
}

/// The rounding of `v` to `places` integer places, as the implementation
/// performs it.
pub open spec fn spec_round_int64(v: nat, places: nat) -> nat
    recommends
        1 <= places <= 11,
{
    let n = spec_pow10((places - 1) as nat);
    let int0 = (v / (AMOUNT64_SCALE as nat)) / n;
    let d = int0 % 10;
    let int1 = (int0 - d) as nat;
    if d >= 5 {
        spec_fp64_or_zero((int1 + 10) * n, 0)
    } else {
        spec_fp64_or_zero(int1 * n, 0)
    }
}

/// Rounding to the ones place: round half up on the decimal part.
pub open spec fn spec_round_zero64(v: nat) -> nat {
    let int0 = v / (AMOUNT64_SCALE as nat);
    let dec0 = v % (AMOUNT64_SCALE as nat);
    if dec0 > 5 * spec_pow10(8) {
        spec_fp64_or_zero(int0 + 1, 0)
    } else {
        spec_fp64_or_zero(int0, 0)
    }
}

/// [`Amount64::round`] over the whole range of `places`.
pub open spec fn spec_round64(v: nat, places: int) -> nat {
    if places < 0 {
        if places < -11 {
            0
        } else {
            spec_round_int64(v, (-places) as nat)
        }
    } else if places == 0 {
        spec_round_zero64(v)
    } else if places >= 9 {
        v
    } else {
        spec_round_dec64(v, places as nat)
    }
}

/// A decimal part with its trailing zeros dropped.
pub open spec fn spec_strip_zeros(d: nat) -> nat
    decreases d,
{
    if d != 0 && d % 10 == 0 {
        spec_strip_zeros(d / 10)
    } else {
        d
    }
}

/// `k` zero characters.
pub open spec fn spec_zero_chars(k: nat) -> Seq<char> {
    Seq::new(k, |i: int| '0')
}

/// What [`Amount64::format`] prints for raw value `v`: the value rounded to
/// the asked precision, the integer digits zero-padded to `width`, and —
/// unless a precision of zero drops it — a point, the decimal part without
/// its trailing zeros, zero-padded up to the precision.
pub open spec fn spec_format64(v: nat, width: Option<usize>, precision: Option<usize>) -> Seq<char> {
    let prec: nat = match precision {
        Some(p) => p as nat,
        None => 0,
    };
    let num = match precision {
        Some(p) => spec_round64(v, p as int),
        None => v,
    };
    let int_part = num / (AMOUNT64_SCALE as nat);
    let dec = spec_strip_zeros(num % (AMOUNT64_SCALE as nat));
    let int_chars = spec_dec_chars(int_part);
    let padded = match width {
        Some(w) => if w > int_chars.len() {
            spec_zero_chars((w - int_chars.len()) as nat) + int_chars
        } else {
            int_chars
        },
        None => int_chars,
    };
    if precision is None || prec >= 1 {
        let dec_chars = spec_dec_chars(dec);
        let zeros = if prec >= dec_chars.len() {
            spec_zero_chars((prec - dec_chars.len()) as nat)
        } else {
            Seq::empty()
        };
        padded + seq!['.'] + dec_chars + zeros
    } else {
        padded
    }
}

/// The strict decimal-string scan behind [`Amount64::from_str`]: an integer
/// part, at most one point, and decimal digits filling places from the top;
/// the digit one past the last representable place stops the scan.
pub open spec fn spec_amt_scan64(
    s: Seq<u8>,
    i: int,
    in_dec: bool,
    int_p: nat,
    dec_p: nat,
    place: nat,
) -> Result<(nat, nat), ParseError>
    decreases s.len() - i,
{
    if i < 0 || i >= s.len() {
        Ok((int_p, dec_p))
    } else if s[i] == 46 {
        if in_dec {
            Err(ParseError::DoubleDecimal)
        } else {
            spec_amt_scan64(s, i + 1, true, int_p, dec_p, place)
        }
    } else if 48 <= s[i] <= 57 {
        let d = (s[i] - 48) as nat;
        if !in_dec {
            if int_p * 10 + d > AMOUNT64_MAX_INT {
                Err(ParseError::MaxIntExceeded)
            } else {
                spec_amt_scan64(s, i + 1, in_dec, int_p * 10 + d, dec_p, place)
            }
        } else {
            if place == 0 {
                Ok((int_p, dec_p))
            } else {
                spec_amt_scan64(
                    s,
                    i + 1,
                    in_dec,
                    int_p,
                    dec_p + d * spec_pow10(place),
                    (place - 1) as nat,
                )
            }
        }
    } else {
        Err(ParseError::NonDigit)
    }
}

/// An unsigned fixed-point number with nine decimal places, stored as a raw
/// scaled `u64`.
#[derive(Clone, Copy, Debug, Default, PartialEq, Eq, PartialOrd, Ord, Hash, Structural)]
pub struct Amount64(pub u64);

impl Amount64 {
    /// The zero amount.
    pub fn zero() -> (r: Amount64)
        ensures
            r.0 == 0,
    {
        Amount64(0)
    }

    /// One unit.
    pub fn one() -> (r: Amount64)
        ensures
            r.0 == AMOUNT64_SCALE,
    {
        Amount64(AMOUNT64_SCALE)
    }

    /// The smallest positive amount.
    pub fn epsilon() -> (r: Amount64)
        ensures
            r.0 == 1,
    {
        Amount64(1)
    }

    /// The largest amount.
    pub fn max_value() -> (r: Amount64)
        ensures
            r.0 == u64::MAX,
    {
        Amount64(u64::MAX)
    }

    /// The smallest amount.
    pub fn min_value() -> (r: Amount64)
        ensures
            r.0 == 0,
    {
        Amount64(0)
    }

    /// Scale a whole number of units; `None` past the representable range.
    pub fn from_u64(u: u64) -> (r: Option<Amount64>)
        ensures
            u <= AMOUNT64_MAX_INT ==> r == Some(Amount64((u * AMOUNT64_SCALE) as u64)),
            u > AMOUNT64_MAX_INT ==> r is None,
    {
        if u > AMOUNT64_MAX_INT {
            return None;
        }
        proof {
            assert(u * AMOUNT64_SCALE <= AMOUNT64_MAX_INT * AMOUNT64_SCALE) by (nonlinear_arith)
                requires
                    u <= AMOUNT64_MAX_INT,
            ;
        }
        Some(Amount64(u * AMOUNT64_SCALE))
    }

    /// Build from an unscaled integer part and a fully scaled decimal part.
    pub fn from_parts(int_part: u64, dec: u64) -> (r: Option<Amount64>)
        ensures
            match spec_fp64(int_part as nat, dec as nat) {
                Some(v) => r == Some(Amount64(v as u64)),
                None => r is None,
            },
    {
        if int_part > AMOUNT64_MAX_INT {
            return None;
        }
        if int_part == AMOUNT64_MAX_INT && dec > AMOUNT64_MAX_DEC {
            return None;
        }
        proof {
            assert(int_part * AMOUNT64_SCALE <= AMOUNT64_MAX_INT * AMOUNT64_SCALE)
                by (nonlinear_arith)
                requires
                    int_part <= AMOUNT64_MAX_INT,
            ;
        }
        let base = int_part * AMOUNT64_SCALE;
        match base.checked_add(dec) {
            Some(v) => Some(Amount64(v)),
            None => None,
        }
    }

    /// Build from a scaled integer part and a scaled decimal part below the
    /// scale.
    pub fn from_split(int_part: u64, dec: u64) -> (r: Option<Amount64>)
        ensures
            dec >= AMOUNT64_SCALE ==> r is None,
            dec < AMOUNT64_SCALE && int_part + dec <= u64::MAX ==> r == Some(
                Amount64((int_part + dec) as u64),
            ),
            dec < AMOUNT64_SCALE && int_part + dec > u64::MAX ==> r is None,
    {
        if dec >= AMOUNT64_SCALE {
            return None;
        }
        match int_part.checked_add(dec) {
            Some(v) => Some(Amount64(v)),
            None => None,
        }
    }

    /// Build from an unscaled integer part and an unscaled decimal part:
    /// `(1, 5)` and `(1, 50)` both mean one and a half.
    pub fn from_unscaled_parts(int_part: u64, dec: u64) -> (r: Option<Amount64>)
        ensures
            dec >= AMOUNT64_SCALE ==> r is None,
            dec < AMOUNT64_SCALE ==> (match spec_fp64(int_part as nat, spec_scale_up(dec as nat, 9)) {
                Some(v) => r == Some(Amount64(v as u64)),
                None => r is None,
            }),
    {
        if dec >= AMOUNT64_SCALE {
            return None;
        }
        proof {
            lemma_scale64();
        }
        let dec_scaled: u64 = if dec != 0 {
            let digits = num_digits_u64(dec);
            proof {
                lemma_num_digits_le(dec as nat, 9);
                lemma_num_digits_upper(dec as nat);
                lemma_pow10_adds(digits as nat, (9 - digits) as nat);
                assert(dec * spec_pow10((9 - digits) as nat) < spec_pow10(digits as nat)
                    * spec_pow10((9 - digits) as nat)) by (nonlinear_arith)
                    requires
                        dec < spec_pow10(digits as nat),
                        spec_pow10((9 - digits) as nat) >= 1,
                {
                    crate::digits::lemma_pow10_pos((9 - digits) as nat);
                }
            }
            dec * pow10_u64(9 - digits)
        } else {
            0
        };
        Amount64::from_parts(int_part, dec_scaled)
    }

    /// As [`Amount64::from_unscaled_parts`].
    pub fn from_int_dec(int_part: u64, dec: u64) -> (r: Option<Amount64>)
        ensures
            dec >= AMOUNT64_SCALE ==> r is None,
            dec < AMOUNT64_SCALE ==> (match spec_fp64(int_part as nat, spec_scale_up(dec as nat, 9)) {
                Some(v) => r == Some(Amount64(v as u64)),
                None => r is None,
            }),
    {
        Amount64::from_unscaled_parts(int_part, dec)
    }

    /// The unscaled integer part and the scaled decimal part.
    pub fn to_parts(self) -> (r: (u64, u64))
        ensures
            r.0 == self.0 / AMOUNT64_SCALE,
            r.1 == self.0 % AMOUNT64_SCALE,
    {
        (self.0 / AMOUNT64_SCALE, self.0 % AMOUNT64_SCALE)
    }

    /// The scaled integer part and the scaled decimal part.
    pub fn split(self) -> (r: (u64, u64))
        ensures
            r.0 == (self.0 / AMOUNT64_SCALE) * AMOUNT64_SCALE,
            r.1 == self.0 % AMOUNT64_SCALE,
    {
        proof {
            assert((self.0 / AMOUNT64_SCALE) * AMOUNT64_SCALE <= self.0) by (nonlinear_arith);
        }
        ((self.0 / AMOUNT64_SCALE) * AMOUNT64_SCALE, self.0 % AMOUNT64_SCALE)
    }

    /// The amount with the decimal part dropped.
    pub fn trunc(self) -> (r: Amount64)
        ensures
            r.0 == (self.0 / AMOUNT64_SCALE) * AMOUNT64_SCALE,
    {
        proof {
            assert((self.0 / AMOUNT64_SCALE) * AMOUNT64_SCALE <= self.0) by (nonlinear_arith);
        }
        Amount64((self.0 / AMOUNT64_SCALE) * AMOUNT64_SCALE)
    }

    /// The decimal part alone.
    pub fn fract(self) -> (r: Amount64)
        ensures
            r.0 == self.0 % AMOUNT64_SCALE,
    {
        Amount64(self.0 % AMOUNT64_SCALE)
    }

    /// The raw value's eight big-endian bytes.
    pub fn to_be_bytes(self) -> (r: Vec<u8>)
        ensures
            r@ == crate::wire::spec_u64_to_be_bytes(self.0),
    {
        crate::wire::u64_to_be_bytes(self.0)
    }

    /// The raw value's eight little-endian bytes.
    pub fn to_le_bytes(self) -> (r: Vec<u8>)
        ensures
            r@ == vstd::bytes::spec_u64_to_le_bytes(self.0),
    {
        vstd::bytes::u64_to_le_bytes(self.0)
    }

    /// The amount with the given big-endian raw bytes.
    pub fn from_be_bytes(b: &[u8]) -> (r: Amount64)
        requires
            b@.len() == 8,
        ensures
            r.0 == crate::wire::spec_u64_from_be_bytes(b@),
    {
        Amount64(crate::wire::u64_from_be_bytes(b))
    }

    /// The amount with the given little-endian raw bytes.
    pub fn from_le_bytes(b: &[u8]) -> (r: Amount64)
        requires
            b@.len() == 8,
        ensures
            r.0 == vstd::bytes::spec_u64_from_le_bytes(b@),
    {
        Amount64(vstd::bytes::u64_from_le_bytes(b))
    }

    /// Round `places` to the right of the decimal point; negative rounds to
    /// the left. Rounding past the integer digits gives zero.
    pub fn round(self, places: i32) -> (r: Amount64)
        ensures
            r.0 == spec_round64(self.0 as nat, places as int),
    {
        proof {
            lemma_scale64();
        }
        if places < 0 {
            if places < -11 {
                return Amount64(0);
            }
            return self.round_int((-places) as u32);
        } else if places > 0 {
            if places >= 9 {
                return self;
            }
            return self.round_dec(places as u32);
        }
        let int_part = self.0 / AMOUNT64_SCALE;
        let dec = self.0 % AMOUNT64_SCALE;
        proof {
            assert(spec_pow10(8) == 100_000_000) by {
                reveal_with_fuel(spec_pow10, 10);
            }
        }
        let int2 = if dec > 5 * 100_000_000 {
            int_part + 1
        } else {
            int_part
        };
        match Amount64::from_parts(int2, 0) {
            Some(a) => a,
            None => Amount64(0),
        }
    }

    fn round_dec(self, places: u32) -> (r: Amount64)
        requires
            1 <= places < 9,
        ensures
            r.0 == spec_round_dec64(self.0 as nat, places as nat),
    {
        proof {
            lemma_scale64();
            crate::digits::lemma_pow10_pos((8 - places) as nat);
            crate::digits::lemma_pow10_increases((8 - places) as nat, 8);
            assert(spec_pow10(8) == 100_000_000) by {
                reveal_with_fuel(spec_pow10, 10);
            }
        }
        let int_part = self.0 / AMOUNT64_SCALE;
        let n = pow10_u64(8 - (places as usize));
        let base = (self.0 % AMOUNT64_SCALE) / n;
        let d = base % 10;
        let mut dec = base - d;
        if d >= 5 {
            dec = dec + 10;
            if dec >= 100 {
                return match Amount64::from_parts(int_part + 1, 0) {
                    Some(a) => a,
                    None => Amount64(0),
                };
            }
        }
        proof {
            let m0 = (self.0 % AMOUNT64_SCALE) as int;
            let n0 = n as int;
            assert(dec * n0 <= m0 + 10 * n0) by (nonlinear_arith)
                requires
                    n0 >= 1,
                    0 <= dec <= m0 / n0 + 10,
                    m0 >= 0,
            ;
        }
        match Amount64::from_parts(int_part, dec * n) {
            Some(a) => a,
            None => Amount64(0),
        }
    }

    fn round_int(self, places: u32) -> (r: Amount64)
        requires
            1 <= places <= 11,
        ensures
            r.0 == spec_round_int64(self.0 as nat, places as nat),
    {
        proof {
            lemma_scale64();
            crate::digits::lemma_pow10_pos((places - 1) as nat);
            crate::digits::lemma_pow10_increases((places - 1) as nat, 10);
            assert(spec_pow10(10) == 10_000_000_000) by {
                reveal_with_fuel(spec_pow10, 11);
            }
        }
        let n = pow10_u64((places - 1) as usize);
        let base = (self.0 / AMOUNT64_SCALE) / n;
        let d = base % 10;
        let mut int_part = base - d;
        if d >= 5 {
            int_part = int_part + 10;
        }
        proof {
            let v0 = (self.0 / AMOUNT64_SCALE) as int;
            let n0 = n as int;
            assert(v0 <= AMOUNT64_MAX_INT);
            assert(int_part * n0 <= v0 + 10 * n0) by (nonlinear_arith)
                requires
                    n0 >= 1,
                    0 <= int_part <= v0 / n0 + 10,
                    v0 >= 0,
            ;
        }
        match Amount64::from_parts(int_part * n, 0) {
            Some(a) => a,
            None => Amount64(0),
        }
    }

    /// Lay the amount out as text per `opts`; see [`spec_format64`].
    #[verifier::loop_isolation(false)]
    pub fn format(self, opts: FormatOpts) -> (r: String)
        ensures
            r@ == spec_format64(self.0 as nat, opts.width, opts.precision),
    {
        proof {
            lemma_scale64();
        }
        let prec: usize = match opts.precision {
            Some(p) => p,
            None => 0,
        };
        let num: Amount64 = match opts.precision {
            Some(p) => {
                if p >= 9 {
                    proof {
                        assert(p as int >= 9);
                    }
                    self
                } else {
                    self.round(p as i32)
                }
            },
            None => self,
        };
        let int_part = num.0 / AMOUNT64_SCALE;
        let mut dec = num.0 % AMOUNT64_SCALE;
        while dec != 0 && dec % 10 == 0
            invariant
                spec_strip_zeros(dec as nat) == spec_strip_zeros((num.0 % AMOUNT64_SCALE) as nat),
            decreases dec,
        {
            dec = dec / 10;
        }
        let int_digits = num_digits_u64(int_part);
        proof {
            lemma_dec_chars_len(int_part as nat);
        }
        let mut res = String::new();
        match opts.width {
            Some(w) => {
                if w > int_digits {
                    let mut k: usize = 0;
                    let pad = w - int_digits;
                    while k < pad
                        invariant
                            k <= pad,
                            res@ =~= spec_zero_chars(k as nat),
                        decreases pad - k,
                    {
                        res.append("0");
                        proof {
                            reveal_strlit("0");
                            assert(res@ =~= spec_zero_chars((k + 1) as nat));
                        }
                        k += 1;
                    }
                }
            },
            None => {},
        }
        let ghost padded_prefix = res@;
        push_dec_chars_u64(&mut res, int_part);
        if opts.precision.is_none() || prec >= 1 {
            res.append(".");
            proof {
                reveal_strlit(".");
            }
            let dec_digits = num_digits_u64(dec);
            proof {
                lemma_dec_chars_len(dec as nat);
            }
            push_dec_chars_u64(&mut res, dec);
            if prec > dec_digits {
                let pad = prec - dec_digits;
                let ghost before = res@;
                let mut k: usize = 0;
                while k < pad
                    invariant
                        k <= pad,
                        res@ =~= before + spec_zero_chars(k as nat),
                    decreases pad - k,
                {
                    res.append("0");
                    proof {
                        reveal_strlit("0");
                        assert(res@ =~= before + spec_zero_chars((k + 1) as nat));
                    }
                    k += 1;
                }
            }
            proof {
                assert(res@ =~= spec_format64(self.0 as nat, opts.width, opts.precision));
            }
        } else {
            proof {
                assert(res@ =~= spec_format64(self.0 as nat, opts.width, opts.precision));
            }
        }
        res
    }

    /// Parse a decimal string; see [`spec_amt_scan64`]. Where the scanned
    /// parts cannot be represented, the overflow error is answered.
    #[verifier::loop_isolation(false)]
    pub fn from_str(s: &str) -> (r: Result<Amount64, ParseError>)
        ensures
            match spec_amt_scan64(s.spec_bytes(), 0, false, 0, 0, 8) {
                Ok(parts) => match spec_fp64(parts.0, parts.1) {
                    Some(v) => r == Ok::<Amount64, ParseError>(Amount64(v as u64)),
                    None => r == Err::<Amount64, ParseError>(ParseError::MaxIntExceeded),
                },
                Err(e) => r == Err::<Amount64, ParseError>(e),
            },
    {
        proof {
            lemma_scale64();
        }
        let bytes = s.as_bytes();
        let ghost bs = s.spec_bytes();
        let mut in_dec = false;
        let mut int_p: u64 = 0;
        let mut dec_p: u64 = 0;
        let mut place: u64 = 8;
        let mut i: usize = 0;
        while i < bytes.len()
            invariant
                bytes@ == bs,
                i <= bs.len(),
                int_p <= AMOUNT64_MAX_INT,
                place <= 8,
                dec_p as nat <= spec_pow10(9) - spec_pow10((place + 1) as nat),
                spec_amt_scan64(bs, 0, false, 0, 0, 8) == spec_amt_scan64(
                    bs,
                    i as int,
                    in_dec,
                    int_p as nat,
                    dec_p as nat,
                    place as nat,
                ),
            decreases bs.len() - i,
        {
            let b = bytes[i];
            if b == 46 {
                if in_dec {
                    return Err(ParseError::DoubleDecimal);
                }
                in_dec = true;
            } else if 48 <= b && b <= 57 {
                let d = (b - 48) as u64;
                if !in_dec {
                    let next = int_p * 10 + d;
                    if next > AMOUNT64_MAX_INT {
                        return Err(ParseError::MaxIntExceeded);
                    }
                    int_p = next;
                } else {
                    if place == 0 {
                        break ;
                    }
                    proof {
                        crate::digits::lemma_pow10_increases(place as nat, 8);
                        assert(spec_pow10(8) == 100_000_000 && spec_pow10(9) == 1_000_000_000) by {
                            reveal_with_fuel(spec_pow10, 10);
                        }
                        assert(d * spec_pow10(place as nat) <= 9 * spec_pow10(place as nat))
                            by (nonlinear_arith)
                            requires
                                d <= 9,
                        ;
                        assert(spec_pow10((place + 1) as nat) == 10 * spec_pow10(place as nat));
                    }
                    let unit = pow10_u64(place as usize);
                    dec_p = dec_p + d * unit;
                    place = place - 1;
                }
            } else {
                return Err(ParseError::NonDigit);
            }
            i += 1;
        }
        match Amount64::from_parts(int_p, dec_p) {
            Some(a) => Ok(a),
            None => Err(ParseError::MaxIntExceeded),
        }
    }

    /// The sum; the caller keeps it in range.
    pub fn add(self, other: Amount64) -> (r: Amount64)
        requires
            self.0 + other.0 <= u64::MAX,
        ensures
            r.0 == self.0 + other.0,
    {
        Amount64(self.0 + other.0)
    }

    /// The difference; the caller keeps it non-negative.
    pub fn sub(self, other: Amount64) -> (r: Amount64)
        requires
            other.0 <= self.0,
        ensures
            r.0 == self.0 - other.0,
    {
        Amount64(self.0 - other.0)
    }

    /// The sum, or `None` past the top of the range.
    pub fn checked_add(self, other: Amount64) -> (r: Option<Amount64>)
        ensures
            self.0 + other.0 <= u64::MAX ==> r == Some(Amount64((self.0 + other.0) as u64)),
            self.0 + other.0 > u64::MAX ==> r is None,
    {
        match self.0.checked_add(other.0) {
            Some(v) => Some(Amount64(v)),
            None => None,
        }
    }

    /// The fixed-point product, or `None` where it leaves the raw range; see
    /// [`spec_mul64`].
    pub fn checked_mul(self, other: Amount64) -> (r: Option<Amount64>)
        ensures
            spec_mul64(self.0 as nat, other.0 as nat) <= u64::MAX ==> r == Some(
                Amount64(spec_mul64(self.0 as nat, other.0 as nat) as u64),
            ),
            spec_mul64(self.0 as nat, other.0 as nat) > u64::MAX ==> r is None,
    {
        let int2 = other.0 / AMOUNT64_SCALE;
        let dec2 = other.0 % AMOUNT64_SCALE;
        let int1 = self.0 / AMOUNT64_SCALE;
        let dec1 = self.0 % AMOUNT64_SCALE;
        proof {
            assert(dec1 * dec2 < AMOUNT64_SCALE * AMOUNT64_SCALE) by (nonlinear_arith)
                requires
                    dec1 < AMOUNT64_SCALE,
                    dec2 < AMOUNT64_SCALE,
            ;
            if spec_mul64(self.0 as nat, other.0 as nat) <= u64::MAX {
                lemma_mul64_terms(self.0 as nat, other.0 as nat);
            }
        }
        let t3 = dec1 * dec2 / AMOUNT64_SCALE;
        let t1 = match self.0.checked_mul(int2) {
            Some(v) => v,
            None => {
                return None;
            },
        };
        let t2 = match int1.checked_mul(dec2) {
            Some(v) => v,
            None => {
                return None;
            },
        };
        let s12 = match t1.checked_add(t2) {
            Some(v) => v,
            None => {
                return None;
            },
        };
        match s12.checked_add(t3) {
            Some(v) => Some(Amount64(v)),
            None => None,
        }
    }

    /// The fixed-point product, as the scale rule computes it; see
    /// [`spec_mul64`]. The caller keeps it in range.
    pub fn mul(self, other: Amount64) -> (r: Amount64)
        requires
            spec_mul64(self.0 as nat, other.0 as nat) <= u64::MAX,
        ensures
            r.0 == spec_mul64(self.0 as nat, other.0 as nat),
    {
        proof {
            lemma_scale64();
        }
        let int2 = other.0 / AMOUNT64_SCALE;
        let dec2 = other.0 % AMOUNT64_SCALE;
        let int1 = self.0 / AMOUNT64_SCALE;
        let dec1 = self.0 % AMOUNT64_SCALE;
        proof {
            lemma_mul64_terms(self.0 as nat, other.0 as nat);
        }
        Amount64(self.0 * int2 + int1 * dec2 + dec1 * dec2 / AMOUNT64_SCALE)
    }

    /// The fixed-point quotient, as the implementation computes it; see
    /// [`spec_div64`]. The caller keeps the intermediate and final values
    /// representable.
    pub fn div(self, other: Amount64) -> (r: Amount64)
        requires
            other.0 != 0,
            (self.0 % other.0) * AMOUNT64_SCALE <= u64::MAX,
            spec_div64(self.0 as nat, other.0 as nat) is Some,
        ensures
            r.0 == spec_div64(self.0 as nat, other.0 as nat).unwrap(),
    {
        proof {
            lemma_scale64();
        }
        let int_part = self.0 / other.0;
        let rem = self.0 % other.0;
        let fract = rem * AMOUNT64_SCALE / other.0;
        proof {
            let r0 = rem as int;
            let b0 = other.0 as int;
            let s0 = AMOUNT64_SCALE as int;
            assert(r0 * s0 / b0 < s0) by (nonlinear_arith)
                requires
                    b0 > 0,
                    0 <= r0 < b0,
                    s0 > 0,
            ;
        }
        match Amount64::from_unscaled_parts(int_part, fract) {
            Some(a) => a,
            None => {
                proof {
                    assert(false);
                }
                Amount64(0)
            },
        }
    }

    /// The remainder operation of this arithmetic, defined as the
    /// difference.
    pub fn rem(self, other: Amount64) -> (r: Amount64)
        requires
            other.0 <= self.0,
        ensures
            r.0 == self.0 - other.0,
    {
        Amount64(self.0 - other.0)
    }
}

/// The fixed-point product rule: whole `a` times `b`'s integer part, plus
/// `a`'s integer part times `b`'s decimal part, plus the scaled-down product
/// of the decimal parts.
pub open spec fn spec_mul64(a: nat, b: nat) -> nat {
    let s = AMOUNT64_SCALE as nat;
    a * (b / s) + (a / s) * (b % s) + (a % s) * (b % s) / s
}

/// Each term of the product rule stays within the total.
proof fn lemma_mul64_terms(a: nat, b: nat)
    requires
        spec_mul64(a, b) <= u64::MAX,
    ensures
        a * (b / (AMOUNT64_SCALE as nat)) <= spec_mul64(a, b),
        (a / (AMOUNT64_SCALE as nat)) * (b % (AMOUNT64_SCALE as nat)) <= spec_mul64(a, b),
        (a % (AMOUNT64_SCALE as nat)) * (b % (AMOUNT64_SCALE as nat)) / (AMOUNT64_SCALE as nat)
            <= spec_mul64(a, b),
        (a % (AMOUNT64_SCALE as nat)) * (b % (AMOUNT64_SCALE as nat)) <= u64::MAX,
{
    let s = AMOUNT64_SCALE as nat;
    assert((a % s) * (b % s) < s * s) by (nonlinear_arith)
        requires
            a % s < s,
            b % s < s,
            s > 0,
    ;
}

/// The fixed-point quotient rule: the integer quotient, and the remainder
/// scaled up and divided again, re-read as an unscaled decimal part.
pub open spec fn spec_div64(a: nat, b: nat) -> Option<nat>
    recommends
        b != 0,
{
    let s = AMOUNT64_SCALE as nat;
    let int_part = a / b;
    let fract = (a % b) * s / b;
    if fract >= s {
        None
    } else {
        spec_fp64(int_part, spec_scale_up(fract, 9))
    }
}

/// A price: an `Amount64` raw value, with the top raw value standing for
/// "market".
#[derive(Clone, Copy, Debug, Default, PartialEq, Eq, Structural)]
pub struct Price(pub Amount64);

/// The raw value that means "match at the best available price".
pub const PRICE_MARKET_RAW: u64 = 0xFFFF_FFFF_FFFF_FFFF;

impl Price {
    /// The market sentinel.
    pub fn market() -> (r: Price)
        ensures
            r.0.0 == PRICE_MARKET_RAW,
    {
        Price(Amount64(PRICE_MARKET_RAW))
    }

    /// The zero price.
    pub fn zero() -> (r: Price)
        ensures
            r.0.0 == 0,
    {
        Price(Amount64(0))
    }

    /// The largest finite price.
    pub fn max_value() -> (r: Price)
        ensures
            r.0.0 == PRICE_MARKET_RAW - 1,
    {
        Price(Amount64(PRICE_MARKET_RAW - 1))
    }

    /// The smallest price.
    pub fn min_value() -> (r: Price)
        ensures
            r.0.0 == 0,
    {
        Price(Amount64(0))
    }

    pub fn from_parts(int_part: u64, dec: u64) -> (r: Option<Price>)
        ensures
            match spec_fp64(int_part as nat, dec as nat) {
                Some(v) => r == Some(Price(Amount64(v as u64))),
                None => r is None,
            },
    {
        match Amount64::from_parts(int_part, dec) {
            Some(a) => Some(Price(a)),
            None => None,
        }
    }

    pub fn from_int_dec(int_part: u64, dec: u64) -> (r: Option<Price>)
        ensures
            dec >= AMOUNT64_SCALE ==> r is None,
            dec < AMOUNT64_SCALE ==> (match spec_fp64(int_part as nat, spec_scale_up(dec as nat, 9)) {
                Some(v) => r == Some(Price(Amount64(v as u64))),
                None => r is None,
            }),
    {
        match Amount64::from_int_dec(int_part, dec) {
            Some(a) => Some(Price(a)),
            None => None,
        }
    }

    /// A finite price from an amount; the market bit pattern is refused.
    pub fn from_amount(amt: Amount64) -> (r: Option<Price>)
        ensures
            amt.0 == PRICE_MARKET_RAW ==> r is None,
            amt.0 != PRICE_MARKET_RAW ==> r == Some(Price(amt)),
    {
        if amt.0 == PRICE_MARKET_RAW {
            return None;
        }
        Some(Price(amt))
    }

    /// The price with the given little-endian raw bytes.
    pub fn from_bytes(b: &[u8]) -> (r: Price)
        requires
            b@.len() == 8,
        ensures
            r.0.0 == vstd::bytes::spec_u64_from_le_bytes(b@),
    {
        Price(Amount64::from_le_bytes(b))
    }

    /// The raw value's eight little-endian bytes.
    pub fn to_bytes(self) -> (r: Vec<u8>)
        ensures
            r@ == vstd::bytes::spec_u64_to_le_bytes(self.0.0),
    {
        self.0.to_le_bytes()
    }

    pub fn is_market(self) -> (r: bool)
        ensures
            r == (self.0.0 == PRICE_MARKET_RAW),
    {
        self.0.0 == PRICE_MARKET_RAW
    }

    /// Every raw value is either the market sentinel or a finite price, so
    /// every price is valid.
    pub fn is_valid(self) -> (r: bool)
        ensures
            r,
    {
        self.is_market() || self.0.0 <= PRICE_MARKET_RAW - 1
    }

    pub fn to_amount64(self) -> (r: Amount64)
        ensures
            r == self.0,
    {
        self.0
    }
}

/// How many decimal digits an `Amount128` keeps.
pub const AMOUNT128_DECS: u32 = 18;

/// How many integer digits an `Amount128` can hold.
pub const AMOUNT128_INTS: u32 = 21;

/// The raw factor between one unit and one raw step.
pub const AMOUNT128_SCALE: u128 = 1_000_000_000_000_000_000;

/// The integer part of the largest `Amount128`.
pub const AMOUNT128_MAX_INT: u128 = 340_282_366_920_938_463_463;

/// The decimal part of the largest `Amount128`.
pub const AMOUNT128_MAX_DEC: u128 = 374_607_431_768_211_455;

/// `spec_pow10(18)` is the `Amount128` scale.
pub proof fn lemma_scale128()
    ensures
        spec_pow10(18) == AMOUNT128_SCALE,
{
    assert(spec_pow10(18) == 1_000_000_000_000_000_000) by {
        reveal_with_fuel(spec_pow10, 19);
    }
}

/// The value `from_parts` builds for an `Amount128`, or `None` where it
/// refuses.
pub open spec fn spec_fp128(int_part: nat, dec: nat) -> Option<nat> {
    if int_part > AMOUNT128_MAX_INT {
        None
    } else if int_part == AMOUNT128_MAX_INT && dec > AMOUNT128_MAX_DEC {
        None
    } else if int_part * AMOUNT128_SCALE + dec > u128::MAX {
        None
    } else {
        Some((int_part * AMOUNT128_SCALE + dec) as nat)
    }
}

/// As [`spec_fp128`], with zero where it refuses.
pub open spec fn spec_fp128_or_zero(int_part: nat, dec: nat) -> nat {
    match spec_fp128(int_part, dec) {
        Some(v) => v,
        None => 0,
    }
}

/// The rounding of `v` to `places` decimal places, as the implementation
/// performs it, carries and all.
pub open spec fn spec_round_dec128(v: nat, places: nat) -> nat
    recommends
        1 <= places < 18,
{
    let n = spec_pow10((17 - places) as nat);
    let int0 = v / (AMOUNT128_SCALE as nat);
    let dec0 = (v % (AMOUNT128_SCALE as nat)) / n;
    let d = dec0 % 10;
    let dec1 = (dec0 - d) as nat;
    if d >= 5 {
        if dec1 + 10 >= 100 {
            spec_fp128_or_zero(int0 + 1, 0)
        } else {
            spec_fp128_or_zero(int0, (dec1 + 10) * n)
        }
    } else {
        spec_fp128_or_zero(int0, dec1 * n)
    }
}

/// The rounding of `v` to `places` integer places, as the implementation
/// performs it.
pub open spec fn spec_round_int128(v: nat, places: nat) -> nat
    recommends
        1 <= places <= 21,
{
    let n = spec_pow10((places - 1) as nat);
    let int0 = (v / (AMOUNT128_SCALE as nat)) / n;
    let d = int0 % 10;
    let int1 = (int0 - d) as nat;
    if d >= 5 {
        spec_fp128_or_zero((int1 + 10) * n, 0)
    } else {
        spec_fp128_or_zero(int1 * n, 0)
    }
}

/// Rounding to the ones place: round half up on the decimal part.
pub open spec fn spec_round_zero128(v: nat) -> nat {
    let int0 = v / (AMOUNT128_SCALE as nat);
    let dec0 = v % (AMOUNT128_SCALE as nat);
    if dec0 > 5 * spec_pow10(17) {
        spec_fp128_or_zero(int0 + 1, 0)
    } else {
        spec_fp128_or_zero(int0, 0)
    }
}

/// [`Amount128::round`] over the whole range of `places`.
pub open spec fn spec_round128(v: nat, places: int) -> nat {
    if places < 0 {
        if places < -21 {
            0
        } else {
            spec_round_int128(v, (-places) as nat)
        }
    } else if places == 0 {
        spec_round_zero128(v)
    } else if places >= 18 {
        v
    } else {
        spec_round_dec128(v, places as nat)
    }
}

/// What [`Amount128::format`] prints for raw value `v`; the layout rule of
/// [`spec_format64`] at the wider scale.
pub open spec fn spec_format128(v: nat, width: Option<usize>, precision: Option<usize>) -> Seq<
    char,
> {
    let prec: nat = match precision {
        Some(p) => p as nat,
        None => 0,
    };
    let num = match precision {
        Some(p) => spec_round128(v, p as int),
        None => v,
    };
    let int_part = num / (AMOUNT128_SCALE as nat);
    let dec = spec_strip_zeros(num % (AMOUNT128_SCALE as nat));
    let int_chars = spec_dec_chars(int_part);
    let padded = match width {
        Some(w) => if w > int_chars.len() {
            spec_zero_chars((w - int_chars.len()) as nat) + int_chars
        } else {
            int_chars
        },
        None => int_chars,
    };
    if precision is None || prec >= 1 {
        let dec_chars = spec_dec_chars(dec);
        let zeros = if prec >= dec_chars.len() {
            spec_zero_chars((prec - dec_chars.len()) as nat)
        } else {
            Seq::empty()
        };
        padded + seq!['.'] + dec_chars + zeros
    } else {
        padded
    }
}

/// The strict decimal-string scan behind [`Amount128::from_str`]; the rule of
/// [`spec_amt_scan64`] at the wider scale.
pub open spec fn spec_amt_scan128(
    s: Seq<u8>,
    i: int,
    in_dec: bool,
    int_p: nat,
    dec_p: nat,
    place: nat,
) -> Result<(nat, nat), ParseError>
    decreases s.len() - i,
{
    if i < 0 || i >= s.len() {
        Ok((int_p, dec_p))
    } else if s[i] == 46 {
        if in_dec {
            Err(ParseError::DoubleDecimal)
        } else {
            spec_amt_scan128(s, i + 1, true, int_p, dec_p, place)
        }
    } else if 48 <= s[i] <= 57 {
        let d = (s[i] - 48) as nat;
        if !in_dec {
            if int_p * 10 + d > AMOUNT128_MAX_INT {
                Err(ParseError::MaxIntExceeded)
            } else {
                spec_amt_scan128(s, i + 1, in_dec, int_p * 10 + d, dec_p, place)
            }
        } else {
            if place == 0 {
                Ok((int_p, dec_p))
            } else {
                spec_amt_scan128(
                    s,
                    i + 1,
                    in_dec,
                    int_p,
                    dec_p + d * spec_pow10(place),
                    (place - 1) as nat,
                )
            }
        }
    } else {
        Err(ParseError::NonDigit)
    }
}

/// An unsigned fixed-point number with eighteen decimal places, stored as a
/// raw scaled `u128`.
#[derive(Clone, Copy, Debug, Default, PartialEq, Eq, PartialOrd, Ord, Hash, Structural)]
pub struct Amount128(pub u128);

impl Amount128 {
    /// The zero amount.
    pub fn zero() -> (r: Amount128)
        ensures
            r.0 == 0,
    {
        Amount128(0)
    }

    /// One unit.
    pub fn one() -> (r: Amount128)
        ensures
            r.0 == AMOUNT128_SCALE,
    {
        Amount128(AMOUNT128_SCALE)
    }

    /// The largest amount.
    pub fn max_value() -> (r: Amount128)
        ensures
            r.0 == u128::MAX,
    {
        Amount128(u128::MAX)
    }

    /// The smallest amount.
    pub fn min_value() -> (r: Amount128)
        ensures
            r.0 == 0,
    {
        Amount128(0)
    }

    /// Scale a whole number of units; `None` past the representable range.
    pub fn from_u128(u: u128) -> (r: Option<Amount128>)
        ensures
            u <= AMOUNT128_MAX_INT ==> r == Some(Amount128((u * AMOUNT128_SCALE) as u128)),
            u > AMOUNT128_MAX_INT ==> r is None,
    {
        if u > AMOUNT128_MAX_INT {
            return None;
        }
        proof {
            assert(u * AMOUNT128_SCALE <= AMOUNT128_MAX_INT * AMOUNT128_SCALE) by (nonlinear_arith)
                requires
                    u <= AMOUNT128_MAX_INT,
            ;
        }
        Some(Amount128(u * AMOUNT128_SCALE))
    }

    /// Build from an unscaled integer part and a fully scaled decimal part.
    pub fn from_parts(int_part: u128, dec: u128) -> (r: Option<Amount128>)
        ensures
            match spec_fp128(int_part as nat, dec as nat) {
                Some(v) => r == Some(Amount128(v as u128)),
                None => r is None,
            },
    {
        if int_part > AMOUNT128_MAX_INT {
            return None;
        }
        if int_part == AMOUNT128_MAX_INT && dec > AMOUNT128_MAX_DEC {
            return None;
        }
        proof {
            assert(int_part * AMOUNT128_SCALE <= AMOUNT128_MAX_INT * AMOUNT128_SCALE)
                by (nonlinear_arith)
                requires
                    int_part <= AMOUNT128_MAX_INT,
            ;
        }
        let base = int_part * AMOUNT128_SCALE;
        match base.checked_add(dec) {
            Some(v) => Some(Amount128(v)),
            None => None,
        }
    }

    /// Build from a scaled integer part and a scaled decimal part below the
    /// scale.
    pub fn from_split(int_part: u128, dec: u128) -> (r: Option<Amount128>)
        ensures
            dec >= AMOUNT128_SCALE ==> r is None,
            dec < AMOUNT128_SCALE && int_part + dec <= u128::MAX ==> r == Some(
                Amount128((int_part + dec) as u128),
            ),
            dec < AMOUNT128_SCALE && int_part + dec > u128::MAX ==> r is None,
    {
        if dec >= AMOUNT128_SCALE {
            return None;
        }
        match int_part.checked_add(dec) {
            Some(v) => Some(Amount128(v)),
            None => None,
        }
    }

    /// The unscaled integer part and the scaled decimal part.
    pub fn to_parts(self) -> (r: (u128, u128))
        ensures
            r.0 == self.0 / AMOUNT128_SCALE,
            r.1 == self.0 % AMOUNT128_SCALE,
    {
        (self.0 / AMOUNT128_SCALE, self.0 % AMOUNT128_SCALE)
    }

    /// The scaled integer part and the scaled decimal part.
    pub fn split(self) -> (r: (u128, u128))
        ensures
            r.0 == (self.0 / AMOUNT128_SCALE) * AMOUNT128_SCALE,
            r.1 == self.0 % AMOUNT128_SCALE,
    {
        proof {
            assert((self.0 / AMOUNT128_SCALE) * AMOUNT128_SCALE <= self.0) by (nonlinear_arith);
        }
        ((self.0 / AMOUNT128_SCALE) * AMOUNT128_SCALE, self.0 % AMOUNT128_SCALE)
    }

    /// The amount with the decimal part dropped.
    pub fn trunc(self) -> (r: Amount128)
        ensures
            r.0 == (self.0 / AMOUNT128_SCALE) * AMOUNT128_SCALE,
    {
        proof {
            assert((self.0 / AMOUNT128_SCALE) * AMOUNT128_SCALE <= self.0) by (nonlinear_arith);
        }
        Amount128((self.0 / AMOUNT128_SCALE) * AMOUNT128_SCALE)
    }

    /// The decimal part alone.
    pub fn fract(self) -> (r: Amount128)
        ensures
            r.0 == self.0 % AMOUNT128_SCALE,
    {
        Amount128(self.0 % AMOUNT128_SCALE)
    }

    /// The raw value's sixteen little-endian bytes.
    pub fn to_le_bytes(self) -> (r: Vec<u8>)
        ensures
            r@ == vstd::bytes::spec_u128_to_le_bytes(self.0),
    {
        vstd::bytes::u128_to_le_bytes(self.0)
    }

    /// The amount with the given little-endian raw bytes.
    pub fn from_le_bytes(b: &[u8]) -> (r: Amount128)
        requires
            b@.len() == 16,
        ensures
            r.0 == vstd::bytes::spec_u128_from_le_bytes(b@),
    {
        Amount128(vstd::bytes::u128_from_le_bytes(b))
    }

    /// Round `places` to the right of the decimal point; negative rounds to
    /// the left. Rounding past the integer digits gives zero.
    pub fn round(self, places: i32) -> (r: Amount128)
        ensures
            r.0 == spec_round128(self.0 as nat, places as int),
    {
        proof {
            lemma_scale128();
        }
        if places < 0 {
            if places < -21 {
                return Amount128(0);
            }
            return self.round_int((-places) as u32);
        } else if places > 0 {
            if places >= 18 {
                return self;
            }
            return self.round_dec(places as u32);
        }
        let int_part = self.0 / AMOUNT128_SCALE;
        let dec = self.0 % AMOUNT128_SCALE;
        proof {
            assert(spec_pow10(17) == 100_000_000_000_000_000) by {
                reveal_with_fuel(spec_pow10, 19);
            }
        }
        let int2 = if dec > 5 * 100_000_000_000_000_000 {
            int_part + 1
        } else {
            int_part
        };
        match Amount128::from_parts(int2, 0) {
            Some(a) => a,
            None => Amount128(0),
        }
    }

    fn round_dec(self, places: u32) -> (r: Amount128)
        requires
            1 <= places < 18,
        ensures
            r.0 == spec_round_dec128(self.0 as nat, places as nat),
    {
        proof {
            lemma_scale128();
            crate::digits::lemma_pow10_pos((17 - places) as nat);
            crate::digits::lemma_pow10_increases((17 - places) as nat, 17);
            assert(spec_pow10(17) == 100_000_000_000_000_000) by {
                reveal_with_fuel(spec_pow10, 19);
            }
        }
        let int_part = self.0 / AMOUNT128_SCALE;
        let n = pow10_u128(17 - (places as usize));
        let base = (self.0 % AMOUNT128_SCALE) / n;
        let d = base % 10;
        let mut dec = base - d;
        if d >= 5 {
            dec = dec + 10;
            if dec >= 100 {
                return match Amount128::from_parts(int_part + 1, 0) {
                    Some(a) => a,
                    None => Amount128(0),
                };
            }
        }
        proof {
            let m0 = (self.0 % AMOUNT128_SCALE) as int;
            let n0 = n as int;
            assert(dec * n0 <= m0 + 10 * n0) by (nonlinear_arith)
                requires
                    n0 >= 1,
                    0 <= dec <= m0 / n0 + 10,
                    m0 >= 0,
            ;
        }
        match Amount128::from_parts(int_part, dec * n) {
            Some(a) => a,
            None => Amount128(0),
        }
    }

    fn round_int(self, places: u32) -> (r: Amount128)
        requires
            1 <= places <= 21,
        ensures
            r.0 == spec_round_int128(self.0 as nat, places as nat),
    {
        proof {
            lemma_scale128();
            crate::digits::lemma_pow10_pos((places - 1) as nat);
            crate::digits::lemma_pow10_increases((places - 1) as nat, 20);
            assert(spec_pow10(20) == 100_000_000_000_000_000_000) by {
                reveal_with_fuel(spec_pow10, 21);
            }
        }
        let n = pow10_u128((places - 1) as usize);
        let base = (self.0 / AMOUNT128_SCALE) / n;
        let d = base % 10;
        let mut int_part = base - d;
        if d >= 5 {
            int_part = int_part + 10;
        }
        proof {
            let v0 = (self.0 / AMOUNT128_SCALE) as int;
            let n0 = n as int;
            assert(v0 <= AMOUNT128_MAX_INT);
            assert(int_part * n0 <= v0 + 10 * n0) by (nonlinear_arith)
                requires
                    n0 >= 1,
                    0 <= int_part <= v0 / n0 + 10,
                    v0 >= 0,
            ;
        }
        match Amount128::from_parts(int_part * n, 0) {
            Some(a) => a,
            None => Amount128(0),
        }
    }

    /// Lay the amount out as text per `opts`; see [`spec_format128`].
    #[verifier::loop_isolation(false)]
    pub fn format(self, opts: FormatOpts) -> (r: String)
        ensures
            r@ == spec_format128(self.0 as nat, opts.width, opts.precision),
    {
        proof {
            lemma_scale128();
        }
        let prec: usize = match opts.precision {
            Some(p) => p,
            None => 0,
        };
        let num: Amount128 = match opts.precision {
            Some(p) => {
                if p >= 18 {
                    proof {
                        assert(p as int >= 18);
                    }
                    self
                } else {
                    self.round(p as i32)
                }
            },
            None => self,
        };
        let int_part = num.0 / AMOUNT128_SCALE;
        let mut dec = num.0 % AMOUNT128_SCALE;
        while dec != 0 && dec % 10 == 0
            invariant
                spec_strip_zeros(dec as nat) == spec_strip_zeros((num.0 % AMOUNT128_SCALE) as nat),
            decreases dec,
        {
            dec = dec / 10;
        }
        let int_digits = crate::digits::num_digits_u128(int_part);
        proof {
            lemma_dec_chars_len(int_part as nat);
        }
        let mut res = String::new();
        match opts.width {
            Some(w) => {
                if w > int_digits {
                    let mut k: usize = 0;
                    let pad = w - int_digits;
                    while k < pad
                        invariant
                            k <= pad,
                            res@ =~= spec_zero_chars(k as nat),
                        decreases pad - k,
                    {
                        res.append("0");
                        proof {
                            reveal_strlit("0");
                            assert(res@ =~= spec_zero_chars((k + 1) as nat));
                        }
                        k += 1;
                    }
                }
            },
            None => {},
        }
        push_dec_chars_u128(&mut res, int_part);
        if opts.precision.is_none() || prec >= 1 {
            res.append(".");
            proof {
                reveal_strlit(".");
            }
            let dec_digits = crate::digits::num_digits_u128(dec);
            proof {
                lemma_dec_chars_len(dec as nat);
            }
            push_dec_chars_u128(&mut res, dec);
            if prec > dec_digits {
                let pad = prec - dec_digits;
                let ghost before = res@;
                let mut k: usize = 0;
                while k < pad
                    invariant
                        k <= pad,
                        res@ =~= before + spec_zero_chars(k as nat),
                    decreases pad - k,
                {
                    res.append("0");
                    proof {
                        reveal_strlit("0");
                        assert(res@ =~= before + spec_zero_chars((k + 1) as nat));
                    }
                    k += 1;
                }
            }
            proof {
                assert(res@ =~= spec_format128(self.0 as nat, opts.width, opts.precision));
            }
        } else {
            proof {
                assert(res@ =~= spec_format128(self.0 as nat, opts.width, opts.precision));
            }
        }
        res
    }

    /// Parse a decimal string; see [`spec_amt_scan128`]. Where the scanned
    /// parts cannot be represented, the overflow error is answered.
    #[verifier::loop_isolation(false)]
    pub fn from_str(s: &str) -> (r: Result<Amount128, ParseError>)
        ensures
            match spec_amt_scan128(s.spec_bytes(), 0, false, 0, 0, 17) {
                Ok(parts) => match spec_fp128(parts.0, parts.1) {
                    Some(v) => r == Ok::<Amount128, ParseError>(Amount128(v as u128)),
                    None => r == Err::<Amount128, ParseError>(ParseError::MaxIntExceeded),
                },
                Err(e) => r == Err::<Amount128, ParseError>(e),
            },
    {
        proof {
            lemma_scale128();
        }
        let bytes = s.as_bytes();
        let ghost bs = s.spec_bytes();
        let mut in_dec = false;
        let mut int_p: u128 = 0;
        let mut dec_p: u128 = 0;
        let mut place: u64 = 17;
        let mut i: usize = 0;
        while i < bytes.len()
            invariant
                bytes@ == bs,
                i <= bs.len(),
                int_p <= AMOUNT128_MAX_INT,
                place <= 17,
                dec_p as nat <= spec_pow10(18) - spec_pow10((place + 1) as nat),
                spec_amt_scan128(bs, 0, false, 0, 0, 17) == spec_amt_scan128(
                    bs,
                    i as int,
                    in_dec,
                    int_p as nat,
                    dec_p as nat,
                    place as nat,
                ),
            decreases bs.len() - i,
        {
            let b = bytes[i];
            if b == 46 {
                if in_dec {
                    return Err(ParseError::DoubleDecimal);
                }
                in_dec = true;
            } else if 48 <= b && b <= 57 {
                let d = (b - 48) as u128;
                if !in_dec {
                    let next = int_p * 10 + d;
                    if next > AMOUNT128_MAX_INT {
                        return Err(ParseError::MaxIntExceeded);
                    }
                    int_p = next;
                } else {
                    if place == 0 {
                        break ;
                    }
                    proof {
                        crate::digits::lemma_pow10_increases(place as nat, 17);
                        assert(spec_pow10(17) == 100_000_000_000_000_000 && spec_pow10(18)
                            == 1_000_000_000_000_000_000) by {
                            reveal_with_fuel(spec_pow10, 19);
                        }
                        assert(d * spec_pow10(place as nat) <= 9 * spec_pow10(place as nat))
                            by (nonlinear_arith)
                            requires
                                d <= 9,
                        ;
                        assert(spec_pow10((place + 1) as nat) == 10 * spec_pow10(place as nat));
                    }
                    let unit = pow10_u128(place as usize);
                    dec_p = dec_p + d * unit;
                    place = place - 1;
                }
            } else {
                return Err(ParseError::NonDigit);
            }
            i += 1;
        }
        match Amount128::from_parts(int_p, dec_p) {
            Some(a) => Ok(a),
            None => Err(ParseError::MaxIntExceeded),
        }
    }

    /// The sum; the caller keeps it in range.
    pub fn add(self, other: Amount128) -> (r: Amount128)
        requires
            self.0 + other.0 <= u128::MAX,
        ensures
            r.0 == self.0 + other.0,
    {
        Amount128(self.0 + other.0)
    }

    /// The difference; the caller keeps it non-negative.
    pub fn sub(self, other: Amount128) -> (r: Amount128)
        requires
            other.0 <= self.0,
        ensures
            r.0 == self.0 - other.0,
    {
        Amount128(self.0 - other.0)
    }

    /// The raw product; unlike [`Amount64::mul`], the wider amount
    /// multiplies the raw values directly.
    pub fn mul(self, other: Amount128) -> (r: Amount128)
        requires
            self.0 * other.0 <= u128::MAX,
        ensures
            r.0 == self.0 * other.0,
    {
        Amount128(self.0 * other.0)
    }

    /// The raw quotient; unlike [`Amount64::div`], the wider amount divides
    /// the raw values directly.
    pub fn div(self, other: Amount128) -> (r: Amount128)
        requires
            other.0 != 0,
        ensures
            r.0 == self.0 / other.0,
    {
        Amount128(self.0 / other.0)
    }

    /// The remainder operation of this arithmetic, defined as the
    /// difference.
    pub fn rem(self, other: Amount128) -> (r: Amount128)
        requires
            other.0 <= self.0,
        ensures
            r.0 == self.0 - other.0,
    {
        Amount128(self.0 - other.0)
    }
}

impl core::str::FromStr for Amount64 {
    type Err = ParseError;

    fn from_str(s: &str) -> Result<Amount64, ParseError> {
        Amount64::from_str(s)
    }
}

impl core::str::FromStr for Amount128 {
    type Err = ParseError;

    fn from_str(s: &str) -> Result<Amount128, ParseError> {
        Amount128::from_str(s)
    }
}

impl core::str::FromStr for Price {
    type Err = ParseError;

    fn from_str(s: &str) -> Result<Price, ParseError> {
        match Amount64::from_str(s) {
            Ok(a) => Ok(Price(a)),
            Err(e) => Err(e),
        }
    }
}

} // verus!
