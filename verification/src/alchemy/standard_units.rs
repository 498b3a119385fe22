use vstd::prelude::*;

verus! {

/// Kelvin offset of the Celsius scale, as a signed value.
const KELVIN_TO_CELSIUS: i16 = 273;

/// The quotient of `a` by a positive `b`, rounded toward zero, as integer
/// division on Rust's signed types computes it.
pub open spec fn quotient_toward_zero(a: int, b: int) -> int
    recommends
        b > 0,
{
    if a >= 0 {
        a / b
    } else {
        -((-a) / b)
    }
}

/// A temperature, held as a whole number of kelvin.
#[derive(Clone, Copy, Debug, PartialEq, Eq, Structural)]
pub struct Temperature(u16);

impl View for Temperature {
    type V = u16;

    /// The temperature in kelvin.
    closed spec fn view(&self) -> u16 {
        self.0
    }
}

/// The value `kelvin as i16` gives: `kelvin` itself up to `i16::MAX`, and
/// above it `kelvin - 65536`.
pub open spec fn as_signed(kelvin: u16) -> int {
    if kelvin <= i16::MAX {
        kelvin as int
    } else {
        kelvin - 65536
    }
}

/// What `Temperature::celsius` gives for a temperature of `kelvin` kelvin: the
/// kelvin value read as an `i16`, less 273.
pub open spec fn spec_celsius(kelvin: u16) -> int {
    as_signed(kelvin) - 273
}

/// The kelvin value that `Temperature::from_celsius` gives for `celsius`
/// degrees Celsius: `celsius + 273`, wrapped into `u16` when it is negative.
pub open spec fn spec_kelvin_of_celsius(celsius: int) -> int {
    if celsius + 273 >= 0 {
        celsius + 273
    } else {
        celsius + 273 + 65536
    }
}

proof fn lemma_as_signed(kelvin: u16)
    ensures
        (kelvin as i16) == as_signed(kelvin),
{
    assert(kelvin <= 32767 ==> (kelvin as i16) == kelvin) by (bit_vector);
    assert(kelvin > 32767 ==> (kelvin as i16) == kelvin - 65536) by (bit_vector);
}

proof fn lemma_wrap_into_u16(sum: i16)
    ensures
        (sum as u16) == (if sum >= 0 {
            sum as int
        } else {
            sum + 65536
        }),
{
    assert(sum >= 0 ==> (sum as u16) == sum) by (bit_vector);
    assert(sum < 0 ==> (sum as u16) == sum + 65536) by (bit_vector);
}

/// What `Temperature::aproximate_fahrenheit` gives for a temperature of
/// `kelvin` kelvin: nine fifths of the Celsius value, rounded toward zero, plus 32.
pub open spec fn spec_aproximate_fahrenheit(kelvin: u16) -> int {
    quotient_toward_zero(spec_celsius(kelvin) * 9, 5) + 32
}

impl Temperature {
    /// Absolute zero, 0 K.
    pub fn absolute_zero() -> (t: Temperature)
        ensures
            t@ == 0,
    {
        Temperature(0)
    }

    /// The freezing point of water, 273 K.
    pub fn freezing() -> (t: Temperature)
        ensures
            t@ == 273,
    {
        Temperature(273)
    }

    /// Room temperature, 293 K.
    pub fn room_temperature() -> (t: Temperature)
        ensures
            t@ == 293,
    {
        Temperature(293)
    }

    /// The boiling point of water, 373 K.
    pub fn boiling() -> (t: Temperature)
        ensures
            t@ == 373,
    {
        Temperature(373)
    }

    /// The temperature of `kelvin` kelvin.
    pub fn from_kelvin(kelvin: u16) -> (t: Temperature)
        ensures
            t@ == kelvin,
    {
        Temperature(kelvin)
    }

    /// The temperature of `celsius` degrees Celsius: `celsius + 273` kelvin,
    /// wrapped into `u16` (so a value below absolute zero wraps around).
    /// Refused where `celsius + 273` overflows `i16`.
    pub fn from_celsius(celsius: i16) -> (t: Temperature)
        requires
            celsius + 273 <= i16::MAX,
        ensures
            t@ == spec_kelvin_of_celsius(celsius as int),
    {
        let sum: i16 = celsius + Self::freezing().0 as i16;
        proof {
            lemma_wrap_into_u16(sum);
        }
        Temperature(sum as u16)
    }

    /// The temperature in kelvin.
    pub fn kelvin(&self) -> (k: u16)
        ensures
            k == self@,
    {
        self.0
    }

    /// The temperature in degrees Celsius: the kelvin value read as an `i16`,
    /// less 273. Kelvin values whose `i16` reading lies within 273 of
    /// `i16::MIN` (32768 to 33040) are refused, as the subtraction overflows.
    pub fn celsius(&self) -> (c: i16)
        requires
            spec_celsius(self@) >= i16::MIN,
        ensures
            c == spec_celsius(self@),
    {
        proof {
            lemma_as_signed(self.0);
        }
        self.0 as i16 - Self::freezing().0 as i16
    }

    /// The temperature in degrees Fahrenheit, approximated with integer
    /// arithmetic: `(celsius * 9) / 5 + 32`, the division rounding toward zero.
    /// Refused where `celsius * 9` overflows `i16`.
    pub fn aproximate_fahrenheit(&self) -> (f: i16)
        requires
            i16::MIN <= spec_celsius(self@) * 9 <= i16::MAX,
        ensures
            f == spec_aproximate_fahrenheit(self@),
    {
        proof {
            lemma_as_signed(self.0);
        }
        let c: i16 = self.0 as i16 - KELVIN_TO_CELSIUS;
        let f: i16 = (c * 9) / 5 + 32;
        f
    }
}

impl Default for Temperature {
    /// Room temperature.
    fn default() -> (t: Temperature)
        ensures
            t@ == 293,
    {
        Self::room_temperature()
    }
}

/// A temperature made from `celsius` degrees Celsius reads back as `celsius`
/// degrees, for every Celsius value from absolute zero up to the largest one
/// whose kelvin value fits in an `i16`.
pub proof fn law_celsius_round_trip(celsius: i16)
    requires
        -273 <= celsius <= i16::MAX - 273,
    ensures
        spec_celsius(spec_kelvin_of_celsius(celsius as int) as u16) == celsius,
{
}

/// For a kelvin value that fits in an `i16`, converting to Celsius and back
/// gives the same kelvin value.
pub proof fn law_kelvin_celsius_round_trip(kelvin: u16)
    requires
        kelvin <= i16::MAX,
    ensures
        spec_celsius(kelvin) + 273 <= i16::MAX,
        spec_kelvin_of_celsius(spec_celsius(kelvin)) == kelvin,
{
}

/// The Celsius reading of a kelvin value that fits in an `i16` is that value
/// less 273, and the kelvin value of a Celsius value at or above absolute
/// zero is that value plus 273; below absolute zero it wraps by 65536.
pub proof fn law_celsius_offset(kelvin: u16, celsius: int)
    ensures
        kelvin <= i16::MAX ==> spec_celsius(kelvin) == kelvin - 273,
        kelvin > i16::MAX ==> spec_celsius(kelvin) == kelvin - 65536 - 273,
        celsius >= -273 ==> spec_kelvin_of_celsius(celsius) == celsius + 273,
        celsius < -273 ==> spec_kelvin_of_celsius(celsius) == celsius + 273 + 65536,
{
}

/// Where the Celsius reading is a multiple of five the Fahrenheit reading is
/// exact: `9 * celsius / 5 + 32`. In general it lies within one degree of the
/// exact value, toward the freezing point's 32, and it never decreases as the
/// temperature rises.
pub proof fn law_fahrenheit_approximation(kelvin: u16, warmer: u16)
    requires
        kelvin <= 3913,
        warmer <= 3913,
    ensures
        spec_celsius(kelvin) % 5 == 0 ==> spec_aproximate_fahrenheit(kelvin) == spec_celsius(
            kelvin,
        ) * 9 / 5 + 32,
        spec_celsius(kelvin) >= 0 ==> 0 <= spec_celsius(kelvin) * 9 - 5 * (
        spec_aproximate_fahrenheit(kelvin) - 32) < 5,
        spec_celsius(kelvin) < 0 ==> 0 <= 5 * (spec_aproximate_fahrenheit(kelvin) - 32)
            - spec_celsius(kelvin) * 9 < 5,
        kelvin <= warmer ==> spec_aproximate_fahrenheit(kelvin) <= spec_aproximate_fahrenheit(
            warmer,
        ),
{
    let c = spec_celsius(kelvin);
    let w = spec_celsius(warmer);
    assert(c == kelvin - 273);
    assert(w == warmer - 273);
    if c >= 0 {
        assert(0 <= c * 9 - 5 * ((c * 9) / 5) < 5) by (nonlinear_arith)
            requires
                c >= 0,
        ;
    } else {
        assert(0 <= 5 * (-((-c * 9) / 5)) - c * 9 < 5) by (nonlinear_arith)
            requires
                c < 0,
        ;
    }
    if c % 5 == 0 {
        if c >= 0 {
            assert((c * 9) / 5 == c / 5 * 9) by (nonlinear_arith)
                requires
                    c % 5 == 0,
                    c >= 0,
            ;
        } else {
            assert(-((-c * 9) / 5) == c * 9 / 5) by (nonlinear_arith)
                requires
                    c % 5 == 0,
                    c < 0,
            ;
        }
    }
    if kelvin <= warmer {
        assert(quotient_toward_zero(c * 9, 5) <= quotient_toward_zero(w * 9, 5)) by (
        nonlinear_arith)
            requires
                c <= w,
                quotient_toward_zero(c * 9, 5) == (if c * 9 >= 0 {
                    (c * 9) / 5
                } else {
                    -((-(c * 9)) / 5)
                }),
                quotient_toward_zero(w * 9, 5) == (if w * 9 >= 0 {
                    (w * 9) / 5
                } else {
                    -((-(w * 9)) / 5)
                }),
        ;
    }
}

} // verus!
