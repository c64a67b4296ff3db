//! Arithmetic on runtime values: add, sub, mul, div, mod and pow over the
//! numeric combinations, string concatenation with display coercion for
//! add, and the arithmetic failures. Integer arithmetic wraps in two's
//! complement; float arithmetic follows IEEE-754 on the bit patterns.
use vstd::prelude::*;
use crate::display::{display_of, display_string};
use crate::float_ops::{
    fadd_bits, fdiv_bits, feq_bits, float_add, float_bits_is_zero, float_div, float_eq, float_is_zero,
    float_mul, float_rem, float_sub, float_to_int, float_trunc_to_int, fmul_bits, frem_bits,
    fsub_bits, int_to_float, int_to_float_bits,
};
use crate::strutil::chars_to_string;
use crate::value::{ArithmaticError, DataValue, ValView};

verus! {

/// The bit pattern of the double 1.0, the starting point of integer
/// exponentiation.
pub const FLOAT_ONE_BITS: u64 = 0x3FF0000000000000;

/// An arithmetic failure over value shapes.
pub enum ArithErrV {
    InvalidComboV(ValView, ValView),
    DivByZeroV,
    UnsupportedExponentV(ValView, ValView),
}

/// Whether an executable arithmetic result has exactly the shape of a
/// specified one.
pub open spec fn arith_result_matches(
    r: Result<DataValue, ArithmaticError>,
    s: Result<ValView, ArithErrV>,
) -> bool {
    match (r, s) {
        (Ok(v), Ok(w)) => v@ == w,
        (Err(ArithmaticError::DivByZero), Err(ArithErrV::DivByZeroV)) => true,
        (Err(ArithmaticError::InvalidCombo(a, b)), Err(ArithErrV::InvalidComboV(x, y))) => a@ == x
            && b@ == y,
        (
            Err(ArithmaticError::UnsupportedExponent(a, b)),
            Err(ArithErrV::UnsupportedExponentV(x, y)),
        ) => a@ == x && b@ == y,
        _ => false,
    }
}

/// The sum of two value shapes: numeric addition with float promotion,
/// string concatenation, and display coercion when one side is a string.
pub open spec fn add_vals(a: ValView, b: ValView) -> Result<ValView, ArithErrV> {
    match (a, b) {
        (ValView::FloatV(x), ValView::FloatV(y)) => Ok(ValView::FloatV(fadd_bits(x, y))),
        (ValView::IntegerV(x), ValView::IntegerV(y)) => Ok(ValView::IntegerV(x.wrapping_add(y))),
        (ValView::StringV(x), ValView::StringV(y)) => Ok(ValView::StringV(x + y)),
        (ValView::FloatV(x), ValView::IntegerV(y)) => Ok(
            ValView::FloatV(fadd_bits(x, int_to_float_bits(y))),
        ),
        (ValView::IntegerV(x), ValView::FloatV(y)) => Ok(
            ValView::FloatV(fadd_bits(int_to_float_bits(x), y)),
        ),
        (ValView::StringV(x), y) => Ok(ValView::StringV(x + display_of(y))),
        (x, ValView::StringV(y)) => Ok(ValView::StringV(display_of(x) + y)),
        _ => Err(ArithErrV::InvalidComboV(a, b)),
    }
}

/// The difference of two value shapes: numeric with float promotion.
pub open spec fn sub_vals(a: ValView, b: ValView) -> Result<ValView, ArithErrV> {
    match (a, b) {
        (ValView::FloatV(x), ValView::FloatV(y)) => Ok(ValView::FloatV(fsub_bits(x, y))),
        (ValView::IntegerV(x), ValView::IntegerV(y)) => Ok(ValView::IntegerV(x.wrapping_sub(y))),
        (ValView::FloatV(x), ValView::IntegerV(y)) => Ok(
            ValView::FloatV(fsub_bits(x, int_to_float_bits(y))),
        ),
        (ValView::IntegerV(x), ValView::FloatV(y)) => Ok(
            ValView::FloatV(fsub_bits(int_to_float_bits(x), y)),
        ),
        _ => Err(ArithErrV::InvalidComboV(a, b)),
    }
}

/// The product of two value shapes: numeric with float promotion.
pub open spec fn mul_vals(a: ValView, b: ValView) -> Result<ValView, ArithErrV> {
    match (a, b) {
        (ValView::FloatV(x), ValView::FloatV(y)) => Ok(ValView::FloatV(fmul_bits(x, y))),
        (ValView::IntegerV(x), ValView::IntegerV(y)) => Ok(ValView::IntegerV(x.wrapping_mul(y))),
        (ValView::FloatV(x), ValView::IntegerV(y)) => Ok(
            ValView::FloatV(fmul_bits(x, int_to_float_bits(y))),
        ),
        (ValView::IntegerV(x), ValView::FloatV(y)) => Ok(
            ValView::FloatV(fmul_bits(int_to_float_bits(x), y)),
        ),
        _ => Err(ArithErrV::InvalidComboV(a, b)),
    }
}

/// Signed 64-bit quotient, truncated toward zero, wrapping on the one
/// overflowing combination.
pub open spec fn i64_div_wrap(x: i64, y: i64) -> i64
    recommends
        y != 0,
{
    match x.checked_div(y) {
        Some(q) => q,
        None => i64::MIN,
    }
}

/// Signed 64-bit remainder, wrapping on the one overflowing combination.
pub open spec fn i64_rem_wrap(x: i64, y: i64) -> i64
    recommends
        y != 0,
{
    match x.checked_rem(y) {
        Some(q) => q,
        None => 0i64,
    }
}

/// The quotient of two value shapes: numeric with float promotion; any
/// zero divisor is the division-by-zero error.
pub open spec fn div_vals(a: ValView, b: ValView) -> Result<ValView, ArithErrV> {
    match (a, b) {
        (ValView::FloatV(x), ValView::FloatV(y)) => if float_is_zero(y) {
            Err(ArithErrV::DivByZeroV)
        } else {
            Ok(ValView::FloatV(fdiv_bits(x, y)))
        },
        (ValView::IntegerV(x), ValView::IntegerV(y)) => if y == 0 {
            Err(ArithErrV::DivByZeroV)
        } else {
            Ok(ValView::IntegerV(i64_div_wrap(x, y)))
        },
        (ValView::FloatV(x), ValView::IntegerV(y)) => if y == 0 {
            Err(ArithErrV::DivByZeroV)
        } else {
            Ok(ValView::FloatV(fdiv_bits(x, int_to_float_bits(y))))
        },
        (ValView::IntegerV(x), ValView::FloatV(y)) => if float_is_zero(y) {
            Err(ArithErrV::DivByZeroV)
        } else {
            Ok(ValView::FloatV(fdiv_bits(int_to_float_bits(x), y)))
        },
        _ => Err(ArithErrV::InvalidComboV(a, b)),
    }
}

/// The remainder of two value shapes: numeric with float promotion; any
/// zero divisor is the division-by-zero error.
pub open spec fn rem_vals(a: ValView, b: ValView) -> Result<ValView, ArithErrV> {
    match (a, b) {
        (ValView::FloatV(x), ValView::FloatV(y)) => if float_is_zero(y) {
            Err(ArithErrV::DivByZeroV)
        } else {
            Ok(ValView::FloatV(frem_bits(x, y)))
        },
        (ValView::IntegerV(x), ValView::IntegerV(y)) => if y == 0 {
            Err(ArithErrV::DivByZeroV)
        } else {
            Ok(ValView::IntegerV(i64_rem_wrap(x, y)))
        },
        (ValView::FloatV(x), ValView::IntegerV(y)) => if y == 0 {
            Err(ArithErrV::DivByZeroV)
        } else {
            Ok(ValView::FloatV(frem_bits(x, int_to_float_bits(y))))
        },
        (ValView::IntegerV(x), ValView::FloatV(y)) => if float_is_zero(y) {
            Err(ArithErrV::DivByZeroV)
        } else {
            Ok(ValView::FloatV(frem_bits(int_to_float_bits(x), y)))
        },
        _ => Err(ArithErrV::InvalidComboV(a, b)),
    }
}

/// The wrapping integer power: `e` multiplications of `b` in two's
/// complement.
pub open spec fn wrap_pow(b: i64, e: nat) -> i64
    decreases e,
{
    if e == 0 {
        1i64
    } else {
        wrap_pow(b, (e - 1) as nat).wrapping_mul(b)
    }
}

/// The float chain power: `n` IEEE multiplications of `b` starting at 1.0.
pub open spec fn fpow_chain(b: u64, n: nat) -> u64
    decreases n,
{
    if n == 0 {
        FLOAT_ONE_BITS
    } else {
        fmul_bits(fpow_chain(b, (n - 1) as nat), b)
    }
}

/// The float power with a signed integer exponent: a multiplication chain
/// for non-negative exponents, and its reciprocal for negative ones.
pub open spec fn fpowi(b: u64, n: int) -> u64 {
    if n >= 0 {
        fpow_chain(b, n as nat)
    } else {
        fdiv_bits(FLOAT_ONE_BITS, fpow_chain(b, (-n) as nat))
    }
}

/// The value of the low 32 bits of `e` read as a signed 32-bit number,
/// which is how the engine truncates a pow exponent.
pub open spec fn low32_signed(e: i64) -> int {
    e as i32 as int
}

/// The exponent a float encodes exactly as a signed 64-bit integer, if it
/// does: truncating and converting back must give the same float under
/// IEEE equality.
pub open spec fn float_int_exp(e: u64) -> Option<i64> {
    if feq_bits(int_to_float_bits(float_trunc_to_int(e)), e) {
        Some(float_trunc_to_int(e))
    } else {
        None
    }
}

/// The power of two value shapes. Integer base and non-negative integer
/// exponent stay integer (wrapping); a negative integer exponent promotes
/// to float. Exponents carried as floats are accepted when they encode an
/// integer in the signed 32-bit range; a fractional or out-of-range float
/// exponent is the distinct unsupported-exponent failure — a narrowing of
/// the numeric-promotion rule, as the engine has no float power
/// primitive to follow it with.
pub open spec fn pow_vals(a: ValView, b: ValView) -> Result<ValView, ArithErrV> {
    match (a, b) {
        (ValView::FloatV(x), ValView::FloatV(e)) => match float_int_exp(e) {
            Some(n) => if -0x8000_0000 <= n <= 0x7FFF_FFFF {
                Ok(ValView::FloatV(fpowi(x, n as int)))
            } else {
                Err(ArithErrV::UnsupportedExponentV(a, b))
            },
            None => Err(ArithErrV::UnsupportedExponentV(a, b)),
        },
        (ValView::IntegerV(x), ValView::IntegerV(e)) => if e < 0 {
            Ok(ValView::FloatV(fpowi(int_to_float_bits(x), low32_signed(e))))
        } else {
            Ok(ValView::IntegerV(wrap_pow(x, (e as u32) as nat)))
        },
        (ValView::FloatV(x), ValView::IntegerV(e)) => Ok(
            ValView::FloatV(fpowi(x, low32_signed(e))),
        ),
        (ValView::IntegerV(x), ValView::FloatV(e)) => match float_int_exp(e) {
            Some(n) => if -0x8000_0000 <= n <= 0x7FFF_FFFF {
                Ok(ValView::FloatV(fpowi(int_to_float_bits(x), n as int)))
            } else {
                Err(ArithErrV::UnsupportedExponentV(a, b))
            },
            None => Err(ArithErrV::UnsupportedExponentV(a, b)),
        },
        _ => Err(ArithErrV::InvalidComboV(a, b)),
    }
}

/// Concatenates two strings as a fresh value.
fn concat_string_val(x: &String, y: &String) -> (r: DataValue)
    ensures
        r@ == ValView::StringV(x@ + y@),
{
    let s = x.clone().concat(y.as_str());
    DataValue::String(s)
}

/// The wrapping integer power, by repeated multiplication.
fn wrap_pow_exec(b: i64, e: u32) -> (r: i64)
    ensures
        r == wrap_pow(b, e as nat),
{
    let mut acc: i64 = 1;
    let mut k: u32 = 0;
    while k < e
        invariant
            k <= e,
            acc == wrap_pow(b, k as nat),
        decreases e - k,
    {
        acc = acc.wrapping_mul(b);
        k = k + 1;
    }
    acc
}

/// The float chain power with a signed 64-bit exponent whose magnitude
/// fits in 32 bits.
fn fpowi_exec(b: u64, n: i64) -> (r: u64)
    requires
        -0x8000_0000 <= n <= 0x7FFF_FFFF,
    ensures
        r == fpowi(b, n as int),
{
    let m: u64 = if n >= 0 {
        n as u64
    } else {
        (-(n as i128)) as u64
    };
    assert(m as int == if n >= 0 { n as int } else { -(n as int) });
    let mut acc: u64 = FLOAT_ONE_BITS;
    let mut k: u64 = 0;
    while k < m
        invariant
            k <= m,
            acc == fpow_chain(b, k as nat),
        decreases m - k,
    {
        acc = float_mul(acc, b);
        k = k + 1;
    }
    if n >= 0 {
        acc
    } else {
        float_div(FLOAT_ONE_BITS, acc)
    }
}

impl DataValue {
    /// The sum of this value and `rhs`, as `add_vals` states it.
    pub fn add(&self, rhs: &DataValue) -> (r: Result<DataValue, ArithmaticError>)
        ensures
            arith_result_matches(r, add_vals(self@, rhs@)),
    {
        match (self, rhs) {
            (DataValue::Float(x), DataValue::Float(y)) => Ok(DataValue::Float(float_add(*x, *y))),
            (DataValue::Integer(x), DataValue::Integer(y)) => Ok(
                DataValue::Integer(x.wrapping_add(*y)),
            ),
            (DataValue::String(x), DataValue::String(y)) => Ok(concat_string_val(x, y)),
            (DataValue::Float(x), DataValue::Integer(y)) => Ok(
                DataValue::Float(float_add(*x, int_to_float(*y))),
            ),
            (DataValue::Integer(x), DataValue::Float(y)) => Ok(
                DataValue::Float(float_add(int_to_float(*x), *y)),
            ),
            (DataValue::String(x), y) => {
                let shown = display_string(y);
                Ok(concat_string_val(x, &shown))
            },
            (x, DataValue::String(y)) => {
                let shown = display_string(x);
                Ok(concat_string_val(&shown, y))
            },
            _ => Err(ArithmaticError::InvalidCombo(self.duplicate(), rhs.duplicate())),
        }
    }

    /// The difference of this value and `rhs`, as `sub_vals` states it.
    pub fn sub(&self, rhs: &DataValue) -> (r: Result<DataValue, ArithmaticError>)
        ensures
            arith_result_matches(r, sub_vals(self@, rhs@)),
    {
        match (self, rhs) {
            (DataValue::Float(x), DataValue::Float(y)) => Ok(DataValue::Float(float_sub(*x, *y))),
            (DataValue::Integer(x), DataValue::Integer(y)) => Ok(
                DataValue::Integer(x.wrapping_sub(*y)),
            ),
            (DataValue::Float(x), DataValue::Integer(y)) => Ok(
                DataValue::Float(float_sub(*x, int_to_float(*y))),
            ),
            (DataValue::Integer(x), DataValue::Float(y)) => Ok(
                DataValue::Float(float_sub(int_to_float(*x), *y)),
            ),
            _ => Err(ArithmaticError::InvalidCombo(self.duplicate(), rhs.duplicate())),
        }
    }

    /// The product of this value and `rhs`, as `mul_vals` states it.
    pub fn mul(&self, rhs: &DataValue) -> (r: Result<DataValue, ArithmaticError>)
        ensures
            arith_result_matches(r, mul_vals(self@, rhs@)),
    {
        match (self, rhs) {
            (DataValue::Float(x), DataValue::Float(y)) => Ok(DataValue::Float(float_mul(*x, *y))),
            (DataValue::Integer(x), DataValue::Integer(y)) => Ok(
                DataValue::Integer(x.wrapping_mul(*y)),
            ),
            (DataValue::Float(x), DataValue::Integer(y)) => Ok(
                DataValue::Float(float_mul(*x, int_to_float(*y))),
            ),
            (DataValue::Integer(x), DataValue::Float(y)) => Ok(
                DataValue::Float(float_mul(int_to_float(*x), *y)),
            ),
            _ => Err(ArithmaticError::InvalidCombo(self.duplicate(), rhs.duplicate())),
        }
    }

    /// The quotient of this value and `rhs`, as `div_vals` states it: a
    /// zero divisor of either numeric kind is the division-by-zero error.
    pub fn div(&self, rhs: &DataValue) -> (r: Result<DataValue, ArithmaticError>)
        ensures
            arith_result_matches(r, div_vals(self@, rhs@)),
    {
        match (self, rhs) {
            (DataValue::Float(x), DataValue::Float(y)) => {
                if float_bits_is_zero(*y) {
                    Err(ArithmaticError::DivByZero)
                } else {
                    Ok(DataValue::Float(float_div(*x, *y)))
                }
            },
            (DataValue::Integer(x), DataValue::Integer(y)) => {
                if *y == 0 {
                    Err(ArithmaticError::DivByZero)
                } else {
                    match x.checked_div(*y) {
                        Some(q) => Ok(DataValue::Integer(q)),
                        None => Ok(DataValue::Integer(i64::MIN)),
                    }
                }
            },
            (DataValue::Float(x), DataValue::Integer(y)) => {
                if *y == 0 {
                    Err(ArithmaticError::DivByZero)
                } else {
                    Ok(DataValue::Float(float_div(*x, int_to_float(*y))))
                }
            },
            (DataValue::Integer(x), DataValue::Float(y)) => {
                if float_bits_is_zero(*y) {
                    Err(ArithmaticError::DivByZero)
                } else {
                    Ok(DataValue::Float(float_div(int_to_float(*x), *y)))
                }
            },
            _ => Err(ArithmaticError::InvalidCombo(self.duplicate(), rhs.duplicate())),
        }
    }

    /// The remainder of this value and `rhs`, as `rem_vals` states it: a
    /// zero divisor of either numeric kind is the division-by-zero error.
    pub fn rem(&self, rhs: &DataValue) -> (r: Result<DataValue, ArithmaticError>)
        ensures
            arith_result_matches(r, rem_vals(self@, rhs@)),
    {
        match (self, rhs) {
            (DataValue::Float(x), DataValue::Float(y)) => {
                if float_bits_is_zero(*y) {
                    Err(ArithmaticError::DivByZero)
                } else {
                    Ok(DataValue::Float(float_rem(*x, *y)))
                }
            },
            (DataValue::Integer(x), DataValue::Integer(y)) => {
                if *y == 0 {
                    Err(ArithmaticError::DivByZero)
                } else {
                    match x.checked_rem(*y) {
                        Some(q) => Ok(DataValue::Integer(q)),
                        None => Ok(DataValue::Integer(0)),
                    }
                }
            },
            (DataValue::Float(x), DataValue::Integer(y)) => {
                if *y == 0 {
                    Err(ArithmaticError::DivByZero)
                } else {
                    Ok(DataValue::Float(float_rem(*x, int_to_float(*y))))
                }
            },
            (DataValue::Integer(x), DataValue::Float(y)) => {
                if float_bits_is_zero(*y) {
                    Err(ArithmaticError::DivByZero)
                } else {
                    Ok(DataValue::Float(float_rem(int_to_float(*x), *y)))
                }
            },
            _ => Err(ArithmaticError::InvalidCombo(self.duplicate(), rhs.duplicate())),
        }
    }

    /// The power of this value and `power`, as `pow_vals` states it.
    pub fn pow(&self, power: &DataValue) -> (r: Result<DataValue, ArithmaticError>)
        ensures
            arith_result_matches(r, pow_vals(self@, power@)),
    {
        match (self, power) {
            (DataValue::Float(x), DataValue::Float(e)) => {
                let t = float_to_int(*e);
                if float_eq(int_to_float(t), *e) {
                    if -0x8000_0000 <= t && t <= 0x7FFF_FFFF {
                        Ok(DataValue::Float(fpowi_exec(*x, t)))
                    } else {
                        Err(
                            ArithmaticError::UnsupportedExponent(
                                self.duplicate(),
                                power.duplicate(),
                            ),
                        )
                    }
                } else {
                    Err(
                        ArithmaticError::UnsupportedExponent(self.duplicate(), power.duplicate()),
                    )
                }
            },
            (DataValue::Integer(x), DataValue::Integer(e)) => {
                if *e < 0 {
                    let e32: i64 = (*e as i32) as i64;
                    Ok(DataValue::Float(fpowi_exec(int_to_float(*x), e32)))
                } else {
                    Ok(DataValue::Integer(wrap_pow_exec(*x, *e as u32)))
                }
            },
            (DataValue::Float(x), DataValue::Integer(e)) => {
                let e32: i64 = (*e as i32) as i64;
                Ok(DataValue::Float(fpowi_exec(*x, e32)))
            },
            (DataValue::Integer(x), DataValue::Float(e)) => {
                let t = float_to_int(*e);
                if float_eq(int_to_float(t), *e) {
                    if -0x8000_0000 <= t && t <= 0x7FFF_FFFF {
                        Ok(DataValue::Float(fpowi_exec(int_to_float(*x), t)))
                    } else {
                        Err(
                            ArithmaticError::UnsupportedExponent(
                                self.duplicate(),
                                power.duplicate(),
                            ),
                        )
                    }
                } else {
                    Err(
                        ArithmaticError::UnsupportedExponent(self.duplicate(), power.duplicate()),
                    )
                }
            },
            _ => Err(ArithmaticError::InvalidCombo(self.duplicate(), power.duplicate())),
        }
    }
}

/// **Division by zero.** On any numeric combination, dividing or taking
/// the remainder by a zero divisor — the integer zero or a float zero of
/// either sign — is exactly the division-by-zero error.
pub proof fn lemma_div_by_zero(a: ValView, b: ValView)
    requires
        a is IntegerV || a is FloatV,
        (b matches ValView::IntegerV(y) && y == 0) || (b matches ValView::FloatV(z)
            && float_is_zero(z)),
    ensures
        div_vals(a, b) == Err::<ValView, ArithErrV>(ArithErrV::DivByZeroV),
        rem_vals(a, b) == Err::<ValView, ArithErrV>(ArithErrV::DivByZeroV),
{
}

} // verus!
