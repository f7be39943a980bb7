use vstd::prelude::*;
use vstd::arithmetic::power::pow;
use crate::numeric::{checked_pow_wide, Time, Value};

verus! {

/// `num::NumCast::from` from `i128` to `i8`: the same integer where it lies
/// between `i8::MIN` and `i8::MAX`, and `None` for every other.
#[verifier::external_body]
fn narrow_i8(w: i128) -> (r: Option<i8>)
    ensures
        r == (if i8::MIN <= w <= i8::MAX {
            Some(w as i8)
        } else {
            None::<i8>
        }),
{
    <i8 as num::NumCast>::from(w)
}

impl Value for i8 {
    open spec fn as_int(self) -> int {
        self as int
    }

    open spec fn representable(v: int) -> bool {
        i8::MIN <= v <= i8::MAX
    }

    proof fn value_laws(a: Self, b: Self) {
    }

    proof fn representation_law(v: int) {
        assert((v as i8).as_int() == v);
    }

    fn zero() -> (z: Self) {
        0
    }

    fn one() -> (o: Self) {
        1
    }

    fn add_checked(self, rhs: Self) -> (r: Option<Self>) {
        self.checked_add(rhs)
    }

    fn mul_checked(self, rhs: Self) -> (r: Option<Self>) {
        self.checked_mul(rhs)
    }

    fn neg_checked(self) -> (r: Option<Self>) {
        let zero: i8 = 0;
        zero.checked_sub(self)
    }

    fn div_checked(self, rhs: Self) -> (r: Option<Self>) {
        self.checked_div(rhs)
    }

    fn widen(self) -> (w: Option<i128>) {
        Some(self as i128)
    }

    fn widen_unsigned(self) -> (w: Option<u128>) {
        if self >= 0 {
            Some(self as u128)
        } else {
            None
        }
    }

    fn narrow(w: i128) -> (r: Option<Self>) {
        narrow_i8(w)
    }

    fn narrow_unsigned(w: u128) -> (r: Option<Self>) {
        if w <= i128::MAX as u128 {
            narrow_i8(w as i128)
        } else {
            None
        }
    }

    fn pow_checked(self, exp: usize) -> (r: Option<Self>) {
        match checked_pow_wide(self as i128, exp) {
            Some(p) => narrow_i8(p),
            None => None,
        }
    }
}

/// `num::NumCast::from` from `i128` to `i16`: the same integer where it lies
/// between `i16::MIN` and `i16::MAX`, and `None` for every other.
#[verifier::external_body]
fn narrow_i16(w: i128) -> (r: Option<i16>)
    ensures
        r == (if i16::MIN <= w <= i16::MAX {
            Some(w as i16)
        } else {
            None::<i16>
        }),
{
    <i16 as num::NumCast>::from(w)
}

impl Value for i16 {
    open spec fn as_int(self) -> int {
        self as int
    }

    open spec fn representable(v: int) -> bool {
        i16::MIN <= v <= i16::MAX
    }

    proof fn value_laws(a: Self, b: Self) {
    }

    proof fn representation_law(v: int) {
        assert((v as i16).as_int() == v);
    }

    fn zero() -> (z: Self) {
        0
    }

    fn one() -> (o: Self) {
        1
    }

    fn add_checked(self, rhs: Self) -> (r: Option<Self>) {
        self.checked_add(rhs)
    }

    fn mul_checked(self, rhs: Self) -> (r: Option<Self>) {
        self.checked_mul(rhs)
    }

    fn neg_checked(self) -> (r: Option<Self>) {
        let zero: i16 = 0;
        zero.checked_sub(self)
    }

    fn div_checked(self, rhs: Self) -> (r: Option<Self>) {
        self.checked_div(rhs)
    }

    fn widen(self) -> (w: Option<i128>) {
        Some(self as i128)
    }

    fn widen_unsigned(self) -> (w: Option<u128>) {
        if self >= 0 {
            Some(self as u128)
        } else {
            None
        }
    }

    fn narrow(w: i128) -> (r: Option<Self>) {
        narrow_i16(w)
    }

    fn narrow_unsigned(w: u128) -> (r: Option<Self>) {
        if w <= i128::MAX as u128 {
            narrow_i16(w as i128)
        } else {
            None
        }
    }

    fn pow_checked(self, exp: usize) -> (r: Option<Self>) {
        match checked_pow_wide(self as i128, exp) {
            Some(p) => narrow_i16(p),
            None => None,
        }
    }
}

/// `num::NumCast::from` from `i128` to `i32`: the same integer where it lies
/// between `i32::MIN` and `i32::MAX`, and `None` for every other.
#[verifier::external_body]
fn narrow_i32(w: i128) -> (r: Option<i32>)
    ensures
        r == (if i32::MIN <= w <= i32::MAX {
            Some(w as i32)
        } else {
            None::<i32>
        }),
{
    <i32 as num::NumCast>::from(w)
}

impl Value for i32 {
    open spec fn as_int(self) -> int {
        self as int
    }

    open spec fn representable(v: int) -> bool {
        i32::MIN <= v <= i32::MAX
    }

    proof fn value_laws(a: Self, b: Self) {
    }

    proof fn representation_law(v: int) {
        assert((v as i32).as_int() == v);
    }

    fn zero() -> (z: Self) {
        0
    }

    fn one() -> (o: Self) {
        1
    }

    fn add_checked(self, rhs: Self) -> (r: Option<Self>) {
        self.checked_add(rhs)
    }

    fn mul_checked(self, rhs: Self) -> (r: Option<Self>) {
        self.checked_mul(rhs)
    }

    fn neg_checked(self) -> (r: Option<Self>) {
        let zero: i32 = 0;
        zero.checked_sub(self)
    }

    fn div_checked(self, rhs: Self) -> (r: Option<Self>) {
        self.checked_div(rhs)
    }

    fn widen(self) -> (w: Option<i128>) {
        Some(self as i128)
    }

    fn widen_unsigned(self) -> (w: Option<u128>) {
        if self >= 0 {
            Some(self as u128)
        } else {
            None
        }
    }

    fn narrow(w: i128) -> (r: Option<Self>) {
        narrow_i32(w)
    }

    fn narrow_unsigned(w: u128) -> (r: Option<Self>) {
        if w <= i128::MAX as u128 {
            narrow_i32(w as i128)
        } else {
            None
        }
    }

    fn pow_checked(self, exp: usize) -> (r: Option<Self>) {
        match checked_pow_wide(self as i128, exp) {
            Some(p) => narrow_i32(p),
            None => None,
        }
    }
}

/// `num::NumCast::from` from `i128` to `i64`: the same integer where it lies
/// between `i64::MIN` and `i64::MAX`, and `None` for every other.
#[verifier::external_body]
fn narrow_i64(w: i128) -> (r: Option<i64>)
    ensures
        r == (if i64::MIN <= w <= i64::MAX {
            Some(w as i64)
        } else {
            None::<i64>
        }),
{
    <i64 as num::NumCast>::from(w)
}

impl Value for i64 {
    open spec fn as_int(self) -> int {
        self as int
    }

    open spec fn representable(v: int) -> bool {
        i64::MIN <= v <= i64::MAX
    }

    proof fn value_laws(a: Self, b: Self) {
    }

    proof fn representation_law(v: int) {
        assert((v as i64).as_int() == v);
    }

    fn zero() -> (z: Self) {
        0
    }

    fn one() -> (o: Self) {
        1
    }

    fn add_checked(self, rhs: Self) -> (r: Option<Self>) {
        self.checked_add(rhs)
    }

    fn mul_checked(self, rhs: Self) -> (r: Option<Self>) {
        self.checked_mul(rhs)
    }

    fn neg_checked(self) -> (r: Option<Self>) {
        let zero: i64 = 0;
        zero.checked_sub(self)
    }

    fn div_checked(self, rhs: Self) -> (r: Option<Self>) {
        self.checked_div(rhs)
    }

    fn widen(self) -> (w: Option<i128>) {
        Some(self as i128)
    }

    fn widen_unsigned(self) -> (w: Option<u128>) {
        if self >= 0 {
            Some(self as u128)
        } else {
            None
        }
    }

    fn narrow(w: i128) -> (r: Option<Self>) {
        narrow_i64(w)
    }

    fn narrow_unsigned(w: u128) -> (r: Option<Self>) {
        if w <= i128::MAX as u128 {
            narrow_i64(w as i128)
        } else {
            None
        }
    }

    fn pow_checked(self, exp: usize) -> (r: Option<Self>) {
        match checked_pow_wide(self as i128, exp) {
            Some(p) => narrow_i64(p),
            None => None,
        }
    }
}

/// `num::NumCast::from` from `i128` to `i128`: the same integer where it lies
/// between `i128::MIN` and `i128::MAX`, and `None` for every other.
#[verifier::external_body]
fn narrow_i128(w: i128) -> (r: Option<i128>)
    ensures
        r == (if i128::MIN <= w <= i128::MAX {
            Some(w as i128)
        } else {
            None::<i128>
        }),
{
    <i128 as num::NumCast>::from(w)
}

impl Value for i128 {
    open spec fn as_int(self) -> int {
        self as int
    }

    open spec fn representable(v: int) -> bool {
        i128::MIN <= v <= i128::MAX
    }

    proof fn value_laws(a: Self, b: Self) {
    }

    proof fn representation_law(v: int) {
        assert((v as i128).as_int() == v);
    }

    fn zero() -> (z: Self) {
        0
    }

    fn one() -> (o: Self) {
        1
    }

    fn add_checked(self, rhs: Self) -> (r: Option<Self>) {
        self.checked_add(rhs)
    }

    fn mul_checked(self, rhs: Self) -> (r: Option<Self>) {
        self.checked_mul(rhs)
    }

    fn neg_checked(self) -> (r: Option<Self>) {
        let zero: i128 = 0;
        zero.checked_sub(self)
    }

    fn div_checked(self, rhs: Self) -> (r: Option<Self>) {
        self.checked_div(rhs)
    }

    fn widen(self) -> (w: Option<i128>) {
        Some(self as i128)
    }

    fn widen_unsigned(self) -> (w: Option<u128>) {
        if self >= 0 {
            Some(self as u128)
        } else {
            None
        }
    }

    fn narrow(w: i128) -> (r: Option<Self>) {
        narrow_i128(w)
    }

    fn narrow_unsigned(w: u128) -> (r: Option<Self>) {
        if w <= i128::MAX as u128 {
            narrow_i128(w as i128)
        } else {
            None
        }
    }

    fn pow_checked(self, exp: usize) -> (r: Option<Self>) {
        match checked_pow_wide(self as i128, exp) {
            Some(p) => narrow_i128(p),
            None => None,
        }
    }
}

/// `num::NumCast::from` from `i128` to `u8`: the same integer where it lies
/// between `u8::MIN` and `u8::MAX`, and `None` for every other.
#[verifier::external_body]
fn narrow_u8(w: i128) -> (r: Option<u8>)
    ensures
        r == (if u8::MIN <= w <= u8::MAX {
            Some(w as u8)
        } else {
            None::<u8>
        }),
{
    <u8 as num::NumCast>::from(w)
}

impl Value for u8 {
    open spec fn as_int(self) -> int {
        self as int
    }

    open spec fn representable(v: int) -> bool {
        u8::MIN <= v <= u8::MAX
    }

    proof fn value_laws(a: Self, b: Self) {
    }

    proof fn representation_law(v: int) {
        assert((v as u8).as_int() == v);
    }

    fn zero() -> (z: Self) {
        0
    }

    fn one() -> (o: Self) {
        1
    }

    fn add_checked(self, rhs: Self) -> (r: Option<Self>) {
        self.checked_add(rhs)
    }

    fn mul_checked(self, rhs: Self) -> (r: Option<Self>) {
        self.checked_mul(rhs)
    }

    fn neg_checked(self) -> (r: Option<Self>) {
        if self == 0 {
            Some(0)
        } else {
            None
        }
    }

    fn div_checked(self, rhs: Self) -> (r: Option<Self>) {
        self.checked_div(rhs)
    }

    fn widen(self) -> (w: Option<i128>) {
        Some(self as i128)
    }

    fn widen_unsigned(self) -> (w: Option<u128>) {
        Some(self as u128)
    }

    fn narrow(w: i128) -> (r: Option<Self>) {
        narrow_u8(w)
    }

    fn narrow_unsigned(w: u128) -> (r: Option<Self>) {
        if w <= i128::MAX as u128 {
            narrow_u8(w as i128)
        } else {
            None
        }
    }

    fn pow_checked(self, exp: usize) -> (r: Option<Self>) {
        match checked_pow_wide(self as i128, exp) {
            Some(p) => narrow_u8(p),
            None => None,
        }
    }
}

/// `num::NumCast::from` from `i128` to `u16`: the same integer where it lies
/// between `u16::MIN` and `u16::MAX`, and `None` for every other.
#[verifier::external_body]
fn narrow_u16(w: i128) -> (r: Option<u16>)
    ensures
        r == (if u16::MIN <= w <= u16::MAX {
            Some(w as u16)
        } else {
            None::<u16>
        }),
{
    <u16 as num::NumCast>::from(w)
}

impl Value for u16 {
    open spec fn as_int(self) -> int {
        self as int
    }

    open spec fn representable(v: int) -> bool {
        u16::MIN <= v <= u16::MAX
    }

    proof fn value_laws(a: Self, b: Self) {
    }

    proof fn representation_law(v: int) {
        assert((v as u16).as_int() == v);
    }

    fn zero() -> (z: Self) {
        0
    }

    fn one() -> (o: Self) {
        1
    }

    fn add_checked(self, rhs: Self) -> (r: Option<Self>) {
        self.checked_add(rhs)
    }

    fn mul_checked(self, rhs: Self) -> (r: Option<Self>) {
        self.checked_mul(rhs)
    }

    fn neg_checked(self) -> (r: Option<Self>) {
        if self == 0 {
            Some(0)
        } else {
            None
        }
    }

    fn div_checked(self, rhs: Self) -> (r: Option<Self>) {
        self.checked_div(rhs)
    }

    fn widen(self) -> (w: Option<i128>) {
        Some(self as i128)
    }

    fn widen_unsigned(self) -> (w: Option<u128>) {
        Some(self as u128)
    }

    fn narrow(w: i128) -> (r: Option<Self>) {
        narrow_u16(w)
    }

    fn narrow_unsigned(w: u128) -> (r: Option<Self>) {
        if w <= i128::MAX as u128 {
            narrow_u16(w as i128)
        } else {
            None
        }
    }

    fn pow_checked(self, exp: usize) -> (r: Option<Self>) {
        match checked_pow_wide(self as i128, exp) {
            Some(p) => narrow_u16(p),
            None => None,
        }
    }
}

/// `num::NumCast::from` from `i128` to `u32`: the same integer where it lies
/// between `u32::MIN` and `u32::MAX`, and `None` for every other.
#[verifier::external_body]
fn narrow_u32(w: i128) -> (r: Option<u32>)
    ensures
        r == (if u32::MIN <= w <= u32::MAX {
            Some(w as u32)
        } else {
            None::<u32>
        }),
{
    <u32 as num::NumCast>::from(w)
}

impl Value for u32 {
    open spec fn as_int(self) -> int {
        self as int
    }

    open spec fn representable(v: int) -> bool {
        u32::MIN <= v <= u32::MAX
    }

    proof fn value_laws(a: Self, b: Self) {
    }

    proof fn representation_law(v: int) {
        assert((v as u32).as_int() == v);
    }

    fn zero() -> (z: Self) {
        0
    }

    fn one() -> (o: Self) {
        1
    }

    fn add_checked(self, rhs: Self) -> (r: Option<Self>) {
        self.checked_add(rhs)
    }

    fn mul_checked(self, rhs: Self) -> (r: Option<Self>) {
        self.checked_mul(rhs)
    }

    fn neg_checked(self) -> (r: Option<Self>) {
        if self == 0 {
            Some(0)
        } else {
            None
        }
    }

    fn div_checked(self, rhs: Self) -> (r: Option<Self>) {
        self.checked_div(rhs)
    }

    fn widen(self) -> (w: Option<i128>) {
        Some(self as i128)
    }

    fn widen_unsigned(self) -> (w: Option<u128>) {
        Some(self as u128)
    }

    fn narrow(w: i128) -> (r: Option<Self>) {
        narrow_u32(w)
    }

    fn narrow_unsigned(w: u128) -> (r: Option<Self>) {
        if w <= i128::MAX as u128 {
            narrow_u32(w as i128)
        } else {
            None
        }
    }

    fn pow_checked(self, exp: usize) -> (r: Option<Self>) {
        match checked_pow_wide(self as i128, exp) {
            Some(p) => narrow_u32(p),
            None => None,
        }
    }
}

/// `num::NumCast::from` from `i128` to `u64`: the same integer where it lies
/// between `u64::MIN` and `u64::MAX`, and `None` for every other.
#[verifier::external_body]
fn narrow_u64(w: i128) -> (r: Option<u64>)
    ensures
        r == (if u64::MIN <= w <= u64::MAX {
            Some(w as u64)
        } else {
            None::<u64>
        }),
{
    <u64 as num::NumCast>::from(w)
}

impl Value for u64 {
    open spec fn as_int(self) -> int {
        self as int
    }

    open spec fn representable(v: int) -> bool {
        u64::MIN <= v <= u64::MAX
    }

    proof fn value_laws(a: Self, b: Self) {
    }

    proof fn representation_law(v: int) {
        assert((v as u64).as_int() == v);
    }

    fn zero() -> (z: Self) {
        0
    }

    fn one() -> (o: Self) {
        1
    }

    fn add_checked(self, rhs: Self) -> (r: Option<Self>) {
        self.checked_add(rhs)
    }

    fn mul_checked(self, rhs: Self) -> (r: Option<Self>) {
        self.checked_mul(rhs)
    }

    fn neg_checked(self) -> (r: Option<Self>) {
        if self == 0 {
            Some(0)
        } else {
            None
        }
    }

    fn div_checked(self, rhs: Self) -> (r: Option<Self>) {
        self.checked_div(rhs)
    }

    fn widen(self) -> (w: Option<i128>) {
        Some(self as i128)
    }

    fn widen_unsigned(self) -> (w: Option<u128>) {
        Some(self as u128)
    }

    fn narrow(w: i128) -> (r: Option<Self>) {
        narrow_u64(w)
    }

    fn narrow_unsigned(w: u128) -> (r: Option<Self>) {
        if w <= i128::MAX as u128 {
            narrow_u64(w as i128)
        } else {
            None
        }
    }

    fn pow_checked(self, exp: usize) -> (r: Option<Self>) {
        match checked_pow_wide(self as i128, exp) {
            Some(p) => narrow_u64(p),
            None => None,
        }
    }
}

/// `num::NumCast::from` from `i128` to `u128`: the same integer where it lies
/// between `u128::MIN` and `u128::MAX`, and `None` for every other.
#[verifier::external_body]
fn narrow_u128(w: i128) -> (r: Option<u128>)
    ensures
        r == (if u128::MIN <= w <= u128::MAX {
            Some(w as u128)
        } else {
            None::<u128>
        }),
{
    <u128 as num::NumCast>::from(w)
}

/// `num::NumCast::from` from `u128` to `u128`: always the same integer.
#[verifier::external_body]
fn same_u128(w: u128) -> (r: Option<u128>)
    ensures
        r == Some(w),
{
    <u128 as num::NumCast>::from(w)
}

/// `num::checked_pow` on `u128`: squaring and multiplying with `checked_mul`,
/// it reaches `base` to the power `exp` where that lies in the range of
/// `u128`, and gives `None` where it does not. No partial product exceeds
/// the final one, so nothing fails on the way to a result that fits.
#[verifier::external_body]
fn checked_pow_u128(base: u128, exp: usize) -> (r: Option<u128>)
    ensures
        r == (if 0 <= pow(base as int, exp as nat) <= u128::MAX {
            Some(pow(base as int, exp as nat) as u128)
        } else {
            None::<u128>
        }),
{
    num::checked_pow(base, exp)
}

impl Value for u128 {
    open spec fn as_int(self) -> int {
        self as int
    }

    open spec fn representable(v: int) -> bool {
        u128::MIN <= v <= u128::MAX
    }

    proof fn value_laws(a: Self, b: Self) {
    }

    proof fn representation_law(v: int) {
        assert((v as u128).as_int() == v);
    }

    fn zero() -> (z: Self) {
        0
    }

    fn one() -> (o: Self) {
        1
    }

    fn add_checked(self, rhs: Self) -> (r: Option<Self>) {
        self.checked_add(rhs)
    }

    fn mul_checked(self, rhs: Self) -> (r: Option<Self>) {
        self.checked_mul(rhs)
    }

    fn neg_checked(self) -> (r: Option<Self>) {
        if self == 0 {
            Some(0)
        } else {
            None
        }
    }

    fn div_checked(self, rhs: Self) -> (r: Option<Self>) {
        self.checked_div(rhs)
    }

    fn widen(self) -> (w: Option<i128>) {
        if self <= i128::MAX as u128 {
            Some(self as i128)
        } else {
            None
        }
    }

    fn widen_unsigned(self) -> (w: Option<u128>) {
        Some(self)
    }

    fn narrow(w: i128) -> (r: Option<Self>) {
        narrow_u128(w)
    }

    fn narrow_unsigned(w: u128) -> (r: Option<Self>) {
        same_u128(w)
    }

    fn pow_checked(self, exp: usize) -> (r: Option<Self>) {
        checked_pow_u128(self, exp)
    }
}

impl Time for u32 {
    proof fn time_laws(t: Self) {
    }

    open spec fn default_step() -> int {
        1
    }

    fn default_step_size() -> (s: Self) {
        1
    }

    fn precedes(self, other: Self) -> (b: bool) {
        self < other
    }
}

impl Time for u64 {
    proof fn time_laws(t: Self) {
    }

    open spec fn default_step() -> int {
        1
    }

    fn default_step_size() -> (s: Self) {
        1
    }

    fn precedes(self, other: Self) -> (b: bool) {
        self < other
    }
}

} // verus!
