use vstd::prelude::*;
use vstd::arithmetic::power::pow;

verus! {

/// The quotient of `a` by `b` rounded towards zero, for `b` other than zero.
pub open spec fn trunc_div(a: int, b: int) -> int {
    if a >= 0 && b > 0 {
        a / b
    } else if a < 0 && b < 0 {
        (-a) / (-b)
    } else if a < 0 {
        -((-a) / b)
    } else {
        -(a / (-b))
    }
}

/// `num::checked_pow` on `i128`: squaring and multiplying with `checked_mul`,
/// it reaches `base` to the power `exp` where that lies in the range of
/// `i128`, and gives `None` where it does not. No partial product exceeds the
/// final one in magnitude, so nothing fails on the way to a result that fits.
#[verifier::external_body]
pub(crate) fn checked_pow_wide(base: i128, exp: usize) -> (r: Option<i128>)
    ensures
        r == (if i128::MIN <= pow(base as int, exp as nat) <= i128::MAX {
            Some(pow(base as int, exp as nat) as i128)
        } else {
            None::<i128>
        }),
{
    num::checked_pow(base, exp)
}

/// A scalar that can travel through the stream buffer.
///
/// Every value stands for one integer, `as_int`, and a type holds exactly the
/// integers that `representable` admits. All arithmetic is checked: an
/// operation yields `None` where the exact result has no place in the type.
pub trait Value: Copy {
    /// The integer this value stands for.
    spec fn as_int(self) -> int;

    /// Whether the type holds a value that stands for `v`.
    spec fn representable(v: int) -> bool;

    /// Each value stands for an integer of the type's range, and for one only.
    proof fn value_laws(a: Self, b: Self)
        ensures
            Self::representable(a.as_int()),
            a.as_int() == b.as_int() ==> a == b,
            Self::representable(0),
            Self::representable(1),
            i128::MIN <= a.as_int() <= u128::MAX,
    ;

    /// Every integer of the type's range has a value that stands for it.
    proof fn representation_law(v: int)
        requires
            Self::representable(v),
        ensures
            exists|a: Self| a.as_int() == v,
    ;

    /// The value that stands for zero.
    fn zero() -> (z: Self)
        ensures
            z.as_int() == 0,
    ;

    /// The value that stands for one.
    fn one() -> (o: Self)
        ensures
            o.as_int() == 1,
    ;

    /// The sum, where the type can hold it.
    fn add_checked(self, rhs: Self) -> (r: Option<Self>)
        ensures
            r is Some <==> Self::representable(self.as_int() + rhs.as_int()),
            r matches Some(v) ==> v.as_int() == self.as_int() + rhs.as_int(),
    ;

    /// The product, where the type can hold it.
    fn mul_checked(self, rhs: Self) -> (r: Option<Self>)
        ensures
            r is Some <==> Self::representable(self.as_int() * rhs.as_int()),
            r matches Some(v) ==> v.as_int() == self.as_int() * rhs.as_int(),
    ;

    /// The value with the sign changed, where the type can hold it.
    fn neg_checked(self) -> (r: Option<Self>)
        ensures
            r is Some <==> Self::representable(-self.as_int()),
            r matches Some(v) ==> v.as_int() == -self.as_int(),
    ;

    /// The quotient rounded towards zero, where the type can hold it and the
    /// divisor is not zero.
    fn div_checked(self, rhs: Self) -> (r: Option<Self>)
        ensures
            r is Some <==> rhs.as_int() != 0 && Self::representable(
                trunc_div(self.as_int(), rhs.as_int()),
            ),
            r matches Some(v) ==> v.as_int() == trunc_div(self.as_int(), rhs.as_int()),
    ;

    /// The same integer in the widest signed type, where that can hold it.
    fn widen(self) -> (w: Option<i128>)
        ensures
            w is Some <==> self.as_int() <= i128::MAX,
            w matches Some(x) ==> x == self.as_int(),
    ;

    /// The same integer in the widest unsigned type, where that can hold it.
    fn widen_unsigned(self) -> (w: Option<u128>)
        ensures
            w is Some <==> 0 <= self.as_int(),
            w matches Some(x) ==> x == self.as_int(),
    ;

    /// The value of this type that stands for `w`, where there is one.
    fn narrow(w: i128) -> (r: Option<Self>)
        ensures
            r is Some <==> Self::representable(w as int),
            r matches Some(v) ==> v.as_int() == w,
    ;

    /// The value of this type that stands for `w`, where there is one.
    fn narrow_unsigned(w: u128) -> (r: Option<Self>)
        ensures
            r is Some <==> Self::representable(w as int),
            r matches Some(v) ==> v.as_int() == w,
    ;

    /// `self` raised to `exp`, where the type can hold it; the power zero of
    /// every value is one.
    fn pow_checked(self, exp: usize) -> (r: Option<Self>)
        ensures
            r is Some <==> Self::representable(pow(self.as_int(), exp as nat)),
            r matches Some(v) ==> v.as_int() == pow(self.as_int(), exp as nat),
    ;
}

/// The value of `V` that stands for `i`, where `V` holds one.
pub open spec fn value_of<V: Value>(i: int) -> V {
    choose|v: V| v.as_int() == i
}

/// A value is the one that stands for its integer.
pub proof fn value_of_as_int<V: Value>(v: V)
    ensures
        value_of::<V>(v.as_int()) == v,
{
    V::value_laws(v, value_of::<V>(v.as_int()));
}

/// Where `V` can represent `i`, `value_of` stands for it.
pub proof fn value_of_represents<V: Value>(i: int)
    requires
        V::representable(i),
    ensures
        value_of::<V>(i).as_int() == i,
{
    V::representation_law(i);
}

/// A value that can serve as a time base: its integers order the events, and
/// none of them lies before zero.
pub trait Time: Value {
    /// No time lies before zero.
    proof fn time_laws(t: Self)
        ensures
            0 <= t.as_int(),
    ;

    /// The step a block takes when none is given.
    spec fn default_step() -> int;

    /// The default step as a value.
    fn default_step_size() -> (s: Self)
        ensures
            s.as_int() == Self::default_step(),
    ;

    /// Whether `self` lies strictly before `other`.
    fn precedes(self, other: Self) -> (b: bool)
        ensures
            b == (self.as_int() < other.as_int()),
    ;
}

} // verus!
