use vstd::prelude::*;

verus! {

/// Something that can be cast to another numeric type, with the
/// machine's truncating conversion.
pub trait Cast<T>: Sized {
    /// The converted value, as contracts see it.
    spec fn spec_cast(self) -> T;

    fn cast(self) -> (r: T)
        ensures
            r == self.spec_cast(),
    ;
}

/// A number castable to the common machine widths.
pub trait CastNum: Cast<i64> + Cast<u32> + Cast<u16> + Cast<usize> {

}

/// A number which can be cast.
pub trait NumCast: CastNum {

}

/// A number which has an additive identity.
pub trait Zero: Sized {
    spec fn spec_zero() -> Self;

    fn zero() -> (r: Self)
        ensures
            r == Self::spec_zero(),
    ;

    fn is_zero(self) -> (r: bool)
        ensures
            r == (self == Self::spec_zero()),
    ;
}

/// A number which has a multiplicative identity.
pub trait One: Sized {
    spec fn spec_one() -> Self;

    fn one() -> (r: Self)
        ensures
            r == Self::spec_one(),
    ;
}

/// A number which has an upper and lower bound.
pub trait Bounded: Sized {
    spec fn spec_min() -> Self;

    spec fn spec_max() -> Self;

    fn min() -> (r: Self)
        ensures
            r == Self::spec_min(),
    ;

    fn max() -> (r: Self)
        ensures
            r == Self::spec_max(),
    ;
}

/// A number which can be positive or negative.
pub trait Signed: Sized {
    /// The absolute value, as contracts see it.
    spec fn spec_abs(self) -> Self;

    /// Where `abs` is defined: everywhere but the one value whose
    /// magnitude does not fit.
    spec fn abs_defined(self) -> bool;

    fn abs(self) -> (r: Self)
        requires
            self.abs_defined(),
        ensures
            r == self.spec_abs(),
    ;
}

/// A number which does not have a sign.
pub trait Unsigned {

}

/// A generalised number.
pub trait Num: Zero + One + Bounded {

}

/// A number which is an integer.
pub trait Integer: Num + NumCast + Copy {

}

/// A primitive number.
pub trait Primitive: Copy + Clone + Num + NumCast {

}

impl Cast<i64> for u8 {
    open spec fn spec_cast(self) -> i64 {
        self as i64
    }

    fn cast(self) -> i64 {
        self as i64
    }
}
impl Cast<u32> for u8 {
    open spec fn spec_cast(self) -> u32 {
        self as u32
    }

    fn cast(self) -> u32 {
        self as u32
    }
}
impl Cast<u16> for u8 {
    open spec fn spec_cast(self) -> u16 {
        self as u16
    }

    fn cast(self) -> u16 {
        self as u16
    }
}
impl Cast<usize> for u8 {
    open spec fn spec_cast(self) -> usize {
        self as usize
    }

    fn cast(self) -> usize {
        self as usize
    }
}
impl Cast<i64> for u16 {
    open spec fn spec_cast(self) -> i64 {
        self as i64
    }

    fn cast(self) -> i64 {
        self as i64
    }
}
impl Cast<u32> for u16 {
    open spec fn spec_cast(self) -> u32 {
        self as u32
    }

    fn cast(self) -> u32 {
        self as u32
    }
}
impl Cast<u16> for u16 {
    open spec fn spec_cast(self) -> u16 {
        self as u16
    }

    fn cast(self) -> u16 {
        self as u16
    }
}
impl Cast<usize> for u16 {
    open spec fn spec_cast(self) -> usize {
        self as usize
    }

    fn cast(self) -> usize {
        self as usize
    }
}
impl Cast<i64> for u32 {
    open spec fn spec_cast(self) -> i64 {
        self as i64
    }

    fn cast(self) -> i64 {
        self as i64
    }
}
impl Cast<u32> for u32 {
    open spec fn spec_cast(self) -> u32 {
        self as u32
    }

    fn cast(self) -> u32 {
        self as u32
    }
}
impl Cast<u16> for u32 {
    open spec fn spec_cast(self) -> u16 {
        self as u16
    }

    fn cast(self) -> u16 {
        self as u16
    }
}
impl Cast<usize> for u32 {
    open spec fn spec_cast(self) -> usize {
        self as usize
    }

    fn cast(self) -> usize {
        self as usize
    }
}
impl Cast<i64> for u64 {
    open spec fn spec_cast(self) -> i64 {
        self as i64
    }

    fn cast(self) -> i64 {
        self as i64
    }
}
impl Cast<u32> for u64 {
    open spec fn spec_cast(self) -> u32 {
        self as u32
    }

    fn cast(self) -> u32 {
        self as u32
    }
}
impl Cast<u16> for u64 {
    open spec fn spec_cast(self) -> u16 {
        self as u16
    }

    fn cast(self) -> u16 {
        self as u16
    }
}
impl Cast<usize> for u64 {
    open spec fn spec_cast(self) -> usize {
        self as usize
    }

    fn cast(self) -> usize {
        self as usize
    }
}
impl Cast<i64> for usize {
    open spec fn spec_cast(self) -> i64 {
        self as i64
    }

    fn cast(self) -> i64 {
        self as i64
    }
}
impl Cast<u32> for usize {
    open spec fn spec_cast(self) -> u32 {
        self as u32
    }

    fn cast(self) -> u32 {
        self as u32
    }
}
impl Cast<u16> for usize {
    open spec fn spec_cast(self) -> u16 {
        self as u16
    }

    fn cast(self) -> u16 {
        self as u16
    }
}
impl Cast<usize> for usize {
    open spec fn spec_cast(self) -> usize {
        self as usize
    }

    fn cast(self) -> usize {
        self as usize
    }
}
impl Cast<i64> for i32 {
    open spec fn spec_cast(self) -> i64 {
        self as i64
    }

    fn cast(self) -> i64 {
        self as i64
    }
}
impl Cast<u32> for i32 {
    open spec fn spec_cast(self) -> u32 {
        self as u32
    }

    fn cast(self) -> u32 {
        self as u32
    }
}
impl Cast<u16> for i32 {
    open spec fn spec_cast(self) -> u16 {
        self as u16
    }

    fn cast(self) -> u16 {
        self as u16
    }
}
impl Cast<usize> for i32 {
    open spec fn spec_cast(self) -> usize {
        self as usize
    }

    fn cast(self) -> usize {
        self as usize
    }
}
impl Cast<i64> for i64 {
    open spec fn spec_cast(self) -> i64 {
        self as i64
    }

    fn cast(self) -> i64 {
        self as i64
    }
}
impl Cast<u32> for i64 {
    open spec fn spec_cast(self) -> u32 {
        self as u32
    }

    fn cast(self) -> u32 {
        self as u32
    }
}
impl Cast<u16> for i64 {
    open spec fn spec_cast(self) -> u16 {
        self as u16
    }

    fn cast(self) -> u16 {
        self as u16
    }
}
impl Cast<usize> for i64 {
    open spec fn spec_cast(self) -> usize {
        self as usize
    }

    fn cast(self) -> usize {
        self as usize
    }
}

impl CastNum for u8 {

}
impl NumCast for u8 {

}
impl CastNum for u16 {

}
impl NumCast for u16 {

}
impl CastNum for u32 {

}
impl NumCast for u32 {

}
impl CastNum for u64 {

}
impl NumCast for u64 {

}
impl CastNum for usize {

}
impl NumCast for usize {

}
impl CastNum for i32 {

}
impl NumCast for i32 {

}
impl CastNum for i64 {

}
impl NumCast for i64 {

}

impl Zero for u8 {
    open spec fn spec_zero() -> u8 {
        0u8
    }

    fn zero() -> u8 {
        0
    }

    fn is_zero(self) -> bool {
        self == 0
    }
}

impl One for u8 {
    open spec fn spec_one() -> u8 {
        1u8
    }

    fn one() -> u8 {
        1
    }
}

impl Bounded for u8 {
    open spec fn spec_min() -> u8 {
        u8::MIN
    }

    open spec fn spec_max() -> u8 {
        u8::MAX
    }

    fn min() -> u8 {
        u8::MIN
    }

    fn max() -> u8 {
        u8::MAX
    }
}

impl Num for u8 {

}

impl Primitive for u8 {

}
impl Zero for u16 {
    open spec fn spec_zero() -> u16 {
        0u16
    }

    fn zero() -> u16 {
        0
    }

    fn is_zero(self) -> bool {
        self == 0
    }
}

impl One for u16 {
    open spec fn spec_one() -> u16 {
        1u16
    }

    fn one() -> u16 {
        1
    }
}

impl Bounded for u16 {
    open spec fn spec_min() -> u16 {
        u16::MIN
    }

    open spec fn spec_max() -> u16 {
        u16::MAX
    }

    fn min() -> u16 {
        u16::MIN
    }

    fn max() -> u16 {
        u16::MAX
    }
}

impl Num for u16 {

}

impl Primitive for u16 {

}
impl Zero for u32 {
    open spec fn spec_zero() -> u32 {
        0u32
    }

    fn zero() -> u32 {
        0
    }

    fn is_zero(self) -> bool {
        self == 0
    }
}

impl One for u32 {
    open spec fn spec_one() -> u32 {
        1u32
    }

    fn one() -> u32 {
        1
    }
}

impl Bounded for u32 {
    open spec fn spec_min() -> u32 {
        u32::MIN
    }

    open spec fn spec_max() -> u32 {
        u32::MAX
    }

    fn min() -> u32 {
        u32::MIN
    }

    fn max() -> u32 {
        u32::MAX
    }
}

impl Num for u32 {

}

impl Primitive for u32 {

}
impl Zero for u64 {
    open spec fn spec_zero() -> u64 {
        0u64
    }

    fn zero() -> u64 {
        0
    }

    fn is_zero(self) -> bool {
        self == 0
    }
}

impl One for u64 {
    open spec fn spec_one() -> u64 {
        1u64
    }

    fn one() -> u64 {
        1
    }
}

impl Bounded for u64 {
    open spec fn spec_min() -> u64 {
        u64::MIN
    }

    open spec fn spec_max() -> u64 {
        u64::MAX
    }

    fn min() -> u64 {
        u64::MIN
    }

    fn max() -> u64 {
        u64::MAX
    }
}

impl Num for u64 {

}

impl Primitive for u64 {

}
impl Zero for usize {
    open spec fn spec_zero() -> usize {
        0usize
    }

    fn zero() -> usize {
        0
    }

    fn is_zero(self) -> bool {
        self == 0
    }
}

impl One for usize {
    open spec fn spec_one() -> usize {
        1usize
    }

    fn one() -> usize {
        1
    }
}

impl Bounded for usize {
    open spec fn spec_min() -> usize {
        usize::MIN
    }

    open spec fn spec_max() -> usize {
        usize::MAX
    }

    fn min() -> usize {
        usize::MIN
    }

    fn max() -> usize {
        usize::MAX
    }
}

impl Num for usize {

}

impl Primitive for usize {

}
impl Zero for i32 {
    open spec fn spec_zero() -> i32 {
        0i32
    }

    fn zero() -> i32 {
        0
    }

    fn is_zero(self) -> bool {
        self == 0
    }
}

impl One for i32 {
    open spec fn spec_one() -> i32 {
        1i32
    }

    fn one() -> i32 {
        1
    }
}

impl Bounded for i32 {
    open spec fn spec_min() -> i32 {
        i32::MIN
    }

    open spec fn spec_max() -> i32 {
        i32::MAX
    }

    fn min() -> i32 {
        i32::MIN
    }

    fn max() -> i32 {
        i32::MAX
    }
}

impl Num for i32 {

}

impl Primitive for i32 {

}
impl Zero for i64 {
    open spec fn spec_zero() -> i64 {
        0i64
    }

    fn zero() -> i64 {
        0
    }

    fn is_zero(self) -> bool {
        self == 0
    }
}

impl One for i64 {
    open spec fn spec_one() -> i64 {
        1i64
    }

    fn one() -> i64 {
        1
    }
}

impl Bounded for i64 {
    open spec fn spec_min() -> i64 {
        i64::MIN
    }

    open spec fn spec_max() -> i64 {
        i64::MAX
    }

    fn min() -> i64 {
        i64::MIN
    }

    fn max() -> i64 {
        i64::MAX
    }
}

impl Num for i64 {

}

impl Primitive for i64 {

}

impl Unsigned for u8 {

}
impl Unsigned for u16 {

}
impl Unsigned for u32 {

}
impl Unsigned for u64 {

}
impl Unsigned for usize {

}

impl Integer for u8 {

}
impl Integer for u16 {

}
impl Integer for u32 {

}
impl Integer for u64 {

}
impl Integer for usize {

}
impl Integer for i32 {

}
impl Integer for i64 {

}

impl Signed for i32 {
    open spec fn spec_abs(self) -> i32 {
        if self < 0 {
            (-(self as int)) as i32
        } else {
            self
        }
    }

    open spec fn abs_defined(self) -> bool {
        self != i32::MIN
    }

    fn abs(self) -> i32 {
        if self < 0 {
            -self
        } else {
            self
        }
    }
}
impl Signed for i64 {
    open spec fn spec_abs(self) -> i64 {
        if self < 0 {
            (-(self as int)) as i64
        } else {
            self
        }
    }

    open spec fn abs_defined(self) -> bool {
        self != i64::MIN
    }

    fn abs(self) -> i64 {
        if self < 0 {
            -self
        } else {
            self
        }
    }
}

/// Casts a number from one type to another.
pub fn cast<T, U: Cast<T>>(n: U) -> (r: T)
    ensures
        r == n.spec_cast(),
{
    n.cast()
}

pub fn zero<T: Zero>() -> (r: T)
    ensures
        r == T::spec_zero(),
{
    T::zero()
}

pub fn one<T: One>() -> (r: T)
    ensures
        r == T::spec_one(),
{
    T::one()
}

/// Gets the maximum value of a type.
pub fn max<T: Bounded>() -> (r: T)
    ensures
        r == T::spec_max(),
{
    T::max()
}

/// Gets the minimum value of a type.
pub fn min<T: Bounded>() -> (r: T)
    ensures
        r == T::spec_min(),
{
    T::min()
}

/// The sum of a value list.
pub open spec fn spec_sum_i64(s: Seq<i64>) -> int
    decreases s.len(),
{
    if s.len() == 0 {
        0
    } else {
        spec_sum_i64(s.drop_last()) + s.last()
    }
}

/// The mean of a value list, truncated towards zero as the machine
/// divides; 0 for an empty list.
pub open spec fn spec_average(s: Seq<i64>) -> int {
    if s.len() == 0 {
        0
    } else if spec_sum_i64(s) >= 0 {
        spec_sum_i64(s) / (s.len() as int)
    } else {
        -((-spec_sum_i64(s)) / (s.len() as int))
    }
}

/// The truncated mean of the values.
pub fn average(values: &Vec<i64>) -> (r: i64)
    ensures
        r == spec_average(values@),
{
    let n = values.len();
    if n == 0 {
        return 0;
    }
    let mut sum: i128 = 0;
    let mut i: usize = 0;
    #[verifier::loop_isolation(false)]
    while i < n
        invariant
            0 <= i <= n,
            sum == spec_sum_i64(values@.take(i as int)),
            -(i as int) * 0x8000_0000_0000_0000 <= sum <= (i as int) * 0x7fff_ffff_ffff_ffff,
        decreases n - i,
    {
        let v = values[i];
        proof {
            assert(values@.take(i + 1 as int).drop_last() =~= values@.take(i as int));
            assert(values@.take(i + 1 as int).last() == v);
            assert((i + 1 as int) * 0x8000_0000_0000_0000 == (i as int) * 0x8000_0000_0000_0000
                + 0x8000_0000_0000_0000) by (nonlinear_arith);
            assert((i + 1 as int) * 0x7fff_ffff_ffff_ffff == (i as int) * 0x7fff_ffff_ffff_ffff
                + 0x7fff_ffff_ffff_ffff) by (nonlinear_arith);
        }
        sum = sum + v as i128;
        i = i + 1;
    }
    proof {
        assert(values@.take(n as int) =~= values@);
    }
    if sum >= 0 {
        let q = (sum as u128) / (n as u128);
        proof {
            vstd::arithmetic::div_mod::lemma_div_is_ordered(
                sum as int,
                (n as int) * 0x7fff_ffff_ffff_ffff,
                n as int,
            );
            vstd::arithmetic::div_mod::lemma_div_by_multiple(0x7fff_ffff_ffff_ffff, n as int);
            vstd::arithmetic::mul::lemma_mul_is_commutative(n as int, 0x7fff_ffff_ffff_ffff);
        }
        q as i64
    } else {
        let mag = (-sum) as u128;
        let q = mag / (n as u128);
        proof {
            vstd::arithmetic::div_mod::lemma_div_is_ordered(
                -sum,
                (n as int) * 0x8000_0000_0000_0000,
                n as int,
            );
            vstd::arithmetic::div_mod::lemma_div_by_multiple(0x8000_0000_0000_0000, n as int);
            vstd::arithmetic::mul::lemma_mul_is_commutative(n as int, 0x8000_0000_0000_0000);
        }
        let neg: i128 = -(q as i128);
        neg as i64
    }
}

} // verus!
