//! Fixed-point arithmetic at two scales.
//!
//! An `Exp` carries a value times `10^18`; a `Ray` carries a value times
//! `10^27`. `Exp` operations truncate toward zero; `Ray` and percentage
//! operations round half up. Every operation is checked: overflow past
//! 256 bits and zero divisors surface as `Error::Arithmetic` instead of
//! trapping.

use crate::types::Error;
use crate::u256::{p256, U256};
use vstd::prelude::*;

verus! {

/// `10^18`, the `Exp` scale, as a mathematical integer.
pub open spec fn exp_scale_int() -> int {
    1000000000000000000int
}

/// `10^27`, the `Ray` scale, as a mathematical integer.
pub open spec fn ray_scale_int() -> int {
    1000000000000000000000000000int
}

/// Half of the `Ray` scale: the half-up rounding term of `ray_mul`.
pub open spec fn half_ray_int() -> int {
    500000000000000000000000000int
}

/// `10^9`, the ratio between the `Ray` and `Exp` scales.
pub open spec fn exp_ray_ratio_int() -> int {
    1000000000int
}

/// `10^4`, the basis-point scale of `percent_mul`.
pub open spec fn percentage_factor_int() -> int {
    10000int
}

/// Half of the basis-point scale: the half-up rounding term of `percent_mul`.
pub open spec fn half_percentage_factor_int() -> int {
    5000int
}

/// The `Exp` scale `10^18` as a `U256`.
pub fn exp_scale() -> (r: U256)
    ensures
        r@ == exp_scale_int(),
{
    U256::from_u128(1000000000000000000)
}

/// The `Ray` scale `10^27` as a `U256`.
pub fn ray_scale() -> (r: U256)
    ensures
        r@ == ray_scale_int(),
{
    U256::from_u128(1000000000000000000000000000)
}

/// Half of the `Ray` scale as a `U256`.
pub fn half_ray() -> (r: U256)
    ensures
        r@ == half_ray_int(),
{
    U256::from_u128(500000000000000000000000000)
}

/// The ratio `10^9` between the two scales as a `U256`.
pub fn exp_ray_ratio() -> (r: U256)
    ensures
        r@ == exp_ray_ratio_int(),
{
    U256::from_u128(1000000000)
}

/// A fixed-point number scaled by `10^18`.
#[derive(Clone, Copy, PartialEq, Eq, Structural, Debug)]
pub struct Exp {
    pub mantissa: U256,
}

/// A fixed-point number scaled by `10^27`.
#[derive(Clone, Copy, PartialEq, Eq, Structural, Debug)]
pub struct Ray {
    pub mantissa: U256,
}

/// The `ray_mul` formula: multiply two `Ray` mantissas and round half up
/// back to the `Ray` scale.
pub open spec fn spec_ray_mul(a: int, b: int) -> int {
    (a * b + half_ray_int()) / ray_scale_int()
}

/// When `ray_mul` succeeds: its rounded product stays below `2^256`.
pub open spec fn spec_ray_mul_fits(a: int, b: int) -> bool {
    a * b + half_ray_int() < p256()
}

/// The `ray_div` formula: scale the dividend up to `Ray` precision and
/// divide with half-up rounding.
pub open spec fn spec_ray_div(a: int, b: int) -> int {
    (a * ray_scale_int() + b / 2) / b
}

/// When `ray_div` succeeds: nonzero divisor and no overflow of the scaled
/// dividend.
pub open spec fn spec_ray_div_fits(a: int, b: int) -> bool {
    b > 0 && a * ray_scale_int() + b / 2 < p256()
}

/// The `mul_scalar_truncate` formula: multiply an `Exp` mantissa by a
/// scalar and truncate back to integer units.
pub open spec fn spec_mul_scalar_truncate(e: int, x: int) -> int {
    e * x / exp_scale_int()
}

/// The `percent_mul` formula: basis points with half-up rounding.
pub open spec fn spec_percent_mul(x: int, p: int) -> int {
    (x * p + half_percentage_factor_int()) / percentage_factor_int()
}

/// When `percent_mul` succeeds.
pub open spec fn spec_percent_mul_fits(x: int, p: int) -> bool {
    x * p + half_percentage_factor_int() < p256()
}

/// The `wad_div` formula: scale the dividend by `10^18` and divide with
/// half-up rounding.
pub open spec fn spec_wad_div(a: int, b: int) -> int {
    (a * exp_scale_int() + b / 2) / b
}

/// When `wad_div` succeeds.
pub open spec fn spec_wad_div_fits(a: int, b: int) -> bool {
    b > 0 && a * exp_scale_int() + b / 2 < p256()
}

impl Exp {
    /// Re-scales to `Ray` precision by multiplying the mantissa by `10^9`.
    pub fn to_ray(&self) -> (r: Result<Ray, Error>)
        ensures
            r is Ok <==> self.mantissa@ * exp_ray_ratio_int() < p256(),
            r is Ok ==> r->Ok_0.mantissa@ == self.mantissa@ * exp_ray_ratio_int(),
            r is Err ==> r->Err_0 == Error::Arithmetic,
    {
        let ratio = exp_ray_ratio();
        match self.mantissa.checked_mul(&ratio) {
            Some(m) => Ok(Ray { mantissa: m }),
            None => Err(Error::Arithmetic),
        }
    }

    /// Multiplies by a scalar and truncates: `floor(mantissa * x / 10^18)`.
    pub fn mul_scalar_truncate(&self, x: &U256) -> (r: Result<U256, Error>)
        ensures
            r is Ok <==> self.mantissa@ * x@ < p256(),
            r is Ok ==> r->Ok_0@ == spec_mul_scalar_truncate(self.mantissa@, x@),
            r is Err ==> r->Err_0 == Error::Arithmetic,
    {
        let product = match self.mantissa.checked_mul(x) {
            Some(p) => p,
            None => {
                return Err(Error::Arithmetic);
            },
        };
        let scale = exp_scale();
        Ok(product.div_rem(&scale).0)
    }

    /// `floor(mantissa * x / 10^18) + y`, with checked addition.
    pub fn mul_scalar_truncate_add_uint(&self, x: &U256, y: &U256) -> (r: Result<U256, Error>)
        ensures
            r is Ok <==> self.mantissa@ * x@ < p256() && spec_mul_scalar_truncate(self.mantissa@, x@)
                + y@ < p256(),
            r is Ok ==> r->Ok_0@ == spec_mul_scalar_truncate(self.mantissa@, x@) + y@,
            r is Err ==> r->Err_0 == Error::Arithmetic,
    {
        let truncated = self.mul_scalar_truncate(x)?;
        match truncated.checked_add(y) {
            Some(s) => Ok(s),
            None => Err(Error::Arithmetic),
        }
    }

    /// The whole-unit part of the value: `floor(mantissa / 10^18)`.
    pub fn truncate(&self) -> (r: U256)
        ensures
            r@ == self.mantissa@ / exp_scale_int(),
    {
        let scale = exp_scale();
        self.mantissa.div_rem(&scale).0
    }
}

impl Ray {
    /// Multiplies two `Ray` values, rounding half up at the `Ray` scale.
    pub fn ray_mul(&self, other: &Ray) -> (r: Result<Ray, Error>)
        ensures
            r is Ok <==> spec_ray_mul_fits(self.mantissa@, other.mantissa@),
            r is Ok ==> r->Ok_0.mantissa@ == spec_ray_mul(self.mantissa@, other.mantissa@),
            r is Err ==> r->Err_0 == Error::Arithmetic,
    {
        let product = match self.mantissa.checked_mul(&other.mantissa) {
            Some(p) => p,
            None => {
                return Err(Error::Arithmetic);
            },
        };
        let rounded = match product.checked_add(&half_ray()) {
            Some(s) => s,
            None => {
                return Err(Error::Arithmetic);
            },
        };
        let scale = ray_scale();
        Ok(Ray { mantissa: rounded.div_rem(&scale).0 })
    }

    /// Divides two `Ray` values, rounding half up at the `Ray` scale.
    pub fn ray_div(&self, other: &Ray) -> (r: Result<Ray, Error>)
        ensures
            r is Ok <==> spec_ray_div_fits(self.mantissa@, other.mantissa@),
            r is Ok ==> r->Ok_0.mantissa@ == spec_ray_div(self.mantissa@, other.mantissa@),
            r is Err ==> r->Err_0 == Error::Arithmetic,
    {
        if other.mantissa.is_zero() {
            return Err(Error::Arithmetic);
        }
        let scale = ray_scale();
        let scaled = match self.mantissa.checked_mul(&scale) {
            Some(p) => p,
            None => {
                return Err(Error::Arithmetic);
            },
        };
        let two = U256::from_u64(2);
        let half_divisor = other.mantissa.div_rem(&two).0;
        let rounded = match scaled.checked_add(&half_divisor) {
            Some(s) => s,
            None => {
                return Err(Error::Arithmetic);
            },
        };
        Ok(Ray { mantissa: rounded.div_rem(&other.mantissa).0 })
    }

    /// Re-scales back to `Exp` precision, rounding half up.
    pub fn to_exp(&self) -> (r: Result<Exp, Error>)
        ensures
            r is Ok <==> self.mantissa@ + 500000000 < p256(),
            r is Ok ==> r->Ok_0.mantissa@ == (self.mantissa@ + 500000000) / exp_ray_ratio_int(),
            r is Err ==> r->Err_0 == Error::Arithmetic,
    {
        let half_ratio = U256::from_u64(500000000);
        let rounded = match self.mantissa.checked_add(&half_ratio) {
            Some(s) => s,
            None => {
                return Err(Error::Arithmetic);
            },
        };
        let ratio = exp_ray_ratio();
        Ok(Exp { mantissa: rounded.div_rem(&ratio).0 })
    }
}

impl U256 {
    /// Basis-point multiplication with half-up rounding:
    /// `(self * pct + 5000) / 10000`.
    pub fn percent_mul(&self, pct: &U256) -> (r: Result<U256, Error>)
        ensures
            r is Ok <==> spec_percent_mul_fits(self@, pct@),
            r is Ok ==> r->Ok_0@ == spec_percent_mul(self@, pct@),
            r is Err ==> r->Err_0 == Error::Arithmetic,
    {
        let product = match self.checked_mul(pct) {
            Some(p) => p,
            None => {
                return Err(Error::Arithmetic);
            },
        };
        let half = U256::from_u64(5000);
        let rounded = match product.checked_add(&half) {
            Some(s) => s,
            None => {
                return Err(Error::Arithmetic);
            },
        };
        let factor = U256::from_u64(10000);
        Ok(rounded.div_rem(&factor).0)
    }

    /// Division at the `10^18` scale with half-up rounding:
    /// `(self * 10^18 + other / 2) / other`.
    pub fn wad_div(&self, other: &U256) -> (r: Result<U256, Error>)
        ensures
            r is Ok <==> spec_wad_div_fits(self@, other@),
            r is Ok ==> r->Ok_0@ == spec_wad_div(self@, other@),
            r is Err ==> r->Err_0 == Error::Arithmetic,
    {
        if other.is_zero() {
            return Err(Error::Arithmetic);
        }
        let scale = exp_scale();
        let scaled = match self.checked_mul(&scale) {
            Some(p) => p,
            None => {
                return Err(Error::Arithmetic);
            },
        };
        let two = U256::from_u64(2);
        let half_divisor = other.div_rem(&two).0;
        let rounded = match scaled.checked_add(&half_divisor) {
            Some(s) => s,
            None => {
                return Err(Error::Arithmetic);
            },
        };
        Ok(rounded.div_rem(other).0)
    }
}

} // verus!
