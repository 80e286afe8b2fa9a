//! Native numeric parameter types and their wire-level behaviour.
//!
//! Wire integers arrive as `i64`. A handler parameter declared with a
//! narrower native type receives the value through a plain narrowing cast:
//! out-of-range values are truncated, never rejected, because range
//! metadata is advisory and enforced client-side by the platform.

use vstd::prelude::*;

verus! {

/// Whether a numeric parameter is carried on the wire as an integer or as
/// a floating-point number.
#[derive(Clone, Copy, Debug, PartialEq, Eq, Structural)]
pub enum NumberType {
    Integer,
    Float,
}

/// A native integer type that can stand as a command parameter.
///
/// `spec_min`/`spec_max` give the type's own inclusive wire bounds (used
/// as defaults for the registration descriptor) and `from_i64` narrows a
/// wire integer to the native width by truncation.
pub trait Integer: Sized {
    spec fn spec_min() -> i128;

    spec fn spec_max() -> i128;

    spec fn spec_from_i64(v: i64) -> Self;

    fn min_value() -> (r: i128)
        ensures
            r == Self::spec_min(),
    ;

    fn max_value() -> (r: i128)
        ensures
            r == Self::spec_max(),
    ;

    fn from_i64(v: i64) -> (r: Self)
        ensures
            r == Self::spec_from_i64(v),
    ;
}

impl Integer for u8 {
    open spec fn spec_min() -> i128 {
        u8::MIN as i128
    }

    open spec fn spec_max() -> i128 {
        u8::MAX as i128
    }

    open spec fn spec_from_i64(v: i64) -> u8 {
        v as u8
    }

    fn min_value() -> i128 {
        u8::MIN as i128
    }

    fn max_value() -> i128 {
        u8::MAX as i128
    }

    fn from_i64(v: i64) -> u8 {
        #[verifier::truncate] (v as u8)
    }
}

impl Integer for u16 {
    open spec fn spec_min() -> i128 {
        u16::MIN as i128
    }

    open spec fn spec_max() -> i128 {
        u16::MAX as i128
    }

    open spec fn spec_from_i64(v: i64) -> u16 {
        v as u16
    }

    fn min_value() -> i128 {
        u16::MIN as i128
    }

    fn max_value() -> i128 {
        u16::MAX as i128
    }

    fn from_i64(v: i64) -> u16 {
        #[verifier::truncate] (v as u16)
    }
}

impl Integer for u32 {
    open spec fn spec_min() -> i128 {
        u32::MIN as i128
    }

    open spec fn spec_max() -> i128 {
        u32::MAX as i128
    }

    open spec fn spec_from_i64(v: i64) -> u32 {
        v as u32
    }

    fn min_value() -> i128 {
        u32::MIN as i128
    }

    fn max_value() -> i128 {
        u32::MAX as i128
    }

    fn from_i64(v: i64) -> u32 {
        #[verifier::truncate] (v as u32)
    }
}

impl Integer for u64 {
    open spec fn spec_min() -> i128 {
        u64::MIN as i128
    }

    open spec fn spec_max() -> i128 {
        u64::MAX as i128
    }

    open spec fn spec_from_i64(v: i64) -> u64 {
        v as u64
    }

    fn min_value() -> i128 {
        u64::MIN as i128
    }

    fn max_value() -> i128 {
        u64::MAX as i128
    }

    fn from_i64(v: i64) -> u64 {
        #[verifier::truncate] (v as u64)
    }
}

impl Integer for i8 {
    open spec fn spec_min() -> i128 {
        i8::MIN as i128
    }

    open spec fn spec_max() -> i128 {
        i8::MAX as i128
    }

    open spec fn spec_from_i64(v: i64) -> i8 {
        v as i8
    }

    fn min_value() -> i128 {
        i8::MIN as i128
    }

    fn max_value() -> i128 {
        i8::MAX as i128
    }

    fn from_i64(v: i64) -> i8 {
        #[verifier::truncate] (v as i8)
    }
}

impl Integer for i16 {
    open spec fn spec_min() -> i128 {
        i16::MIN as i128
    }

    open spec fn spec_max() -> i128 {
        i16::MAX as i128
    }

    open spec fn spec_from_i64(v: i64) -> i16 {
        v as i16
    }

    fn min_value() -> i128 {
        i16::MIN as i128
    }

    fn max_value() -> i128 {
        i16::MAX as i128
    }

    fn from_i64(v: i64) -> i16 {
        #[verifier::truncate] (v as i16)
    }
}

impl Integer for i32 {
    open spec fn spec_min() -> i128 {
        i32::MIN as i128
    }

    open spec fn spec_max() -> i128 {
        i32::MAX as i128
    }

    open spec fn spec_from_i64(v: i64) -> i32 {
        v as i32
    }

    fn min_value() -> i128 {
        i32::MIN as i128
    }

    fn max_value() -> i128 {
        i32::MAX as i128
    }

    fn from_i64(v: i64) -> i32 {
        #[verifier::truncate] (v as i32)
    }
}

impl Integer for i64 {
    open spec fn spec_min() -> i128 {
        i64::MIN as i128
    }

    open spec fn spec_max() -> i128 {
        i64::MAX as i128
    }

    open spec fn spec_from_i64(v: i64) -> i64 {
        v
    }

    fn min_value() -> i128 {
        i64::MIN as i128
    }

    fn max_value() -> i128 {
        i64::MAX as i128
    }

    fn from_i64(v: i64) -> i64 {
        v
    }
}

} // verus!
