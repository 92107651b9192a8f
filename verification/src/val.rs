//! Values: integers tagged with their width.

use vstd::prelude::*;
use crate::bits::check_ovf;
use crate::err::{plain, ErrCode, Res};

verus! {

/// The value of an expression: a 16-bit or a 32-bit integer.
#[derive(Clone, Copy, PartialEq, Eq, Debug, Structural)]
pub enum Val {
    I16(u16),
    I32(u32),
}

impl Val {
    /// The integer, whatever its width.
    pub open spec fn value(self) -> u32 {
        match self {
            Val::I16(v) => v as u32,
            Val::I32(v) => v,
        }
    }

    /// The value of the narrowest width that holds `v`.
    pub open spec fn of(v: u32) -> Val {
        if v <= 0xffff {
            Val::I16(v as u16)
        } else {
            Val::I32(v)
        }
    }

    /// Narrows to 16 bits. A 32-bit value that does not fit is an error.
    pub fn as_u16(&self) -> (r: Res<u16>)
        ensures
            match r {
                Ok(x) => self.value() <= 0xffff && x == self.value(),
                Err(e) => self.value() > 0xffff && e@ == plain(ErrCode::IE275),
            },
    {
        match *self {
            Val::I16(v) => Ok(v),
            Val::I32(v) => match check_ovf(v) {
                Ok(x) => Ok(x as u16),
                Err(e) => Err(e),
            },
        }
    }

    /// Widens to 32 bits, which is exact.
    pub fn as_u32(&self) -> (r: u32)
        ensures
            r == self.value(),
    {
        match *self {
            Val::I16(v) => v as u32,
            Val::I32(v) => v,
        }
    }

    /// The integer as a `usize`, which is exact.
    pub fn as_usize(&self) -> (r: usize)
        ensures
            r == self.value(),
    {
        self.as_u32() as usize
    }

    /// Tags `v` with the narrowest width that holds it.
    pub fn from_u32(v: u32) -> (r: Val)
        ensures
            r == Val::of(v),
    {
        if v & 0xffff == v {
            assert(v <= 0xffff) by (bit_vector)
                requires
                    v & 0xffff == v,
            ;
            Val::I16(v as u16)
        } else {
            assert(v > 0xffff) by (bit_vector)
                requires
                    v & 0xffff != v,
            ;
            Val::I32(v)
        }
    }
}

/// Tagging an integer and reading it back gives the integer, and the tag is
/// the narrow one exactly for the integers up to 65535.
pub proof fn lemma_of_value(v: u32)
    ensures
        Val::of(v).value() == v,
        Val::of(v) is I16 <==> v <= 0xffff,
{
}

/// Reading a value and tagging the integer anew gives the value back, unless
/// the value was a 32-bit one that 16 bits would have held.
pub proof fn lemma_value_of(x: Val)
    requires
        x is I16 || x.value() > 0xffff,
    ensures
        Val::of(x.value()) == x,
{
}

} // verus!
