//! Integer types of the binary interface, one for each meaning, so that a raw
//! integer never crosses a layer boundary on its own.

use std::ops::Range;
use vstd::prelude::*;
use vstd::std_specs::cmp::PartialEqSpecImpl;
use vstd::std_specs::convert::FromSpecImpl;

verus! {

/// What can go wrong when an interface integer is built or converted.
#[derive(Clone, Copy, PartialEq, Eq, Structural, Debug)]
pub enum AbiTypeError {
    /// A value that must not be zero was zero.
    Zero,
    /// The value does not fit in `usize` on this machine.
    UsizeOverflow,
    /// A sum of counts, or a product of a count and a size, overflowed.
    CountOverflow,
    /// The value is above the limit that the caller gave.
    ExceedsMax,
}

/// User-space virtual address.
#[derive(Clone, Copy, PartialEq, Eq, Structural, PartialOrd, Ord, Hash, Debug)]
pub struct UserVa(pub u64);

impl UserVa {
    /// Wraps a raw value.
    pub fn new(raw: u64) -> (r: Self)
        ensures
            r == UserVa(raw),
    {
        UserVa(raw)
    }

    /// The raw value.
    pub fn get(self) -> (r: u64)
        ensures
            r == self.0,
    {
        self.0
    }

    /// Wraps a value that must not be zero.
    pub fn try_nonzero(raw: u64) -> (r: Result<Self, AbiTypeError>)
        ensures
            r == (if raw == 0 {
                Err::<Self, AbiTypeError>(AbiTypeError::Zero)
            } else {
                Ok(UserVa(raw))
            }),
    {
        if raw == 0 {
            Err(AbiTypeError::Zero)
        } else {
            Ok(UserVa(raw))
        }
    }

    /// The value as `usize`, where it fits.
    pub fn try_as_usize(self) -> (r: Result<usize, AbiTypeError>)
        ensures
            r == (if self.0 <= usize::MAX {
                Ok::<usize, AbiTypeError>(self.0 as usize)
            } else {
                Err(AbiTypeError::UsizeOverflow)
            }),
    {
        if self.0 > usize::MAX as u64 {
            Err(AbiTypeError::UsizeOverflow)
        } else {
            Ok(self.0 as usize)
        }
    }

    /// The value as `usize`, where it fits and is at most `max`.
    pub fn try_under_max(self, max: usize) -> (r: Result<usize, AbiTypeError>)
        ensures
            r == (if !(self.0 <= usize::MAX) {
                Err::<usize, AbiTypeError>(AbiTypeError::UsizeOverflow)
            } else if self.0 > max {
                Err(AbiTypeError::ExceedsMax)
            } else {
                Ok(self.0 as usize)
            }),
    {
        match self.try_as_usize() {
            Ok(value) => if value > max {
                Err(AbiTypeError::ExceedsMax)
            } else {
                Ok(value)
            },
            Err(err) => Err(err),
        }
    }
}

impl Default for UserVa {
    fn default() -> (r: Self)
        ensures
            r == UserVa(0),
    {
        UserVa(0)
    }
}

impl PartialEq<u64> for UserVa {
    fn eq(&self, other: &u64) -> (r: bool) {
        self.0 == *other
    }
}

impl PartialEqSpecImpl<u64> for UserVa {
    open spec fn obeys_eq_spec() -> bool {
        true
    }

    open spec fn eq_spec(&self, other: &u64) -> bool {
        self.0 == *other
    }
}

impl PartialEq<UserVa> for u64 {
    fn eq(&self, other: &UserVa) -> (r: bool) {
        *self == other.0
    }
}

impl PartialEqSpecImpl<UserVa> for u64 {
    open spec fn obeys_eq_spec() -> bool {
        true
    }

    open spec fn eq_spec(&self, other: &UserVa) -> bool {
        *self == other.0
    }
}

impl From<u64> for UserVa {
    fn from(value: u64) -> (r: Self) {
        UserVa(value)
    }
}

impl FromSpecImpl<u64> for UserVa {
    open spec fn obeys_from_spec() -> bool {
        true
    }

    open spec fn from_spec(value: u64) -> Self {
        UserVa(value)
    }
}

impl From<UserVa> for u64 {
    fn from(value: UserVa) -> (r: Self) {
        value.0
    }
}

impl FromSpecImpl<UserVa> for u64 {
    open spec fn obeys_from_spec() -> bool {
        true
    }

    open spec fn from_spec(value: UserVa) -> Self {
        value.0
    }
}

/// Kernel-space virtual address.
#[derive(Clone, Copy, PartialEq, Eq, Structural, PartialOrd, Ord, Hash, Debug)]
pub struct KernelVa(pub u64);

impl KernelVa {
    /// Wraps a raw value.
    pub fn new(raw: u64) -> (r: Self)
        ensures
            r == KernelVa(raw),
    {
        KernelVa(raw)
    }

    /// The raw value.
    pub fn get(self) -> (r: u64)
        ensures
            r == self.0,
    {
        self.0
    }

    /// Wraps a value that must not be zero.
    pub fn try_nonzero(raw: u64) -> (r: Result<Self, AbiTypeError>)
        ensures
            r == (if raw == 0 {
                Err::<Self, AbiTypeError>(AbiTypeError::Zero)
            } else {
                Ok(KernelVa(raw))
            }),
    {
        if raw == 0 {
            Err(AbiTypeError::Zero)
        } else {
            Ok(KernelVa(raw))
        }
    }

    /// The value as `usize`, where it fits.
    pub fn try_as_usize(self) -> (r: Result<usize, AbiTypeError>)
        ensures
            r == (if self.0 <= usize::MAX {
                Ok::<usize, AbiTypeError>(self.0 as usize)
            } else {
                Err(AbiTypeError::UsizeOverflow)
            }),
    {
        if self.0 > usize::MAX as u64 {
            Err(AbiTypeError::UsizeOverflow)
        } else {
            Ok(self.0 as usize)
        }
    }

    /// The value as `usize`, where it fits and is at most `max`.
    pub fn try_under_max(self, max: usize) -> (r: Result<usize, AbiTypeError>)
        ensures
            r == (if !(self.0 <= usize::MAX) {
                Err::<usize, AbiTypeError>(AbiTypeError::UsizeOverflow)
            } else if self.0 > max {
                Err(AbiTypeError::ExceedsMax)
            } else {
                Ok(self.0 as usize)
            }),
    {
        match self.try_as_usize() {
            Ok(value) => if value > max {
                Err(AbiTypeError::ExceedsMax)
            } else {
                Ok(value)
            },
            Err(err) => Err(err),
        }
    }
}

impl Default for KernelVa {
    fn default() -> (r: Self)
        ensures
            r == KernelVa(0),
    {
        KernelVa(0)
    }
}

impl PartialEq<u64> for KernelVa {
    fn eq(&self, other: &u64) -> (r: bool) {
        self.0 == *other
    }
}

impl PartialEqSpecImpl<u64> for KernelVa {
    open spec fn obeys_eq_spec() -> bool {
        true
    }

    open spec fn eq_spec(&self, other: &u64) -> bool {
        self.0 == *other
    }
}

impl PartialEq<KernelVa> for u64 {
    fn eq(&self, other: &KernelVa) -> (r: bool) {
        *self == other.0
    }
}

impl PartialEqSpecImpl<KernelVa> for u64 {
    open spec fn obeys_eq_spec() -> bool {
        true
    }

    open spec fn eq_spec(&self, other: &KernelVa) -> bool {
        *self == other.0
    }
}

impl From<u64> for KernelVa {
    fn from(value: u64) -> (r: Self) {
        KernelVa(value)
    }
}

impl FromSpecImpl<u64> for KernelVa {
    open spec fn obeys_from_spec() -> bool {
        true
    }

    open spec fn from_spec(value: u64) -> Self {
        KernelVa(value)
    }
}

impl From<KernelVa> for u64 {
    fn from(value: KernelVa) -> (r: Self) {
        value.0
    }
}

impl FromSpecImpl<KernelVa> for u64 {
    open spec fn obeys_from_spec() -> bool {
        true
    }

    open spec fn from_spec(value: KernelVa) -> Self {
        value.0
    }
}

/// Length in bytes, 64 bits wide.
#[derive(Clone, Copy, PartialEq, Eq, Structural, PartialOrd, Ord, Hash, Debug)]
pub struct ByteSize(pub u64);

impl ByteSize {
    /// Wraps a raw value.
    pub fn new(raw: u64) -> (r: Self)
        ensures
            r == ByteSize(raw),
    {
        ByteSize(raw)
    }

    /// The raw value.
    pub fn get(self) -> (r: u64)
        ensures
            r == self.0,
    {
        self.0
    }

    /// Wraps a value that must not be zero.
    pub fn try_nonzero(raw: u64) -> (r: Result<Self, AbiTypeError>)
        ensures
            r == (if raw == 0 {
                Err::<Self, AbiTypeError>(AbiTypeError::Zero)
            } else {
                Ok(ByteSize(raw))
            }),
    {
        if raw == 0 {
            Err(AbiTypeError::Zero)
        } else {
            Ok(ByteSize(raw))
        }
    }

    /// The value as `usize`, where it fits.
    pub fn try_as_usize(self) -> (r: Result<usize, AbiTypeError>)
        ensures
            r == (if self.0 <= usize::MAX {
                Ok::<usize, AbiTypeError>(self.0 as usize)
            } else {
                Err(AbiTypeError::UsizeOverflow)
            }),
    {
        if self.0 > usize::MAX as u64 {
            Err(AbiTypeError::UsizeOverflow)
        } else {
            Ok(self.0 as usize)
        }
    }

    /// The value as `usize`, where it fits and is at most `max`.
    pub fn try_under_max(self, max: usize) -> (r: Result<usize, AbiTypeError>)
        ensures
            r == (if !(self.0 <= usize::MAX) {
                Err::<usize, AbiTypeError>(AbiTypeError::UsizeOverflow)
            } else if self.0 > max {
                Err(AbiTypeError::ExceedsMax)
            } else {
                Ok(self.0 as usize)
            }),
    {
        match self.try_as_usize() {
            Ok(value) => if value > max {
                Err(AbiTypeError::ExceedsMax)
            } else {
                Ok(value)
            },
            Err(err) => Err(err),
        }
    }
}

impl Default for ByteSize {
    fn default() -> (r: Self)
        ensures
            r == ByteSize(0),
    {
        ByteSize(0)
    }
}

impl PartialEq<u64> for ByteSize {
    fn eq(&self, other: &u64) -> (r: bool) {
        self.0 == *other
    }
}

impl PartialEqSpecImpl<u64> for ByteSize {
    open spec fn obeys_eq_spec() -> bool {
        true
    }

    open spec fn eq_spec(&self, other: &u64) -> bool {
        self.0 == *other
    }
}

impl PartialEq<ByteSize> for u64 {
    fn eq(&self, other: &ByteSize) -> (r: bool) {
        *self == other.0
    }
}

impl PartialEqSpecImpl<ByteSize> for u64 {
    open spec fn obeys_eq_spec() -> bool {
        true
    }

    open spec fn eq_spec(&self, other: &ByteSize) -> bool {
        *self == other.0
    }
}

impl From<u64> for ByteSize {
    fn from(value: u64) -> (r: Self) {
        ByteSize(value)
    }
}

impl FromSpecImpl<u64> for ByteSize {
    open spec fn obeys_from_spec() -> bool {
        true
    }

    open spec fn from_spec(value: u64) -> Self {
        ByteSize(value)
    }
}

impl From<ByteSize> for u64 {
    fn from(value: ByteSize) -> (r: Self) {
        value.0
    }
}

impl FromSpecImpl<ByteSize> for u64 {
    open spec fn obeys_from_spec() -> bool {
        true
    }

    open spec fn from_spec(value: ByteSize) -> Self {
        value.0
    }
}

/// Distance in bytes between neighbours along one tensor axis.
#[derive(Clone, Copy, PartialEq, Eq, Structural, PartialOrd, Ord, Hash, Debug)]
pub struct ByteStride(pub u64);

impl ByteStride {
    /// Wraps a raw value.
    pub fn new(raw: u64) -> (r: Self)
        ensures
            r == ByteStride(raw),
    {
        ByteStride(raw)
    }

    /// The raw value.
    pub fn get(self) -> (r: u64)
        ensures
            r == self.0,
    {
        self.0
    }

    /// Wraps a value that must not be zero.
    pub fn try_nonzero(raw: u64) -> (r: Result<Self, AbiTypeError>)
        ensures
            r == (if raw == 0 {
                Err::<Self, AbiTypeError>(AbiTypeError::Zero)
            } else {
                Ok(ByteStride(raw))
            }),
    {
        if raw == 0 {
            Err(AbiTypeError::Zero)
        } else {
            Ok(ByteStride(raw))
        }
    }

    /// The value as `usize`, where it fits.
    pub fn try_as_usize(self) -> (r: Result<usize, AbiTypeError>)
        ensures
            r == (if self.0 <= usize::MAX {
                Ok::<usize, AbiTypeError>(self.0 as usize)
            } else {
                Err(AbiTypeError::UsizeOverflow)
            }),
    {
        if self.0 > usize::MAX as u64 {
            Err(AbiTypeError::UsizeOverflow)
        } else {
            Ok(self.0 as usize)
        }
    }

    /// The value as `usize`, where it fits and is at most `max`.
    pub fn try_under_max(self, max: usize) -> (r: Result<usize, AbiTypeError>)
        ensures
            r == (if !(self.0 <= usize::MAX) {
                Err::<usize, AbiTypeError>(AbiTypeError::UsizeOverflow)
            } else if self.0 > max {
                Err(AbiTypeError::ExceedsMax)
            } else {
                Ok(self.0 as usize)
            }),
    {
        match self.try_as_usize() {
            Ok(value) => if value > max {
                Err(AbiTypeError::ExceedsMax)
            } else {
                Ok(value)
            },
            Err(err) => Err(err),
        }
    }
}

impl Default for ByteStride {
    fn default() -> (r: Self)
        ensures
            r == ByteStride(0),
    {
        ByteStride(0)
    }
}

impl PartialEq<u64> for ByteStride {
    fn eq(&self, other: &u64) -> (r: bool) {
        self.0 == *other
    }
}

impl PartialEqSpecImpl<u64> for ByteStride {
    open spec fn obeys_eq_spec() -> bool {
        true
    }

    open spec fn eq_spec(&self, other: &u64) -> bool {
        self.0 == *other
    }
}

impl PartialEq<ByteStride> for u64 {
    fn eq(&self, other: &ByteStride) -> (r: bool) {
        *self == other.0
    }
}

impl PartialEqSpecImpl<ByteStride> for u64 {
    open spec fn obeys_eq_spec() -> bool {
        true
    }

    open spec fn eq_spec(&self, other: &ByteStride) -> bool {
        *self == other.0
    }
}

impl From<u64> for ByteStride {
    fn from(value: u64) -> (r: Self) {
        ByteStride(value)
    }
}

impl FromSpecImpl<u64> for ByteStride {
    open spec fn obeys_from_spec() -> bool {
        true
    }

    open spec fn from_spec(value: u64) -> Self {
        ByteStride(value)
    }
}

impl From<ByteStride> for u64 {
    fn from(value: ByteStride) -> (r: Self) {
        value.0
    }
}

impl FromSpecImpl<ByteStride> for u64 {
    open spec fn obeys_from_spec() -> bool {
        true
    }

    open spec fn from_spec(value: ByteStride) -> Self {
        value.0
    }
}

/// Byte offset inside a graph blob; the header also uses it for the blob's size.
#[derive(Clone, Copy, PartialEq, Eq, Structural, PartialOrd, Ord, Hash, Debug)]
pub struct ByteOffset(pub u32);

impl ByteOffset {
    /// Wraps a raw value.
    pub fn new(raw: u32) -> (r: Self)
        ensures
            r == ByteOffset(raw),
    {
        ByteOffset(raw)
    }

    /// The raw value.
    pub fn get(self) -> (r: u32)
        ensures
            r == self.0,
    {
        self.0
    }

    /// Wraps a value that must not be zero.
    pub fn try_nonzero(raw: u32) -> (r: Result<Self, AbiTypeError>)
        ensures
            r == (if raw == 0 {
                Err::<Self, AbiTypeError>(AbiTypeError::Zero)
            } else {
                Ok(ByteOffset(raw))
            }),
    {
        if raw == 0 {
            Err(AbiTypeError::Zero)
        } else {
            Ok(ByteOffset(raw))
        }
    }

    /// The value as `usize`, where it fits.
    pub fn try_as_usize(self) -> (r: Result<usize, AbiTypeError>)
        ensures
            r == Ok::<usize, AbiTypeError>(self.0 as usize),
    {
        Ok(self.0 as usize)
    }

    /// The value as `usize`, where it fits and is at most `max`.
    pub fn try_under_max(self, max: usize) -> (r: Result<usize, AbiTypeError>)
        ensures
            r == (if self.0 > max {
                Err::<usize, AbiTypeError>(AbiTypeError::ExceedsMax)
            } else {
                Ok(self.0 as usize)
            }),
    {
        let value: usize = self.0 as usize;
        if value > max {
            Err(AbiTypeError::ExceedsMax)
        } else {
            Ok(value)
        }
    }
}

impl Default for ByteOffset {
    fn default() -> (r: Self)
        ensures
            r == ByteOffset(0),
    {
        ByteOffset(0)
    }
}

impl PartialEq<u32> for ByteOffset {
    fn eq(&self, other: &u32) -> (r: bool) {
        self.0 == *other
    }
}

impl PartialEqSpecImpl<u32> for ByteOffset {
    open spec fn obeys_eq_spec() -> bool {
        true
    }

    open spec fn eq_spec(&self, other: &u32) -> bool {
        self.0 == *other
    }
}

impl PartialEq<ByteOffset> for u32 {
    fn eq(&self, other: &ByteOffset) -> (r: bool) {
        *self == other.0
    }
}

impl PartialEqSpecImpl<ByteOffset> for u32 {
    open spec fn obeys_eq_spec() -> bool {
        true
    }

    open spec fn eq_spec(&self, other: &ByteOffset) -> bool {
        *self == other.0
    }
}

impl From<u32> for ByteOffset {
    fn from(value: u32) -> (r: Self) {
        ByteOffset(value)
    }
}

impl FromSpecImpl<u32> for ByteOffset {
    open spec fn obeys_from_spec() -> bool {
        true
    }

    open spec fn from_spec(value: u32) -> Self {
        ByteOffset(value)
    }
}

impl From<ByteOffset> for u32 {
    fn from(value: ByteOffset) -> (r: Self) {
        value.0
    }
}

impl FromSpecImpl<ByteOffset> for u32 {
    open spec fn obeys_from_spec() -> bool {
        true
    }

    open spec fn from_spec(value: ByteOffset) -> Self {
        value.0
    }
}

/// Number of meaningful bytes in an inline attribute area.
#[derive(Clone, Copy, PartialEq, Eq, Structural, PartialOrd, Ord, Hash, Debug)]
pub struct AttrByteSize(pub u32);

impl AttrByteSize {
    /// Wraps a raw value.
    pub fn new(raw: u32) -> (r: Self)
        ensures
            r == AttrByteSize(raw),
    {
        AttrByteSize(raw)
    }

    /// The raw value.
    pub fn get(self) -> (r: u32)
        ensures
            r == self.0,
    {
        self.0
    }

    /// Wraps a value that must not be zero.
    pub fn try_nonzero(raw: u32) -> (r: Result<Self, AbiTypeError>)
        ensures
            r == (if raw == 0 {
                Err::<Self, AbiTypeError>(AbiTypeError::Zero)
            } else {
                Ok(AttrByteSize(raw))
            }),
    {
        if raw == 0 {
            Err(AbiTypeError::Zero)
        } else {
            Ok(AttrByteSize(raw))
        }
    }

    /// The value as `usize`, where it fits.
    pub fn try_as_usize(self) -> (r: Result<usize, AbiTypeError>)
        ensures
            r == Ok::<usize, AbiTypeError>(self.0 as usize),
    {
        Ok(self.0 as usize)
    }

    /// The value as `usize`, where it fits and is at most `max`.
    pub fn try_under_max(self, max: usize) -> (r: Result<usize, AbiTypeError>)
        ensures
            r == (if self.0 > max {
                Err::<usize, AbiTypeError>(AbiTypeError::ExceedsMax)
            } else {
                Ok(self.0 as usize)
            }),
    {
        let value: usize = self.0 as usize;
        if value > max {
            Err(AbiTypeError::ExceedsMax)
        } else {
            Ok(value)
        }
    }
}

impl Default for AttrByteSize {
    fn default() -> (r: Self)
        ensures
            r == AttrByteSize(0),
    {
        AttrByteSize(0)
    }
}

impl PartialEq<u32> for AttrByteSize {
    fn eq(&self, other: &u32) -> (r: bool) {
        self.0 == *other
    }
}

impl PartialEqSpecImpl<u32> for AttrByteSize {
    open spec fn obeys_eq_spec() -> bool {
        true
    }

    open spec fn eq_spec(&self, other: &u32) -> bool {
        self.0 == *other
    }
}

impl PartialEq<AttrByteSize> for u32 {
    fn eq(&self, other: &AttrByteSize) -> (r: bool) {
        *self == other.0
    }
}

impl PartialEqSpecImpl<AttrByteSize> for u32 {
    open spec fn obeys_eq_spec() -> bool {
        true
    }

    open spec fn eq_spec(&self, other: &AttrByteSize) -> bool {
        *self == other.0
    }
}

impl From<u32> for AttrByteSize {
    fn from(value: u32) -> (r: Self) {
        AttrByteSize(value)
    }
}

impl FromSpecImpl<u32> for AttrByteSize {
    open spec fn obeys_from_spec() -> bool {
        true
    }

    open spec fn from_spec(value: u32) -> Self {
        AttrByteSize(value)
    }
}

impl From<AttrByteSize> for u32 {
    fn from(value: AttrByteSize) -> (r: Self) {
        value.0
    }
}

impl FromSpecImpl<AttrByteSize> for u32 {
    open spec fn obeys_from_spec() -> bool {
        true
    }

    open spec fn from_spec(value: AttrByteSize) -> Self {
        value.0
    }
}

/// Completion token that the user attaches to a submitted graph.
#[derive(Clone, Copy, PartialEq, Eq, Structural, PartialOrd, Ord, Hash, Debug)]
pub struct UserToken(pub u32);

impl UserToken {
    /// Wraps a raw value.
    pub fn new(raw: u32) -> (r: Self)
        ensures
            r == UserToken(raw),
    {
        UserToken(raw)
    }

    /// The raw value.
    pub fn get(self) -> (r: u32)
        ensures
            r == self.0,
    {
        self.0
    }

    /// Wraps a value that must not be zero.
    pub fn try_nonzero(raw: u32) -> (r: Result<Self, AbiTypeError>)
        ensures
            r == (if raw == 0 {
                Err::<Self, AbiTypeError>(AbiTypeError::Zero)
            } else {
                Ok(UserToken(raw))
            }),
    {
        if raw == 0 {
            Err(AbiTypeError::Zero)
        } else {
            Ok(UserToken(raw))
        }
    }

    /// The value as `usize`, where it fits.
    pub fn try_as_usize(self) -> (r: Result<usize, AbiTypeError>)
        ensures
            r == Ok::<usize, AbiTypeError>(self.0 as usize),
    {
        Ok(self.0 as usize)
    }

    /// The value as `usize`, where it fits and is at most `max`.
    pub fn try_under_max(self, max: usize) -> (r: Result<usize, AbiTypeError>)
        ensures
            r == (if self.0 > max {
                Err::<usize, AbiTypeError>(AbiTypeError::ExceedsMax)
            } else {
                Ok(self.0 as usize)
            }),
    {
        let value: usize = self.0 as usize;
        if value > max {
            Err(AbiTypeError::ExceedsMax)
        } else {
            Ok(value)
        }
    }
}

impl Default for UserToken {
    fn default() -> (r: Self)
        ensures
            r == UserToken(0),
    {
        UserToken(0)
    }
}

impl PartialEq<u32> for UserToken {
    fn eq(&self, other: &u32) -> (r: bool) {
        self.0 == *other
    }
}

impl PartialEqSpecImpl<u32> for UserToken {
    open spec fn obeys_eq_spec() -> bool {
        true
    }

    open spec fn eq_spec(&self, other: &u32) -> bool {
        self.0 == *other
    }
}

impl PartialEq<UserToken> for u32 {
    fn eq(&self, other: &UserToken) -> (r: bool) {
        *self == other.0
    }
}

impl PartialEqSpecImpl<UserToken> for u32 {
    open spec fn obeys_eq_spec() -> bool {
        true
    }

    open spec fn eq_spec(&self, other: &UserToken) -> bool {
        *self == other.0
    }
}

impl From<u32> for UserToken {
    fn from(value: u32) -> (r: Self) {
        UserToken(value)
    }
}

impl FromSpecImpl<u32> for UserToken {
    open spec fn obeys_from_spec() -> bool {
        true
    }

    open spec fn from_spec(value: u32) -> Self {
        UserToken(value)
    }
}

impl From<UserToken> for u32 {
    fn from(value: UserToken) -> (r: Self) {
        value.0
    }
}

impl FromSpecImpl<UserToken> for u32 {
    open spec fn obeys_from_spec() -> bool {
        true
    }

    open spec fn from_spec(value: UserToken) -> Self {
        value.0
    }
}

/// User token that a completion entry hands back.
#[derive(Clone, Copy, PartialEq, Eq, Structural, PartialOrd, Ord, Hash, Debug)]
pub struct CompletionUserToken(pub u64);

impl CompletionUserToken {
    /// Wraps a raw value.
    pub fn new(raw: u64) -> (r: Self)
        ensures
            r == CompletionUserToken(raw),
    {
        CompletionUserToken(raw)
    }

    /// The raw value.
    pub fn get(self) -> (r: u64)
        ensures
            r == self.0,
    {
        self.0
    }

    /// Wraps a value that must not be zero.
    pub fn try_nonzero(raw: u64) -> (r: Result<Self, AbiTypeError>)
        ensures
            r == (if raw == 0 {
                Err::<Self, AbiTypeError>(AbiTypeError::Zero)
            } else {
                Ok(CompletionUserToken(raw))
            }),
    {
        if raw == 0 {
            Err(AbiTypeError::Zero)
        } else {
            Ok(CompletionUserToken(raw))
        }
    }

    /// The value as `usize`, where it fits.
    pub fn try_as_usize(self) -> (r: Result<usize, AbiTypeError>)
        ensures
            r == (if self.0 <= usize::MAX {
                Ok::<usize, AbiTypeError>(self.0 as usize)
            } else {
                Err(AbiTypeError::UsizeOverflow)
            }),
    {
        if self.0 > usize::MAX as u64 {
            Err(AbiTypeError::UsizeOverflow)
        } else {
            Ok(self.0 as usize)
        }
    }

    /// The value as `usize`, where it fits and is at most `max`.
    pub fn try_under_max(self, max: usize) -> (r: Result<usize, AbiTypeError>)
        ensures
            r == (if !(self.0 <= usize::MAX) {
                Err::<usize, AbiTypeError>(AbiTypeError::UsizeOverflow)
            } else if self.0 > max {
                Err(AbiTypeError::ExceedsMax)
            } else {
                Ok(self.0 as usize)
            }),
    {
        match self.try_as_usize() {
            Ok(value) => if value > max {
                Err(AbiTypeError::ExceedsMax)
            } else {
                Ok(value)
            },
            Err(err) => Err(err),
        }
    }
}

impl Default for CompletionUserToken {
    fn default() -> (r: Self)
        ensures
            r == CompletionUserToken(0),
    {
        CompletionUserToken(0)
    }
}

impl PartialEq<u64> for CompletionUserToken {
    fn eq(&self, other: &u64) -> (r: bool) {
        self.0 == *other
    }
}

impl PartialEqSpecImpl<u64> for CompletionUserToken {
    open spec fn obeys_eq_spec() -> bool {
        true
    }

    open spec fn eq_spec(&self, other: &u64) -> bool {
        self.0 == *other
    }
}

impl PartialEq<CompletionUserToken> for u64 {
    fn eq(&self, other: &CompletionUserToken) -> (r: bool) {
        *self == other.0
    }
}

impl PartialEqSpecImpl<CompletionUserToken> for u64 {
    open spec fn obeys_eq_spec() -> bool {
        true
    }

    open spec fn eq_spec(&self, other: &CompletionUserToken) -> bool {
        *self == other.0
    }
}

impl From<u64> for CompletionUserToken {
    fn from(value: u64) -> (r: Self) {
        CompletionUserToken(value)
    }
}

impl FromSpecImpl<u64> for CompletionUserToken {
    open spec fn obeys_from_spec() -> bool {
        true
    }

    open spec fn from_spec(value: u64) -> Self {
        CompletionUserToken(value)
    }
}

impl From<CompletionUserToken> for u64 {
    fn from(value: CompletionUserToken) -> (r: Self) {
        value.0
    }
}

impl FromSpecImpl<CompletionUserToken> for u64 {
    open spec fn obeys_from_spec() -> bool {
        true
    }

    open spec fn from_spec(value: CompletionUserToken) -> Self {
        value.0
    }
}

/// Number of input or output tensors of one kernel.
#[derive(Clone, Copy, PartialEq, Eq, Structural, PartialOrd, Ord, Hash, Debug)]
pub struct TensorCount(pub u32);

impl TensorCount {
    /// Wraps a raw value.
    pub fn new(raw: u32) -> (r: Self)
        ensures
            r == TensorCount(raw),
    {
        TensorCount(raw)
    }

    /// The raw value.
    pub fn get(self) -> (r: u32)
        ensures
            r == self.0,
    {
        self.0
    }

    /// Wraps a value that must not be zero.
    pub fn try_nonzero(raw: u32) -> (r: Result<Self, AbiTypeError>)
        ensures
            r == (if raw == 0 {
                Err::<Self, AbiTypeError>(AbiTypeError::Zero)
            } else {
                Ok(TensorCount(raw))
            }),
    {
        if raw == 0 {
            Err(AbiTypeError::Zero)
        } else {
            Ok(TensorCount(raw))
        }
    }

    /// The value as `usize`, where it fits.
    pub fn try_as_usize(self) -> (r: Result<usize, AbiTypeError>)
        ensures
            r == Ok::<usize, AbiTypeError>(self.0 as usize),
    {
        Ok(self.0 as usize)
    }

    /// The value as `usize`, where it fits and is at most `max`.
    pub fn try_under_max(self, max: usize) -> (r: Result<usize, AbiTypeError>)
        ensures
            r == (if self.0 > max {
                Err::<usize, AbiTypeError>(AbiTypeError::ExceedsMax)
            } else {
                Ok(self.0 as usize)
            }),
    {
        let value: usize = self.0 as usize;
        if value > max {
            Err(AbiTypeError::ExceedsMax)
        } else {
            Ok(value)
        }
    }
}

impl Default for TensorCount {
    fn default() -> (r: Self)
        ensures
            r == TensorCount(0),
    {
        TensorCount(0)
    }
}

impl PartialEq<u32> for TensorCount {
    fn eq(&self, other: &u32) -> (r: bool) {
        self.0 == *other
    }
}

impl PartialEqSpecImpl<u32> for TensorCount {
    open spec fn obeys_eq_spec() -> bool {
        true
    }

    open spec fn eq_spec(&self, other: &u32) -> bool {
        self.0 == *other
    }
}

impl PartialEq<TensorCount> for u32 {
    fn eq(&self, other: &TensorCount) -> (r: bool) {
        *self == other.0
    }
}

impl PartialEqSpecImpl<TensorCount> for u32 {
    open spec fn obeys_eq_spec() -> bool {
        true
    }

    open spec fn eq_spec(&self, other: &TensorCount) -> bool {
        *self == other.0
    }
}

impl From<u32> for TensorCount {
    fn from(value: u32) -> (r: Self) {
        TensorCount(value)
    }
}

impl FromSpecImpl<u32> for TensorCount {
    open spec fn obeys_from_spec() -> bool {
        true
    }

    open spec fn from_spec(value: u32) -> Self {
        TensorCount(value)
    }
}

impl From<TensorCount> for u32 {
    fn from(value: TensorCount) -> (r: Self) {
        value.0
    }
}

impl FromSpecImpl<TensorCount> for u32 {
    open spec fn obeys_from_spec() -> bool {
        true
    }

    open spec fn from_spec(value: TensorCount) -> Self {
        value.0
    }
}

/// Number of nodes in a graph.
#[derive(Clone, Copy, PartialEq, Eq, Structural, PartialOrd, Ord, Hash, Debug)]
pub struct NodeCount(pub u32);

impl NodeCount {
    /// Wraps a raw value.
    pub fn new(raw: u32) -> (r: Self)
        ensures
            r == NodeCount(raw),
    {
        NodeCount(raw)
    }

    /// The raw value.
    pub fn get(self) -> (r: u32)
        ensures
            r == self.0,
    {
        self.0
    }

    /// Wraps a value that must not be zero.
    pub fn try_nonzero(raw: u32) -> (r: Result<Self, AbiTypeError>)
        ensures
            r == (if raw == 0 {
                Err::<Self, AbiTypeError>(AbiTypeError::Zero)
            } else {
                Ok(NodeCount(raw))
            }),
    {
        if raw == 0 {
            Err(AbiTypeError::Zero)
        } else {
            Ok(NodeCount(raw))
        }
    }

    /// The value as `usize`, where it fits.
    pub fn try_as_usize(self) -> (r: Result<usize, AbiTypeError>)
        ensures
            r == Ok::<usize, AbiTypeError>(self.0 as usize),
    {
        Ok(self.0 as usize)
    }

    /// The value as `usize`, where it fits and is at most `max`.
    pub fn try_under_max(self, max: usize) -> (r: Result<usize, AbiTypeError>)
        ensures
            r == (if self.0 > max {
                Err::<usize, AbiTypeError>(AbiTypeError::ExceedsMax)
            } else {
                Ok(self.0 as usize)
            }),
    {
        let value: usize = self.0 as usize;
        if value > max {
            Err(AbiTypeError::ExceedsMax)
        } else {
            Ok(value)
        }
    }
}

impl Default for NodeCount {
    fn default() -> (r: Self)
        ensures
            r == NodeCount(0),
    {
        NodeCount(0)
    }
}

impl PartialEq<u32> for NodeCount {
    fn eq(&self, other: &u32) -> (r: bool) {
        self.0 == *other
    }
}

impl PartialEqSpecImpl<u32> for NodeCount {
    open spec fn obeys_eq_spec() -> bool {
        true
    }

    open spec fn eq_spec(&self, other: &u32) -> bool {
        self.0 == *other
    }
}

impl PartialEq<NodeCount> for u32 {
    fn eq(&self, other: &NodeCount) -> (r: bool) {
        *self == other.0
    }
}

impl PartialEqSpecImpl<NodeCount> for u32 {
    open spec fn obeys_eq_spec() -> bool {
        true
    }

    open spec fn eq_spec(&self, other: &NodeCount) -> bool {
        *self == other.0
    }
}

impl From<u32> for NodeCount {
    fn from(value: u32) -> (r: Self) {
        NodeCount(value)
    }
}

impl FromSpecImpl<u32> for NodeCount {
    open spec fn obeys_from_spec() -> bool {
        true
    }

    open spec fn from_spec(value: u32) -> Self {
        NodeCount(value)
    }
}

impl From<NodeCount> for u32 {
    fn from(value: NodeCount) -> (r: Self) {
        value.0
    }
}

impl FromSpecImpl<NodeCount> for u32 {
    open spec fn obeys_from_spec() -> bool {
        true
    }

    open spec fn from_spec(value: NodeCount) -> Self {
        value.0
    }
}

/// Number of dependency edges in a graph.
#[derive(Clone, Copy, PartialEq, Eq, Structural, PartialOrd, Ord, Hash, Debug)]
pub struct EdgeCount(pub u32);

impl EdgeCount {
    /// Wraps a raw value.
    pub fn new(raw: u32) -> (r: Self)
        ensures
            r == EdgeCount(raw),
    {
        EdgeCount(raw)
    }

    /// The raw value.
    pub fn get(self) -> (r: u32)
        ensures
            r == self.0,
    {
        self.0
    }

    /// Wraps a value that must not be zero.
    pub fn try_nonzero(raw: u32) -> (r: Result<Self, AbiTypeError>)
        ensures
            r == (if raw == 0 {
                Err::<Self, AbiTypeError>(AbiTypeError::Zero)
            } else {
                Ok(EdgeCount(raw))
            }),
    {
        if raw == 0 {
            Err(AbiTypeError::Zero)
        } else {
            Ok(EdgeCount(raw))
        }
    }

    /// The value as `usize`, where it fits.
    pub fn try_as_usize(self) -> (r: Result<usize, AbiTypeError>)
        ensures
            r == Ok::<usize, AbiTypeError>(self.0 as usize),
    {
        Ok(self.0 as usize)
    }

    /// The value as `usize`, where it fits and is at most `max`.
    pub fn try_under_max(self, max: usize) -> (r: Result<usize, AbiTypeError>)
        ensures
            r == (if self.0 > max {
                Err::<usize, AbiTypeError>(AbiTypeError::ExceedsMax)
            } else {
                Ok(self.0 as usize)
            }),
    {
        let value: usize = self.0 as usize;
        if value > max {
            Err(AbiTypeError::ExceedsMax)
        } else {
            Ok(value)
        }
    }
}

impl Default for EdgeCount {
    fn default() -> (r: Self)
        ensures
            r == EdgeCount(0),
    {
        EdgeCount(0)
    }
}

impl PartialEq<u32> for EdgeCount {
    fn eq(&self, other: &u32) -> (r: bool) {
        self.0 == *other
    }
}

impl PartialEqSpecImpl<u32> for EdgeCount {
    open spec fn obeys_eq_spec() -> bool {
        true
    }

    open spec fn eq_spec(&self, other: &u32) -> bool {
        self.0 == *other
    }
}

impl PartialEq<EdgeCount> for u32 {
    fn eq(&self, other: &EdgeCount) -> (r: bool) {
        *self == other.0
    }
}

impl PartialEqSpecImpl<EdgeCount> for u32 {
    open spec fn obeys_eq_spec() -> bool {
        true
    }

    open spec fn eq_spec(&self, other: &EdgeCount) -> bool {
        *self == other.0
    }
}

impl From<u32> for EdgeCount {
    fn from(value: u32) -> (r: Self) {
        EdgeCount(value)
    }
}

impl FromSpecImpl<u32> for EdgeCount {
    open spec fn obeys_from_spec() -> bool {
        true
    }

    open spec fn from_spec(value: u32) -> Self {
        EdgeCount(value)
    }
}

impl From<EdgeCount> for u32 {
    fn from(value: EdgeCount) -> (r: Self) {
        value.0
    }
}

impl FromSpecImpl<EdgeCount> for u32 {
    open spec fn obeys_from_spec() -> bool {
        true
    }

    open spec fn from_spec(value: EdgeCount) -> Self {
        value.0
    }
}

/// Number of dimensions that a tensor really has.
#[derive(Clone, Copy, PartialEq, Eq, Structural, PartialOrd, Ord, Hash, Debug)]
pub struct DimCount(pub u32);

impl DimCount {
    /// Wraps a raw value.
    pub fn new(raw: u32) -> (r: Self)
        ensures
            r == DimCount(raw),
    {
        DimCount(raw)
    }

    /// The raw value.
    pub fn get(self) -> (r: u32)
        ensures
            r == self.0,
    {
        self.0
    }

    /// Wraps a value that must not be zero.
    pub fn try_nonzero(raw: u32) -> (r: Result<Self, AbiTypeError>)
        ensures
            r == (if raw == 0 {
                Err::<Self, AbiTypeError>(AbiTypeError::Zero)
            } else {
                Ok(DimCount(raw))
            }),
    {
        if raw == 0 {
            Err(AbiTypeError::Zero)
        } else {
            Ok(DimCount(raw))
        }
    }

    /// The value as `usize`, where it fits.
    pub fn try_as_usize(self) -> (r: Result<usize, AbiTypeError>)
        ensures
            r == Ok::<usize, AbiTypeError>(self.0 as usize),
    {
        Ok(self.0 as usize)
    }

    /// The value as `usize`, where it fits and is at most `max`.
    pub fn try_under_max(self, max: usize) -> (r: Result<usize, AbiTypeError>)
        ensures
            r == (if self.0 > max {
                Err::<usize, AbiTypeError>(AbiTypeError::ExceedsMax)
            } else {
                Ok(self.0 as usize)
            }),
    {
        let value: usize = self.0 as usize;
        if value > max {
            Err(AbiTypeError::ExceedsMax)
        } else {
            Ok(value)
        }
    }
}

impl Default for DimCount {
    fn default() -> (r: Self)
        ensures
            r == DimCount(0),
    {
        DimCount(0)
    }
}

impl PartialEq<u32> for DimCount {
    fn eq(&self, other: &u32) -> (r: bool) {
        self.0 == *other
    }
}

impl PartialEqSpecImpl<u32> for DimCount {
    open spec fn obeys_eq_spec() -> bool {
        true
    }

    open spec fn eq_spec(&self, other: &u32) -> bool {
        self.0 == *other
    }
}

impl PartialEq<DimCount> for u32 {
    fn eq(&self, other: &DimCount) -> (r: bool) {
        *self == other.0
    }
}

impl PartialEqSpecImpl<DimCount> for u32 {
    open spec fn obeys_eq_spec() -> bool {
        true
    }

    open spec fn eq_spec(&self, other: &DimCount) -> bool {
        *self == other.0
    }
}

impl From<u32> for DimCount {
    fn from(value: u32) -> (r: Self) {
        DimCount(value)
    }
}

impl FromSpecImpl<u32> for DimCount {
    open spec fn obeys_from_spec() -> bool {
        true
    }

    open spec fn from_spec(value: u32) -> Self {
        DimCount(value)
    }
}

impl From<DimCount> for u32 {
    fn from(value: DimCount) -> (r: Self) {
        value.0
    }
}

impl FromSpecImpl<DimCount> for u32 {
    open spec fn obeys_from_spec() -> bool {
        true
    }

    open spec fn from_spec(value: DimCount) -> Self {
        value.0
    }
}

/// Extent of one dimension of a tensor or of a kernel parameter.
#[derive(Clone, Copy, PartialEq, Eq, Structural, PartialOrd, Ord, Hash, Debug)]
pub struct DimSize(pub u32);

impl DimSize {
    /// Wraps a raw value.
    pub fn new(raw: u32) -> (r: Self)
        ensures
            r == DimSize(raw),
    {
        DimSize(raw)
    }

    /// The raw value.
    pub fn get(self) -> (r: u32)
        ensures
            r == self.0,
    {
        self.0
    }

    /// Wraps a value that must not be zero.
    pub fn try_nonzero(raw: u32) -> (r: Result<Self, AbiTypeError>)
        ensures
            r == (if raw == 0 {
                Err::<Self, AbiTypeError>(AbiTypeError::Zero)
            } else {
                Ok(DimSize(raw))
            }),
    {
        if raw == 0 {
            Err(AbiTypeError::Zero)
        } else {
            Ok(DimSize(raw))
        }
    }

    /// The value as `usize`, where it fits.
    pub fn try_as_usize(self) -> (r: Result<usize, AbiTypeError>)
        ensures
            r == Ok::<usize, AbiTypeError>(self.0 as usize),
    {
        Ok(self.0 as usize)
    }

    /// The value as `usize`, where it fits and is at most `max`.
    pub fn try_under_max(self, max: usize) -> (r: Result<usize, AbiTypeError>)
        ensures
            r == (if self.0 > max {
                Err::<usize, AbiTypeError>(AbiTypeError::ExceedsMax)
            } else {
                Ok(self.0 as usize)
            }),
    {
        let value: usize = self.0 as usize;
        if value > max {
            Err(AbiTypeError::ExceedsMax)
        } else {
            Ok(value)
        }
    }
}

impl Default for DimSize {
    fn default() -> (r: Self)
        ensures
            r == DimSize(0),
    {
        DimSize(0)
    }
}

impl PartialEq<u32> for DimSize {
    fn eq(&self, other: &u32) -> (r: bool) {
        self.0 == *other
    }
}

impl PartialEqSpecImpl<u32> for DimSize {
    open spec fn obeys_eq_spec() -> bool {
        true
    }

    open spec fn eq_spec(&self, other: &u32) -> bool {
        self.0 == *other
    }
}

impl PartialEq<DimSize> for u32 {
    fn eq(&self, other: &DimSize) -> (r: bool) {
        *self == other.0
    }
}

impl PartialEqSpecImpl<DimSize> for u32 {
    open spec fn obeys_eq_spec() -> bool {
        true
    }

    open spec fn eq_spec(&self, other: &DimSize) -> bool {
        *self == other.0
    }
}

impl From<u32> for DimSize {
    fn from(value: u32) -> (r: Self) {
        DimSize(value)
    }
}

impl FromSpecImpl<u32> for DimSize {
    open spec fn obeys_from_spec() -> bool {
        true
    }

    open spec fn from_spec(value: u32) -> Self {
        DimSize(value)
    }
}

impl From<DimSize> for u32 {
    fn from(value: DimSize) -> (r: Self) {
        value.0
    }
}

impl FromSpecImpl<DimSize> for u32 {
    open spec fn obeys_from_spec() -> bool {
        true
    }

    open spec fn from_spec(value: DimSize) -> Self {
        value.0
    }
}

/// Stride counted in elements.
#[derive(Clone, Copy, PartialEq, Eq, Structural, PartialOrd, Ord, Hash, Debug)]
pub struct ElemStride(pub u32);

impl ElemStride {
    /// Wraps a raw value.
    pub fn new(raw: u32) -> (r: Self)
        ensures
            r == ElemStride(raw),
    {
        ElemStride(raw)
    }

    /// The raw value.
    pub fn get(self) -> (r: u32)
        ensures
            r == self.0,
    {
        self.0
    }

    /// Wraps a value that must not be zero.
    pub fn try_nonzero(raw: u32) -> (r: Result<Self, AbiTypeError>)
        ensures
            r == (if raw == 0 {
                Err::<Self, AbiTypeError>(AbiTypeError::Zero)
            } else {
                Ok(ElemStride(raw))
            }),
    {
        if raw == 0 {
            Err(AbiTypeError::Zero)
        } else {
            Ok(ElemStride(raw))
        }
    }

    /// The value as `usize`, where it fits.
    pub fn try_as_usize(self) -> (r: Result<usize, AbiTypeError>)
        ensures
            r == Ok::<usize, AbiTypeError>(self.0 as usize),
    {
        Ok(self.0 as usize)
    }

    /// The value as `usize`, where it fits and is at most `max`.
    pub fn try_under_max(self, max: usize) -> (r: Result<usize, AbiTypeError>)
        ensures
            r == (if self.0 > max {
                Err::<usize, AbiTypeError>(AbiTypeError::ExceedsMax)
            } else {
                Ok(self.0 as usize)
            }),
    {
        let value: usize = self.0 as usize;
        if value > max {
            Err(AbiTypeError::ExceedsMax)
        } else {
            Ok(value)
        }
    }
}

impl Default for ElemStride {
    fn default() -> (r: Self)
        ensures
            r == ElemStride(0),
    {
        ElemStride(0)
    }
}

impl PartialEq<u32> for ElemStride {
    fn eq(&self, other: &u32) -> (r: bool) {
        self.0 == *other
    }
}

impl PartialEqSpecImpl<u32> for ElemStride {
    open spec fn obeys_eq_spec() -> bool {
        true
    }

    open spec fn eq_spec(&self, other: &u32) -> bool {
        self.0 == *other
    }
}

impl PartialEq<ElemStride> for u32 {
    fn eq(&self, other: &ElemStride) -> (r: bool) {
        *self == other.0
    }
}

impl PartialEqSpecImpl<ElemStride> for u32 {
    open spec fn obeys_eq_spec() -> bool {
        true
    }

    open spec fn eq_spec(&self, other: &ElemStride) -> bool {
        *self == other.0
    }
}

impl From<u32> for ElemStride {
    fn from(value: u32) -> (r: Self) {
        ElemStride(value)
    }
}

impl FromSpecImpl<u32> for ElemStride {
    open spec fn obeys_from_spec() -> bool {
        true
    }

    open spec fn from_spec(value: u32) -> Self {
        ElemStride(value)
    }
}

impl From<ElemStride> for u32 {
    fn from(value: ElemStride) -> (r: Self) {
        value.0
    }
}

impl FromSpecImpl<ElemStride> for u32 {
    open spec fn obeys_from_spec() -> bool {
        true
    }

    open spec fn from_spec(value: ElemStride) -> Self {
        value.0
    }
}

/// Step of a convolution or pooling window.
#[derive(Clone, Copy, PartialEq, Eq, Structural, PartialOrd, Ord, Hash, Debug)]
pub struct KernelStride(pub u32);

impl KernelStride {
    /// Wraps a raw value.
    pub fn new(raw: u32) -> (r: Self)
        ensures
            r == KernelStride(raw),
    {
        KernelStride(raw)
    }

    /// The raw value.
    pub fn get(self) -> (r: u32)
        ensures
            r == self.0,
    {
        self.0
    }

    /// Wraps a value that must not be zero.
    pub fn try_nonzero(raw: u32) -> (r: Result<Self, AbiTypeError>)
        ensures
            r == (if raw == 0 {
                Err::<Self, AbiTypeError>(AbiTypeError::Zero)
            } else {
                Ok(KernelStride(raw))
            }),
    {
        if raw == 0 {
            Err(AbiTypeError::Zero)
        } else {
            Ok(KernelStride(raw))
        }
    }

    /// The value as `usize`, where it fits.
    pub fn try_as_usize(self) -> (r: Result<usize, AbiTypeError>)
        ensures
            r == Ok::<usize, AbiTypeError>(self.0 as usize),
    {
        Ok(self.0 as usize)
    }

    /// The value as `usize`, where it fits and is at most `max`.
    pub fn try_under_max(self, max: usize) -> (r: Result<usize, AbiTypeError>)
        ensures
            r == (if self.0 > max {
                Err::<usize, AbiTypeError>(AbiTypeError::ExceedsMax)
            } else {
                Ok(self.0 as usize)
            }),
    {
        let value: usize = self.0 as usize;
        if value > max {
            Err(AbiTypeError::ExceedsMax)
        } else {
            Ok(value)
        }
    }
}

impl Default for KernelStride {
    fn default() -> (r: Self)
        ensures
            r == KernelStride(0),
    {
        KernelStride(0)
    }
}

impl PartialEq<u32> for KernelStride {
    fn eq(&self, other: &u32) -> (r: bool) {
        self.0 == *other
    }
}

impl PartialEqSpecImpl<u32> for KernelStride {
    open spec fn obeys_eq_spec() -> bool {
        true
    }

    open spec fn eq_spec(&self, other: &u32) -> bool {
        self.0 == *other
    }
}

impl PartialEq<KernelStride> for u32 {
    fn eq(&self, other: &KernelStride) -> (r: bool) {
        *self == other.0
    }
}

impl PartialEqSpecImpl<KernelStride> for u32 {
    open spec fn obeys_eq_spec() -> bool {
        true
    }

    open spec fn eq_spec(&self, other: &KernelStride) -> bool {
        *self == other.0
    }
}

impl From<u32> for KernelStride {
    fn from(value: u32) -> (r: Self) {
        KernelStride(value)
    }
}

impl FromSpecImpl<u32> for KernelStride {
    open spec fn obeys_from_spec() -> bool {
        true
    }

    open spec fn from_spec(value: u32) -> Self {
        KernelStride(value)
    }
}

impl From<KernelStride> for u32 {
    fn from(value: KernelStride) -> (r: Self) {
        value.0
    }
}

impl FromSpecImpl<KernelStride> for u32 {
    open spec fn obeys_from_spec() -> bool {
        true
    }

    open spec fn from_spec(value: KernelStride) -> Self {
        value.0
    }
}

/// Axis of a tensor; a negative axis counts from the last one.
#[derive(Clone, Copy, PartialEq, Eq, Structural, PartialOrd, Ord, Hash, Debug)]
pub struct TensorAxis(pub i32);

impl TensorAxis {
    /// Wraps a raw value.
    pub fn new(raw: i32) -> (r: Self)
        ensures
            r == TensorAxis(raw),
    {
        TensorAxis(raw)
    }

    /// The raw value.
    pub fn get(self) -> (r: i32)
        ensures
            r == self.0,
    {
        self.0
    }

    /// Wraps a value that must not be zero.
    pub fn try_nonzero(raw: i32) -> (r: Result<Self, AbiTypeError>)
        ensures
            r == (if raw == 0 {
                Err::<Self, AbiTypeError>(AbiTypeError::Zero)
            } else {
                Ok(TensorAxis(raw))
            }),
    {
        if raw == 0 {
            Err(AbiTypeError::Zero)
        } else {
            Ok(TensorAxis(raw))
        }
    }

    /// The value as `usize`, where it fits.
    pub fn try_as_usize(self) -> (r: Result<usize, AbiTypeError>)
        ensures
            r == (if 0 <= self.0 {
                Ok::<usize, AbiTypeError>(self.0 as usize)
            } else {
                Err(AbiTypeError::UsizeOverflow)
            }),
    {
        if self.0 < 0 {
            Err(AbiTypeError::UsizeOverflow)
        } else {
            Ok(self.0 as usize)
        }
    }

    /// The value as `usize`, where it fits and is at most `max`.
    pub fn try_under_max(self, max: usize) -> (r: Result<usize, AbiTypeError>)
        ensures
            r == (if !(0 <= self.0) {
                Err::<usize, AbiTypeError>(AbiTypeError::UsizeOverflow)
            } else if self.0 > max {
                Err(AbiTypeError::ExceedsMax)
            } else {
                Ok(self.0 as usize)
            }),
    {
        match self.try_as_usize() {
            Ok(value) => if value > max {
                Err(AbiTypeError::ExceedsMax)
            } else {
                Ok(value)
            },
            Err(err) => Err(err),
        }
    }
}

impl Default for TensorAxis {
    fn default() -> (r: Self)
        ensures
            r == TensorAxis(0),
    {
        TensorAxis(0)
    }
}

impl PartialEq<i32> for TensorAxis {
    fn eq(&self, other: &i32) -> (r: bool) {
        self.0 == *other
    }
}

impl PartialEqSpecImpl<i32> for TensorAxis {
    open spec fn obeys_eq_spec() -> bool {
        true
    }

    open spec fn eq_spec(&self, other: &i32) -> bool {
        self.0 == *other
    }
}

impl PartialEq<TensorAxis> for i32 {
    fn eq(&self, other: &TensorAxis) -> (r: bool) {
        *self == other.0
    }
}

impl PartialEqSpecImpl<TensorAxis> for i32 {
    open spec fn obeys_eq_spec() -> bool {
        true
    }

    open spec fn eq_spec(&self, other: &TensorAxis) -> bool {
        *self == other.0
    }
}

impl From<i32> for TensorAxis {
    fn from(value: i32) -> (r: Self) {
        TensorAxis(value)
    }
}

impl FromSpecImpl<i32> for TensorAxis {
    open spec fn obeys_from_spec() -> bool {
        true
    }

    open spec fn from_spec(value: i32) -> Self {
        TensorAxis(value)
    }
}

impl From<TensorAxis> for i32 {
    fn from(value: TensorAxis) -> (r: Self) {
        value.0
    }
}

impl FromSpecImpl<TensorAxis> for i32 {
    open spec fn obeys_from_spec() -> bool {
        true
    }

    open spec fn from_spec(value: TensorAxis) -> Self {
        value.0
    }
}

/// Bit set of tensor flags.
#[derive(Clone, Copy, PartialEq, Eq, Structural, PartialOrd, Ord, Hash, Debug)]
pub struct TensorFlags(pub u8);

impl TensorFlags {
    /// Wraps a raw value.
    pub fn new(raw: u8) -> (r: Self)
        ensures
            r == TensorFlags(raw),
    {
        TensorFlags(raw)
    }

    /// The raw value.
    pub fn get(self) -> (r: u8)
        ensures
            r == self.0,
    {
        self.0
    }

    /// Wraps a value that must not be zero.
    pub fn try_nonzero(raw: u8) -> (r: Result<Self, AbiTypeError>)
        ensures
            r == (if raw == 0 {
                Err::<Self, AbiTypeError>(AbiTypeError::Zero)
            } else {
                Ok(TensorFlags(raw))
            }),
    {
        if raw == 0 {
            Err(AbiTypeError::Zero)
        } else {
            Ok(TensorFlags(raw))
        }
    }

    /// The value as `usize`, where it fits.
    pub fn try_as_usize(self) -> (r: Result<usize, AbiTypeError>)
        ensures
            r == Ok::<usize, AbiTypeError>(self.0 as usize),
    {
        Ok(self.0 as usize)
    }

    /// The value as `usize`, where it fits and is at most `max`.
    pub fn try_under_max(self, max: usize) -> (r: Result<usize, AbiTypeError>)
        ensures
            r == (if self.0 > max {
                Err::<usize, AbiTypeError>(AbiTypeError::ExceedsMax)
            } else {
                Ok(self.0 as usize)
            }),
    {
        let value: usize = self.0 as usize;
        if value > max {
            Err(AbiTypeError::ExceedsMax)
        } else {
            Ok(value)
        }
    }
}

impl Default for TensorFlags {
    fn default() -> (r: Self)
        ensures
            r == TensorFlags(0),
    {
        TensorFlags(0)
    }
}

impl PartialEq<u8> for TensorFlags {
    fn eq(&self, other: &u8) -> (r: bool) {
        self.0 == *other
    }
}

impl PartialEqSpecImpl<u8> for TensorFlags {
    open spec fn obeys_eq_spec() -> bool {
        true
    }

    open spec fn eq_spec(&self, other: &u8) -> bool {
        self.0 == *other
    }
}

impl PartialEq<TensorFlags> for u8 {
    fn eq(&self, other: &TensorFlags) -> (r: bool) {
        *self == other.0
    }
}

impl PartialEqSpecImpl<TensorFlags> for u8 {
    open spec fn obeys_eq_spec() -> bool {
        true
    }

    open spec fn eq_spec(&self, other: &TensorFlags) -> bool {
        *self == other.0
    }
}

impl From<u8> for TensorFlags {
    fn from(value: u8) -> (r: Self) {
        TensorFlags(value)
    }
}

impl FromSpecImpl<u8> for TensorFlags {
    open spec fn obeys_from_spec() -> bool {
        true
    }

    open spec fn from_spec(value: u8) -> Self {
        TensorFlags(value)
    }
}

impl From<TensorFlags> for u8 {
    fn from(value: TensorFlags) -> (r: Self) {
        value.0
    }
}

impl FromSpecImpl<TensorFlags> for u8 {
    open spec fn obeys_from_spec() -> bool {
        true
    }

    open spec fn from_spec(value: TensorFlags) -> Self {
        value.0
    }
}

/// Bit set of kernel attribute flags.
#[derive(Clone, Copy, PartialEq, Eq, Structural, PartialOrd, Ord, Hash, Debug)]
pub struct OpFlags(pub u32);

impl OpFlags {
    /// Wraps a raw value.
    pub fn new(raw: u32) -> (r: Self)
        ensures
            r == OpFlags(raw),
    {
        OpFlags(raw)
    }

    /// The raw value.
    pub fn get(self) -> (r: u32)
        ensures
            r == self.0,
    {
        self.0
    }

    /// Wraps a value that must not be zero.
    pub fn try_nonzero(raw: u32) -> (r: Result<Self, AbiTypeError>)
        ensures
            r == (if raw == 0 {
                Err::<Self, AbiTypeError>(AbiTypeError::Zero)
            } else {
                Ok(OpFlags(raw))
            }),
    {
        if raw == 0 {
            Err(AbiTypeError::Zero)
        } else {
            Ok(OpFlags(raw))
        }
    }

    /// The value as `usize`, where it fits.
    pub fn try_as_usize(self) -> (r: Result<usize, AbiTypeError>)
        ensures
            r == Ok::<usize, AbiTypeError>(self.0 as usize),
    {
        Ok(self.0 as usize)
    }

    /// The value as `usize`, where it fits and is at most `max`.
    pub fn try_under_max(self, max: usize) -> (r: Result<usize, AbiTypeError>)
        ensures
            r == (if self.0 > max {
                Err::<usize, AbiTypeError>(AbiTypeError::ExceedsMax)
            } else {
                Ok(self.0 as usize)
            }),
    {
        let value: usize = self.0 as usize;
        if value > max {
            Err(AbiTypeError::ExceedsMax)
        } else {
            Ok(value)
        }
    }
}

impl Default for OpFlags {
    fn default() -> (r: Self)
        ensures
            r == OpFlags(0),
    {
        OpFlags(0)
    }
}

impl PartialEq<u32> for OpFlags {
    fn eq(&self, other: &u32) -> (r: bool) {
        self.0 == *other
    }
}

impl PartialEqSpecImpl<u32> for OpFlags {
    open spec fn obeys_eq_spec() -> bool {
        true
    }

    open spec fn eq_spec(&self, other: &u32) -> bool {
        self.0 == *other
    }
}

impl PartialEq<OpFlags> for u32 {
    fn eq(&self, other: &OpFlags) -> (r: bool) {
        *self == other.0
    }
}

impl PartialEqSpecImpl<OpFlags> for u32 {
    open spec fn obeys_eq_spec() -> bool {
        true
    }

    open spec fn eq_spec(&self, other: &OpFlags) -> bool {
        *self == other.0
    }
}

impl From<u32> for OpFlags {
    fn from(value: u32) -> (r: Self) {
        OpFlags(value)
    }
}

impl FromSpecImpl<u32> for OpFlags {
    open spec fn obeys_from_spec() -> bool {
        true
    }

    open spec fn from_spec(value: u32) -> Self {
        OpFlags(value)
    }
}

impl From<OpFlags> for u32 {
    fn from(value: OpFlags) -> (r: Self) {
        value.0
    }
}

impl FromSpecImpl<OpFlags> for u32 {
    open spec fn obeys_from_spec() -> bool {
        true
    }

    open spec fn from_spec(value: OpFlags) -> Self {
        value.0
    }
}

/// Bit set of graph flags.
#[derive(Clone, Copy, PartialEq, Eq, Structural, PartialOrd, Ord, Hash, Debug)]
pub struct GraphFlags(pub u32);

impl GraphFlags {
    /// Wraps a raw value.
    pub fn new(raw: u32) -> (r: Self)
        ensures
            r == GraphFlags(raw),
    {
        GraphFlags(raw)
    }

    /// The raw value.
    pub fn get(self) -> (r: u32)
        ensures
            r == self.0,
    {
        self.0
    }

    /// Wraps a value that must not be zero.
    pub fn try_nonzero(raw: u32) -> (r: Result<Self, AbiTypeError>)
        ensures
            r == (if raw == 0 {
                Err::<Self, AbiTypeError>(AbiTypeError::Zero)
            } else {
                Ok(GraphFlags(raw))
            }),
    {
        if raw == 0 {
            Err(AbiTypeError::Zero)
        } else {
            Ok(GraphFlags(raw))
        }
    }

    /// The value as `usize`, where it fits.
    pub fn try_as_usize(self) -> (r: Result<usize, AbiTypeError>)
        ensures
            r == Ok::<usize, AbiTypeError>(self.0 as usize),
    {
        Ok(self.0 as usize)
    }

    /// The value as `usize`, where it fits and is at most `max`.
    pub fn try_under_max(self, max: usize) -> (r: Result<usize, AbiTypeError>)
        ensures
            r == (if self.0 > max {
                Err::<usize, AbiTypeError>(AbiTypeError::ExceedsMax)
            } else {
                Ok(self.0 as usize)
            }),
    {
        let value: usize = self.0 as usize;
        if value > max {
            Err(AbiTypeError::ExceedsMax)
        } else {
            Ok(value)
        }
    }
}

impl Default for GraphFlags {
    fn default() -> (r: Self)
        ensures
            r == GraphFlags(0),
    {
        GraphFlags(0)
    }
}

impl PartialEq<u32> for GraphFlags {
    fn eq(&self, other: &u32) -> (r: bool) {
        self.0 == *other
    }
}

impl PartialEqSpecImpl<u32> for GraphFlags {
    open spec fn obeys_eq_spec() -> bool {
        true
    }

    open spec fn eq_spec(&self, other: &u32) -> bool {
        self.0 == *other
    }
}

impl PartialEq<GraphFlags> for u32 {
    fn eq(&self, other: &GraphFlags) -> (r: bool) {
        *self == other.0
    }
}

impl PartialEqSpecImpl<GraphFlags> for u32 {
    open spec fn obeys_eq_spec() -> bool {
        true
    }

    open spec fn eq_spec(&self, other: &GraphFlags) -> bool {
        *self == other.0
    }
}

impl From<u32> for GraphFlags {
    fn from(value: u32) -> (r: Self) {
        GraphFlags(value)
    }
}

impl FromSpecImpl<u32> for GraphFlags {
    open spec fn obeys_from_spec() -> bool {
        true
    }

    open spec fn from_spec(value: u32) -> Self {
        GraphFlags(value)
    }
}

impl From<GraphFlags> for u32 {
    fn from(value: GraphFlags) -> (r: Self) {
        value.0
    }
}

impl FromSpecImpl<GraphFlags> for u32 {
    open spec fn obeys_from_spec() -> bool {
        true
    }

    open spec fn from_spec(value: GraphFlags) -> Self {
        value.0
    }
}

/// Bit set of submission flags.
#[derive(Clone, Copy, PartialEq, Eq, Structural, PartialOrd, Ord, Hash, Debug)]
pub struct SubmitFlags(pub u32);

impl SubmitFlags {
    /// Wraps a raw value.
    pub fn new(raw: u32) -> (r: Self)
        ensures
            r == SubmitFlags(raw),
    {
        SubmitFlags(raw)
    }

    /// The raw value.
    pub fn get(self) -> (r: u32)
        ensures
            r == self.0,
    {
        self.0
    }

    /// Wraps a value that must not be zero.
    pub fn try_nonzero(raw: u32) -> (r: Result<Self, AbiTypeError>)
        ensures
            r == (if raw == 0 {
                Err::<Self, AbiTypeError>(AbiTypeError::Zero)
            } else {
                Ok(SubmitFlags(raw))
            }),
    {
        if raw == 0 {
            Err(AbiTypeError::Zero)
        } else {
            Ok(SubmitFlags(raw))
        }
    }

    /// The value as `usize`, where it fits.
    pub fn try_as_usize(self) -> (r: Result<usize, AbiTypeError>)
        ensures
            r == Ok::<usize, AbiTypeError>(self.0 as usize),
    {
        Ok(self.0 as usize)
    }

    /// The value as `usize`, where it fits and is at most `max`.
    pub fn try_under_max(self, max: usize) -> (r: Result<usize, AbiTypeError>)
        ensures
            r == (if self.0 > max {
                Err::<usize, AbiTypeError>(AbiTypeError::ExceedsMax)
            } else {
                Ok(self.0 as usize)
            }),
    {
        let value: usize = self.0 as usize;
        if value > max {
            Err(AbiTypeError::ExceedsMax)
        } else {
            Ok(value)
        }
    }
}

impl Default for SubmitFlags {
    fn default() -> (r: Self)
        ensures
            r == SubmitFlags(0),
    {
        SubmitFlags(0)
    }
}

impl PartialEq<u32> for SubmitFlags {
    fn eq(&self, other: &u32) -> (r: bool) {
        self.0 == *other
    }
}

impl PartialEqSpecImpl<u32> for SubmitFlags {
    open spec fn obeys_eq_spec() -> bool {
        true
    }

    open spec fn eq_spec(&self, other: &u32) -> bool {
        self.0 == *other
    }
}

impl PartialEq<SubmitFlags> for u32 {
    fn eq(&self, other: &SubmitFlags) -> (r: bool) {
        *self == other.0
    }
}

impl PartialEqSpecImpl<SubmitFlags> for u32 {
    open spec fn obeys_eq_spec() -> bool {
        true
    }

    open spec fn eq_spec(&self, other: &SubmitFlags) -> bool {
        *self == other.0
    }
}

impl From<u32> for SubmitFlags {
    fn from(value: u32) -> (r: Self) {
        SubmitFlags(value)
    }
}

impl FromSpecImpl<u32> for SubmitFlags {
    open spec fn obeys_from_spec() -> bool {
        true
    }

    open spec fn from_spec(value: u32) -> Self {
        SubmitFlags(value)
    }
}

impl From<SubmitFlags> for u32 {
    fn from(value: SubmitFlags) -> (r: Self) {
        value.0
    }
}

impl FromSpecImpl<SubmitFlags> for u32 {
    open spec fn obeys_from_spec() -> bool {
        true
    }

    open spec fn from_spec(value: SubmitFlags) -> Self {
        value.0
    }
}

/// Completion status: zero is success, a negative value an error.
#[derive(Clone, Copy, PartialEq, Eq, Structural, PartialOrd, Ord, Hash, Debug)]
pub struct CompletionStatus(pub i32);

impl CompletionStatus {
    /// Wraps a raw value.
    pub fn new(raw: i32) -> (r: Self)
        ensures
            r == CompletionStatus(raw),
    {
        CompletionStatus(raw)
    }

    /// The raw value.
    pub fn get(self) -> (r: i32)
        ensures
            r == self.0,
    {
        self.0
    }

    /// Wraps a value that must not be zero.
    pub fn try_nonzero(raw: i32) -> (r: Result<Self, AbiTypeError>)
        ensures
            r == (if raw == 0 {
                Err::<Self, AbiTypeError>(AbiTypeError::Zero)
            } else {
                Ok(CompletionStatus(raw))
            }),
    {
        if raw == 0 {
            Err(AbiTypeError::Zero)
        } else {
            Ok(CompletionStatus(raw))
        }
    }

    /// The value as `usize`, where it fits.
    pub fn try_as_usize(self) -> (r: Result<usize, AbiTypeError>)
        ensures
            r == (if 0 <= self.0 {
                Ok::<usize, AbiTypeError>(self.0 as usize)
            } else {
                Err(AbiTypeError::UsizeOverflow)
            }),
    {
        if self.0 < 0 {
            Err(AbiTypeError::UsizeOverflow)
        } else {
            Ok(self.0 as usize)
        }
    }

    /// The value as `usize`, where it fits and is at most `max`.
    pub fn try_under_max(self, max: usize) -> (r: Result<usize, AbiTypeError>)
        ensures
            r == (if !(0 <= self.0) {
                Err::<usize, AbiTypeError>(AbiTypeError::UsizeOverflow)
            } else if self.0 > max {
                Err(AbiTypeError::ExceedsMax)
            } else {
                Ok(self.0 as usize)
            }),
    {
        match self.try_as_usize() {
            Ok(value) => if value > max {
                Err(AbiTypeError::ExceedsMax)
            } else {
                Ok(value)
            },
            Err(err) => Err(err),
        }
    }
}

impl Default for CompletionStatus {
    fn default() -> (r: Self)
        ensures
            r == CompletionStatus(0),
    {
        CompletionStatus(0)
    }
}

impl PartialEq<i32> for CompletionStatus {
    fn eq(&self, other: &i32) -> (r: bool) {
        self.0 == *other
    }
}

impl PartialEqSpecImpl<i32> for CompletionStatus {
    open spec fn obeys_eq_spec() -> bool {
        true
    }

    open spec fn eq_spec(&self, other: &i32) -> bool {
        self.0 == *other
    }
}

impl PartialEq<CompletionStatus> for i32 {
    fn eq(&self, other: &CompletionStatus) -> (r: bool) {
        *self == other.0
    }
}

impl PartialEqSpecImpl<CompletionStatus> for i32 {
    open spec fn obeys_eq_spec() -> bool {
        true
    }

    open spec fn eq_spec(&self, other: &CompletionStatus) -> bool {
        *self == other.0
    }
}

impl From<i32> for CompletionStatus {
    fn from(value: i32) -> (r: Self) {
        CompletionStatus(value)
    }
}

impl FromSpecImpl<i32> for CompletionStatus {
    open spec fn obeys_from_spec() -> bool {
        true
    }

    open spec fn from_spec(value: i32) -> Self {
        CompletionStatus(value)
    }
}

impl From<CompletionStatus> for i32 {
    fn from(value: CompletionStatus) -> (r: Self) {
        value.0
    }
}

impl FromSpecImpl<CompletionStatus> for i32 {
    open spec fn obeys_from_spec() -> bool {
        true
    }

    open spec fn from_spec(value: CompletionStatus) -> Self {
        value.0
    }
}

/// A single-precision number, held as its IEEE 754 bit pattern.
#[derive(Clone, Copy, PartialEq, Eq, Structural, Hash, Debug)]
pub struct FloatBits(pub u32);

impl FloatBits {
    /// Wraps a bit pattern.
    pub fn new(bits: u32) -> (r: Self)
        ensures
            r == FloatBits(bits),
    {
        FloatBits(bits)
    }

    /// The bit pattern.
    pub fn get(self) -> (r: u32)
        ensures
            r == self.0,
    {
        self.0
    }
}

impl Default for FloatBits {
    fn default() -> (r: Self)
        ensures
            r == FloatBits(0),
    {
        FloatBits(0)
    }
}

impl TensorCount {
    /// Input count plus output count, as an index bound.
    pub fn checked_total(self, other: Self) -> (r: Result<usize, AbiTypeError>)
        ensures
            r == (if self.0 + other.0 <= u32::MAX {
                Ok::<usize, AbiTypeError>((self.0 + other.0) as usize)
            } else {
                Err(AbiTypeError::CountOverflow)
            }),
    {
        match self.0.checked_add(other.0) {
            Some(total) => Ok(total as usize),
            None => Err(AbiTypeError::CountOverflow),
        }
    }
}

impl ByteOffset {
    /// The byte range that starts here and is `byte_len` long, where it lies within
    /// the first `total_size` bytes.
    pub fn checked_range(self, byte_len: usize, total_size: usize) -> (r: Result<
        Range<usize>,
        AbiTypeError,
    >)
        ensures
            match r {
                Ok(range) => {
                    &&& self.0 + byte_len <= total_size
                    &&& range.start == self.0
                    &&& range.end == self.0 + byte_len
                },
                Err(AbiTypeError::CountOverflow) => self.0 + byte_len > usize::MAX,
                Err(AbiTypeError::ExceedsMax) => total_size < self.0 + byte_len <= usize::MAX,
                Err(_) => false,
            },
    {
        let start: usize = self.0 as usize;
        match start.checked_add(byte_len) {
            Some(end) => if end > total_size {
                Err(AbiTypeError::ExceedsMax)
            } else {
                Ok(Range { start, end })
            },
            None => Err(AbiTypeError::CountOverflow),
        }
    }
}

} // verus!
