use crate::error::TableError;
use vstd::prelude::*;

verus! {

/// The physical types of the Parquet format. Values exist for five of them;
/// a column of any other type accepts no value.
#[derive(Clone, Copy, Debug, PartialEq, Eq, Structural)]
pub enum PhysicalType {
    Boolean,
    Int32,
    Int64,
    Int96,
    Float,
    Double,
    ByteArray,
    FixedLenByteArray(usize),
}

impl PhysicalType {
    /// The types that a [`Value`] can have.
    pub open spec fn is_supported(self) -> bool {
        ||| self is Int32
        ||| self is Int64
        ||| self is Float
        ||| self is Double
        ||| self is ByteArray
    }

    /// The numeric types, whose pages keep a minimum and a maximum.
    pub open spec fn is_numeric(self) -> bool {
        self is Int32 || self is Int64 || self is Float || self is Double
    }

    /// The types whose order keys lie in the range of `i32`.
    pub open spec fn is_narrow(self) -> bool {
        self is Int32 || self is Float
    }

    pub fn supported(&self) -> (r: bool)
        ensures
            r == self.is_supported(),
    {
        match self {
            PhysicalType::Int32 | PhysicalType::Int64 | PhysicalType::Float | PhysicalType::Double
            | PhysicalType::ByteArray => true,
            _ => false,
        }
    }
}

/// The little-endian bytes of a 32-bit word.
pub open spec fn le_u32(x: u32) -> Seq<u8> {
    seq![
        (x % 0x100) as u8,
        ((x / 0x100) % 0x100) as u8,
        ((x / 0x1_0000) % 0x100) as u8,
        (x / 0x100_0000) as u8,
    ]
}

/// The little-endian bytes of a 64-bit word.
pub open spec fn le_u64(x: u64) -> Seq<u8> {
    le_u32((x % 0x1_0000_0000) as u32) + le_u32((x / 0x1_0000_0000) as u32)
}

/// Whether the bits of a 32-bit float are a NaN.
pub open spec fn is_nan_f32(b: u32) -> bool {
    (b / 0x80_0000) % 0x100 == 0xff && b % 0x80_0000 != 0
}

/// Whether the bits of a 64-bit float are a NaN.
pub open spec fn is_nan_f64(b: u64) -> bool {
    (b / 0x10_0000_0000_0000) % 0x800 == 0x7ff && b % 0x10_0000_0000_0000 != 0
}

/// The place of a 32-bit float in the IEEE 754 total order, as an integer
/// that orders as the floats do: the bits themselves when the sign is clear,
/// and a negative number, lower the larger the magnitude, when it is set.
pub open spec fn order_key_f32(b: u32) -> int {
    if b < 0x8000_0000 {
        b as int
    } else {
        0x7fff_ffff - b
    }
}

/// The place of a 64-bit float in the IEEE 754 total order; see
/// [`order_key_f32`].
pub open spec fn order_key_f64(b: u64) -> int {
    if b < 0x8000_0000_0000_0000 {
        b as int
    } else {
        0x7fff_ffff_ffff_ffff - b
    }
}

/// The bits of the 32-bit float with order key `k`.
pub open spec fn float_bits_f32(k: int) -> u32 {
    if k >= 0 {
        k as u32
    } else {
        (0x7fff_ffff - k) as u32
    }
}

/// The bits of the 64-bit float with order key `k`.
pub open spec fn float_bits_f64(k: int) -> u64 {
    if k >= 0 {
        k as u64
    } else {
        (0x7fff_ffff_ffff_ffff - k) as u64
    }
}

/// A single scalar of one of the five supported physical types.
///
/// Floating-point values are held as their IEEE 754 bit patterns, which is
/// also how a page stores them.
#[derive(Clone, Copy, Debug)]
pub enum Value<'a> {
    I32(i32),
    I64(i64),
    F32(u32),
    F64(u64),
    Bytes(&'a [u8]),
}

impl<'a> Value<'a> {
    /// The physical type of a column that takes this value.
    pub open spec fn physical_type(self) -> PhysicalType {
        match self {
            Value::I32(_) => PhysicalType::Int32,
            Value::I64(_) => PhysicalType::Int64,
            Value::F32(_) => PhysicalType::Float,
            Value::F64(_) => PhysicalType::Double,
            Value::Bytes(_) => PhysicalType::ByteArray,
        }
    }

    /// The size of the payload: the width of a number, or the length of a
    /// byte array without its length prefix.
    pub open spec fn size(self) -> nat {
        match self {
            Value::I32(_) => 4,
            Value::I64(_) => 8,
            Value::F32(_) => 4,
            Value::F64(_) => 8,
            Value::Bytes(b) => b@.len(),
        }
    }

    /// The plain encoding of the value in a page: little-endian numbers, and
    /// byte arrays after a 4-byte little-endian length.
    pub open spec fn encoded(self) -> Seq<u8> {
        match self {
            Value::I32(v) => le_u32(v as u32),
            Value::I64(v) => le_u64(v as u64),
            Value::F32(v) => le_u32(v),
            Value::F64(v) => le_u64(v),
            Value::Bytes(b) => le_u32(b@.len() as u32) + b@,
        }
    }

    /// Where the value stands in the order of its type, for the values that
    /// page statistics take into account: the integers themselves, and floats
    /// other than NaN by their place in the IEEE 754 total order.
    pub open spec fn order_key(self) -> Option<int> {
        match self {
            Value::I32(v) => Some(v as int),
            Value::I64(v) => Some(v as int),
            Value::F32(b) => if is_nan_f32(b) {
                None
            } else {
                Some(order_key_f32(b))
            },
            Value::F64(b) => if is_nan_f64(b) {
                None
            } else {
                Some(order_key_f64(b))
            },
            Value::Bytes(_) => None,
        }
    }

    /// The value's order key; see [`Value::order_key`].
    pub fn key(&self) -> (r: Option<i64>)
        ensures
            r matches Some(k) ==> self.order_key() == Some(k as int),
            r is None ==> self.order_key() is None,
            self.physical_type().is_narrow() ==> (r matches Some(k) ==> i32::MIN <= k <= i32::MAX),
    {
        match self {
            Value::I32(v) => Some(*v as i64),
            Value::I64(v) => Some(*v),
            Value::F32(b) => {
                let b = *b;
                if (b / 0x80_0000) % 0x100 == 0xff && b % 0x80_0000 != 0 {
                    None
                } else if b < 0x8000_0000 {
                    Some(b as i64)
                } else {
                    Some(0x7fff_ffff - b as i64)
                }
            },
            Value::F64(b) => {
                let b = *b;
                if (b / 0x10_0000_0000_0000) % 0x800 == 0x7ff && b % 0x10_0000_0000_0000 != 0 {
                    None
                } else if b < 0x8000_0000_0000_0000 {
                    Some(b as i64)
                } else {
                    Some(-((b - 0x8000_0000_0000_0000) as i64) - 1)
                }
            },
            Value::Bytes(_) => None,
        }
    }

    pub fn dyn_size(&self) -> (r: usize)
        ensures
            r == self.size(),
    {
        match self {
            Value::I32(_) => 4,
            Value::I64(_) => 8,
            Value::F32(_) => 4,
            Value::F64(_) => 8,
            Value::Bytes(b) => b.len(),
        }
    }

    /// The length of the value's plain encoding, if it fits in `usize`.
    pub fn encoded_size(&self) -> (r: Option<usize>)
        ensures
            r matches Some(n) ==> n == self.encoded().len(),
            r is None ==> self.encoded().len() > usize::MAX,
    {
        match self {
            Value::Bytes(b) => {
                if b.len() > usize::MAX - 4 {
                    None
                } else {
                    Some(b.len() + 4)
                }
            },
            _ => Some(self.dyn_size()),
        }
    }

    /// The physical type of a column that takes this value.
    pub fn kind(&self) -> (r: PhysicalType)
        ensures
            r == self.physical_type(),
    {
        match self {
            Value::I32(_) => PhysicalType::Int32,
            Value::I64(_) => PhysicalType::Int64,
            Value::F32(_) => PhysicalType::Float,
            Value::F64(_) => PhysicalType::Double,
            Value::Bytes(_) => PhysicalType::ByteArray,
        }
    }

    pub fn as_i32(&self) -> (r: Result<i32, TableError>)
        ensures
            match *self {
                Value::I32(v) => r == Ok::<i32, TableError>(v),
                _ => r is Err && r->Err_0 is TypeMismatch,
            },
    {
        match self {
            Value::I32(v) => Ok(*v),
            _ => Err(TableError::TypeMismatch),
        }
    }

    pub fn as_i64(&self) -> (r: Result<i64, TableError>)
        ensures
            match *self {
                Value::I64(v) => r == Ok::<i64, TableError>(v),
                _ => r is Err && r->Err_0 is TypeMismatch,
            },
    {
        match self {
            Value::I64(v) => Ok(*v),
            _ => Err(TableError::TypeMismatch),
        }
    }

    /// The bit pattern of a 32-bit float.
    pub fn as_f32(&self) -> (r: Result<u32, TableError>)
        ensures
            match *self {
                Value::F32(v) => r == Ok::<u32, TableError>(v),
                _ => r is Err && r->Err_0 is TypeMismatch,
            },
    {
        match self {
            Value::F32(v) => Ok(*v),
            _ => Err(TableError::TypeMismatch),
        }
    }

    /// The bit pattern of a 64-bit float.
    pub fn as_f64(&self) -> (r: Result<u64, TableError>)
        ensures
            match *self {
                Value::F64(v) => r == Ok::<u64, TableError>(v),
                _ => r is Err && r->Err_0 is TypeMismatch,
            },
    {
        match self {
            Value::F64(v) => Ok(*v),
            _ => Err(TableError::TypeMismatch),
        }
    }

    pub fn as_bytes(&self) -> (r: Result<&'a [u8], TableError>)
        ensures
            match *self {
                Value::Bytes(b) => r == Ok::<&'a [u8], TableError>(b),
                _ => r is Err && r->Err_0 is TypeMismatch,
            },
    {
        match self {
            Value::Bytes(b) => Ok(*b),
            _ => Err(TableError::TypeMismatch),
        }
    }
}

/// The total encoded size of a sequence of values.
pub open spec fn values_size(values: Seq<Value>) -> nat
    decreases values.len(),
{
    if values.len() == 0 {
        0
    } else {
        values_size(values.drop_last()) + values.last().encoded().len()
    }
}

/// The encodings of a sequence of values, one after the other.
pub open spec fn values_bytes(values: Seq<Value>) -> Seq<u8>
    decreases values.len(),
{
    if values.len() == 0 {
        Seq::empty()
    } else {
        values_bytes(values.drop_last()) + values.last().encoded()
    }
}

/// The encodings of a prefix grow by the encoding of the next value.
pub proof fn lemma_values_prefix_bytes(values: Seq<Value>, i: int)
    requires
        0 <= i < values.len(),
    ensures
        values_bytes(values.subrange(0, i + 1)) == values_bytes(values.subrange(0, i))
            + values[i].encoded(),
{
    assert(values.subrange(0, i + 1).drop_last() =~= values.subrange(0, i));
}

/// The encoded size of a prefix grows by the size of the next value, and
/// stays within the size of the whole.
pub proof fn lemma_values_prefix_size(values: Seq<Value>, i: int)
    requires
        0 <= i < values.len(),
    ensures
        values_size(values.subrange(0, i + 1)) == values_size(values.subrange(0, i))
            + values[i].encoded().len(),
        values_size(values.subrange(0, i + 1)) <= values_size(values),
    decreases values.len() - i,
{
    assert(values.subrange(0, i + 1).drop_last() =~= values.subrange(0, i));
    if i + 1 < values.len() {
        lemma_values_prefix_size(values, i + 1);
    } else {
        assert(values.subrange(0, i + 1) =~= values);
    }
}

/// Appends the little-endian bytes of `x`.
pub fn push_le_u32(out: &mut Vec<u8>, x: u32)
    ensures
        final(out)@ == old(out)@ + le_u32(x),
{
    out.push((x % 0x100) as u8);
    out.push(((x / 0x100) % 0x100) as u8);
    out.push(((x / 0x1_0000) % 0x100) as u8);
    out.push((x / 0x100_0000) as u8);
    assert(out@ =~= old(out)@ + le_u32(x));
}

/// Appends the little-endian bytes of `x`.
pub fn push_le_u64(out: &mut Vec<u8>, x: u64)
    ensures
        final(out)@ == old(out)@ + le_u64(x),
{
    push_le_u32(out, (x % 0x1_0000_0000) as u32);
    push_le_u32(out, (x / 0x1_0000_0000) as u32);
    assert(out@ =~= old(out)@ + le_u64(x));
}

/// Appends the plain encoding of `value`.
pub fn push_encoded(out: &mut Vec<u8>, value: &Value)
    ensures
        final(out)@ == old(out)@ + value.encoded(),
{
    match value {
        Value::I32(v) => push_le_u32(out, *v as u32),
        Value::I64(v) => push_le_u64(out, *v as u64),
        Value::F32(v) => push_le_u32(out, *v),
        Value::F64(v) => push_le_u64(out, *v),
        Value::Bytes(b) => {
            push_le_u32(out, b.len() as u32);
            let ghost start = out@;
            let mut i: usize = 0;
            while i < b.len()
                invariant
                    i <= b@.len(),
                    out@ == start + b@.subrange(0, i as int),
                decreases b@.len() - i,
            {
                out.push(b[i]);
                i = i + 1;
                assert(out@ =~= start + b@.subrange(0, i as int));
            }
            assert(b@.subrange(0, b@.len() as int) =~= b@);
            assert(out@ =~= old(out)@ + value.encoded());
        },
    }
}

} // verus!
