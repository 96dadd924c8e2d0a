use crate::codec;
use crate::error::TableError;
use crate::value::{
    float_bits_f32, float_bits_f64, le_u32, le_u64, push_encoded, push_le_u32, push_le_u64,
    PhysicalType, Value,
};
use parquet2::metadata::Descriptor;
use parquet2::page::Page;
use vstd::prelude::*;

verus! {

/// The smaller of a running minimum and a new number; a value that is no
/// number leaves the minimum as it is.
pub open spec fn fold_min(m: Option<int>, v: Option<int>) -> Option<int> {
    match (m, v) {
        (_, None) => m,
        (None, Some(x)) => Some(x),
        (Some(y), Some(x)) => Some(if x < y { x } else { y }),
    }
}

/// The larger of a running maximum and a new number; a value that is no
/// number leaves the maximum as it is.
pub open spec fn fold_max(m: Option<int>, v: Option<int>) -> Option<int> {
    match (m, v) {
        (_, None) => m,
        (None, Some(x)) => Some(x),
        (Some(y), Some(x)) => Some(if x > y { x } else { y }),
    }
}

/// The plain encoding of a statistic of a column of type `kind`.
pub open spec fn encoded_statistic(kind: PhysicalType, v: Option<int>) -> Option<Seq<u8>> {
    match v {
        None => None,
        Some(x) => Some(
            match kind {
                PhysicalType::Int32 => le_u32(x as i32 as u32),
                PhysicalType::Float => le_u32(float_bits_f32(x)),
                PhysicalType::Double => le_u64(float_bits_f64(x)),
                _ => le_u64(x as i64 as u64),
            },
        ),
    }
}

/// Serializes values of one physical type into a single page, counting them
/// and keeping the minimum and maximum of numeric values (NaNs left out).
pub struct PageBuilder {
    kind: PhysicalType,
    descriptor: Descriptor,
    buffer: Vec<u8>,
    count: usize,
    min: Option<i64>,
    max: Option<i64>,
}

impl PageBuilder {
    /// The physical type of the page.
    pub closed spec fn spec_kind(&self) -> PhysicalType {
        self.kind
    }

    /// The serialized values, in push order.
    pub closed spec fn spec_bytes(&self) -> Seq<u8> {
        self.buffer@
    }

    /// The number of values pushed.
    pub closed spec fn spec_count(&self) -> nat {
        self.count as nat
    }

    /// The order key of the smallest numeric value pushed; none for byte
    /// arrays or while no value other than NaN was pushed.
    pub closed spec fn spec_min(&self) -> Option<int> {
        match self.min {
            Some(v) => Some(v as int),
            None => None,
        }
    }

    /// The order key of the largest numeric value pushed; none for byte
    /// arrays or while no value other than NaN was pushed.
    pub closed spec fn spec_max(&self) -> Option<int> {
        match self.max {
            Some(v) => Some(v as int),
            None => None,
        }
    }

    pub closed spec fn wf(&self) -> bool {
        &&& self.kind.is_supported()
        &&& 4 * self.count <= self.buffer@.len()
        &&& (self.min is Some <==> self.max is Some)
        &&& self.count == 0 ==> self.min is None
        &&& self.min is Some ==> {
            &&& self.kind.is_numeric()
            &&& self.min->0 <= self.max->0
            &&& self.kind.is_narrow() ==> i32::MIN <= self.min->0 && self.max->0 <= i32::MAX
        }
    }

    /// A page that holds nothing yet.
    pub open spec fn is_empty_of(&self, kind: PhysicalType) -> bool {
        &&& self.wf()
        &&& self.spec_kind() == kind
        &&& self.spec_bytes() == Seq::<u8>::empty()
        &&& self.spec_count() == 0
        &&& self.spec_min() is None
        &&& self.spec_max() is None
    }

    /// This page is `before` with `value` pushed onto it.
    pub open spec fn appended(&self, before: PageBuilder, value: Value) -> bool {
        &&& self.wf()
        &&& self.spec_kind() == before.spec_kind()
        &&& self.spec_descriptor() == before.spec_descriptor()
        &&& self.spec_bytes() == before.spec_bytes() + value.encoded()
        &&& self.spec_count() == before.spec_count() + 1
        &&& self.spec_min() == fold_min(before.spec_min(), value.order_key())
        &&& self.spec_max() == fold_max(before.spec_max(), value.order_key())
    }

    /// The page holds `value` and nothing else.
    pub open spec fn holds_only(&self, value: Value) -> bool {
        &&& self.wf()
        &&& self.spec_kind() == value.physical_type()
        &&& self.spec_bytes() == value.encoded()
        &&& self.spec_count() == 1
        &&& self.spec_min() == value.order_key()
        &&& self.spec_max() == value.order_key()
    }

    pub proof fn lemma_wf(&self)
        requires
            self.wf(),
        ensures
            self.spec_kind().is_supported(),
            4 * self.spec_count() <= self.spec_bytes().len(),
            self.spec_count() == 0 ==> self.spec_min() is None && self.spec_max() is None,
            !self.spec_kind().is_numeric() ==> self.spec_min() is None && self.spec_max() is None,
    {
    }

    /// The descriptor of the page's column.
    pub closed spec fn spec_descriptor(&self) -> Descriptor {
        self.descriptor
    }

    /// Starts an empty page of physical type `kind` for the column that
    /// `descriptor` describes, with room for `capacity_hint` bytes. A type
    /// that no value has is refused.
    pub fn new(capacity_hint: usize, kind: PhysicalType, descriptor: Descriptor) -> (r: Result<
        Self,
        TableError,
    >)
        ensures
            kind.is_supported() <==> r is Ok,
            match r {
                Ok(page) => page.is_empty_of(kind) && page.spec_descriptor() == descriptor,
                Err(e) => e is UnsupportedType,
            },
    {
        if !kind.supported() {
            return Err(TableError::UnsupportedType);
        }
        let buffer: Vec<u8> = Vec::with_capacity(capacity_hint);
        Ok(PageBuilder { kind, descriptor, buffer, count: 0, min: None, max: None })
    }

    /// Appends `value`'s plain encoding. A value of another type than the
    /// page's is refused and leaves the page as it was.
    pub fn push(&mut self, value: Value) -> (r: Result<(), TableError>)
        requires
            old(self).wf(),
        ensures
            value.physical_type() == old(self).spec_kind() <==> r is Ok,
            r is Ok ==> final(self).appended(*old(self), value),
            r is Err ==> r->Err_0 is TypeMismatch && *final(self) == *old(self),
    {
        if value.kind() != self.kind {
            return Err(TableError::TypeMismatch);
        }
        push_encoded(&mut self.buffer, &value);
        let len = self.buffer.len();
        assert(len >= 4 * self.count + 4) by {
            assert(value.encoded().len() >= 4);
        }
        self.count = self.count + 1;
        match value.key() {
            Some(k) => self.track(k),
            None => {},
        }
        Ok(())
    }

    /// Folds an order key into the page's minimum and maximum.
    fn track(&mut self, v: i64)
        requires
            old(self).kind.is_numeric(),
            old(self).kind.is_narrow() ==> i32::MIN <= v <= i32::MAX,
            old(self).min is Some <==> old(self).max is Some,
            old(self).min is Some ==> old(self).min->0 <= old(self).max->0 && (
            old(self).kind.is_narrow() ==> i32::MIN <= old(self).min->0 && old(self).max->0
                <= i32::MAX),
        ensures
            final(self).kind == old(self).kind,
            final(self).descriptor == old(self).descriptor,
            final(self).buffer == old(self).buffer,
            final(self).count == old(self).count,
            final(self).spec_min() == fold_min(old(self).spec_min(), Some(v as int)),
            final(self).spec_max() == fold_max(old(self).spec_max(), Some(v as int)),
            final(self).min is Some && final(self).max is Some,
            final(self).min->0 <= final(self).max->0,
            old(self).kind.is_narrow() ==> i32::MIN <= final(self).min->0 && final(self).max->0
                <= i32::MAX,
    {
        match self.min {
            Some(m) if m <= v => {},
            _ => self.min = Some(v),
        }
        match self.max {
            Some(m) if m >= v => {},
            _ => self.max = Some(v),
        }
    }

    /// The serialized size of the page in bytes.
    pub fn size(&self) -> (r: usize)
        ensures
            r == self.spec_bytes().len(),
    {
        self.buffer.len()
    }

    /// The number of values pushed.
    pub fn count(&self) -> (r: usize)
        ensures
            r == self.spec_count(),
    {
        self.count
    }

    /// The physical type of the page.
    pub fn physical_type(&self) -> (r: PhysicalType)
        ensures
            r == self.spec_kind(),
    {
        self.kind
    }

    /// The serialized values, in push order.
    pub fn bytes(&self) -> (r: &[u8])
        ensures
            r@ == self.spec_bytes(),
    {
        self.buffer.as_slice()
    }

    /// The order key of the smallest numeric value pushed.
    pub fn min(&self) -> (r: Option<i64>)
        ensures
            r matches Some(v) ==> self.spec_min() == Some(v as int),
            r is None ==> self.spec_min() is None,
    {
        self.min
    }

    /// The order key of the largest numeric value pushed.
    pub fn max(&self) -> (r: Option<i64>)
        ensures
            r matches Some(v) ==> self.spec_max() == Some(v as int),
            r is None ==> self.spec_max() is None,
    {
        self.max
    }

    /// The plain encoding of one statistic, in the width of the page's type.
    fn encode_statistic(&self, v: Option<i64>) -> (r: Option<Vec<u8>>)
        requires
            self.wf(),
            v == self.min || v == self.max,
        ensures
            opt_bytes(r) == encoded_statistic(
                self.kind,
                match v {
                    Some(x) => Some(x as int),
                    None => None,
                },
            ),
    {
        match v {
            None => None,
            Some(x) => {
                let mut out: Vec<u8> = Vec::new();
                match self.kind {
                    PhysicalType::Int32 => push_le_u32(&mut out, x as i32 as u32),
                    PhysicalType::Float => {
                        let bits: u32 = if x >= 0 {
                            x as u32
                        } else {
                            (0x7fff_ffff - x) as u32
                        };
                        push_le_u32(&mut out, bits);
                    },
                    PhysicalType::Double => {
                        let bits: u64 = if x >= 0 {
                            x as u64
                        } else {
                            (-(x + 1)) as u64 + 0x8000_0000_0000_0000
                        };
                        push_le_u64(&mut out, bits);
                    },
                    _ => push_le_u64(&mut out, x as u64),
                }
                assert(out@ =~= encoded_statistic(self.kind, Some(x as int))->0);
                Some(out)
            },
        }
    }

    /// The plain encodings of the page's minimum and maximum, as its
    /// statistics carry them.
    pub fn statistics(&self) -> (r: (Option<Vec<u8>>, Option<Vec<u8>>))
        requires
            self.wf(),
        ensures
            opt_bytes(r.0) == encoded_statistic(self.spec_kind(), self.spec_min()),
            opt_bytes(r.1) == encoded_statistic(self.spec_kind(), self.spec_max()),
    {
        (self.encode_statistic(self.min), self.encode_statistic(self.max))
    }

    /// Finishes the page: its plain-encoded values, declared as plain
    /// encoding with run-length encoded (and empty) definition and repetition
    /// levels, and statistics that count no nulls, leave the distinct count
    /// out, and give the minimum and maximum of numeric columns.
    pub fn into_page(self) -> (r: FinishedPage)
        requires
            self.wf(),
        ensures
            r.finishes(self),
    {
        let (min_value, max_value) = self.statistics();
        let statistics = PageStatistics {
            null_count: Some(0),
            distinct_count: None,
            min_value,
            max_value,
        };
        FinishedPage {
            buffer: self.buffer,
            num_values: self.count,
            descriptor: self.descriptor,
            encoding: PageEncoding::Plain,
            definition_level_encoding: PageEncoding::Rle,
            repetition_level_encoding: PageEncoding::Rle,
            statistics,
        }
    }
}

/// The encodings that a finished page declares.
#[derive(Clone, Copy, Debug, PartialEq, Eq, Structural)]
pub enum PageEncoding {
    Plain,
    Rle,
}

/// The statistics of a finished page, with plain-encoded minimum and maximum.
pub struct PageStatistics {
    pub null_count: Option<i64>,
    pub distinct_count: Option<i64>,
    pub min_value: Option<Vec<u8>>,
    pub max_value: Option<Vec<u8>>,
}

/// The bytes of an optional byte vector.
pub open spec fn opt_bytes(v: Option<Vec<u8>>) -> Option<Seq<u8>> {
    match v {
        Some(b) => Some(b@),
        None => None,
    }
}

/// A page that takes no more values: what a version 1 data page holds.
pub struct FinishedPage {
    pub buffer: Vec<u8>,
    pub num_values: usize,
    pub descriptor: Descriptor,
    pub encoding: PageEncoding,
    pub definition_level_encoding: PageEncoding,
    pub repetition_level_encoding: PageEncoding,
    pub statistics: PageStatistics,
}

impl FinishedPage {
    /// This is `page` finished: its bytes, count and descriptor, plain
    /// encoding with run-length encoded levels, no nulls, no distinct count,
    /// and the page's minimum and maximum in plain encoding.
    pub open spec fn finishes(&self, page: PageBuilder) -> bool {
        &&& self.buffer@ == page.spec_bytes()
        &&& self.num_values == page.spec_count()
        &&& self.descriptor == page.spec_descriptor()
        &&& self.encoding == PageEncoding::Plain
        &&& self.definition_level_encoding == PageEncoding::Rle
        &&& self.repetition_level_encoding == PageEncoding::Rle
        &&& self.statistics.null_count == Some(0i64)
        &&& self.statistics.distinct_count is None
        &&& opt_bytes(self.statistics.min_value) == encoded_statistic(
            page.spec_kind(),
            page.spec_min(),
        )
        &&& opt_bytes(self.statistics.max_value) == encoded_statistic(
            page.spec_kind(),
            page.spec_max(),
        )
    }

    /// The page as parquet2 writes it: a version 1 data page.
    pub fn into_parquet(self) -> Page {
        let statistics = codec::serialize_statistics(
            &self.descriptor,
            self.statistics.null_count,
            self.statistics.distinct_count,
            self.statistics.min_value,
            self.statistics.max_value,
        );
        let encoding = codec::parquet_encoding(self.encoding);
        let definition_level_encoding = codec::parquet_encoding(self.definition_level_encoding);
        let repetition_level_encoding = codec::parquet_encoding(self.repetition_level_encoding);
        codec::data_page_v1(
            self.buffer,
            self.num_values,
            self.descriptor,
            encoding,
            definition_level_encoding,
            repetition_level_encoding,
            statistics,
        )
    }
}

} // verus!
