use crate::codec::{self, CompressedPages};
use crate::error::TableError;
use crate::page_builder::{FinishedPage, PageBuilder};
use crate::value::{values_bytes, values_size, PhysicalType, Value};
use parquet2::compression::CompressionOptions;
use parquet2::metadata::Descriptor;
use vstd::prelude::*;

verus! {

/// The total serialized size of a sequence of pages.
pub open spec fn pages_size(pages: Seq<PageBuilder>) -> nat
    decreases pages.len(),
{
    if pages.len() == 0 {
        0
    } else {
        pages_size(pages.drop_last()) + pages.last().spec_bytes().len()
    }
}

/// The total number of values in a sequence of pages.
pub open spec fn pages_count(pages: Seq<PageBuilder>) -> nat
    decreases pages.len(),
{
    if pages.len() == 0 {
        0
    } else {
        pages_count(pages.drop_last()) + pages.last().spec_count()
    }
}

/// The serialized values of a sequence of pages, one page after the other.
pub open spec fn pages_bytes(pages: Seq<PageBuilder>) -> Seq<u8>
    decreases pages.len(),
{
    if pages.len() == 0 {
        Seq::empty()
    } else {
        pages_bytes(pages.drop_last()) + pages.last().spec_bytes()
    }
}

/// Every page is well formed and of physical type `kind`.
pub open spec fn pages_wf(pages: Seq<PageBuilder>, kind: PhysicalType) -> bool {
    forall|i: int| 0 <= i < pages.len() ==> #[trigger] pages[i].wf() && pages[i].spec_kind() == kind
}

/// Four bytes at least stand for each value.
pub proof fn lemma_count_le_size(pages: Seq<PageBuilder>, kind: PhysicalType)
    requires
        pages_wf(pages, kind),
    ensures
        4 * pages_count(pages) <= pages_size(pages),
    decreases pages.len(),
{
    if pages.len() > 0 {
        let init = pages.drop_last();
        assert forall|i: int| 0 <= i < init.len() implies #[trigger] init[i].wf()
            && init[i].spec_kind() == kind by {
            assert(init[i] == pages[i]);
        }
        lemma_count_le_size(init, kind);
        assert(pages[pages.len() - 1].wf());
        pages.last().lemma_wf();
    }
}

/// The finished pages of a drained column, oldest first, and the codec
/// they are to be compressed with.
pub struct ColumnChunk {
    pub pages: Vec<FinishedPage>,
    pub compression_options: CompressionOptions,
}

impl ColumnChunk {
    /// This chunk is what draining `column` gives: each of its pages,
    /// finished, in order, with the column's codec.
    pub open spec fn drained_from(&self, column: ColumnBuilder) -> bool {
        &&& self.pages@.len() == column.spec_pages().len()
        &&& forall|k: int|
            0 <= k < self.pages@.len() ==> (#[trigger] self.pages@[k]).finishes(
                column.spec_pages()[k],
            )
        &&& self.compression_options == column.spec_compression()
    }

    /// The chunk as the file writer takes it: parquet2 data pages, in order,
    /// in a stream that compresses each with the chunk's codec.
    pub fn into_compressed(self) -> CompressedPages {
        let mut finished = self.pages;
        let mut pages: Vec<parquet2::page::Page> = Vec::new();
        while finished.len() > 0
            decreases finished@.len(),
        {
            let page = finished.remove(0);
            pages.push(page.into_parquet());
        }
        codec::compress_pages(pages, self.compression_options)
    }
}

/// One column chunk: a sequence of pages of one column, each started when the
/// last one could not take the next value within the page size budget.
pub struct ColumnBuilder {
    pages: Vec<PageBuilder>,
    page_size: usize,
    kind: PhysicalType,
    descriptor: Descriptor,
    compression_options: CompressionOptions,
}

impl ColumnBuilder {
    /// The buffered pages, oldest first.
    pub closed spec fn spec_pages(&self) -> Seq<PageBuilder> {
        self.pages@
    }

    /// The page size budget in bytes.
    pub closed spec fn spec_page_size(&self) -> nat {
        self.page_size as nat
    }

    /// The column's physical type.
    pub closed spec fn spec_kind(&self) -> PhysicalType {
        self.kind
    }

    /// The column's descriptor.
    pub closed spec fn spec_descriptor(&self) -> Descriptor {
        self.descriptor
    }

    /// The codec that the column's pages are compressed with.
    pub closed spec fn spec_compression(&self) -> CompressionOptions {
        self.compression_options
    }

    /// The column's descriptor and compression options are those of `other`.
    pub closed spec fn same_target(&self, other: ColumnBuilder) -> bool {
        self.descriptor == other.descriptor && self.compression_options
            == other.compression_options
    }

    /// Budget, type, descriptor and compression are those of `other`.
    pub open spec fn same_settings(&self, other: ColumnBuilder) -> bool {
        &&& self.spec_page_size() == other.spec_page_size()
        &&& self.spec_kind() == other.spec_kind()
        &&& self.same_target(other)
    }

    /// Having the same settings is reflexive, symmetric and transitive.
    pub proof fn lemma_same_settings(&self, b: ColumnBuilder, c: ColumnBuilder)
        ensures
            self.same_settings(*self),
            self.same_settings(b) ==> b.same_settings(*self),
            self.same_settings(b) && b.same_settings(c) ==> self.same_settings(c),
    {
    }

    /// The number of buffered values.
    pub open spec fn spec_count(&self) -> nat {
        pages_count(self.spec_pages())
    }

    /// The buffered size in bytes.
    pub open spec fn spec_size(&self) -> nat {
        pages_size(self.spec_pages())
    }

    /// The buffered values, serialized in push order.
    pub open spec fn spec_payload(&self) -> Seq<u8> {
        pages_bytes(self.spec_pages())
    }

    pub closed spec fn wf(&self) -> bool {
        &&& pages_wf(self.spec_pages(), self.spec_kind())
        &&& forall|i: int|
            0 <= i < self.pages@.len() ==> (#[trigger] self.pages@[i]).spec_descriptor()
                == self.descriptor
        &&& self.spec_size() <= usize::MAX
    }

    /// The column takes `value`.
    pub open spec fn accepts(&self, value: Value) -> bool {
        self.spec_kind().is_supported() && value.physical_type() == self.spec_kind()
    }

    /// The last page can take `size_hint` more bytes within the budget.
    pub open spec fn fits(&self, size_hint: nat) -> bool {
        &&& self.spec_pages().len() > 0
        &&& self.spec_pages().last().spec_bytes().len() + size_hint <= self.spec_page_size()
    }

    /// This column is `before` with `value` pushed onto it: onto the last page
    /// where it fits, else alone onto a new page.
    pub open spec fn pushed(&self, before: ColumnBuilder, value: Value) -> bool {
        &&& self.wf()
        &&& self.same_settings(before)
        &&& if before.fits(value.size()) {
            &&& self.spec_pages().len() == before.spec_pages().len()
            &&& self.spec_pages().drop_last() == before.spec_pages().drop_last()
            &&& self.spec_pages().last().appended(before.spec_pages().last(), value)
        } else {
            &&& self.spec_pages().len() == before.spec_pages().len() + 1
            &&& self.spec_pages().drop_last() == before.spec_pages()
            &&& self.spec_pages().last().holds_only(value)
        }
    }

    /// Creates an empty column of physical type `kind`. A type that no value
    /// has makes every push fail.
    pub fn new(
        page_size: usize,
        kind: PhysicalType,
        descriptor: Descriptor,
        compression_options: CompressionOptions,
    ) -> (r: Self)
        ensures
            r.wf(),
            r.spec_pages() == Seq::<PageBuilder>::empty(),
            r.spec_page_size() == page_size,
            r.spec_kind() == kind,
            r.spec_descriptor() == descriptor,
            r.spec_compression() == compression_options,
    {
        ColumnBuilder { pages: Vec::new(), page_size, kind, descriptor, compression_options }
    }

    /// Takes all buffered pages out of the column and finishes each. The
    /// chunk owns the pages, oldest first, and does not borrow the column,
    /// which is left empty and ready for new values.
    pub fn drain(&mut self) -> (r: ColumnChunk)
        requires
            old(self).wf(),
        ensures
            final(self).wf(),
            final(self).same_settings(*old(self)),
            final(self).spec_pages() == Seq::<PageBuilder>::empty(),
            final(self).spec_count() == 0,
            final(self).spec_size() == 0,
            r.drained_from(*old(self)),
    {
        let ghost start = *self;
        let mut taken: Vec<PageBuilder> = Vec::new();
        std::mem::swap(&mut self.pages, &mut taken);
        let ghost all = taken@;
        let mut finished: Vec<FinishedPage> = Vec::new();
        while taken.len() > 0
            invariant
                pages_wf(all, self.kind),
                finished@.len() + taken@.len() == all.len(),
                taken@ == all.subrange(finished@.len() as int, all.len() as int),
                forall|k: int|
                    0 <= k < finished@.len() ==> (#[trigger] finished@[k]).finishes(all[k]),
            decreases taken@.len(),
        {
            let ghost before = taken@;
            let page = taken.remove(0);
            assert(page == all[finished@.len() as int]);
            assert(all[finished@.len() as int].wf());
            finished.push(page.into_page());
            assert(taken@ =~= all.subrange(finished@.len() as int, all.len() as int));
        }
        assert(self.pages@.len() == 0);
        ColumnChunk { pages: finished, compression_options: self.compression_options }
    }

    /// Appends `value` to the newest page, or to a new page when the newest
    /// cannot take the value's size within the budget. A value that the column
    /// does not take leaves it as it was.
    pub fn push(&mut self, value: Value) -> (r: Result<(), TableError>)
        requires
            old(self).wf(),
            old(self).spec_size() + value.encoded().len() <= usize::MAX,
        ensures
            old(self).accepts(value) <==> r is Ok,
            r is Ok ==> final(self).pushed(*old(self), value),
            r is Ok ==> final(self).spec_count() == old(self).spec_count() + 1,
            r is Ok ==> final(self).spec_size() == old(self).spec_size() + value.encoded().len(),
            r is Ok ==> final(self).spec_payload() == old(self).spec_payload() + value.encoded(),
            r is Err ==> *final(self) == *old(self),
            !old(self).spec_kind().is_supported() ==> (r matches Err(e) && e is UnsupportedType),
            old(self).spec_kind().is_supported() && !old(self).accepts(value) ==> (r matches Err(
                e,
            ) && e is TypeMismatch),
    {
        if !self.kind.supported() {
            return Err(TableError::UnsupportedType);
        }
        if value.kind() != self.kind {
            return Err(TableError::TypeMismatch);
        }
        let ghost before = *self;
        let i = match self.page_builder(value.dyn_size()) {
            Ok(i) => i,
            Err(e) => return Err(e),
        };
        let ghost mid = self.pages@;
        assert(mid[i as int].wf());
        assert(i == mid.len() - 1);
        let res = self.pages[i].push(value);
        proof {
            let pages = self.pages@;
            assert(pages.len() == mid.len());
            assert forall|j: int| 0 <= j < pages.len() - 1 implies pages[j] == mid[j] by {}
            assert(pages.drop_last() =~= mid.drop_last());
            assert(pages_wf(pages, self.kind)) by {
                assert forall|j: int| 0 <= j < pages.len() implies #[trigger] pages[j].wf()
                    && pages[j].spec_kind() == self.kind by {
                    if j < pages.len() - 1 {
                        assert(pages[j] == pages.drop_last()[j]);
                        assert(mid[j] == mid.drop_last()[j]);
                    }
                }
            }
            if !before.fits(value.size()) {
                assert(mid.drop_last() =~= before.pages@);
            }
        }
        Ok(())
    }

    /// Chooses the page for a value of `size_hint` bytes and returns its
    /// index: the newest page if it can take that many more bytes within the
    /// budget, otherwise a new empty page appended for it. The budget is
    /// checked before the value is added, so a value larger than the budget
    /// still gets a page, alone.
    pub fn page_builder(&mut self, size_hint: usize) -> (r: Result<usize, TableError>)
        requires
            old(self).wf(),
        ensures
            r matches Ok(i) ==> i == final(self).spec_pages().len() - 1,
            old(self).fits(size_hint as nat) ==> r == Ok::<usize, TableError>(
                (old(self).spec_pages().len() - 1) as usize,
            ) && *final(self) == *old(self),
            !old(self).fits(size_hint as nat) && old(self).spec_kind().is_supported() ==> {
                &&& r == Ok::<usize, TableError>(old(self).spec_pages().len() as usize)
                &&& final(self).wf()
                &&& final(self).same_settings(*old(self))
                &&& final(self).spec_pages().len() == old(self).spec_pages().len() + 1
                &&& final(self).spec_pages().drop_last() == old(self).spec_pages()
                &&& final(self).spec_pages().last().is_empty_of(old(self).spec_kind())
            },
            !old(self).fits(size_hint as nat) && !old(self).spec_kind().is_supported() ==> (r matches Err(
                e,
            ) && e is UnsupportedType && *final(self) == *old(self)),
    {
        let n = self.pages.len();
        if n > 0 {
            let last = self.pages[n - 1].size();
            if last <= self.page_size && size_hint <= self.page_size - last {
                return Ok(n - 1);
            }
        }
        let descriptor = codec::clone_descriptor(&self.descriptor);
        let page = match PageBuilder::new(self.page_size, self.kind, descriptor) {
            Ok(page) => page,
            Err(e) => return Err(e),
        };
        let ghost before = self.pages@;
        self.pages.push(page);
        proof {
            let pages = self.pages@;
            assert(pages.drop_last() =~= before);
            assert(pages_wf(pages, self.kind)) by {
                assert forall|j: int| 0 <= j < pages.len() implies #[trigger] pages[j].wf()
                    && pages[j].spec_kind() == self.kind by {
                    if j < pages.len() - 1 {
                        assert(pages[j] == before[j]);
                    }
                }
            }
        }
        Ok(n)
    }

    /// The buffered size of the column in bytes: the sum of its pages' sizes.
    pub fn size(&self) -> (r: usize)
        requires
            self.wf(),
        ensures
            r == self.spec_size(),
    {
        let mut total: usize = 0;
        let mut i: usize = 0;
        while i < self.pages.len()
            invariant
                self.wf(),
                i <= self.pages@.len(),
                total == pages_size(self.pages@.subrange(0, i as int)),
            decreases self.pages@.len() - i,
        {
            proof {
                lemma_prefix_size(self.pages@, i as int);
            }
            total = total + self.pages[i].size();
            i = i + 1;
        }
        assert(self.pages@.subrange(0, i as int) =~= self.pages@);
        total
    }

    /// The number of buffered values: the sum of its pages' counts.
    pub fn count(&self) -> (r: usize)
        requires
            self.wf(),
        ensures
            r == self.spec_count(),
    {
        let mut total: usize = 0;
        let mut i: usize = 0;
        while i < self.pages.len()
            invariant
                self.wf(),
                i <= self.pages@.len(),
                total == pages_count(self.pages@.subrange(0, i as int)),
            decreases self.pages@.len() - i,
        {
            proof {
                lemma_prefix_count(self.pages@, self.kind, i as int);
            }
            total = total + self.pages[i].count();
            i = i + 1;
        }
        assert(self.pages@.subrange(0, i as int) =~= self.pages@);
        total
    }

    /// The page size budget in bytes.
    pub fn page_size(&self) -> (r: usize)
        ensures
            r == self.spec_page_size(),
    {
        self.page_size
    }

    /// The column's physical type.
    pub fn physical_type(&self) -> (r: PhysicalType)
        ensures
            r == self.spec_kind(),
    {
        self.kind
    }

    /// The buffered pages, oldest first.
    pub fn pages(&self) -> (r: &[PageBuilder])
        ensures
            r@ == self.spec_pages(),
    {
        self.pages.as_slice()
    }
}

/// The size of a prefix grows by the size of the next page, and stays within
/// the size of the whole.
proof fn lemma_prefix_size(pages: Seq<PageBuilder>, i: int)
    requires
        0 <= i < pages.len(),
    ensures
        pages_size(pages.subrange(0, i + 1)) == pages_size(pages.subrange(0, i))
            + pages[i].spec_bytes().len(),
        pages_size(pages.subrange(0, i + 1)) <= pages_size(pages),
    decreases pages.len() - i,
{
    assert(pages.subrange(0, i + 1).drop_last() =~= pages.subrange(0, i));
    if i + 1 < pages.len() {
        lemma_prefix_size(pages, i + 1);
    } else {
        assert(pages.subrange(0, i + 1) =~= pages);
    }
}

/// The count of a prefix grows by the count of the next page, and stays
/// within a quarter of the size of the whole.
proof fn lemma_prefix_count(pages: Seq<PageBuilder>, kind: PhysicalType, i: int)
    requires
        0 <= i < pages.len(),
        pages_wf(pages, kind),
    ensures
        pages_count(pages.subrange(0, i + 1)) == pages_count(pages.subrange(0, i))
            + pages[i].spec_count(),
        4 * pages_count(pages.subrange(0, i + 1)) <= pages_size(pages),
{
    let prefix = pages.subrange(0, i + 1);
    assert(prefix.drop_last() =~= pages.subrange(0, i));
    assert(pages_wf(prefix, kind)) by {
        assert forall|j: int| 0 <= j < prefix.len() implies #[trigger] prefix[j].wf()
            && prefix[j].spec_kind() == kind by {
            assert(prefix[j] == pages[j]);
        }
    }
    lemma_count_le_size(prefix, kind);
    lemma_prefix_size(pages, i);
}

/// A push adds one value to the column's count and the value's encoded size
/// to its size.
pub proof fn lemma_pushed_totals(after: ColumnBuilder, before: ColumnBuilder, value: Value)
    requires
        after.pushed(before, value),
    ensures
        after.spec_count() == before.spec_count() + 1,
        after.spec_size() == before.spec_size() + value.encoded().len(),
        after.spec_payload() == before.spec_payload() + value.encoded(),
{
    let a = after.spec_pages();
    let b = before.spec_pages();
    if before.fits(value.size()) {
        assert(b.drop_last() == a.drop_last());
        assert(pages_bytes(a) =~= pages_bytes(b) + value.encoded());
    } else {
        assert(a.drop_last() == b);
        assert(a.last().spec_bytes() == value.encoded());
    }
}

/// After pushes of `values`, in order, onto an empty column, the column holds
/// as many values as were pushed, its size is the sum of their encoded sizes
/// (the width of each number, and four more bytes than its length for each
/// byte array), its pages hold their encodings in push order, and no page is
/// empty.
pub proof fn lemma_pushes_count_and_size(states: Seq<ColumnBuilder>, values: Seq<Value>)
    requires
        states.len() == values.len() + 1,
        states[0].spec_pages().len() == 0,
        forall|k: int| 0 <= k < values.len() ==> #[trigger] states[k + 1].pushed(states[k], values[k]),
    ensures
        states.last().spec_count() == values.len(),
        states.last().spec_size() == values_size(values),
        states.last().spec_payload() == values_bytes(values),
        forall|i: int|
            0 <= i < states.last().spec_pages().len() ==> (#[trigger] states.last().spec_pages()[
                i
            ]).spec_count() >= 1,
    decreases values.len(),
{
    if values.len() > 0 {
        let n = values.len() as int;
        let init = states.drop_last();
        assert forall|k: int| 0 <= k < values.drop_last().len() implies #[trigger] init[k + 1].pushed(
            init[k],
            values.drop_last()[k],
        ) by {
            assert(states[k + 1].pushed(states[k], values[k]));
        }
        lemma_pushes_count_and_size(init, values.drop_last());
        assert(states[n].pushed(states[n - 1], values[n - 1]));
        lemma_pushed_totals(states[n], states[n - 1], values[n - 1]);
        let a = states[n].spec_pages();
        let b = states[n - 1].spec_pages();
        assert(init.last() == states[n - 1]);
        assert forall|i: int| 0 <= i < a.len() implies (#[trigger] a[i]).spec_count() >= 1 by {
            if i < a.len() - 1 {
                assert(a[i] == a.drop_last()[i]);
                if states[n - 1].fits(values[n - 1].size()) {
                    assert(b[i] == b.drop_last()[i]);
                }
            }
        }
    } else {
        assert(states.last() == states[0]);
    }
}

/// A push never splits a value: its whole encoding ends the newest page. A
/// new page is started exactly when the newest page could not take the value
/// within the budget, and the pages before the one written stay as they were.
/// A value larger than the budget is the only value of a page of its own.
pub proof fn lemma_page_split(after: ColumnBuilder, before: ColumnBuilder, value: Value)
    requires
        after.pushed(before, value),
    ensures
        after.spec_pages().len() > 0,
        ({
            let bytes = after.spec_pages().last().spec_bytes();
            &&& bytes.len() >= value.encoded().len()
            &&& bytes.subrange(bytes.len() - value.encoded().len(), bytes.len() as int)
                == value.encoded()
        }),
        !before.fits(value.size()) <==> after.spec_pages().len() == before.spec_pages().len() + 1,
        forall|i: int|
            0 <= i < after.spec_pages().len() - 1 ==> #[trigger] after.spec_pages()[i]
                == before.spec_pages()[i],
        value.size() > before.spec_page_size() ==> {
            &&& after.spec_pages().len() == before.spec_pages().len() + 1
            &&& after.spec_pages().last().holds_only(value)
        },
{
    let a = after.spec_pages();
    let b = before.spec_pages();
    let bytes = a.last().spec_bytes();
    let e = value.encoded();
    if before.fits(value.size()) {
        assert(bytes == b.last().spec_bytes() + e);
        assert(bytes.subrange(bytes.len() - e.len(), bytes.len() as int) =~= e);
        assert forall|i: int| 0 <= i < a.len() - 1 implies #[trigger] a[i] == b[i] by {
            assert(a[i] == a.drop_last()[i]);
            assert(b[i] == b.drop_last()[i]);
        }
    } else {
        assert(bytes.subrange(0, bytes.len() as int) =~= e);
        assert forall|i: int| 0 <= i < a.len() - 1 implies #[trigger] a[i] == b[i] by {
            assert(a[i] == a.drop_last()[i]);
        }
    }
}

/// The buffers of a sequence of finished pages, one after the other.
pub open spec fn finished_bytes(pages: Seq<FinishedPage>) -> Seq<u8>
    decreases pages.len(),
{
    if pages.len() == 0 {
        Seq::empty()
    } else {
        finished_bytes(pages.drop_last()) + pages.last().buffer@
    }
}

/// A drained chunk carries the column's values in push order: its page
/// buffers, one after the other, are the column's payload.
pub proof fn lemma_drained_payload(chunk: ColumnChunk, column: ColumnBuilder)
    requires
        chunk.drained_from(column),
    ensures
        finished_bytes(chunk.pages@) == column.spec_payload(),
{
    lemma_finished_bytes(chunk.pages@, column.spec_pages());
}

proof fn lemma_finished_bytes(finished: Seq<FinishedPage>, pages: Seq<PageBuilder>)
    requires
        finished.len() == pages.len(),
        forall|k: int| 0 <= k < finished.len() ==> (#[trigger] finished[k]).finishes(pages[k]),
    ensures
        finished_bytes(finished) == pages_bytes(pages),
    decreases finished.len(),
{
    if finished.len() > 0 {
        let n = finished.len() - 1;
        assert forall|k: int| 0 <= k < n implies (#[trigger] finished.drop_last()[k]).finishes(
            pages.drop_last()[k],
        ) by {
            assert(finished[k].finishes(pages[k]));
        }
        lemma_finished_bytes(finished.drop_last(), pages.drop_last());
        assert(finished[n].finishes(pages[n]));
    }
}

/// After a drain the column holds nothing, and the next push starts a fresh
/// page that holds only the pushed value.
pub proof fn lemma_push_after_drain(after: ColumnBuilder, drained: ColumnBuilder, value: Value)
    requires
        drained.spec_pages().len() == 0,
        after.pushed(drained, value),
    ensures
        drained.spec_count() == 0,
        drained.spec_size() == 0,
        after.spec_pages().len() == 1,
        after.spec_pages()[0].holds_only(value),
{
}

} // verus!
