//! The calls into parquet2 that the buffering logic makes, and the parquet2
//! types that it carries through without looking inside.
use crate::page_builder::PageEncoding;
use vstd::prelude::*;

verus! {

#[verifier::external_type_specification]
#[verifier::external_body]
pub struct ExParquetError(parquet2::error::Error);

#[verifier::external_type_specification]
#[verifier::external_body]
pub struct ExDescriptor(parquet2::metadata::Descriptor);

#[verifier::external_type_specification]
#[verifier::external_body]
pub struct ExEncoding(parquet2::encoding::Encoding);

#[verifier::external_type_specification]
#[verifier::external_body]
pub struct ExCompressionOptions(parquet2::compression::CompressionOptions);

#[verifier::external_type_specification]
#[verifier::external_body]
pub struct ExWriteOptions(parquet2::write::WriteOptions);

#[verifier::external_type_specification]
#[verifier::external_body]
pub struct ExPage(parquet2::page::Page);

#[verifier::external_type_specification]
#[verifier::external_body]
pub struct ExCompressedPage(parquet2::page::CompressedPage);

#[verifier::external_type_specification]
#[verifier::external_body]
pub struct ExParquetStatistics(parquet2::statistics::ParquetStatistics);

#[verifier::external_type_specification]
#[verifier::external_body]
#[verifier::reject_recursive_types(V)]
#[verifier::reject_recursive_types(E)]
pub struct ExDynStreamingIterator<'a, V, E>(parquet2::write::DynStreamingIterator<'a, V, E>);

/// A column chunk as handed to the file writer: the column's pages, compressed
/// one by one as the writer pulls them.
pub type CompressedPages = parquet2::write::DynStreamingIterator<
    'static,
    parquet2::page::CompressedPage,
    parquet2::error::Error,
>;

/// Relies on `Descriptor::clone`, derived: a copy of every field, for a new
/// page of the column.
#[verifier::external_body]
pub(crate) fn clone_descriptor(
    descriptor: &parquet2::metadata::Descriptor,
) -> (r: parquet2::metadata::Descriptor)
    ensures
        r == *descriptor,
{
    descriptor.clone()
}

/// Relies on parquet2's `encoding::Encoding`: the variant of the same name.
#[verifier::external_body]
pub(crate) fn parquet_encoding(encoding: PageEncoding) -> parquet2::encoding::Encoding {
    match encoding {
        PageEncoding::Plain => parquet2::encoding::Encoding::Plain,
        PageEncoding::Rle => parquet2::encoding::Encoding::Rle,
    }
}

/// Relies on `statistics::serialize_statistics`: thrift statistics with the
/// given counts and plain-encoded minimum and maximum. A `BinaryStatistics`
/// writes the minimum and maximum as the bytes given, which is what every
/// physical type serializes them as.
#[verifier::external_body]
pub(crate) fn serialize_statistics(
    descriptor: &parquet2::metadata::Descriptor,
    null_count: Option<i64>,
    distinct_count: Option<i64>,
    min_value: Option<Vec<u8>>,
    max_value: Option<Vec<u8>>,
) -> parquet2::statistics::ParquetStatistics {
    parquet2::statistics::serialize_statistics(&parquet2::statistics::BinaryStatistics {
        primitive_type: descriptor.primitive_type.clone(),
        null_count,
        distinct_count,
        max_value,
        min_value,
    })
}

/// Relies on `DataPage::new`: a data page with a version 1 header made of
/// the given fields.
#[verifier::external_body]
pub(crate) fn data_page_v1(
    buffer: Vec<u8>,
    num_values: usize,
    descriptor: parquet2::metadata::Descriptor,
    encoding: parquet2::encoding::Encoding,
    definition_level_encoding: parquet2::encoding::Encoding,
    repetition_level_encoding: parquet2::encoding::Encoding,
    statistics: parquet2::statistics::ParquetStatistics,
) -> parquet2::page::Page {
    let header = parquet2::page::DataPageHeaderV1 {
        num_values: num_values as i32,
        encoding: encoding.into(),
        definition_level_encoding: definition_level_encoding.into(),
        repetition_level_encoding: repetition_level_encoding.into(),
        statistics: Some(statistics),
    };
    let header = parquet2::page::DataPageHeader::V1(header);
    parquet2::page::Page::Data(parquet2::page::DataPage::new(header, buffer, descriptor, Some(num_values)))
}

/// Relies on `write::Compressor::new`: a stream that compresses the pages in
/// order with the given codec.
#[verifier::external_body]
pub(crate) fn compress_pages(
    pages: Vec<parquet2::page::Page>,
    compression: parquet2::compression::CompressionOptions,
) -> CompressedPages {
    let pages = parquet2::write::DynIter::new(pages.into_iter().map(Ok));
    parquet2::write::DynStreamingIterator::new(parquet2::write::Compressor::new(pages, compression, vec![]))
}

} // verus!
