use parquet2::metadata::{Descriptor, SchemaDescriptor};
use parquet2::schema::types::{ParquetType, PhysicalType as ParquetPhysicalType};
use parquet_logger::error::TableError;
use parquet_logger::page_builder::{PageBuilder, PageEncoding};
use parquet_logger::value::{PhysicalType, Value};

fn descriptor(physical_type: ParquetPhysicalType) -> Descriptor {
    let schema = SchemaDescriptor::new(
        "schema".to_string(),
        vec![ParquetType::from_physical("a".to_string(), physical_type)],
    );
    schema.columns()[0].descriptor.clone()
}

fn kind(physical_type: ParquetPhysicalType) -> PhysicalType {
    match physical_type {
        ParquetPhysicalType::Boolean => PhysicalType::Boolean,
        ParquetPhysicalType::Int32 => PhysicalType::Int32,
        ParquetPhysicalType::Int64 => PhysicalType::Int64,
        ParquetPhysicalType::Int96 => PhysicalType::Int96,
        ParquetPhysicalType::Float => PhysicalType::Float,
        ParquetPhysicalType::Double => PhysicalType::Double,
        ParquetPhysicalType::ByteArray => PhysicalType::ByteArray,
        ParquetPhysicalType::FixedLenByteArray(n) => PhysicalType::FixedLenByteArray(n),
    }
}

#[test]
fn new_page_is_empty() {
    let page = PageBuilder::new(16, kind(ParquetPhysicalType::Int64), descriptor(ParquetPhysicalType::Int64)).unwrap();
    assert_eq!(page.physical_type(), PhysicalType::Int64);
    assert_eq!(page.size(), 0);
    assert_eq!(page.count(), 0);
    assert_eq!(page.min(), None);
    assert_eq!(page.max(), None);
}

#[test]
fn new_page_refuses_unsupported_type() {
    let r = PageBuilder::new(16, kind(ParquetPhysicalType::Boolean), descriptor(ParquetPhysicalType::Boolean));
    assert!(matches!(r, Err(TableError::UnsupportedType)));
    let r = PageBuilder::new(16, kind(ParquetPhysicalType::Int96), descriptor(ParquetPhysicalType::Int96));
    assert!(matches!(r, Err(TableError::UnsupportedType)));
}

#[test]
fn numbers_are_little_endian() {
    let mut page = PageBuilder::new(16, kind(ParquetPhysicalType::Int32), descriptor(ParquetPhysicalType::Int32)).unwrap();
    page.push(Value::I32(0x0102_0304)).unwrap();
    page.push(Value::I32(-2)).unwrap();
    assert_eq!(page.bytes(), &[4, 3, 2, 1, 0xfe, 0xff, 0xff, 0xff]);
    assert_eq!(page.size(), 8);
    assert_eq!(page.count(), 2);

    let mut page = PageBuilder::new(16, kind(ParquetPhysicalType::Double), descriptor(ParquetPhysicalType::Double)).unwrap();
    page.push(Value::F64(1.0f64.to_bits())).unwrap();
    assert_eq!(page.bytes(), &1.0f64.to_le_bytes());
}

#[test]
fn byte_arrays_carry_a_length_prefix() {
    let mut page = PageBuilder::new(16, kind(ParquetPhysicalType::ByteArray), descriptor(ParquetPhysicalType::ByteArray)).unwrap();
    page.push(Value::Bytes(b"ab")).unwrap();
    page.push(Value::Bytes(b"")).unwrap();
    assert_eq!(page.bytes(), &[2, 0, 0, 0, b'a', b'b', 0, 0, 0, 0]);
    assert_eq!(page.size(), 10);
    assert_eq!(page.count(), 2);
    assert_eq!(page.statistics(), (None, None));
}

#[test]
fn integer_pages_track_min_and_max() {
    let mut page = PageBuilder::new(16, kind(ParquetPhysicalType::Int32), descriptor(ParquetPhysicalType::Int32)).unwrap();
    for v in [5, -3, 12, 0] {
        page.push(Value::I32(v)).unwrap();
    }
    assert_eq!(page.min(), Some(-3));
    assert_eq!(page.max(), Some(12));
    let (min, max) = page.statistics();
    assert_eq!(min, Some((-3i32).to_le_bytes().to_vec()));
    assert_eq!(max, Some(12i32.to_le_bytes().to_vec()));

    let mut page = PageBuilder::new(16, kind(ParquetPhysicalType::Int64), descriptor(ParquetPhysicalType::Int64)).unwrap();
    page.push(Value::I64(i64::MAX)).unwrap();
    page.push(Value::I64(i64::MIN)).unwrap();
    let (min, max) = page.statistics();
    assert_eq!(min, Some(i64::MIN.to_le_bytes().to_vec()));
    assert_eq!(max, Some(i64::MAX.to_le_bytes().to_vec()));
}

#[test]
fn float_pages_track_min_and_max() {
    let mut page = PageBuilder::new(16, kind(ParquetPhysicalType::Float), descriptor(ParquetPhysicalType::Float)).unwrap();
    for v in [2.5f32, -7.25, f32::NAN, 0.0, 100.0, -0.5] {
        page.push(Value::F32(v.to_bits())).unwrap();
    }
    assert_eq!(page.count(), 6);
    let (min, max) = page.statistics();
    assert_eq!(min, Some((-7.25f32).to_le_bytes().to_vec()));
    assert_eq!(max, Some(100.0f32.to_le_bytes().to_vec()));

    let mut page = PageBuilder::new(16, kind(ParquetPhysicalType::Double), descriptor(ParquetPhysicalType::Double)).unwrap();
    for v in [f64::NAN, -1e300, 3.5, f64::NEG_INFINITY, -0.0] {
        page.push(Value::F64(v.to_bits())).unwrap();
    }
    let (min, max) = page.statistics();
    assert_eq!(min, Some(f64::NEG_INFINITY.to_le_bytes().to_vec()));
    assert_eq!(max, Some(3.5f64.to_le_bytes().to_vec()));
}

#[test]
fn nan_only_float_page_has_no_min_or_max() {
    let mut page = PageBuilder::new(16, kind(ParquetPhysicalType::Double), descriptor(ParquetPhysicalType::Double)).unwrap();
    page.push(Value::F64(f64::NAN.to_bits())).unwrap();
    assert_eq!(page.count(), 1);
    assert_eq!(page.min(), None);
    assert_eq!(page.statistics(), (None, None));
}

#[test]
fn negative_zero_orders_below_positive_zero() {
    let mut page = PageBuilder::new(16, kind(ParquetPhysicalType::Float), descriptor(ParquetPhysicalType::Float)).unwrap();
    page.push(Value::F32(0.0f32.to_bits())).unwrap();
    page.push(Value::F32((-0.0f32).to_bits())).unwrap();
    let (min, max) = page.statistics();
    assert_eq!(min, Some((-0.0f32).to_bits().to_le_bytes().to_vec()));
    assert_eq!(max, Some(0.0f32.to_bits().to_le_bytes().to_vec()));
}

#[test]
fn page_push_refuses_other_type() {
    let mut page = PageBuilder::new(16, kind(ParquetPhysicalType::Int32), descriptor(ParquetPhysicalType::Int32)).unwrap();
    page.push(Value::I32(1)).unwrap();
    let r = page.push(Value::Bytes(b"x"));
    assert!(matches!(r, Err(TableError::TypeMismatch)));
    assert_eq!(page.count(), 1);
    assert_eq!(page.size(), 4);
    assert_eq!(page.min(), Some(1));
}

#[test]
fn finished_page_carries_count() {
    let mut page = PageBuilder::new(16, kind(ParquetPhysicalType::Int32), descriptor(ParquetPhysicalType::Int32)).unwrap();
    for v in 0..10 {
        page.push(Value::I32(v)).unwrap();
    }
    let finished = page.into_page();
    assert_eq!(finished.num_values, 10);
    assert_eq!(finished.buffer.len(), 40);
    assert_eq!(finished.buffer[..4], [0, 0, 0, 0]);
    assert_eq!(finished.encoding, PageEncoding::Plain);
    assert_eq!(finished.definition_level_encoding, PageEncoding::Rle);
    assert_eq!(finished.repetition_level_encoding, PageEncoding::Rle);
    assert_eq!(finished.statistics.null_count, Some(0));
    assert_eq!(finished.statistics.distinct_count, None);
    assert_eq!(finished.statistics.min_value, Some(0i32.to_le_bytes().to_vec()));
    assert_eq!(finished.statistics.max_value, Some(9i32.to_le_bytes().to_vec()));
    match finished.into_parquet() {
        parquet2::page::Page::Data(data) => {
            assert_eq!(data.num_values(), 10);
            assert_eq!(data.buffer().len(), 40);
        }
        _ => panic!("expected a data page"),
    }
}

#[test]
fn finished_byte_array_page_has_no_min_or_max() {
    let t = ParquetPhysicalType::ByteArray;
    let mut page = PageBuilder::new(16, kind(t), descriptor(t)).unwrap();
    page.push(Value::Bytes(b"xy")).unwrap();
    let finished = page.into_page();
    assert_eq!(finished.buffer, vec![2, 0, 0, 0, b'x', b'y']);
    assert_eq!(finished.statistics.min_value, None);
    assert_eq!(finished.statistics.max_value, None);
    assert_eq!(finished.statistics.null_count, Some(0));
}
