use parquet2::compression::{BrotliLevel, CompressionOptions};
use parquet2::metadata::SchemaDescriptor;
use parquet2::schema::types::{ParquetType, PhysicalType as ParquetPhysicalType, PrimitiveType};
use parquet2::schema::Repetition;
use parquet2::write::{DynIter, FileWriter, Version, WriteOptions};
use parquet_logger::error::TableError;
use parquet_logger::table::{ColumnSpec, Options, Table};
use parquet_logger::value::{PhysicalType, Value};

fn options(page_size: usize) -> Options {
    Options {
        write_options: WriteOptions {
            write_statistics: true,
            version: Version::V1,
        },
        compression_options: CompressionOptions::Uncompressed,
        page_size,
    }
}

fn required(name: &str, physical_type: ParquetPhysicalType) -> ParquetType {
    let mut field = PrimitiveType::from_physical(name.to_string(), physical_type);
    field.field_info.repetition = Repetition::Required;
    ParquetType::PrimitiveType(field)
}

fn schema(types: &[ParquetPhysicalType]) -> SchemaDescriptor {
    let fields = types
        .iter()
        .enumerate()
        .map(|(i, t)| required(&format!("c{}", i), *t))
        .collect();
    SchemaDescriptor::new("schema".to_string(), fields)
}

fn kind(physical_type: ParquetPhysicalType) -> PhysicalType {
    match physical_type {
        ParquetPhysicalType::Boolean => PhysicalType::Boolean,
        ParquetPhysicalType::Int32 => PhysicalType::Int32,
        ParquetPhysicalType::Int64 => PhysicalType::Int64,
        ParquetPhysicalType::Int96 => PhysicalType::Int96,
        ParquetPhysicalType::Float => PhysicalType::Float,
        ParquetPhysicalType::Double => PhysicalType::Double,
        ParquetPhysicalType::ByteArray => PhysicalType::ByteArray,
        ParquetPhysicalType::FixedLenByteArray(n) => PhysicalType::FixedLenByteArray(n),
    }
}

fn specs(schema: &SchemaDescriptor) -> Vec<ColumnSpec> {
    schema
        .columns()
        .iter()
        .map(|c| ColumnSpec {
            kind: kind(c.descriptor.primitive_type.physical_type),
            descriptor: c.descriptor.clone(),
        })
        .collect()
}

fn int_table(n: usize) -> Table {
    Table::new(specs(&schema(&vec![ParquetPhysicalType::Int32; n])), options(64))
}

#[test]
fn test_write() {
    let options = Options {
        write_options: WriteOptions {
            write_statistics: true,
            version: Version::V1,
        },
        compression_options: CompressionOptions::Brotli(Some(BrotliLevel::try_new(5).unwrap())),
        page_size: 1024,
    };

    let schema = SchemaDescriptor::new(
        "schema".to_string(),
        vec![
            ParquetType::from_physical("a".to_string(), ParquetPhysicalType::Int32),
            ParquetType::from_physical("b".to_string(), ParquetPhysicalType::Int64),
            ParquetType::from_physical("c".to_string(), ParquetPhysicalType::ByteArray),
        ],
    );

    let mut writer = FileWriter::new(vec![], schema.clone(), options.write_options, None);
    let mut table = Table::new(specs(&schema), options);

    for i in 0..1000 {
        table.push(0, Value::I32(i)).expect("push failed");
        table
            .push(1, Value::I64((i * 2).into()))
            .expect("push failed");

        let s = format!("integer_{}", i);
        table
            .push(2, Value::Bytes(s.as_bytes()))
            .expect("push failed");
    }
    let row_group = table.flush().expect("flush failed");
    writer
        .write(DynIter::new(row_group.columns.into_iter().map(|c| Ok(c.into_compressed()))))
        .expect("flush failed");
    writer.end(None).expect("end failed");

    let result = writer.into_inner();
    assert!(!result.is_empty());
    println!("{:?}", result);
}

#[test]
fn end_to_end_file_has_all_rows() {
    let types = [
        ParquetPhysicalType::Int32,
        ParquetPhysicalType::Int64,
        ParquetPhysicalType::ByteArray,
    ];
    let schema = schema(&types);
    let mut options = options(1024);
    options.compression_options =
        CompressionOptions::Brotli(Some(BrotliLevel::try_new(5).unwrap()));
    let mut writer = FileWriter::new(vec![], schema.clone(), options.write_options, None);
    let mut table = Table::new(specs(&schema), options);
    for i in 0..1000i32 {
        let s = format!("integer_{}", i);
        table.push(0, Value::I32(i)).unwrap();
        table.push(1, Value::I64(i as i64 * 2)).unwrap();
        table.push(2, Value::Bytes(s.as_bytes())).unwrap();
    }
    let row_group = table.flush().unwrap();
    assert_eq!(row_group.rows, 1000);
    assert_eq!(row_group.columns.len(), 3);
    for c in 0..3 {
        assert_eq!(table.column_count(c).unwrap(), 0);
    }
    assert_eq!(table.size(), 0);
    writer
        .write(DynIter::new(row_group.columns.into_iter().map(|c| Ok(c.into_compressed()))))
        .unwrap();
    let written = writer.end(None).unwrap();
    assert!(written > 0);

    let bytes = writer.into_inner();
    assert_eq!(bytes.len() as u64, written);
    let metadata = parquet2::read::read_metadata(&mut std::io::Cursor::new(bytes)).unwrap();
    assert_eq!(metadata.num_rows, 1000);
    assert_eq!(metadata.row_groups.len(), 1);
    for column in metadata.row_groups[0].columns() {
        let statistics = column.statistics().unwrap().unwrap();
        assert_eq!(statistics.null_count(), Some(0));
    }
}

#[test]
fn equal_counts_validate() {
    let mut table = int_table(3);
    for i in 0..5 {
        table.push_row(&[Value::I32(i), Value::I32(i), Value::I32(i)]).unwrap();
    }
    assert_eq!(table.validate().unwrap(), 5);
    let row_group = table.flush().unwrap();
    assert_eq!(row_group.rows, 5);
    assert_eq!(table.column_count(1).unwrap(), 0);
}

#[test]
fn unequal_counts_fail_without_drain() {
    let mut table = int_table(3);
    let five: Vec<Value> = (0..5).map(Value::I32).collect();
    let four: Vec<Value> = (0..4).map(Value::I32).collect();
    table.push_column(0, &five).unwrap();
    table.push_column(1, &four).unwrap();
    table.push_column(2, &five).unwrap();
    assert!(matches!(table.validate(), Err(TableError::RowCountMismatch)));
    assert!(matches!(table.flush(), Err(TableError::RowCountMismatch)));
    assert_eq!(table.column_count(0).unwrap(), 5);
    assert_eq!(table.column_count(1).unwrap(), 4);
    assert_eq!(table.column_count(2).unwrap(), 5);
    assert_eq!(table.size(), 14 * 4);
}

#[test]
fn empty_table_has_no_columns() {
    let mut table = Table::new(specs(&schema(&[])), options(64));
    assert_eq!(table.num_columns(), 0);
    assert!(matches!(table.validate(), Err(TableError::NoColumns)));
    assert!(matches!(table.flush(), Err(TableError::NoColumns)));
}

#[test]
fn flush_without_rows_is_a_no_op() {
    let mut table = int_table(2);
    let row_group = table.flush().unwrap();
    assert_eq!(row_group.rows, 0);
    assert!(row_group.columns.is_empty());
}

#[test]
fn push_checks_the_column_number() {
    let mut table = int_table(2);
    assert!(matches!(table.push(2, Value::I32(1)), Err(TableError::IndexOutOfRange)));
    assert!(matches!(table.column_count(2), Err(TableError::IndexOutOfRange)));
    assert!(matches!(
        table.push_column(5, &[Value::I32(1)]),
        Err(TableError::IndexOutOfRange)
    ));
    assert!(table.push_column(5, &[]).is_ok());
    assert_eq!(table.size(), 0);
}

#[test]
fn push_checks_the_value_type() {
    let mut table = Table::new(
        specs(&schema(&[ParquetPhysicalType::Int32, ParquetPhysicalType::ByteArray])),
        options(64),
    );
    assert!(matches!(table.push(0, Value::Bytes(b"x")), Err(TableError::TypeMismatch)));
    assert!(matches!(table.push(1, Value::I32(3)), Err(TableError::TypeMismatch)));
    assert_eq!(table.size(), 0);
    table.push(1, Value::Bytes(b"xyz")).unwrap();
    assert_eq!(table.size(), 7);
}

#[test]
fn push_row_stops_at_the_first_refusal() {
    let mut table = Table::new(
        specs(&schema(&[ParquetPhysicalType::Int32, ParquetPhysicalType::Int64])),
        options(64),
    );
    let r = table.push_row(&[Value::I32(1), Value::I32(2)]);
    assert!(matches!(r, Err(TableError::TypeMismatch)));
    assert_eq!(table.column_count(0).unwrap(), 1);
    assert_eq!(table.column_count(1).unwrap(), 0);

    let r = table.push_row(&[Value::I32(1), Value::I64(2), Value::I64(3)]);
    assert!(matches!(r, Err(TableError::IndexOutOfRange)));
    assert_eq!(table.column_count(0).unwrap(), 2);
    assert_eq!(table.column_count(1).unwrap(), 1);
}

#[test]
fn push_column_stops_at_the_first_refusal() {
    let mut table = int_table(1);
    let r = table.push_column(0, &[Value::I32(1), Value::I32(2), Value::I64(3), Value::I32(4)]);
    assert!(matches!(r, Err(TableError::TypeMismatch)));
    assert_eq!(table.column_count(0).unwrap(), 2);
    assert_eq!(table.size(), 8);
}

#[test]
fn unsupported_schema_column_refuses_pushes() {
    let mut table = Table::new(specs(&schema(&[ParquetPhysicalType::Boolean])), options(64));
    assert!(matches!(table.push(0, Value::I32(1)), Err(TableError::UnsupportedType)));
    assert_eq!(table.validate().unwrap(), 0);
}

#[test]
fn interleaved_row_and_column_pushes_converge() {
    let mut table = int_table(2);
    table.push_column(0, &[Value::I32(1), Value::I32(2)]).unwrap();
    assert!(matches!(table.validate(), Err(TableError::RowCountMismatch)));
    table.push(1, Value::I32(1)).unwrap();
    table.push(1, Value::I32(2)).unwrap();
    table.push_row(&[Value::I32(3), Value::I32(3)]).unwrap();
    assert_eq!(table.validate().unwrap(), 3);
    assert_eq!(table.flush().unwrap().rows, 3);
}

#[test]
fn small_tables_have_room() {
    let mut table = int_table(1);
    table.push(0, Value::I32(1)).unwrap();
    assert!(table.has_room_for(&Value::I32(2)));
    assert!(table.has_room_for(&Value::Bytes(b"abc")));
}

#[test]
fn new_table_takes_a_row_of_its_schema() {
    let schema = schema(&[
        ParquetPhysicalType::Int32,
        ParquetPhysicalType::Int64,
        ParquetPhysicalType::ByteArray,
    ]);
    let mut table = Table::new(specs(&schema), options(1024));
    assert_eq!(table.num_columns(), 3);
    table.push_row(&[Value::I32(1), Value::I64(2), Value::Bytes(b"x")]).unwrap();
    for c in 0..3 {
        assert_eq!(table.column_count(c).unwrap(), 1);
    }
    assert_eq!(table.validate().unwrap(), 1);
    assert_eq!(table.size(), 17);
    assert!(table.has_room_for_all(&[Value::I32(3), Value::I64(4)]));
}

#[test]
fn flush_hands_out_each_column_drained() {
    let mut table = int_table(2);
    table.push_column(0, &[Value::I32(1), Value::I32(2)]).unwrap();
    table.push_column(1, &[Value::I32(7), Value::I32(8)]).unwrap();
    let row_group = table.flush().unwrap();
    assert_eq!(row_group.columns.len(), 2);
    assert_eq!(row_group.columns[0].pages[0].buffer, vec![1, 0, 0, 0, 2, 0, 0, 0]);
    assert_eq!(row_group.columns[1].pages[0].buffer, vec![7, 0, 0, 0, 8, 0, 0, 0]);
}
