use parquet_logger::bloom::parquet2_1337_bloom_filter_contains;

#[test]
fn bloom_filter_holds_its_value() {
    assert!(parquet2_1337_bloom_filter_contains(1337));
}

#[test]
fn bloom_filter_rejects_most_other_values() {
    let hits = (0..1000i64).filter(|x| parquet2_1337_bloom_filter_contains(*x)).count();
    assert!(hits < 100);
}
