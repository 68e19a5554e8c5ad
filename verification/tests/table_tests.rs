use sky_watch::table::{encode_table, sample_records, sample_table};

#[test]
fn sample_table_bytes() {
    assert_eq!(sample_table(), b"1,2,3\nx,y,z\n".to_vec());
    assert_eq!(sample_records().len(), 2);
}

#[test]
fn fields_that_need_it_are_quoted() {
    let records = vec![vec![String::from("a,b"), String::from("say \"hi\"")]];
    assert_eq!(encode_table(&records), b"\"a,b\",\"say \"\"hi\"\"\"\n".to_vec());
}

#[test]
fn lone_empty_field_is_quoted() {
    let records = vec![vec![String::new()], vec![String::from("x")]];
    assert_eq!(encode_table(&records), b"\"\"\nx\n".to_vec());
}

#[test]
fn empty_table_is_empty() {
    assert!(encode_table(&Vec::new()).is_empty());
}
