use rust_engine::assets::{encode_index, get_asset, pack_assets, parse_asset_index, AssetEntry, AssetError, AssetFile};

fn file(name: &str, contents: &[u8]) -> AssetFile {
    AssetFile { name: name.as_bytes().to_vec(), contents: contents.to_vec() }
}

#[test]
fn index_bytes_exact() {
    let entries = vec![AssetEntry { name: b"ab".to_vec(), size: 3, offset: 258 }];
    let bytes = encode_index(&entries);
    let mut expected = vec![1, 0, 0, 0, 0, 0, 0, 0];
    expected.extend_from_slice(&[3, 0, 0, 0, 0, 0, 0, 0]);
    expected.extend_from_slice(&[2, 1, 0, 0, 0, 0, 0, 0]);
    expected.extend_from_slice(&[2, 0, 0, 0, 0, 0, 0, 0]);
    expected.extend_from_slice(b"ab");
    assert_eq!(bytes, expected);
}

#[test]
fn empty_index() {
    assert_eq!(encode_index(&vec![]), vec![0u8; 8]);
    let parsed = parse_asset_index(&[0u8; 8]).unwrap();
    assert!(parsed.is_empty());
}

#[test]
fn index_parses_back() {
    let entries = vec![
        AssetEntry { name: b"./res/basic.vs".to_vec(), size: 10, offset: 0 },
        AssetEntry { name: b"./res/basic.fs".to_vec(), size: 20, offset: 10 },
    ];
    let mut bytes = encode_index(&entries);
    bytes.extend_from_slice(b"trailing");
    let parsed = parse_asset_index(&bytes).unwrap();
    assert_eq!(parsed.len(), 2);
    assert_eq!(parsed[1].name, b"./res/basic.fs".to_vec());
    assert_eq!((parsed[1].size, parsed[1].offset), (20, 10));
}

#[test]
fn pack_then_load_each_file() {
    let files = vec![file("./res/a.txt", b"alpha"), file("./res/b.txt", b""), file("./res/c.txt", b"gamma!")];
    let (index, data) = pack_assets(&files);
    assert_eq!(data, b"alphagamma!".to_vec());
    assert_eq!(get_asset(&index, &data, "./res/a.txt"), Ok(b"alpha".to_vec()));
    assert_eq!(get_asset(&index, &data, "./res/b.txt"), Ok(vec![]));
    assert_eq!(get_asset(&index, &data, "./res/c.txt"), Ok(b"gamma!".to_vec()));
}

#[test]
fn first_of_equal_names_wins() {
    let files = vec![file("dup", b"one"), file("dup", b"two")];
    let (index, data) = pack_assets(&files);
    assert_eq!(get_asset(&index, &data, "dup"), Ok(b"one".to_vec()));
}

#[test]
fn missing_asset_is_not_found() {
    let (index, data) = pack_assets(&vec![file("./res/a.txt", b"alpha")]);
    assert_eq!(get_asset(&index, &data, "./res/missing.txt"), Err(AssetError::NotFound));
    assert_eq!(get_asset(&index, &data, "res/a.txt"), Err(AssetError::NotFound));
}

#[test]
fn malformed_index_is_reported() {
    assert_eq!(get_asset(&[1, 0, 0], &[], "x"), Err(AssetError::MalformedIndex));
    let mut bytes = encode_index(&vec![AssetEntry { name: b"abc".to_vec(), size: 1, offset: 0 }]);
    bytes.pop();
    assert_eq!(get_asset(&bytes, &[0], "abc"), Err(AssetError::MalformedIndex));
    assert!(parse_asset_index(&bytes).is_none());
    let count_too_big = [5u8, 0, 0, 0, 0, 0, 0, 0];
    assert_eq!(get_asset(&count_too_big, &[], "x"), Err(AssetError::MalformedIndex));
}

#[test]
fn asset_past_blob_end_is_out_of_range() {
    let index = encode_index(&vec![AssetEntry { name: b"big".to_vec(), size: 4, offset: 2 }]);
    assert_eq!(get_asset(&index, b"12345", "big"), Err(AssetError::OutOfRange));
    assert_eq!(get_asset(&index, b"123456", "big"), Ok(b"3456".to_vec()));
    let huge = encode_index(&vec![AssetEntry { name: b"h".to_vec(), size: u64::MAX, offset: u64::MAX }]);
    assert_eq!(get_asset(&huge, b"1", "h"), Err(AssetError::OutOfRange));
}
