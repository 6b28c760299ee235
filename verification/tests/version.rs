use rain_vm::version::{version_map, BYTE_VERSION};

#[test]
fn test_byte_version_is_one() {
    assert_eq!(BYTE_VERSION, 1);
}

#[test]
fn test_version_map_supports_exactly_version_one() {
    let m = version_map();
    assert_eq!(m.len(), 1);
    assert_eq!(m.get(&1), Some(&"0.1.0".to_string()));
    assert_eq!(m.get(&2), None);
}
