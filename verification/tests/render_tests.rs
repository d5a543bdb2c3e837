use windows_registry_searcher::{alt_reg_value_to_string, RegType, RegValue};

fn render(vtype: RegType, bytes: Vec<u8>) -> String {
    alt_reg_value_to_string(RegValue { vtype, bytes })
}

#[test]
fn sz_decodes_utf8() {
    assert_eq!(render(RegType::RegSz, b"hello".to_vec()), "hello");
    assert_eq!(render(RegType::RegExpandSz, b"%PATH%".to_vec()), "%PATH%");
}

#[test]
fn sz_replaces_invalid_utf8() {
    assert_eq!(render(RegType::RegSz, vec![0xFF]), "\u{FFFD}");
}

#[test]
fn binary_renders_its_length() {
    assert_eq!(render(RegType::RegBinary, vec![1, 2, 3]), "BIN_LENGTH: 3");
    assert_eq!(render(RegType::RegBinary, Vec::new()), "BIN_LENGTH: 0");
}

#[test]
fn dword_is_little_endian_decimal() {
    assert_eq!(render(RegType::RegDword, vec![0x2A, 0x00, 0x00, 0x00]), "42");
    assert_eq!(render(RegType::RegDword, vec![0xFF, 0xFF, 0xFF, 0xFF]), "4294967295");
}

#[test]
fn dword_big_endian_is_big_endian_decimal() {
    assert_eq!(render(RegType::RegDwordBigEndian, vec![0x00, 0x00, 0x00, 0x2A]), "42");
    assert_eq!(render(RegType::RegDwordBigEndian, vec![0x00, 0x00, 0x01, 0x00]), "256");
}

#[test]
fn qword_is_little_endian_decimal() {
    assert_eq!(render(RegType::RegQword, vec![1, 0, 0, 0, 0, 0, 0, 0]), "1");
    assert_eq!(
        render(RegType::RegQword, vec![0xFF, 0xFF, 0xFF, 0xFF, 0xFF, 0xFF, 0xFF, 0xFF]),
        "18446744073709551615"
    );
}

#[test]
fn malformed_numeric_blobs_render_invalid() {
    assert_eq!(render(RegType::RegDword, vec![1, 2]), "Invalid REG_DWORD");
    assert_eq!(render(RegType::RegDwordBigEndian, vec![1]), "Invalid REG_DWORD_BIG_ENDIAN");
    assert_eq!(render(RegType::RegQword, vec![1, 2, 3, 4]), "Invalid REG_QWORD");
}

#[test]
fn multi_sz_splits_on_nul_and_joins() {
    assert_eq!(render(RegType::RegMultiSz, b"a\0b\0c\0".to_vec()), "a, b, c");
    assert_eq!(render(RegType::RegResourceList, b"x\0y".to_vec()), "x, y");
}

#[test]
fn multi_sz_keeps_interior_empty_segments() {
    assert_eq!(render(RegType::RegMultiSz, b"a\0\0b\0".to_vec()), "a, , b");
    assert_eq!(render(RegType::RegMultiSz, Vec::new()), "");
}

#[test]
fn link_kinds_render_the_platform_default_byte_list() {
    assert_eq!(render(RegType::RegLink, vec![1, 2, 3]), "[1, 2, 3]");
    assert_eq!(render(RegType::RegFullResourceDescriptor, Vec::new()), "[]");
    assert_eq!(render(RegType::RegResourceRequirementsList, vec![0]), "[0]");
}

#[test]
fn none_renders_none() {
    assert_eq!(render(RegType::RegNone, vec![1, 2]), "None");
}

#[test]
fn kind_names_are_canonical() {
    assert_eq!(RegType::RegSz.name(), "REG_SZ");
    assert_eq!(RegType::RegDword.name(), "REG_DWORD");
    assert_eq!(RegType::RegQword.name(), "REG_QWORD");
    assert_eq!(RegType::RegMultiSz.name(), "REG_MULTI_SZ");
}
