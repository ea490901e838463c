use thunder::snapshot::decode_function_bytecode_cache;

fn envelope(magic: [u8; 8], version: u32) -> Vec<u8> {
    let entries: Vec<(String, Vec<u8>)> = vec![("file:///main.ts".to_string(), vec![1, 2, 3])];
    bincode::serialize(&(magic, version, entries)).unwrap()
}

#[test]
fn decodes_version_one_envelope() {
    let got = decode_function_bytecode_cache(&envelope(*b"TBCCACHE", 1)).expect("decoded");
    assert_eq!(got, vec![("file:///main.ts".to_string(), vec![1, 2, 3])]);
}

#[test]
fn rejects_wrong_magic_version_or_garbage() {
    assert!(decode_function_bytecode_cache(&envelope(*b"XBCCACHE", 1)).is_none());
    assert!(decode_function_bytecode_cache(&envelope(*b"TBCCACHE", 2)).is_none());
    assert!(decode_function_bytecode_cache(&[1, 2, 3]).is_none());
}
