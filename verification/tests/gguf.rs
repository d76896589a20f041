use bizclaw::gguf::{
    read_i32, read_string, read_u16, read_u32, read_u64, read_u8, read_value, GgmlType,
    GgufError, GgufFile, GgufValue, TensorInfo,
};

fn put_u32(b: &mut Vec<u8>, v: u32) {
    b.extend_from_slice(&v.to_le_bytes());
}
fn put_u64(b: &mut Vec<u8>, v: u64) {
    b.extend_from_slice(&v.to_le_bytes());
}
fn put_str(b: &mut Vec<u8>, s: &str) {
    put_u64(b, s.len() as u64);
    b.extend_from_slice(s.as_bytes());
}

fn header(tensors: u64, kvs: u64) -> Vec<u8> {
    let mut b = b"GGUF".to_vec();
    put_u32(&mut b, 3);
    put_u64(&mut b, tensors);
    put_u64(&mut b, kvs);
    b
}

#[test]
fn little_endian_reads() {
    let b = [1u8, 2, 3, 4, 5, 6, 7, 8, 0xff, 0xff, 0xff, 0xff];
    assert_eq!(read_u8(&b, 0), Ok((1, 1)));
    assert_eq!(read_u16(&b, 0), Ok((0x0201, 2)));
    assert_eq!(read_u32(&b, 0), Ok((0x04030201, 4)));
    assert_eq!(read_u64(&b, 0), Ok((0x0807060504030201, 8)));
    assert_eq!(read_i32(&b, 8), Ok((-1, 12)));
    assert_eq!(read_u32(&b, 10), Err(GgufError::UnexpectedEof));
}

#[test]
fn strings_and_values() {
    let mut b = Vec::new();
    put_str(&mut b, "héllo");
    assert_eq!(read_string(&b, 0).unwrap(), ("héllo".to_string(), 14));
    let mut bad = Vec::new();
    put_u64(&mut bad, 2);
    bad.extend_from_slice(&[0xc3, 0x28]);
    assert_eq!(read_string(&bad, 0).unwrap_err(), GgufError::InvalidUtf8);
    let mut long = Vec::new();
    put_u64(&mut long, 1048577);
    assert_eq!(read_string(&long, 0).unwrap_err(), GgufError::StringTooLong(1048577));
    let mut v = Vec::new();
    put_u32(&mut v, 4);
    put_u32(&mut v, 77);
    let (val, end) = read_value(&v, 0).unwrap();
    assert_eq!(end, 8);
    assert_eq!(val.as_u32(), Some(77));
    let mut u = Vec::new();
    put_u32(&mut u, 99);
    assert_eq!(read_value(&u, 0).unwrap_err(), GgufError::UnknownValueType(99));
}

#[test]
fn ggml_types() {
    assert_eq!(GgmlType::from_u32(0), Ok(GgmlType::F32));
    assert_eq!(GgmlType::from_u32(12), Ok(GgmlType::Q4K));
    assert_eq!(GgmlType::from_u32(4), Err(GgufError::UnknownGgmlType(4)));
    assert_eq!(GgmlType::Q4_0.block_size(), 32);
    assert_eq!(GgmlType::Q4_0.type_size(), 18);
    assert_eq!(GgmlType::Q6K.block_size(), 256);
    assert_eq!(GgmlType::F16.type_size(), 2);
}

#[test]
fn tensor_sizes() {
    let t = TensorInfo { name: "w".into(), n_dims: 2, dims: vec![64, 10], ggml_type: GgmlType::Q4_0, offset: 0 };
    assert_eq!(t.n_elements(), 640);
    assert_eq!(t.size_bytes(), 20 * 18);
    let f = TensorInfo { name: "b".into(), n_dims: 1, dims: vec![3], ggml_type: GgmlType::F32, offset: 0 };
    assert_eq!(f.size_bytes(), 12);
    let odd = TensorInfo { name: "o".into(), n_dims: 1, dims: vec![33], ggml_type: GgmlType::Q8_0, offset: 0 };
    assert_eq!(odd.size_bytes(), 2 * 34);
}

#[test]
fn parse_small_file() {
    let mut b = header(1, 2);
    put_str(&mut b, "general.architecture");
    put_u32(&mut b, 8);
    put_str(&mut b, "llama");
    put_str(&mut b, "llama.context_length");
    put_u32(&mut b, 4);
    put_u32(&mut b, 2048);
    put_str(&mut b, "tok");
    put_u32(&mut b, 2);
    put_u64(&mut b, 4);
    put_u64(&mut b, 8);
    put_u32(&mut b, 0);
    put_u64(&mut b, 0);
    let end = b.len() as u64;
    let f = GgufFile::try_parse(&b).unwrap();
    assert_eq!(f.version, 3);
    assert_eq!(f.architecture(), Some("llama"));
    assert_eq!(f.get_u32("llama.context_length"), Some(2048));
    assert!(f.get("missing").is_none());
    assert_eq!(f.model_name(), None);
    assert_eq!(f.tensors.len(), 1);
    assert_eq!(f.tensors[0].dims, vec![4, 8]);
    assert_eq!(f.alignment, 32);
    assert_eq!(f.data_offset, (end + 31) / 32 * 32);
    assert_eq!(f.data_offset % f.alignment, 0);
}

#[test]
fn parse_errors() {
    let mut b = b"GGML".to_vec();
    put_u32(&mut b, 3);
    put_u64(&mut b, 0);
    put_u64(&mut b, 0);
    assert!(matches!(GgufFile::try_parse(&b), Err(GgufError::InvalidMagic(_))));
    let mut v = b"GGUF".to_vec();
    put_u32(&mut v, 2);
    put_u64(&mut v, 0);
    put_u64(&mut v, 0);
    assert_eq!(GgufFile::try_parse(&v).unwrap_err(), GgufError::UnsupportedVersion(2));
    let mut z = header(0, 1);
    put_str(&mut z, "general.alignment");
    put_u32(&mut z, 4);
    put_u32(&mut z, 0);
    assert_eq!(GgufFile::try_parse(&z).unwrap_err(), GgufError::BadAlignment(0));
    assert_eq!(GgufFile::try_parse(b"GG").unwrap_err(), GgufError::UnexpectedEof);
}

#[test]
fn custom_alignment_and_last_key_wins() {
    let mut b = header(0, 2);
    put_str(&mut b, "general.alignment");
    put_u32(&mut b, 4);
    put_u32(&mut b, 16);
    put_str(&mut b, "general.alignment");
    put_u32(&mut b, 4);
    put_u32(&mut b, 64);
    let f = GgufFile::parse(&b).unwrap();
    assert_eq!(f.alignment, 64);
    assert_eq!(f.data_offset, 128);
    match f.get("general.alignment") {
        Some(GgufValue::U32(x)) => assert_eq!(*x, 64),
        _ => panic!("alignment missing"),
    }
}

#[test]
fn error_messages() {
    assert_eq!(GgufError::InvalidMagic(0x0000_BEEF).message(), "Invalid GGUF magic: 0x0000BEEF (expected 0x46554747)");
    assert_eq!(GgufError::InvalidMagic(0x46554746).message(), "Invalid GGUF magic: 0x46554746 (expected 0x46554747)");
    assert_eq!(GgufError::UnsupportedVersion(2).message(), "Unsupported GGUF version: 2 (expected 3)");
    assert_eq!(GgufError::UnknownGgmlType(99).message(), "Unknown GGML type: 99");
    assert_eq!(GgufError::StringTooLong(2000000).message(), "String too long: 2000000");
    assert_eq!(GgufError::ArrayTooLarge(10000001).message(), "Array too large: 10000001");
    assert_eq!(GgufError::UnknownArrayElementType(9).message(), "Unknown array element type: 9");
    assert_eq!(GgufError::UnknownValueType(13).message(), "Unknown value type: 13");
    assert_eq!(GgufError::UnexpectedEof.message(), "failed to fill whole buffer");
    assert_eq!(GgufError::BadAlignment(0).message(), "Invalid alignment: 0");
    assert_eq!(GgufError::InvalidUtf8.message(), "invalid utf-8 sequence");
}
