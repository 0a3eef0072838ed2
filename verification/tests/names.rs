use codeplug::bytes::{get_u16, get_u32, pad_to, put_bytes, put_u16, put_u32};
use codeplug::cp_data::{load_name, store_name};
use codeplug::error::CodecError;

fn name_field(units: &[u16]) -> Vec<u8> {
    let mut b = Vec::new();
    for i in 0..16 {
        let u = if i < units.len() { units[i] } else { 0 };
        b.push((u & 0xff) as u8);
        b.push((u >> 8) as u8);
    }
    b
}

#[test]
fn little_endian_reads() {
    let b = [0x34u8, 0x12, 0x78, 0x56, 0xbc, 0x9a];
    assert_eq!(get_u16(&b, 0), 0x1234);
    assert_eq!(get_u16(&b, 1), 0x7812);
    assert_eq!(get_u32(&b, 0), 0x5678_1234);
    assert_eq!(get_u32(&b, 2), 0x9abc_5678);
}

#[test]
fn little_endian_writes() {
    let mut out = vec![0xaau8];
    put_u16(&mut out, 0x1234);
    put_u32(&mut out, 0xdead_beef);
    assert_eq!(out, vec![0xaa, 0x34, 0x12, 0xef, 0xbe, 0xad, 0xde]);
}

#[test]
fn little_endian_round_trip() {
    for n in [0u16, 1, 0xff, 0x100, 0x1234, 0xfffe, 0xffff] {
        let mut out = Vec::new();
        put_u16(&mut out, n);
        assert_eq!(out.len(), 2);
        assert_eq!(get_u16(&out, 0), n);
    }
    for n in [0u32, 1, 0xffff, 0x1_0000, 0x1234_5678, 0xffff_ffff] {
        let mut out = Vec::new();
        put_u32(&mut out, n);
        assert_eq!(out.len(), 4);
        assert_eq!(get_u32(&out, 0), n);
    }
}

#[test]
fn append_and_pad() {
    let mut out = vec![1u8, 2];
    put_bytes(&mut out, &[3, 4, 5]);
    assert_eq!(out, vec![1, 2, 3, 4, 5]);
    pad_to(&mut out, 8);
    assert_eq!(out, vec![1, 2, 3, 4, 5, 0, 0, 0]);
    pad_to(&mut out, 4);
    assert_eq!(out, vec![1, 2, 3, 4, 5, 0, 0, 0]);
}

#[test]
fn name_encodes_as_utf16_with_zero_fill() {
    let mut out = Vec::new();
    store_name(&"Hi".to_string(), &mut out).unwrap();
    assert_eq!(out, name_field(&[0x48, 0x69]));
    assert_eq!(out.len(), 32);
}

#[test]
fn name_decodes_up_to_first_zero() {
    let b = name_field(&[0x41, 0x42, 0, 0x43]);
    assert_eq!(load_name(&b).unwrap(), "AB");
    let full: Vec<u16> = "ABCDEFGHIJKLMNOP".encode_utf16().collect();
    assert_eq!(load_name(&name_field(&full)).unwrap(), "ABCDEFGHIJKLMNOP");
    assert_eq!(load_name(&name_field(&[])).unwrap(), "");
}

#[test]
fn name_outside_the_basic_plane() {
    let name = "a\u{1F600}\u{e9}".to_string();
    let mut out = Vec::new();
    store_name(&name, &mut out).unwrap();
    assert_eq!(out, name_field(&[0x61, 0xD83D, 0xDE00, 0xe9]));
    assert_eq!(load_name(&out).unwrap(), name);
}

#[test]
fn name_counts_code_units_not_characters() {
    let eight = "\u{1F600}".repeat(8);
    let mut out = Vec::new();
    store_name(&eight, &mut out).unwrap();
    assert_eq!(load_name(&out).unwrap(), eight);
    let nine = "\u{1F600}".repeat(8) + "a";
    let mut out = vec![1u8];
    assert_eq!(store_name(&nine, &mut out), Err(CodecError::NameTooLong));
    assert_eq!(out, vec![1u8]);
}

#[test]
fn name_with_a_lone_surrogate_is_refused() {
    assert_eq!(load_name(&name_field(&[0x41, 0xD800, 0x42])), Err(CodecError::InvalidName));
    assert_eq!(load_name(&name_field(&[0xDC00])), Err(CodecError::InvalidName));
    assert_eq!(load_name(&name_field(&[0xD83D, 0])), Err(CodecError::InvalidName));
}

#[test]
fn name_needs_thirty_two_bytes() {
    assert_eq!(load_name(&[0u8; 31]), Err(CodecError::UnexpectedEof));
    assert_eq!(load_name(&[0u8; 32]).unwrap(), "");
}
