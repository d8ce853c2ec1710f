use wg_element::codec::{ByteReader, ElementError};
use wg_element::element::ElementLength;

#[test]
fn variable16_write_is_little_endian() {
    let mut out = Vec::new();
    assert_eq!(ElementLength::Variable16.write(&mut out, 0x1234), Ok(true));
    assert_eq!(out, vec![0x34, 0x12]);
}

#[test]
fn variable24_write_then_read() {
    let mut out = Vec::new();
    assert_eq!(ElementLength::Variable24.write(&mut out, 0x123456), Ok(true));
    assert_eq!(out, vec![0x56, 0x34, 0x12]);
    out.push(0xAB);
    let mut reader = ByteReader::new(&out);
    assert_eq!(ElementLength::Variable24.read(&mut reader), Ok(Some(0x123456)));
    assert_eq!(reader.remaining(), 1);
}

#[test]
fn variable8_oversize_writes_ones_and_reads_none() {
    let mut out = Vec::new();
    assert_eq!(ElementLength::Variable8.write(&mut out, 300), Ok(false));
    assert_eq!(out, vec![0xFF]);
    let mut reader = ByteReader::new(&out);
    assert_eq!(ElementLength::Variable8.read(&mut reader), Ok(None));
    assert_eq!(reader.remaining(), 0);
}

#[test]
fn variable8_largest_fitting_length() {
    let mut out = Vec::new();
    assert_eq!(ElementLength::Variable8.write(&mut out, 0xFE), Ok(true));
    assert_eq!(out, vec![0xFE]);
    let mut out = Vec::new();
    assert_eq!(ElementLength::Variable8.write(&mut out, 0xFF), Ok(false));
    assert_eq!(out, vec![0xFF]);
}

#[test]
fn variable16_oversize() {
    let mut out = Vec::new();
    assert_eq!(ElementLength::Variable16.write(&mut out, 0x1_0000), Ok(false));
    assert_eq!(out, vec![0xFF, 0xFF]);
    let mut reader = ByteReader::new(&out);
    assert_eq!(ElementLength::Variable16.read(&mut reader), Ok(None));
}

#[test]
fn variable32_never_oversized() {
    let mut out = Vec::new();
    assert_eq!(ElementLength::Variable32.write(&mut out, u32::MAX), Ok(true));
    assert_eq!(out, vec![0xFF, 0xFF, 0xFF, 0xFF]);
    let mut reader = ByteReader::new(&out);
    assert_eq!(ElementLength::Variable32.read(&mut reader), Ok(Some(u32::MAX)));
}

#[test]
fn fixed_length_writes_and_reads_nothing() {
    let mut out = vec![7u8];
    assert_eq!(ElementLength::Fixed(5).write(&mut out, 5), Ok(true));
    assert_eq!(out, vec![7]);
    let mut reader = ByteReader::new(&out);
    assert_eq!(ElementLength::Fixed(5).read(&mut reader), Ok(Some(5)));
    assert_eq!(reader.remaining(), 1);
}

#[test]
fn undefined_length_reads_max() {
    let data = [1u8, 2];
    let mut reader = ByteReader::new(&data);
    assert_eq!(ElementLength::Undefined.read(&mut reader), Ok(Some(u32::MAX)));
    assert_eq!(reader.remaining(), 2);
    let mut out = Vec::new();
    assert_eq!(ElementLength::Undefined.write(&mut out, 12), Ok(true));
    assert!(out.is_empty());
}

#[test]
fn truncated_length_is_an_error() {
    let data = [1u8];
    let mut reader = ByteReader::new(&data);
    assert_eq!(ElementLength::Variable16.read(&mut reader), Err(ElementError::UnexpectedEof));
    assert_eq!(reader.remaining(), 1);
}

#[test]
fn length_sizes() {
    assert_eq!(ElementLength::Fixed(9).len(), 0);
    assert_eq!(ElementLength::Variable8.len(), 1);
    assert_eq!(ElementLength::Variable16.len(), 2);
    assert_eq!(ElementLength::Variable24.len(), 3);
    assert_eq!(ElementLength::Variable32.len(), 4);
    assert_eq!(ElementLength::Undefined.len(), 0);
    assert_eq!(ElementLength::zero(), ElementLength::Fixed(0));
}

#[test]
fn read_then_write_gives_back_the_bytes() {
    let data = [0x10u8, 0x20];
    let mut reader = ByteReader::new(&data);
    let len = ElementLength::Variable16.read(&mut reader).unwrap().unwrap();
    assert_eq!(len, 0x2010);
    let mut out = Vec::new();
    ElementLength::Variable16.write(&mut out, len).unwrap();
    assert_eq!(out, data.to_vec());
}
