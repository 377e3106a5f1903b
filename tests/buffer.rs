use chaudloader_buffer::{Buffer, BufferError};

#[test]
fn from_string_to_string_round_trip() {
    for payload in [&b""[..], &b"abc"[..], &[0u8, 255, 7, 128][..]] {
        let b = Buffer::from_string(payload);
        assert_eq!(b.to_string(), payload.to_vec());
        assert_eq!(b.len(), payload.len());
    }
}

#[test]
fn new_and_as_slice() {
    let b = Buffer::new(vec![1, 2, 3]);
    assert_eq!(b.as_slice(), &[1, 2, 3]);
}

#[test]
fn filled_sets_every_byte() {
    let b = Buffer::filled(0xab, 5);
    assert_eq!(b.len(), 5);
    assert_eq!(b.to_string(), vec![0xab; 5]);
}

#[test]
fn filled_empty() {
    let b = Buffer::filled(9, 0);
    assert_eq!(b.len(), 0);
    assert_eq!(b.to_string(), Vec::<u8>::new());
}

#[test]
fn concat_appends() {
    let a = Buffer::from_string(b"ab");
    let b = Buffer::from_string(b"xyz");
    let c = a.concat(&b);
    assert_eq!(c.len(), 5);
    assert_eq!(c.to_string(), b"abxyz".to_vec());
    assert_eq!(a.to_string(), b"ab".to_vec());
    assert_eq!(b.to_string(), b"xyz".to_vec());
}

#[test]
fn concat_with_empty() {
    let a = Buffer::from_string(b"ab");
    let e = Buffer::filled(0, 0);
    assert_eq!(a.concat(&e).to_string(), b"ab".to_vec());
    assert_eq!(e.concat(&a).to_string(), b"ab".to_vec());
}

#[test]
fn clone_is_equal_and_independent() {
    let a = Buffer::from_string(b"abc");
    let mut c = a.clone();
    assert!(a.equals(&c));
    assert!(a == c);
    c.set_u8(0, b'z').unwrap();
    assert_eq!(a.to_string(), b"abc".to_vec());
    assert_eq!(c.to_string(), b"zbc".to_vec());
    assert!(!a.equals(&c));
}

#[test]
fn equals_compares_length_and_content() {
    let a = Buffer::from_string(b"abc");
    assert!(a.equals(&Buffer::from_string(b"abc")));
    assert!(!a.equals(&Buffer::from_string(b"ab")));
    assert!(!a.equals(&Buffer::from_string(b"abd")));
    assert!(a != Buffer::from_string(b"abcd"));
}

#[test]
fn string_scenario() {
    let mut b = Buffer::from_string(b"abc");
    assert_eq!(b.get_string(1, 2), Ok(b"bc".to_vec()));
    assert_eq!(b.set_string(0, b"X"), Ok(()));
    assert_eq!(b.to_string(), b"Xbc".to_vec());
}

#[test]
fn get_string_out_of_bounds() {
    let b = Buffer::from_string(b"abc");
    assert_eq!(b.get_string(2, 2), Err(BufferError::OutOfBounds));
    assert_eq!(b.get_string(4, 0), Err(BufferError::OutOfBounds));
    assert_eq!(b.get_string(1, usize::MAX), Err(BufferError::OutOfBounds));
    assert_eq!(b.get_string(usize::MAX, 2), Err(BufferError::OutOfBounds));
}

#[test]
fn set_string_out_of_bounds_leaves_buffer() {
    let mut b = Buffer::from_string(b"abc");
    assert_eq!(b.set_string(2, b"XY"), Err(BufferError::OutOfBounds));
    assert_eq!(b.to_string(), b"abc".to_vec());
    assert_eq!(b.set_string(3, b""), Ok(()));
    assert_eq!(b.set_string(1, b"XY"), Ok(()));
    assert_eq!(b.to_string(), b"aXY".to_vec());
}

#[test]
fn get_range() {
    let b = Buffer::from_string(&[1, 2, 3, 4]);
    assert_eq!(b.get(1, 2), Ok(vec![2, 3]));
    assert_eq!(b.get(0, 4), Ok(vec![1, 2, 3, 4]));
    assert_eq!(b.get(3, 2), Err(BufferError::OutOfBounds));
}

#[test]
fn get_empty_range() {
    let b = Buffer::from_string(&[1, 2, 3]);
    for offset in 0..=3 {
        assert_eq!(b.get(offset, 0), Ok(vec![]));
    }
    assert_eq!(b.get(4, 0), Err(BufferError::OutOfBounds));
}

#[test]
fn set_from_buffer() {
    let mut b = Buffer::filled(0, 4);
    let src = Buffer::from_string(&[7, 8]);
    assert_eq!(b.set(2, &src), Ok(()));
    assert_eq!(b.to_string(), vec![0, 0, 7, 8]);
    assert_eq!(b.set(3, &src), Err(BufferError::OutOfBounds));
    assert_eq!(b.to_string(), vec![0, 0, 7, 8]);
    assert_eq!(src.to_string(), vec![7, 8]);
}

#[test]
fn u16_scenario() {
    let mut b = Buffer::filled(0, 4);
    assert_eq!(b.set_u16_le(1, 0x1234), Ok(()));
    assert_eq!(b.to_string(), vec![0x00, 0x34, 0x12, 0x00]);
    assert_eq!(b.get_u16_le(1), Ok(0x1234));
    assert_eq!(b.get_u16_le(3), Err(BufferError::OutOfBounds));
}

#[test]
fn i8_scenario() {
    let mut b = Buffer::filled(0, 2);
    assert_eq!(b.set_i8(0, -1), Ok(()));
    assert_eq!(b.get_u8(0), Ok(255));
    assert_eq!(b.get_i8(0), Ok(-1));
}

#[test]
fn u32_little_endian_layout() {
    let mut b = Buffer::filled(0, 6);
    assert_eq!(b.set_u32_le(1, 0x1234_5678), Ok(()));
    assert_eq!(b.to_string(), vec![0, 0x78, 0x56, 0x34, 0x12, 0]);
    assert_eq!(b.get_u32_le(1), Ok(0x1234_5678));
    assert_eq!(b.get_u32_le(0), Ok(0x3456_7800));
}

#[test]
fn u16_reads_stored_bytes() {
    let b = Buffer::from_string(&[0xcd, 0xab, 0xff]);
    assert_eq!(b.get_u16_le(0), Ok(0xabcd));
    assert_eq!(b.get_i16_le(1), Ok(-85));
}

#[test]
fn get_u32_boundary() {
    for len in 0..8usize {
        let b = Buffer::filled(1, len);
        for offset in 0..10usize {
            let r = b.get_u32_le(offset);
            if offset + 4 > len {
                assert_eq!(r, Err(BufferError::OutOfBounds));
            } else {
                assert_eq!(r, Ok(0x0101_0101));
            }
        }
    }
    assert_eq!(Buffer::filled(0, 8).get_u32_le(usize::MAX), Err(BufferError::OutOfBounds));
}

#[test]
fn scalar_round_trips() {
    let mut b = Buffer::filled(0x55, 7);
    for offset in 0..=3usize {
        for v in [0u8, 1, 127, 128, 255] {
            b.set_u8(offset, v).unwrap();
            assert_eq!(b.get_u8(offset), Ok(v));
        }
        for v in [i8::MIN, -1, 0, 1, i8::MAX] {
            b.set_i8(offset, v).unwrap();
            assert_eq!(b.get_i8(offset), Ok(v));
        }
        for v in [0u16, 1, 0x8000, 0xbeef, u16::MAX] {
            b.set_u16_le(offset, v).unwrap();
            assert_eq!(b.get_u16_le(offset), Ok(v));
        }
        for v in [i16::MIN, -2, 0, 300, i16::MAX] {
            b.set_i16_le(offset, v).unwrap();
            assert_eq!(b.get_i16_le(offset), Ok(v));
        }
        for v in [0u32, 1, 0x8000_0000, 0xdead_beef, u32::MAX] {
            b.set_u32_le(offset, v).unwrap();
            assert_eq!(b.get_u32_le(offset), Ok(v));
        }
        for v in [i32::MIN, -70000, 0, 70000, i32::MAX] {
            b.set_i32_le(offset, v).unwrap();
            assert_eq!(b.get_i32_le(offset), Ok(v));
        }
    }
    assert_eq!(b.len(), 7);
}

#[test]
fn signed_writes_use_twos_complement() {
    let mut b = Buffer::filled(0, 4);
    b.set_i16_le(0, -2).unwrap();
    assert_eq!(b.to_string(), vec![0xfe, 0xff, 0, 0]);
    b.set_i32_le(0, -2).unwrap();
    assert_eq!(b.to_string(), vec![0xfe, 0xff, 0xff, 0xff]);
    assert_eq!(b.get_u32_le(0), Ok(0xffff_fffe));
    assert_eq!(b.get_i32_le(0), Ok(-2));
}

#[test]
fn scalar_writes_out_of_bounds_leave_buffer() {
    let mut b = Buffer::from_string(&[1, 2, 3]);
    assert_eq!(b.set_u8(3, 9), Err(BufferError::OutOfBounds));
    assert_eq!(b.set_i8(3, -9), Err(BufferError::OutOfBounds));
    assert_eq!(b.set_u16_le(2, 9), Err(BufferError::OutOfBounds));
    assert_eq!(b.set_i16_le(2, -9), Err(BufferError::OutOfBounds));
    assert_eq!(b.set_u32_le(0, 9), Err(BufferError::OutOfBounds));
    assert_eq!(b.set_i32_le(usize::MAX, -9), Err(BufferError::OutOfBounds));
    assert_eq!(b.to_string(), vec![1, 2, 3]);
    assert_eq!(b.get_u8(3), Err(BufferError::OutOfBounds));
    assert_eq!(b.get_i8(3), Err(BufferError::OutOfBounds));
    assert_eq!(b.get_i16_le(2), Err(BufferError::OutOfBounds));
    assert_eq!(b.get_i32_le(0), Err(BufferError::OutOfBounds));
}
