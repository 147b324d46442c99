use autd3_simulator::codec::{decode_request, Request};
use autd3_simulator::geometry::{decode_geometry, Device, Geometry, Position, Rotation};
use autd3_simulator::wire::{put_u16_le, put_u32_le};

const WORDS: [u32; 10] =
    [0, 1, 255, 256, 65535, 65536, 0x00FF_FFFF, 0x0100_0000, 0xDEAD_BEEF, u32::MAX];

const HALVES: [u16; 7] = [0, 1, 255, 256, 0x7FFF, 0x8000, u16::MAX];

#[test]
fn u16_is_written_low_byte_first() {
    let mut out = vec![0xAA];
    put_u16_le(&mut out, 0x1234);
    assert_eq!(out, vec![0xAA, 0x34, 0x12]);
}

#[test]
fn u32_is_written_low_byte_first() {
    let mut out = Vec::new();
    put_u32_le(&mut out, 0x0102_0304);
    assert_eq!(out, vec![0x04, 0x03, 0x02, 0x01]);
}

#[test]
fn integers_are_written_as_the_standard_library_writes_them() {
    for x in WORDS {
        let mut out = Vec::new();
        put_u32_le(&mut out, x);
        assert_eq!(out, x.to_le_bytes().to_vec());
    }
    for x in HALVES {
        let mut out = Vec::new();
        put_u16_le(&mut out, x);
        assert_eq!(out, x.to_le_bytes().to_vec());
    }
}

#[test]
fn u32_is_read_low_byte_first() {
    for x in WORDS {
        let mut bytes = vec![1u8, 0, 0, 0];
        for _ in 0..7 {
            bytes.extend_from_slice(&x.to_le_bytes());
        }
        let expected = Device {
            pos: Position { x, y: x, z: x },
            rot: Rotation { w: x, i: x, j: x, k: x },
        };
        assert_eq!(decode_geometry(&bytes), Geometry::new(vec![expected]));
    }
}

#[test]
fn u16_is_read_low_byte_first() {
    for x in HALVES {
        let mut frame = vec![0x10];
        frame.extend_from_slice(&x.to_le_bytes());
        frame.extend_from_slice(&[7u8; 11]);
        assert_eq!(
            decode_request(&frame, 0),
            Some(Request::Hello { version: x, magic: vec![7u8; 11] })
        );
    }
}
