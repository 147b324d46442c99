use autd3_simulator::geometry::{
    decode_geometry, encode_geometry, put_device, Device, Geometry, Position, Rotation,
    DEVICE_WIRE_SIZE,
};

fn device(x: f32, y: f32, z: f32, w: f32, i: f32, j: f32, k: f32) -> Device {
    Device {
        pos: Position { x: x.to_bits(), y: y.to_bits(), z: z.to_bits() },
        rot: Rotation { w: w.to_bits(), i: i.to_bits(), j: j.to_bits(), k: k.to_bits() },
    }
}

fn identity() -> Device {
    device(0.0, 0.0, 0.0, 1.0, 0.0, 0.0, 0.0)
}

#[test]
fn device_takes_28_bytes_in_field_order() {
    let d = device(1.0, 2.0, 3.0, 4.0, 5.0, 6.0, 7.0);
    let mut out = Vec::new();
    put_device(&mut out, &d);
    assert_eq!(out.len(), DEVICE_WIRE_SIZE);
    let mut expected = Vec::new();
    for v in [1.0f32, 2.0, 3.0, 4.0, 5.0, 6.0, 7.0] {
        expected.extend_from_slice(&v.to_le_bytes());
    }
    assert_eq!(out, expected);
    let mut body = vec![1u8, 0, 0, 0];
    body.extend_from_slice(&out);
    assert_eq!(decode_geometry(&body), Geometry::new(vec![d]));
}

#[test]
fn identity_pose_bytes() {
    let mut out = Vec::new();
    put_device(&mut out, &identity());
    let mut expected = vec![0u8; 28];
    expected[14] = 0x80;
    expected[15] = 0x3F;
    assert_eq!(out, expected);
}

#[test]
fn empty_geometry_is_four_zero_bytes() {
    let g = Geometry::new(Vec::new()).unwrap();
    assert_eq!(g.num_devices(), 0);
    assert_eq!(encode_geometry(&g), vec![0, 0, 0, 0]);
    assert_eq!(decode_geometry(&[0, 0, 0, 0]), Some(g));
}

#[test]
fn geometry_starts_with_its_device_count() {
    let g = Geometry::new(vec![identity(), device(0.1, -0.2, 0.3, 0.5, 0.5, 0.5, 0.5)]).unwrap();
    let bytes = encode_geometry(&g);
    assert_eq!(bytes.len(), 4 + 2 * 28);
    assert_eq!(&bytes[..4], &[2, 0, 0, 0]);
    assert_eq!(&bytes[4 + 28..4 + 32], &0.1f32.to_le_bytes());
    assert_eq!(&bytes[4 + 32..4 + 36], &(-0.2f32).to_le_bytes());
}

#[test]
fn geometry_round_trips_byte_for_byte() {
    let devices: Vec<Device> = (0..17)
        .map(|n| {
            let f = n as f32;
            device(f * 192.0, -f, f * 0.5, 1.0, f32::NAN, f32::INFINITY, -0.0)
        })
        .collect();
    let g = Geometry::new(devices).unwrap();
    let first = encode_geometry(&g);
    let back = decode_geometry(&first).unwrap();
    assert_eq!(back, g);
    assert_eq!(encode_geometry(&back), first);
}

#[test]
fn any_well_framed_bytes_round_trip() {
    let mut bytes = vec![3u8, 0, 0, 0];
    for n in 0..(3 * 28) {
        bytes.push((n * 37 % 251) as u8);
    }
    let g = decode_geometry(&bytes).unwrap();
    assert_eq!(g.num_devices(), 3);
    assert_eq!(encode_geometry(&g), bytes);
}

#[test]
fn geometry_with_wrong_length_is_refused() {
    assert_eq!(decode_geometry(&[]), None);
    assert_eq!(decode_geometry(&[1, 0, 0]), None);
    assert_eq!(decode_geometry(&[1, 0, 0, 0]), None);
    let mut short = vec![1u8, 0, 0, 0];
    short.extend_from_slice(&[0u8; 27]);
    assert_eq!(decode_geometry(&short), None);
    let mut long = vec![1u8, 0, 0, 0];
    long.extend_from_slice(&[0u8; 29]);
    assert_eq!(decode_geometry(&long), None);
    let mut exact = vec![1u8, 0, 0, 0];
    exact.extend_from_slice(&[0u8; 28]);
    assert!(decode_geometry(&exact).is_some());
}

#[test]
fn device_lookup_and_copy() {
    let a = identity();
    let b = device(1.0, 1.0, 1.0, 0.0, 1.0, 0.0, 0.0);
    let g = Geometry::new(vec![a, b]).unwrap();
    assert_eq!(g.device(0), Some(a));
    assert_eq!(g.device(1), Some(b));
    assert_eq!(g.device(2), None);
    assert_eq!(g.duplicate(), g);
    assert_eq!(g.clone(), g);
}
