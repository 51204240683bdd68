use bp7::bundle::Block;
use dtn7_plus::cbor::DecodeError;
use dtn7_plus::endpoint::Endpoint;
use dtn7_plus::location::{
    get_location_data, new_location_block, Location, LocationBlockData, LocationError,
    NodeTypeFlags,
};

fn bits(x: f32) -> u32 {
    x.to_bits()
}

#[test]
fn test_locblock_data_position_roundtrip() {
    let loc = Location::LatLon(bits(23.0), bits(42.0));
    let data = LocationBlockData::Position(NodeTypeFlags::mobile(), loc);
    let buf = data.to_cbor();
    let data2 = LocationBlockData::from_cbor(&buf).unwrap();
    assert_eq!(data, data2);
}

#[test]
fn test_locblock_data_fence_ellipse_roundtrip() {
    let loc = Location::LatLon(bits(23.0), bits(42.0));
    let data = LocationBlockData::FenceEllipse(loc, 10, 5);
    let buf = data.to_cbor();
    let data2 = LocationBlockData::from_cbor(&buf).unwrap();
    assert_eq!(data, data2);
}

#[test]
fn test_locblock_data_fence_rect_roundtrip() {
    let loc = Location::LatLon(bits(23.0), bits(42.0));
    let loc2 = Location::LatLon(bits(42.0), bits(66.0));
    let data = LocationBlockData::FenceRect(loc, loc2);
    let buf = data.to_cbor();
    let data2 = LocationBlockData::from_cbor(&buf).unwrap();
    assert_eq!(data, data2);
}

#[test]
fn test_locblock_data_trace_roundtrip() {
    let loc = Location::LatLon(bits(23.0), bits(42.0));
    let data = LocationBlockData::Trace(
        NodeTypeFlags::mobile(),
        Endpoint::Dtn("//node1/".to_string()),
        loc,
    );
    let buf = data.to_cbor();
    let data2 = LocationBlockData::from_cbor(&buf).unwrap();
    assert_eq!(data, data2);
}

#[test]
fn test_cblock_location_roundtrip() {
    let loc = Location::LatLon(bits(23.0), bits(42.0));
    let data = LocationBlockData::Position(NodeTypeFlags::mobile(), loc);

    let cblock = new_location_block(1, data.clone());
    let buf = cblock.to_cbor();
    let cblock2: bp7::CanonicalBlock = serde_cbor::from_slice(&buf).unwrap();
    assert_eq!(cblock, cblock2);
    let data2 = get_location_data(&cblock2).unwrap();
    assert_eq!(data, data2);
}

#[test]
fn test_loc_lonlat_roundtrip() {
    let loc = Location::LatLon(bits(23.0), bits(42.0));
    let buf = loc.to_cbor();
    let loc2 = Location::from_cbor(&buf).unwrap();
    assert_eq!(loc, loc2);
}

#[test]
fn test_loc_xy_roundtrip() {
    let loc = Location::XY(bits(23.0), bits(42.0));
    let buf = loc.to_cbor();
    let loc2 = Location::from_cbor(&buf).unwrap();
    assert_eq!(loc, loc2);
}

#[test]
fn test_loc_human_roundtrip() {
    let loc = Location::Human("Bahnhofstr 23, 12345 Nirgendwo".into());
    let buf = loc.to_cbor();
    let loc2 = Location::from_cbor(&buf).unwrap();
    assert_eq!(loc, loc2);
}

#[test]
fn test_loc_wfw_roundtrip() {
    let loc = Location::WFW("SINKUT-MEIJER-BETSUKAI".into());
    let buf = loc.to_cbor();
    let loc2 = Location::from_cbor(&buf).unwrap();
    assert_eq!(loc, loc2);
}

#[test]
fn latlon_and_xy_have_distinct_discriminants() {
    let a = Location::LatLon(bits(1.5), bits(2.5)).to_cbor();
    let b = Location::XY(bits(1.5), bits(2.5)).to_cbor();
    assert_eq!(a[1], 1);
    assert_eq!(b[1], 4);
    assert_eq!(a[2..], b[2..]);
}

#[test]
fn location_wire_form_exact_bytes() {
    // [1, [1.0, 2.0]]: both fit half precision
    let buf = Location::LatLon(bits(1.0), bits(2.0)).to_cbor();
    assert_eq!(buf, vec![0x82, 0x01, 0x82, 0xf9, 0x3c, 0x00, 0xf9, 0x40, 0x00]);
    // [4, [0.1, 1.0]]: 0.1 needs single precision
    let buf = Location::XY(bits(0.1), bits(1.0)).to_cbor();
    assert_eq!(buf, vec![0x82, 0x04, 0x82, 0xfa, 0x3d, 0xcc, 0xcc, 0xcd, 0xf9, 0x3c, 0x00]);
    // [2, "ab"]
    let buf = Location::Human("ab".into()).to_cbor();
    assert_eq!(buf, vec![0x82, 0x02, 0x62, b'a', b'b']);
}

#[test]
fn location_text_reads_as_plain_tuple() {
    let buf = Location::WFW("SINKUT-MEIJER-BETSUKAI".into()).to_cbor();
    let (tag, text): (u8, String) = serde_cbor::from_slice(&buf).unwrap();
    assert_eq!(tag, 3);
    assert_eq!(text, "SINKUT-MEIJER-BETSUKAI");
}

#[test]
fn location_decode_errors() {
    assert_eq!(Location::from_cbor(&[0x82, 0x09, 0x01]), Err(DecodeError::UnknownVariant));
    assert_eq!(Location::from_cbor(&[0x82, 0x01]), Err(DecodeError::Truncated));
    assert_eq!(Location::from_cbor(&[]), Err(DecodeError::Truncated));
    assert_eq!(Location::from_cbor(&[0x81, 0x02]), Err(DecodeError::Truncated));
    assert_eq!(Location::from_cbor(&[0x82, 0x02, 0x01]), Err(DecodeError::TypeMismatch));
    assert_eq!(Location::from_cbor(&[0x83, 0x02, 0x61, b'a', 0x01]), Err(DecodeError::TypeMismatch));
    assert_eq!(Location::from_cbor(&[0x82, 0x02, 0x62, b'a']), Err(DecodeError::Truncated));
    assert_eq!(Location::from_cbor(&[0x82, 0x02, 0x61, 0xff]), Err(DecodeError::TypeMismatch));
    // trailing bytes
    assert_eq!(Location::from_cbor(&[0x82, 0x02, 0x61, b'a', 0x00]), Err(DecodeError::TypeMismatch));
}

#[test]
fn location_accepts_long_heads() {
    // the discriminant written with a one-byte argument
    let loc = Location::from_cbor(&[0x82, 0x18, 0x02, 0x61, b'a']).unwrap();
    assert_eq!(loc, Location::Human("a".into()));
}

#[test]
fn unknown_node_bits_read_as_empty() {
    // flags 0x40 carry only a bit beyond the five named ones
    let buf: Vec<u8> = vec![0x83, 0x01, 0x18, 0x40, 0x82, 0x02, 0x61, b'x'];
    let d = LocationBlockData::from_cbor(&buf).unwrap();
    assert_eq!(d, LocationBlockData::Position(NodeTypeFlags::empty(), Location::Human("x".into())));
    let known: Vec<u8> = vec![0x83, 0x01, 0x11, 0x82, 0x02, 0x61, b'x'];
    let d = LocationBlockData::from_cbor(&known).unwrap();
    let f = NodeTypeFlags::mobile().union(&NodeTypeFlags::battery());
    assert_eq!(d, LocationBlockData::Position(f, Location::Human("x".into())));
}

#[test]
fn node_flags_combine() {
    let f = NodeTypeFlags::mobile().union(&NodeTypeFlags::gateway());
    assert_eq!(f.bits(), 0b101);
    assert!(f.contains(&NodeTypeFlags::mobile()));
    assert!(!f.contains(&NodeTypeFlags::internet()));
    assert!(NodeTypeFlags::from_bits(0x20).is_none());
}

#[test]
fn trace_with_ipn_and_none_endpoints() {
    for e in [Endpoint::Ipn(23, 42), Endpoint::DtnNone] {
        let data = LocationBlockData::Trace(NodeTypeFlags::pure_sender(), e, Location::XY(bits(-1.0), bits(0.5)));
        let back = LocationBlockData::from_cbor(&data.to_cbor()).unwrap();
        assert_eq!(back, data);
    }
    // node number 0 is no ipn address
    let bad = vec![0x84, 0x04, 0x00, 0x82, 0x02, 0x82, 0x00, 0x01, 0x82, 0x02, 0x61, b'x'];
    assert_eq!(LocationBlockData::from_cbor(&bad), Err(DecodeError::TypeMismatch));
}

#[test]
fn location_block_of_other_type_is_refused() {
    let cblock = dtn7_plus::priority::new_priority_block(1, dtn7_plus::priority::PriorityBlockData(5));
    assert_eq!(get_location_data(&cblock), Err(LocationError::InvalidLocationBlock));
}

#[test]
fn half_floats_widen_as_serde_cbor_reads_them() {
    for h in 0..=u16::MAX {
        let bytes = [0xf9, (h >> 8) as u8, (h & 0xff) as u8];
        let theirs: f32 = serde_cbor::from_slice(&bytes).unwrap();
        let ours = dtn7_plus::cbor::widen_half(h);
        assert_eq!(ours, theirs.to_bits(), "half pattern {:#06x}", h);
    }
}

#[test]
fn location_written_by_serde_cbor_is_read() {
    let buf = serde_cbor::to_vec(&(1u8, (23.0f32, 42.0f32))).unwrap();
    assert_eq!(buf[3], 0xf9);
    let loc = Location::from_cbor(&buf).unwrap();
    assert_eq!(loc, Location::LatLon(bits(23.0), bits(42.0)));
    let buf = serde_cbor::to_vec(&(4u8, (0.1f32, -7.25f32))).unwrap();
    let loc = Location::from_cbor(&buf).unwrap();
    assert_eq!(loc, Location::XY(bits(0.1), bits(-7.25)));
    let double = serde_cbor::to_vec(&(1u8, (0.1f64, 0.2f64))).unwrap();
    assert_eq!(Location::from_cbor(&double), Err(DecodeError::TypeMismatch));
}

#[test]
fn float_output_matches_serde_cbor() {
    let mut samples: Vec<u32> = Vec::new();
    for h in 0..=u16::MAX {
        samples.push(dtn7_plus::cbor::widen_half(h));
    }
    let mut x: u32 = 0x1234_5678;
    for _ in 0..200_000 {
        x ^= x << 13;
        x ^= x >> 17;
        x ^= x << 5;
        samples.push(x);
    }
    samples.extend_from_slice(&[0, 0x8000_0000, 0x7f80_0000, 0xff80_0000, 0x7fc0_0000, 0x7f80_0001, 1]);
    for b in samples {
        let ours = Location::LatLon(b, b).to_cbor();
        let f = f32::from_bits(b);
        let theirs = serde_cbor::to_vec(&(1u8, (f, f))).unwrap();
        assert_eq!(ours, theirs, "pattern {:#010x}", b);
        if !f.is_nan() || b == 0x7fc0_0000 {
            assert_eq!(Location::from_cbor(&ours).unwrap(), Location::LatLon(b, b));
        }
    }
}

#[test]
fn large_or_negative_discriminant_is_unknown() {
    // [300, "a"]
    assert_eq!(Location::from_cbor(&[0x82, 0x19, 0x01, 0x2c, 0x61, b'a']), Err(DecodeError::UnknownVariant));
    // [-1, "a"]
    assert_eq!(Location::from_cbor(&[0x82, 0x20, 0x61, b'a']), Err(DecodeError::UnknownVariant));
    // ["a", "a"]
    assert_eq!(Location::from_cbor(&[0x82, 0x61, b'a', 0x61, b'a']), Err(DecodeError::TypeMismatch));
    assert_eq!(
        LocationBlockData::from_cbor(&[0x83, 0x19, 0x01, 0x2c, 0x00, 0x00]),
        Err(DecodeError::UnknownVariant)
    );
}

#[test]
fn named_flag_bits_survive_unknown_ones() {
    // flags 0x41: mobile plus a bit beyond the named ones
    let buf: Vec<u8> = vec![0x83, 0x01, 0x18, 0x41, 0x82, 0x02, 0x61, b'x'];
    let d = LocationBlockData::from_cbor(&buf).unwrap();
    assert_eq!(d, LocationBlockData::Position(NodeTypeFlags::mobile(), Location::Human("x".into())));
    assert_eq!(NodeTypeFlags::from_bits_truncate(0xffff).bits(), 0x1f);
}
