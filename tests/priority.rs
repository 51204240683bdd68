use bp7::bundle::Block;
use dtn7_plus::cbor::DecodeError;
use dtn7_plus::priority::{get_priority_data, new_priority_block, PriorityBlockData, PriorityError};

#[test]
fn test_priority_roundtrip() {
    let data = PriorityBlockData(23);
    let buf = data.to_cbor();
    let data2 = PriorityBlockData::from_cbor(&buf).unwrap();
    assert_eq!(data, data2);
}

#[test]
fn test_cblock_priority_roundtrip() {
    let data = PriorityBlockData(42);

    let cblock = new_priority_block(1, data.clone());
    let buf = cblock.to_cbor();
    let cblock2: bp7::CanonicalBlock = serde_cbor::from_slice(&buf).unwrap();
    assert_eq!(cblock, cblock2);
    let data2 = get_priority_data(&cblock2).unwrap();
    assert_eq!(data, data2);
}

#[test]
fn priority_wire_form_matches_plain_integer() {
    assert_eq!(PriorityBlockData(23).to_cbor(), vec![0x17]);
    assert_eq!(PriorityBlockData(24).to_cbor(), vec![0x18, 0x18]);
    assert_eq!(PriorityBlockData(65535).to_cbor(), vec![0x19, 0xff, 0xff]);
    assert_eq!(PriorityBlockData(1000).to_cbor(), serde_cbor::to_vec(&1000u16).unwrap());
}

#[test]
fn priority_errors() {
    assert_eq!(PriorityBlockData::from_cbor(&[0x1a, 0x00, 0x01, 0x00, 0x00]), Err(DecodeError::TypeMismatch));
    assert_eq!(PriorityBlockData::from_cbor(&[0x19, 0x01]), Err(DecodeError::Truncated));
    let loc = dtn7_plus::location::new_location_block(
        2,
        dtn7_plus::location::LocationBlockData::FenceEllipse(dtn7_plus::location::Location::Human("x".into()), 1, 2),
    );
    assert_eq!(get_priority_data(&loc), Err(PriorityError::InvalidPriorityBlock));
}
