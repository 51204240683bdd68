use dtn7_plus::cbor::DecodeError;
use dtn7_plus::compress::TextError;
use dtn7_plus::sms::{new_sms, RequiredField, SMSBundle, SmsBuilder, SmsError, SMS};
use std::convert::TryFrom;

#[test]
fn test_sms_new_uncompressed() {
    let mut sms = new_sms(
        01239468786,
        01239468999,
        "The quick brown fox jumps over the lazy dog",
        false,
    )
    .unwrap();
    let bin_bundle = sms.to_cbor();
    assert!(!bin_bundle.is_empty());
    assert_eq!(sms.msg(), "The quick brown fox jumps over the lazy dog");
}

#[test]
fn test_sms_new_compressed() {
    let mut sms = new_sms(
        01239468786,
        01239468999,
        "The quick brown fox jumps over the lazy dog",
        true,
    )
    .unwrap();
    let bin_bundle = sms.to_cbor();
    assert!(!bin_bundle.is_empty());

    assert_eq!(sms.msg(), "The quick brown fox jumps over the lazy dog");
    assert_eq!(sms.src().unwrap(), "1239468786"); // leading zeros are stripped
    assert_eq!(sms.dst().unwrap(), "1239468999");
    let _ = sms.creation_timestamp();
}

#[test]
fn test_invalid_bundles() {
    let sms = new_sms(
        01239468786,
        01239468999,
        "The quick brown fox jumps over the lazy dog",
        true,
    )
    .unwrap();
    let mut raw_bundle = sms.bundle().clone();
    assert!(SMSBundle::try_from(raw_bundle.clone()).is_ok());

    raw_bundle.primary.destination = bp7::EndpointID::none();
    assert!(SMSBundle::try_from(raw_bundle.clone()).is_err());

    raw_bundle.primary.source = bp7::EndpointID::none();
    assert!(SMSBundle::try_from(raw_bundle.clone()).is_err());

    raw_bundle.primary.source = bp7::EndpointID::with_ipn(123, 777).unwrap();
    assert!(SMSBundle::try_from(raw_bundle.clone()).is_err());

    raw_bundle.primary.destination = bp7::EndpointID::with_ipn(123, 777).unwrap();
    assert!(SMSBundle::try_from(raw_bundle).is_err());
}

#[test]
fn test_pureness() {
    let sms = new_sms(
        01239468786,
        01239468999,
        "The quick brown fox jumps over the lazy dog",
        true,
    )
    .unwrap();
    let mut raw_bundle = sms.bundle().clone();

    let smsbundle = SMSBundle::try_from(raw_bundle.clone()).unwrap();
    assert!(smsbundle.is_pure("ipn"));

    raw_bundle.primary.destination = bp7::EndpointID::try_from("dtn://1234567/sms").unwrap();
    let smsbundle = SMSBundle::try_from(raw_bundle.clone()).unwrap();

    assert!(!smsbundle.is_pure("ipn"));

    raw_bundle.primary.source = bp7::EndpointID::try_from("dtn://1234567/sms").unwrap();
    let smsbundle = SMSBundle::try_from(raw_bundle).unwrap();

    assert!(smsbundle.is_pure("dtn"));
}

fn dtn_bundle(src: &str, dst: &str, payload: Vec<u8>) -> bp7::Bundle {
    bp7::bundle::new_std_payload_bundle(
        bp7::EndpointID::try_from(src).unwrap(),
        bp7::EndpointID::try_from(dst).unwrap(),
        payload,
    )
}

#[test]
fn short_message_between_named_nodes() {
    let record = SmsBuilder::new().compression(true).message("hello").build().unwrap();
    let mut bundle = dtn_bundle("dtn://node1/sms", "dtn://node2/sms", record.to_cbor());
    let wire = bundle.to_cbor();
    let received = bp7::Bundle::try_from(wire).unwrap();
    let sms = SMSBundle::try_from(received).unwrap();
    assert_eq!(sms.msg(), "hello");
    assert_eq!(sms.src().unwrap(), "node1");
    assert_eq!(sms.dst().unwrap(), "node2");
    assert!(sms.compression());
    assert!(!sms.encryption());
    assert_eq!(sms.src_ipn(), 0);
}

#[test]
fn builder_without_message_fails() {
    assert_eq!(SmsBuilder::new().build().unwrap_err(), SmsError::MissingField(RequiredField::Message));
    assert_eq!(RequiredField::Message.name(), "message");
}

#[test]
fn builder_defaults_and_signature() {
    let record = SmsBuilder::default().message("hi").signature(vec![1, 2, 3]).build().unwrap();
    assert!(record.compression());
    assert!(!record.encryption());
    assert_eq!(record.signature(), Some(vec![1, 2, 3]));
    let back = SMS::from_cbor(&record.to_cbor()).unwrap();
    assert_eq!(back.msg(), "hi");
    assert_eq!(back.signature(), Some(vec![1, 2, 3]));
}

#[test]
fn compression_shrinks_and_restores_text() {
    let text = "the end of the story";
    let packed = dtn7_plus::compress::compress(text.as_bytes());
    assert_ne!(packed, text.as_bytes().to_vec());
    assert!(packed.len() < text.len());
    assert_eq!(dtn7_plus::compress::decompress(&packed).unwrap(), text.as_bytes().to_vec());
    let record = SmsBuilder::new().message(text).build().unwrap();
    let back = SMS::from_cbor(&record.to_cbor()).unwrap();
    assert_eq!(back.msg(), text);
}

#[test]
fn record_is_a_map_of_four_fields() {
    let record = SmsBuilder::new().compression(false).message("ab").build().unwrap();
    let value: serde_cbor::Value = serde_cbor::from_slice(&record.to_cbor()).unwrap();
    match value {
        serde_cbor::Value::Map(m) => {
            assert_eq!(m.len(), 4);
            assert_eq!(
                m.get(&serde_cbor::Value::Text("msg".into())),
                Some(&serde_cbor::Value::Bytes(b"ab".to_vec()))
            );
            assert_eq!(m.get(&serde_cbor::Value::Text("sig".into())), Some(&serde_cbor::Value::Null));
        }
        _ => panic!("not a map"),
    }
}

#[test]
fn missing_payload_is_reported() {
    let mut bundle = dtn_bundle("dtn://node1/sms", "dtn://node2/sms", vec![]);
    bundle.canonicals.clear();
    assert_eq!(SMSBundle::try_from(bundle).unwrap_err(), SmsError::MissingPayload);
}

#[test]
fn validation_errors_name_their_cause() {
    let record = SmsBuilder::new().message("x").build().unwrap().to_cbor();
    let b = dtn_bundle("dtn://node1/other", "dtn://node2/sms", record.clone());
    assert_eq!(SMSBundle::try_from(b).unwrap_err(), SmsError::BadSourceAddress);
    let b = dtn_bundle("dtn://node1/sms", "dtn://node2/news", record.clone());
    assert_eq!(SMSBundle::try_from(b).unwrap_err(), SmsError::BadDestinationAddress);
    let b = dtn_bundle("dtn://group/~sms", "dtn://node2/sms", record.clone());
    assert_eq!(SMSBundle::try_from(b).unwrap_err(), SmsError::BadSourceAddress);
    let b = dtn_bundle("dtn://node1/sms", "dtn://node2/sms", vec![0x01]);
    assert_eq!(SMSBundle::try_from(b).unwrap_err(), SmsError::MalformedRecord(DecodeError::TypeMismatch));
}

#[test]
fn unreadable_text_is_reported() {
    let plain = SmsBuilder::new().compression(false).message("ab").build().unwrap().to_cbor();
    let pos = plain.windows(2).position(|w| w == b"ab").unwrap();
    let mut bad = plain.clone();
    bad[pos] = 0xff;
    bad[pos + 1] = 0xfe;
    assert_eq!(SMS::from_cbor(&bad).unwrap_err(), SmsError::BadTextEncoding(TextError::NotUtf8));

    let packed = SmsBuilder::new().compression(true).message("a").build().unwrap();
    let mut bytes = packed.to_cbor();
    let msg_at = bytes.windows(4).position(|w| w == [0x63, b'm', b's', b'g']).unwrap();
    // "a" is one code; replace it by a verbatim marker without its byte
    assert_eq!(bytes[msg_at + 4], 0x41);
    bytes[msg_at + 5] = 254;
    assert_eq!(SMS::from_cbor(&bytes).unwrap_err(), SmsError::BadTextEncoding(TextError::Decompress));
}

#[test]
fn node_number_zero_is_refused() {
    assert_eq!(new_sms(0, 5, "x", true).unwrap_err(), SmsError::InvalidEndpoint);
}

#[test]
fn unknown_checksum_type_does_not_panic() {
    let sms = new_sms(1, 2, "hi", true).unwrap();
    let mut raw = sms.bundle().clone();
    raw.primary.crc = bp7::crc::CrcValue::Unknown(3);
    let mut wrapped = SMSBundle::try_from(raw).unwrap();
    let wire = wrapped.to_cbor();
    let back = bp7::Bundle::try_from(wire).unwrap();
    let again = SMSBundle::try_from(back).unwrap();
    assert_eq!(again.msg(), "hi");
    assert_eq!(again.id(), wrapped.id());
}
