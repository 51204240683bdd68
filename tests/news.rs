use dtn7_plus::news::{new_news, reply_news, NewsBuilder, NewsBundle, NewsError, News};
use dtn7_plus::sms::RequiredField;
use std::convert::TryFrom;

#[test]
fn test_news_new_uncompressed() {
    let mut news = new_news(
        "node1",
        "de.hessen.darmstadt",
        "Lorem ipsum dolor sit amet",
        None,
        None,
        "The quick brown fox jumps over the lazy dog",
        Vec::new(),
        false,
    )
    .unwrap();
    let bin_bundle = news.to_cbor();
    assert!(!bin_bundle.is_empty());
    assert_eq!(news.topic(), "Lorem ipsum dolor sit amet");
}

#[test]
fn test_news_new_compressed() {
    let mut news = new_news(
        "node1",
        "de.hessen.darmstadt",
        "Lorem ipsum dolor sit amet",
        None,
        None,
        "The quick brown fox jumps over the lazy dog",
        Vec::new(),
        true,
    )
    .unwrap();
    let bin_bundle = news.to_cbor();
    assert!(!bin_bundle.is_empty());

    assert_eq!(news.msg(), "The quick brown fox jumps over the lazy dog");
    assert_eq!(news.src().unwrap(), "node1");
    assert_eq!(news.dst().unwrap(), "de.hessen.darmstadt");
    let _ = news.creation_timestamp();
}

#[test]
fn mod_test_invalid_bundles() {
    let news = new_news(
        "node1",
        "de.hessen.darmstadt",
        "Lorem ipsum dolor sit amet",
        None,
        None,
        "The quick brown fox jumps over the lazy dog",
        Vec::new(),
        false,
    )
    .unwrap();
    let mut raw_bundle = news.bundle().clone();
    assert!(NewsBundle::try_from(raw_bundle.clone()).is_ok());

    raw_bundle.primary.destination = bp7::EndpointID::none();
    assert!(NewsBundle::try_from(raw_bundle.clone()).is_err());

    raw_bundle.primary.source = bp7::EndpointID::none();
    assert!(NewsBundle::try_from(raw_bundle.clone()).is_err());

    raw_bundle.primary.source = bp7::EndpointID::with_ipn(123, 777).unwrap();
    assert!(NewsBundle::try_from(raw_bundle.clone()).is_err());

    raw_bundle.primary.destination = bp7::EndpointID::with_ipn(123, 777).unwrap();
    assert!(NewsBundle::try_from(raw_bundle).is_err());
}

#[test]
fn test_news_reply() {
    let news1 = new_news(
        "node1",
        "de.hessen.darmstadt",
        "Lorem ipsum dolor sit amet",
        None,
        None,
        "The quick brown fox jumps over the lazy dog",
        Vec::new(),
        false,
    )
    .unwrap();

    let news2 = reply_news(&news1, "node2", "just a reply", true).unwrap();
    assert_eq!(news1.topic(), news2.topic());
    assert_eq!(news1.tid(), news2.tid());
    assert_eq!(news1.tags(), news2.tags());
    assert_eq!(Some(news1.id()), news2.references());
    assert_ne!(news1.msg(), news2.msg());
}

#[test]
fn weather_thread() {
    let post = new_news("node1", "weather.group", "weather", None, None, "it rained", vec![], true).unwrap();
    let tid = post.tid();
    assert_ne!(tid, 0);
    assert_eq!((tid >> 76) & 0xf, 4);
    assert_eq!(post.references(), None);
    let reply = reply_news(&post, "node2", "indeed", true).unwrap();
    assert_eq!(reply.tid(), tid);
    assert_eq!(reply.references(), Some(post.id()));
    assert_eq!(reply.topic(), "weather");
    assert_eq!(reply.msg(), "indeed");
    assert_eq!(reply.src().unwrap(), "node2");
    assert_eq!(reply.dst().unwrap(), "weather.group");
}

#[test]
fn reply_keeps_tags_and_given_thread() {
    let tags = vec!["rain".to_string(), "spring".to_string()];
    let post = new_news("a", "g", "t", Some(77), None, "m", tags.clone(), false).unwrap();
    assert_eq!(post.tid(), 77);
    assert_eq!(post.tags(), tags);
    let reply = reply_news(&post, "b", "n", false).unwrap();
    assert_eq!(reply.tags(), tags);
    assert_eq!(reply.tid(), 77);
}

#[test]
fn builder_requires_message_then_topic() {
    assert_eq!(
        NewsBuilder::new().topic("t").build().unwrap_err(),
        NewsError::MissingField(RequiredField::Message)
    );
    assert_eq!(
        NewsBuilder::new().message("m").build().unwrap_err(),
        NewsError::MissingField(RequiredField::Topic)
    );
    assert_eq!(RequiredField::Topic.name(), "topic");
}

#[test]
fn post_record_round_trip() {
    let post = NewsBuilder::new()
        .message("body")
        .topic("subject")
        .thread_id(0x0123_4567_89ab_cdef_0123_4567_89ab_cdef)
        .references("dtn://x/-1-2")
        .tag("one")
        .tag("two")
        .signature(vec![9, 8])
        .encryption(true)
        .build()
        .unwrap();
    let back = News::from_cbor(&post.to_cbor()).unwrap();
    assert_eq!(back.msg(), "body");
    assert_eq!(back.topic(), "subject");
    assert_eq!(back.thread_id(), 0x0123_4567_89ab_cdef_0123_4567_89ab_cdef);
    assert_eq!(back.references(), Some("dtn://x/-1-2".to_string()));
    assert_eq!(back.tags(), &["one".to_string(), "two".to_string()]);
    assert_eq!(back.signature(), Some(vec![9, 8]));
    assert!(back.encryption());
    assert!(back.compression());
}

#[test]
fn thread_id_travels_as_sixteen_bytes() {
    let post = NewsBuilder::new().message("m").topic("t").thread_id(1).compression(false).build().unwrap();
    let value: serde_cbor::Value = serde_cbor::from_slice(&post.to_cbor()).unwrap();
    match value {
        serde_cbor::Value::Map(m) => {
            assert_eq!(m.len(), 8);
            let mut expected = vec![0u8; 16];
            expected[15] = 1;
            assert_eq!(
                m.get(&serde_cbor::Value::Text("tid".into())),
                Some(&serde_cbor::Value::Bytes(expected))
            );
        }
        _ => panic!("not a map"),
    }
}

#[test]
fn roles_are_not_interchangeable() {
    let post = new_news("node1", "grp", "t", None, None, "m", vec![], true).unwrap();
    let mut raw = post.bundle().clone();
    raw.primary.destination = bp7::EndpointID::try_from("dtn://grp/sms").unwrap();
    assert_eq!(NewsBundle::try_from(raw.clone()).unwrap_err(), NewsError::BadDestinationAddress);
    let mut raw = post.bundle().clone();
    raw.primary.source = bp7::EndpointID::try_from("dtn://node1/~news").unwrap();
    assert_eq!(NewsBundle::try_from(raw).unwrap_err(), NewsError::BadSourceAddress);
}

#[test]
fn news_missing_payload_and_bytes() {
    let post = new_news("node1", "grp", "t", None, None, "m", vec![], true).unwrap();
    let mut raw = post.bundle().clone();
    let wire = raw.to_cbor();
    let back = NewsBundle::from_cbor(wire).unwrap();
    assert_eq!(back.msg(), "m");
    assert_eq!(back.id(), post.id());
    raw.canonicals.clear();
    assert_eq!(NewsBundle::try_from(raw).unwrap_err(), NewsError::MissingPayload);
    assert_eq!(NewsBundle::from_cbor(vec![1, 2, 3]).unwrap_err(), NewsError::BundleDecoding);
}

#[test]
fn slash_in_node_name_is_refused() {
    assert_eq!(
        new_news("a/b", "grp", "t", None, None, "m", vec![], true).unwrap_err(),
        NewsError::BadSourceAddress
    );
}
