use dtn7_plus::endpoint::Endpoint;
use dtn7_plus::client::DtnClient;

#[test]
fn ipn_node_is_its_number() {
    assert_eq!(Endpoint::Ipn(1239468786, 767).node(), Some("1239468786".to_string()));
    assert_eq!(Endpoint::Ipn(7, 0).node_number(), 7);
}

#[test]
fn dtn_node_and_scheme() {
    let e = Endpoint::Dtn("//node1/sms".to_string());
    assert_eq!(e.node(), Some("node1".to_string()));
    assert_eq!(e.scheme(), "dtn");
    assert!(e.has_scheme("dtn"));
    assert!(!e.has_scheme("ipn"));
    assert!(!e.is_non_singleton());
    assert!(Endpoint::Dtn("//grp/~news".to_string()).is_non_singleton());
    assert_eq!(Endpoint::none().node(), None);
    assert_eq!(Endpoint::Ipn(1, 2).scheme(), "ipn");
}

#[test]
fn endpoint_wire_form_matches_transport() {
    let eid = bp7::EndpointID::with_ipn(23, 42).unwrap();
    let mut out = Vec::new();
    Endpoint::Ipn(23, 42).write_cbor(&mut out);
    assert_eq!(out, serde_cbor::to_vec(&eid).unwrap());
    let eid = bp7::EndpointID::with_dtn("//node1/inbox").unwrap();
    let mut out = Vec::new();
    Endpoint::Dtn("//node1/inbox".to_string()).write_cbor(&mut out);
    assert_eq!(out, serde_cbor::to_vec(&eid).unwrap());
    let mut out = Vec::new();
    Endpoint::DtnNone.write_cbor(&mut out);
    assert_eq!(out, serde_cbor::to_vec(&bp7::EndpointID::none()).unwrap());
}

#[test]
fn client_addresses() {
    let c = DtnClient::new();
    assert_eq!(c.localhost(), "127.0.0.1");
    assert_eq!(c.port(), 3000);
    let c = DtnClient::with_host_and_port("[::1]".to_string(), 3002);
    assert_eq!(c.localhost(), "[::1]");
    assert_eq!(c.port(), 3002);
}

#[test]
fn decimal_digits_of_edge_values() {
    for n in [0u64, 7, 9, 10, 99, 100, 1239468786, u64::MAX] {
        assert_eq!(dtn7_plus::endpoint::u64_decimal(n), n.to_string());
    }
}
