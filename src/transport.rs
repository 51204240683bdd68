//! What this crate takes from the bundle protocol implementation (`bp7`) and
//! from `uuid`. Bundles and their blocks stay opaque values of those crates;
//! the logic reads from them only plain values, through the functions here.
use crate::endpoint::{Endpoint, EndpointModel};
use vstd::prelude::*;

verus! {

#[verifier::external_type_specification]
#[verifier::external_body]
pub struct ExBundle(bp7::Bundle);

#[verifier::external_type_specification]
#[verifier::external_body]
pub struct ExEndpointID(bp7::EndpointID);

#[verifier::external_type_specification]
#[verifier::external_body]
pub struct ExCanonicalBlock(bp7::CanonicalBlock);

#[verifier::external_type_specification]
#[verifier::external_body]
pub struct ExBp7Timestamp(bp7::CreationTimestamp);

#[verifier::external_type_specification]
#[verifier::external_body]
pub struct ExPrimaryBlock(bp7::primary::PrimaryBlock);

#[verifier::external_type_specification]
#[verifier::external_body]
pub struct ExPrimaryBuilderError(bp7::primary::PrimaryBuilderError);

#[verifier::external_type_specification]
#[verifier::external_body]
pub struct ExEndpointIdError(bp7::eid::EndpointIdError);

#[verifier::external_type_specification]
#[verifier::external_body]
pub struct ExBp7Error(bp7::error::Error);

/// When a bundle was created: milliseconds since 2000-01-01 and a sequence number.
#[derive(Debug, Clone, Copy, PartialEq, Eq, Structural)]
pub struct Timestamp {
    pub dtntime: u64,
    pub seqno: u64,
}

/// What `bp7::Bundle::primary.source` holds.
pub uninterp spec fn source_of(b: bp7::Bundle) -> bp7::EndpointID;

/// What `bp7::Bundle::primary.destination` holds.
pub uninterp spec fn destination_of(b: bp7::Bundle) -> bp7::EndpointID;

/// What `bp7::Bundle::payload` returns: the data of the payload block, if any.
pub uninterp spec fn payload_of(b: bp7::Bundle) -> Option<Seq<u8>>;

/// The plain form of an endpoint: the text of a `dtn` address, the numbers of an `ipn` one.
pub uninterp spec fn eid_model(e: bp7::EndpointID) -> EndpointModel;

/// What `bp7::primary::PrimaryBlock::source` holds.
pub uninterp spec fn primary_source(p: bp7::primary::PrimaryBlock) -> bp7::EndpointID;

/// What `bp7::primary::PrimaryBlock::destination` holds.
pub uninterp spec fn primary_destination(p: bp7::primary::PrimaryBlock) -> bp7::EndpointID;

/// What `bp7::Bundle::payload` finds in a bundle whose only canonical block is `c`.
pub uninterp spec fn payload_data(c: bp7::CanonicalBlock) -> Option<Seq<u8>>;

/// What `bp7::CanonicalBlock::block_type` holds.
pub uninterp spec fn block_type(c: bp7::CanonicalBlock) -> u64;

/// The bytes of a block whose data is of an unknown kind (`CanonicalData::Unknown`).
pub uninterp spec fn unknown_data(c: bp7::CanonicalBlock) -> Option<Seq<u8>>;

/// What `bp7::Bundle::try_from` parses from bytes, `None` where it fails.
pub uninterp spec fn parsed_bundle(v: Seq<u8>) -> Option<bp7::Bundle>;

/// What `bp7::Bundle::id` returns.
pub uninterp spec fn id_of(b: bp7::Bundle) -> Seq<char>;

/// The creation time and sequence number of `bp7::Bundle::primary.creation_timestamp`.
pub uninterp spec fn timestamp_of(b: bp7::Bundle) -> Timestamp;

/// The checksum type codes of the primary block and then of each canonical block.
pub uninterp spec fn crc_codes(b: bp7::Bundle) -> Seq<u8>;

/// The bundle with every checksum type set to none (`Bundle::set_crc(CRC_NO)`).
pub uninterp spec fn crc_cleared(b: bp7::Bundle) -> bp7::Bundle;

/// What `bp7::Bundle::to_cbor` writes for the bundle.
pub uninterp spec fn bundle_wire(b: bp7::Bundle) -> Seq<u8>;

/// Every checksum type is one that bp7 can compute: none, CRC-16 or CRC-32.
pub open spec fn crc_ok(b: bp7::Bundle) -> bool {
    forall|i: int| 0 <= i < crc_codes(b).len() ==> #[trigger] crc_codes(b)[i] <= 2
}

/// The wire form of a bundle; checksums of a type bp7 cannot compute are dropped first.
pub open spec fn wire_form(b: bp7::Bundle) -> Seq<u8> {
    if crc_ok(b) {
        bundle_wire(b)
    } else {
        bundle_wire(crc_cleared(b))
    }
}

/// A `dtn` address that `EndpointID::with_dtn` keeps as it is: it starts with
/// `//` and has a further slash.
pub open spec fn dtn_kept(ssp: Seq<char>) -> bool {
    &&& ssp.len() >= 2
    &&& ssp[0] == '/'
    &&& ssp[1] == '/'
    &&& exists|i: int| 2 <= i < ssp.len() && ssp[i] == '/'
}

/// Relies on `bp7::EndpointID::with_dtn`: it accepts every `dtn` address (its
/// validation of that scheme always passes), puts `//` in front where missing
/// and a slash behind a bare node, and keeps any other address as it is.
#[verifier::external_body]
pub(crate) fn eid_with_dtn(ssp: &str) -> (r: Result<bp7::EndpointID, bp7::eid::EndpointIdError>)
    ensures
        r is Ok,
        eid_model(r->Ok_0) is Dtn,
        dtn_kept(ssp@) ==> eid_model(r->Ok_0) == EndpointModel::Dtn(ssp@),
{
    bp7::EndpointID::with_dtn(ssp)
}

/// Relies on `bp7::EndpointID::with_ipn`: it refuses exactly the node number 0.
#[verifier::external_body]
pub(crate) fn eid_with_ipn(node: u64, service: u64) -> (r: Result<bp7::EndpointID, bp7::eid::EndpointIdError>)
    ensures
        r is Ok <==> node >= 1,
        r is Ok ==> eid_model(r->Ok_0) == EndpointModel::Ipn(node, service),
{
    bp7::EndpointID::with_ipn(node, service)
}

/// Relies on `bp7::EndpointID::none`: the `dtn:none` endpoint.
#[verifier::external_body]
pub(crate) fn eid_none() -> (r: bp7::EndpointID)
    ensures
        eid_model(r) == EndpointModel::DtnNone,
{
    bp7::EndpointID::none()
}

/// Relies on the variants of `bp7::EndpointID`: the text of a `dtn` address,
/// the two numbers of an `ipn` address.
#[verifier::external_body]
pub(crate) fn endpoint_of_eid(e: &bp7::EndpointID) -> (r: Endpoint)
    ensures
        r@ == eid_model(*e),
{
    match e {
        bp7::EndpointID::Dtn(_, addr) => Endpoint::Dtn(addr.to_string()),
        bp7::EndpointID::DtnNone(_, _) => Endpoint::DtnNone,
        bp7::EndpointID::Ipn(_, addr) => Endpoint::Ipn(addr.node_number(), addr.service_number()),
    }
}

/// Relies on the public `primary.source` field of `bp7::Bundle`.
#[verifier::external_body]
pub(crate) fn bundle_source(b: &bp7::Bundle) -> (r: bp7::EndpointID)
    ensures
        r == source_of(*b),
{
    b.primary.source.clone()
}

/// Relies on the public `primary.destination` field of `bp7::Bundle`.
#[verifier::external_body]
pub(crate) fn bundle_destination(b: &bp7::Bundle) -> (r: bp7::EndpointID)
    ensures
        r == destination_of(*b),
{
    b.primary.destination.clone()
}

/// Relies on `bp7::Bundle::payload`: the data of the payload block, if there is one.
#[verifier::external_body]
pub(crate) fn bundle_payload(b: &bp7::Bundle) -> (r: Option<Vec<u8>>)
    ensures
        match r {
            Some(v) => payload_of(*b) == Some(v@),
            None => payload_of(*b) is None,
        },
{
    b.payload().cloned()
}

/// Relies on `bp7::Bundle::id`: source, creation time and sequence number as text.
#[verifier::external_body]
pub(crate) fn bundle_id(b: &bp7::Bundle) -> (r: String)
    ensures
        r@ == id_of(*b),
{
    b.id()
}

/// Relies on the public `primary.creation_timestamp` field of `bp7::Bundle`.
#[verifier::external_body]
pub(crate) fn bundle_timestamp(b: &bp7::Bundle) -> (r: Timestamp)
    ensures
        r == timestamp_of(*b),
{
    let ts = &b.primary.creation_timestamp;
    Timestamp { dtntime: ts.dtntime(), seqno: ts.seqno() }
}

/// Relies on `bp7::Bundle::clone` (derived): an equal bundle.
#[verifier::external_body]
pub(crate) fn bundle_clone(b: &bp7::Bundle) -> (r: bp7::Bundle)
    ensures
        r == *b,
{
    b.clone()
}

/// Relies on `bp7::Bundle::to_cbor`: the bundle in its wire form. It computes
/// the checksums first, and panics for a checksum type other than 0, 1 or 2.
#[verifier::external_body]
pub(crate) fn bundle_to_cbor(b: &mut bp7::Bundle) -> (r: Vec<u8>)
    requires
        crc_ok(*old(b)),
    ensures
        r@ == bundle_wire(*old(b)),
{
    b.to_cbor()
}

/// Relies on `CrcBlock::crc_type` of bp7's primary and canonical blocks: the
/// checksum type code of each block, the primary block first.
#[verifier::external_body]
pub(crate) fn bundle_crc_codes(b: &bp7::Bundle) -> (r: Vec<u8>)
    ensures
        r@ == crc_codes(*b),
{
    std::iter::once(bp7::crc::CrcBlock::crc_type(&b.primary))
        .chain(b.canonicals.iter().map(|c| bp7::crc::CrcBlock::crc_type(c)))
        .collect()
}

/// Relies on `bp7::Bundle::set_crc`: every block gets the checksum type none (code 0).
#[verifier::external_body]
pub(crate) fn bundle_clear_crc(b: &mut bp7::Bundle)
    ensures
        *final(b) == crc_cleared(*old(b)),
        crc_ok(*final(b)),
{
    b.set_crc(bp7::crc::CRC_NO)
}

/// Whether bp7 can compute every checksum of the bundle.
pub(crate) fn checksums_known(b: &bp7::Bundle) -> (r: bool)
    ensures
        r == crc_ok(*b),
{
    let codes = bundle_crc_codes(b);
    let mut i: usize = 0;
    while i < codes.len()
        invariant
            codes@ == crc_codes(*b),
            i <= codes.len(),
            forall|j: int| 0 <= j < i ==> codes@[j] <= 2,
        decreases codes.len() - i,
    {
        if codes[i] > 2 {
            return false;
        }
        i = i + 1;
    }
    true
}

/// The wire form of a bundle, leaving the bundle as it is.
pub(crate) fn wire_bytes(b: &bp7::Bundle) -> (r: Vec<u8>)
    ensures
        r@ == wire_form(*b),
{
    let mut copy = bundle_clone(b);
    if !checksums_known(&copy) {
        bundle_clear_crc(&mut copy);
    }
    bundle_to_cbor(&mut copy)
}

/// Relies on `bp7::Bundle::try_from` on bytes: parses a bundle in its wire form.
#[verifier::external_body]
pub(crate) fn bundle_from_cbor(v: Vec<u8>) -> (r: Result<bp7::Bundle, bp7::error::Error>)
    ensures
        match r {
            Ok(b) => parsed_bundle(v@) == Some(b),
            Err(_) => parsed_bundle(v@) is None,
        },
{
    bp7::Bundle::try_from(v)
}

/// Relies on `bp7::CreationTimestamp::now`: the current time with a sequence number.
#[verifier::external_body]
pub(crate) fn timestamp_now() -> (r: bp7::CreationTimestamp) {
    bp7::CreationTimestamp::now()
}

/// Relies on `bp7::primary::PrimaryBlockBuilder`: a primary block with these
/// endpoints, timestamp and lifetime; `build` fails only for a `dtn:none` destination.
#[verifier::external_body]
pub(crate) fn primary_block(
    dst: bp7::EndpointID,
    src: bp7::EndpointID,
    report_to: bp7::EndpointID,
    ts: bp7::CreationTimestamp,
    lifetime_secs: u64,
) -> (r: Result<bp7::primary::PrimaryBlock, bp7::primary::PrimaryBuilderError>)
    ensures
        !(eid_model(dst) is DtnNone) ==> r is Ok,
        r is Ok ==> primary_source(r->Ok_0) == src && primary_destination(r->Ok_0) == dst,
{
    bp7::primary::PrimaryBlockBuilder::default()
        .destination(dst)
        .source(src)
        .report_to(report_to)
        .creation_timestamp(ts)
        .lifetime(std::time::Duration::from_secs(lifetime_secs))
        .build()
}

/// Relies on `bp7::canonical::new_payload_block`: a payload block (type and
/// number 1) without flags, whose data `Bundle::payload` returns.
#[verifier::external_body]
pub(crate) fn payload_block(data: Vec<u8>) -> (r: bp7::CanonicalBlock)
    ensures
        payload_data(r) == Some(data@),
{
    bp7::canonical::new_payload_block(bp7::flags::BlockControlFlags::empty(), data)
}

/// Relies on `bp7::Bundle::new`: a bundle of a primary block and canonical blocks.
#[verifier::external_body]
pub(crate) fn new_bundle(primary: bp7::primary::PrimaryBlock, blocks: Vec<bp7::CanonicalBlock>) -> (r: bp7::Bundle)
    ensures
        source_of(r) == primary_source(primary),
        destination_of(r) == primary_destination(primary),
        blocks@.len() == 1 ==> payload_of(r) == payload_data(blocks@[0]),
{
    bp7::Bundle::new(primary, blocks)
}

/// Relies on `bp7::canonical::new_canonical_block`: a block of the given type
/// and number, without flags, that carries `data` as data of an unknown kind.
#[verifier::external_body]
pub(crate) fn unknown_block(block_type_code: u64, block_number: u64, data: Vec<u8>) -> (r: bp7::CanonicalBlock)
    ensures
        block_type(r) == block_type_code,
        unknown_data(r) == Some(data@),
{
    bp7::canonical::new_canonical_block(
        block_type_code,
        block_number,
        0,
        bp7::canonical::CanonicalData::Unknown(data),
    )
}

/// Relies on the public `block_type` field of `bp7::CanonicalBlock`.
#[verifier::external_body]
pub(crate) fn block_type_of(b: &bp7::CanonicalBlock) -> (r: u64)
    ensures
        r == block_type(*b),
{
    b.block_type
}

/// Relies on the variants of `bp7::canonical::CanonicalData`: the bytes of
/// data of an unknown kind.
#[verifier::external_body]
pub(crate) fn unknown_data_of(b: &bp7::CanonicalBlock) -> (r: Option<Vec<u8>>)
    ensures
        match r {
            Some(v) => unknown_data(*b) == Some(v@),
            None => unknown_data(*b) is None,
        },
{
    match b.data() {
        bp7::canonical::CanonicalData::Unknown(d) => Some(d.clone()),
        _ => None,
    }
}

/// Relies on `uuid::Uuid::new_v4`: a random UUID whose version field is 4.
#[verifier::external_body]
pub(crate) fn random_uuid() -> (r: u128)
    ensures
        (r >> 76u128) & 0xfu128 == 4u128,
{
    uuid::Uuid::new_v4().as_u128()
}

} // verus!
