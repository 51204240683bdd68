//! The data of a location extension block: a node's position, a geofence, or
//! a trace that pairs a node with its position.
use crate::cbor::{
    dec_u16, dec_uint, enc_head, enc_uint, lemma_u16_round_trip, lemma_uint_round_trip, read_u16,
    read_uint, write_head, write_uint, DecodeError, MAJOR_ARRAY,
};
use crate::endpoint::{
    dec_endpoint, enc_endpoint, endpoint_wf, lemma_endpoint_round_trip, Endpoint, EndpointModel,
};
use crate::location::{
    check_count, dec_location, dec_tagged, enc_location, flags_from_wire, flags_wf,
    lemma_location_round_trip, location_wf, whole, Location, LocationBlockType, LocationModel,
    NodeTypeFlags,
};
use crate::location::LOCATION_BLOCK;
use crate::transport::{block_type, block_type_of, unknown_block, unknown_data, unknown_data_of};
use vstd::prelude::*;

verus! {

#[derive(Debug, Clone, PartialEq, Eq)]
pub enum LocationBlockData {
    /// Where a node of the given kind is.
    Position(NodeTypeFlags, Location),
    /// An elliptic fence: centre and the two radii.
    FenceEllipse(Location, u64, u64),
    /// A rectangular fence: top left and bottom right corner.
    FenceRect(Location, Location),
    /// A node of the given kind, and where it is.
    Trace(NodeTypeFlags, Endpoint, Location),
}

pub enum BlockModel {
    Position(u16, LocationModel),
    FenceEllipse(LocationModel, u64, u64),
    FenceRect(LocationModel, LocationModel),
    Trace(u16, EndpointModel, LocationModel),
}

impl View for LocationBlockData {
    type V = BlockModel;

    open spec fn view(&self) -> BlockModel {
        match self {
            LocationBlockData::Position(f, l) => BlockModel::Position(f@, l@),
            LocationBlockData::FenceEllipse(l, a, b) => BlockModel::FenceEllipse(l@, *a, *b),
            LocationBlockData::FenceRect(a, b) => BlockModel::FenceRect(a@, b@),
            LocationBlockData::Trace(f, e, l) => BlockModel::Trace(f@, e@, l@),
        }
    }
}

/// Flags made of named bits, a valid endpoint and locations that fit the wire form.
pub open spec fn block_wf(d: BlockModel) -> bool {
    match d {
        BlockModel::Position(f, l) => flags_wf(f) && location_wf(l),
        BlockModel::FenceEllipse(l, _, _) => location_wf(l),
        BlockModel::FenceRect(a, b) => location_wf(a) && location_wf(b),
        BlockModel::Trace(f, e, l) => flags_wf(f) && endpoint_wf(e) && location_wf(l)
            && (e is Dtn ==> vstd::utf8::encode_utf8(e->Dtn_0).len() <= u64::MAX),
    }
}

pub open spec fn enc_block(d: BlockModel) -> Seq<u8> {
    match d {
        BlockModel::Position(f, l) => enc_head(MAJOR_ARRAY, 3) + (enc_uint(1) + (enc_uint(
            f as u64,
        ) + enc_location(l))),
        BlockModel::FenceEllipse(l, a, b) => enc_head(MAJOR_ARRAY, 4) + (enc_uint(2) + (
        enc_location(l) + enc_uint(a) + enc_uint(b))),
        BlockModel::FenceRect(a, b) => enc_head(MAJOR_ARRAY, 3) + (enc_uint(3) + (enc_location(a)
            + enc_location(b))),
        BlockModel::Trace(f, e, l) => enc_head(MAJOR_ARRAY, 4) + (enc_uint(4) + (enc_uint(f as u64)
            + enc_endpoint(e) + enc_location(l))),
    }
}

/// The number of items in the array of each variant, discriminant included.
pub open spec fn block_arity(tag: u8) -> u64 {
    if tag == 2 || tag == 4 {
        4
    } else {
        3
    }
}

pub open spec fn dec_block_body(s: Seq<u8>, tag: u8, q: int) -> Result<(BlockModel, int), DecodeError> {
    if tag == 1 {
        match dec_u16(s, q) {
            Err(e) => Err(e),
            Ok((f, a)) => match dec_location(s, a) {
                Err(e) => Err(e),
                Ok((l, end)) => Ok((BlockModel::Position(flags_from_wire(f), l), end)),
            },
        }
    } else if tag == 2 {
        match dec_location(s, q) {
            Err(e) => Err(e),
            Ok((l, a)) => match dec_uint(s, a) {
                Err(e) => Err(e),
                Ok((r1, b)) => match dec_uint(s, b) {
                    Err(e) => Err(e),
                    Ok((r2, end)) => Ok((BlockModel::FenceEllipse(l, r1, r2), end)),
                },
            },
        }
    } else if tag == 3 {
        match dec_location(s, q) {
            Err(e) => Err(e),
            Ok((l1, a)) => match dec_location(s, a) {
                Err(e) => Err(e),
                Ok((l2, end)) => Ok((BlockModel::FenceRect(l1, l2), end)),
            },
        }
    } else {
        match dec_u16(s, q) {
            Err(e) => Err(e),
            Ok((f, a)) => match dec_endpoint(s, a) {
                Err(e) => Err(e),
                Ok((n, b)) => match dec_location(s, b) {
                    Err(e) => Err(e),
                    Ok((l, end)) => Ok((BlockModel::Trace(flags_from_wire(f), n, l), end)),
                },
            },
        }
    }
}

pub open spec fn dec_block(s: Seq<u8>, pos: int) -> Result<(BlockModel, int), DecodeError> {
    match dec_tagged(s, pos) {
        Err(e) => Err(e),
        Ok((len, tag, q)) => if tag < 1 || tag > 4 {
            Err(DecodeError::UnknownVariant)
        } else {
            match check_count(len, block_arity(tag)) {
                Err(e) => Err(e),
                Ok(_) => dec_block_body(s, tag, q),
            }
        },
    }
}

pub open spec fn block_from_bytes(s: Seq<u8>) -> Result<BlockModel, DecodeError> {
    whole(dec_block(s, 0), s.len())
}

pub open spec fn tag_of(d: BlockModel) -> u8 {
    match d {
        BlockModel::Position(..) => 1,
        BlockModel::FenceEllipse(..) => 2,
        BlockModel::FenceRect(..) => 3,
        BlockModel::Trace(..) => 4,
    }
}

pub open spec fn body_of(d: BlockModel) -> Seq<u8> {
    match d {
        BlockModel::Position(f, l) => enc_uint(f as u64) + enc_location(l),
        BlockModel::FenceEllipse(l, a, b) => enc_location(l) + enc_uint(a) + enc_uint(b),
        BlockModel::FenceRect(a, b) => enc_location(a) + enc_location(b),
        BlockModel::Trace(f, e, l) => enc_uint(f as u64) + enc_endpoint(e) + enc_location(l),
    }
}

proof fn lemma_block_frame(p: Seq<u8>, d: BlockModel, r: Seq<u8>)
    ensures
        ({
            let h = enc_head(MAJOR_ARRAY, block_arity(tag_of(d)));
            let t = enc_uint(tag_of(d) as u64);
            &&& enc_block(d) == h + (t + body_of(d))
            &&& p + enc_block(d) + r =~= (p + h + t) + body_of(d) + r
            &&& dec_tagged(p + enc_block(d) + r, p.len() as int) == Ok::<(u64, u8, int), DecodeError>(
                (block_arity(tag_of(d)), tag_of(d), (p + h + t).len() as int),
            )
        }),
{
    let k = block_arity(tag_of(d));
    let h = enc_head(MAJOR_ARRAY, k);
    let t = enc_uint(tag_of(d) as u64);
    let body = body_of(d);
    assert(enc_block(d) =~= h + (t + body));
    let s = p + enc_block(d) + r;
    assert(s =~= p + (h + t) + (body + r));
    crate::location::lemma_tagged_round_trip(p, k, tag_of(d), body + r);
    assert(s =~= (p + h + t) + body + r);
}

#[verifier::rlimit(60)]
proof fn lemma_position_body(q: Seq<u8>, f: u16, l: LocationModel, r: Seq<u8>)
    requires
        block_wf(BlockModel::Position(f, l)),
    ensures
        ({
            let d = BlockModel::Position(f, l);
            dec_block_body(q + body_of(d) + r, 1, q.len() as int) == Ok::<(BlockModel, int), DecodeError>(
                (d, (q.len() + body_of(d).len()) as int),
            )
        }),
{
    crate::location::lemma_flags_from_wire(f);
    let s = q + body_of(BlockModel::Position(f, l)) + r;
    let x = enc_uint(f as u64);
    assert(s =~= q + x + (enc_location(l) + r));
    lemma_u16_round_trip(q, f, enc_location(l) + r);
    assert(s =~= (q + x) + enc_location(l) + r);
    lemma_location_round_trip(q + x, l, r);
}

#[verifier::rlimit(60)]
proof fn lemma_ellipse_body(q: Seq<u8>, l: LocationModel, a: u64, b: u64, r: Seq<u8>)
    requires
        block_wf(BlockModel::FenceEllipse(l, a, b)),
    ensures
        ({
            let d = BlockModel::FenceEllipse(l, a, b);
            dec_block_body(q + body_of(d) + r, 2, q.len() as int) == Ok::<(BlockModel, int), DecodeError>(
                (d, (q.len() + body_of(d).len()) as int),
            )
        }),
{
    let s = q + body_of(BlockModel::FenceEllipse(l, a, b)) + r;
    let x = enc_location(l);
    let y = enc_uint(a);
    let z = enc_uint(b);
    assert(s =~= q + x + (y + z + r));
    lemma_location_round_trip(q, l, y + z + r);
    assert(s =~= (q + x) + y + (z + r));
    lemma_uint_round_trip(q + x, a, z + r);
    assert(s =~= (q + x + y) + z + r);
    lemma_uint_round_trip(q + x + y, b, r);
}

#[verifier::rlimit(60)]
proof fn lemma_rect_body(q: Seq<u8>, a: LocationModel, b: LocationModel, r: Seq<u8>)
    requires
        block_wf(BlockModel::FenceRect(a, b)),
    ensures
        ({
            let d = BlockModel::FenceRect(a, b);
            dec_block_body(q + body_of(d) + r, 3, q.len() as int) == Ok::<(BlockModel, int), DecodeError>(
                (d, (q.len() + body_of(d).len()) as int),
            )
        }),
{
    let s = q + body_of(BlockModel::FenceRect(a, b)) + r;
    let x = enc_location(a);
    let y = enc_location(b);
    assert(s =~= q + x + (y + r));
    lemma_location_round_trip(q, a, y + r);
    assert(s =~= (q + x) + y + r);
    lemma_location_round_trip(q + x, b, r);
}

#[verifier::rlimit(60)]
proof fn lemma_trace_body(q: Seq<u8>, f: u16, e: EndpointModel, l: LocationModel, r: Seq<u8>)
    requires
        block_wf(BlockModel::Trace(f, e, l)),
    ensures
        ({
            let d = BlockModel::Trace(f, e, l);
            dec_block_body(q + body_of(d) + r, 4, q.len() as int) == Ok::<(BlockModel, int), DecodeError>(
                (d, (q.len() + body_of(d).len()) as int),
            )
        }),
{
    crate::location::lemma_flags_from_wire(f);
    let s = q + body_of(BlockModel::Trace(f, e, l)) + r;
    let x = enc_uint(f as u64);
    let y = enc_endpoint(e);
    let z = enc_location(l);
    assert(s =~= q + x + (y + z + r));
    lemma_u16_round_trip(q, f, y + z + r);
    assert(s =~= (q + x) + y + (z + r));
    lemma_endpoint_round_trip(q + x, e, z + r);
    assert(s =~= (q + x + y) + z + r);
    lemma_location_round_trip(q + x + y, l, r);
}

proof fn lemma_body_round_trip(q: Seq<u8>, d: BlockModel, r: Seq<u8>)
    requires
        block_wf(d),
    ensures
        dec_block_body(q + body_of(d) + r, tag_of(d), q.len() as int) == Ok::<(BlockModel, int), DecodeError>(
            (d, (q.len() + body_of(d).len()) as int),
        ),
{
    match d {
        BlockModel::Position(f, l) => lemma_position_body(q, f, l, r),
        BlockModel::FenceEllipse(l, a, b) => lemma_ellipse_body(q, l, a, b, r),
        BlockModel::FenceRect(a, b) => lemma_rect_body(q, a, b, r),
        BlockModel::Trace(f, e, l) => lemma_trace_body(q, f, e, l, r),
    }
}

pub proof fn lemma_block_round_trip(p: Seq<u8>, d: BlockModel, r: Seq<u8>)
    requires
        block_wf(d),
    ensures
        dec_block(p + enc_block(d) + r, p.len() as int) == Ok::<(BlockModel, int), DecodeError>(
            (d, (p.len() + enc_block(d).len()) as int),
        ),
{
    let h = enc_head(MAJOR_ARRAY, block_arity(tag_of(d)));
    let t = enc_uint(tag_of(d) as u64);
    lemma_block_frame(p, d, r);
    lemma_body_round_trip(p + h + t, d, r);
}

/// Decoding the encoding of any location block data gives it back.
pub proof fn block_round_trip(d: BlockModel)
    requires
        block_wf(d),
    ensures
        block_from_bytes(enc_block(d)) == Ok::<BlockModel, DecodeError>(d),
{
    let e = enc_block(d);
    lemma_block_round_trip(Seq::empty(), d, Seq::empty());
    assert(Seq::<u8>::empty() + e + Seq::<u8>::empty() =~= e);
}

fn flags_named(bits: u16) -> (r: NodeTypeFlags)
    ensures
        r@ == flags_from_wire(bits),
{
    NodeTypeFlags::from_bits_truncate(bits)
}

fn read_block_body(s: &[u8], tag: u8, q: usize) -> (r: Result<(LocationBlockData, usize), DecodeError>)
    ensures
        match r {
            Ok((d, p)) => dec_block_body(s@, tag, q as int) == Ok::<(BlockModel, int), DecodeError>(
                (d@, p as int),
            ),
            Err(e) => dec_block_body(s@, tag, q as int) == Err::<(BlockModel, int), DecodeError>(e),
        },
{
    if tag == 1 {
        let (f, a) = match read_u16(s, q) {
            Ok(x) => x,
            Err(e) => return Err(e),
        };
        let (l, end) = match Location::read_cbor(s, a) {
            Ok(x) => x,
            Err(e) => return Err(e),
        };
        Ok((LocationBlockData::Position(flags_named(f), l), end))
    } else if tag == 2 {
        let (l, a) = match Location::read_cbor(s, q) {
            Ok(x) => x,
            Err(e) => return Err(e),
        };
        let (r1, b) = match read_uint(s, a) {
            Ok(x) => x,
            Err(e) => return Err(e),
        };
        let (r2, end) = match read_uint(s, b) {
            Ok(x) => x,
            Err(e) => return Err(e),
        };
        Ok((LocationBlockData::FenceEllipse(l, r1, r2), end))
    } else if tag == 3 {
        let (l1, a) = match Location::read_cbor(s, q) {
            Ok(x) => x,
            Err(e) => return Err(e),
        };
        let (l2, end) = match Location::read_cbor(s, a) {
            Ok(x) => x,
            Err(e) => return Err(e),
        };
        Ok((LocationBlockData::FenceRect(l1, l2), end))
    } else {
        let (f, a) = match read_u16(s, q) {
            Ok(x) => x,
            Err(e) => return Err(e),
        };
        let (n, b) = match Endpoint::read_cbor(s, a) {
            Ok(x) => x,
            Err(e) => return Err(e),
        };
        let (l, end) = match Location::read_cbor(s, b) {
            Ok(x) => x,
            Err(e) => return Err(e),
        };
        Ok((LocationBlockData::Trace(flags_named(f), n, l), end))
    }
}

impl LocationBlockData {
    /// Which variant this is.
    pub fn block_type(&self) -> (r: LocationBlockType)
        ensures
            r.code_spec() == tag_of(self@),
    {
        match self {
            LocationBlockData::Position(..) => LocationBlockType::Position,
            LocationBlockData::FenceEllipse(..) => LocationBlockType::FenceEllipse,
            LocationBlockData::FenceRect(..) => LocationBlockType::FenceRect,
            LocationBlockData::Trace(..) => LocationBlockType::Trace,
        }
    }

    pub fn write_cbor(&self, out: &mut Vec<u8>)
        ensures
            final(out)@ == old(out)@ + enc_block(self@),
    {
        match self {
            LocationBlockData::Position(f, l) => {
                write_head(out, MAJOR_ARRAY, 3);
                write_uint(out, 1);
                write_uint(out, f.bits() as u64);
                l.write_cbor(out);
            },
            LocationBlockData::FenceEllipse(l, a, b) => {
                write_head(out, MAJOR_ARRAY, 4);
                write_uint(out, 2);
                l.write_cbor(out);
                write_uint(out, *a);
                write_uint(out, *b);
            },
            LocationBlockData::FenceRect(a, b) => {
                write_head(out, MAJOR_ARRAY, 3);
                write_uint(out, 3);
                a.write_cbor(out);
                b.write_cbor(out);
            },
            LocationBlockData::Trace(f, e, l) => {
                write_head(out, MAJOR_ARRAY, 4);
                write_uint(out, 4);
                write_uint(out, f.bits() as u64);
                e.write_cbor(out);
                l.write_cbor(out);
            },
        }
        assert(final(out)@ =~= old(out)@ + enc_block(self@));
    }

    pub fn read_cbor(s: &[u8], pos: usize) -> (r: Result<(LocationBlockData, usize), DecodeError>)
        ensures
            match r {
                Ok((d, p)) => dec_block(s@, pos as int) == Ok::<(BlockModel, int), DecodeError>(
                    (d@, p as int),
                ),
                Err(e) => dec_block(s@, pos as int) == Err::<(BlockModel, int), DecodeError>(e),
            },
    {
        let (len, tag, q) = match crate::location::read_tagged(s, pos) {
            Ok(x) => x,
            Err(e) => return Err(e),
        };
        if tag < 1 || tag > 4 {
            return Err(DecodeError::UnknownVariant);
        }
        let k: u64 = if tag == 2 || tag == 4 {
            4
        } else {
            3
        };
        match crate::location::count_ok(len, k) {
            Err(e) => return Err(e),
            Ok(_) => {},
        }
        read_block_body(s, tag, q)
    }

    /// The wire form: `[discriminant, fields...]`.
    pub fn to_cbor(&self) -> (r: Vec<u8>)
        ensures
            r@ == enc_block(self@),
    {
        let mut out: Vec<u8> = Vec::new();
        self.write_cbor(&mut out);
        assert(out@ =~= enc_block(self@));
        out
    }

    /// Reads location block data that fills the whole of `s`.
    pub fn from_cbor(s: &[u8]) -> (r: Result<LocationBlockData, DecodeError>)
        ensures
            match r {
                Ok(d) => block_from_bytes(s@) == Ok::<BlockModel, DecodeError>(d@),
                Err(e) => block_from_bytes(s@) == Err::<BlockModel, DecodeError>(e),
            },
    {
        match LocationBlockData::read_cbor(s, 0) {
            Ok((d, end)) => if end == s.len() {
                Ok(d)
            } else {
                Err(DecodeError::TypeMismatch)
            },
            Err(e) => Err(e),
        }
    }
}

#[derive(Debug, Clone, Copy, PartialEq, Eq, Structural)]
pub enum LocationError {
    /// The block is not a location block, or does not carry raw data.
    InvalidLocationBlock,
    /// The data is not location block data.
    Malformed(DecodeError),
}

/// What a block of type `block_type` with raw data `data` holds.
pub open spec fn location_verdict(block_type: u64, data: Option<Seq<u8>>) -> Result<BlockModel, LocationError> {
    if block_type != LOCATION_BLOCK {
        Err(LocationError::InvalidLocationBlock)
    } else {
        match data {
            None => Err(LocationError::InvalidLocationBlock),
            Some(d) => match block_from_bytes(d) {
                Ok(m) => Ok(m),
                Err(e) => Err(LocationError::Malformed(e)),
            },
        }
    }
}

/// Reads location data from the type and the raw data of a block.
pub fn location_from_block(block_type: u64, data: Option<&[u8]>) -> (r: Result<LocationBlockData, LocationError>)
    ensures
        match r {
            Ok(d) => location_verdict(block_type, match data {
                Some(x) => Some(x@),
                None => None,
            }) == Ok::<BlockModel, LocationError>(d@),
            Err(e) => location_verdict(block_type, match data {
                Some(x) => Some(x@),
                None => None,
            }) == Err::<BlockModel, LocationError>(e),
        },
{
    if block_type != LOCATION_BLOCK {
        return Err(LocationError::InvalidLocationBlock);
    }
    match data {
        None => Err(LocationError::InvalidLocationBlock),
        Some(x) => match LocationBlockData::from_cbor(x) {
            Ok(d) => Ok(d),
            Err(e) => Err(LocationError::Malformed(e)),
        },
    }
}

/// A location block with the given block number.
pub fn new_location_block(block_number: u64, data: LocationBlockData) -> (r: bp7::CanonicalBlock)
    ensures
        block_type(r) == LOCATION_BLOCK,
        unknown_data(r) == Some(enc_block(data@)),
{
    unknown_block(LOCATION_BLOCK, block_number, data.to_cbor())
}

/// The location data that a block carries.
pub fn get_location_data(cblock: &bp7::CanonicalBlock) -> (r: Result<LocationBlockData, LocationError>)
    ensures
        match r {
            Ok(d) => location_verdict(block_type(*cblock), unknown_data(*cblock)) == Ok::<
                BlockModel,
                LocationError,
            >(d@),
            Err(e) => location_verdict(block_type(*cblock), unknown_data(*cblock)) == Err::<
                BlockModel,
                LocationError,
            >(e),
        },
{
    let t = block_type_of(cblock);
    match unknown_data_of(cblock) {
        Some(d) => location_from_block(t, Some(d.as_slice())),
        None => location_from_block(t, None),
    }
}

/// The data of a location block made from `d` reads back as `d`.
pub proof fn location_block_round_trip(d: BlockModel)
    requires
        block_wf(d),
    ensures
        location_verdict(LOCATION_BLOCK, Some(enc_block(d))) == Ok::<BlockModel, LocationError>(d),
{
    block_round_trip(d);
}

} // verus!
