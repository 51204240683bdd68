//! The priority extension block: a single 16-bit priority.
use crate::cbor::{dec_u16, enc_uint, lemma_u16_round_trip, read_u16, write_uint, DecodeError};
use crate::location::whole;
use crate::transport::{block_type, block_type_of, unknown_block, unknown_data, unknown_data_of};
use vstd::prelude::*;

verus! {

/// The block type number under which a priority travels in a bundle.
pub const PRIORITY_BLOCK: u64 = 224;

#[derive(Debug, Clone, Copy, PartialEq, Eq, Structural)]
pub struct PriorityBlockData(pub u16);

#[derive(Debug, Clone, Copy, PartialEq, Eq, Structural)]
pub enum PriorityError {
    /// The block is not a priority block, or does not carry raw data.
    InvalidPriorityBlock,
    /// The data is not a priority.
    Malformed(DecodeError),
}

pub open spec fn priority_from_bytes(s: Seq<u8>) -> Result<u16, DecodeError> {
    whole(dec_u16(s, 0), s.len())
}

/// Decoding the encoding of a priority gives it back.
pub proof fn priority_round_trip(p: u16)
    ensures
        priority_from_bytes(enc_uint(p as u64)) == Ok::<u16, DecodeError>(p),
{
    let e = enc_uint(p as u64);
    lemma_u16_round_trip(Seq::empty(), p, Seq::empty());
    assert(Seq::<u8>::empty() + e + Seq::<u8>::empty() =~= e);
}

/// What a block of type `block_type` with raw data `data` holds.
pub open spec fn priority_verdict(block_type: u64, data: Option<Seq<u8>>) -> Result<u16, PriorityError> {
    if block_type != PRIORITY_BLOCK {
        Err(PriorityError::InvalidPriorityBlock)
    } else {
        match data {
            None => Err(PriorityError::InvalidPriorityBlock),
            Some(d) => match priority_from_bytes(d) {
                Ok(p) => Ok(p),
                Err(e) => Err(PriorityError::Malformed(e)),
            },
        }
    }
}

impl PriorityBlockData {
    /// The wire form: an unsigned integer.
    pub fn to_cbor(&self) -> (r: Vec<u8>)
        ensures
            r@ == enc_uint(self.0 as u64),
    {
        let mut out: Vec<u8> = Vec::new();
        write_uint(&mut out, self.0 as u64);
        assert(out@ =~= enc_uint(self.0 as u64));
        out
    }

    pub fn from_cbor(s: &[u8]) -> (r: Result<PriorityBlockData, DecodeError>)
        ensures
            match r {
                Ok(p) => priority_from_bytes(s@) == Ok::<u16, DecodeError>(p.0),
                Err(e) => priority_from_bytes(s@) == Err::<u16, DecodeError>(e),
            },
    {
        match read_u16(s, 0) {
            Ok((p, end)) => if end == s.len() {
                Ok(PriorityBlockData(p))
            } else {
                Err(DecodeError::TypeMismatch)
            },
            Err(e) => Err(e),
        }
    }
}

/// Reads the priority from the type and the raw data of a block.
pub fn priority_from_block(block_type: u64, data: Option<&[u8]>) -> (r: Result<PriorityBlockData, PriorityError>)
    ensures
        match r {
            Ok(p) => priority_verdict(block_type, match data {
                Some(d) => Some(d@),
                None => None,
            }) == Ok::<u16, PriorityError>(p.0),
            Err(e) => priority_verdict(block_type, match data {
                Some(d) => Some(d@),
                None => None,
            }) == Err::<u16, PriorityError>(e),
        },
{
    if block_type != PRIORITY_BLOCK {
        return Err(PriorityError::InvalidPriorityBlock);
    }
    match data {
        None => Err(PriorityError::InvalidPriorityBlock),
        Some(d) => match PriorityBlockData::from_cbor(d) {
            Ok(p) => Ok(p),
            Err(e) => Err(PriorityError::Malformed(e)),
        },
    }
}

/// A priority block with the given block number.
pub fn new_priority_block(block_number: u64, data: PriorityBlockData) -> (r: bp7::CanonicalBlock)
    ensures
        block_type(r) == PRIORITY_BLOCK,
        unknown_data(r) == Some(enc_uint(data.0 as u64)),
{
    unknown_block(PRIORITY_BLOCK, block_number, data.to_cbor())
}

/// The priority that a block carries.
pub fn get_priority_data(cblock: &bp7::CanonicalBlock) -> (r: Result<PriorityBlockData, PriorityError>)
    ensures
        match r {
            Ok(p) => priority_verdict(block_type(*cblock), unknown_data(*cblock)) == Ok::<u16, PriorityError>(
                p.0,
            ),
            Err(e) => priority_verdict(block_type(*cblock), unknown_data(*cblock)) == Err::<
                u16,
                PriorityError,
            >(e),
        },
{
    let t = block_type_of(cblock);
    match unknown_data_of(cblock) {
        Some(d) => priority_from_block(t, Some(d.as_slice())),
        None => priority_from_block(t, None),
    }
}

/// The data of a priority block made from `p` reads back as `p`.
pub proof fn priority_block_round_trip(p: u16)
    ensures
        priority_verdict(PRIORITY_BLOCK, Some(enc_uint(p as u64))) == Ok::<u16, PriorityError>(p),
{
    priority_round_trip(p);
}

} // verus!
