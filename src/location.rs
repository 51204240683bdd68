//! Location reports: positions in several addressing schemes, geofences and
//! traces, each written as a CBOR array that starts with its discriminant.
use crate::cbor::{
    dec_f32, dec_head_of, f32_kept, dec_text, dec_discriminant, enc_f32, enc_head, enc_text,
    enc_uint, lemma_f32_round_trip, lemma_head_of_round_trip, lemma_text_round_trip,
    lemma_discriminant_round_trip, read_f32, read_head_of,
    read_text, read_discriminant, write_f32, write_head, write_text, write_uint,
    DecodeError, MAJOR_ARRAY,
};
pub use crate::block::{get_location_data, new_location_block, LocationBlockData, LocationError};
use vstd::prelude::*;
use vstd::utf8::encode_utf8;

verus! {

/// Bit set describing a node; only the five named bits are ever set.
#[derive(Debug, Clone, Copy, PartialEq, Eq, Structural)]
pub struct NodeTypeFlags {
    bits: u16,
}

pub const FLAG_MOBILE: u16 = 0b00001;
pub const FLAG_PURESENDER: u16 = 0b00010;
pub const FLAG_GW: u16 = 0b00100;
pub const FLAG_INTERNET: u16 = 0b01000;
pub const FLAG_BATTERY: u16 = 0b10000;
/// The union of all named bits.
pub const FLAG_ALL: u16 = 0b11111;

/// A bit pattern made of named bits only.
pub open spec fn flags_wf(bits: u16) -> bool {
    bits <= FLAG_ALL
}

/// What a decoder makes of a received bit pattern: the named bits are kept,
/// unknown bits are dropped.
pub open spec fn flags_from_wire(bits: u16) -> u16 {
    bits & FLAG_ALL
}

/// A pattern of named bits reads back unchanged.
pub proof fn lemma_flags_from_wire(bits: u16)
    ensures
        flags_wf(flags_from_wire(bits)),
        flags_wf(bits) ==> flags_from_wire(bits) == bits,
{
    assert((bits & 0x1f) <= 0x1f && (bits <= 0x1f ==> bits & 0x1f == bits)) by (bit_vector);
}

impl View for NodeTypeFlags {
    type V = u16;

    closed spec fn view(&self) -> u16 {
        self.bits
    }
}

impl NodeTypeFlags {
    #[verifier::type_invariant]
    spec fn named_bits_only(self) -> bool {
        flags_wf(self.bits)
    }

    pub fn empty() -> (r: NodeTypeFlags)
        ensures
            r@ == 0,
    {
        NodeTypeFlags { bits: 0 }
    }

    /// A mobile device, moving over time.
    pub fn mobile() -> (r: NodeTypeFlags)
        ensures
            r@ == FLAG_MOBILE,
    {
        NodeTypeFlags { bits: FLAG_MOBILE }
    }

    /// A node that does not listen for incoming bundles.
    pub fn pure_sender() -> (r: NodeTypeFlags)
        ensures
            r@ == FLAG_PURESENDER,
    {
        NodeTypeFlags { bits: FLAG_PURESENDER }
    }

    /// A gateway between networks.
    pub fn gateway() -> (r: NodeTypeFlags)
        ensures
            r@ == FLAG_GW,
    {
        NodeTypeFlags { bits: FLAG_GW }
    }

    /// A node with a working Internet uplink.
    pub fn internet() -> (r: NodeTypeFlags)
        ensures
            r@ == FLAG_INTERNET,
    {
        NodeTypeFlags { bits: FLAG_INTERNET }
    }

    /// A battery-powered node.
    pub fn battery() -> (r: NodeTypeFlags)
        ensures
            r@ == FLAG_BATTERY,
    {
        NodeTypeFlags { bits: FLAG_BATTERY }
    }

    /// The set with exactly these bits, if all of them are named bits.
    pub fn from_bits(bits: u16) -> (r: Option<NodeTypeFlags>)
        ensures
            r is Some <==> flags_wf(bits),
            r is Some ==> r->Some_0@ == bits,
    {
        if bits <= FLAG_ALL {
            Some(NodeTypeFlags { bits })
        } else {
            None
        }
    }

    /// The named bits of `bits`; unknown bits are dropped.
    pub fn from_bits_truncate(bits: u16) -> (r: NodeTypeFlags)
        ensures
            r@ == flags_from_wire(bits),
    {
        proof {
            lemma_flags_from_wire(bits);
        }
        NodeTypeFlags { bits: bits & FLAG_ALL }
    }

    pub fn bits(&self) -> (r: u16)
        ensures
            r == self@,
            flags_wf(r),
    {
        proof {
            use_type_invariant(self);
        }
        self.bits
    }

    /// Both sets together.
    pub fn union(&self, other: &NodeTypeFlags) -> (r: NodeTypeFlags)
        ensures
            r@ == self@ | other@,
            flags_wf(r@),
    {
        proof {
            use_type_invariant(self);
            use_type_invariant(other);
        }
        let x = self.bits;
        let y = other.bits;
        let b = x | y;
        assert(b <= 31) by (bit_vector)
            requires
                x <= 31u16,
                y <= 31u16,
                b == x | y,
        ;
        NodeTypeFlags { bits: b }
    }

    /// Whether every bit of `other` is in this set.
    pub fn contains(&self, other: &NodeTypeFlags) -> (r: bool)
        ensures
            r == (self@ & other@ == other@),
    {
        self.bits & other.bits == other.bits
    }
}

/// The discriminants of the location block variants.
#[derive(Debug, Clone, Copy, PartialEq, Eq, Structural)]
pub enum LocationBlockType {
    Position,
    FenceEllipse,
    FenceRect,
    Trace,
}

impl LocationBlockType {
    pub open spec fn code_spec(self) -> u8 {
        match self {
            LocationBlockType::Position => 1,
            LocationBlockType::FenceEllipse => 2,
            LocationBlockType::FenceRect => 3,
            LocationBlockType::Trace => 4,
        }
    }

    pub fn code(&self) -> (r: u8)
        ensures
            r == self.code_spec(),
    {
        match self {
            LocationBlockType::Position => 1,
            LocationBlockType::FenceEllipse => 2,
            LocationBlockType::FenceRect => 3,
            LocationBlockType::Trace => 4,
        }
    }

    pub fn from_code(c: u8) -> (r: Option<LocationBlockType>)
        ensures
            r is Some <==> 1 <= c <= 4,
            r is Some ==> r->Some_0.code_spec() == c,
    {
        if c == 1 {
            Some(LocationBlockType::Position)
        } else if c == 2 {
            Some(LocationBlockType::FenceEllipse)
        } else if c == 3 {
            Some(LocationBlockType::FenceRect)
        } else if c == 4 {
            Some(LocationBlockType::Trace)
        } else {
            None
        }
    }
}

/// The block type number under which location data travels in a bundle.
pub const LOCATION_BLOCK: u64 = 223;

pub const LOC_LATLON: u8 = 1;
pub const LOC_HUMAN: u8 = 2;
pub const LOC_WFW: u8 = 3;
pub const LOC_XY: u8 = 4;

/// A location in one of four addressing schemes. Coordinates are
/// single-precision floats, held as their IEEE 754 bit patterns.
#[derive(Debug, Clone, PartialEq, Eq)]
pub enum Location {
    /// Geographic latitude and longitude.
    LatLon(u32, u32),
    /// A human-readable address.
    Human(String),
    /// A three-word geocode.
    WFW(String),
    /// Planar x and y.
    XY(u32, u32),
}

pub enum LocationModel {
    LatLon(u32, u32),
    Human(Seq<char>),
    WFW(Seq<char>),
    XY(u32, u32),
}

impl View for Location {
    type V = LocationModel;

    open spec fn view(&self) -> LocationModel {
        match self {
            Location::LatLon(a, b) => LocationModel::LatLon(*a, *b),
            Location::Human(t) => LocationModel::Human(t@),
            Location::WFW(t) => LocationModel::WFW(t@),
            Location::XY(a, b) => LocationModel::XY(*a, *b),
        }
    }
}

/// A location whose texts fit the length field of the wire form, and whose
/// coordinates are not NaNs other than the canonical one (half precision keeps
/// no NaN payload).
pub open spec fn location_wf(l: LocationModel) -> bool {
    match l {
        LocationModel::Human(t) => encode_utf8(t).len() <= u64::MAX,
        LocationModel::WFW(t) => encode_utf8(t).len() <= u64::MAX,
        LocationModel::LatLon(a, b) => f32_kept(a) && f32_kept(b),
        LocationModel::XY(a, b) => f32_kept(a) && f32_kept(b),
    }
}

pub open spec fn enc_coords(a: u32, b: u32) -> Seq<u8> {
    enc_head(MAJOR_ARRAY, 2) + enc_f32(a) + enc_f32(b)
}

pub open spec fn enc_location(l: LocationModel) -> Seq<u8> {
    enc_head(MAJOR_ARRAY, 2) + match l {
        LocationModel::LatLon(a, b) => enc_uint(LOC_LATLON as u64) + enc_coords(a, b),
        LocationModel::Human(t) => enc_uint(LOC_HUMAN as u64) + enc_text(t),
        LocationModel::WFW(t) => enc_uint(LOC_WFW as u64) + enc_text(t),
        LocationModel::XY(a, b) => enc_uint(LOC_XY as u64) + enc_coords(a, b),
    }
}

/// Compares the announced number of items with the number that the variant has.
pub open spec fn check_count(len: u64, k: u64) -> Result<(), DecodeError> {
    if len < k {
        Err(DecodeError::Truncated)
    } else if len > k {
        Err(DecodeError::TypeMismatch)
    } else {
        Ok(())
    }
}

/// Reads the array head and the discriminant of a tagged value.
pub open spec fn dec_tagged(s: Seq<u8>, pos: int) -> Result<(u64, u8, int), DecodeError> {
    match dec_head_of(s, pos, MAJOR_ARRAY) {
        Err(e) => Err(e),
        Ok((len, p)) => if len == 0 {
            Err(DecodeError::Truncated)
        } else {
            match dec_discriminant(s, p) {
                Err(e) => Err(e),
                Ok((tag, q)) => Ok((len, tag, q)),
            }
        },
    }
}

pub open spec fn dec_coords(s: Seq<u8>, pos: int) -> Result<(u32, u32, int), DecodeError> {
    match dec_head_of(s, pos, MAJOR_ARRAY) {
        Err(e) => Err(e),
        Ok((len, p)) => match check_count(len, 2) {
            Err(e) => Err(e),
            Ok(_) => match dec_f32(s, p) {
                Err(e) => Err(e),
                Ok((a, q)) => match dec_f32(s, q) {
                    Err(e) => Err(e),
                    Ok((b, end)) => Ok((a, b, end)),
                },
            },
        },
    }
}

pub open spec fn dec_location(s: Seq<u8>, pos: int) -> Result<(LocationModel, int), DecodeError> {
    match dec_tagged(s, pos) {
        Err(e) => Err(e),
        Ok((len, tag, q)) => if tag < 1 || tag > 4 {
            Err(DecodeError::UnknownVariant)
        } else {
            match check_count(len, 2) {
                Err(e) => Err(e),
                Ok(_) => if tag == LOC_LATLON || tag == LOC_XY {
                    match dec_coords(s, q) {
                        Err(e) => Err(e),
                        Ok((a, b, end)) => Ok(
                            (
                                if tag == LOC_LATLON {
                                    LocationModel::LatLon(a, b)
                                } else {
                                    LocationModel::XY(a, b)
                                },
                                end,
                            ),
                        ),
                    }
                } else {
                    match dec_text(s, q) {
                        Err(e) => Err(e),
                        Ok((t, end)) => Ok(
                            (
                                if tag == LOC_HUMAN {
                                    LocationModel::Human(t)
                                } else {
                                    LocationModel::WFW(t)
                                },
                                end,
                            ),
                        ),
                    }
                },
            }
        },
    }
}

/// A whole byte string read as one value: bytes left over are a mismatch.
pub open spec fn whole<T>(r: Result<(T, int), DecodeError>, len: nat) -> Result<T, DecodeError> {
    match r {
        Ok((v, end)) => if end == len {
            Ok(v)
        } else {
            Err(DecodeError::TypeMismatch)
        },
        Err(e) => Err(e),
    }
}

pub open spec fn location_from_bytes(s: Seq<u8>) -> Result<LocationModel, DecodeError> {
    whole(dec_location(s, 0), s.len())
}

pub proof fn lemma_tagged_round_trip(p: Seq<u8>, k: u64, tag: u8, r: Seq<u8>)
    requires
        k >= 1,
    ensures
        dec_tagged(p + (enc_head(MAJOR_ARRAY, k) + enc_uint(tag as u64)) + r, p.len() as int)
            == Ok::<(u64, u8, int), DecodeError>(
            (k, tag, (p.len() + enc_head(MAJOR_ARRAY, k).len() + enc_uint(tag as u64).len()) as int),
        ),
{
    let h = enc_head(MAJOR_ARRAY, k);
    let t = enc_uint(tag as u64);
    let s = p + (h + t) + r;
    assert(s =~= p + h + (t + r));
    lemma_head_of_round_trip(p, MAJOR_ARRAY, k, t + r);
    assert(s =~= (p + h) + t + r);
    lemma_discriminant_round_trip(p + h, tag, r);
}

proof fn lemma_coords_round_trip(p: Seq<u8>, a: u32, b: u32, r: Seq<u8>)
    requires
        f32_kept(a),
        f32_kept(b),
    ensures
        dec_coords(p + enc_coords(a, b) + r, p.len() as int) == Ok::<(u32, u32, int), DecodeError>(
            (a, b, (p.len() + enc_coords(a, b).len()) as int),
        ),
{
    let h = enc_head(MAJOR_ARRAY, 2);
    let x = enc_f32(a);
    let y = enc_f32(b);
    let s = p + enc_coords(a, b) + r;
    assert(s =~= p + h + (x + y + r));
    lemma_head_of_round_trip(p, MAJOR_ARRAY, 2, x + y + r);
    assert(s =~= (p + h) + x + (y + r));
    lemma_f32_round_trip(p + h, a, y + r);
    assert(s =~= (p + h + x) + y + r);
    lemma_f32_round_trip(p + h + x, b, r);
}

proof fn lemma_tagged_body(p: Seq<u8>, tag: u8, body: Seq<u8>, r: Seq<u8>)
    ensures
        ({
            let h = enc_head(MAJOR_ARRAY, 2);
            let t = enc_uint(tag as u64);
            &&& p + (h + (t + body)) + r =~= (p + h + t) + body + r
            &&& dec_tagged(p + (h + (t + body)) + r, p.len() as int) == Ok::<(u64, u8, int), DecodeError>(
                (2, tag, (p + h + t).len() as int),
            )
        }),
{
    let h = enc_head(MAJOR_ARRAY, 2);
    let t = enc_uint(tag as u64);
    assert(p + (h + (t + body)) + r =~= p + (h + t) + (body + r));
    lemma_tagged_round_trip(p, 2, tag, body + r);
    assert(p + (h + (t + body)) + r =~= (p + h + t) + body + r);
}

proof fn lemma_coords_location(p: Seq<u8>, l: LocationModel, r: Seq<u8>)
    requires
        l is LatLon || l is XY,
        location_wf(l),
    ensures
        dec_location(p + enc_location(l) + r, p.len() as int) == Ok::<(LocationModel, int), DecodeError>(
            (l, (p.len() + enc_location(l).len()) as int),
        ),
{
    let (tag, a, b) = match l {
        LocationModel::LatLon(a, b) => (LOC_LATLON, a, b),
        LocationModel::XY(a, b) => (LOC_XY, a, b),
        _ => (0, 0, 0),
    };
    let h = enc_head(MAJOR_ARRAY, 2);
    let t = enc_uint(tag as u64);
    let body = enc_coords(a, b);
    assert(enc_location(l) == h + (t + body));
    lemma_tagged_body(p, tag, body, r);
    lemma_coords_round_trip(p + h + t, a, b, r);
}

proof fn lemma_text_location(p: Seq<u8>, l: LocationModel, r: Seq<u8>)
    requires
        l is Human || l is WFW,
        location_wf(l),
    ensures
        dec_location(p + enc_location(l) + r, p.len() as int) == Ok::<(LocationModel, int), DecodeError>(
            (l, (p.len() + enc_location(l).len()) as int),
        ),
{
    let (tag, x) = match l {
        LocationModel::Human(x) => (LOC_HUMAN, x),
        LocationModel::WFW(x) => (LOC_WFW, x),
        _ => (0, Seq::empty()),
    };
    let h = enc_head(MAJOR_ARRAY, 2);
    let t = enc_uint(tag as u64);
    let body = enc_text(x);
    assert(enc_location(l) == h + (t + body));
    lemma_tagged_body(p, tag, body, r);
    lemma_text_round_trip(p + h + t, x, r);
}

pub proof fn lemma_location_round_trip(p: Seq<u8>, l: LocationModel, r: Seq<u8>)
    requires
        location_wf(l),
    ensures
        dec_location(p + enc_location(l) + r, p.len() as int) == Ok::<(LocationModel, int), DecodeError>(
            (l, (p.len() + enc_location(l).len()) as int),
        ),
{
    if l is LatLon || l is XY {
        lemma_coords_location(p, l, r);
    } else {
        lemma_text_location(p, l, r);
    }
}

/// Decoding the encoding of any location gives that location back.
pub proof fn location_round_trip(l: LocationModel)
    requires
        location_wf(l),
    ensures
        location_from_bytes(enc_location(l)) == Ok::<LocationModel, DecodeError>(l),
{
    let e = enc_location(l);
    lemma_location_round_trip(Seq::empty(), l, Seq::empty());
    assert(Seq::<u8>::empty() + e + Seq::<u8>::empty() =~= e);
}

pub(crate) fn read_tagged(s: &[u8], pos: usize) -> (r: Result<(u64, u8, usize), DecodeError>)
    ensures
        match r {
            Ok((len, tag, q)) => dec_tagged(s@, pos as int) == Ok::<(u64, u8, int), DecodeError>(
                (len, tag, q as int),
            ),
            Err(e) => dec_tagged(s@, pos as int) == Err::<(u64, u8, int), DecodeError>(e),
        },
{
    match read_head_of(s, pos, MAJOR_ARRAY) {
        Err(e) => Err(e),
        Ok((len, p)) => if len == 0 {
            Err(DecodeError::Truncated)
        } else {
            match read_discriminant(s, p) {
                Err(e) => Err(e),
                Ok((tag, q)) => Ok((len, tag, q)),
            }
        },
    }
}

pub(crate) fn count_ok(len: u64, k: u64) -> (r: Result<(), DecodeError>)
    ensures
        r == check_count(len, k),
{
    if len < k {
        Err(DecodeError::Truncated)
    } else if len > k {
        Err(DecodeError::TypeMismatch)
    } else {
        Ok(())
    }
}

fn read_coords(s: &[u8], pos: usize) -> (r: Result<(u32, u32, usize), DecodeError>)
    ensures
        match r {
            Ok((a, b, p)) => dec_coords(s@, pos as int) == Ok::<(u32, u32, int), DecodeError>(
                (a, b, p as int),
            ),
            Err(e) => dec_coords(s@, pos as int) == Err::<(u32, u32, int), DecodeError>(e),
        },
{
    let (len, p) = match read_head_of(s, pos, MAJOR_ARRAY) {
        Ok(x) => x,
        Err(e) => return Err(e),
    };
    match count_ok(len, 2) {
        Err(e) => return Err(e),
        Ok(_) => {},
    }
    let (a, q) = match read_f32(s, p) {
        Ok(x) => x,
        Err(e) => return Err(e),
    };
    let (b, end) = match read_f32(s, q) {
        Ok(x) => x,
        Err(e) => return Err(e),
    };
    Ok((a, b, end))
}

fn write_coords(out: &mut Vec<u8>, a: u32, b: u32)
    ensures
        final(out)@ == old(out)@ + enc_coords(a, b),
{
    write_head(out, MAJOR_ARRAY, 2);
    write_f32(out, a);
    write_f32(out, b);
    assert(out@ =~= old(out)@ + enc_coords(a, b));
}

impl Location {
    pub fn write_cbor(&self, out: &mut Vec<u8>)
        ensures
            final(out)@ == old(out)@ + enc_location(self@),
    {
        write_head(out, MAJOR_ARRAY, 2);
        match self {
            Location::LatLon(a, b) => {
                write_uint(out, LOC_LATLON as u64);
                write_coords(out, *a, *b);
            },
            Location::Human(t) => {
                write_uint(out, LOC_HUMAN as u64);
                write_text(out, t.as_str());
            },
            Location::WFW(t) => {
                write_uint(out, LOC_WFW as u64);
                write_text(out, t.as_str());
            },
            Location::XY(a, b) => {
                write_uint(out, LOC_XY as u64);
                write_coords(out, *a, *b);
            },
        }
        assert(final(out)@ =~= old(out)@ + enc_location(self@));
    }

    pub fn read_cbor(s: &[u8], pos: usize) -> (r: Result<(Location, usize), DecodeError>)
        ensures
            match r {
                Ok((l, p)) => dec_location(s@, pos as int) == Ok::<(LocationModel, int), DecodeError>(
                    (l@, p as int),
                ),
                Err(e) => dec_location(s@, pos as int) == Err::<(LocationModel, int), DecodeError>(e),
            },
    {
        let (len, tag, q) = match read_tagged(s, pos) {
            Ok(x) => x,
            Err(e) => return Err(e),
        };
        if tag < 1 || tag > 4 {
            return Err(DecodeError::UnknownVariant);
        }
        match count_ok(len, 2) {
            Err(e) => return Err(e),
            Ok(_) => {},
        }
        if tag == LOC_LATLON || tag == LOC_XY {
            match read_coords(s, q) {
                Err(e) => Err(e),
                Ok((a, b, end)) => Ok(
                    (
                        if tag == LOC_LATLON {
                            Location::LatLon(a, b)
                        } else {
                            Location::XY(a, b)
                        },
                        end,
                    ),
                ),
            }
        } else {
            match read_text(s, q) {
                Err(e) => Err(e),
                Ok((t, end)) => Ok(
                    (
                        if tag == LOC_HUMAN {
                            Location::Human(t)
                        } else {
                            Location::WFW(t)
                        },
                        end,
                    ),
                ),
            }
        }
    }

    /// The wire form: `[discriminant, coordinates or text]`.
    pub fn to_cbor(&self) -> (r: Vec<u8>)
        ensures
            r@ == enc_location(self@),
    {
        let mut out: Vec<u8> = Vec::new();
        self.write_cbor(&mut out);
        assert(out@ =~= enc_location(self@));
        out
    }

    /// Reads a location that fills the whole of `s`.
    pub fn from_cbor(s: &[u8]) -> (r: Result<Location, DecodeError>)
        ensures
            match r {
                Ok(l) => location_from_bytes(s@) == Ok::<LocationModel, DecodeError>(l@),
                Err(e) => location_from_bytes(s@) == Err::<LocationModel, DecodeError>(e),
            },
    {
        match Location::read_cbor(s, 0) {
            Ok((l, end)) => if end == s.len() {
                Ok(l)
            } else {
                Err(DecodeError::TypeMismatch)
            },
            Err(e) => Err(e),
        }
    }
}

} // verus!
