//! Short messages: a record with a possibly compressed text, carried as the
//! payload of a bundle between two short-message endpoints.
use crate::cbor::{
    enc_head, read_bool, read_bytes, read_head_of, write_bool, write_bytes, write_head,
    DecodeError, MAJOR_MAP,
};
use crate::compress::{pack_text, packed_text, slice_to_owned, stored_text, unpack_text, TextError};
use crate::endpoint::{is_non_singleton, service_is, service_name, Endpoint, EndpointModel};
use crate::fields::{
    dec_bool_field, dec_bytes_field, dec_opt_u8_list_field, enc_bool_field, enc_bytes_field,
    enc_opt_u8_list_field, lemma_bool_field, lemma_bytes_field, lemma_opt_u8_list_field,
    bytes_fit, read_key, read_opt_u8_list, write_key, write_opt_u8_list,
};
use crate::location::{check_count, whole};
use crate::transport::{
    id_of, timestamp_of, wire_bytes, wire_form, bundle_destination, bundle_id, bundle_payload, bundle_source, bundle_timestamp,
    destination_of, eid_model, eid_none, eid_with_ipn, endpoint_of_eid,
    new_bundle, payload_block, payload_of, primary_block, source_of, timestamp_now, Timestamp,
};
use vstd::prelude::*;

verus! {

/// The service number of short-message endpoints in the `ipn` scheme.
pub const SMS_SERVICE: u64 = 767;

/// Lifetime of a new bundle, in seconds.
pub const BUNDLE_LIFETIME_SECS: u64 = 3600;

/// A field that a builder cannot do without.
#[derive(Debug, Clone, Copy, PartialEq, Eq, Structural)]
pub enum RequiredField {
    Message,
    Topic,
}

impl RequiredField {
    pub open spec fn name_spec(self) -> Seq<char> {
        match self {
            RequiredField::Message => "message"@,
            RequiredField::Topic => "topic"@,
        }
    }

    /// `"message"` or `"topic"`.
    pub fn name(&self) -> (r: &'static str)
        ensures
            r@ == self.name_spec(),
    {
        match self {
            RequiredField::Message => "message",
            RequiredField::Topic => "topic",
        }
    }
}

#[derive(Debug, Clone, Copy, PartialEq, Eq, Structural)]
pub enum SmsError {
    /// The bundle has no payload block.
    MissingPayload,
    /// The source is not a short-message endpoint, or is a group.
    BadSourceAddress,
    /// The destination is not a short-message endpoint.
    BadDestinationAddress,
    /// The payload is not a short-message record.
    MalformedRecord(DecodeError),
    /// The message text does not decompress, or is not UTF-8.
    BadTextEncoding(TextError),
    /// The builder lacks a required field.
    MissingField(RequiredField),
    /// A node number of 0 was given.
    InvalidEndpoint,
}

pub struct SmsModel {
    pub comp: bool,
    pub enc: bool,
    pub msg: Seq<u8>,
    pub sig: Option<Seq<u8>>,
}

pub open spec fn opt_bytes_view(o: Option<Vec<u8>>) -> Option<Seq<u8>> {
    match o {
        Some(b) => Some(b@),
        None => None,
    }
}

pub open spec fn key_comp() -> Seq<u8> {
    seq![99u8, 111, 109, 112]
}

pub open spec fn key_enc() -> Seq<u8> {
    seq![101u8, 110, 99]
}

pub open spec fn key_msg() -> Seq<u8> {
    seq![109u8, 115, 103]
}

pub open spec fn key_sig() -> Seq<u8> {
    seq![115u8, 105, 103]
}

pub(crate) fn key_comp_bytes() -> (r: Vec<u8>)
    ensures
        r@ == key_comp(),
{
    let mut v: Vec<u8> = Vec::new();
    v.push(99);
    v.push(111);
    v.push(109);
    v.push(112);
    assert(v@ =~= key_comp());
    v
}

pub(crate) fn key_enc_bytes() -> (r: Vec<u8>)
    ensures
        r@ == key_enc(),
{
    let mut v: Vec<u8> = Vec::new();
    v.push(101);
    v.push(110);
    v.push(99);
    assert(v@ =~= key_enc());
    v
}

pub(crate) fn key_msg_bytes() -> (r: Vec<u8>)
    ensures
        r@ == key_msg(),
{
    let mut v: Vec<u8> = Vec::new();
    v.push(109);
    v.push(115);
    v.push(103);
    assert(v@ =~= key_msg());
    v
}

pub(crate) fn key_sig_bytes() -> (r: Vec<u8>)
    ensures
        r@ == key_sig(),
{
    let mut v: Vec<u8> = Vec::new();
    v.push(115);
    v.push(105);
    v.push(103);
    assert(v@ =~= key_sig());
    v
}

/// The wire form of a record: a map of `comp`, `enc`, `msg` and `sig`, in this order.
pub open spec fn enc_sms(m: SmsModel) -> Seq<u8> {
    enc_head(MAJOR_MAP, 4) + enc_bool_field(key_comp(), m.comp) + enc_bool_field(key_enc(), m.enc)
        + enc_bytes_field(key_msg(), m.msg) + enc_opt_u8_list_field(key_sig(), m.sig)
}

pub open spec fn dec_sms(s: Seq<u8>, pos: int) -> Result<(SmsModel, int), DecodeError> {
    match crate::cbor::dec_head_of(s, pos, MAJOR_MAP) {
        Err(e) => Err(e),
        Ok((n, at0)) => match check_count(n, 4) {
            Err(e) => Err(e),
            Ok(_) => match dec_bool_field(s, at0, key_comp()) {
                Err(e) => Err(e),
                Ok((comp, at1)) => match dec_bool_field(s, at1, key_enc()) {
                    Err(e) => Err(e),
                    Ok((enc, at2)) => match dec_bytes_field(s, at2, key_msg()) {
                        Err(e) => Err(e),
                        Ok((msg, at3)) => match dec_opt_u8_list_field(s, at3, key_sig()) {
                            Err(e) => Err(e),
                            Ok((sig, end)) => Ok((SmsModel { comp, enc, msg, sig }, end)),
                        },
                    },
                },
            },
        },
    }
}

/// The text of a record.
pub open spec fn sms_text(m: SmsModel) -> Result<Seq<char>, TextError> {
    stored_text(m.comp, m.msg)
}

/// A record read from a payload: well-formed, and with a readable text.
pub open spec fn sms_record(s: Seq<u8>) -> Result<SmsModel, SmsError> {
    match whole(dec_sms(s, 0), s.len()) {
        Err(e) => Err(SmsError::MalformedRecord(e)),
        Ok(m) => match sms_text(m) {
            Err(e) => Err(SmsError::BadTextEncoding(e)),
            Ok(_) => Ok(m),
        },
    }
}

/// Lengths that fit the wire form.
pub open spec fn sms_fits(m: SmsModel) -> bool {
    m.msg.len() <= u64::MAX && (m.sig is Some ==> m.sig->Some_0.len() <= u64::MAX)
}

#[verifier::rlimit(40)]
proof fn lemma_sms_decode(p: Seq<u8>, m: SmsModel, r: Seq<u8>)
    requires
        sms_fits(m),
    ensures
        dec_sms(p + enc_sms(m) + r, p.len() as int) == Ok::<(SmsModel, int), DecodeError>(
            (m, (p.len() + enc_sms(m).len()) as int),
        ),
{
    let h = enc_head(MAJOR_MAP, 4);
    let a = enc_bool_field(key_comp(), m.comp);
    let b = enc_bool_field(key_enc(), m.enc);
    let c = enc_bytes_field(key_msg(), m.msg);
    let d = enc_opt_u8_list_field(key_sig(), m.sig);
    let s = p + enc_sms(m) + r;
    assert(s =~= p + h + (a + b + c + d + r));
    crate::cbor::lemma_head_of_round_trip(p, MAJOR_MAP, 4, a + b + c + d + r);
    assert(s =~= (p + h) + a + (b + c + d + r));
    lemma_bool_field(p + h, key_comp(), m.comp, b + c + d + r);
    assert(s =~= (p + h + a) + b + (c + d + r));
    lemma_bool_field(p + h + a, key_enc(), m.enc, c + d + r);
    assert(s =~= (p + h + a + b) + c + (d + r));
    lemma_bytes_field(p + h + a + b, key_msg(), m.msg, d + r);
    assert(s =~= (p + h + a + b + c) + d + r);
    lemma_opt_u8_list_field(p + h + a + b + c, key_sig(), m.sig, r);
}

/// A record with a readable text survives the wire: reading its encoding gives
/// it back, and with it its text.
pub proof fn sms_record_round_trip(m: SmsModel)
    requires
        sms_fits(m),
        sms_text(m) is Ok,
    ensures
        sms_record(enc_sms(m)) == Ok::<SmsModel, SmsError>(m),
        sms_text(m) == sms_text(sms_record(enc_sms(m))->Ok_0),
{
    let e = enc_sms(m);
    lemma_sms_decode(Seq::empty(), m, Seq::empty());
    assert(Seq::<u8>::empty() + e + Seq::<u8>::empty() =~= e);
}

/// A short-message record. Its text is always readable.
#[derive(Debug)]
pub struct SMS {
    comp: bool,
    enc: bool,
    msg: Vec<u8>,
    sig: Option<Vec<u8>>,
}

impl View for SMS {
    type V = SmsModel;

    closed spec fn view(&self) -> SmsModel {
        SmsModel { comp: self.comp, enc: self.enc, msg: self.msg@, sig: opt_bytes_view(self.sig) }
    }
}

pub(crate) fn copy_opt_bytes(o: &Option<Vec<u8>>) -> (r: Option<Vec<u8>>)
    ensures
        opt_bytes_view(r) == opt_bytes_view(*o),
{
    match o {
        Some(b) => Some(slice_to_owned(b.as_slice())),
        None => None,
    }
}

impl SMS {
    #[verifier::type_invariant]
    spec fn text_readable(self) -> bool {
        stored_text(self.comp, self.msg@) is Ok
    }

    /// Whether the text is stored compressed.
    pub fn compression(&self) -> (r: bool)
        ensures
            r == self@.comp,
    {
        self.comp
    }

    /// The encryption flag; it is carried, not acted upon.
    pub fn encryption(&self) -> (r: bool)
        ensures
            r == self@.enc,
    {
        self.enc
    }

    pub fn signature(&self) -> (r: Option<Vec<u8>>)
        ensures
            opt_bytes_view(r) == self@.sig,
    {
        copy_opt_bytes(&self.sig)
    }

    /// The message text, decompressed.
    pub fn msg(&self) -> (r: String)
        ensures
            sms_text(self@) == Ok::<Seq<char>, TextError>(r@),
    {
        proof {
            use_type_invariant(self);
        }
        match unpack_text(self.comp, self.msg.as_slice()) {
            Ok(t) => t,
            Err(_) => {
                proof {
                    assert(false);
                }
                String::new()
            },
        }
    }

    pub fn duplicate(&self) -> (r: SMS)
        ensures
            r@ == self@,
    {
        proof {
            use_type_invariant(self);
        }
        SMS {
            comp: self.comp,
            enc: self.enc,
            msg: slice_to_owned(self.msg.as_slice()),
            sig: copy_opt_bytes(&self.sig),
        }
    }

    /// The record in its wire form.
    pub fn to_cbor(&self) -> (r: Vec<u8>)
        ensures
            r@ == enc_sms(self@),
    {
        let mut out: Vec<u8> = Vec::new();
        write_head(&mut out, MAJOR_MAP, 4);
        write_key(&mut out, key_comp_bytes().as_slice());
        write_bool(&mut out, self.comp);
        write_key(&mut out, key_enc_bytes().as_slice());
        write_bool(&mut out, self.enc);
        write_key(&mut out, key_msg_bytes().as_slice());
        write_bytes(&mut out, self.msg.as_slice());
        write_key(&mut out, key_sig_bytes().as_slice());
        write_opt_u8_list(&mut out, &self.sig);
        assert(out@ =~= enc_sms(self@));
        out
    }

    /// Reads a record that fills the whole of `s`.
    pub fn from_cbor(s: &[u8]) -> (r: Result<SMS, SmsError>)
        ensures
            match r {
                Ok(m) => sms_record(s@) == Ok::<SmsModel, SmsError>(m@),
                Err(e) => sms_record(s@) == Err::<SmsModel, SmsError>(e),
            },
    {
        match read_sms(s) {
            Err(e) => Err(SmsError::MalformedRecord(e)),
            Ok((comp, enc, msg, sig)) => match unpack_text(comp, msg.as_slice()) {
                Err(e) => Err(SmsError::BadTextEncoding(e)),
                Ok(_) => Ok(SMS { comp, enc, msg, sig }),
            },
        }
    }
}

fn read_sms(s: &[u8]) -> (r: Result<(bool, bool, Vec<u8>, Option<Vec<u8>>), DecodeError>)
    ensures
        match r {
            Ok((comp, enc, msg, sig)) => whole(dec_sms(s@, 0), s@.len()) == Ok::<SmsModel, DecodeError>(
                SmsModel { comp, enc, msg: msg@, sig: opt_bytes_view(sig) },
            ),
            Err(e) => whole(dec_sms(s@, 0), s@.len()) == Err::<SmsModel, DecodeError>(e),
        },
{
    let (n, at0) = match read_head_of(s, 0, MAJOR_MAP) {
        Ok(x) => x,
        Err(e) => return Err(e),
    };
    match crate::location::count_ok(n, 4) {
        Err(e) => return Err(e),
        Ok(_) => {},
    }
    let p = match read_key(s, at0, key_comp_bytes().as_slice()) {
        Ok(x) => x,
        Err(e) => return Err(e),
    };
    let (comp, at1) = match read_bool(s, p) {
        Ok(x) => x,
        Err(e) => return Err(e),
    };
    let p = match read_key(s, at1, key_enc_bytes().as_slice()) {
        Ok(x) => x,
        Err(e) => return Err(e),
    };
    let (enc, at2) = match read_bool(s, p) {
        Ok(x) => x,
        Err(e) => return Err(e),
    };
    let p = match read_key(s, at2, key_msg_bytes().as_slice()) {
        Ok(x) => x,
        Err(e) => return Err(e),
    };
    let (msg, at3) = match read_bytes(s, p) {
        Ok(x) => x,
        Err(e) => return Err(e),
    };
    let p = match read_key(s, at3, key_sig_bytes().as_slice()) {
        Ok(x) => x,
        Err(e) => return Err(e),
    };
    let (sig, end) = match read_opt_u8_list(s, p) {
        Ok(x) => x,
        Err(e) => return Err(e),
    };
    if end != s.len() {
        return Err(DecodeError::TypeMismatch);
    }
    Ok((comp, enc, msg, sig))
}

/// A short-message endpoint: service 767 under `ipn`, service `sms` or `~sms` under `dtn`.
pub open spec fn sms_endpoint_ok(e: EndpointModel) -> bool {
    match e {
        EndpointModel::Ipn(_, svc) => svc == SMS_SERVICE,
        EndpointModel::Dtn(ssp) => service_name(ssp) == Some("sms"@) || service_name(ssp) == Some(
            "~sms"@,
        ),
        EndpointModel::DtnNone => false,
    }
}

/// The verdict on a bundle with these endpoints and this payload.
pub open spec fn sms_verdict(src: EndpointModel, dst: EndpointModel, payload: Option<Seq<u8>>) -> Result<SmsModel, SmsError> {
    if !sms_endpoint_ok(src) {
        Err(SmsError::BadSourceAddress)
    } else if !sms_endpoint_ok(dst) {
        Err(SmsError::BadDestinationAddress)
    } else if is_non_singleton(src) {
        Err(SmsError::BadSourceAddress)
    } else {
        match payload {
            None => Err(SmsError::MissingPayload),
            Some(p) => sms_record(p),
        }
    }
}

pub fn is_sms_endpoint(e: &Endpoint) -> (r: bool)
    ensures
        r == sms_endpoint_ok(e@),
{
    match e {
        Endpoint::Ipn(_, svc) => *svc == SMS_SERVICE,
        Endpoint::Dtn(ssp) => service_is(ssp.as_str(), "sms") || service_is(ssp.as_str(), "~sms"),
        Endpoint::DtnNone => false,
    }
}

/// Checks the endpoints and the payload of a bundle, and reads its record.
pub fn check_sms(src: &Endpoint, dst: &Endpoint, payload: Option<&[u8]>) -> (r: Result<SMS, SmsError>)
    ensures
        match r {
            Ok(m) => sms_verdict(src@, dst@, match payload {
                Some(p) => Some(p@),
                None => None,
            }) == Ok::<SmsModel, SmsError>(m@),
            Err(e) => sms_verdict(src@, dst@, match payload {
                Some(p) => Some(p@),
                None => None,
            }) == Err::<SmsModel, SmsError>(e),
        },
{
    if !is_sms_endpoint(src) {
        return Err(SmsError::BadSourceAddress);
    }
    if !is_sms_endpoint(dst) {
        return Err(SmsError::BadDestinationAddress);
    }
    if src.is_non_singleton() {
        return Err(SmsError::BadSourceAddress);
    }
    match payload {
        None => Err(SmsError::MissingPayload),
        Some(p) => SMS::from_cbor(p),
    }
}

pub struct SmsBundleModel {
    pub id: Seq<char>,
    pub src: EndpointModel,
    pub dst: EndpointModel,
    pub created: Timestamp,
    pub sms: SmsModel,
}

/// What every short-message envelope satisfies.
pub open spec fn sms_bundle_wf(m: SmsBundleModel) -> bool {
    &&& sms_endpoint_ok(m.src)
    &&& sms_endpoint_ok(m.dst)
    &&& !is_non_singleton(m.src)
    &&& sms_text(m.sms) is Ok
}

/// What was read from a bundle when it was wrapped.
#[derive(Debug)]
struct SmsMeta {
    id: String,
    src: Endpoint,
    dst: Endpoint,
    created: Timestamp,
    sms: SMS,
}

/// The verdict on a bundle of the transport.
pub open spec fn sms_verdict_of(b: bp7::Bundle) -> Result<SmsModel, SmsError> {
    sms_verdict(eid_model(source_of(b)), eid_model(destination_of(b)), payload_of(b))
}

/// `m` is what wrapping `raw` gives: its endpoints, and the record its payload holds.
pub open spec fn sms_wraps(raw: bp7::Bundle, m: SmsBundleModel) -> bool {
    &&& m.id == id_of(raw)
    &&& m.created == timestamp_of(raw)
    &&& m.src == eid_model(source_of(raw))
    &&& m.dst == eid_model(destination_of(raw))
    &&& sms_verdict_of(raw) == Ok::<SmsModel, SmsError>(m.sms)
}

/// A bundle that carries a short message, validated once when it is wrapped.
#[derive(Debug)]
pub struct SMSBundle {
    raw: bp7::Bundle,
    meta: SmsMeta,
}

impl View for SMSBundle {
    type V = SmsBundleModel;

    closed spec fn view(&self) -> SmsBundleModel {
        SmsBundleModel {
            id: self.meta.id@,
            src: self.meta.src@,
            dst: self.meta.dst@,
            created: self.meta.created,
            sms: self.meta.sms@,
        }
    }
}

impl SMSBundle {
    #[verifier::type_invariant]
    spec fn wraps_raw(self) -> bool {
        sms_wraps(self.raw, self@)
    }

    pub closed spec fn raw_spec(&self) -> bp7::Bundle {
        self.raw
    }

    /// Every value of this type wraps its bundle and is well formed.
    pub fn well_formed(&self)
        ensures
            sms_wraps(self.raw_spec(), self@),
            sms_bundle_wf(self@),
    {
        proof {
            use_type_invariant(self);
        }
    }

    /// Wraps a bundle, checking its endpoints and its payload.
    pub fn try_from(b: bp7::Bundle) -> (r: Result<SMSBundle, SmsError>)
        ensures
            match r {
                Ok(w) => w.raw_spec() == b && sms_wraps(b, w@) && sms_bundle_wf(w@),
                Err(e) => sms_verdict_of(b) == Err::<SmsModel, SmsError>(e),
            },
    {
        let src = endpoint_of_eid(&bundle_source(&b));
        let dst = endpoint_of_eid(&bundle_destination(&b));
        let payload = bundle_payload(&b);
        let checked = match &payload {
            Some(p) => check_sms(&src, &dst, Some(p.as_slice())),
            None => check_sms(&src, &dst, None),
        };
        match checked {
            Err(e) => Err(e),
            Ok(sms) => {
                let id = bundle_id(&b);
                let created = bundle_timestamp(&b);
                proof {
                    use_type_invariant(&sms);
                }
                Ok(SMSBundle { raw: b, meta: SmsMeta { id, src, dst, created, sms } })
            },
        }
    }

    /// The bundle identifier: source, creation time and sequence number.
    pub fn id(&self) -> (r: String)
        ensures
            r@ == self@.id,
    {
        self.meta.id.clone()
    }

    /// Whether both endpoints use the scheme named `scheme`.
    pub fn is_pure(&self, scheme: &str) -> (r: bool)
        ensures
            r == (crate::endpoint::scheme_of(self@.src) == scheme@ && crate::endpoint::scheme_of(
                self@.dst,
            ) == scheme@),
    {
        self.meta.src.has_scheme(scheme) && self.meta.dst.has_scheme(scheme)
    }

    /// The `ipn` node number of the source, 0 for a `dtn` source.
    pub fn src_ipn(&self) -> (r: u64)
        ensures
            r == (match self@.src {
                EndpointModel::Ipn(n, _) => n,
                _ => 0,
            }),
    {
        self.meta.src.node_number()
    }

    /// The `ipn` node number of the destination, 0 for a `dtn` destination.
    pub fn dst_ipn(&self) -> (r: u64)
        ensures
            r == (match self@.dst {
                EndpointModel::Ipn(n, _) => n,
                _ => 0,
            }),
    {
        self.meta.dst.node_number()
    }

    /// The source node, without scheme.
    pub fn src(&self) -> (r: Option<String>)
        ensures
            match r {
                Some(t) => crate::endpoint::node_of(self@.src) == Some(t@),
                None => crate::endpoint::node_of(self@.src) is None,
            },
    {
        self.meta.src.node()
    }

    /// The destination node, without scheme.
    pub fn dst(&self) -> (r: Option<String>)
        ensures
            match r {
                Some(t) => crate::endpoint::node_of(self@.dst) == Some(t@),
                None => crate::endpoint::node_of(self@.dst) is None,
            },
    {
        self.meta.dst.node()
    }

    pub fn creation_timestamp(&self) -> (r: Timestamp)
        ensures
            r == self@.created,
    {
        self.meta.created
    }

    /// The record in the payload.
    pub fn sms(&self) -> (r: SMS)
        ensures
            r@ == self@.sms,
    {
        self.meta.sms.duplicate()
    }

    pub fn compression(&self) -> (r: bool)
        ensures
            r == self@.sms.comp,
    {
        self.meta.sms.compression()
    }

    pub fn encryption(&self) -> (r: bool)
        ensures
            r == self@.sms.enc,
    {
        self.meta.sms.encryption()
    }

    pub fn signature(&self) -> (r: Option<Vec<u8>>)
        ensures
            opt_bytes_view(r) == self@.sms.sig,
    {
        self.meta.sms.signature()
    }

    /// The message text.
    pub fn msg(&self) -> (r: String)
        ensures
            sms_text(self@.sms) == Ok::<Seq<char>, TextError>(r@),
    {
        self.meta.sms.msg()
    }

    /// The bundle itself, for the transport layer.
    pub fn bundle(&self) -> (r: &bp7::Bundle)
        ensures
            *r == self.raw_spec(),
    {
        &self.raw
    }

    /// The bundle in its wire form.
    pub fn to_cbor(&mut self) -> (r: Vec<u8>)
        ensures
            final(self)@ == old(self)@,
            final(self).raw_spec() == old(self).raw_spec(),
            r@ == wire_form(old(self).raw_spec()),
    {
        wire_bytes(&self.raw)
    }
}

/// Collects the fields of a short-message record.
#[derive(Debug)]
pub struct SmsBuilder {
    comp: bool,
    enc: bool,
    msg: Option<String>,
    sig: Option<Vec<u8>>,
}

pub struct SmsBuilderModel {
    pub comp: bool,
    pub enc: bool,
    pub msg: Option<Seq<char>>,
    pub sig: Option<Seq<u8>>,
}

impl View for SmsBuilder {
    type V = SmsBuilderModel;

    closed spec fn view(&self) -> SmsBuilderModel {
        SmsBuilderModel {
            comp: self.comp,
            enc: self.enc,
            msg: match self.msg {
                Some(t) => Some(t@),
                None => None,
            },
            sig: opt_bytes_view(self.sig),
        }
    }
}

impl SmsBuilder {
    /// Compression on, encryption off, no message, no signature.
    pub fn new() -> (r: SmsBuilder)
        ensures
            r@ == (SmsBuilderModel { comp: true, enc: false, msg: None, sig: None }),
    {
        SmsBuilder { comp: true, enc: false, msg: None, sig: None }
    }

    pub fn compression(self, comp: bool) -> (r: SmsBuilder)
        ensures
            r@ == (SmsBuilderModel { comp, ..self@ }),
    {
        SmsBuilder { comp, ..self }
    }

    pub fn encryption(self, enc: bool) -> (r: SmsBuilder)
        ensures
            r@ == (SmsBuilderModel { enc, ..self@ }),
    {
        SmsBuilder { enc, ..self }
    }

    pub fn message(self, msg: &str) -> (r: SmsBuilder)
        ensures
            r@ == (SmsBuilderModel { msg: Some(msg@), ..self@ }),
    {
        SmsBuilder { msg: Some(msg.to_owned()), ..self }
    }

    pub fn signature(self, sig: Vec<u8>) -> (r: SmsBuilder)
        ensures
            r@ == (SmsBuilderModel { sig: Some(sig@), ..self@ }),
    {
        SmsBuilder { sig: Some(sig), ..self }
    }

    /// The record, with its text already in stored form; fails without a message.
    pub fn build(self) -> (r: Result<SMS, SmsError>)
        ensures
            self@.msg is None ==> r == Err::<SMS, SmsError>(SmsError::MissingField(RequiredField::Message)),
            self@.msg is Some ==> r is Ok && r->Ok_0@ == (SmsModel {
                comp: self@.comp,
                enc: self@.enc,
                msg: packed_text(self@.comp, self@.msg->Some_0),
                sig: self@.sig,
            }) && sms_text(r->Ok_0@) == Ok::<Seq<char>, TextError>(self@.msg->Some_0),
    {
        match self.msg {
            None => Err(SmsError::MissingField(RequiredField::Message)),
            Some(t) => {
                let stored = pack_text(self.comp, t.as_str());
                Ok(SMS { comp: self.comp, enc: self.enc, msg: stored, sig: self.sig })
            },
        }
    }
}

impl Default for SmsBuilder {
    fn default() -> (r: SmsBuilder)
        ensures
            r@ == (SmsBuilderModel { comp: true, enc: false, msg: None, sig: None }),
    {
        SmsBuilder::new()
    }
}

/// A new short-message bundle between two `ipn` nodes, created now and living an hour.
pub fn new_sms(src: u64, dst: u64, msg: &str, compression: bool) -> (r: Result<SMSBundle, SmsError>)
    ensures
        src == 0 || dst == 0 ==> r == Err::<SMSBundle, SmsError>(SmsError::InvalidEndpoint),
        src >= 1 && dst >= 1 ==> r is Ok,
        r is Ok ==> ({
            let b = r->Ok_0@;
            &&& sms_wraps(r->Ok_0.raw_spec(), b)
            &&& b.src == EndpointModel::Ipn(src, SMS_SERVICE)
            &&& b.dst == EndpointModel::Ipn(dst, SMS_SERVICE)
            &&& b.sms == (SmsModel {
                comp: compression,
                enc: false,
                msg: packed_text(compression, msg@),
                sig: None,
            })
            &&& sms_text(b.sms) == Ok::<Seq<char>, TextError>(msg@)
        }),
{
    let src_eid = match eid_with_ipn(src, SMS_SERVICE) {
        Ok(e) => e,
        Err(_) => return Err(SmsError::InvalidEndpoint),
    };
    let dst_eid = match eid_with_ipn(dst, SMS_SERVICE) {
        Ok(e) => e,
        Err(_) => return Err(SmsError::InvalidEndpoint),
    };
    let ghost src_id = src_eid;
    let ghost dst_id = dst_eid;
    let primary = match primary_block(dst_eid, src_eid, eid_none(), timestamp_now(), BUNDLE_LIFETIME_SECS) {
        Ok(p) => p,
        Err(_) => return Err(SmsError::InvalidEndpoint),
    };
    let sms = match SmsBuilder::new().compression(compression).message(msg).build() {
        Ok(s) => s,
        Err(e) => return Err(e),
    };
    let wire = sms.to_cbor();
    let mut blocks: Vec<bp7::CanonicalBlock> = Vec::new();
    blocks.push(payload_block(wire));
    let raw = new_bundle(primary, blocks);
    bytes_fit(sms.msg.as_slice());
    match &sms.sig {
        Some(g) => bytes_fit(g.as_slice()),
        None => {},
    }
    proof {
        sms_record_round_trip(sms@);
        assert(payload_of(raw) == Some(enc_sms(sms@)));
        assert(eid_model(source_of(raw)) == EndpointModel::Ipn(src, SMS_SERVICE));
        assert(eid_model(destination_of(raw)) == EndpointModel::Ipn(dst, SMS_SERVICE));
    }
    let id = bundle_id(&raw);
    let created = bundle_timestamp(&raw);
    Ok(
        SMSBundle {
            raw,
            meta: SmsMeta {
                id,
                src: Endpoint::Ipn(src, SMS_SERVICE),
                dst: Endpoint::Ipn(dst, SMS_SERVICE),
                created,
                sms,
            },
        },
    )
}

} // verus!
