//! Threaded news posts, after the net news format: a post has a topic, a
//! thread identifier shared by all replies, an optional reference to the post
//! it answers, tags and a text.
use crate::cbor::{
    enc_head, read_bool, read_bytes, read_head_of, write_bool, write_bytes, write_head,
    DecodeError, MAJOR_MAP,
};
use crate::compress::{pack_text, packed_text, slice_to_owned, stored_text, unpack_text, TextError};
use crate::endpoint::{service_is, service_name, Endpoint, EndpointModel};
use crate::fields::{
    dec_bool_field, dec_bytes_field, dec_id128_field, dec_opt_text_field, dec_opt_u8_list_field,
    dec_text_list_field, enc_bool_field, enc_bytes_field, enc_id128_field, enc_opt_text_field,
    enc_opt_u8_list_field, enc_text_list_field, lemma_bool_field, lemma_bytes_field,
    lemma_id128_field, lemma_opt_text_field, lemma_opt_u8_list_field, lemma_text_list_field,
    read_id128, read_key, read_opt_text, read_opt_u8_list, read_text_list, texts_fit, texts_view,
    write_id128, write_key, write_opt_text, write_opt_u8_list, write_text_list, bytes_fit, text_fits,
    list_fits,
};
use crate::location::{check_count, whole};
use crate::sms::{
    copy_opt_bytes, key_comp, key_comp_bytes, key_enc, key_enc_bytes, key_msg, key_msg_bytes,
    key_sig, key_sig_bytes, opt_bytes_view, RequiredField, BUNDLE_LIFETIME_SECS, SMS_SERVICE,
};
use crate::transport::{
    id_of, timestamp_of, wire_bytes, wire_form, bundle_destination, bundle_from_cbor, bundle_id, bundle_payload, bundle_source,
    bundle_timestamp, destination_of, dtn_kept, eid_model, eid_none, eid_with_dtn,
    endpoint_of_eid, new_bundle, parsed_bundle, payload_block, payload_of, primary_block,
    random_uuid, source_of, timestamp_now, Timestamp,
};
use vstd::prelude::*;
use vstd::string::StringExecFns;

verus! {

/// The service number of news groups in the `ipn` scheme.
pub const NEWS_SERVICE: u64 = 119;

#[derive(Debug, Clone, Copy, PartialEq, Eq, Structural)]
pub enum NewsError {
    /// The bytes are not a bundle.
    BundleDecoding,
    /// The bundle has no payload block.
    MissingPayload,
    /// The source is not a posting endpoint.
    BadSourceAddress,
    /// The destination is not a news group.
    BadDestinationAddress,
    /// The payload is not a news record.
    MalformedRecord(DecodeError),
    /// The topic or the text does not decompress, or is not UTF-8.
    BadTextEncoding(TextError),
    /// The builder lacks a required field.
    MissingField(RequiredField),
    /// The transport refused the endpoints.
    InvalidEndpoint,
}

pub struct NewsModel {
    pub comp: bool,
    pub enc: bool,
    pub topic: Seq<u8>,
    pub tid: u128,
    pub references: Option<Seq<char>>,
    pub tags: Seq<Seq<char>>,
    pub msg: Seq<u8>,
    pub sig: Option<Seq<u8>>,
}

pub open spec fn opt_text_view(o: Option<String>) -> Option<Seq<char>> {
    match o {
        Some(t) => Some(t@),
        None => None,
    }
}

pub open spec fn key_topic() -> Seq<u8> {
    seq![116u8, 111, 112, 105, 99]
}

pub open spec fn key_tid() -> Seq<u8> {
    seq![116u8, 105, 100]
}

pub open spec fn key_references() -> Seq<u8> {
    seq![114u8, 101, 102, 101, 114, 101, 110, 99, 101, 115]
}

pub open spec fn key_tags() -> Seq<u8> {
    seq![116u8, 97, 103, 115]
}

fn bytes_of(b: &[u8]) -> (r: Vec<u8>)
    ensures
        r@ == b@,
{
    slice_to_owned(b)
}

fn key_topic_bytes() -> (r: Vec<u8>)
    ensures
        r@ == key_topic(),
{
    let mut v: Vec<u8> = Vec::new();
    v.push(116);
    v.push(111);
    v.push(112);
    v.push(105);
    v.push(99);
    assert(v@ =~= key_topic());
    v
}

fn key_tid_bytes() -> (r: Vec<u8>)
    ensures
        r@ == key_tid(),
{
    let mut v: Vec<u8> = Vec::new();
    v.push(116);
    v.push(105);
    v.push(100);
    assert(v@ =~= key_tid());
    v
}

fn key_references_bytes() -> (r: Vec<u8>)
    ensures
        r@ == key_references(),
{
    let mut v: Vec<u8> = Vec::new();
    v.push(114);
    v.push(101);
    v.push(102);
    v.push(101);
    v.push(114);
    v.push(101);
    v.push(110);
    v.push(99);
    v.push(101);
    v.push(115);
    assert(v@ =~= key_references());
    v
}

fn key_tags_bytes() -> (r: Vec<u8>)
    ensures
        r@ == key_tags(),
{
    let mut v: Vec<u8> = Vec::new();
    v.push(116);
    v.push(97);
    v.push(103);
    v.push(115);
    assert(v@ =~= key_tags());
    v
}

/// The first four fields: flags, topic and thread identifier.
pub open spec fn enc_news_front(m: NewsModel) -> Seq<u8> {
    enc_bool_field(key_comp(), m.comp) + enc_bool_field(key_enc(), m.enc) + enc_bytes_field(
        key_topic(),
        m.topic,
    ) + enc_id128_field(key_tid(), m.tid)
}

/// The last four fields: reference, tags, text and signature.
pub open spec fn enc_news_back(m: NewsModel) -> Seq<u8> {
    enc_opt_text_field(key_references(), m.references) + enc_text_list_field(key_tags(), m.tags)
        + enc_bytes_field(key_msg(), m.msg) + enc_opt_u8_list_field(key_sig(), m.sig)
}

/// The wire form of a post: a map of its eight fields in a fixed order.
pub open spec fn enc_news(m: NewsModel) -> Seq<u8> {
    enc_head(MAJOR_MAP, 8) + enc_news_front(m) + enc_news_back(m)
}

pub open spec fn dec_news_front(s: Seq<u8>, at0: int) -> Result<(bool, bool, Seq<u8>, u128, int), DecodeError> {
    match dec_bool_field(s, at0, key_comp()) {
        Err(e) => Err(e),
        Ok((comp, at1)) => match dec_bool_field(s, at1, key_enc()) {
            Err(e) => Err(e),
            Ok((enc, at2)) => match dec_bytes_field(s, at2, key_topic()) {
                Err(e) => Err(e),
                Ok((topic, at3)) => match dec_id128_field(s, at3, key_tid()) {
                    Err(e) => Err(e),
                    Ok((tid, at4)) => Ok((comp, enc, topic, tid, at4)),
                },
            },
        },
    }
}

pub open spec fn dec_news_back(s: Seq<u8>, at4: int) -> Result<
    (Option<Seq<char>>, Seq<Seq<char>>, Seq<u8>, Option<Seq<u8>>, int),
    DecodeError,
> {
    match dec_opt_text_field(s, at4, key_references()) {
        Err(e) => Err(e),
        Ok((references, at5)) => match dec_text_list_field(s, at5, key_tags()) {
            Err(e) => Err(e),
            Ok((tags, at6)) => match dec_bytes_field(s, at6, key_msg()) {
                Err(e) => Err(e),
                Ok((msg, at7)) => match dec_opt_u8_list_field(s, at7, key_sig()) {
                    Err(e) => Err(e),
                    Ok((sig, end)) => Ok((references, tags, msg, sig, end)),
                },
            },
        },
    }
}

pub open spec fn dec_news(s: Seq<u8>, pos: int) -> Result<(NewsModel, int), DecodeError> {
    match crate::cbor::dec_head_of(s, pos, MAJOR_MAP) {
        Err(e) => Err(e),
        Ok((n, at0)) => match check_count(n, 8) {
            Err(e) => Err(e),
            Ok(_) => match dec_news_front(s, at0) {
                Err(e) => Err(e),
                Ok((comp, enc, topic, tid, at4)) => match dec_news_back(s, at4) {
                    Err(e) => Err(e),
                    Ok((references, tags, msg, sig, end)) => Ok(
                        (NewsModel { comp, enc, topic, tid, references, tags, msg, sig }, end),
                    ),
                },
            },
        },
    }
}

pub open spec fn news_text(m: NewsModel) -> Result<Seq<char>, TextError> {
    stored_text(m.comp, m.msg)
}

pub open spec fn news_topic(m: NewsModel) -> Result<Seq<char>, TextError> {
    stored_text(m.comp, m.topic)
}

/// Both the topic and the text of a post can be read.
pub open spec fn news_readable(m: NewsModel) -> bool {
    news_topic(m) is Ok && news_text(m) is Ok
}

/// A post read from a payload: well-formed, with a readable topic and text.
pub open spec fn news_record(s: Seq<u8>) -> Result<NewsModel, NewsError> {
    match whole(dec_news(s, 0), s.len()) {
        Err(e) => Err(NewsError::MalformedRecord(e)),
        Ok(m) => match news_topic(m) {
            Err(e) => Err(NewsError::BadTextEncoding(e)),
            Ok(_) => match news_text(m) {
                Err(e) => Err(NewsError::BadTextEncoding(e)),
                Ok(_) => Ok(m),
            },
        },
    }
}

/// Lengths that fit the wire form.
pub open spec fn news_fits(m: NewsModel) -> bool {
    &&& m.topic.len() <= u64::MAX
    &&& m.msg.len() <= u64::MAX
    &&& (m.sig is Some ==> m.sig->Some_0.len() <= u64::MAX)
    &&& (m.references is Some ==> vstd::utf8::encode_utf8(m.references->Some_0).len() <= u64::MAX)
    &&& texts_fit(m.tags)
}

proof fn lemma_news_front(p: Seq<u8>, m: NewsModel, r: Seq<u8>)
    requires
        news_fits(m),
    ensures
        dec_news_front(p + enc_news_front(m) + r, p.len() as int) == Ok::<
            (bool, bool, Seq<u8>, u128, int),
            DecodeError,
        >((m.comp, m.enc, m.topic, m.tid, (p.len() + enc_news_front(m).len()) as int)),
{
    let a = enc_bool_field(key_comp(), m.comp);
    let b = enc_bool_field(key_enc(), m.enc);
    let c = enc_bytes_field(key_topic(), m.topic);
    let d = enc_id128_field(key_tid(), m.tid);
    let s = p + enc_news_front(m) + r;
    assert(s =~= p + a + (b + c + d + r));
    lemma_bool_field(p, key_comp(), m.comp, b + c + d + r);
    assert(s =~= (p + a) + b + (c + d + r));
    lemma_bool_field(p + a, key_enc(), m.enc, c + d + r);
    assert(s =~= (p + a + b) + c + (d + r));
    lemma_bytes_field(p + a + b, key_topic(), m.topic, d + r);
    assert(s =~= (p + a + b + c) + d + r);
    lemma_id128_field(p + a + b + c, key_tid(), m.tid, r);
}

proof fn lemma_news_back(p: Seq<u8>, m: NewsModel, r: Seq<u8>)
    requires
        news_fits(m),
    ensures
        dec_news_back(p + enc_news_back(m) + r, p.len() as int) == Ok::<
            (Option<Seq<char>>, Seq<Seq<char>>, Seq<u8>, Option<Seq<u8>>, int),
            DecodeError,
        >((m.references, m.tags, m.msg, m.sig, (p.len() + enc_news_back(m).len()) as int)),
{
    let a = enc_opt_text_field(key_references(), m.references);
    let b = enc_text_list_field(key_tags(), m.tags);
    let c = enc_bytes_field(key_msg(), m.msg);
    let d = enc_opt_u8_list_field(key_sig(), m.sig);
    let s = p + enc_news_back(m) + r;
    assert(s =~= p + a + (b + c + d + r));
    lemma_opt_text_field(p, key_references(), m.references, b + c + d + r);
    assert(s =~= (p + a) + b + (c + d + r));
    lemma_text_list_field(p + a, key_tags(), m.tags, c + d + r);
    assert(s =~= (p + a + b) + c + (d + r));
    lemma_bytes_field(p + a + b, key_msg(), m.msg, d + r);
    assert(s =~= (p + a + b + c) + d + r);
    lemma_opt_u8_list_field(p + a + b + c, key_sig(), m.sig, r);
}

/// A post with a readable topic and text survives the wire: reading its
/// encoding gives it back, topic and text included.
pub proof fn news_record_round_trip(m: NewsModel)
    requires
        news_fits(m),
        news_readable(m),
    ensures
        news_record(enc_news(m)) == Ok::<NewsModel, NewsError>(m),
        news_text(news_record(enc_news(m))->Ok_0) == news_text(m),
        news_topic(news_record(enc_news(m))->Ok_0) == news_topic(m),
{
    let h = enc_head(MAJOR_MAP, 8);
    let f = enc_news_front(m);
    let b = enc_news_back(m);
    let e = enc_news(m);
    let z = Seq::<u8>::empty();
    assert(e =~= z + h + (f + b + z));
    crate::cbor::lemma_head_of_round_trip(z, MAJOR_MAP, 8, f + b + z);
    assert(e =~= h + f + (b + z));
    lemma_news_front(h, m, b + z);
    assert(e =~= (h + f) + b + z);
    lemma_news_back(h + f, m, z);
}

/// A news post. Its topic and text are always readable.
#[derive(Debug)]
pub struct News {
    comp: bool,
    enc: bool,
    topic: Vec<u8>,
    tid: u128,
    references: Option<String>,
    tags: Vec<String>,
    msg: Vec<u8>,
    sig: Option<Vec<u8>>,
}

impl View for News {
    type V = NewsModel;

    closed spec fn view(&self) -> NewsModel {
        NewsModel {
            comp: self.comp,
            enc: self.enc,
            topic: self.topic@,
            tid: self.tid,
            references: opt_text_view(self.references),
            tags: texts_view(self.tags@),
            msg: self.msg@,
            sig: opt_bytes_view(self.sig),
        }
    }
}

fn copy_opt_text(o: &Option<String>) -> (r: Option<String>)
    ensures
        opt_text_view(r) == opt_text_view(*o),
{
    match o {
        Some(t) => Some(t.clone()),
        None => None,
    }
}

/// A copy of a list of texts.
pub fn copy_texts(v: &[String]) -> (r: Vec<String>)
    ensures
        texts_view(r@) == texts_view(v@),
{
    let mut out: Vec<String> = Vec::new();
    let mut i: usize = 0;
    while i < v.len()
        invariant
            i <= v.len(),
            texts_view(out@) == texts_view(v@.subrange(0, i as int)),
        decreases v.len() - i,
    {
        let t = v[i].clone();
        let ghost before = out@;
        out.push(t);
        proof {
            assert(texts_view(out@) =~= texts_view(before).push(v@[i as int]@));
            assert(texts_view(v@.subrange(0, i + 1)) =~= texts_view(v@.subrange(0, i as int)).push(
                v@[i as int]@,
            ));
        }
        i = i + 1;
    }
    assert(v@.subrange(0, v.len() as int) =~= v@);
    out
}

impl News {
    /// The lengths of a post held in memory fit the wire form.
    pub fn fits(&self)
        ensures
            news_fits(self@),
    {
        bytes_fit(self.topic.as_slice());
        bytes_fit(self.msg.as_slice());
        match &self.sig {
            Some(g) => bytes_fit(g.as_slice()),
            None => {},
        }
        match &self.references {
            Some(t) => text_fits(t.as_str()),
            None => {},
        }
        list_fits(&self.tags);
    }

    #[verifier::type_invariant]
    spec fn readable(self) -> bool {
        stored_text(self.comp, self.msg@) is Ok && stored_text(self.comp, self.topic@) is Ok
    }

    pub fn compression(&self) -> (r: bool)
        ensures
            r == self@.comp,
    {
        self.comp
    }

    /// The encryption flag; it is carried, not acted upon.
    pub fn encryption(&self) -> (r: bool)
        ensures
            r == self@.enc,
    {
        self.enc
    }

    /// The identifier of the bundle this post answers.
    pub fn references(&self) -> (r: Option<String>)
        ensures
            opt_text_view(r) == self@.references,
    {
        copy_opt_text(&self.references)
    }

    pub fn signature(&self) -> (r: Option<Vec<u8>>)
        ensures
            opt_bytes_view(r) == self@.sig,
    {
        copy_opt_bytes(&self.sig)
    }

    /// The text, decompressed.
    pub fn msg(&self) -> (r: String)
        ensures
            news_text(self@) == Ok::<Seq<char>, TextError>(r@),
    {
        proof {
            use_type_invariant(self);
        }
        match unpack_text(self.comp, self.msg.as_slice()) {
            Ok(t) => t,
            Err(_) => {
                proof {
                    assert(false);
                }
                String::new()
            },
        }
    }

    /// The topic, decompressed.
    pub fn topic(&self) -> (r: String)
        ensures
            news_topic(self@) == Ok::<Seq<char>, TextError>(r@),
    {
        proof {
            use_type_invariant(self);
        }
        match unpack_text(self.comp, self.topic.as_slice()) {
            Ok(t) => t,
            Err(_) => {
                proof {
                    assert(false);
                }
                String::new()
            },
        }
    }

    /// The thread identifier, a 128-bit UUID.
    pub fn thread_id(&self) -> (r: u128)
        ensures
            r == self@.tid,
    {
        self.tid
    }

    pub fn tags(&self) -> (r: &[String])
        ensures
            texts_view(r@) == self@.tags,
    {
        self.tags.as_slice()
    }

    pub fn duplicate(&self) -> (r: News)
        ensures
            r@ == self@,
    {
        proof {
            use_type_invariant(self);
        }
        News {
            comp: self.comp,
            enc: self.enc,
            topic: bytes_of(self.topic.as_slice()),
            tid: self.tid,
            references: copy_opt_text(&self.references),
            tags: copy_texts(self.tags.as_slice()),
            msg: bytes_of(self.msg.as_slice()),
            sig: copy_opt_bytes(&self.sig),
        }
    }

    fn write_front(&self, out: &mut Vec<u8>)
        ensures
            final(out)@ == old(out)@ + enc_news_front(self@),
    {
        let ghost o0 = out@;
        write_key(out, key_comp_bytes().as_slice());
        write_bool(out, self.comp);
        let ghost o1 = out@;
        write_key(out, key_enc_bytes().as_slice());
        write_bool(out, self.enc);
        let ghost o2 = out@;
        write_key(out, key_topic_bytes().as_slice());
        write_bytes(out, self.topic.as_slice());
        let ghost o3 = out@;
        write_key(out, key_tid_bytes().as_slice());
        write_id128(out, self.tid);
        assert(o1 =~= o0 + enc_bool_field(key_comp(), self.comp));
        assert(o2 =~= o1 + enc_bool_field(key_enc(), self.enc));
        assert(o3 =~= o2 + enc_bytes_field(key_topic(), self@.topic));
        assert(out@ =~= o3 + enc_id128_field(key_tid(), self.tid));
        assert(out@ =~= o0 + enc_news_front(self@));
    }

    fn write_back(&self, out: &mut Vec<u8>)
        ensures
            final(out)@ == old(out)@ + enc_news_back(self@),
    {
        let ghost o0 = out@;
        write_key(out, key_references_bytes().as_slice());
        write_opt_text(out, &self.references);
        let ghost o1 = out@;
        write_key(out, key_tags_bytes().as_slice());
        write_text_list(out, &self.tags);
        let ghost o2 = out@;
        write_key(out, key_msg_bytes().as_slice());
        write_bytes(out, self.msg.as_slice());
        let ghost o3 = out@;
        write_key(out, key_sig_bytes().as_slice());
        write_opt_u8_list(out, &self.sig);
        assert(o1 =~= o0 + enc_opt_text_field(key_references(), self@.references));
        assert(o2 =~= o1 + enc_text_list_field(key_tags(), self@.tags));
        assert(o3 =~= o2 + enc_bytes_field(key_msg(), self@.msg));
        assert(out@ =~= o3 + enc_opt_u8_list_field(key_sig(), self@.sig));
        assert(out@ =~= o0 + enc_news_back(self@));
    }

    /// The post in its wire form.
    pub fn to_cbor(&self) -> (r: Vec<u8>)
        ensures
            r@ == enc_news(self@),
    {
        let mut out: Vec<u8> = Vec::new();
        write_head(&mut out, MAJOR_MAP, 8);
        self.write_front(&mut out);
        self.write_back(&mut out);
        assert(out@ =~= enc_news(self@));
        out
    }

    /// Reads a post that fills the whole of `s`.
    pub fn from_cbor(s: &[u8]) -> (r: Result<News, NewsError>)
        ensures
            match r {
                Ok(m) => news_record(s@) == Ok::<NewsModel, NewsError>(m@),
                Err(e) => news_record(s@) == Err::<NewsModel, NewsError>(e),
            },
    {
        let (n, at0) = match read_head_of(s, 0, MAJOR_MAP) {
            Ok(x) => x,
            Err(e) => return Err(NewsError::MalformedRecord(e)),
        };
        match crate::location::count_ok(n, 8) {
            Err(e) => return Err(NewsError::MalformedRecord(e)),
            Ok(_) => {},
        }
        let (comp, enc, topic, tid, at4) = match read_news_front(s, at0) {
            Ok(x) => x,
            Err(e) => return Err(NewsError::MalformedRecord(e)),
        };
        let (references, tags, msg, sig, end) = match read_news_back(s, at4) {
            Ok(x) => x,
            Err(e) => return Err(NewsError::MalformedRecord(e)),
        };
        if end != s.len() {
            return Err(NewsError::MalformedRecord(DecodeError::TypeMismatch));
        }
        match unpack_text(comp, topic.as_slice()) {
            Err(e) => return Err(NewsError::BadTextEncoding(e)),
            Ok(_) => {},
        }
        match unpack_text(comp, msg.as_slice()) {
            Err(e) => return Err(NewsError::BadTextEncoding(e)),
            Ok(_) => {},
        }
        Ok(News { comp, enc, topic, tid, references, tags, msg, sig })
    }
}

fn read_news_front(s: &[u8], at0: usize) -> (r: Result<(bool, bool, Vec<u8>, u128, usize), DecodeError>)
    ensures
        match r {
            Ok((comp, enc, topic, tid, p)) => dec_news_front(s@, at0 as int) == Ok::<
                (bool, bool, Seq<u8>, u128, int),
                DecodeError,
            >((comp, enc, topic@, tid, p as int)),
            Err(e) => dec_news_front(s@, at0 as int) == Err::<
                (bool, bool, Seq<u8>, u128, int),
                DecodeError,
            >(e),
        },
{
    let p = match read_key(s, at0, key_comp_bytes().as_slice()) {
        Ok(x) => x,
        Err(e) => return Err(e),
    };
    let (comp, at1) = match read_bool(s, p) {
        Ok(x) => x,
        Err(e) => return Err(e),
    };
    let p = match read_key(s, at1, key_enc_bytes().as_slice()) {
        Ok(x) => x,
        Err(e) => return Err(e),
    };
    let (enc, at2) = match read_bool(s, p) {
        Ok(x) => x,
        Err(e) => return Err(e),
    };
    let p = match read_key(s, at2, key_topic_bytes().as_slice()) {
        Ok(x) => x,
        Err(e) => return Err(e),
    };
    let (topic, at3) = match read_bytes(s, p) {
        Ok(x) => x,
        Err(e) => return Err(e),
    };
    let p = match read_key(s, at3, key_tid_bytes().as_slice()) {
        Ok(x) => x,
        Err(e) => return Err(e),
    };
    let (tid, at4) = match read_id128(s, p) {
        Ok(x) => x,
        Err(e) => return Err(e),
    };
    Ok((comp, enc, topic, tid, at4))
}

fn read_news_back(s: &[u8], at4: usize) -> (r: Result<
    (Option<String>, Vec<String>, Vec<u8>, Option<Vec<u8>>, usize),
    DecodeError,
>)
    ensures
        match r {
            Ok((references, tags, msg, sig, p)) => dec_news_back(s@, at4 as int) == Ok::<
                (Option<Seq<char>>, Seq<Seq<char>>, Seq<u8>, Option<Seq<u8>>, int),
                DecodeError,
            >((opt_text_view(references), texts_view(tags@), msg@, opt_bytes_view(sig), p as int)),
            Err(e) => dec_news_back(s@, at4 as int) == Err::<
                (Option<Seq<char>>, Seq<Seq<char>>, Seq<u8>, Option<Seq<u8>>, int),
                DecodeError,
            >(e),
        },
{
    let p = match read_key(s, at4, key_references_bytes().as_slice()) {
        Ok(x) => x,
        Err(e) => return Err(e),
    };
    let (references, at5) = match read_opt_text(s, p) {
        Ok(x) => x,
        Err(e) => return Err(e),
    };
    let p = match read_key(s, at5, key_tags_bytes().as_slice()) {
        Ok(x) => x,
        Err(e) => return Err(e),
    };
    let (tags, at6) = match read_text_list(s, p) {
        Ok(x) => x,
        Err(e) => return Err(e),
    };
    let p = match read_key(s, at6, key_msg_bytes().as_slice()) {
        Ok(x) => x,
        Err(e) => return Err(e),
    };
    let (msg, at7) = match read_bytes(s, p) {
        Ok(x) => x,
        Err(e) => return Err(e),
    };
    let p = match read_key(s, at7, key_sig_bytes().as_slice()) {
        Ok(x) => x,
        Err(e) => return Err(e),
    };
    let (sig, end) = match read_opt_u8_list(s, p) {
        Ok(x) => x,
        Err(e) => return Err(e),
    };
    Ok((references, tags, msg, sig, end))
}


/// A posting endpoint: service 767 under `ipn`, service `sms` under `dtn`.
pub open spec fn news_src_ok(e: EndpointModel) -> bool {
    match e {
        EndpointModel::Ipn(_, svc) => svc == SMS_SERVICE,
        EndpointModel::Dtn(ssp) => service_name(ssp) == Some("sms"@),
        EndpointModel::DtnNone => false,
    }
}

/// A news group: service 119 under `ipn`, service `~news` under `dtn`.
pub open spec fn news_dst_ok(e: EndpointModel) -> bool {
    match e {
        EndpointModel::Ipn(_, svc) => svc == NEWS_SERVICE,
        EndpointModel::Dtn(ssp) => service_name(ssp) == Some("~news"@),
        EndpointModel::DtnNone => false,
    }
}

/// The verdict on a bundle with these endpoints and this payload.
pub open spec fn news_verdict(src: EndpointModel, dst: EndpointModel, payload: Option<Seq<u8>>) -> Result<NewsModel, NewsError> {
    if !news_src_ok(src) {
        Err(NewsError::BadSourceAddress)
    } else if !news_dst_ok(dst) {
        Err(NewsError::BadDestinationAddress)
    } else {
        match payload {
            None => Err(NewsError::MissingPayload),
            Some(p) => news_record(p),
        }
    }
}

proof fn lemma_conventions_differ(e: EndpointModel)
    ensures
        !(news_src_ok(e) && news_dst_ok(e)),
{
    reveal_strlit("sms");
    reveal_strlit("~news");
    if let EndpointModel::Dtn(ssp) = e {
        if news_src_ok(e) && news_dst_ok(e) {
            assert("sms"@.len() != "~news"@.len());
        }
    }
}

/// Roles are not interchangeable: a destination that follows the posting
/// convention is refused as a destination, and a source that follows the news
/// group convention is refused as a source.
pub proof fn news_role_mismatch(src: EndpointModel, dst: EndpointModel, payload: Option<Seq<u8>>)
    ensures
        news_src_ok(src) && news_src_ok(dst) ==> news_verdict(src, dst, payload) == Err::<NewsModel, NewsError>(
            NewsError::BadDestinationAddress,
        ),
        news_dst_ok(src) ==> news_verdict(src, dst, payload) == Err::<NewsModel, NewsError>(
            NewsError::BadSourceAddress,
        ),
{
    lemma_conventions_differ(src);
    lemma_conventions_differ(dst);
}

/// A correctly addressed bundle without a payload is refused for that.
pub proof fn news_missing_payload(src: EndpointModel, dst: EndpointModel)
    requires
        news_src_ok(src),
        news_dst_ok(dst),
    ensures
        news_verdict(src, dst, None) == Err::<NewsModel, NewsError>(NewsError::MissingPayload),
{
}

/// A correctly addressed short-message bundle without a payload is refused for that.
pub proof fn sms_missing_payload(src: EndpointModel, dst: EndpointModel)
    requires
        crate::sms::sms_endpoint_ok(src),
        crate::sms::sms_endpoint_ok(dst),
        !crate::endpoint::is_non_singleton(src),
    ensures
        crate::sms::sms_verdict(src, dst, None) == Err::<crate::sms::SmsModel, crate::sms::SmsError>(
            crate::sms::SmsError::MissingPayload,
        ),
{
}

pub fn is_news_source(e: &Endpoint) -> (r: bool)
    ensures
        r == news_src_ok(e@),
{
    match e {
        Endpoint::Ipn(_, svc) => *svc == SMS_SERVICE,
        Endpoint::Dtn(ssp) => service_is(ssp.as_str(), "sms"),
        Endpoint::DtnNone => false,
    }
}

pub fn is_news_group(e: &Endpoint) -> (r: bool)
    ensures
        r == news_dst_ok(e@),
{
    match e {
        Endpoint::Ipn(_, svc) => *svc == NEWS_SERVICE,
        Endpoint::Dtn(ssp) => service_is(ssp.as_str(), "~news"),
        Endpoint::DtnNone => false,
    }
}

/// Checks the endpoints and the payload of a bundle, and reads its post.
pub fn check_news(src: &Endpoint, dst: &Endpoint, payload: Option<&[u8]>) -> (r: Result<News, NewsError>)
    ensures
        match r {
            Ok(m) => news_verdict(src@, dst@, match payload {
                Some(p) => Some(p@),
                None => None,
            }) == Ok::<NewsModel, NewsError>(m@),
            Err(e) => news_verdict(src@, dst@, match payload {
                Some(p) => Some(p@),
                None => None,
            }) == Err::<NewsModel, NewsError>(e),
        },
{
    if !is_news_source(src) {
        return Err(NewsError::BadSourceAddress);
    }
    if !is_news_group(dst) {
        return Err(NewsError::BadDestinationAddress);
    }
    match payload {
        None => Err(NewsError::MissingPayload),
        Some(p) => News::from_cbor(p),
    }
}

pub struct NewsBundleModel {
    pub id: Seq<char>,
    pub src: EndpointModel,
    pub dst: EndpointModel,
    pub created: Timestamp,
    pub news: NewsModel,
}

/// What every news envelope satisfies.
pub open spec fn news_bundle_wf(m: NewsBundleModel) -> bool {
    &&& news_src_ok(m.src)
    &&& news_dst_ok(m.dst)
    &&& news_readable(m.news)
}

/// What was read from a bundle when it was wrapped.
#[derive(Debug)]
struct NewsMeta {
    id: String,
    src: Endpoint,
    dst: Endpoint,
    created: Timestamp,
    news: News,
}

/// The verdict on a bundle of the transport.
pub open spec fn news_verdict_of(b: bp7::Bundle) -> Result<NewsModel, NewsError> {
    news_verdict(eid_model(source_of(b)), eid_model(destination_of(b)), payload_of(b))
}

/// `m` is what wrapping `raw` gives: its endpoints, and the post its payload holds.
pub open spec fn news_wraps(raw: bp7::Bundle, m: NewsBundleModel) -> bool {
    &&& m.id == id_of(raw)
    &&& m.created == timestamp_of(raw)
    &&& m.src == eid_model(source_of(raw))
    &&& m.dst == eid_model(destination_of(raw))
    &&& news_verdict_of(raw) == Ok::<NewsModel, NewsError>(m.news)
}

/// A bundle that carries a news post, validated once when it is wrapped.
#[derive(Debug)]
pub struct NewsBundle {
    raw: bp7::Bundle,
    meta: NewsMeta,
}

impl View for NewsBundle {
    type V = NewsBundleModel;

    closed spec fn view(&self) -> NewsBundleModel {
        NewsBundleModel {
            id: self.meta.id@,
            src: self.meta.src@,
            dst: self.meta.dst@,
            created: self.meta.created,
            news: self.meta.news@,
        }
    }
}

impl NewsBundle {
    pub closed spec fn raw_spec(&self) -> bp7::Bundle {
        self.raw
    }

    #[verifier::type_invariant]
    spec fn wraps_raw(self) -> bool {
        news_wraps(self.raw, self@)
    }

    /// Every value of this type wraps its bundle and is well formed.
    pub fn well_formed(&self)
        ensures
            news_wraps(self.raw_spec(), self@),
            news_bundle_wf(self@),
    {
        proof {
            use_type_invariant(self);
            use_type_invariant(&self.meta.news);
        }
    }

    /// Wraps a bundle, checking its endpoints and its payload.
    pub fn try_from(b: bp7::Bundle) -> (r: Result<NewsBundle, NewsError>)
        ensures
            match r {
                Ok(w) => w.raw_spec() == b && news_wraps(b, w@) && news_bundle_wf(w@),
                Err(e) => news_verdict_of(b) == Err::<NewsModel, NewsError>(e),
            },
    {
        let src = endpoint_of_eid(&bundle_source(&b));
        let dst = endpoint_of_eid(&bundle_destination(&b));
        let payload = bundle_payload(&b);
        let checked = match &payload {
            Some(p) => check_news(&src, &dst, Some(p.as_slice())),
            None => check_news(&src, &dst, None),
        };
        match checked {
            Err(e) => Err(e),
            Ok(news) => {
                let id = bundle_id(&b);
                let created = bundle_timestamp(&b);
                proof {
                    use_type_invariant(&news);
                }
                Ok(NewsBundle { raw: b, meta: NewsMeta { id, src, dst, created, news } })
            },
        }
    }

    /// Parses a bundle from its wire form and wraps it.
    pub fn from_cbor(bytes: Vec<u8>) -> (r: Result<NewsBundle, NewsError>)
        ensures
            match parsed_bundle(bytes@) {
                None => r == Err::<NewsBundle, NewsError>(NewsError::BundleDecoding),
                Some(b) => match r {
                    Ok(w) => w.raw_spec() == b && news_wraps(b, w@) && news_bundle_wf(w@),
                    Err(e) => news_verdict_of(b) == Err::<NewsModel, NewsError>(e),
                },
            },
    {
        match bundle_from_cbor(bytes) {
            Err(_) => Err(NewsError::BundleDecoding),
            Ok(b) => NewsBundle::try_from(b),
        }
    }

    /// The bundle identifier: source, creation time and sequence number.
    pub fn id(&self) -> (r: String)
        ensures
            r@ == self@.id,
    {
        self.meta.id.clone()
    }

    /// Whether both endpoints use the scheme named `scheme`.
    pub fn is_pure(&self, scheme: &str) -> (r: bool)
        ensures
            r == (crate::endpoint::scheme_of(self@.src) == scheme@ && crate::endpoint::scheme_of(
                self@.dst,
            ) == scheme@),
    {
        self.meta.src.has_scheme(scheme) && self.meta.dst.has_scheme(scheme)
    }

    /// The `ipn` node number of the source, 0 for a `dtn` source.
    pub fn src_ipn(&self) -> (r: u64)
        ensures
            r == (match self@.src {
                EndpointModel::Ipn(n, _) => n,
                _ => 0,
            }),
    {
        self.meta.src.node_number()
    }

    /// The `ipn` node number of the destination, 0 for a `dtn` destination.
    pub fn dst_ipn(&self) -> (r: u64)
        ensures
            r == (match self@.dst {
                EndpointModel::Ipn(n, _) => n,
                _ => 0,
            }),
    {
        self.meta.dst.node_number()
    }

    /// The source node, without scheme.
    pub fn src(&self) -> (r: Option<String>)
        ensures
            match r {
                Some(t) => crate::endpoint::node_of(self@.src) == Some(t@),
                None => crate::endpoint::node_of(self@.src) is None,
            },
    {
        self.meta.src.node()
    }

    /// The news group, without scheme.
    pub fn dst(&self) -> (r: Option<String>)
        ensures
            match r {
                Some(t) => crate::endpoint::node_of(self@.dst) == Some(t@),
                None => crate::endpoint::node_of(self@.dst) is None,
            },
    {
        self.meta.dst.node()
    }

    pub fn creation_timestamp(&self) -> (r: Timestamp)
        ensures
            r == self@.created,
    {
        self.meta.created
    }

    /// The post in the payload.
    pub fn news(&self) -> (r: News)
        ensures
            r@ == self@.news,
    {
        self.meta.news.duplicate()
    }

    pub fn compression(&self) -> (r: bool)
        ensures
            r == self@.news.comp,
    {
        self.meta.news.compression()
    }

    pub fn encryption(&self) -> (r: bool)
        ensures
            r == self@.news.enc,
    {
        self.meta.news.encryption()
    }

    pub fn signature(&self) -> (r: Option<Vec<u8>>)
        ensures
            opt_bytes_view(r) == self@.news.sig,
    {
        self.meta.news.signature()
    }

    /// The text of the post.
    pub fn msg(&self) -> (r: String)
        ensures
            news_text(self@.news) == Ok::<Seq<char>, TextError>(r@),
    {
        self.meta.news.msg()
    }

    /// The topic of the post.
    pub fn topic(&self) -> (r: String)
        ensures
            news_topic(self@.news) == Ok::<Seq<char>, TextError>(r@),
    {
        self.meta.news.topic()
    }

    /// The thread identifier.
    pub fn tid(&self) -> (r: u128)
        ensures
            r == self@.news.tid,
    {
        self.meta.news.thread_id()
    }

    /// The identifier of the bundle this post answers.
    pub fn references(&self) -> (r: Option<String>)
        ensures
            opt_text_view(r) == self@.news.references,
    {
        self.meta.news.references()
    }

    pub fn tags(&self) -> (r: Vec<String>)
        ensures
            texts_view(r@) == self@.news.tags,
    {
        copy_texts(self.meta.news.tags())
    }

    /// The bundle itself, for the transport layer.
    pub fn bundle(&self) -> (r: &bp7::Bundle)
        ensures
            *r == self.raw_spec(),
    {
        &self.raw
    }

    /// The bundle in its wire form.
    pub fn to_cbor(&mut self) -> (r: Vec<u8>)
        ensures
            final(self)@ == old(self)@,
            final(self).raw_spec() == old(self).raw_spec(),
            r@ == wire_form(old(self).raw_spec()),
    {
        wire_bytes(&self.raw)
    }
}

/// Collects the fields of a news post.
#[derive(Debug)]
pub struct NewsBuilder {
    comp: bool,
    enc: bool,
    topic: Option<String>,
    thread_id: Option<u128>,
    references: Option<String>,
    tags: Vec<String>,
    msg: Option<String>,
    sig: Option<Vec<u8>>,
}

pub struct NewsBuilderModel {
    pub comp: bool,
    pub enc: bool,
    pub topic: Option<Seq<char>>,
    pub thread_id: Option<u128>,
    pub references: Option<Seq<char>>,
    pub tags: Seq<Seq<char>>,
    pub msg: Option<Seq<char>>,
    pub sig: Option<Seq<u8>>,
}

impl View for NewsBuilder {
    type V = NewsBuilderModel;

    closed spec fn view(&self) -> NewsBuilderModel {
        NewsBuilderModel {
            comp: self.comp,
            enc: self.enc,
            topic: opt_text_view(self.topic),
            thread_id: self.thread_id,
            references: opt_text_view(self.references),
            tags: texts_view(self.tags@),
            msg: opt_text_view(self.msg),
            sig: opt_bytes_view(self.sig),
        }
    }
}

/// The defaults: compression on, encryption off, nothing else set.
pub open spec fn fresh_news_builder() -> NewsBuilderModel {
    NewsBuilderModel {
        comp: true,
        enc: false,
        topic: None,
        thread_id: None,
        references: None,
        tags: Seq::empty(),
        msg: None,
        sig: None,
    }
}

/// What answering `parent` copies: its identifier as reference, its thread,
/// its tags and its topic.
pub open spec fn replying(b: NewsBuilderModel, parent: NewsBundleModel) -> NewsBuilderModel {
    NewsBuilderModel {
        references: Some(parent.id),
        thread_id: Some(parent.news.tid),
        tags: parent.news.tags,
        topic: Some(news_topic(parent.news)->Ok_0),
        ..b
    }
}

/// What a successful build returns for the builder `b`.
pub open spec fn built_from(b: NewsBuilderModel, m: NewsModel) -> bool {
    &&& m.comp == b.comp
    &&& m.enc == b.enc
    &&& m.topic == packed_text(b.comp, b.topic->Some_0)
    &&& news_topic(m) == Ok::<Seq<char>, TextError>(b.topic->Some_0)
    &&& (b.thread_id is Some ==> m.tid == b.thread_id->Some_0)
    &&& (b.thread_id is None ==> m.tid != 0 && (m.tid >> 76u128) & 0xfu128 == 4u128)
    &&& m.references == b.references
    &&& m.tags == b.tags
    &&& m.msg == packed_text(b.comp, b.msg->Some_0)
    &&& news_text(m) == Ok::<Seq<char>, TextError>(b.msg->Some_0)
    &&& m.sig == b.sig
}

/// A reply links to its parent: it has the parent's topic, thread and tags,
/// refers to the parent's identifier, and carries the text it was given.
pub proof fn reply_linkage(parent: NewsBundleModel, b: NewsBuilderModel, reply: NewsModel)
    requires
        news_bundle_wf(parent),
        b.msg is Some,
        built_from(replying(b, parent), reply),
    ensures
        news_topic(reply) == news_topic(parent.news),
        reply.tid == parent.news.tid,
        reply.tags == parent.news.tags,
        reply.references == Some(parent.id),
        news_text(reply) == Ok::<Seq<char>, TextError>(b.msg->Some_0),
{
}

fn version_four_is_not_nil(r: u128)
    requires
        (r >> 76u128) & 0xfu128 == 4u128,
    ensures
        r != 0,
{
    assert(r != 0) by (bit_vector)
        requires
            (r >> 76u128) & 0xfu128 == 4u128,
    ;
}

impl NewsBuilder {
    /// Compression on, encryption off, nothing else set.
    pub fn new() -> (r: NewsBuilder)
        ensures
            r@ == fresh_news_builder(),
    {
        let r = NewsBuilder {
            comp: true,
            enc: false,
            topic: None,
            thread_id: None,
            references: None,
            tags: Vec::new(),
            msg: None,
            sig: None,
        };
        assert(r@.tags =~= Seq::<Seq<char>>::empty());
        r
    }

    /// Answers `news`: takes over its identifier as reference, its thread, tags and topic.
    pub fn reply_to(self, news: &NewsBundle) -> (r: NewsBuilder)
        ensures
            r@ == replying(self@, news@),
    {
        news.well_formed();
        NewsBuilder {
            references: Some(news.id()),
            thread_id: Some(news.tid()),
            tags: news.tags(),
            topic: Some(news.topic()),
            ..self
        }
    }

    pub fn compression(self, comp: bool) -> (r: NewsBuilder)
        ensures
            r@ == (NewsBuilderModel { comp, ..self@ }),
    {
        NewsBuilder { comp, ..self }
    }

    pub fn encryption(self, enc: bool) -> (r: NewsBuilder)
        ensures
            r@ == (NewsBuilderModel { enc, ..self@ }),
    {
        NewsBuilder { enc, ..self }
    }

    pub fn message(self, msg: &str) -> (r: NewsBuilder)
        ensures
            r@ == (NewsBuilderModel { msg: Some(msg@), ..self@ }),
    {
        NewsBuilder { msg: Some(msg.to_owned()), ..self }
    }

    pub fn topic(self, topic: &str) -> (r: NewsBuilder)
        ensures
            r@ == (NewsBuilderModel { topic: Some(topic@), ..self@ }),
    {
        NewsBuilder { topic: Some(topic.to_owned()), ..self }
    }

    pub fn thread_id(self, tid: u128) -> (r: NewsBuilder)
        ensures
            r@ == (NewsBuilderModel { thread_id: Some(tid), ..self@ }),
    {
        NewsBuilder { thread_id: Some(tid), ..self }
    }

    /// The identifier of the bundle being answered.
    pub fn references(self, bid: &str) -> (r: NewsBuilder)
        ensures
            r@ == (NewsBuilderModel { references: Some(bid@), ..self@ }),
    {
        NewsBuilder { references: Some(bid.to_owned()), ..self }
    }

    /// Adds one tag at the end.
    pub fn tag(self, tag: &str) -> (r: NewsBuilder)
        ensures
            r@ == (NewsBuilderModel { tags: self@.tags.push(tag@), ..self@ }),
    {
        let mut tags = self.tags;
        let ghost before = tags@;
        tags.push(tag.to_owned());
        assert(texts_view(tags@) =~= texts_view(before).push(tag@));
        NewsBuilder { tags, ..self }
    }

    /// Replaces the tags.
    pub fn tags(self, tags: Vec<String>) -> (r: NewsBuilder)
        ensures
            r@ == (NewsBuilderModel { tags: texts_view(tags@), ..self@ }),
    {
        NewsBuilder { tags, ..self }
    }

    pub fn signature(self, sig: Vec<u8>) -> (r: NewsBuilder)
        ensures
            r@ == (NewsBuilderModel { sig: Some(sig@), ..self@ }),
    {
        NewsBuilder { sig: Some(sig), ..self }
    }

    /// The post, with topic and text already in stored form. Fails without a
    /// message, then without a topic; draws a fresh thread identifier if none was set.
    pub fn build(self) -> (r: Result<News, NewsError>)
        ensures
            self@.msg is None ==> r == Err::<News, NewsError>(NewsError::MissingField(RequiredField::Message)),
            self@.msg is Some && self@.topic is None ==> r == Err::<News, NewsError>(
                NewsError::MissingField(RequiredField::Topic),
            ),
            self@.msg is Some && self@.topic is Some ==> r is Ok && built_from(self@, r->Ok_0@),
    {
        let ghost b = self@;
        let msg = match self.msg {
            None => return Err(NewsError::MissingField(RequiredField::Message)),
            Some(m) => m,
        };
        let topic = match self.topic {
            None => return Err(NewsError::MissingField(RequiredField::Topic)),
            Some(t) => t,
        };
        let tid = match self.thread_id {
            Some(t) => t,
            None => {
                let t = random_uuid();
                version_four_is_not_nil(t);
                t
            },
        };
        let stored_topic = pack_text(self.comp, topic.as_str());
        let stored_msg = pack_text(self.comp, msg.as_str());
        Ok(
            News {
                comp: self.comp,
                enc: self.enc,
                topic: stored_topic,
                tid,
                references: self.references,
                tags: self.tags,
                msg: stored_msg,
                sig: self.sig,
            },
        )
    }
}

impl Default for NewsBuilder {
    fn default() -> (r: NewsBuilder)
        ensures
            r@ == fresh_news_builder(),
    {
        NewsBuilder::new()
    }
}

proof fn lemma_dtn_kept(node: Seq<char>, suffix: Seq<char>)
    requires
        suffix == "/sms"@ || suffix == "/~news"@,
    ensures
        dtn_kept("//"@ + node + suffix),
{
    reveal_strlit("//");
    reveal_strlit("/sms");
    reveal_strlit("/~news");
    let s = "//"@ + node + suffix;
    assert(s[0] == '/');
    assert(s[1] == '/');
    assert(s[2 + node.len() as int] == '/');
}

/// `//` + `node` + `suffix`.
fn dtn_address(node: &str, suffix: &str) -> (r: String)
    ensures
        r@ == "//"@ + node@ + suffix@,
{
    let mut s = String::from_str("//");
    s.append(node);
    s.append(suffix);
    s
}

pub open spec fn dtn_ssp(node: Seq<char>, suffix: Seq<char>) -> EndpointModel {
    EndpointModel::Dtn("//"@ + node + suffix)
}

/// A new post from node `src_node_name` to the news group `dst_newsgroup`,
/// created now and living an hour.
pub fn new_news(
    src_node_name: &str,
    dst_newsgroup: &str,
    topic: &str,
    thread_id: Option<u128>,
    references: Option<String>,
    msg: &str,
    tags: Vec<String>,
    compression: bool,
) -> (r: Result<NewsBundle, NewsError>)
    ensures
        !news_src_ok(dtn_ssp(src_node_name@, "/sms"@)) ==> r == Err::<NewsBundle, NewsError>(
            NewsError::BadSourceAddress,
        ),
        news_src_ok(dtn_ssp(src_node_name@, "/sms"@)) && !news_dst_ok(
            dtn_ssp(dst_newsgroup@, "/~news"@),
        ) ==> r == Err::<NewsBundle, NewsError>(NewsError::BadDestinationAddress),
        news_src_ok(dtn_ssp(src_node_name@, "/sms"@)) && news_dst_ok(dtn_ssp(dst_newsgroup@, "/~news"@))
            ==> r is Ok,
        r is Ok ==> ({
            let b = r->Ok_0@;
            &&& news_wraps(r->Ok_0.raw_spec(), b)
            &&& news_bundle_wf(b)
            &&& b.src == dtn_ssp(src_node_name@, "/sms"@)
            &&& b.dst == dtn_ssp(dst_newsgroup@, "/~news"@)
            &&& built_from(
                NewsBuilderModel {
                    comp: compression,
                    enc: false,
                    topic: Some(topic@),
                    thread_id: thread_id,
                    references: opt_text_view(references),
                    tags: texts_view(tags@),
                    msg: Some(msg@),
                    sig: None,
                },
                b.news,
            )
        }),
{
    let src_ssp = dtn_address(src_node_name, "/sms");
    let dst_ssp = dtn_address(dst_newsgroup, "/~news");
    let src = Endpoint::Dtn(src_ssp.clone());
    let dst = Endpoint::Dtn(dst_ssp.clone());
    if !is_news_source(&src) {
        return Err(NewsError::BadSourceAddress);
    }
    if !is_news_group(&dst) {
        return Err(NewsError::BadDestinationAddress);
    }
    proof {
        lemma_dtn_kept(src_node_name@, "/sms"@);
        lemma_dtn_kept(dst_newsgroup@, "/~news"@);
    }
    let src_eid = match eid_with_dtn(src_ssp.as_str()) {
        Ok(e) => e,
        Err(_) => return Err(NewsError::InvalidEndpoint),
    };
    let dst_eid = match eid_with_dtn(dst_ssp.as_str()) {
        Ok(e) => e,
        Err(_) => return Err(NewsError::InvalidEndpoint),
    };
    let primary = match primary_block(dst_eid, src_eid, eid_none(), timestamp_now(), BUNDLE_LIFETIME_SECS) {
        Ok(p) => p,
        Err(_) => return Err(NewsError::InvalidEndpoint),
    };
    let builder = NewsBuilder::new().compression(compression).message(msg).topic(topic).tags(tags);
    let builder = match thread_id {
        Some(t) => builder.thread_id(t),
        None => builder,
    };
    let builder = match &references {
        Some(bid) => builder.references(bid.as_str()),
        None => builder,
    };
    let news = match builder.build() {
        Ok(n) => n,
        Err(e) => return Err(e),
    };
    let mut blocks: Vec<bp7::CanonicalBlock> = Vec::new();
    blocks.push(payload_block(news.to_cbor()));
    let raw = new_bundle(primary, blocks);
    let id = bundle_id(&raw);
    let created = bundle_timestamp(&raw);
    news.fits();
    proof {
        use_type_invariant(&news);
        news_record_round_trip(news@);
    }
    Ok(NewsBundle { raw, meta: NewsMeta { id, src, dst, created, news } })
}

/// A reply from node `src_node_name` to `parent_post`, in the same group and thread.
pub fn reply_news(parent_post: &NewsBundle, src_node_name: &str, msg: &str, compression: bool) -> (r: Result<NewsBundle, NewsError>)
    ensures
        !news_src_ok(dtn_ssp(src_node_name@, "/sms"@)) ==> r == Err::<NewsBundle, NewsError>(
            NewsError::BadSourceAddress,
        ),
        news_src_ok(dtn_ssp(src_node_name@, "/sms"@)) ==> r is Ok,
        r is Ok ==> ({
            let b = r->Ok_0@;
            let p = parent_post@;
            &&& news_wraps(r->Ok_0.raw_spec(), b)
            &&& news_bundle_wf(b)
            &&& b.src == dtn_ssp(src_node_name@, "/sms"@)
            &&& b.dst == p.dst
            &&& destination_of(r->Ok_0.raw_spec()) == destination_of(parent_post.raw_spec())
            &&& b.news.comp == compression
            &&& news_topic(b.news) == news_topic(p.news)
            &&& b.news.tid == p.news.tid
            &&& b.news.tags == p.news.tags
            &&& b.news.references == Some(p.id)
            &&& news_text(b.news) == Ok::<Seq<char>, TextError>(msg@)
        }),
{
    parent_post.well_formed();
    let src_ssp = dtn_address(src_node_name, "/sms");
    let src = Endpoint::Dtn(src_ssp.clone());
    if !is_news_source(&src) {
        return Err(NewsError::BadSourceAddress);
    }
    proof {
        lemma_dtn_kept(src_node_name@, "/sms"@);
        use_type_invariant(parent_post);
    }
    let src_eid = match eid_with_dtn(src_ssp.as_str()) {
        Ok(e) => e,
        Err(_) => return Err(NewsError::InvalidEndpoint),
    };
    let dst_eid = bundle_destination(&parent_post.raw);
    let primary = match primary_block(dst_eid, src_eid, eid_none(), timestamp_now(), BUNDLE_LIFETIME_SECS) {
        Ok(p) => p,
        Err(_) => return Err(NewsError::InvalidEndpoint),
    };
    let news = match NewsBuilder::new().compression(compression).message(msg).reply_to(parent_post).build() {
        Ok(n) => n,
        Err(e) => return Err(e),
    };
    let mut blocks: Vec<bp7::CanonicalBlock> = Vec::new();
    blocks.push(payload_block(news.to_cbor()));
    let raw = new_bundle(primary, blocks);
    let id = bundle_id(&raw);
    let created = bundle_timestamp(&raw);
    let dst = parent_post.meta.dst.duplicate();
    news.fits();
    proof {
        use_type_invariant(&news);
        news_record_round_trip(news@);
    }
    Ok(NewsBundle { raw, meta: NewsMeta { id, src, dst, created, news } })
}

} // verus!
