//! Endpoint identifiers as plain values: the `dtn:none` endpoint, a `dtn`
//! address given by its scheme-specific part (`//node/service`), or an `ipn`
//! address given by node and service number.
use crate::cbor::{
    dec_array_of, dec_text, dec_discriminant, dec_uint, enc_head, enc_text, enc_uint,
    lemma_array_round_trip, lemma_head_first_byte, lemma_text_round_trip, lemma_discriminant_round_trip, lemma_uint_round_trip,
    read_array_of, read_text, read_discriminant, read_uint, write_head, write_text, write_uint,
    DecodeError, MAJOR_ARRAY, MAJOR_TEXT,
};
use vstd::prelude::*;
use vstd::string::*;

verus! {

pub const SCHEME_DTN: u8 = 1;
pub const SCHEME_IPN: u8 = 2;

#[derive(Debug, Clone, PartialEq, Eq)]
pub enum Endpoint {
    DtnNone,
    /// The scheme-specific part, such as `//node1/sms`.
    Dtn(String),
    /// Node number and service number.
    Ipn(u64, u64),
}

pub enum EndpointModel {
    DtnNone,
    Dtn(Seq<char>),
    Ipn(u64, u64),
}

impl View for Endpoint {
    type V = EndpointModel;

    open spec fn view(&self) -> EndpointModel {
        match self {
            Endpoint::DtnNone => EndpointModel::DtnNone,
            Endpoint::Dtn(s) => EndpointModel::Dtn(s@),
            Endpoint::Ipn(n, s) => EndpointModel::Ipn(*n, *s),
        }
    }
}

/// An `ipn` node number is at least one.
pub open spec fn endpoint_wf(e: EndpointModel) -> bool {
    e is Ipn ==> e->Ipn_0 >= 1
}

/// Where the text goes on after the first `k` slashes at or behind `from`.
pub open spec fn after_slashes(s: Seq<char>, from: int, k: nat) -> Option<int>
    decreases s.len() - from,
{
    if k == 0 {
        Some(from)
    } else if from < 0 || from >= s.len() {
        None
    } else if s[from] == '/' {
        after_slashes(s, from + 1, (k - 1) as nat)
    } else {
        after_slashes(s, from + 1, k)
    }
}

/// The first slash at or behind `from`, or the end of the text.
pub open spec fn field_end(s: Seq<char>, from: int) -> int
    decreases s.len() - from,
{
    if from < 0 || from >= s.len() {
        s.len() as int
    } else if s[from] == '/' {
        from
    } else {
        field_end(s, from + 1)
    }
}

/// The service of a `dtn` address: the text behind the third slash, if not empty.
pub open spec fn service_name(ssp: Seq<char>) -> Option<Seq<char>> {
    match after_slashes(ssp, 0, 3) {
        Some(i) => if i < ssp.len() {
            Some(ssp.subrange(i, ssp.len() as int))
        } else {
            None
        },
        None => None,
    }
}

/// The node of a `dtn` address: the text between the second and the third slash.
pub open spec fn node_name(ssp: Seq<char>) -> Option<Seq<char>> {
    match after_slashes(ssp, 0, 2) {
        Some(i) => Some(ssp.subrange(i, field_end(ssp, i))),
        None => None,
    }
}

/// The decimal digits of `n`.
pub open spec fn decimal(n: nat) -> Seq<char>
    decreases n,
{
    if n < 10 {
        seq![digit_char(n)]
    } else {
        decimal(n / 10).push(digit_char(n % 10))
    }
}

pub open spec fn digit_char(d: nat) -> char {
    if d == 0 {
        '0'
    } else if d == 1 {
        '1'
    } else if d == 2 {
        '2'
    } else if d == 3 {
        '3'
    } else if d == 4 {
        '4'
    } else if d == 5 {
        '5'
    } else if d == 6 {
        '6'
    } else if d == 7 {
        '7'
    } else if d == 8 {
        '8'
    } else {
        '9'
    }
}

pub open spec fn scheme_of(e: EndpointModel) -> Seq<char> {
    match e {
        EndpointModel::Ipn(..) => "ipn"@,
        _ => "dtn"@,
    }
}

/// The plain node name without scheme: the `dtn` node name or the `ipn` node number.
pub open spec fn node_of(e: EndpointModel) -> Option<Seq<char>> {
    match e {
        EndpointModel::DtnNone => None,
        EndpointModel::Dtn(ssp) => node_name(ssp),
        EndpointModel::Ipn(n, _) => Some(decimal(n as nat)),
    }
}

/// A group endpoint: a `dtn` address whose service starts with `~`.
pub open spec fn is_non_singleton(e: EndpointModel) -> bool {
    match e {
        EndpointModel::Dtn(ssp) => match service_name(ssp) {
            Some(svc) => svc[0] == '~',
            None => false,
        },
        _ => false,
    }
}

pub open spec fn enc_endpoint(e: EndpointModel) -> Seq<u8> {
    match e {
        EndpointModel::DtnNone => enc_head(MAJOR_ARRAY, 2) + enc_uint(SCHEME_DTN as u64) + enc_uint(0),
        EndpointModel::Dtn(ssp) => enc_head(MAJOR_ARRAY, 2) + enc_uint(SCHEME_DTN as u64) + enc_text(
            ssp,
        ),
        EndpointModel::Ipn(n, s) => enc_head(MAJOR_ARRAY, 2) + enc_uint(SCHEME_IPN as u64)
            + enc_head(MAJOR_ARRAY, 2) + enc_uint(n) + enc_uint(s),
    }
}

pub open spec fn is_text_at(s: Seq<u8>, pos: int) -> bool {
    0 <= pos < s.len() && s[pos] / 32 == MAJOR_TEXT
}

pub open spec fn dec_endpoint(s: Seq<u8>, pos: int) -> Result<(EndpointModel, int), DecodeError> {
    match dec_array_of(s, pos, 2) {
        Err(e) => Err(e),
        Ok(p) => match dec_discriminant(s, p) {
            Err(e) => Err(e),
            Ok((scheme, q)) => if scheme == SCHEME_DTN {
                if is_text_at(s, q) {
                    match dec_text(s, q) {
                        Ok((t, end)) => Ok((EndpointModel::Dtn(t), end)),
                        Err(e) => Err(e),
                    }
                } else {
                    match dec_uint(s, q) {
                        Ok((code, end)) => if code == 0 {
                            Ok((EndpointModel::DtnNone, end))
                        } else {
                            Err(DecodeError::TypeMismatch)
                        },
                        Err(e) => Err(e),
                    }
                }
            } else if scheme == SCHEME_IPN {
                match dec_array_of(s, q, 2) {
                    Err(e) => Err(e),
                    Ok(a) => match dec_uint(s, a) {
                        Err(e) => Err(e),
                        Ok((n, b)) => match dec_uint(s, b) {
                            Err(e) => Err(e),
                            Ok((svc, end)) => if n >= 1 {
                                Ok((EndpointModel::Ipn(n, svc), end))
                            } else {
                                Err(DecodeError::TypeMismatch)
                            },
                        },
                    },
                }
            } else {
                Err(DecodeError::UnknownVariant)
            },
        },
    }
}

pub proof fn lemma_endpoint_round_trip(p: Seq<u8>, e: EndpointModel, r: Seq<u8>)
    requires
        endpoint_wf(e),
        e is Dtn ==> vstd::utf8::encode_utf8(e->Dtn_0).len() <= u64::MAX,
    ensures
        dec_endpoint(p + enc_endpoint(e) + r, p.len() as int) == Ok::<(EndpointModel, int), DecodeError>(
            (e, (p.len() + enc_endpoint(e).len()) as int),
        ),
{
    match e {
        EndpointModel::DtnNone => lemma_none_round_trip(p, r),
        EndpointModel::Dtn(ssp) => lemma_dtn_round_trip(p, ssp, r),
        EndpointModel::Ipn(n, svc) => lemma_ipn_round_trip(p, n, svc, r),
    }
}

proof fn lemma_none_round_trip(p: Seq<u8>, r: Seq<u8>)
    ensures
        dec_endpoint(p + enc_endpoint(EndpointModel::DtnNone) + r, p.len() as int) == Ok::<
            (EndpointModel, int),
            DecodeError,
        >((EndpointModel::DtnNone, (p.len() + enc_endpoint(EndpointModel::DtnNone).len()) as int)),
{
    let h = enc_head(MAJOR_ARRAY, 2);
    let s = p + enc_endpoint(EndpointModel::DtnNone) + r;
    let t = enc_uint(SCHEME_DTN as u64);
    let z = enc_uint(0);
    assert(s =~= p + h + (t + z + r));
    lemma_array_round_trip(p, 2, t + z + r);
    assert(s =~= (p + h) + t + (z + r));
    lemma_discriminant_round_trip(p + h, SCHEME_DTN, z + r);
    assert(s =~= (p + h + t) + z + r);
    lemma_uint_round_trip(p + h + t, 0, r);
    lemma_head_first_byte(0, 0);
    assert(s[(p + h + t).len() as int] == z[0]);
}

proof fn lemma_dtn_round_trip(p: Seq<u8>, ssp: Seq<char>, r: Seq<u8>)
    requires
        vstd::utf8::encode_utf8(ssp).len() <= u64::MAX,
    ensures
        dec_endpoint(p + enc_endpoint(EndpointModel::Dtn(ssp)) + r, p.len() as int) == Ok::<
            (EndpointModel, int),
            DecodeError,
        >((EndpointModel::Dtn(ssp), (p.len() + enc_endpoint(EndpointModel::Dtn(ssp)).len()) as int)),
{
    let h = enc_head(MAJOR_ARRAY, 2);
    let s = p + enc_endpoint(EndpointModel::Dtn(ssp)) + r;
    let t = enc_uint(SCHEME_DTN as u64);
    let x = enc_text(ssp);
    assert(s =~= p + h + (t + x + r));
    lemma_array_round_trip(p, 2, t + x + r);
    assert(s =~= (p + h) + t + (x + r));
    lemma_discriminant_round_trip(p + h, SCHEME_DTN, x + r);
    assert(s =~= (p + h + t) + x + r);
    lemma_text_round_trip(p + h + t, ssp, r);
    lemma_head_first_byte(MAJOR_TEXT, vstd::utf8::encode_utf8(ssp).len() as u64);
    assert(s[(p + h + t).len() as int] == x[0]);
}

proof fn lemma_ipn_round_trip(p: Seq<u8>, n: u64, svc: u64, r: Seq<u8>)
    requires
        n >= 1,
    ensures
        dec_endpoint(p + enc_endpoint(EndpointModel::Ipn(n, svc)) + r, p.len() as int) == Ok::<
            (EndpointModel, int),
            DecodeError,
        >((EndpointModel::Ipn(n, svc), (p.len() + enc_endpoint(EndpointModel::Ipn(n, svc)).len()) as int)),
{
    let h = enc_head(MAJOR_ARRAY, 2);
    let s = p + enc_endpoint(EndpointModel::Ipn(n, svc)) + r;
    let t = enc_uint(SCHEME_IPN as u64);
    let a = enc_uint(n);
    let b = enc_uint(svc);
    assert(s =~= p + h + (t + h + a + b + r));
    lemma_array_round_trip(p, 2, t + h + a + b + r);
    assert(s =~= (p + h) + t + (h + a + b + r));
    lemma_discriminant_round_trip(p + h, SCHEME_IPN, h + a + b + r);
    assert(s =~= (p + h + t) + h + (a + b + r));
    lemma_array_round_trip(p + h + t, 2, a + b + r);
    assert(s =~= (p + h + t + h) + a + (b + r));
    lemma_uint_round_trip(p + h + t + h, n, b + r);
    assert(s =~= (p + h + t + h + a) + b + r);
    lemma_uint_round_trip(p + h + t + h + a, svc, r);
}

/// Compares two texts character by character.
pub fn str_eq(a: &str, b: &str) -> (r: bool)
    ensures
        r == (a@ == b@),
{
    let n = a.unicode_len();
    if n != b.unicode_len() {
        return false;
    }
    let mut i: usize = 0;
    while i < n
        invariant
            n == a@.len(),
            n == b@.len(),
            0 <= i <= n,
            forall|j: int| 0 <= j < i ==> a@[j] == b@[j],
        decreases n - i,
    {
        if a.get_char(i) != b.get_char(i) {
            return false;
        }
        i = i + 1;
    }
    assert(a@ =~= b@);
    true
}

/// Where the text goes on after `k` more slashes at or behind `from`.
fn skip_slashes(s: &str, len: usize, from: usize, k: usize) -> (r: Option<usize>)
    requires
        len == s@.len(),
        from <= len,
    ensures
        match r {
            Some(i) => after_slashes(s@, from as int, k as nat) == Some(i as int) && i <= len,
            None => after_slashes(s@, from as int, k as nat) is None,
        },
    decreases len - from,
{
    if k == 0 {
        Some(from)
    } else if from >= len {
        None
    } else if s.get_char(from) == '/' {
        skip_slashes(s, len, from + 1, k - 1)
    } else {
        skip_slashes(s, len, from + 1, k)
    }
}

fn find_field_end(s: &str, len: usize, from: usize) -> (r: usize)
    requires
        len == s@.len(),
        from <= len,
    ensures
        r == field_end(s@, from as int),
        from <= r <= len,
    decreases len - from,
{
    if from >= len {
        len
    } else if s.get_char(from) == '/' {
        from
    } else {
        find_field_end(s, len, from + 1)
    }
}

/// Whether the service of the `dtn` address `ssp` is exactly `name`.
pub fn service_is(ssp: &str, name: &str) -> (r: bool)
    ensures
        r == (service_name(ssp@) == Some(name@)),
{
    let len = ssp.unicode_len();
    match skip_slashes(ssp, len, 0, 3) {
        None => false,
        Some(i) => {
            if i >= len {
                return false;
            }
            let rest = ssp.substring_char(i, len);
            let r = str_eq(rest, name);
            r
        },
    }
}

/// Whether the service of the `dtn` address `ssp` starts with `~`.
pub fn service_is_group(ssp: &str) -> (r: bool)
    ensures
        r == (match service_name(ssp@) {
            Some(svc) => svc[0] == '~',
            None => false,
        }),
{
    let len = ssp.unicode_len();
    match skip_slashes(ssp, len, 0, 3) {
        None => false,
        Some(i) => i < len && ssp.get_char(i) == '~',
    }
}

/// The node of the `dtn` address `ssp`.
pub fn dtn_node_name(ssp: &str) -> (r: Option<String>)
    ensures
        match r {
            Some(t) => node_name(ssp@) == Some(t@),
            None => node_name(ssp@) is None,
        },
{
    let len = ssp.unicode_len();
    match skip_slashes(ssp, len, 0, 2) {
        None => None,
        Some(i) => {
            let end = find_field_end(ssp, len, i);
            Some(ssp.substring_char(i, end).to_owned())
        },
    }
}

/// The text of one decimal digit.
fn digit_text(d: u64) -> (r: &'static str)
    requires
        d < 10,
    ensures
        r@ == seq![digit_char(d as nat)],
{
    if d == 0 {
        proof {
            reveal_strlit("0");
        }
        "0"
    } else if d == 1 {
        proof {
            reveal_strlit("1");
        }
        "1"
    } else if d == 2 {
        proof {
            reveal_strlit("2");
        }
        "2"
    } else if d == 3 {
        proof {
            reveal_strlit("3");
        }
        "3"
    } else if d == 4 {
        proof {
            reveal_strlit("4");
        }
        "4"
    } else if d == 5 {
        proof {
            reveal_strlit("5");
        }
        "5"
    } else if d == 6 {
        proof {
            reveal_strlit("6");
        }
        "6"
    } else if d == 7 {
        proof {
            reveal_strlit("7");
        }
        "7"
    } else if d == 8 {
        proof {
            reveal_strlit("8");
        }
        "8"
    } else {
        proof {
            reveal_strlit("9");
        }
        "9"
    }
}

/// The decimal digits of `n`, without sign or leading zeros.
pub fn u64_decimal(n: u64) -> (r: String)
    ensures
        r@ == decimal(n as nat),
    decreases n,
{
    if n < 10 {
        String::from_str(digit_text(n))
    } else {
        let mut s = u64_decimal(n / 10);
        s.append(digit_text(n % 10));
        assert(s@ =~= decimal(n as nat));
        s
    }
}

impl Endpoint {
    /// The `dtn:none` endpoint.
    pub fn none() -> (r: Endpoint)
        ensures
            r@ == EndpointModel::DtnNone,
    {
        Endpoint::DtnNone
    }

    /// A copy of this endpoint.
    pub fn duplicate(&self) -> (r: Endpoint)
        ensures
            r@ == self@,
    {
        match self {
            Endpoint::DtnNone => Endpoint::DtnNone,
            Endpoint::Dtn(s) => Endpoint::Dtn(s.clone()),
            Endpoint::Ipn(n, s) => Endpoint::Ipn(*n, *s),
        }
    }

    /// `"dtn"` or `"ipn"`.
    pub fn scheme(&self) -> (r: String)
        ensures
            r@ == scheme_of(self@),
    {
        match self {
            Endpoint::Ipn(..) => "ipn".to_owned(),
            _ => "dtn".to_owned(),
        }
    }

    /// Whether this endpoint uses the scheme named `scheme`.
    pub fn has_scheme(&self, scheme: &str) -> (r: bool)
        ensures
            r == (scheme_of(self@) == scheme@),
    {
        match self {
            Endpoint::Ipn(..) => str_eq(scheme, "ipn"),
            _ => str_eq(scheme, "dtn"),
        }
    }

    /// The plain node name without scheme.
    pub fn node(&self) -> (r: Option<String>)
        ensures
            match r {
                Some(t) => node_of(self@) == Some(t@),
                None => node_of(self@) is None,
            },
    {
        match self {
            Endpoint::DtnNone => None,
            Endpoint::Dtn(ssp) => dtn_node_name(ssp.as_str()),
            Endpoint::Ipn(n, _) => Some(u64_decimal(*n)),
        }
    }

    /// The node number of an `ipn` address, 0 for any other.
    pub fn node_number(&self) -> (r: u64)
        ensures
            r == (match self@ {
                EndpointModel::Ipn(n, _) => n,
                _ => 0,
            }),
    {
        match self {
            Endpoint::Ipn(n, _) => *n,
            _ => 0,
        }
    }

    /// Whether this is a group endpoint.
    pub fn is_non_singleton(&self) -> (r: bool)
        ensures
            r == is_non_singleton(self@),
    {
        match self {
            Endpoint::Dtn(ssp) => service_is_group(ssp.as_str()),
            _ => false,
        }
    }

    /// Appends the wire form: scheme code, then `0`, the text of the address, or
    /// the pair of node and service number.
    pub fn write_cbor(&self, out: &mut Vec<u8>)
        ensures
            final(out)@ == old(out)@ + enc_endpoint(self@),
    {
        write_head(out, MAJOR_ARRAY, 2);
        match self {
            Endpoint::DtnNone => {
                write_uint(out, SCHEME_DTN as u64);
                write_uint(out, 0);
            },
            Endpoint::Dtn(ssp) => {
                write_uint(out, SCHEME_DTN as u64);
                write_text(out, ssp.as_str());
            },
            Endpoint::Ipn(n, s) => {
                write_uint(out, SCHEME_IPN as u64);
                write_head(out, MAJOR_ARRAY, 2);
                write_uint(out, *n);
                write_uint(out, *s);
            },
        }
        assert(final(out)@ =~= old(out)@ + enc_endpoint(self@));
    }

    pub fn read_cbor(s: &[u8], pos: usize) -> (r: Result<(Endpoint, usize), DecodeError>)
        ensures
            match r {
                Ok((e, p)) => dec_endpoint(s@, pos as int) == Ok::<(EndpointModel, int), DecodeError>(
                    (e@, p as int),
                ),
                Err(e) => dec_endpoint(s@, pos as int) == Err::<(EndpointModel, int), DecodeError>(e),
            },
    {
        let p = match read_array_of(s, pos, 2) {
            Ok(p) => p,
            Err(e) => return Err(e),
        };
        let (scheme, q) = match read_discriminant(s, p) {
            Ok(x) => x,
            Err(e) => return Err(e),
        };
        if scheme == SCHEME_DTN {
            if q < s.len() && s[q] / 32 == MAJOR_TEXT {
                match read_text(s, q) {
                    Ok((t, end)) => Ok((Endpoint::Dtn(t), end)),
                    Err(e) => Err(e),
                }
            } else {
                match read_uint(s, q) {
                    Ok((code, end)) => if code == 0 {
                        Ok((Endpoint::DtnNone, end))
                    } else {
                        Err(DecodeError::TypeMismatch)
                    },
                    Err(e) => Err(e),
                }
            }
        } else if scheme == SCHEME_IPN {
            let a = match read_array_of(s, q, 2) {
                Ok(a) => a,
                Err(e) => return Err(e),
            };
            let (n, b) = match read_uint(s, a) {
                Ok(x) => x,
                Err(e) => return Err(e),
            };
            let (svc, end) = match read_uint(s, b) {
                Ok(x) => x,
                Err(e) => return Err(e),
            };
            if n >= 1 {
                Ok((Endpoint::Ipn(n, svc), end))
            } else {
                Err(DecodeError::TypeMismatch)
            }
        } else {
            Err(DecodeError::UnknownVariant)
        }
    }
}

} // verus!
