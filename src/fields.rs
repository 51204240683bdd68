//! Named fields of the message records: a record is a CBOR map whose keys
//! are the field names, in a fixed order.
use crate::cbor::{
    dec_bool, dec_bytes, dec_head_of, dec_raw, dec_text, dec_u8, enc_bool, enc_bytes, enc_head,
    enc_text, enc_uint, is_null_at, lemma_bool_round_trip, lemma_bytes_round_trip,
    lemma_head_of_round_trip, lemma_null_at, lemma_text_round_trip, lemma_u8_round_trip, null_at,
    read_bytes, read_head_of, read_raw, read_text, read_u8, write_bytes,
    write_head, write_null, write_text, write_uint, DecodeError, MAJOR_ARRAY, MAJOR_TEXT,
    NULL_BYTE,
};
use vstd::prelude::*;
use vstd::utf8::encode_utf8;

verus! {

// ---------------------------------------------------------------------------
// Lengths of values held in memory fit the length fields of the wire form
// ---------------------------------------------------------------------------

pub fn bytes_fit(b: &[u8])
    ensures
        b@.len() <= u64::MAX,
{
    let n = b.len();
    assert(n <= u64::MAX);
}

pub fn text_fits(t: &str)
    ensures
        encode_utf8(t@).len() <= u64::MAX,
{
    bytes_fit(t.as_bytes());
}

pub fn list_fits(ts: &Vec<String>)
    ensures
        texts_fit(texts_view(ts@)),
{
    let mut i: usize = 0;
    while i < ts.len()
        invariant
            i <= ts.len(),
            forall|j: int| 0 <= j < i ==> encode_utf8(#[trigger] ts@[j]@).len() <= u64::MAX,
        decreases ts.len() - i,
    {
        text_fits(ts[i].as_str());
        i = i + 1;
    }
    let n = ts.len();
    assert(n <= u64::MAX);
    assert forall|j: int| 0 <= j < texts_view(ts@).len() implies encode_utf8(
        #[trigger] texts_view(ts@)[j],
    ).len() <= u64::MAX by {
        assert(texts_view(ts@)[j] == ts@[j]@);
    }
}

// ---------------------------------------------------------------------------
// Keys
// ---------------------------------------------------------------------------

/// A key: a text string, given by its bytes.
pub open spec fn enc_key(k: Seq<u8>) -> Seq<u8> {
    enc_head(MAJOR_TEXT, k.len() as u64) + k
}

/// Reads the key `k`; any other key is a mismatch.
pub open spec fn dec_key(s: Seq<u8>, pos: int, k: Seq<u8>) -> Result<int, DecodeError> {
    match dec_head_of(s, pos, MAJOR_TEXT) {
        Err(e) => Err(e),
        Ok((n, p)) => match dec_raw(s, p, n as int) {
            Err(e) => Err(e),
            Ok((b, q)) => if b == k {
                Ok(q)
            } else {
                Err(DecodeError::TypeMismatch)
            },
        },
    }
}

pub proof fn lemma_key_round_trip(p: Seq<u8>, k: Seq<u8>, r: Seq<u8>)
    requires
        k.len() <= u64::MAX,
    ensures
        dec_key(p + enc_key(k) + r, p.len() as int, k) == Ok::<int, DecodeError>(
            (p.len() + enc_key(k).len()) as int,
        ),
{
    let h = enc_head(MAJOR_TEXT, k.len() as u64);
    let s = p + enc_key(k) + r;
    assert(s =~= p + h + (k + r));
    lemma_head_of_round_trip(p, MAJOR_TEXT, k.len() as u64, k + r);
    assert(s.subrange((p + h).len() as int, ((p + h).len() + k.len()) as int) =~= k);
}

pub fn write_key(out: &mut Vec<u8>, k: &[u8])
    ensures
        final(out)@ == old(out)@ + enc_key(k@),
{
    write_head(out, MAJOR_TEXT, k.len() as u64);
    let ghost start = out@;
    let mut i: usize = 0;
    while i < k.len()
        invariant
            i <= k.len(),
            out@ == start + k@.subrange(0, i as int),
        decreases k.len() - i,
    {
        out.push(k[i]);
        i = i + 1;
        assert(out@ =~= start + k@.subrange(0, i as int));
    }
    assert(out@ =~= old(out)@ + enc_key(k@));
}

pub fn bytes_eq(a: &[u8], b: &[u8]) -> (r: bool)
    ensures
        r == (a@ == b@),
{
    if a.len() != b.len() {
        return false;
    }
    let mut i: usize = 0;
    while i < a.len()
        invariant
            a.len() == b.len(),
            i <= a.len(),
            forall|j: int| 0 <= j < i ==> a@[j] == b@[j],
        decreases a.len() - i,
    {
        if a[i] != b[i] {
            return false;
        }
        i = i + 1;
    }
    assert(a@ =~= b@);
    true
}

pub fn read_key(s: &[u8], pos: usize, k: &[u8]) -> (r: Result<usize, DecodeError>)
    ensures
        match r {
            Ok(p) => dec_key(s@, pos as int, k@) == Ok::<int, DecodeError>(p as int),
            Err(e) => dec_key(s@, pos as int, k@) == Err::<int, DecodeError>(e),
        },
{
    let (n, p) = match read_head_of(s, pos, MAJOR_TEXT) {
        Ok(x) => x,
        Err(e) => return Err(e),
    };
    let (b, q) = match read_raw(s, p, n) {
        Ok(x) => x,
        Err(e) => return Err(e),
    };
    if bytes_eq(b.as_slice(), k) {
        Ok(q)
    } else {
        Err(DecodeError::TypeMismatch)
    }
}

// ---------------------------------------------------------------------------
// Lists of small integers (a byte string written item by item)
// ---------------------------------------------------------------------------

pub open spec fn enc_u8_items(b: Seq<u8>) -> Seq<u8>
    decreases b.len(),
{
    if b.len() == 0 {
        Seq::empty()
    } else {
        enc_u8_items(b.drop_last()) + enc_uint(b.last() as u64)
    }
}

pub open spec fn enc_u8_list(b: Seq<u8>) -> Seq<u8> {
    enc_head(MAJOR_ARRAY, b.len() as u64) + enc_u8_items(b)
}

pub open spec fn dec_u8_items(s: Seq<u8>, pos: int, n: nat) -> Result<(Seq<u8>, int), DecodeError>
    decreases n,
{
    if n == 0 {
        Ok((Seq::empty(), pos))
    } else {
        match dec_u8_items(s, pos, (n - 1) as nat) {
            Err(e) => Err(e),
            Ok((v, p)) => match dec_u8(s, p) {
                Err(e) => Err(e),
                Ok((x, q)) => Ok((v.push(x), q)),
            },
        }
    }
}

pub open spec fn dec_u8_list(s: Seq<u8>, pos: int) -> Result<(Seq<u8>, int), DecodeError> {
    match dec_head_of(s, pos, MAJOR_ARRAY) {
        Err(e) => Err(e),
        Ok((n, p)) => dec_u8_items(s, p, n as nat),
    }
}

proof fn lemma_u8_items_err(s: Seq<u8>, pos: int, k: nat, m: nat)
    requires
        k <= m,
        dec_u8_items(s, pos, k) is Err,
    ensures
        dec_u8_items(s, pos, m) == dec_u8_items(s, pos, k),
    decreases m,
{
    if k < m {
        lemma_u8_items_err(s, pos, k, (m - 1) as nat);
    }
}

proof fn lemma_u8_items_round_trip(p: Seq<u8>, b: Seq<u8>, r: Seq<u8>)
    ensures
        dec_u8_items(p + enc_u8_items(b) + r, p.len() as int, b.len()) == Ok::<(Seq<u8>, int), DecodeError>(
            (b, (p.len() + enc_u8_items(b).len()) as int),
        ),
    decreases b.len(),
{
    if b.len() > 0 {
        let b0 = b.drop_last();
        let x = enc_uint(b.last() as u64);
        let s = p + enc_u8_items(b) + r;
        assert(s =~= p + enc_u8_items(b0) + (x + r));
        lemma_u8_items_round_trip(p, b0, x + r);
        assert(s =~= (p + enc_u8_items(b0)) + x + r);
        lemma_u8_round_trip(p + enc_u8_items(b0), b.last(), r);
        assert(b0.push(b.last()) =~= b);
    } else {
        assert(enc_u8_items(b) =~= Seq::empty());
        assert(b =~= Seq::empty());
    }
}

pub proof fn lemma_u8_list_round_trip(p: Seq<u8>, b: Seq<u8>, r: Seq<u8>)
    requires
        b.len() <= u64::MAX,
    ensures
        dec_u8_list(p + enc_u8_list(b) + r, p.len() as int) == Ok::<(Seq<u8>, int), DecodeError>(
            (b, (p.len() + enc_u8_list(b).len()) as int),
        ),
{
    let h = enc_head(MAJOR_ARRAY, b.len() as u64);
    let s = p + enc_u8_list(b) + r;
    assert(s =~= p + h + (enc_u8_items(b) + r));
    lemma_head_of_round_trip(p, MAJOR_ARRAY, b.len() as u64, enc_u8_items(b) + r);
    assert(s =~= (p + h) + enc_u8_items(b) + r);
    lemma_u8_items_round_trip(p + h, b, r);
}

pub fn write_u8_list(out: &mut Vec<u8>, b: &[u8])
    ensures
        final(out)@ == old(out)@ + enc_u8_list(b@),
{
    write_head(out, MAJOR_ARRAY, b.len() as u64);
    let ghost start = out@;
    let mut i: usize = 0;
    while i < b.len()
        invariant
            i <= b.len(),
            out@ == start + enc_u8_items(b@.subrange(0, i as int)),
        decreases b.len() - i,
    {
        write_uint(out, b[i] as u64);
        proof {
            let next = b@.subrange(0, i + 1);
            assert(next.drop_last() =~= b@.subrange(0, i as int));
        }
        i = i + 1;
        assert(out@ =~= start + enc_u8_items(b@.subrange(0, i as int)));
    }
    assert(b@.subrange(0, b.len() as int) =~= b@);
    assert(out@ =~= old(out)@ + enc_u8_list(b@));
}

pub fn read_u8_list(s: &[u8], pos: usize) -> (r: Result<(Vec<u8>, usize), DecodeError>)
    ensures
        match r {
            Ok((b, p)) => dec_u8_list(s@, pos as int) == Ok::<(Seq<u8>, int), DecodeError>(
                (b@, p as int),
            ),
            Err(e) => dec_u8_list(s@, pos as int) == Err::<(Seq<u8>, int), DecodeError>(e),
        },
{
    let (n, start) = match read_head_of(s, pos, MAJOR_ARRAY) {
        Ok(x) => x,
        Err(e) => return Err(e),
    };
    let mut out: Vec<u8> = Vec::new();
    let mut p = start;
    let mut i: u64 = 0;
    while i < n
        invariant
            i <= n,
            dec_head_of(s@, pos as int, MAJOR_ARRAY) == Ok::<(u64, int), DecodeError>((n, start as int)),
            dec_u8_items(s@, start as int, i as nat) == Ok::<(Seq<u8>, int), DecodeError>(
                (out@, p as int),
            ),
        decreases n - i,
    {
        match read_u8(s, p) {
            Ok((x, q)) => {
                out.push(x);
                p = q;
            },
            Err(e) => {
                proof {
                    assert(dec_u8_items(s@, start as int, (i + 1) as nat) == Err::<(Seq<u8>, int), DecodeError>(e));
                    lemma_u8_items_err(s@, start as int, (i + 1) as nat, n as nat);
                }
                return Err(e);
            },
        }
        i = i + 1;
    }
    Ok((out, p))
}

// ---------------------------------------------------------------------------
// Lists of texts
// ---------------------------------------------------------------------------

pub open spec fn enc_text_items(ts: Seq<Seq<char>>) -> Seq<u8>
    decreases ts.len(),
{
    if ts.len() == 0 {
        Seq::empty()
    } else {
        enc_text_items(ts.drop_last()) + enc_text(ts.last())
    }
}

pub open spec fn enc_text_list(ts: Seq<Seq<char>>) -> Seq<u8> {
    enc_head(MAJOR_ARRAY, ts.len() as u64) + enc_text_items(ts)
}

pub open spec fn dec_text_items(s: Seq<u8>, pos: int, n: nat) -> Result<(Seq<Seq<char>>, int), DecodeError>
    decreases n,
{
    if n == 0 {
        Ok((Seq::empty(), pos))
    } else {
        match dec_text_items(s, pos, (n - 1) as nat) {
            Err(e) => Err(e),
            Ok((v, p)) => match dec_text(s, p) {
                Err(e) => Err(e),
                Ok((x, q)) => Ok((v.push(x), q)),
            },
        }
    }
}

pub open spec fn dec_text_list(s: Seq<u8>, pos: int) -> Result<(Seq<Seq<char>>, int), DecodeError> {
    match dec_head_of(s, pos, MAJOR_ARRAY) {
        Err(e) => Err(e),
        Ok((n, p)) => dec_text_items(s, p, n as nat),
    }
}

/// Texts whose encodings fit the length field of the wire form.
pub open spec fn texts_fit(ts: Seq<Seq<char>>) -> bool {
    ts.len() <= u64::MAX && forall|i: int| 0 <= i < ts.len() ==> encode_utf8(#[trigger] ts[i]).len() <= u64::MAX
}

proof fn lemma_text_items_err(s: Seq<u8>, pos: int, k: nat, m: nat)
    requires
        k <= m,
        dec_text_items(s, pos, k) is Err,
    ensures
        dec_text_items(s, pos, m) == dec_text_items(s, pos, k),
    decreases m,
{
    if k < m {
        lemma_text_items_err(s, pos, k, (m - 1) as nat);
    }
}

proof fn lemma_text_items_round_trip(p: Seq<u8>, ts: Seq<Seq<char>>, r: Seq<u8>)
    requires
        forall|i: int| 0 <= i < ts.len() ==> encode_utf8(#[trigger] ts[i]).len() <= u64::MAX,
    ensures
        dec_text_items(p + enc_text_items(ts) + r, p.len() as int, ts.len()) == Ok::<
            (Seq<Seq<char>>, int),
            DecodeError,
        >((ts, (p.len() + enc_text_items(ts).len()) as int)),
    decreases ts.len(),
{
    if ts.len() > 0 {
        let t0 = ts.drop_last();
        let x = enc_text(ts.last());
        let s = p + enc_text_items(ts) + r;
        assert(ts.last() == ts[ts.len() - 1]);
        assert forall|i: int| 0 <= i < t0.len() implies encode_utf8(#[trigger] t0[i]).len() <= u64::MAX by {
            assert(t0[i] == ts[i]);
        }
        assert(s =~= p + enc_text_items(t0) + (x + r));
        lemma_text_items_round_trip(p, t0, x + r);
        assert(s =~= (p + enc_text_items(t0)) + x + r);
        lemma_text_round_trip(p + enc_text_items(t0), ts.last(), r);
        assert(t0.push(ts.last()) =~= ts);
    } else {
        assert(enc_text_items(ts) =~= Seq::empty());
        assert(ts =~= Seq::empty());
    }
}

pub proof fn lemma_text_list_round_trip(p: Seq<u8>, ts: Seq<Seq<char>>, r: Seq<u8>)
    requires
        texts_fit(ts),
    ensures
        dec_text_list(p + enc_text_list(ts) + r, p.len() as int) == Ok::<(Seq<Seq<char>>, int), DecodeError>(
            (ts, (p.len() + enc_text_list(ts).len()) as int),
        ),
{
    let h = enc_head(MAJOR_ARRAY, ts.len() as u64);
    let s = p + enc_text_list(ts) + r;
    assert(s =~= p + h + (enc_text_items(ts) + r));
    lemma_head_of_round_trip(p, MAJOR_ARRAY, ts.len() as u64, enc_text_items(ts) + r);
    assert(s =~= (p + h) + enc_text_items(ts) + r);
    lemma_text_items_round_trip(p + h, ts, r);
}

/// The views of a list of strings.
pub open spec fn texts_view(v: Seq<String>) -> Seq<Seq<char>> {
    v.map_values(|t: String| t@)
}

pub fn write_text_list(out: &mut Vec<u8>, ts: &Vec<String>)
    ensures
        final(out)@ == old(out)@ + enc_text_list(texts_view(ts@)),
{
    write_head(out, MAJOR_ARRAY, ts.len() as u64);
    let ghost start = out@;
    let mut i: usize = 0;
    while i < ts.len()
        invariant
            i <= ts.len(),
            out@ == start + enc_text_items(texts_view(ts@.subrange(0, i as int))),
        decreases ts.len() - i,
    {
        write_text(out, ts[i].as_str());
        proof {
            let next = texts_view(ts@.subrange(0, i + 1));
            assert(next.drop_last() =~= texts_view(ts@.subrange(0, i as int)));
            assert(next.last() == ts@[i as int]@);
        }
        i = i + 1;
        assert(out@ =~= start + enc_text_items(texts_view(ts@.subrange(0, i as int))));
    }
    assert(ts@.subrange(0, ts.len() as int) =~= ts@);
    assert(out@ =~= old(out)@ + enc_text_list(texts_view(ts@)));
}

pub fn read_text_list(s: &[u8], pos: usize) -> (r: Result<(Vec<String>, usize), DecodeError>)
    ensures
        match r {
            Ok((ts, p)) => dec_text_list(s@, pos as int) == Ok::<(Seq<Seq<char>>, int), DecodeError>(
                (texts_view(ts@), p as int),
            ),
            Err(e) => dec_text_list(s@, pos as int) == Err::<(Seq<Seq<char>>, int), DecodeError>(e),
        },
{
    let (n, start) = match read_head_of(s, pos, MAJOR_ARRAY) {
        Ok(x) => x,
        Err(e) => return Err(e),
    };
    let mut out: Vec<String> = Vec::new();
    assert(texts_view(out@) =~= Seq::empty());
    let mut p = start;
    let mut i: u64 = 0;
    while i < n
        invariant
            i <= n,
            dec_head_of(s@, pos as int, MAJOR_ARRAY) == Ok::<(u64, int), DecodeError>((n, start as int)),
            dec_text_items(s@, start as int, i as nat) == Ok::<(Seq<Seq<char>>, int), DecodeError>(
                (texts_view(out@), p as int),
            ),
        decreases n - i,
    {
        match read_text(s, p) {
            Ok((x, q)) => {
                let ghost before = out@;
                out.push(x);
                assert(texts_view(out@) =~= texts_view(before).push(x@));
                p = q;
            },
            Err(e) => {
                proof {
                    assert(dec_text_items(s@, start as int, (i + 1) as nat) == Err::<(Seq<Seq<char>>, int), DecodeError>(e));
                    lemma_text_items_err(s@, start as int, (i + 1) as nat, n as nat);
                }
                return Err(e);
            },
        }
        i = i + 1;
    }
    Ok((out, p))
}

// ---------------------------------------------------------------------------
// Optional values: null when absent
// ---------------------------------------------------------------------------

pub open spec fn enc_opt_u8_list(o: Option<Seq<u8>>) -> Seq<u8> {
    match o {
        None => seq![NULL_BYTE],
        Some(b) => enc_u8_list(b),
    }
}

pub open spec fn dec_opt_u8_list(s: Seq<u8>, pos: int) -> Result<(Option<Seq<u8>>, int), DecodeError> {
    if is_null_at(s, pos) {
        Ok((None, pos + 1))
    } else {
        match dec_u8_list(s, pos) {
            Err(e) => Err(e),
            Ok((b, p)) => Ok((Some(b), p)),
        }
    }
}

pub proof fn lemma_opt_u8_list_round_trip(p: Seq<u8>, o: Option<Seq<u8>>, r: Seq<u8>)
    requires
        o is Some ==> o->Some_0.len() <= u64::MAX,
    ensures
        dec_opt_u8_list(p + enc_opt_u8_list(o) + r, p.len() as int) == Ok::<(Option<Seq<u8>>, int), DecodeError>(
            (o, (p.len() + enc_opt_u8_list(o).len()) as int),
        ),
{
    match o {
        None => lemma_null_at(p, r),
        Some(b) => {
            lemma_u8_list_round_trip(p, b, r);
            crate::cbor::lemma_head_first_byte(MAJOR_ARRAY, b.len() as u64);
            assert((p + enc_opt_u8_list(o) + r)[p.len() as int] == enc_u8_list(b)[0]);
        },
    }
}

pub fn write_opt_u8_list(out: &mut Vec<u8>, o: &Option<Vec<u8>>)
    ensures
        final(out)@ == old(out)@ + enc_opt_u8_list(
            match o {
                Some(b) => Some(b@),
                None => None,
            },
        ),
{
    match o {
        None => write_null(out),
        Some(b) => write_u8_list(out, b.as_slice()),
    }
}

pub fn read_opt_u8_list(s: &[u8], pos: usize) -> (r: Result<(Option<Vec<u8>>, usize), DecodeError>)
    ensures
        match r {
            Ok((o, p)) => dec_opt_u8_list(s@, pos as int) == Ok::<(Option<Seq<u8>>, int), DecodeError>(
                (
                    match o {
                        Some(b) => Some(b@),
                        None => None,
                    },
                    p as int,
                ),
            ),
            Err(e) => dec_opt_u8_list(s@, pos as int) == Err::<(Option<Seq<u8>>, int), DecodeError>(e),
        },
{
    if pos < s.len() && null_at(s, pos) {
        Ok((None, pos + 1))
    } else {
        match read_u8_list(s, pos) {
            Err(e) => Err(e),
            Ok((b, p)) => Ok((Some(b), p)),
        }
    }
}

pub open spec fn enc_opt_text(o: Option<Seq<char>>) -> Seq<u8> {
    match o {
        None => seq![NULL_BYTE],
        Some(t) => enc_text(t),
    }
}

pub open spec fn dec_opt_text(s: Seq<u8>, pos: int) -> Result<(Option<Seq<char>>, int), DecodeError> {
    if is_null_at(s, pos) {
        Ok((None, pos + 1))
    } else {
        match dec_text(s, pos) {
            Err(e) => Err(e),
            Ok((t, p)) => Ok((Some(t), p)),
        }
    }
}

pub proof fn lemma_opt_text_round_trip(p: Seq<u8>, o: Option<Seq<char>>, r: Seq<u8>)
    requires
        o is Some ==> encode_utf8(o->Some_0).len() <= u64::MAX,
    ensures
        dec_opt_text(p + enc_opt_text(o) + r, p.len() as int) == Ok::<(Option<Seq<char>>, int), DecodeError>(
            (o, (p.len() + enc_opt_text(o).len()) as int),
        ),
{
    match o {
        None => lemma_null_at(p, r),
        Some(t) => {
            lemma_text_round_trip(p, t, r);
            crate::cbor::lemma_head_first_byte(MAJOR_TEXT, encode_utf8(t).len() as u64);
            assert((p + enc_opt_text(o) + r)[p.len() as int] == enc_text(t)[0]);
        },
    }
}

pub fn write_opt_text(out: &mut Vec<u8>, o: &Option<String>)
    ensures
        final(out)@ == old(out)@ + enc_opt_text(
            match o {
                Some(t) => Some(t@),
                None => None,
            },
        ),
{
    match o {
        None => write_null(out),
        Some(t) => write_text(out, t.as_str()),
    }
}

pub fn read_opt_text(s: &[u8], pos: usize) -> (r: Result<(Option<String>, usize), DecodeError>)
    ensures
        match r {
            Ok((o, p)) => dec_opt_text(s@, pos as int) == Ok::<(Option<Seq<char>>, int), DecodeError>(
                (
                    match o {
                        Some(t) => Some(t@),
                        None => None,
                    },
                    p as int,
                ),
            ),
            Err(e) => dec_opt_text(s@, pos as int) == Err::<(Option<Seq<char>>, int), DecodeError>(e),
        },
{
    if pos < s.len() && null_at(s, pos) {
        Ok((None, pos + 1))
    } else {
        match read_text(s, pos) {
            Err(e) => Err(e),
            Ok((t, p)) => Ok((Some(t), p)),
        }
    }
}

// ---------------------------------------------------------------------------
// 128-bit identifiers: a byte string of sixteen bytes, most significant first
// ---------------------------------------------------------------------------

pub open spec fn enc_id128(v: u128) -> Seq<u8> {
    enc_bytes(crate::cbor::be_bytes(v as nat, 16))
}

pub open spec fn dec_id128(s: Seq<u8>, pos: int) -> Result<(u128, int), DecodeError> {
    match dec_bytes(s, pos) {
        Err(e) => Err(e),
        Ok((b, p)) => if b.len() == 16 {
            Ok((crate::cbor::be_value(b) as u128, p))
        } else {
            Err(DecodeError::TypeMismatch)
        },
    }
}

proof fn lemma_pow256_16()
    ensures
        crate::cbor::pow256(16) == 0x1_0000_0000_0000_0000_0000_0000_0000_0000,
{
    reveal_with_fuel(crate::cbor::pow256, 17);
}

pub proof fn lemma_id128_round_trip(p: Seq<u8>, v: u128, r: Seq<u8>)
    ensures
        dec_id128(p + enc_id128(v) + r, p.len() as int) == Ok::<(u128, int), DecodeError>(
            (v, (p.len() + enc_id128(v).len()) as int),
        ),
{
    let b = crate::cbor::be_bytes(v as nat, 16);
    crate::cbor::lemma_be_bytes_len(v as nat, 16);
    lemma_bytes_round_trip(p, b, r);
    lemma_pow256_16();
    crate::cbor::lemma_be_round_trip(v as nat, 16);
}

fn push_be128(out: &mut Vec<u8>, a: u128, n: usize)
    ensures
        final(out)@ == old(out)@ + crate::cbor::be_bytes(a as nat, n as nat),
    decreases n,
{
    if n > 0 {
        push_be128(out, a / 256, n - 1);
        out.push((a % 256) as u8);
        assert(final(out)@ =~= old(out)@ + crate::cbor::be_bytes(a as nat, n as nat));
    } else {
        assert(out@ =~= old(out)@ + crate::cbor::be_bytes(a as nat, n as nat));
    }
}

pub fn write_id128(out: &mut Vec<u8>, v: u128)
    ensures
        final(out)@ == old(out)@ + enc_id128(v),
{
    let mut b: Vec<u8> = Vec::new();
    push_be128(&mut b, v, 16);
    assert(b@ =~= crate::cbor::be_bytes(v as nat, 16));
    write_bytes(out, b.as_slice());
}

pub fn read_id128(s: &[u8], pos: usize) -> (r: Result<(u128, usize), DecodeError>)
    ensures
        match r {
            Ok((v, p)) => dec_id128(s@, pos as int) == Ok::<(u128, int), DecodeError>((v, p as int)),
            Err(e) => dec_id128(s@, pos as int) == Err::<(u128, int), DecodeError>(e),
        },
{
    let (b, p) = match read_bytes(s, pos) {
        Ok(x) => x,
        Err(e) => return Err(e),
    };
    if b.len() != 16 {
        return Err(DecodeError::TypeMismatch);
    }
    let mut acc: u128 = 0;
    let mut i: usize = 0;
    proof {
        lemma_pow256_16();
    }
    while i < 16
        invariant
            b@.len() == 16,
            0 <= i <= 16,
            acc as nat == crate::cbor::be_value(b@.subrange(0, i as int)),
            crate::cbor::pow256(16) == 0x1_0000_0000_0000_0000_0000_0000_0000_0000,
        decreases 16 - i,
    {
        proof {
            let next = b@.subrange(0, i + 1);
            assert(next.drop_last() =~= b@.subrange(0, i as int));
            crate::cbor::lemma_be_value_bound(next);
            lemma_pow_le((i + 1) as nat, 16);
        }
        acc = acc * 256 + b[i] as u128;
        i = i + 1;
    }
    assert(b@.subrange(0, 16) =~= b@);
    Ok((acc, p))
}

proof fn lemma_pow_le(a: nat, b: nat)
    requires
        a <= b,
    ensures
        crate::cbor::pow256(a) <= crate::cbor::pow256(b),
    decreases b,
{
    if a < b {
        lemma_pow_le(a, (b - 1) as nat);
    }
}


// ---------------------------------------------------------------------------
// A key followed by its value
// ---------------------------------------------------------------------------
pub open spec fn enc_bool_field(k: Seq<u8>, v: bool) -> Seq<u8> {
    enc_key(k) + enc_bool(v)
}

pub open spec fn dec_bool_field(s: Seq<u8>, pos: int, k: Seq<u8>) -> Result<(bool, int), DecodeError> {
    match dec_key(s, pos, k) {
        Err(e) => Err(e),
        Ok(p) => dec_bool(s, p),
    }
}

pub proof fn lemma_bool_field(p: Seq<u8>, k: Seq<u8>, v: bool, r: Seq<u8>)
    requires
        k.len() <= u64::MAX,
    ensures
        dec_bool_field(p + enc_bool_field(k, v) + r, p.len() as int, k) == Ok::<(bool, int), DecodeError>(
            (v, (p.len() + enc_bool_field(k, v).len()) as int),
        ),
{
    let s = p + enc_bool_field(k, v) + r;
    assert(s =~= p + enc_key(k) + (enc_bool(v) + r));
    lemma_key_round_trip(p, k, enc_bool(v) + r);
    assert(s =~= (p + enc_key(k)) + enc_bool(v) + r);
    lemma_bool_round_trip(p + enc_key(k), v, r);
    assert(enc_bool(v).len() == 1);
}

pub open spec fn enc_bytes_field(k: Seq<u8>, v: Seq<u8>) -> Seq<u8> {
    enc_key(k) + enc_bytes(v)
}

pub open spec fn dec_bytes_field(s: Seq<u8>, pos: int, k: Seq<u8>) -> Result<(Seq<u8>, int), DecodeError> {
    match dec_key(s, pos, k) {
        Err(e) => Err(e),
        Ok(p) => dec_bytes(s, p),
    }
}

pub proof fn lemma_bytes_field(p: Seq<u8>, k: Seq<u8>, v: Seq<u8>, r: Seq<u8>)
    requires
        k.len() <= u64::MAX,
        v.len() <= u64::MAX,
    ensures
        dec_bytes_field(p + enc_bytes_field(k, v) + r, p.len() as int, k) == Ok::<(Seq<u8>, int), DecodeError>(
            (v, (p.len() + enc_bytes_field(k, v).len()) as int),
        ),
{
    let s = p + enc_bytes_field(k, v) + r;
    assert(s =~= p + enc_key(k) + (enc_bytes(v) + r));
    lemma_key_round_trip(p, k, enc_bytes(v) + r);
    assert(s =~= (p + enc_key(k)) + enc_bytes(v) + r);
    lemma_bytes_round_trip(p + enc_key(k), v, r);
}

pub open spec fn enc_opt_u8_list_field(k: Seq<u8>, v: Option<Seq<u8>>) -> Seq<u8> {
    enc_key(k) + enc_opt_u8_list(v)
}

pub open spec fn dec_opt_u8_list_field(s: Seq<u8>, pos: int, k: Seq<u8>) -> Result<(Option<Seq<u8>>, int), DecodeError> {
    match dec_key(s, pos, k) {
        Err(e) => Err(e),
        Ok(p) => dec_opt_u8_list(s, p),
    }
}

pub proof fn lemma_opt_u8_list_field(p: Seq<u8>, k: Seq<u8>, v: Option<Seq<u8>>, r: Seq<u8>)
    requires
        k.len() <= u64::MAX,
        v is Some ==> v->Some_0.len() <= u64::MAX,
    ensures
        dec_opt_u8_list_field(p + enc_opt_u8_list_field(k, v) + r, p.len() as int, k) == Ok::<(Option<Seq<u8>>, int), DecodeError>(
            (v, (p.len() + enc_opt_u8_list_field(k, v).len()) as int),
        ),
{
    let s = p + enc_opt_u8_list_field(k, v) + r;
    assert(s =~= p + enc_key(k) + (enc_opt_u8_list(v) + r));
    lemma_key_round_trip(p, k, enc_opt_u8_list(v) + r);
    assert(s =~= (p + enc_key(k)) + enc_opt_u8_list(v) + r);
    lemma_opt_u8_list_round_trip(p + enc_key(k), v, r);
}

pub open spec fn enc_opt_text_field(k: Seq<u8>, v: Option<Seq<char>>) -> Seq<u8> {
    enc_key(k) + enc_opt_text(v)
}

pub open spec fn dec_opt_text_field(s: Seq<u8>, pos: int, k: Seq<u8>) -> Result<(Option<Seq<char>>, int), DecodeError> {
    match dec_key(s, pos, k) {
        Err(e) => Err(e),
        Ok(p) => dec_opt_text(s, p),
    }
}

pub proof fn lemma_opt_text_field(p: Seq<u8>, k: Seq<u8>, v: Option<Seq<char>>, r: Seq<u8>)
    requires
        k.len() <= u64::MAX,
        v is Some ==> encode_utf8(v->Some_0).len() <= u64::MAX,
    ensures
        dec_opt_text_field(p + enc_opt_text_field(k, v) + r, p.len() as int, k) == Ok::<(Option<Seq<char>>, int), DecodeError>(
            (v, (p.len() + enc_opt_text_field(k, v).len()) as int),
        ),
{
    let s = p + enc_opt_text_field(k, v) + r;
    assert(s =~= p + enc_key(k) + (enc_opt_text(v) + r));
    lemma_key_round_trip(p, k, enc_opt_text(v) + r);
    assert(s =~= (p + enc_key(k)) + enc_opt_text(v) + r);
    lemma_opt_text_round_trip(p + enc_key(k), v, r);
}

pub open spec fn enc_text_list_field(k: Seq<u8>, v: Seq<Seq<char>>) -> Seq<u8> {
    enc_key(k) + enc_text_list(v)
}

pub open spec fn dec_text_list_field(s: Seq<u8>, pos: int, k: Seq<u8>) -> Result<(Seq<Seq<char>>, int), DecodeError> {
    match dec_key(s, pos, k) {
        Err(e) => Err(e),
        Ok(p) => dec_text_list(s, p),
    }
}

pub proof fn lemma_text_list_field(p: Seq<u8>, k: Seq<u8>, v: Seq<Seq<char>>, r: Seq<u8>)
    requires
        k.len() <= u64::MAX,
        texts_fit(v),
    ensures
        dec_text_list_field(p + enc_text_list_field(k, v) + r, p.len() as int, k) == Ok::<(Seq<Seq<char>>, int), DecodeError>(
            (v, (p.len() + enc_text_list_field(k, v).len()) as int),
        ),
{
    let s = p + enc_text_list_field(k, v) + r;
    assert(s =~= p + enc_key(k) + (enc_text_list(v) + r));
    lemma_key_round_trip(p, k, enc_text_list(v) + r);
    assert(s =~= (p + enc_key(k)) + enc_text_list(v) + r);
    lemma_text_list_round_trip(p + enc_key(k), v, r);
}

pub open spec fn enc_id128_field(k: Seq<u8>, v: u128) -> Seq<u8> {
    enc_key(k) + enc_id128(v)
}

pub open spec fn dec_id128_field(s: Seq<u8>, pos: int, k: Seq<u8>) -> Result<(u128, int), DecodeError> {
    match dec_key(s, pos, k) {
        Err(e) => Err(e),
        Ok(p) => dec_id128(s, p),
    }
}

pub proof fn lemma_id128_field(p: Seq<u8>, k: Seq<u8>, v: u128, r: Seq<u8>)
    requires
        k.len() <= u64::MAX,
    ensures
        dec_id128_field(p + enc_id128_field(k, v) + r, p.len() as int, k) == Ok::<(u128, int), DecodeError>(
            (v, (p.len() + enc_id128_field(k, v).len()) as int),
        ),
{
    let s = p + enc_id128_field(k, v) + r;
    assert(s =~= p + enc_key(k) + (enc_id128(v) + r));
    lemma_key_round_trip(p, k, enc_id128(v) + r);
    assert(s =~= (p + enc_key(k)) + enc_id128(v) + r);
    lemma_id128_round_trip(p + enc_key(k), v, r);
}

} // verus!
