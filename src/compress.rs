//! Text fields: the static-dictionary compressor that shrinks them, and the
//! way back from stored bytes to text.
use vstd::prelude::*;
use vstd::utf8::{decode_utf8, valid_utf8};

verus! {

/// Why the stored bytes of a text field give no text.
#[derive(Debug, Clone, Copy, PartialEq, Eq, Structural)]
pub enum TextError {
    /// The compressed bytes are corrupt.
    Decompress,
    /// The bytes are not valid UTF-8.
    NotUtf8,
}

#[verifier::external_type_specification]
#[verifier::external_body]
pub struct ExDecompressError(smaz::DecompressError);

/// What `smaz::compress` makes of the given bytes.
pub uninterp spec fn smaz_packed(b: Seq<u8>) -> Seq<u8>;

/// What `smaz::decompress` makes of the given bytes; `None` where it reports an error.
pub uninterp spec fn smaz_unpacked(b: Seq<u8>) -> Option<Seq<u8>>;

/// Whether the decompressor reads `b` from position `i` on without running past
/// its end: a verbatim marker (254, 255) always has the byte that follows it.
pub open spec fn smaz_framed_from(b: Seq<u8>, i: int) -> bool
    decreases b.len() - i,
{
    if i < 0 || i >= b.len() {
        true
    } else if b[i] == 254 {
        i + 1 < b.len() && smaz_framed_from(b, i + 2)
    } else if b[i] == 255 {
        i + 1 < b.len() && (i + b[i + 1] + 2 >= b.len() || smaz_framed_from(b, i + 3 + b[i + 1]))
    } else {
        smaz_framed_from(b, i + 1)
    }
}

pub open spec fn smaz_framed(b: Seq<u8>) -> bool {
    smaz_framed_from(b, 0)
}

/// Relies on `smaz::compress`: the result depends on the input alone; its codes
/// and verbatim runs are whole, and `smaz::decompress` restores the input from it
/// (the codebook maps each code back to the string it stands for).
#[verifier::external_body]
fn smaz_compress(b: &[u8]) -> (r: Vec<u8>)
    ensures
        r@ == smaz_packed(b@),
        smaz_framed(r@),
        smaz_unpacked(r@) == Some(b@),
{
    smaz::compress(b)
}

/// Relies on `smaz::decompress`: the result depends on the input alone. It
/// indexes past the end of an input whose last verbatim marker lacks its
/// length or byte, so such inputs are left out.
#[verifier::external_body]
fn smaz_decompress(b: &[u8]) -> (r: Result<Vec<u8>, smaz::DecompressError>)
    requires
        smaz_framed(b@),
    ensures
        match r {
            Ok(v) => smaz_unpacked(b@) == Some(v@),
            Err(_) => smaz_unpacked(b@) is None,
        },
{
    smaz::decompress(b)
}

/// Whether `b` can be handed to the decompressor.
pub fn smaz_is_framed(b: &[u8]) -> (r: bool)
    ensures
        r == smaz_framed(b@),
{
    let len = b.len();
    let mut i: usize = 0;
    while i < len
        invariant
            len == b@.len(),
            i <= len,
            smaz_framed(b@) == smaz_framed_from(b@, i as int),
        decreases len - i,
    {
        if b[i] == 254 {
            if i + 1 >= len {
                return false;
            }
            i = i + 2;
        } else if b[i] == 255 {
            if i + 1 >= len {
                return false;
            }
            let n = b[i + 1] as usize;
            if n + 2 >= len - i {
                return true;
            }
            i = i + 3 + n;
        } else {
            i = i + 1;
        }
    }
    true
}

/// Compresses the bytes of a text field.
pub fn compress(b: &[u8]) -> (r: Vec<u8>)
    ensures
        r@ == smaz_packed(b@),
        decompressed(r@) == Some(b@),
{
    smaz_compress(b)
}

/// What the decompressor gives for `b`: `None` for corrupt input.
pub open spec fn decompressed(b: Seq<u8>) -> Option<Seq<u8>> {
    if smaz_framed(b) {
        smaz_unpacked(b)
    } else {
        None
    }
}

/// Decompresses the bytes of a text field.
pub fn decompress(b: &[u8]) -> (r: Result<Vec<u8>, TextError>)
    ensures
        match r {
            Ok(v) => decompressed(b@) == Some(v@),
            Err(e) => decompressed(b@) is None && e == TextError::Decompress,
        },
{
    if !smaz_is_framed(b) {
        return Err(TextError::Decompress);
    }
    match smaz_decompress(b) {
        Ok(v) => Ok(v),
        Err(_) => Err(TextError::Decompress),
    }
}

/// The text that a field stores, compressed or not.
pub open spec fn stored_text(comp: bool, stored: Seq<u8>) -> Result<Seq<char>, TextError> {
    let plain = if comp {
        decompressed(stored)
    } else {
        Some(stored)
    };
    match plain {
        None => Err(TextError::Decompress),
        Some(b) => if valid_utf8(b) {
            Ok(decode_utf8(b))
        } else {
            Err(TextError::NotUtf8)
        },
    }
}

/// The bytes to store for a text field.
pub open spec fn packed_text(comp: bool, t: Seq<char>) -> Seq<u8> {
    if comp {
        smaz_packed(vstd::utf8::encode_utf8(t))
    } else {
        vstd::utf8::encode_utf8(t)
    }
}

/// Turns text into the bytes a field stores; reading them back gives the text.
pub fn pack_text(comp: bool, t: &str) -> (r: Vec<u8>)
    ensures
        r@ == packed_text(comp, t@),
        stored_text(comp, r@) == Ok::<Seq<char>, TextError>(t@),
{
    let b = t.as_bytes();
    proof {
        vstd::utf8::encode_utf8_valid_utf8(t@);
        vstd::utf8::encode_utf8_decode_utf8(t@);
    }
    if comp {
        compress(b)
    } else {
        slice_to_owned(b)
    }
}

pub(crate) fn slice_to_owned(b: &[u8]) -> (r: Vec<u8>)
    ensures
        r@ == b@,
{
    let mut out: Vec<u8> = Vec::new();
    let mut i: usize = 0;
    while i < b.len()
        invariant
            i <= b.len(),
            out@ == b@.subrange(0, i as int),
        decreases b.len() - i,
    {
        out.push(b[i]);
        i = i + 1;
        assert(out@ =~= b@.subrange(0, i as int));
    }
    assert(out@ =~= b@);
    out
}

/// Reads the text a field stores.
pub fn unpack_text(comp: bool, stored: &[u8]) -> (r: Result<String, TextError>)
    ensures
        match r {
            Ok(t) => stored_text(comp, stored@) == Ok::<Seq<char>, TextError>(t@),
            Err(e) => stored_text(comp, stored@) == Err::<Seq<char>, TextError>(e),
        },
{
    let plain = if comp {
        match decompress(stored) {
            Ok(v) => v,
            Err(e) => return Err(e),
        }
    } else {
        slice_to_owned(stored)
    };
    match crate::cbor::string_from_utf8(plain) {
        Some(t) => Ok(t),
        None => Err(TextError::NotUtf8),
    }
}

} // verus!
