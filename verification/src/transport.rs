//! Framing of messages on the byte stream, and the protocol header that
//! envelopes every payload.
//!
//! A frame is the magic number `SHTR`, the length of the body as a 32-bit
//! little-endian integer, and the body.
use crate::Error;
use vstd::prelude::*;

verus! {

/// Number of bytes before the body of a frame: the magic number and the length.
pub const PREFIX_SIZE: usize = 8;

/// The magic number `SHTR` that starts every frame.
pub open spec fn magic() -> Seq<u8> {
    seq![0x53u8, 0x48u8, 0x54u8, 0x52u8]
}

/// The four bytes of `n` in little-endian order.
pub open spec fn le32(n: nat) -> Seq<u8> {
    seq![
        (n % 256) as u8,
        ((n / 256) % 256) as u8,
        ((n / 65536) % 256) as u8,
        ((n / 16777216) % 256) as u8,
    ]
}

/// The number that four bytes denote in little-endian order.
pub open spec fn le32_value(b: Seq<u8>) -> nat {
    (b[0] + 256 * b[1] + 65536 * b[2] + 16777216 * b[3]) as nat
}

/// The frame that carries `body`.
pub open spec fn frame(body: Seq<u8>) -> Seq<u8> {
    magic() + le32(body.len()) + body
}

/// What reading a frame from the start of `s` gives: the body and the number
/// of bytes that the frame takes, or why `s` holds no frame.
pub open spec fn unframe(s: Seq<u8>) -> Result<(Seq<u8>, nat), Error> {
    if s.len() < PREFIX_SIZE {
        Err(Error::HeaderSize)
    } else if s.subrange(0, 4) != magic() {
        Err(Error::BadMagic)
    } else {
        let n = le32_value(s.subrange(4, 8));
        if s.len() < PREFIX_SIZE + n {
            Err(Error::PayloadSize)
        } else {
            Ok((s.subrange(PREFIX_SIZE as int, PREFIX_SIZE + n), (PREFIX_SIZE + n) as nat))
        }
    }
}

proof fn lemma_le32_roundtrip(n: nat)
    requires
        n <= u32::MAX,
    ensures
        le32_value(le32(n)) == n,
{
    let b0 = n % 256;
    let b1 = (n / 256) % 256;
    let b2 = (n / 65536) % 256;
    let b3 = (n / 16777216) % 256;
    assert(n == b0 + 256 * b1 + 65536 * b2 + 16777216 * b3) by (nonlinear_arith)
        requires
            n <= 0xffff_ffff,
            b0 == n % 256,
            b1 == (n / 256) % 256,
            b2 == (n / 65536) % 256,
            b3 == (n / 16777216) % 256,
    ;
}

/// Reading a frame back gives the body that was framed, whatever follows the
/// frame on the stream, and says how many bytes the frame took.
pub proof fn lemma_frame_roundtrip(body: Seq<u8>, rest: Seq<u8>)
    requires
        body.len() <= u32::MAX,
    ensures
        unframe(frame(body) + rest) == Ok::<(Seq<u8>, nat), Error>((body, (body.len() + PREFIX_SIZE) as nat)),
{
    let s = frame(body) + rest;
    lemma_le32_roundtrip(body.len());
    assert(s.subrange(0, 4) =~= magic());
    assert(s.subrange(4, 8) =~= le32(body.len()));
    assert(s.subrange(PREFIX_SIZE as int, PREFIX_SIZE + body.len()) =~= body);
}

/// Builds the frame that carries `body`.
pub fn encode_frame(body: &[u8]) -> (out: Vec<u8>)
    requires
        body@.len() <= u32::MAX,
    ensures
        out@ == frame(body@),
{
    let n = body.len();
    let mut out: Vec<u8> = Vec::new();
    out.push(0x53u8);
    out.push(0x48u8);
    out.push(0x54u8);
    out.push(0x52u8);
    out.push((n % 256) as u8);
    out.push(((n / 256) % 256) as u8);
    out.push(((n / 65536) % 256) as u8);
    out.push(((n / 16777216) % 256) as u8);
    assert(out@ =~= magic() + le32(n as nat));
    let mut i: usize = 0;
    while i < n
        invariant
            n == body@.len(),
            i <= n,
            out@ =~= magic() + le32(n as nat) + body@.subrange(0, i as int),
        decreases n - i,
    {
        out.push(body[i]);
        i = i + 1;
    }
    assert(body@.subrange(0, n as int) =~= body@);
    out
}

/// Reads the frame at the start of `data`: its body, and the number of bytes
/// that the frame takes on the stream.
pub fn decode_frame(data: &[u8]) -> (r: Result<(Vec<u8>, usize), Error>)
    ensures
        match r {
            Ok((body, used)) => unframe(data@) == Ok::<(Seq<u8>, nat), Error>((body@, used as nat)),
            Err(e) => unframe(data@) == Err::<(Seq<u8>, nat), Error>(e),
        },
{
    if data.len() < PREFIX_SIZE {
        return Err(Error::HeaderSize);
    }
    if !(data[0] == 0x53u8 && data[1] == 0x48u8 && data[2] == 0x54u8 && data[3] == 0x52u8) {
        assert(data@.subrange(0, 4) != magic()) by {
            if data@.subrange(0, 4) == magic() {
                assert(data@.subrange(0, 4)[0] == data@[0]);
                assert(data@.subrange(0, 4)[1] == data@[1]);
                assert(data@.subrange(0, 4)[2] == data@[2]);
                assert(data@.subrange(0, 4)[3] == data@[3]);
            }
        }
        return Err(Error::BadMagic);
    }
    assert(data@.subrange(0, 4) =~= magic());
    let expected: usize = data[4] as usize + 256 * (data[5] as usize) + 65536 * (data[6] as usize)
        + 16777216 * (data[7] as usize);
    assert(expected == le32_value(data@.subrange(4, 8)));
    if data.len() - PREFIX_SIZE < expected {
        return Err(Error::PayloadSize);
    }
    let total = PREFIX_SIZE + expected;
    let body = vstd::slice::slice_to_vec(vstd::slice::slice_subrange(data, PREFIX_SIZE, total));
    Ok((body, total))
}

/// Versions of the protocol header. The wire format leaves the set of values
/// open: `Other` holds one that names no known version.
#[derive(Clone, Copy, Debug, PartialEq, Eq, Structural)]
pub enum Version {
    Initial,
    Other(u8),
}

/// Parameters of the secret-box protection of a payload.
#[derive(Clone, Debug, PartialEq, Eq)]
pub struct NaClSecretBox {
    pub session: u8,
    pub nonce: Option<Vec<u8>>,
    pub mac: Option<Vec<u8>>,
}

/// How the payload of a header is protected. `NONE` is the absent value of
/// the wire format; `Other` holds a value that names no known mechanism.
#[derive(Clone, Debug, PartialEq, Eq)]
pub enum CryptoParam {
    NONE,
    Plain,
    NaClSecretBox(NaClSecretBox),
    Other(u8),
}

/// The protocol header that envelopes every payload.
#[derive(Clone, Debug, PartialEq, Eq)]
pub struct Shutterheader {
    pub version: Version,
    pub crypt: CryptoParam,
    pub payload: Option<Vec<u8>>,
}

/// The header that session `id` sends with `payload`: session 0 sends in the
/// clear, any other session names itself in secret-box parameters.
pub open spec fn is_header_for(h: Shutterheader, id: u8, payload: Seq<u8>) -> bool {
    &&& h.version == Version::Initial
    &&& h.payload matches Some(p) && p@ == payload
    &&& if id == 0 {
        h.crypt == CryptoParam::Plain
    } else {
        h.crypt matches CryptoParam::NaClSecretBox(b) && b.session == id && b.nonce is None
            && b.mac is None
    }
}

/// The payload that a received header carries, or why it is refused.
pub open spec fn header_payload(h: Shutterheader) -> Result<Seq<u8>, Error> {
    if h.version != Version::Initial {
        Err(Error::UnknownVersion)
    } else {
        match h.payload {
            None => Err(Error::CommandMissing),
            Some(p) => match h.crypt {
                CryptoParam::Plain => Ok(p@),
                CryptoParam::NaClSecretBox(_) => Ok(p@),
                _ => Err(Error::UnknownCrypto),
            },
        }
    }
}

/// Builds the header that session `id` sends with `payload`.
pub fn build_shutterheader(id: u8, payload: &[u8]) -> (h: Shutterheader)
    ensures
        is_header_for(h, id, payload@),
{
    let crypt = if id == 0 {
        CryptoParam::Plain
    } else {
        CryptoParam::NaClSecretBox(NaClSecretBox { session: id, nonce: None, mac: None })
    };
    Shutterheader {
        version: Version::Initial,
        crypt,
        payload: Some(vstd::slice::slice_to_vec(payload)),
    }
}

/// The payload that a received header carries.
pub fn parse_shutterheader(h: &Shutterheader) -> (r: Result<&[u8], Error>)
    ensures
        match r {
            Ok(p) => header_payload(*h) == Ok::<Seq<u8>, Error>(p@),
            Err(e) => header_payload(*h) == Err::<Seq<u8>, Error>(e),
        },
{
    match h.version {
        Version::Initial => {},
        _ => {
            return Err(Error::UnknownVersion);
        },
    }
    let payload = match &h.payload {
        Some(p) => p.as_slice(),
        None => {
            return Err(Error::CommandMissing);
        },
    };
    match &h.crypt {
        CryptoParam::Plain => {},
        CryptoParam::NaClSecretBox(_) => {},
        _ => {
            return Err(Error::UnknownCrypto);
        },
    }
    Ok(payload)
}

/// A header that a session builds is accepted on the other side, which reads
/// back the payload it was built with, whatever the session.
pub proof fn lemma_header_roundtrip(h: Shutterheader, id: u8, payload: Seq<u8>)
    requires
        is_header_for(h, id, payload),
    ensures
        header_payload(h) == Ok::<Seq<u8>, Error>(payload),
{
}

} // verus!
