use vstd::prelude::*;

verus! {

/// What zlib decompression gives for a byte string, `None` where it is not a
/// whole zlib stream.
pub uninterp spec fn zlib_inflate(b: Seq<u8>) -> Option<Seq<u8>>;

/// What zlib compression at the default level gives for a byte string.
pub uninterp spec fn zlib_deflate(b: Seq<u8>) -> Seq<u8>;

/// Relies on flate2's `read::ZlibDecoder` read to its end: the bytes a zlib
/// stream holds, or an error where the stream is corrupt or cut short.
#[verifier::external_body]
fn inflate(b: &[u8]) -> (r: Option<Vec<u8>>)
    ensures
        match r {
            Some(v) => zlib_inflate(b@) == Some(v@),
            None => zlib_inflate(b@) is None,
        },
{
    let mut out: Vec<u8> = Vec::new();
    let mut d = flate2::read::ZlibDecoder::new(b);
    match std::io::Read::read_to_end(&mut d, &mut out) {
        Ok(_) => Some(out),
        Err(_) => None,
    }
}

/// Relies on flate2's `write::ZlibEncoder` at the default level, written to
/// a vector and finished: the zlib stream of the bytes. Writing to a vector
/// does not fail.
#[verifier::external_body]
fn deflate(b: &[u8]) -> (r: Option<Vec<u8>>)
    ensures
        r is Some,
        match r {
            Some(v) => zlib_deflate(b@) == v@,
            None => true,
        },
{
    let mut e = flate2::write::ZlibEncoder::new(Vec::new(), flate2::Compression::default());
    match std::io::Write::write_all(&mut e, b) {
        Ok(()) => e.finish().ok(),
        Err(_) => None,
    }
}

/// The kind of body a frame carries.
#[derive(Debug, Clone, Copy, PartialEq, Eq, Structural)]
pub enum BlobType {
    /// The stream's header block.
    OSMHeader,
    /// A block of objects.
    OSMData,
}

/// How a frame's body is stored.
#[derive(Debug, Clone, Copy, PartialEq, Eq, Structural)]
pub enum Codec {
    Raw,
    Zlib,
    /// A compression this library cannot read, with its field number.
    Unsupported(u32),
}

/// The header of a frame.
#[derive(Debug, Clone, Copy, PartialEq, Eq, Structural)]
pub struct FrameHeader {
    pub blob_type: BlobType,
    /// Size of the body once decompressed.
    pub raw_size: u32,
    /// Size of the body as it stands in the stream.
    pub datasize: u32,
    pub codec: Codec,
}

/// Why a frame could not be read.
#[derive(Debug, Clone, Copy, PartialEq, Eq, Structural)]
pub enum FramingError {
    /// Fewer bytes are there than the frame declares.
    Truncated,
    /// The body does not have the declared size once decompressed.
    SizeMismatch,
    /// The body is compressed in a way this library cannot read.
    UnsupportedCodec,
    /// The compressed body is not a valid zlib stream.
    BadCompression,
}

/// The big-endian value of four bytes.
pub open spec fn be_u32(b0: u8, b1: u8, b2: u8, b3: u8) -> int {
    b0 as int * 0x100_0000 + b1 as int * 0x1_0000 + b2 as int * 0x100 + b3 as int
}

/// Reads the 4-byte big-endian length prefix at `pos`.
pub fn read_length(data: &Vec<u8>, pos: usize) -> (r: Result<u32, FramingError>)
    ensures
        match r {
            Ok(n) => pos + 4 <= data@.len() && n as int == be_u32(
                data@[pos as int],
                data@[pos + 1],
                data@[pos + 2],
                data@[pos + 3],
            ),
            Err(e) => pos + 4 > data@.len() && e == FramingError::Truncated,
        },
{
    if pos > data.len() || data.len() - pos < 4 {
        return Err(FramingError::Truncated);
    }
    let n: u32 = (data[pos] as u32) * 0x100_0000 + (data[pos + 1] as u32) * 0x1_0000 + (data[pos
        + 2] as u32) * 0x100 + data[pos + 3] as u32;
    Ok(n)
}

/// The 4-byte big-endian form of a length.
pub fn write_length(n: u32) -> (r: Vec<u8>)
    ensures
        r@.len() == 4,
        be_u32(r@[0], r@[1], r@[2], r@[3]) == n as int,
{
    let b0 = (n / 0x100_0000) as u8;
    let b1 = ((n / 0x1_0000) % 0x100) as u8;
    let b2 = ((n / 0x100) % 0x100) as u8;
    let b3 = (n % 0x100) as u8;
    let mut r: Vec<u8> = Vec::new();
    r.push(b0);
    r.push(b1);
    r.push(b2);
    r.push(b3);
    r
}

/// The body of a frame once decompressed, or why it cannot be had.
pub open spec fn body_result(h: FrameHeader, body: Seq<u8>) -> Result<Seq<u8>, FramingError> {
    if body.len() < h.datasize {
        Err(FramingError::Truncated)
    } else {
        let wire = body.subrange(0, h.datasize as int);
        match h.codec {
            Codec::Raw => if wire.len() == h.raw_size {
                Ok(wire)
            } else {
                Err(FramingError::SizeMismatch)
            },
            Codec::Zlib => match zlib_inflate(wire) {
                Some(out) => if out.len() == h.raw_size {
                    Ok(out)
                } else {
                    Err(FramingError::SizeMismatch)
                },
                None => Err(FramingError::BadCompression),
            },
            Codec::Unsupported(_) => Err(FramingError::UnsupportedCodec),
        }
    }
}

/// Takes the body a header declares from the bytes available, decompresses it
/// and checks its size; never a shortened or padded body.
pub fn read_body(h: &FrameHeader, available: &Vec<u8>) -> (r: Result<Vec<u8>, FramingError>)
    ensures
        match r {
            Ok(v) => body_result(*h, available@) == Ok::<Seq<u8>, FramingError>(v@),
            Err(e) => body_result(*h, available@) == Err::<Seq<u8>, FramingError>(e),
        },
{
    if (available.len() as u64) < (h.datasize as u64) {
        return Err(FramingError::Truncated);
    }
    let n = h.datasize as usize;
    let mut wire: Vec<u8> = Vec::new();
    let mut i: usize = 0;
    while i < n
        invariant
            n <= available@.len(),
            0 <= i <= n,
            wire@ == available@.subrange(0, i as int),
        decreases n - i,
    {
        wire.push(available[i]);
        proof {
            assert(wire@ =~= available@.subrange(0, i + 1));
        }
        i = i + 1;
    }
    match h.codec {
        Codec::Raw => {
            if wire.len() == h.raw_size as usize {
                Ok(wire)
            } else {
                Err(FramingError::SizeMismatch)
            }
        },
        Codec::Zlib => match inflate(wire.as_slice()) {
            Some(out) => {
                if out.len() == h.raw_size as usize {
                    Ok(out)
                } else {
                    Err(FramingError::SizeMismatch)
                }
            },
            None => Err(FramingError::BadCompression),
        },
        Codec::Unsupported(_) => Err(FramingError::UnsupportedCodec),
    }
}

/// Prepares a body for the stream, compressed or not; both sizes in the
/// header are taken from the bytes once they are known.
pub fn write_body(blob_type: BlobType, raw: &Vec<u8>, compress: bool) -> (r: Option<
    (FrameHeader, Vec<u8>),
>)
    ensures
        match r {
            Some(p) => {
                &&& p.0.blob_type == blob_type
                &&& p.0.raw_size as int == raw@.len()
                &&& p.0.datasize as int == p.1@.len()
                &&& if compress {
                    p.0.codec == Codec::Zlib && p.1@ == zlib_deflate(raw@)
                } else {
                    p.0.codec == Codec::Raw && p.1@ == raw@
                }
            },
            None => raw@.len() > u32::MAX || (compress && zlib_deflate(raw@).len() > u32::MAX),
        },
{
    if raw.len() > u32::MAX as usize {
        return None;
    }
    if compress {
        let out = deflate(raw.as_slice())?;
        if out.len() > u32::MAX as usize {
            return None;
        }
        let h = FrameHeader {
            blob_type,
            raw_size: raw.len() as u32,
            datasize: out.len() as u32,
            codec: Codec::Zlib,
        };
        Some((h, out))
    } else {
        let mut out: Vec<u8> = Vec::new();
        let mut i: usize = 0;
        while i < raw.len()
            invariant
                0 <= i <= raw@.len(),
                out@ == raw@.subrange(0, i as int),
            decreases raw@.len() - i,
        {
            out.push(raw[i]);
            proof {
                assert(out@ =~= raw@.subrange(0, i + 1));
            }
            i = i + 1;
        }
        assert(out@ =~= raw@);
        let h = FrameHeader {
            blob_type,
            raw_size: raw.len() as u32,
            datasize: out.len() as u32,
            codec: Codec::Raw,
        };
        Some((h, out))
    }
}

} // verus!
