//! Framing of the control-channel messages exchanged before the multiplexed session:
//! a version byte, a type byte, the payload's length in four bytes (most significant first),
//! then the payload.
use vstd::prelude::*;

verus! {

/// The protocol version written in every frame.
pub const PROTOCOL_VERSION: u8 = 1;

/// Frame type of an authentication request.
pub const MSG_AUTH_REQ: u8 = 1;

/// Frame type of an authentication response.
pub const MSG_AUTH_RES: u8 = 2;

/// Length of a frame header in bytes.
pub const HEADER_LEN: usize = 6;

/// The largest payload a frame may carry (1 MiB).
pub const MAX_PAYLOAD: u32 = 1048576;

/// First byte of a stream that carries a proxied request.
pub const STREAM_TYPE_PROXY: u8 = 1;

/// First byte of a heartbeat stream; the client answers with the same byte.
pub const STREAM_TYPE_HEARTBEAT: u8 = 2;

/// Seconds between keep-alive probes of the control connection.
pub const HEARTBEAT_INTERVAL_SECS: u64 = 30;

/// `n` in four bytes, most significant first.
pub open spec fn be32(n: u32) -> Seq<u8> {
    seq![
        (n / 16777216) as u8,
        ((n / 65536) % 256) as u8,
        ((n / 256) % 256) as u8,
        (n % 256) as u8,
    ]
}

/// The number that four bytes give, most significant first.
pub open spec fn be32_value(b0: u8, b1: u8, b2: u8, b3: u8) -> int {
    b0 * 16777216 + b1 * 65536 + b2 * 256 + b3
}

/// The frame that carries `payload` as a message of type `kind`.
pub open spec fn frame_bytes(kind: u8, payload: Seq<u8>) -> Seq<u8> {
    seq![PROTOCOL_VERSION, kind] + be32(payload.len() as u32) + payload
}

/// Why a frame header was refused.
#[derive(Debug, Clone, Copy, PartialEq, Eq, Structural)]
pub enum FrameError {
    /// The version byte is not [`PROTOCOL_VERSION`].
    BadVersion(u8),
    /// The announced payload is longer than [`MAX_PAYLOAD`].
    TooLarge(u32),
}

impl FrameError {
    /// The error's message.
    pub fn message(&self) -> (r: String)
        ensures
            self matches FrameError::BadVersion(_) ==> r@ == "unsupported protocol version"@,
            self matches FrameError::TooLarge(_) ==> r@ == "frame too large"@,
    {
        match self {
            FrameError::BadVersion(_) => "unsupported protocol version".to_string(),
            FrameError::TooLarge(_) => "frame too large".to_string(),
        }
    }
}

/// The four bytes of `n`, most significant first.
fn encode_be32(n: u32) -> (r: [u8; 4])
    ensures
        r@ == be32(n),
{
    [(n / 16777216) as u8, ((n / 65536) % 256) as u8, ((n / 256) % 256) as u8, (n % 256) as u8]
}

/// Builds the frame of a message of type `kind` with `payload`; `None` when the payload is
/// longer than [`MAX_PAYLOAD`].
pub fn encode_frame(kind: u8, payload: &[u8]) -> (r: Option<Vec<u8>>)
    ensures
        payload@.len() > MAX_PAYLOAD ==> r is None,
        payload@.len() <= MAX_PAYLOAD ==> (r matches Some(f) && f@ == frame_bytes(kind, payload@)),
{
    if payload.len() > 1048576 {
        return None;
    }
    let n = payload.len() as u32;
    let len = encode_be32(n);
    let mut out: Vec<u8> = Vec::new();
    out.push(PROTOCOL_VERSION);
    out.push(kind);
    out.push(len[0]);
    out.push(len[1]);
    out.push(len[2]);
    out.push(len[3]);
    let mut i: usize = 0;
    while i < payload.len()
        invariant
            i <= payload@.len(),
            out@ == seq![PROTOCOL_VERSION, kind] + be32(n) + payload@.subrange(0, i as int),
        decreases payload@.len() - i,
    {
        out.push(payload[i]);
        proof {
            assert(payload@.subrange(0, i + 1) =~= payload@.subrange(0, i as int).push(payload@[i as int]));
        }
        i = i + 1;
    }
    proof {
        assert(payload@.subrange(0, payload@.len() as int) =~= payload@);
    }
    Some(out)
}

/// The frame type and payload length that a header announces, or why it is refused.
pub open spec fn header_of(h: Seq<u8>) -> Result<(u8, u32), FrameError> {
    if h[0] != PROTOCOL_VERSION {
        Err(FrameError::BadVersion(h[0]))
    } else if be32_value(h[2], h[3], h[4], h[5]) > MAX_PAYLOAD {
        Err(FrameError::TooLarge(be32_value(h[2], h[3], h[4], h[5]) as u32))
    } else {
        Ok((h[1], be32_value(h[2], h[3], h[4], h[5]) as u32))
    }
}

/// Reads a frame header: the frame type and the payload length, when the version is ours and
/// the length within [`MAX_PAYLOAD`].
pub fn decode_header(h: &[u8]) -> (r: Result<(u8, u32), FrameError>)
    requires
        h@.len() == HEADER_LEN,
    ensures
        r == header_of(h@),
{
    if h[0] != PROTOCOL_VERSION {
        return Err(FrameError::BadVersion(h[0]));
    }
    let b0 = h[2] as u32;
    let b1 = h[3] as u32;
    let b2 = h[4] as u32;
    let b3 = h[5] as u32;
    assert(b0 * 16777216 + b1 * 65536 + b2 * 256 + b3 <= u32::MAX) by (nonlinear_arith)
        requires
            b0 < 256,
            b1 < 256,
            b2 < 256,
            b3 < 256,
    ;
    let n = b0 * 16777216 + b1 * 65536 + b2 * 256 + b3;
    if n > MAX_PAYLOAD {
        Err(FrameError::TooLarge(n))
    } else {
        Ok((h[1], n))
    }
}

/// The four bytes of a length read back give the length.
pub proof fn lemma_be32_roundtrip(n: u32)
    ensures
        be32_value(be32(n)[0], be32(n)[1], be32(n)[2], be32(n)[3]) == n,
{
    let b = be32(n);
    assert(b[0] == n / 16777216);
    assert(b[1] == (n / 65536) % 256);
    assert(b[2] == (n / 256) % 256);
    assert(b[3] == n % 256);
    assert((n / 16777216) * 16777216 + ((n / 65536) % 256) * 65536 + ((n / 256) % 256) * 256 + n % 256 == n)
        by (nonlinear_arith)
        requires
            0 <= n < 4294967296,
    {
        assert(n == (n / 256) * 256 + n % 256);
        assert(n / 256 == (n / 65536) * 256 + (n / 256) % 256) by {
            assert(n / 65536 == (n / 256) / 256);
        }
        assert(n / 65536 == (n / 16777216) * 256 + (n / 65536) % 256) by {
            assert(n / 16777216 == (n / 65536) / 256);
        }
    }
}

/// A frame read back gives what was written: its header announces the type and the payload's
/// length, and the payload follows the header, for every payload within [`MAX_PAYLOAD`].
pub proof fn law_frame_roundtrip(kind: u8, payload: Seq<u8>)
    requires
        payload.len() <= MAX_PAYLOAD,
    ensures
        header_of(frame_bytes(kind, payload).subrange(0, HEADER_LEN as int)) == Ok::<(u8, u32), FrameError>(
            (kind, payload.len() as u32),
        ),
        frame_bytes(kind, payload).subrange(HEADER_LEN as int, frame_bytes(kind, payload).len() as int) == payload,
{
    let f = frame_bytes(kind, payload);
    let n = payload.len() as u32;
    lemma_be32_roundtrip(n);
    let h = f.subrange(0, 6);
    assert(h[0] == PROTOCOL_VERSION);
    assert(h[1] == kind);
    assert(h[2] == be32(n)[0] && h[3] == be32(n)[1] && h[4] == be32(n)[2] && h[5] == be32(n)[3]);
    assert(f.subrange(6, f.len() as int) =~= payload);
}

} // verus!
