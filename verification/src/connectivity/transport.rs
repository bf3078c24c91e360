//! Frames: a payload behind its length.
//!
//! A frame is the payload's length in four bytes, most significant first, and
//! then the payload.

use crate::connectivity::mac::{be_bytes, lemma_be_bytes_len, to_be};
use crate::text::{decimal, u64_text};
use vstd::prelude::*;

verus! {

/// The longest payload that a frame may have.
pub const MAX_FRAME_LEN: usize = 16_777_216;

/// Why a frame cannot be written or read.
#[derive(Debug)]
pub enum FrameError {
    /// The payload to be written is too long.
    Oversized(usize),
    /// The length that was read is too great.
    IncomingOversized(usize),
    /// The bytes ended within a frame.
    UnexpectedEof,
}

impl FrameError {
    /// The message of the error.
    pub open spec fn message(self) -> Seq<char> {
        match self {
            FrameError::Oversized(n) => "frame of "@ + decimal(n as nat)
                + " bytes exceeds MAX_FRAME_LEN"@,
            FrameError::IncomingOversized(n) => "incoming frame of "@ + decimal(n as nat)
                + " bytes exceeds MAX_FRAME_LEN"@,
            FrameError::UnexpectedEof => "early eof"@,
        }
    }

    /// The message of the error.
    pub fn to_text(&self) -> (r: String)
        ensures
            r@ == self.message(),
    {
        match self {
            FrameError::Oversized(n) => {
                let mut out = "frame of ".to_owned();
                out.append(u64_text(*n as u64).as_str());
                out.append(" bytes exceeds MAX_FRAME_LEN");
                out
            },
            FrameError::IncomingOversized(n) => {
                let mut out = "incoming frame of ".to_owned();
                out.append(u64_text(*n as u64).as_str());
                out.append(" bytes exceeds MAX_FRAME_LEN");
                out
            },
            FrameError::UnexpectedEof => "early eof".to_owned(),
        }
    }
}

/// The frame of a payload.
pub open spec fn frame(payload: Seq<u8>) -> Seq<u8> {
    be_bytes(payload.len(), 4) + payload
}

/// The length that four bytes spell, most significant first.
pub open spec fn header_len(header: Seq<u8>) -> int {
    header[0] * 0x100_0000 + header[1] * 0x1_0000 + header[2] * 0x100 + header[3]
}

/// What stands at the beginning of a run of bytes that ends where the peer hung up.
pub enum FrameRead {
    /// The peer hung up between frames.
    End,
    /// A payload, and the number of bytes its frame has.
    Payload { payload: Vec<u8>, used: usize },
}

/// What reading a frame comes to: the end, a payload, or an error.
pub open spec fn frame_read(bytes: Seq<u8>) -> Result<Option<Seq<u8>>, FrameError> {
    if bytes.len() == 0 {
        Ok(None)
    } else if bytes.len() < 4 {
        Err(FrameError::UnexpectedEof)
    } else {
        let n = header_len(bytes);
        if n > MAX_FRAME_LEN {
            Err(FrameError::IncomingOversized(n as usize))
        } else if bytes.len() < 4 + n {
            Err(FrameError::UnexpectedEof)
        } else {
            Ok(Some(bytes.subrange(4, 4 + n)))
        }
    }
}

/// The frame of a payload, unless that is too long.
pub fn write_frame(payload: &[u8]) -> (r: Result<Vec<u8>, FrameError>)
    ensures
        match r {
            Ok(bytes) => payload@.len() <= MAX_FRAME_LEN && bytes@ == frame(payload@),
            Err(e) => payload@.len() > MAX_FRAME_LEN && e == FrameError::Oversized(
                payload@.len() as usize,
            ),
        },
{
    if payload.len() > MAX_FRAME_LEN {
        return Err(FrameError::Oversized(payload.len()));
    }
    let mut bytes = to_be(payload.len() as u128, 4);
    bytes.extend_from_slice(payload);
    assert(bytes@ =~= frame(payload@));
    Ok(bytes)
}

/// The length of the payload behind a header, unless it is too great.
pub fn payload_len(header: &[u8; 4]) -> (r: Result<usize, FrameError>)
    ensures
        match r {
            Ok(n) => n == header_len(header@) && n <= MAX_FRAME_LEN,
            Err(e) => header_len(header@) > MAX_FRAME_LEN && e == FrameError::IncomingOversized(
                header_len(header@) as usize,
            ),
        },
{
    let n: u32 = header[0] as u32 * 0x100_0000 + header[1] as u32 * 0x1_0000 + header[2] as u32
        * 0x100 + header[3] as u32;
    if n as usize > MAX_FRAME_LEN {
        Err(FrameError::IncomingOversized(n as usize))
    } else {
        Ok(n as usize)
    }
}

/// Reads the frame at the beginning of all that a peer sent.
pub fn read_frame(bytes: &[u8]) -> (r: Result<FrameRead, FrameError>)
    ensures
        match r {
            Ok(FrameRead::End) => frame_read(bytes@) == Ok::<Option<Seq<u8>>, FrameError>(None),
            Ok(FrameRead::Payload { payload, used }) => frame_read(bytes@) == Ok::<
                Option<Seq<u8>>,
                FrameError,
            >(Some(payload@)) && used == 4 + payload@.len(),
            Err(e) => frame_read(bytes@) == Err::<Option<Seq<u8>>, FrameError>(e),
        },
{
    if bytes.len() == 0 {
        return Ok(FrameRead::End);
    }
    if bytes.len() < 4 {
        return Err(FrameError::UnexpectedEof);
    }
    let header: [u8; 4] = [bytes[0], bytes[1], bytes[2], bytes[3]];
    let n = match payload_len(&header) {
        Ok(n) => n,
        Err(e) => {
            return Err(e);
        },
    };
    if bytes.len() - 4 < n {
        return Err(FrameError::UnexpectedEof);
    }
    let payload = vstd::slice::slice_to_vec(vstd::slice::slice_subrange(bytes, 4, 4 + n));
    assert(payload@ =~= bytes@.subrange(4, 4 + n));
    Ok(FrameRead::Payload { payload, used: 4 + n })
}

/// Four bytes spell the number they were made of.
proof fn lemma_header(n: nat)
    requires
        n < 0x1_0000_0000,
    ensures
        be_bytes(n, 4).len() == 4,
        header_len(be_bytes(n, 4)) == n,
{
    reveal_with_fuel(be_bytes, 5);
    let b = be_bytes(n, 4);
    lemma_be_bytes_len(n, 4);
    let (n1, n2, n3) = (n / 256, n / 256 / 256, n / 256 / 256 / 256);
    assert(b[3] == (n % 256) as u8);
    assert(b[2] == (n1 % 256) as u8);
    assert(b[1] == (n2 % 256) as u8);
    assert(b[0] == (n3 % 256) as u8);
    assert(n3 < 256);
}

/// A frame that was written is read back, whatever follows it on the wire.
pub proof fn law_frame_is_read_back(payload: Seq<u8>, rest: Seq<u8>)
    requires
        payload.len() <= MAX_FRAME_LEN,
    ensures
        frame_read(frame(payload) + rest) == Ok::<Option<Seq<u8>>, FrameError>(Some(payload)),
{
    lemma_header(payload.len());
    let all = frame(payload) + rest;
    let h = be_bytes(payload.len(), 4);
    assert(all[0] == h[0] && all[1] == h[1] && all[2] == h[2] && all[3] == h[3]);
    assert(header_len(all) == payload.len());
    assert(all.subrange(4, 4 + payload.len() as int) =~= payload);
}

/// A frame cut short anywhere but before its first byte is an error, and not the end.
pub proof fn law_cut_frame_is_no_end(payload: Seq<u8>, n: int)
    requires
        payload.len() <= MAX_FRAME_LEN,
        0 <= n < frame(payload).len(),
    ensures
        frame_read(frame(payload).take(n)) == (if n == 0 {
            Ok::<Option<Seq<u8>>, FrameError>(None)
        } else {
            Err(FrameError::UnexpectedEof)
        }),
{
    lemma_header(payload.len());
    let cut = frame(payload).take(n);
    let h = be_bytes(payload.len(), 4);
    if n >= 4 {
        assert(cut[0] == h[0] && cut[1] == h[1] && cut[2] == h[2] && cut[3] == h[3]);
        assert(header_len(cut) == payload.len());
    }
}

/// Frames written one after the other come apart again at the same places.
pub proof fn law_frames_come_apart(a: Seq<u8>, b: Seq<u8>)
    requires
        a.len() <= MAX_FRAME_LEN,
        b.len() <= MAX_FRAME_LEN,
    ensures
        frame_read(frame(a) + frame(b)) == Ok::<Option<Seq<u8>>, FrameError>(Some(a)),
        frame_read((frame(a) + frame(b)).skip(4 + a.len() as int)) == Ok::<
            Option<Seq<u8>>,
            FrameError,
        >(Some(b)),
{
    law_frame_is_read_back(a, frame(b));
    lemma_be_bytes_len(a.len(), 4);
    assert((frame(a) + frame(b)).skip(4 + a.len() as int) =~= frame(b) + Seq::<u8>::empty());
    law_frame_is_read_back(b, Seq::empty());
}

} // verus!
