//! IPC framing: every message is a 4-byte big-endian length followed by
//! that many bytes of JSON.

use vstd::prelude::*;

verus! {

/// Maximum frame size: 16 MiB.
pub const MAX_FRAME_SIZE: usize = 16777216;

/// Commands sent from the GNOME extension to the tiler daemon.
#[derive(Debug, Clone, Copy, PartialEq, Eq, Structural)]
pub enum Command {
    Menu,
    Status,
    Shutdown,
    ApplyLayout { monitor: u32, layout: u8 },
    Windows,
}

/// Responses sent from the tiler daemon back to the extension.
#[derive(Debug, Clone, PartialEq, Eq)]
pub enum Response {
    /// The command succeeded.
    Okay,
    Error(String),
    Windows(String),
}

/// Why a frame could not be built or accepted.
#[derive(Debug, Clone, Copy, PartialEq, Eq, Structural)]
pub enum FrameError {
    /// The payload's length does not fit the 4-byte prefix.
    PayloadTooLarge(usize),
    /// A received header announces more than [`MAX_FRAME_SIZE`] bytes.
    FrameTooLarge(usize),
}

/// The 4-byte big-endian encoding of `n < 2^32`.
pub open spec fn be_bytes(n: int) -> Seq<u8> {
    seq![
        (n / 0x1000000) as u8,
        ((n / 0x10000) % 0x100) as u8,
        ((n / 0x100) % 0x100) as u8,
        (n % 0x100) as u8,
    ]
}

/// The number a 4-byte big-endian header encodes.
pub open spec fn be_value(b: Seq<u8>) -> int {
    b[0] * 0x1000000 + b[1] * 0x10000 + b[2] * 0x100 + b[3]
}

/// Encode a payload with a u32 big-endian length prefix.
pub fn encode_frame(payload: &[u8]) -> (r: Result<Vec<u8>, FrameError>)
    ensures
        match r {
            Ok(frame) => payload@.len() <= u32::MAX && frame@ == be_bytes(payload@.len() as int)
                + payload@,
            Err(e) => payload@.len() > u32::MAX && e == FrameError::PayloadTooLarge(
                payload@.len() as usize,
            ),
        },
{
    let n = payload.len();
    if n > 0xffff_ffffusize {
        return Err(FrameError::PayloadTooLarge(n));
    }
    let len = n as u32;
    let mut frame: Vec<u8> = Vec::new();
    frame.push((len / 0x1000000) as u8);
    frame.push(((len / 0x10000) % 0x100) as u8);
    frame.push(((len / 0x100) % 0x100) as u8);
    frame.push((len % 0x100) as u8);
    assert(frame@ =~= be_bytes(n as int));
    for i in 0..n
        invariant
            n == payload@.len(),
            frame@ == be_bytes(n as int) + payload@.take(i as int),
    {
        frame.push(payload[i]);
        assert(frame@ =~= be_bytes(n as int) + payload@.take(i + 1));
    }
    assert(payload@.take(n as int) =~= payload@);
    Ok(frame)
}

/// The payload length announced by a received header, if it is acceptable.
pub fn frame_length(header: [u8; 4]) -> (r: Result<usize, FrameError>)
    ensures
        match r {
            Ok(len) => len == be_value(header@) && len <= MAX_FRAME_SIZE,
            Err(e) => be_value(header@) > MAX_FRAME_SIZE && e == FrameError::FrameTooLarge(
                be_value(header@) as usize,
            ),
        },
{
    let len: u32 = (header[0] as u32) * 0x1000000 + (header[1] as u32) * 0x10000 + (header[2] as u32)
        * 0x100 + (header[3] as u32);
    let len = len as usize;
    if len > MAX_FRAME_SIZE {
        return Err(FrameError::FrameTooLarge(len));
    }
    Ok(len)
}

/// Decoding a header gives back the length that encoding wrote.
pub proof fn law_frame_header_roundtrip(n: int)
    requires
        0 <= n <= u32::MAX,
    ensures
        be_value(be_bytes(n)) == n,
{
    let b = be_bytes(n);
    assert(b[0] == n / 0x1000000);
    assert(b[1] == (n / 0x10000) % 0x100);
    assert(b[2] == (n / 0x100) % 0x100);
    assert(b[3] == n % 0x100);
    assert(n == (n / 0x1000000) * 0x1000000 + ((n / 0x10000) % 0x100) * 0x10000 + ((n / 0x100)
        % 0x100) * 0x100 + n % 0x100) by (nonlinear_arith)
        requires
            0 <= n <= u32::MAX,
    ;
}

} // verus!
