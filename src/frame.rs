//! The frames that streams and flow controllers emit, and the size of their
//! encoding.

use vstd::prelude::*;

verus! {

/// Resets the sending part of a stream.
#[derive(Clone, Copy, Debug, PartialEq, Eq, Structural)]
pub struct ResetStream {
    pub stream_id: u64,
    pub application_error_code: u64,
    pub final_size: u64,
}

/// Carries stream bytes starting at `offset`.
#[derive(Clone, Debug, PartialEq, Eq)]
pub struct StreamFrame {
    pub stream_id: u64,
    pub offset: u64,
    pub data: Vec<u8>,
    pub is_fin: bool,
    /// The last frame of a packet omits its length field.
    pub is_last_frame: bool,
}

/// Raises the connection-wide limit on received bytes.
#[derive(Clone, Copy, Debug, PartialEq, Eq, Structural)]
pub struct MaxData {
    pub maximum_data: u64,
}

/// Raises the limit on the bytes received on one stream.
#[derive(Clone, Copy, Debug, PartialEq, Eq, Structural)]
pub struct MaxStreamData {
    pub stream_id: u64,
    pub maximum_stream_data: u64,
}

#[derive(Clone, Debug, PartialEq, Eq)]
pub enum Frame {
    ResetStream(ResetStream),
    Stream(StreamFrame),
    MaxData(MaxData),
    MaxStreamData(MaxStreamData),
}

/// The number of bytes the variable-length integer encoding of `v` takes.
pub open spec fn varint_size(v: u64) -> nat {
    if v < 0x40 {
        1
    } else if v < 0x4000 {
        2
    } else if v < 0x4000_0000 {
        4
    } else {
        8
    }
}

/// The number of bytes the encoding of `frame` takes: a type byte and its
/// fields; a stream frame that ends its packet carries no length field.
pub open spec fn encoding_size(frame: Frame) -> nat {
    match frame {
        Frame::ResetStream(f) => 1 + varint_size(f.stream_id) + varint_size(
            f.application_error_code,
        ) + varint_size(f.final_size),
        Frame::Stream(f) => 1 + varint_size(f.stream_id) + varint_size(f.offset) + (if f.is_last_frame {
            0
        } else {
            varint_size(f.data@.len() as u64)
        }) + f.data@.len(),
        Frame::MaxData(f) => 1 + varint_size(f.maximum_data),
        Frame::MaxStreamData(f) => 1 + varint_size(f.stream_id) + varint_size(
            f.maximum_stream_data,
        ),
    }
}

pub fn varint_encoding_size(v: u64) -> (r: usize)
    ensures
        r == varint_size(v),
{
    if v < 0x40 {
        1
    } else if v < 0x4000 {
        2
    } else if v < 0x4000_0000 {
        4
    } else {
        8
    }
}

impl Frame {
    /// The size of the encoding, or `None` where it does not fit in `usize`.
    pub fn encoding_size(&self) -> (r: Option<usize>)
        ensures
            encoding_size(*self) <= usize::MAX ==> r == Some(encoding_size(*self) as usize),
            encoding_size(*self) > usize::MAX ==> r.is_none(),
    {
        match self {
            Frame::ResetStream(f) => Some(
                1 + varint_encoding_size(f.stream_id) + varint_encoding_size(
                    f.application_error_code,
                ) + varint_encoding_size(f.final_size),
            ),
            Frame::Stream(f) => {
                let len_size = if f.is_last_frame {
                    0
                } else {
                    varint_encoding_size(f.data.len() as u64)
                };
                let header = 1 + varint_encoding_size(f.stream_id) + varint_encoding_size(f.offset)
                    + len_size;
                if f.data.len() > usize::MAX - header {
                    None
                } else {
                    Some(header + f.data.len())
                }
            },
            Frame::MaxData(f) => Some(1 + varint_encoding_size(f.maximum_data)),
            Frame::MaxStreamData(f) => Some(
                1 + varint_encoding_size(f.stream_id) + varint_encoding_size(
                    f.maximum_stream_data,
                ),
            ),
        }
    }
}

} // verus!
