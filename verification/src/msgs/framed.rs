//! Reading frames off a byte stream and staging frames for writing.
//!
//! The stream itself is read and written by the caller, which appends what
//! it reads with `append_read` and takes whole frames off with `take_frame`.

use crate::bytes_io::{
    bytes_copy_from_slice, bytes_mut_as_slice, bytes_mut_clear, bytes_mut_len, bytes_mut_split_to,
    bytes_mut_view, bytes_mut_with_capacity, extend_from_slice, freeze, max_buf_len,
};
use crate::msgs::frame::{
    decode_frame, decode_frame_header, encode_frame, frame_header_encoding, frame_header_parse, frame_parse,
    len_as_usize, Frame,
};
use crate::msgs::{Decoded, Parsed, SEncodeSync, WireModel};
use bytes::BytesMut;
use vstd::prelude::*;

verus! {

/// The result of looking for a whole frame at the front of the read buffer.
pub enum FrameRead {
    /// No whole frame yet: more bytes must be read.
    NeedMore,
    /// A frame, taken off the buffer.
    Frame(Frame),
    /// The bytes of a whole frame that do not decode: a protocol violation.
    Invalid,
    /// The bytes of a whole frame whose payload ends inside a fixed-width field.
    Truncated,
}

/// The number of bytes of the frame at the front of `s`, when its header
/// decodes and the count fits in a `usize`.
pub open spec fn whole_frame_len(s: Seq<u8>) -> Option<int> {
    match frame_header_parse(s) {
        Parsed::Done(h, _) => {
            let total = frame_header_encoding(h).len() + len_as_usize(h.length);
            if total <= usize::MAX {
                Some(total as int)
            } else {
                None
            }
        },
        _ => None,
    }
}

/// A stream with the buffers frames are read into and written from.
pub struct Framed<T> {
    io: T,
    read_buf: BytesMut,
    write_buf: BytesMut,
}

impl<T> Framed<T> {
    /// The bytes read and not yet taken as frames.
    pub closed spec fn pending(self) -> Seq<u8> {
        bytes_mut_view(self.read_buf)
    }

    /// The bytes of the frame staged for writing.
    pub closed spec fn staged_bytes(self) -> Seq<u8> {
        bytes_mut_view(self.write_buf)
    }

    pub closed spec fn stream(self) -> T {
        self.io
    }

    pub fn new(io: T) -> (f: Self)
        ensures
            f.pending() == Seq::<u8>::empty(),
            f.staged_bytes() == Seq::<u8>::empty(),
            f.stream() == io,
    {
        Framed { io, read_buf: bytes_mut_with_capacity(8192), write_buf: bytes_mut_with_capacity(8192) }
    }

    /// Appends bytes read from the stream.
    pub fn append_read(&mut self, data: &[u8])
        requires
            old(self).pending().len() + data@.len() <= max_buf_len(),
        ensures
            final(self).pending() == old(self).pending() + data@,
            final(self).staged_bytes() == old(self).staged_bytes(),
            final(self).stream() == old(self).stream(),
    {
        extend_from_slice(&mut self.read_buf, data);
    }

    /// Takes the frame at the front of the read bytes when it is whole.
    pub fn take_frame(&mut self) -> (r: FrameRead)
        ensures
            final(self).staged_bytes() == old(self).staged_bytes(),
            final(self).stream() == old(self).stream(),
            ({
                let s = old(self).pending();
                match whole_frame_len(s) {
                    Some(n) => if n <= s.len() {
                        &&& final(self).pending() == s.skip(n)
                        &&& match frame_parse(s.take(n)) {
                            Parsed::Done(m, _) => r matches FrameRead::Frame(f) && f.model() == m,
                            Parsed::Reject(_) => r is Invalid,
                            Parsed::Short => r is Truncated,
                        }
                    } else {
                        r is NeedMore && final(self).pending() == s
                    },
                    None => r is NeedMore && final(self).pending() == s,
                }
            }),
    {
        let ghost s = bytes_mut_view(self.read_buf);
        let mut header_buf = bytes_copy_from_slice(bytes_mut_as_slice(&self.read_buf));
        let header = match decode_frame_header(&mut header_buf) {
            Decoded::Value(h) => h,
            _ => {
                return FrameRead::NeedMore;
            },
        };
        let head_len = header.encoded_len();
        let body_len = header.length.inner() as usize;
        if body_len > usize::MAX - head_len {
            return FrameRead::NeedMore;
        }
        let total_len = head_len + body_len;
        if bytes_mut_len(&self.read_buf) < total_len {
            return FrameRead::NeedMore;
        }
        let frame_bytes = bytes_mut_split_to(&mut self.read_buf, total_len);
        let mut frame_data = freeze(frame_bytes);
        match decode_frame(&mut frame_data) {
            Decoded::Value(f) => FrameRead::Frame(f),
            Decoded::Invalid => FrameRead::Invalid,
            Decoded::Short => FrameRead::Truncated,
        }
    }

    /// Stages `frame` for writing, in place of what was staged.
    pub fn stage_frame(&mut self, frame: &Frame)
        requires
            <Frame as SEncodeSync>::spec_encodable(frame.model()),
            <Frame as SEncodeSync>::spec_encoding(frame.model()).len() <= max_buf_len(),
        ensures
            final(self).staged_bytes() == <Frame as SEncodeSync>::spec_encoding(frame.model()),
            final(self).pending() == old(self).pending(),
            final(self).stream() == old(self).stream(),
    {
        bytes_mut_clear(&mut self.write_buf);
        encode_frame(frame, &mut self.write_buf);
    }

    /// The bytes staged for writing.
    pub fn staged(&self) -> (s: &[u8])
        ensures
            s@ == self.staged_bytes(),
    {
        bytes_mut_as_slice(&self.write_buf)
    }

    pub fn into_inner(self) -> (io: T)
        ensures
            io == self.stream(),
    {
        self.io
    }

    pub fn get_mut(&mut self) -> (io: &mut T)
        ensures
            *io == old(self).stream(),
            final(self).stream() == *final(io),
            final(self).pending() == old(self).pending(),
            final(self).staged_bytes() == old(self).staged_bytes(),
    {
        &mut self.io
    }

    pub fn get_ref(&self) -> (io: &T)
        ensures
            *io == self.stream(),
    {
        &self.io
    }
}

} // verus!
