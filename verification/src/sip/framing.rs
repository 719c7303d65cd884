//! Framing of messages on a stream transport: where a message ends in the
//! bytes received so far.
//!
//! On a stream, the header section ends with the first empty line, and the
//! body is as long as `Content-Length` announces; without the header there
//! is no body.

use vstd::prelude::*;
use vstd::utf8::{decode_utf8, valid_utf8};
use crate::sip::header::HeaderView;
use crate::sip::parser::{
    content_length, declared_length, head_of, read_head, utf8_text, ParseError,
};
use crate::text::chars_of;

verus! {

/// What the bytes received so far hold.
#[derive(Debug, Clone, Copy, PartialEq, Eq, Structural)]
pub enum Frame {
    /// No whole message yet: more bytes are needed.
    Incomplete,
    /// A whole message, of this many bytes.
    Complete(usize),
    /// A header section that cannot be read: the stream is to be closed.
    Invalid(ParseError),
}

/// Whether a header section ends at `h`: behind a line feed that follows
/// the end of a line.
pub open spec fn is_head_end(b: Seq<u8>, h: int) -> bool {
    &&& 2 <= h <= b.len()
    &&& b[h - 1] == 10
    &&& b[h - 2] == 10 || (3 <= h && b[h - 2] == 13 && b[h - 3] == 10)
}

/// The first index at or after `h` at which a header section ends; an
/// index beyond the bytes where there is none.
pub open spec fn head_end_from(b: Seq<u8>, h: int) -> int
    decreases b.len() - h + 1,
{
    if h > b.len() || h < 0 {
        b.len() as int + 1
    } else if is_head_end(b, h) {
        h
    } else {
        head_end_from(b, h + 1)
    }
}

/// The body length that headers announce on a stream.
pub open spec fn stream_body_length(headers: Seq<HeaderView>) -> nat {
    match declared_length(headers) {
        Some(n) => n,
        None => 0,
    }
}

/// What the bytes `b` hold.
pub open spec fn frame_of(b: Seq<u8>) -> Frame {
    let h = head_end_from(b, 0);
    if h > b.len() {
        Frame::Incomplete
    } else if !valid_utf8(b.take(h)) {
        Frame::Invalid(ParseError::InvalidEncoding)
    } else {
        match head_of(decode_utf8(b.take(h))) {
            Err(e) => Frame::Invalid(e),
            Ok((line, headers, at)) => if h + stream_body_length(headers) <= b.len() {
                Frame::Complete((h + stream_body_length(headers)) as usize)
            } else {
                Frame::Incomplete
            },
        }
    }
}

proof fn lemma_head_end_is(b: Seq<u8>, from: int, h: int)
    requires
        0 <= from <= h,
        forall|j: int| from <= j < h ==> !is_head_end(b, j),
        h > b.len() || is_head_end(b, h),
    ensures
        head_end_from(b, from) == (if h > b.len() {
            b.len() as int + 1
        } else {
            h
        }),
    decreases h - from,
{
    if from < h && from <= b.len() {
        lemma_head_end_is(b, from + 1, h);
    }
}

fn find_head_end(buffer: &[u8]) -> (r: Option<usize>)
    ensures
        match r {
            Some(h) => head_end_from(buffer@, 0) == h && h <= buffer@.len(),
            None => head_end_from(buffer@, 0) > buffer@.len(),
        },
{
    let n = buffer.len();
    let mut h: usize = 2;
    assert(!is_head_end(buffer@, 0) && !is_head_end(buffer@, 1));
    while h <= n
        invariant
            2 <= h,
            n == buffer@.len(),
            forall|j: int| 0 <= j < h ==> !is_head_end(buffer@, j),
        decreases n + 1 - h,
    {
        if buffer[h - 1] == 10 && (buffer[h - 2] == 10 || (h >= 3 && buffer[h - 2] == 13
            && buffer[h - 3] == 10)) {
            proof {
                lemma_head_end_is(buffer@, 0, h as int);
            }
            return Some(h);
        }
        if h == n {
            proof {
                lemma_head_end_is(buffer@, 0, h + 1);
            }
            return None;
        }
        h += 1;
    }
    proof {
        lemma_head_end_is(buffer@, 0, h as int);
    }
    None
}

/// Tells where the first message ends in the bytes received so far.
pub fn frame(buffer: &[u8]) -> (r: Frame)
    ensures
        r == frame_of(buffer@),
{
    let h = match find_head_end(buffer) {
        Some(h) => h,
        None => {
            return Frame::Incomplete;
        },
    };
    let head = vstd::slice::slice_subrange(buffer, 0, h);
    assert(head@ =~= buffer@.take(h as int));
    let text = match utf8_text(head) {
        Some(t) => t,
        None => {
            return Frame::Invalid(ParseError::InvalidEncoding);
        },
    };
    proof {
        vstd::utf8::encode_utf8_decode_utf8(text@);
    }
    let v = chars_of(text);
    match read_head(&v) {
        Err(e) => Frame::Invalid(e),
        Ok((line, headers, at)) => {
            let n: usize = match content_length(&headers) {
                Some(n) => n as usize,
                None => 0,
            };
            if n <= buffer.len() - h {
                Frame::Complete(h + n)
            } else {
                Frame::Incomplete
            }
        },
    }
}

} // verus!
