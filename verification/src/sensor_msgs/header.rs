use vstd::prelude::*;

use crate::common::cursor::{
    can_read, can_read_chunk, chunk_at, chunk_end, time_at, u32_at, Cursor, NANOS_PER_SEC,
};
use crate::common::error::AppError;
use crate::common::text::utf8_to_string;
use vstd::bytes::{lemma_auto_spec_u32_to_from_le_bytes, spec_u32_to_le_bytes};
use vstd::utf8::{decode_utf8, encode_utf8, encode_utf8_decode_utf8, encode_utf8_valid_utf8, valid_utf8};

verus! {

/// Standard metadata for timestamped data: a sequence number, an
/// acquisition time, and the coordinate frame the data belongs to.
#[derive(Debug)]
pub struct Header {
    /// Consecutively increasing sequence number.
    pub seq: u32,
    /// Acquisition time in nanoseconds, combined on the wire from a
    /// seconds field and a nanoseconds field.
    pub stamp: u64,
    /// The coordinate frame this data is associated with.
    pub frame_id: String,
}

/// The mathematical value of a [`Header`].
pub struct SpecHeader {
    pub seq: u32,
    pub stamp: int,
    pub frame_id: Seq<char>,
}

impl View for Header {
    type V = SpecHeader;

    open spec fn view(&self) -> SpecHeader {
        SpecHeader { seq: self.seq, stamp: self.stamp as int, frame_id: self.frame_id@ }
    }
}

/// True when `data` holds all the bytes of a header at `pos`: four bytes
/// of sequence number, eight of timestamp, and a length-prefixed frame id.
pub open spec fn header_bytes_ok(data: Seq<u8>, pos: int) -> bool {
    can_read(data, pos, 12) && can_read_chunk(data, pos + 12)
}

/// True when the frame id bytes of the header at `pos` are valid UTF-8.
pub open spec fn header_text_ok(data: Seq<u8>, pos: int) -> bool {
    valid_utf8(chunk_at(data, pos + 12))
}

/// The header value held by `data` at `pos`.
pub open spec fn header_at(data: Seq<u8>, pos: int) -> SpecHeader {
    SpecHeader {
        seq: u32_at(data, pos),
        stamp: time_at(data, pos + 4),
        frame_id: decode_utf8(chunk_at(data, pos + 12)),
    }
}

/// The position just past the header at `pos`.
pub open spec fn header_end(data: Seq<u8>, pos: int) -> int {
    chunk_end(data, pos + 12)
}

/// The wire form of a header: sequence number, seconds, nanoseconds, and
/// the length-prefixed UTF-8 bytes of the frame id.
pub open spec fn wire_header(seq: u32, sec: u32, nsec: u32, frame_id: Seq<char>) -> Seq<u8> {
    spec_u32_to_le_bytes(seq) + spec_u32_to_le_bytes(sec) + spec_u32_to_le_bytes(nsec)
        + spec_u32_to_le_bytes(encode_utf8(frame_id).len() as u32) + encode_utf8(frame_id)
}

/// Decoding is lossless: a header laid out on the wire from any field
/// values decodes back to exactly those fields, with the timestamp
/// combined as `seconds * 1_000_000_000 + nanoseconds`.
pub proof fn lemma_header_round_trip(
    seq: u32,
    sec: u32,
    nsec: u32,
    frame_id: Seq<char>,
    data: Seq<u8>,
    pos: int,
)
    requires
        encode_utf8(frame_id).len() <= u32::MAX,
        0 <= pos,
        pos + wire_header(seq, sec, nsec, frame_id).len() <= data.len(),
        data.subrange(pos, pos + wire_header(seq, sec, nsec, frame_id).len() as int)
            == wire_header(seq, sec, nsec, frame_id),
    ensures
        header_bytes_ok(data, pos),
        header_text_ok(data, pos),
        header_at(data, pos).seq == seq,
        header_at(data, pos).stamp == NANOS_PER_SEC * sec + nsec,
        header_at(data, pos).frame_id == frame_id,
        header_end(data, pos) == pos + wire_header(seq, sec, nsec, frame_id).len(),
{
    lemma_auto_spec_u32_to_from_le_bytes();
    let fb = encode_utf8(frame_id);
    let w = wire_header(seq, sec, nsec, frame_id);
    assert(w.len() == 16 + fb.len());
    assert forall|i: int| 0 <= i < w.len() implies data[pos + i] == w[i] by {
        assert(data.subrange(pos, pos + wire_header(seq, sec, nsec, frame_id).len() as int)[i]
            == w[i]);
    }
    let w1 = spec_u32_to_le_bytes(seq);
    let w2 = spec_u32_to_le_bytes(sec);
    let w3 = spec_u32_to_le_bytes(nsec);
    let w4 = spec_u32_to_le_bytes(fb.len() as u32);
    assert(w == w1 + w2 + w3 + w4 + fb);
    assert forall|i: int| 0 <= i < w.len() implies w[i] == (w1 + w2 + w3 + w4 + fb)[i] by {}
    assert(data.subrange(pos, pos + 4) =~= w1) by {
        assert forall|i: int| 0 <= i < 4 implies data.subrange(pos, pos + 4)[i] == w1[i] by {
            assert(data[pos + i] == w[i]);
            assert(w[i] == w1[i]);
        }
    }
    assert(data.subrange(pos + 4, pos + 8) =~= w2) by {
        assert forall|i: int| 0 <= i < 4 implies data.subrange(pos + 4, pos + 8)[i] == w2[i] by {
            assert(data[pos + 4 + i] == w[4 + i]);
            assert(w[4 + i] == w2[i]);
        }
    }
    assert(data.subrange(pos + 8, pos + 12) =~= w3) by {
        assert forall|i: int| 0 <= i < 4 implies data.subrange(pos + 8, pos + 12)[i] == w3[i] by {
            assert(data[pos + 8 + i] == w[8 + i]);
            assert(w[8 + i] == w3[i]);
        }
    }
    assert(data.subrange(pos + 12, pos + 16) =~= w4) by {
        assert forall|i: int| 0 <= i < 4 implies data.subrange(pos + 12, pos + 16)[i] == w4[i] by {
            assert(data[pos + 12 + i] == w[12 + i]);
            assert(w[12 + i] == w4[i]);
        }
    }
    assert(u32_at(data, pos + 12) == fb.len());
    assert(data.subrange(pos + 16, pos + 16 + fb.len() as int) =~= fb) by {
        assert forall|i: int| 0 <= i < fb.len() implies data.subrange(
            pos + 16,
            pos + 16 + fb.len() as int,
        )[i] == fb[i] by {
            assert(data[pos + 16 + i] == w[16 + i]);
            assert(w[16 + i] == fb[i]);
        }
    }
    assert(chunk_at(data, pos + 12) == fb);
    encode_utf8_valid_utf8(frame_id);
    encode_utf8_decode_utf8(frame_id);
}

impl Header {
    /// Decodes a header from the cursor: sequence number, timestamp, and
    /// a length-prefixed UTF-8 frame id, in that order.  Fails with
    /// [`AppError::OutOfBounds`] when the buffer is too short and with
    /// [`AppError::InvalidUtf8String`] when the frame id bytes are not
    /// UTF-8.
    pub fn from_reader<'a>(c: &mut Cursor<'a>) -> (r: Result<Header, AppError>)
        ensures
            final(c).bytes() == old(c).bytes(),
            old(c).pos() <= final(c).pos(),
            header_bytes_ok(old(c).bytes(), old(c).pos())
                && header_text_ok(old(c).bytes(), old(c).pos())
                ==> (r matches Ok(h)
                    && h@ == header_at(old(c).bytes(), old(c).pos())
                    && final(c).pos() == header_end(old(c).bytes(), old(c).pos())),
            header_bytes_ok(old(c).bytes(), old(c).pos())
                && !header_text_ok(old(c).bytes(), old(c).pos())
                ==> (r matches Err(e)
                    && e matches AppError::InvalidUtf8String
                    && final(c).pos() == header_end(old(c).bytes(), old(c).pos())),
            !header_bytes_ok(old(c).bytes(), old(c).pos())
                ==> (r matches Err(e) && e matches AppError::OutOfBounds),
    {
        let seq = match c.next_u32() {
            Ok(v) => v,
            Err(e) => {
                return Err(e);
            },
        };
        let stamp = match c.next_time() {
            Ok(v) => v,
            Err(e) => {
                return Err(e);
            },
        };
        let chunk = match c.next_chunk() {
            Ok(b) => b,
            Err(e) => {
                return Err(e);
            },
        };
        match utf8_to_string(chunk) {
            Some(frame_id) => Ok(Header { seq, stamp, frame_id }),
            None => Err(AppError::InvalidUtf8String),
        }
    }
}

} // verus!
