use vstd::prelude::*;

use crate::common::cursor::{
    can_read, can_read_chunk, chunk_at, chunk_end, u32_at, Cursor, NANOS_PER_SEC,
};
use crate::common::error::AppError;
use crate::common::text::utf8_to_string;
use crate::sensor_msgs::header::{
    header_at, header_bytes_ok, header_end, header_text_ok, lemma_header_round_trip, wire_header,
    Header, SpecHeader,
};
use vstd::bytes::{lemma_auto_spec_u32_to_from_le_bytes, spec_u32_to_le_bytes};
use vstd::utf8::{encode_utf8, encode_utf8_decode_utf8, encode_utf8_valid_utf8, valid_utf8};

verus! {

/// An uncompressed image: a timestamped header, its dimensions, the pixel
/// encoding label, and the raw pixel matrix of `step` bytes per row.
#[derive(Debug)]
pub struct Image {
    /// Timestamp and frame of the acquisition.
    pub header: Header,
    /// Number of pixel rows.
    pub height: u32,
    /// Number of pixel columns.
    pub width: u32,
    /// Label of the pixel layout (channel meaning, ordering, size).
    pub encoding: String,
    /// Whether multi-byte pixel data is big-endian.
    pub is_bigendian: bool,
    /// Full row length in bytes.
    pub step: u32,
    /// The pixel matrix, of `height * step` bytes.
    pub data: Vec<u8>,
}

/// The mathematical value of an [`Image`].
pub struct SpecImage {
    pub header: SpecHeader,
    pub height: u32,
    pub width: u32,
    pub encoding: Seq<char>,
    pub is_bigendian: bool,
    pub step: u32,
    pub data: Seq<u8>,
}

impl View for Image {
    type V = SpecImage;

    open spec fn view(&self) -> SpecImage {
        SpecImage {
            header: self.header@,
            height: self.height,
            width: self.width,
            encoding: self.encoding@,
            is_bigendian: self.is_bigendian,
            step: self.step,
            data: self.data@,
        }
    }
}

/// The declared height of the image at `pos`.
pub open spec fn image_height(data: Seq<u8>, pos: int) -> u32 {
    u32_at(data, header_end(data, pos))
}

/// The declared width of the image at `pos`.
pub open spec fn image_width(data: Seq<u8>, pos: int) -> u32 {
    u32_at(data, header_end(data, pos) + 4)
}

/// The bytes of the encoding label of the image at `pos`.
pub open spec fn image_enc_chunk(data: Seq<u8>, pos: int) -> Seq<u8> {
    chunk_at(data, header_end(data, pos) + 8)
}

/// The position just past the encoding label of the image at `pos`.
pub open spec fn image_meta_end(data: Seq<u8>, pos: int) -> int {
    chunk_end(data, header_end(data, pos) + 8)
}

/// The declared row length of the image at `pos`.
pub open spec fn image_step(data: Seq<u8>, pos: int) -> u32 {
    u32_at(data, image_meta_end(data, pos) + 1)
}

/// The pixel matrix length declared by the image at `pos`.
pub open spec fn image_data_len(data: Seq<u8>, pos: int) -> int {
    image_height(data, pos) * image_step(data, pos)
}

/// True when `data` holds the header and the fixed fields of an image at
/// `pos`, up to and including the encoding label.
pub open spec fn image_dims_ok(data: Seq<u8>, pos: int) -> bool {
    &&& header_bytes_ok(data, pos)
    &&& can_read(data, header_end(data, pos), 8)
    &&& can_read_chunk(data, header_end(data, pos) + 8)
}

/// True when `data` also holds the endian flag, the row length, the
/// redundant length field, and the whole pixel matrix of the image at
/// `pos`.
pub open spec fn image_tail_ok(data: Seq<u8>, pos: int) -> bool {
    &&& can_read(data, image_meta_end(data, pos), 9)
    &&& can_read(data, image_meta_end(data, pos) + 9, image_data_len(data, pos))
}

/// True when `data` holds all the bytes of an image at `pos`.
pub open spec fn image_bytes_ok(data: Seq<u8>, pos: int) -> bool {
    image_dims_ok(data, pos) && image_tail_ok(data, pos)
}

/// True when the frame id and the encoding label of the image at `pos`
/// are valid UTF-8.
pub open spec fn image_text_ok(data: Seq<u8>, pos: int) -> bool {
    header_text_ok(data, pos) && valid_utf8(image_enc_chunk(data, pos))
}

/// The image value held by `data` at `pos`.
pub open spec fn image_at(data: Seq<u8>, pos: int) -> SpecImage {
    SpecImage {
        header: header_at(data, pos),
        height: image_height(data, pos),
        width: image_width(data, pos),
        encoding: vstd::utf8::decode_utf8(image_enc_chunk(data, pos)),
        is_bigendian: data[image_meta_end(data, pos)] != 0,
        step: image_step(data, pos),
        data: data.subrange(
            image_meta_end(data, pos) + 9,
            image_meta_end(data, pos) + 9 + image_data_len(data, pos),
        ),
    }
}

/// The position just past the image at `pos`.
pub open spec fn image_end(data: Seq<u8>, pos: int) -> int {
    image_meta_end(data, pos) + 9 + image_data_len(data, pos)
}

/// The wire form of an image: the header, then height, width, the
/// length-prefixed UTF-8 encoding label, the endian byte, the row length,
/// the redundant length field, and the raw pixel matrix.
pub open spec fn wire_image(
    seq: u32,
    sec: u32,
    nsec: u32,
    frame_id: Seq<char>,
    height: u32,
    width: u32,
    encoding: Seq<char>,
    endian: u8,
    step: u32,
    redundant: u32,
    pixels: Seq<u8>,
) -> Seq<u8> {
    wire_header(seq, sec, nsec, frame_id) + spec_u32_to_le_bytes(height) + spec_u32_to_le_bytes(
        width,
    ) + spec_u32_to_le_bytes(encode_utf8(encoding).len() as u32) + encode_utf8(encoding) + seq![
        endian,
    ] + spec_u32_to_le_bytes(step) + spec_u32_to_le_bytes(redundant) + pixels
}

/// Decoding is lossless: an image laid out on the wire from any field
/// values decodes back to exactly those fields.  The pixel matrix must
/// have `height * step` bytes; the value of the redundant length field is
/// arbitrary and does not reach the decoded image.
pub proof fn lemma_image_round_trip(
    seq: u32,
    sec: u32,
    nsec: u32,
    frame_id: Seq<char>,
    height: u32,
    width: u32,
    encoding: Seq<char>,
    endian: u8,
    step: u32,
    redundant: u32,
    pixels: Seq<u8>,
)
    requires
        encode_utf8(frame_id).len() <= u32::MAX,
        encode_utf8(encoding).len() <= u32::MAX,
        pixels.len() == height * step,
    ensures
        ({
            let data = wire_image(
                seq,
                sec,
                nsec,
                frame_id,
                height,
                width,
                encoding,
                endian,
                step,
                redundant,
                pixels,
            );
            &&& image_bytes_ok(data, 0)
            &&& image_text_ok(data, 0)
            &&& image_at(data, 0).header.seq == seq
            &&& image_at(data, 0).header.stamp == NANOS_PER_SEC * sec + nsec
            &&& image_at(data, 0).header.frame_id == frame_id
            &&& image_at(data, 0).height == height
            &&& image_at(data, 0).width == width
            &&& image_at(data, 0).encoding == encoding
            &&& image_at(data, 0).is_bigendian == (endian != 0)
            &&& image_at(data, 0).step == step
            &&& image_at(data, 0).data == pixels
            &&& image_at(data, 0).data.len() == height * step
            &&& image_end(data, 0) == data.len()
        }),
{
    lemma_auto_spec_u32_to_from_le_bytes();
    let wh = wire_header(seq, sec, nsec, frame_id);
    let hl = wh.len() as int;
    let eb = encode_utf8(encoding);
    let el = eb.len() as int;
    let data = wire_image(
        seq,
        sec,
        nsec,
        frame_id,
        height,
        width,
        encoding,
        endian,
        step,
        redundant,
        pixels,
    );
    let q = hl + 12 + el;
    assert(data.len() == q + 9 + pixels.len());
    assert forall|i: int| 0 <= i < hl implies #[trigger] data[i] == wh[i] by {}
    assert(data.subrange(0, hl) =~= wh);
    lemma_header_round_trip(seq, sec, nsec, frame_id, data, 0);
    assert(header_end(data, 0) == hl);
    assert(data.subrange(hl, hl + 4) =~= spec_u32_to_le_bytes(height)) by {
        assert forall|i: int|
            0 <= i < 4 implies data.subrange(hl, hl + 4)[i] == spec_u32_to_le_bytes(height)[i] by {
            assert(data[hl + i] == spec_u32_to_le_bytes(height)[i]);
        }
    }
    assert(image_height(data, 0) == height);
    assert(data.subrange(hl + 4, hl + 8) =~= spec_u32_to_le_bytes(width)) by {
        assert forall|i: int|
            0 <= i < 4 implies data.subrange(hl + 4, hl + 8)[i] == spec_u32_to_le_bytes(
            width,
        )[i] by {
            assert(data[hl + 4 + i] == spec_u32_to_le_bytes(width)[i]);
        }
    }
    assert(image_width(data, 0) == width);
    assert(data.subrange(hl + 8, hl + 12) =~= spec_u32_to_le_bytes(el as u32)) by {
        assert forall|i: int|
            0 <= i < 4 implies #[trigger] data.subrange(hl + 8, hl + 12)[i] == spec_u32_to_le_bytes(
            el as u32,
        )[i] by {
            assert(data[hl + 8 + i] == spec_u32_to_le_bytes(el as u32)[i]);
        }
    }
    assert(u32_at(data, hl + 8) == el);
    assert(data.subrange(hl + 12, q) =~= eb) by {
        assert forall|i: int| 0 <= i < el implies data.subrange(hl + 12, q)[i] == eb[i] by {
            assert(data[hl + 12 + i] == eb[i]);
        }
    }
    assert(can_read_chunk(data, hl + 8));
    assert(image_enc_chunk(data, 0) == eb);
    assert(image_meta_end(data, 0) == q);
    encode_utf8_valid_utf8(encoding);
    encode_utf8_decode_utf8(encoding);
    assert(data[q] == endian);
    assert(data.subrange(q + 1, q + 5) =~= spec_u32_to_le_bytes(step)) by {
        assert forall|i: int|
            0 <= i < 4 implies data.subrange(q + 1, q + 5)[i] == spec_u32_to_le_bytes(
            step,
        )[i] by {
            assert(data[q + 1 + i] == spec_u32_to_le_bytes(step)[i]);
        }
    }
    assert(image_step(data, 0) == step);
    assert(data.subrange(q + 9, q + 9 + pixels.len() as int) =~= pixels) by {
        assert forall|i: int|
            0 <= i < pixels.len() implies data.subrange(q + 9, q + 9 + pixels.len() as int)[i]
            == pixels[i] by {
            assert(data[q + 9 + i] == pixels[i]);
        }
    }
    assert(image_data_len(data, 0) == pixels.len());
}

impl Image {
    /// Decodes an image from the cursor: the header, then height, width,
    /// the length-prefixed UTF-8 encoding label, the endian byte, the row
    /// length, one redundant 4-byte length field that is consumed and
    /// discarded, and finally the `height * step` bytes of the pixel
    /// matrix.  Fails with [`AppError::OutOfBounds`] when the buffer is
    /// shorter than declared and with [`AppError::InvalidUtf8String`] when
    /// a string field holds bytes that are not UTF-8.
    pub fn from_reader<'a>(c: &mut Cursor<'a>) -> (r: Result<Image, AppError>)
        ensures
            final(c).bytes() == old(c).bytes(),
            old(c).pos() <= final(c).pos(),
            image_bytes_ok(old(c).bytes(), old(c).pos())
                && image_text_ok(old(c).bytes(), old(c).pos())
                ==> (r matches Ok(img)
                    && img@ == image_at(old(c).bytes(), old(c).pos())
                    && final(c).pos() == image_end(old(c).bytes(), old(c).pos())),
            !header_bytes_ok(old(c).bytes(), old(c).pos())
                ==> (r matches Err(e) && e matches AppError::OutOfBounds),
            header_bytes_ok(old(c).bytes(), old(c).pos())
                && !header_text_ok(old(c).bytes(), old(c).pos())
                ==> (r matches Err(e) && e matches AppError::InvalidUtf8String),
            header_bytes_ok(old(c).bytes(), old(c).pos())
                && header_text_ok(old(c).bytes(), old(c).pos())
                && !image_dims_ok(old(c).bytes(), old(c).pos())
                ==> (r matches Err(e) && e matches AppError::OutOfBounds),
            image_dims_ok(old(c).bytes(), old(c).pos())
                && header_text_ok(old(c).bytes(), old(c).pos())
                && !valid_utf8(image_enc_chunk(old(c).bytes(), old(c).pos()))
                ==> (r matches Err(e) && e matches AppError::InvalidUtf8String),
            image_dims_ok(old(c).bytes(), old(c).pos())
                && image_text_ok(old(c).bytes(), old(c).pos())
                && !image_tail_ok(old(c).bytes(), old(c).pos())
                ==> (r matches Err(e) && e matches AppError::OutOfBounds),
    {
        let header = match Header::from_reader(c) {
            Ok(h) => h,
            Err(e) => {
                return Err(e);
            },
        };
        let height = match c.next_u32() {
            Ok(v) => v,
            Err(e) => {
                return Err(e);
            },
        };
        let width = match c.next_u32() {
            Ok(v) => v,
            Err(e) => {
                return Err(e);
            },
        };
        let enc_chunk = match c.next_chunk() {
            Ok(b) => b,
            Err(e) => {
                return Err(e);
            },
        };
        let encoding = match utf8_to_string(enc_chunk) {
            Some(s) => s,
            None => {
                return Err(AppError::InvalidUtf8String);
            },
        };
        let endian = match c.next_u8() {
            Ok(v) => v,
            Err(e) => {
                return Err(e);
            },
        };
        let is_bigendian = endian != 0;
        let step = match c.next_u32() {
            Ok(v) => v,
            Err(e) => {
                return Err(e);
            },
        };
        match c.next_u32() {
            Ok(_) => (),
            Err(e) => {
                return Err(e);
            },
        };
        proof {
            assert((height as u64) * (step as u64) <= (u32::MAX as u64) * (u32::MAX as u64))
                by (nonlinear_arith)
                requires
                    height <= u32::MAX && step <= u32::MAX,
            ;
        }
        let n: u64 = (height as u64) * (step as u64);
        let data_slice = match c.next_bytes(n) {
            Ok(b) => b,
            Err(e) => {
                return Err(e);
            },
        };
        let data = vstd::slice::slice_to_vec(data_slice);
        Ok(Image { header, height, width, encoding, is_bigendian, step, data })
    }

    /// The exact, namespaced type string that identifies this message
    /// kind; only connections carrying it are eligible for export.
    pub fn ros_type() -> (r: &'static str)
        ensures
            r@ == "sensor_msgs/Image"@,
    {
        "sensor_msgs/Image"
    }
}

} // verus!
