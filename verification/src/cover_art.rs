//! Cover art: the picture block that carries a cover in files of the Vorbis
//! family, and how a cover is embedded for each codec.

use vstd::prelude::*;
use vstd::string::*;
use vstd::utf8::*;

use crate::models::audio_file::{legal_container, AlbumArtError, AudioCodec, AudioContainer};
use crate::models::settings::Settings;
use crate::pipeline::{Operation, Outcome, Pipeline};
use crate::text::text_eq;

verus! {

/// The four bytes of a number, most significant first.
pub open spec fn big_endian(value: u32) -> Seq<u8> {
    seq![
        (value / 0x100_0000) as u8,
        ((value / 0x1_0000) % 0x100) as u8,
        ((value / 0x100) % 0x100) as u8,
        (value % 0x100) as u8,
    ]
}

/// The number that four bytes stand for, most significant first.
pub open spec fn from_big_endian(bytes: Seq<u8>) -> int {
    bytes[0] * 0x100_0000 + bytes[1] * 0x1_0000 + bytes[2] * 0x100 + bytes[3]
}

/// A picture as a picture block describes it.
pub struct Picture {
    /// What the picture shows; 3 is the front cover.
    pub picture_type: u32,
    /// The MIME type of the image.
    pub mime: Seq<char>,
    /// A description of the picture.
    pub description: Seq<char>,
    /// Width in pixels, or zero where it is not given.
    pub width: u32,
    /// Height in pixels, or zero where it is not given.
    pub height: u32,
    /// Bits per pixel, or zero where they are not given.
    pub depth: u32,
    /// Number of colours of an indexed image, or zero.
    pub colors: u32,
    /// The image file itself.
    pub data: Seq<u8>,
}

impl Picture {
    /// Whether the picture fits a block: each of the three lengths must fit
    /// the four bytes that the block has for it.
    pub open spec fn fits(self) -> bool {
        &&& encode_utf8(self.mime).len() <= u32::MAX
        &&& encode_utf8(self.description).len() <= u32::MAX
        &&& self.data.len() <= u32::MAX
    }

    /// The block's header: type, MIME type and description, the two texts
    /// in UTF-8 and each behind its length.
    pub open spec fn header(self) -> Seq<u8> {
        big_endian(self.picture_type) + big_endian(encode_utf8(self.mime).len() as u32)
            + encode_utf8(self.mime) + big_endian(encode_utf8(self.description).len() as u32)
            + encode_utf8(self.description)
    }

    /// The picture block: the header, then width, height, depth and number
    /// of colours, then the image behind its length. All numbers are four
    /// bytes long, most significant byte first.
    pub open spec fn block(self) -> Seq<u8> {
        self.header() + big_endian(self.width) + big_endian(self.height) + big_endian(self.depth)
            + big_endian(self.colors) + big_endian(self.data.len() as u32) + self.data
    }

    /// A front cover of unknown size, as it is embedded.
    pub open spec fn front_cover(mime: Seq<char>, description: Seq<char>, data: Seq<u8>) -> Picture {
        Picture {
            picture_type: 3,
            mime,
            description,
            width: 0,
            height: 0,
            depth: 0,
            colors: 0,
            data,
        }
    }
}

/// A picture read from a picture block.
#[derive(Debug, PartialEq, Eq)]
pub struct PictureBlock {
    pub picture_type: u32,
    pub mime: String,
    pub description: String,
    pub width: u32,
    pub height: u32,
    pub depth: u32,
    pub colors: u32,
    pub data: Vec<u8>,
}

impl View for PictureBlock {
    type V = Picture;

    open spec fn view(&self) -> Picture {
        Picture {
            picture_type: self.picture_type,
            mime: self.mime@,
            description: self.description@,
            width: self.width,
            height: self.height,
            depth: self.depth,
            colors: self.colors,
            data: self.data@,
        }
    }
}

/// Appends a number as four bytes, most significant first, by
/// `byteorder::WriteBytesExt::write_u32` with `byteorder::BigEndian`.
/// Trusted: the bytes that were there stay, and the four bytes of the number
/// follow them. Writing to a vector cannot fail.
#[verifier::external_body]
fn write_u32_be(buffer: &mut Vec<u8>, value: u32)
    ensures
        final(buffer)@ == old(buffer)@ + big_endian(value),
{
    let _ = byteorder::WriteBytesExt::write_u32::<byteorder::BigEndian>(buffer, value);
}

fn append_bytes(buffer: &mut Vec<u8>, bytes: &[u8])
    ensures
        final(buffer)@ == old(buffer)@ + bytes@,
{
    let mut i: usize = 0;
    while i < bytes.len()
        invariant
            i <= bytes.len(),
            buffer@ == old(buffer)@ + bytes@.subrange(0, i as int),
        decreases bytes.len() - i,
    {
        buffer.push(bytes[i]);
        i += 1;
        assert(buffer@ =~= old(buffer)@ + bytes@.subrange(0, i as int));
    }
    assert(bytes@.subrange(0, i as int) =~= bytes@);
}

/// Builds the picture block of a picture of unknown size: width, height,
/// depth and number of colours are written as zero.
pub fn construct_flac_picture_block(
    pic_type: u32,
    mime: &str,
    description: &str,
    image_data: &[u8],
) -> (block: Vec<u8>)
    requires
        mime.spec_bytes().len() <= u32::MAX,
        description.spec_bytes().len() <= u32::MAX,
        image_data@.len() <= u32::MAX,
    ensures
        block@ == (Picture {
            picture_type: pic_type,
            mime: mime@,
            description: description@,
            width: 0,
            height: 0,
            depth: 0,
            colors: 0,
            data: image_data@,
        }).block(),
{
    let mut buf: Vec<u8> = Vec::new();
    write_u32_be(&mut buf, pic_type);
    write_u32_be(&mut buf, mime.len() as u32);
    append_bytes(&mut buf, mime.as_bytes());
    write_u32_be(&mut buf, description.len() as u32);
    append_bytes(&mut buf, description.as_bytes());
    write_u32_be(&mut buf, 0);
    write_u32_be(&mut buf, 0);
    write_u32_be(&mut buf, 0);
    write_u32_be(&mut buf, 0);
    write_u32_be(&mut buf, image_data.len() as u32);
    append_bytes(&mut buf, image_data);
    buf
}

/// Turns bytes into text by `String::from_utf8`. Trusted: the text that comes
/// back is the one whose UTF-8 bytes these are, and none comes back only
/// where no text has these bytes.
#[verifier::external_body]
fn text_from_utf8(bytes: Vec<u8>) -> (text: Option<String>)
    ensures
        text matches Some(t) ==> encode_utf8(t@) == bytes@,
        text is None ==> forall|t: Seq<char>| #[trigger] encode_utf8(t) != bytes@,
{
    match String::from_utf8(bytes) {
        Ok(text) => Some(text),
        Err(_) => None,
    }
}

proof fn lemma_big_endian_read(value: u32)
    ensures
        big_endian(value).len() == 4,
        from_big_endian(big_endian(value)) == value,
{
}

proof fn lemma_big_endian_write(bytes: Seq<u8>)
    requires
        bytes.len() == 4,
    ensures
        0 <= from_big_endian(bytes) <= u32::MAX,
        big_endian(from_big_endian(bytes) as u32) == bytes,
{
    let b0 = bytes[0] as int;
    let b1 = bytes[1] as int;
    let b2 = bytes[2] as int;
    let b3 = bytes[3] as int;
    let v = from_big_endian(bytes);
    assert(v == b0 * 0x100_0000 + b1 * 0x1_0000 + b2 * 0x100 + b3);
    vstd::arithmetic::div_mod::lemma_fundamental_div_mod_converse(
        v,
        0x100_0000,
        b0,
        b1 * 0x1_0000 + b2 * 0x100 + b3,
    );
    vstd::arithmetic::div_mod::lemma_fundamental_div_mod_converse(
        v,
        0x1_0000,
        b0 * 0x100 + b1,
        b2 * 0x100 + b3,
    );
    vstd::arithmetic::div_mod::lemma_fundamental_div_mod_converse(b0 * 0x100 + b1, 0x100, b0, b1);
    vstd::arithmetic::div_mod::lemma_fundamental_div_mod_converse(
        v,
        0x100,
        b0 * 0x1_0000 + b1 * 0x100 + b2,
        b3,
    );
    vstd::arithmetic::div_mod::lemma_fundamental_div_mod_converse(
        b0 * 0x1_0000 + b1 * 0x100 + b2,
        0x100,
        b0 * 0x100 + b1,
        b2,
    );
    let w = big_endian(v as u32);
    assert(w[0] == bytes[0]);
    assert(w[1] == bytes[1]);
    assert(w[2] == bytes[2]);
    assert(w[3] == bytes[3]);
    assert(w =~= bytes);
}

/// The parts of a block, as they follow each other: the five of the header,
/// four numbers, and the image behind its length.
spec fn parts_in_a_row(
    kind: Seq<u8>,
    mime_len: Seq<u8>,
    mime: Seq<u8>,
    text_len: Seq<u8>,
    text: Seq<u8>,
    width: Seq<u8>,
    height: Seq<u8>,
    depth: Seq<u8>,
    colors: Seq<u8>,
    data_len: Seq<u8>,
    data: Seq<u8>,
) -> Seq<u8> {
    kind + mime_len + mime + text_len + text + width + height + depth + colors + data_len + data
}

spec fn parts_found(
    b: Seq<u8>,
    kind: Seq<u8>,
    mime_len: Seq<u8>,
    mime: Seq<u8>,
    text_len: Seq<u8>,
    text: Seq<u8>,
    width: Seq<u8>,
    height: Seq<u8>,
    depth: Seq<u8>,
    colors: Seq<u8>,
    data_len: Seq<u8>,
    data: Seq<u8>,
) -> bool {
    let m = mime.len() as int;
    let d = text.len() as int;
    &&& b.len() == 32 + m + d + data.len()
    &&& b.subrange(0, 4) == kind
    &&& b.subrange(4, 8) == mime_len
    &&& b.subrange(8, 8 + m) == mime
    &&& b.subrange(8 + m, 12 + m) == text_len
    &&& b.subrange(12 + m, 12 + m + d) == text
    &&& b.subrange(12 + m + d, 16 + m + d) == width
    &&& b.subrange(16 + m + d, 20 + m + d) == height
    &&& b.subrange(20 + m + d, 24 + m + d) == depth
    &&& b.subrange(24 + m + d, 28 + m + d) == colors
    &&& b.subrange(28 + m + d, 32 + m + d) == data_len
    &&& b.subrange(32 + m + d, b.len() as int) == data
}

proof fn lemma_parts_of_a_row(
    kind: Seq<u8>,
    mime_len: Seq<u8>,
    mime: Seq<u8>,
    text_len: Seq<u8>,
    text: Seq<u8>,
    width: Seq<u8>,
    height: Seq<u8>,
    depth: Seq<u8>,
    colors: Seq<u8>,
    data_len: Seq<u8>,
    data: Seq<u8>,
)
    requires
        kind.len() == 4,
        mime_len.len() == 4,
        text_len.len() == 4,
        width.len() == 4,
        height.len() == 4,
        depth.len() == 4,
        colors.len() == 4,
        data_len.len() == 4,
    ensures
        parts_found(
            parts_in_a_row(
                kind,
                mime_len,
                mime,
                text_len,
                text,
                width,
                height,
                depth,
                colors,
                data_len,
                data,
            ),
            kind,
            mime_len,
            mime,
            text_len,
            text,
            width,
            height,
            depth,
            colors,
            data_len,
            data,
        ),
{
    let b = parts_in_a_row(
        kind,
        mime_len,
        mime,
        text_len,
        text,
        width,
        height,
        depth,
        colors,
        data_len,
        data,
    );
    let m = mime.len() as int;
    let d = text.len() as int;
    assert(b.subrange(0, 4) =~= kind);
    assert(b.subrange(4, 8) =~= mime_len);
    assert(b.subrange(8, 8 + m) =~= mime);
    assert(b.subrange(8 + m, 12 + m) =~= text_len);
    assert(b.subrange(12 + m, 12 + m + d) =~= text);
    assert(b.subrange(12 + m + d, 16 + m + d) =~= width);
    assert(b.subrange(16 + m + d, 20 + m + d) =~= height);
    assert(b.subrange(20 + m + d, 24 + m + d) =~= depth);
    assert(b.subrange(24 + m + d, 28 + m + d) =~= colors);
    assert(b.subrange(28 + m + d, 32 + m + d) =~= data_len);
    assert(b.subrange(32 + m + d, b.len() as int) =~= data);
}

proof fn lemma_row_of_parts(
    b: Seq<u8>,
    kind: Seq<u8>,
    mime_len: Seq<u8>,
    mime: Seq<u8>,
    text_len: Seq<u8>,
    text: Seq<u8>,
    width: Seq<u8>,
    height: Seq<u8>,
    depth: Seq<u8>,
    colors: Seq<u8>,
    data_len: Seq<u8>,
    data: Seq<u8>,
)
    requires
        parts_found(
            b,
            kind,
            mime_len,
            mime,
            text_len,
            text,
            width,
            height,
            depth,
            colors,
            data_len,
            data,
        ),
    ensures
        b == parts_in_a_row(
            kind,
            mime_len,
            mime,
            text_len,
            text,
            width,
            height,
            depth,
            colors,
            data_len,
            data,
        ),
{
    let m = mime.len() as int;
    let d = text.len() as int;
    let row = parts_in_a_row(
        kind,
        mime_len,
        mime,
        text_len,
        text,
        width,
        height,
        depth,
        colors,
        data_len,
        data,
    );
    assert(kind.len() == 4);
    assert(mime_len.len() == 4);
    assert(text_len.len() == 4);
    assert(width.len() == 4);
    assert(height.len() == 4);
    assert(depth.len() == 4);
    assert(colors.len() == 4);
    assert(data_len.len() == 4);
    lemma_parts_of_a_row(
        kind,
        mime_len,
        mime,
        text_len,
        text,
        width,
        height,
        depth,
        colors,
        data_len,
        data,
    );
    assert(row.len() == b.len());
    assert forall|i: int| 0 <= i < b.len() implies b[i] == row[i] by {
        if i < 4 {
            assert(b[i] == b.subrange(0, 4)[i]);
            assert(row[i] == row.subrange(0, 4)[i]);
        } else if i < 8 {
            assert(b[i] == b.subrange(4, 8)[i - 4]);
            assert(row[i] == row.subrange(4, 8)[i - 4]);
        } else if i < 8 + m {
            assert(b[i] == b.subrange(8, 8 + m)[i - 8]);
            assert(row[i] == row.subrange(8, 8 + m)[i - 8]);
        } else if i < 12 + m {
            assert(b[i] == b.subrange(8 + m, 12 + m)[i - 8 - m]);
            assert(row[i] == row.subrange(8 + m, 12 + m)[i - 8 - m]);
        } else if i < 12 + m + d {
            assert(b[i] == b.subrange(12 + m, 12 + m + d)[i - 12 - m]);
            assert(row[i] == row.subrange(12 + m, 12 + m + d)[i - 12 - m]);
        } else if i < 16 + m + d {
            assert(b[i] == b.subrange(12 + m + d, 16 + m + d)[i - 12 - m - d]);
            assert(row[i] == row.subrange(12 + m + d, 16 + m + d)[i - 12 - m - d]);
        } else if i < 20 + m + d {
            assert(b[i] == b.subrange(16 + m + d, 20 + m + d)[i - 16 - m - d]);
            assert(row[i] == row.subrange(16 + m + d, 20 + m + d)[i - 16 - m - d]);
        } else if i < 24 + m + d {
            assert(b[i] == b.subrange(20 + m + d, 24 + m + d)[i - 20 - m - d]);
            assert(row[i] == row.subrange(20 + m + d, 24 + m + d)[i - 20 - m - d]);
        } else if i < 28 + m + d {
            assert(b[i] == b.subrange(24 + m + d, 28 + m + d)[i - 24 - m - d]);
            assert(row[i] == row.subrange(24 + m + d, 28 + m + d)[i - 24 - m - d]);
        } else if i < 32 + m + d {
            assert(b[i] == b.subrange(28 + m + d, 32 + m + d)[i - 28 - m - d]);
            assert(row[i] == row.subrange(28 + m + d, 32 + m + d)[i - 28 - m - d]);
        } else {
            assert(b[i] == b.subrange(32 + m + d, b.len() as int)[i - 32 - m - d]);
            assert(row[i] == row.subrange(32 + m + d, b.len() as int)[i - 32 - m - d]);
        }
    }
    assert(b =~= row);
}

/// The parts of a picture's block, as sequences of bytes.
proof fn lemma_block_is_a_row(p: Picture)
    ensures
        p.block() == parts_in_a_row(
            big_endian(p.picture_type),
            big_endian(encode_utf8(p.mime).len() as u32),
            encode_utf8(p.mime),
            big_endian(encode_utf8(p.description).len() as u32),
            encode_utf8(p.description),
            big_endian(p.width),
            big_endian(p.height),
            big_endian(p.depth),
            big_endian(p.colors),
            big_endian(p.data.len() as u32),
            p.data,
        ),
{
}

/// Where each part of a picture block stands.
proof fn lemma_block_layout(p: Picture)
    requires
        p.fits(),
    ensures
        ({
            let b = p.block();
            let m = encode_utf8(p.mime).len() as int;
            let d = encode_utf8(p.description).len() as int;
            &&& b.len() == 32 + m + d + p.data.len()
            &&& from_big_endian(b.subrange(0, 4)) == p.picture_type
            &&& from_big_endian(b.subrange(4, 8)) == m
            &&& b.subrange(8, 8 + m) == encode_utf8(p.mime)
            &&& from_big_endian(b.subrange(8 + m, 12 + m)) == d
            &&& b.subrange(12 + m, 12 + m + d) == encode_utf8(p.description)
            &&& from_big_endian(b.subrange(12 + m + d, 16 + m + d)) == p.width
            &&& from_big_endian(b.subrange(16 + m + d, 20 + m + d)) == p.height
            &&& from_big_endian(b.subrange(20 + m + d, 24 + m + d)) == p.depth
            &&& from_big_endian(b.subrange(24 + m + d, 28 + m + d)) == p.colors
            &&& from_big_endian(b.subrange(28 + m + d, 32 + m + d)) == p.data.len()
            &&& b.subrange(32 + m + d, b.len() as int) == p.data
        }),
{
    let m = encode_utf8(p.mime).len() as int;
    let d = encode_utf8(p.description).len() as int;
    lemma_big_endian_read(p.picture_type);
    lemma_big_endian_read(m as u32);
    lemma_big_endian_read(d as u32);
    lemma_big_endian_read(p.width);
    lemma_big_endian_read(p.height);
    lemma_big_endian_read(p.depth);
    lemma_big_endian_read(p.colors);
    lemma_big_endian_read(p.data.len() as u32);
    lemma_block_is_a_row(p);
    lemma_parts_of_a_row(
        big_endian(p.picture_type),
        big_endian(m as u32),
        encode_utf8(p.mime),
        big_endian(d as u32),
        encode_utf8(p.description),
        big_endian(p.width),
        big_endian(p.height),
        big_endian(p.depth),
        big_endian(p.colors),
        big_endian(p.data.len() as u32),
        p.data,
    );
}

/// What the bytes of a picture's block say when they are read from the
/// front: every length lies within the block, both texts stand where their
/// lengths say, and the image ends where the block ends.
proof fn lemma_block_reads_back(p: Picture, b: Seq<u8>)
    requires
        p.fits(),
        p.block() == b,
    ensures
        b.len() >= 32,
        ({
            let m = from_big_endian(b.subrange(4, 8));
            let d = from_big_endian(b.subrange(8 + m, 12 + m));
            &&& 0 <= m <= b.len() - 32
            &&& b.subrange(8, 8 + m) == encode_utf8(p.mime)
            &&& 0 <= d <= b.len() - 32 - m
            &&& b.subrange(12 + m, 12 + m + d) == encode_utf8(p.description)
            &&& from_big_endian(b.subrange(28 + m + d, 32 + m + d)) == b.len() - 32 - m - d
        }),
{
    lemma_block_layout(p);
}

/// Whether no text has the given bytes as its UTF-8 bytes.
spec fn is_no_text(bytes: Seq<u8>) -> bool {
    forall|t: Seq<char>| #[trigger] encode_utf8(t) != bytes
}

/// Whether bytes, read from the front as a picture block, go wrong: they are
/// too few, a length points beyond them, a text is no text, or the image
/// does not end where they end.
spec fn misreads(b: Seq<u8>) -> bool {
    let m = from_big_endian(b.subrange(4, 8));
    let d = from_big_endian(b.subrange(8 + m, 12 + m));
    ||| b.len() < 32
    ||| m > b.len() - 32
    ||| is_no_text(b.subrange(8, 8 + m))
    ||| d > b.len() - 32 - m
    ||| is_no_text(b.subrange(12 + m, 12 + m + d))
    ||| from_big_endian(b.subrange(28 + m + d, 32 + m + d)) != b.len() - 32 - m - d
}

/// Bytes that go wrong when they are read as a picture block are the block
/// of no picture.
proof fn lemma_misread_is_no_block(b: Seq<u8>)
    requires
        misreads(b),
    ensures
        forall|p: Picture| p.fits() ==> #[trigger] p.block() != b,
{
    assert forall|p: Picture| p.fits() implies #[trigger] p.block() != b by {
        if p.block() == b {
            lemma_block_reads_back(p, b);
        }
    }
}

/// The picture whose parts are found in the bytes has these bytes as block.
proof fn lemma_block_of_parts(p: Picture, b: Seq<u8>)
    requires
        p.fits(),
        b.len() == 32 + encode_utf8(p.mime).len() + encode_utf8(p.description).len()
            + p.data.len(),
        ({
            let m = encode_utf8(p.mime).len() as int;
            let d = encode_utf8(p.description).len() as int;
            &&& from_big_endian(b.subrange(0, 4)) == p.picture_type
            &&& from_big_endian(b.subrange(4, 8)) == m
            &&& b.subrange(8, 8 + m) == encode_utf8(p.mime)
            &&& from_big_endian(b.subrange(8 + m, 12 + m)) == d
            &&& b.subrange(12 + m, 12 + m + d) == encode_utf8(p.description)
            &&& from_big_endian(b.subrange(12 + m + d, 16 + m + d)) == p.width
            &&& from_big_endian(b.subrange(16 + m + d, 20 + m + d)) == p.height
            &&& from_big_endian(b.subrange(20 + m + d, 24 + m + d)) == p.depth
            &&& from_big_endian(b.subrange(24 + m + d, 28 + m + d)) == p.colors
            &&& from_big_endian(b.subrange(28 + m + d, 32 + m + d)) == p.data.len()
            &&& b.subrange(32 + m + d, b.len() as int) == p.data
        }),
    ensures
        p.block() == b,
{
    let m = encode_utf8(p.mime).len() as int;
    let d = encode_utf8(p.description).len() as int;
    lemma_big_endian_write(b.subrange(0, 4));
    lemma_big_endian_write(b.subrange(4, 8));
    lemma_big_endian_write(b.subrange(8 + m, 12 + m));
    lemma_big_endian_write(b.subrange(12 + m + d, 16 + m + d));
    lemma_big_endian_write(b.subrange(16 + m + d, 20 + m + d));
    lemma_big_endian_write(b.subrange(20 + m + d, 24 + m + d));
    lemma_big_endian_write(b.subrange(24 + m + d, 28 + m + d));
    lemma_big_endian_write(b.subrange(28 + m + d, 32 + m + d));
    lemma_block_is_a_row(p);
    lemma_row_of_parts(
        b,
        big_endian(p.picture_type),
        big_endian(m as u32),
        encode_utf8(p.mime),
        big_endian(d as u32),
        encode_utf8(p.description),
        big_endian(p.width),
        big_endian(p.height),
        big_endian(p.depth),
        big_endian(p.colors),
        big_endian(p.data.len() as u32),
        p.data,
    );
}

/// A picture block read back gives the picture it was built from: type, MIME
/// type, description, the four numbers and the image are those that were
/// written, so no two pictures share a block.
pub proof fn law_picture_block_round_trip(written: Picture, read: Picture)
    requires
        written.fits(),
        read.fits(),
        read.block() == written.block(),
    ensures
        read == written,
{
    lemma_block_layout(written);
    lemma_block_layout(read);
    encode_utf8_decode_utf8(written.mime);
    encode_utf8_decode_utf8(read.mime);
    encode_utf8_decode_utf8(written.description);
    encode_utf8_decode_utf8(read.description);
    assert(read.mime == written.mime);
    assert(read.description == written.description);
    assert(read.data == written.data);
}

spec fn header_in_a_row(
    kind: Seq<u8>,
    mime_len: Seq<u8>,
    mime: Seq<u8>,
    text_len: Seq<u8>,
    text: Seq<u8>,
) -> Seq<u8> {
    kind + mime_len + mime + text_len + text
}

proof fn lemma_parts_of_a_header(
    kind: Seq<u8>,
    mime_len: Seq<u8>,
    mime: Seq<u8>,
    text_len: Seq<u8>,
    text: Seq<u8>,
)
    requires
        kind.len() == 4,
        mime_len.len() == 4,
        text_len.len() == 4,
    ensures
        ({
            let header = header_in_a_row(kind, mime_len, mime, text_len, text);
            let m = mime.len() as int;
            let d = text.len() as int;
            &&& header.len() == 12 + m + d
            &&& header.subrange(0, 4) == kind
            &&& header.subrange(4, 8) == mime_len
            &&& header.subrange(8, 8 + m) == mime
            &&& header.subrange(8 + m, 12 + m) == text_len
            &&& header.subrange(12 + m, 12 + m + d) == text
        }),
{
    let header = header_in_a_row(kind, mime_len, mime, text_len, text);
    let m = mime.len() as int;
    let d = text.len() as int;
    assert(header.subrange(0, 4) =~= kind);
    assert(header.subrange(4, 8) =~= mime_len);
    assert(header.subrange(8, 8 + m) =~= mime);
    assert(header.subrange(8 + m, 12 + m) =~= text_len);
    assert(header.subrange(12 + m, 12 + m + d) =~= text);
}

proof fn lemma_row_begins_with_first(
    first: Seq<u8>,
    a: Seq<u8>,
    b: Seq<u8>,
    c: Seq<u8>,
    d: Seq<u8>,
    e: Seq<u8>,
    f: Seq<u8>,
)
    ensures
        first.len() <= (first + a + b + c + d + e + f).len(),
        (first + a + b + c + d + e + f).subrange(0, first.len() as int) == first,
{
    assert((first + a + b + c + d + e + f).subrange(0, first.len() as int) =~= first);
}

/// A picture block begins with its header: the picture's type, then the MIME
/// type and the description, each behind its length in bytes.
pub proof fn law_picture_block_header(picture: Picture)
    requires
        picture.fits(),
    ensures
        picture.header().len() <= picture.block().len(),
        picture.block().subrange(0, picture.header().len() as int) == picture.header(),
        ({
            let mime = encode_utf8(picture.mime);
            let text = encode_utf8(picture.description);
            let header = picture.header();
            let m = mime.len() as int;
            let d = text.len() as int;
            &&& header.len() == 12 + m + d
            &&& header.subrange(0, 4) == big_endian(picture.picture_type)
            &&& header.subrange(4, 8) == big_endian(m as u32)
            &&& header.subrange(8, 8 + m) == mime
            &&& header.subrange(8 + m, 12 + m) == big_endian(d as u32)
            &&& header.subrange(12 + m, 12 + m + d) == text
        }),
{
    let mime = encode_utf8(picture.mime);
    let text = encode_utf8(picture.description);
    let m = mime.len() as int;
    let d = text.len() as int;
    lemma_big_endian_read(picture.picture_type);
    lemma_big_endian_read(m as u32);
    lemma_big_endian_read(d as u32);
    assert(picture.header() == header_in_a_row(
        big_endian(picture.picture_type),
        big_endian(m as u32),
        mime,
        big_endian(d as u32),
        text,
    ));
    lemma_parts_of_a_header(
        big_endian(picture.picture_type),
        big_endian(m as u32),
        mime,
        big_endian(d as u32),
        text,
    );
    lemma_row_begins_with_first(
        picture.header(),
        big_endian(picture.width),
        big_endian(picture.height),
        big_endian(picture.depth),
        big_endian(picture.colors),
        big_endian(picture.data.len() as u32),
        picture.data,
    );
}

fn read_u32_be(bytes: &[u8], at: usize) -> (value: u32)
    requires
        at + 4 <= bytes@.len(),
    ensures
        value == from_big_endian(bytes@.subrange(at as int, at + 4)),
{
    let b0: u32 = bytes[at] as u32;
    let b1: u32 = bytes[at + 1] as u32;
    let b2: u32 = bytes[at + 2] as u32;
    let b3: u32 = bytes[at + 3] as u32;
    b0 * 0x100_0000 + b1 * 0x1_0000 + b2 * 0x100 + b3
}

fn copy_range(bytes: &[u8], from: usize, to: usize) -> (copy: Vec<u8>)
    requires
        from <= to <= bytes@.len(),
    ensures
        copy@ == bytes@.subrange(from as int, to as int),
{
    let mut copy: Vec<u8> = Vec::new();
    let mut i: usize = from;
    while i < to
        invariant
            from <= i <= to <= bytes@.len(),
            copy@ == bytes@.subrange(from as int, i as int),
        decreases to - i,
    {
        copy.push(bytes[i]);
        i += 1;
        assert(copy@ =~= bytes@.subrange(from as int, i as int));
    }
    copy
}

/// Reads a picture block. There is a picture exactly where the bytes are the
/// block of one, from the first byte to the last; it is then that picture.
pub fn parse_flac_picture_block(bytes: &[u8]) -> (picture: Option<PictureBlock>)
    ensures
        picture matches Some(p) ==> p@.fits() && p@.block() == bytes@,
        picture is None ==> forall|p: Picture| p.fits() ==> #[trigger] p.block() != bytes@,
{
    let n: usize = bytes.len();
    if n < 32 {
        proof {
            lemma_misread_is_no_block(bytes@);
        }
        return None;
    }
    let picture_type: u32 = read_u32_be(bytes, 0);
    let mime_len: usize = read_u32_be(bytes, 4) as usize;
    if mime_len > n - 32 {
        proof {
            lemma_misread_is_no_block(bytes@);
        }
        return None;
    }
    let mime_bytes = copy_range(bytes, 8, 8 + mime_len);
    let text_at: usize = 8 + mime_len;
    let text_len: usize = read_u32_be(bytes, text_at) as usize;
    if text_len > n - 32 - mime_len {
        proof {
            lemma_misread_is_no_block(bytes@);
        }
        return None;
    }
    let text_bytes = copy_range(bytes, text_at + 4, text_at + 4 + text_len);
    let size_at: usize = text_at + 4 + text_len;
    let width: u32 = read_u32_be(bytes, size_at);
    let height: u32 = read_u32_be(bytes, size_at + 4);
    let depth: u32 = read_u32_be(bytes, size_at + 8);
    let colors: u32 = read_u32_be(bytes, size_at + 12);
    let data_len: usize = read_u32_be(bytes, size_at + 16) as usize;
    if data_len != n - 32 - mime_len - text_len {
        proof {
            lemma_misread_is_no_block(bytes@);
        }
        return None;
    }
    let data = copy_range(bytes, size_at + 20, n);
    let ghost mime_seq = mime_bytes@;
    let ghost text_seq = text_bytes@;
    let mime = match text_from_utf8(mime_bytes) {
        Some(mime) => mime,
        None => {
            proof {
                lemma_misread_is_no_block(bytes@);
            }
            return None;
        },
    };
    let description = match text_from_utf8(text_bytes) {
        Some(description) => description,
        None => {
            proof {
                lemma_misread_is_no_block(bytes@);
            }
            return None;
        },
    };
    let picture = PictureBlock {
        picture_type,
        mime,
        description,
        width,
        height,
        depth,
        colors,
        data,
    };
    proof {
        assert(encode_utf8(picture@.mime) == mime_seq);
        assert(encode_utf8(picture@.description) == text_seq);
        lemma_block_of_parts(picture@, bytes@);
    }
    Some(picture)
}

/// The name of the tag that carries a picture block.
pub const PICTURE_TAG: &'static str = "METADATA_BLOCK_PICTURE";

/// The picture type of a front cover.
pub const FRONT_COVER: u32 = 3;

/// The description that an embedded cover is given.
pub const COVER_DESCRIPTION: &'static str = "Front cover";

/// The title that the cover's stream is given.
pub const COVER_STREAM_TITLE: &'static str = "Album cover";

/// The comment that the cover's stream is given.
pub const COVER_STREAM_COMMENT: &'static str = "Cover (front)";

/// The largest side, in pixels, that a cover can be resized to: the largest
/// that a JPEG file can have.
pub const MAX_COVER_RESOLUTION: u32 = 65535;

/// Whether an image can be scaled to a square of the given side: the side is
/// at least one pixel and at most [`MAX_COVER_RESOLUTION`], and a buffer of
/// sixteen bytes for each pixel of the square can be allocated.
pub open spec fn resizable_to(side: u32) -> bool {
    1 <= side <= MAX_COVER_RESOLUTION && side * side * 32 <= usize::MAX
}

/// The text that standard base64, with padding, gives for bytes.
pub uninterp spec fn base64_standard_text(bytes: Seq<u8>) -> Seq<char>;

/// The MIME type of the image format that the first bytes of an image file
/// give away, if they give one away.
pub uninterp spec fn guessed_mime_type(bytes: Seq<u8>) -> Option<Seq<char>>;

/// Encodes bytes by `base64::Engine::encode` of the engine
/// `base64::engine::general_purpose::STANDARD`. Trusted: the result is the
/// standard base64 text of the bytes. The input is kept so short that the
/// length of the text can be computed and allocated.
#[verifier::external_body]
fn base64_standard(bytes: &[u8]) -> (text: String)
    requires
        bytes@.len() <= usize::MAX / 4,
    ensures
        text@ == base64_standard_text(bytes@),
{
    base64::Engine::encode(&base64::engine::general_purpose::STANDARD, bytes)
}

/// Guesses the format of an image file by `image::guess_format` and names it
/// by `image::ImageFormat::to_mime_type`. Trusted: the result depends on the
/// bytes alone.
#[verifier::external_body]
fn guess_mime_type(bytes: &[u8]) -> (mime: Option<String>)
    ensures
        match mime {
            Some(m) => guessed_mime_type(bytes@) == Some(m@),
            None => guessed_mime_type(bytes@) is None,
        },
{
    match image::guess_format(bytes) {
        Ok(format) => Some(format.to_mime_type().to_string()),
        Err(_) => None,
    }
}

/// Decodes an image file by `image::load_from_memory` and takes width and
/// height of what comes out. Which files decode, and to what, depends on the
/// decoders that the process has, so nothing is claimed of the result.
#[verifier::external_body]
fn read_dimensions(bytes: &[u8]) -> (size: Option<(u32, u32)>) {
    match image::load_from_memory(bytes) {
        Ok(image) => Some((image.width(), image.height())),
        Err(_) => None,
    }
}

/// Decodes an image file by `image::load_from_memory`, scales it to a square
/// by `image::DynamicImage::thumbnail_exact` and encodes the square by
/// `image::codecs::jpeg::JpegEncoder::encode_image`. Nothing is claimed of
/// the bytes that come out. The side is kept within what the scaled image's
/// buffer can hold.
#[verifier::external_body]
fn thumbnail_jpeg(bytes: &[u8], side: u32) -> (jpeg: Option<Vec<u8>>)
    requires
        resizable_to(side),
{
    let image = match image::load_from_memory(bytes) {
        Ok(image) => image,
        Err(_) => return None,
    };
    let square = image.thumbnail_exact(side, side).into_rgb8();
    let mut jpeg = Vec::new();
    match image::codecs::jpeg::JpegEncoder::new(&mut jpeg).encode_image(&square) {
        Ok(()) => Some(jpeg),
        Err(_) => None,
    }
}

/// The side, in pixels, of the square in which a cover is shown.
pub const PREVIEW_SIDE: u32 = 300;

/// Decodes an image file by `image::load_from_memory`, scales it to a square
/// by `image::DynamicImage::thumbnail_exact` and takes its pixels as red,
/// green, blue and alpha, one byte each, by
/// `image::DynamicImage::into_rgba8`. Trusted: the pixels are as many as the
/// square has. The side is kept within what the square's buffer can hold.
#[verifier::external_body]
fn thumbnail_pixels(bytes: &[u8], side: u32) -> (pixels: Option<Vec<u8>>)
    requires
        resizable_to(side),
    ensures
        pixels matches Some(p) ==> p@.len() == side * side * 4,
{
    match image::load_from_memory(bytes) {
        Ok(image) => Some(image.thumbnail_exact(side, side).into_rgba8().into_raw()),
        Err(_) => None,
    }
}

/// Makes the picture in which the cover of a file is shown: a square of
/// [`PREVIEW_SIDE`] pixels a side, as red, green, blue and alpha of each
/// pixel, row by row. `image` is the image file that the audio file carries,
/// if it carries one.
pub fn load_album_art(image: Option<Vec<u8>>) -> (preview: Result<Vec<u8>, AlbumArtError>)
    ensures
        image is None ==> preview == Err::<Vec<u8>, AlbumArtError>(AlbumArtError::NotFound),
        image is Some ==> (preview matches Err(e) ==> e == AlbumArtError::DecodeFailed),
        preview matches Ok(pixels) ==> pixels@.len() == PREVIEW_SIDE * PREVIEW_SIDE * 4,
{
    match image {
        None => Err(AlbumArtError::NotFound),
        Some(bytes) => match thumbnail_pixels(bytes.as_slice(), PREVIEW_SIDE) {
            Some(pixels) => Ok(pixels),
            None => Err(AlbumArtError::DecodeFailed),
        },
    }
}

/// A cover as it goes into an output file: the image file, its MIME type,
/// and its size in pixels.
#[derive(Debug, PartialEq, Eq)]
pub struct CoverArtBlob {
    pub data: Vec<u8>,
    pub mime: String,
    pub width: u32,
    pub height: u32,
}

/// Whether an image can be scaled to a square of the given side.
pub fn can_resize_to(side: u32) -> (possible: bool)
    ensures
        possible == resizable_to(side),
{
    if side < 1 || side > MAX_COVER_RESOLUTION {
        return false;
    }
    let wide: u64 = side as u64;
    assert(wide * wide <= 65535 * 65535) by (nonlinear_arith)
        requires
            wide <= 65535,
    ;
    let area: u64 = wide * wide;
    area * 32 <= usize::MAX as u64
}

impl CoverArtBlob {
    /// The cover that an image makes as it is. Its size is the one given, or
    /// zero by zero where the size is not known.
    pub fn original(data: Vec<u8>, mime: String, size: Option<(u32, u32)>) -> (cover:
        CoverArtBlob)
        ensures
            cover.data == data,
            cover.mime == mime,
            cover.width == match size {
                Some(s) => s.0,
                None => 0u32,
            },
            cover.height == match size {
                Some(s) => s.1,
                None => 0u32,
            },
    {
        match size {
            Some(size) => CoverArtBlob { data, mime, width: size.0, height: size.1 },
            None => CoverArtBlob { data, mime, width: 0, height: 0 },
        }
    }

    /// The cover that a resized image makes: a JPEG file, as wide and as
    /// high as the side it was resized to. No image makes no cover.
    pub fn resized(jpeg: Option<Vec<u8>>, side: u32) -> (cover: Option<CoverArtBlob>)
        ensures
            jpeg is None ==> cover is None,
            jpeg matches Some(j) ==> cover matches Some(c) && c.data == j && c.mime@
                == "image/jpeg"@ && c.width == side && c.height == side,
    {
        match jpeg {
            None => None,
            Some(data) => Some(
                CoverArtBlob {
                    data,
                    mime: String::from_str("image/jpeg"),
                    width: side,
                    height: side,
                },
            ),
        }
    }
}

/// Makes the cover of an output file from the image that the input file
/// carries.
///
/// Without resizing, the cover is the image as it is, with the MIME type
/// that its first bytes give away; an image whose format is not recognised
/// makes no cover. Where `measure` is set the image is decoded for its size;
/// the size is zero by zero where it is not set or the image does not
/// decode. With resizing, the cover is a square JPEG of the side asked for; a
/// side that cannot be resized to (see [`resizable_to`]) makes no cover, and
/// neither does an image that cannot be decoded or encoded.
pub fn prepare_cover_art(raw: Vec<u8>, resize: bool, resolution: u32, measure: bool) -> (cover:
    Option<CoverArtBlob>)
    ensures
        !resize ==> match guessed_mime_type(raw@) {
            Some(mime) => cover matches Some(c) && c.data == raw && c.mime@ == mime && (!measure
                ==> c.width == 0 && c.height == 0),
            None => cover is None,
        },
        resize && !resizable_to(resolution) ==> cover is None,
        resize ==> (cover matches Some(c) ==> c.mime@ == "image/jpeg"@ && c.width == resolution
            && c.height == resolution),
{
    if resize {
        if !can_resize_to(resolution) {
            return None;
        }
        CoverArtBlob::resized(thumbnail_jpeg(raw.as_slice(), resolution), resolution)
    } else {
        let mime = match guess_mime_type(raw.as_slice()) {
            Some(mime) => mime,
            None => {
                return None;
            },
        };
        let size = if measure {
            read_dimensions(raw.as_slice())
        } else {
            None
        };
        Some(CoverArtBlob::original(raw, mime, size))
    }
}

/// The codec of the stream that carries a cover.
#[derive(Clone, Copy, Debug, PartialEq, Eq, Structural)]
pub enum CoverCodec {
    Png,
    Mjpeg,
}

/// How a cover goes into an output file.
#[derive(Debug, PartialEq, Eq)]
pub enum CoverEmbedding {
    /// No cover is embedded.
    Skip,
    /// The cover goes into the metadata, as the value of the tag
    /// [`PICTURE_TAG`]. It is set before the header is written.
    MetadataTag { value: String },
    /// The cover goes into a video stream of its own, flagged as attached
    /// picture, with one packet that holds the image file and is flagged as
    /// key frame. The packet is written after the last audio packet. Width
    /// and height are zero where the size of the image is not known.
    AttachedPicture { codec: CoverCodec, width: u32, height: u32, data: Vec<u8> },
}

/// Whether a codec carries its cover in the metadata.
pub open spec fn carries_cover_as_tag(codec: AudioCodec) -> bool {
    codec == AudioCodec::FLAC || codec == AudioCodec::VORBIS || codec == AudioCodec::OPUS
}

/// The codec of the stream for a cover of the given MIME type.
pub open spec fn cover_codec_for(mime: Seq<char>) -> CoverCodec {
    if mime == "image/png"@ {
        CoverCodec::Png
    } else {
        CoverCodec::Mjpeg
    }
}

/// The picture that the tag of a cover describes.
pub open spec fn tagged_picture(mime: Seq<char>, data: Seq<u8>) -> Picture {
    Picture::front_cover(mime, COVER_DESCRIPTION@, data)
}

/// Whether a cover can go into a tag: its picture must fit a block, and the
/// block must be short enough to be encoded.
pub open spec fn fits_tag(mime: Seq<char>, data: Seq<u8>) -> bool {
    tagged_picture(mime, data).fits() && tagged_picture(mime, data).block().len() <= usize::MAX
        / 4
}

impl CoverEmbedding {
    /// Whether the output gets a stream of its own for the cover.
    pub open spec fn adds_stream(&self) -> bool {
        self is AttachedPicture
    }

    /// Whether the output gets a stream of its own for the cover.
    pub fn needs_stream(&self) -> (needed: bool)
        ensures
            needed == self.adds_stream(),
    {
        match self {
            CoverEmbedding::AttachedPicture { .. } => true,
            _ => false,
        }
    }

    /// The number of streams of the output: the audio stream, and the
    /// cover's where it has one.
    pub fn stream_count(&self) -> (count: usize)
        ensures
            count == if self.adds_stream() {
                2usize
            } else {
                1usize
            },
    {
        if self.needs_stream() {
            2
        } else {
            1
        }
    }
}

fn fits_u32(length: usize) -> (fits: bool)
    ensures
        fits == (length <= u32::MAX),
{
    length as u64 <= 0xffff_ffffu64
}

/// The value of the tag that carries a cover: the picture block of a front
/// cover of unknown size, in standard base64. There is none where the cover
/// does not fit.
pub fn picture_tag_value(mime: &str, data: &[u8]) -> (value: Option<String>)
    ensures
        match value {
            Some(v) => fits_tag(mime@, data@) && v@ == base64_standard_text(
                tagged_picture(mime@, data@).block(),
            ),
            None => !fits_tag(mime@, data@),
        },
{
    if !fits_u32(mime.as_bytes().len()) || !fits_u32(COVER_DESCRIPTION.as_bytes().len())
        || !fits_u32(data.len()) {
        return None;
    }
    let block = construct_flac_picture_block(FRONT_COVER, mime, COVER_DESCRIPTION, data);
    if block.len() > usize::MAX / 4 {
        return None;
    }
    Some(base64_standard(block.as_slice()))
}

/// Decides how a cover goes into an output file.
///
/// Nothing is embedded where embedding is switched off or there is no cover.
/// FLAC, Vorbis and Opus carry the cover as a tag; a cover that does not fit
/// the tag is left out. AAC and MP3 carry it in a stream of its own, as PNG
/// where the cover is one and as MJPEG otherwise.
pub fn plan_cover_embedding(codec: AudioCodec, embed: bool, cover: Option<CoverArtBlob>) -> (plan:
    CoverEmbedding)
    ensures
        (!embed || cover is None) ==> plan is Skip,
        embed ==> (cover matches Some(c) ==> if carries_cover_as_tag(codec) {
            if fits_tag(c.mime@, c.data@) {
                plan matches CoverEmbedding::MetadataTag { value } && value@
                    == base64_standard_text(tagged_picture(c.mime@, c.data@).block())
            } else {
                plan is Skip
            }
        } else {
            plan matches CoverEmbedding::AttachedPicture { codec: stream_codec, width, height, data }
                && stream_codec == cover_codec_for(c.mime@) && width == c.width && height
                == c.height && data == c.data
        }),
{
    if !embed {
        return CoverEmbedding::Skip;
    }
    match cover {
        None => CoverEmbedding::Skip,
        Some(cover) => match codec {
            AudioCodec::FLAC | AudioCodec::VORBIS | AudioCodec::OPUS => {
                match picture_tag_value(cover.mime.as_str(), cover.data.as_slice()) {
                    Some(value) => CoverEmbedding::MetadataTag { value },
                    None => CoverEmbedding::Skip,
                }
            },
            AudioCodec::AAC | AudioCodec::MP3 => {
                let stream_codec = if text_eq(cover.mime.as_str(), "image/png") {
                    CoverCodec::Png
                } else {
                    CoverCodec::Mjpeg
                };
                CoverEmbedding::AttachedPicture {
                    codec: stream_codec,
                    width: cover.width,
                    height: cover.height,
                    data: cover.data,
                }
            },
        },
    }
}

/// The tags from a place on whose name is not `name`, in their order.
pub open spec fn other_tags_from(tags: Seq<(String, String)>, name: Seq<char>, from: int) -> Seq<
    (String, String),
>
    decreases tags.len() - from,
{
    if from < 0 || from >= tags.len() {
        Seq::empty()
    } else if tags[from].0@ == name {
        other_tags_from(tags, name, from + 1)
    } else {
        seq![tags[from]] + other_tags_from(tags, name, from + 1)
    }
}

/// Whether `metadata` is the metadata of an output file whose input has the
/// given tags. Where the cover goes into the metadata, the picture tag stands
/// behind the tags of the input, in place of any tag of that name that the
/// input had; the other tags are as they were, in their order. Where it does
/// not, the metadata is the tags of the input.
pub open spec fn is_output_metadata(
    tags: Seq<(String, String)>,
    cover: CoverEmbedding,
    metadata: Seq<(String, String)>,
) -> bool {
    match cover {
        CoverEmbedding::MetadataTag { value } => {
            &&& metadata.len() > 0
            &&& metadata.last().0@ == PICTURE_TAG@
            &&& metadata.last().1@ == value@
            &&& metadata.drop_last() == other_tags_from(tags, PICTURE_TAG@, 0)
        },
        _ => metadata == tags,
    }
}

/// The metadata of an output file: the tags of the input, as names and
/// values, with the picture tag where the cover goes into the metadata. See
/// [`is_output_metadata`].
pub fn output_metadata(tags: Vec<(String, String)>, cover: &CoverEmbedding) -> (metadata: Vec<
    (String, String),
>)
    ensures
        is_output_metadata(tags@, *cover, metadata@),
{
    match cover {
        CoverEmbedding::MetadataTag { value } => {
            let mut metadata = tags;
            let mut i: usize = metadata.len();
            assert(metadata@ =~= tags@.subrange(0, i as int) + other_tags_from(
                tags@,
                PICTURE_TAG@,
                i as int,
            ));
            while i > 0
                invariant
                    i <= tags@.len(),
                    metadata@ == tags@.subrange(0, i as int) + other_tags_from(
                        tags@,
                        PICTURE_TAG@,
                        i as int,
                    ),
                decreases i,
            {
                i -= 1;
                if text_eq(metadata[i].0.as_str(), PICTURE_TAG) {
                    metadata.remove(i);
                }
                assert(metadata@ =~= tags@.subrange(0, i as int) + other_tags_from(
                    tags@,
                    PICTURE_TAG@,
                    i as int,
                ));
            }
            let ghost others = metadata@;
            assert(others =~= other_tags_from(tags@, PICTURE_TAG@, 0));
            metadata.push((String::from_str(PICTURE_TAG), value.clone()));
            assert(metadata@.drop_last() =~= others);
            metadata
        },
        _ => tags,
    }
}

/// Whether `plan` is a way in which the cover of an input can go into its
/// output, for given settings and the image that the input carries.
///
/// Nothing is embedded with embedding switched off or without an image.
/// Codecs that carry their cover as a tag get no stream for it, and the
/// others no tag. Without resizing, the plan is fixed by the image: an image
/// whose format is not recognised is left out; a recognised one goes into the
/// tag as it is, if it fits, or into a stream of its own, with the codec that
/// belongs to its MIME type. With resizing, a side that cannot be resized to
/// leaves the cover out; else the cover is a JPEG file, as wide and as high
/// as the settings ask, and which bytes it has is left open, and so is
/// whether it can be made.
pub open spec fn is_cover_plan(settings: Settings, image: Option<Vec<u8>>, plan: CoverEmbedding) -> bool {
    &&& (!settings.out_embed_art || image is None) ==> plan is Skip
    &&& carries_cover_as_tag(settings.out_codec) ==> !plan.adds_stream()
    &&& !carries_cover_as_tag(settings.out_codec) ==> !(plan is MetadataTag)
    &&& settings.out_embed_art && !settings.out_enable_cover_art_resize ==> (image matches Some(raw)
        ==> match guessed_mime_type(raw@) {
        Some(mime) => if carries_cover_as_tag(settings.out_codec) {
            if fits_tag(mime, raw@) {
                plan matches CoverEmbedding::MetadataTag { value } && value@
                    == base64_standard_text(tagged_picture(mime, raw@).block())
            } else {
                plan is Skip
            }
        } else {
            plan matches CoverEmbedding::AttachedPicture { codec, data, .. } && codec
                == cover_codec_for(mime) && data == raw
        },
        None => plan is Skip,
    })
    &&& settings.out_embed_art && settings.out_enable_cover_art_resize && !resizable_to(
        settings.out_cover_art_resolution,
    ) ==> plan is Skip
    &&& settings.out_embed_art && settings.out_enable_cover_art_resize ==> match plan {
        CoverEmbedding::Skip => true,
        CoverEmbedding::MetadataTag { value } => exists|jpeg: Seq<u8>|
            value@ == base64_standard_text(#[trigger] tagged_picture("image/jpeg"@, jpeg).block()),
        CoverEmbedding::AttachedPicture { codec, width, height, .. } => codec == CoverCodec::Mjpeg
            && width == settings.out_cover_art_resolution && height
            == settings.out_cover_art_resolution,
    }
}

/// Decides how the cover of an input goes into its output, from the settings
/// and the image that the input carries, if it carries one: the cover is
/// made as [`prepare_cover_art`] makes it and embedded as
/// [`plan_cover_embedding`] decides. With embedding switched off the image is
/// not looked at, and it is decoded only where it is resized or its size
/// goes into the output, which it does for a stream of its own. See
/// [`is_cover_plan`].
pub fn cover_for(settings: &Settings, image: Option<Vec<u8>>) -> (plan: CoverEmbedding)
    ensures
        is_cover_plan(*settings, image, plan),
{
    if !settings.out_embed_art {
        return CoverEmbedding::Skip;
    }
    match image {
        None => CoverEmbedding::Skip,
        Some(raw) => {
            let measure = match settings.out_codec {
                AudioCodec::FLAC | AudioCodec::VORBIS | AudioCodec::OPUS => false,
                AudioCodec::AAC | AudioCodec::MP3 => true,
            };
            let cover = prepare_cover_art(
                raw,
                settings.out_enable_cover_art_resize,
                settings.out_cover_art_resolution,
                measure,
            );
            proof {
                reveal_strlit("image/jpeg");
                reveal_strlit("image/png");
                assert("image/jpeg"@ != "image/png"@) by {
                    assert("image/jpeg"@[6] == 'j');
                    assert("image/png"@[6] == 'p');
                }
            }
            let ghost made = cover;
            let plan = plan_cover_embedding(settings.out_codec, true, cover);
            proof {
                if settings.out_enable_cover_art_resize && plan is MetadataTag {
                    assert(plan->value@ == base64_standard_text(
                        tagged_picture("image/jpeg"@, made->0.data@).block(),
                    ));
                }
            }
            plan
        },
    }
}

/// Two conversions of one input with the same settings write the same tags,
/// names and values, in the same order, unless the cover is resized: without
/// resizing, whether the cover goes into the metadata, and with which value,
/// is fixed by settings and image, and the other tags are those of the
/// input. With resizing all tags but the picture tag are the same.
pub proof fn law_same_input_same_tags(
    settings: Settings,
    image: Option<Vec<u8>>,
    tags: Seq<(String, String)>,
    first_plan: CoverEmbedding,
    second_plan: CoverEmbedding,
    first: Seq<(String, String)>,
    second: Seq<(String, String)>,
)
    requires
        is_cover_plan(settings, image, first_plan),
        is_cover_plan(settings, image, second_plan),
        is_output_metadata(tags, first_plan, first),
        is_output_metadata(tags, second_plan, second),
    ensures
        !settings.out_enable_cover_art_resize ==> {
            &&& first.len() == second.len()
            &&& forall|i: int|
                0 <= i < first.len() ==> (#[trigger] first[i]).0@ == second[i].0@ && first[i].1@
                    == second[i].1@
        },
        first_plan is MetadataTag && second_plan is MetadataTag ==> first.drop_last()
            == second.drop_last(),
        !(first_plan is MetadataTag) && !(second_plan is MetadataTag) ==> first == second,
{
    if !settings.out_enable_cover_art_resize {
        if first_plan is MetadataTag {
            assert(second_plan is MetadataTag);
            assert(first_plan->value@ == second_plan->value@);
            assert(first.drop_last() == second.drop_last());
            assert(first.drop_last().len() == first.len() - 1);
            assert(second.drop_last().len() == second.len() - 1);
            assert forall|i: int| 0 <= i < first.len() implies (#[trigger] first[i]).0@
                == second[i].0@ && first[i].1@ == second[i].1@ by {
                if i < first.len() - 1 {
                    assert(first[i] == first.drop_last()[i]);
                    assert(second[i] == second.drop_last()[i]);
                }
            }
        } else {
            assert(!(second_plan is MetadataTag));
        }
    }
}

/// A codec that is packaged into a FLAC or an Ogg container carries its
/// cover as a tag. With embedding switched on, no resizing, and an image
/// that is recognised and fits the tag, the output's metadata ends in the
/// picture tag; its value is the base64 text of the picture block of the
/// image; and that block begins with the header of a front cover: the type
/// 3, then the MIME type and the description, each behind its length.
pub proof fn law_flac_and_ogg_carry_tag(
    settings: Settings,
    image: Vec<u8>,
    mime: Seq<char>,
    tags: Seq<(String, String)>,
    plan: CoverEmbedding,
    metadata: Seq<(String, String)>,
)
    requires
        legal_container(settings.out_codec, settings.out_container),
        settings.out_container == AudioContainer::FLAC || settings.out_container
            == AudioContainer::OGG,
        settings.out_embed_art,
        !settings.out_enable_cover_art_resize,
        guessed_mime_type(image@) == Some(mime),
        fits_tag(mime, image@),
        is_cover_plan(settings, Some(image), plan),
        is_output_metadata(tags, plan, metadata),
    ensures
        carries_cover_as_tag(settings.out_codec),
        metadata.len() > 0,
        metadata.last().0@ == PICTURE_TAG@,
        metadata.last().1@ == base64_standard_text(tagged_picture(mime, image@).block()),
        ({
            let picture = tagged_picture(mime, image@);
            let block = picture.block();
            let m = encode_utf8(mime).len() as int;
            let d = encode_utf8(COVER_DESCRIPTION@).len() as int;
            &&& block.len() >= 12 + m + d
            &&& block.subrange(0, 4) == big_endian(3)
            &&& block.subrange(4, 8) == big_endian(m as u32)
            &&& block.subrange(8, 8 + m) == encode_utf8(mime)
            &&& block.subrange(8 + m, 12 + m) == big_endian(d as u32)
            &&& block.subrange(12 + m, 12 + m + d) == encode_utf8(COVER_DESCRIPTION@)
        }),
{
    let picture = tagged_picture(mime, image@);
    let block = picture.block();
    let header = picture.header();
    let m = encode_utf8(mime).len() as int;
    let d = encode_utf8(COVER_DESCRIPTION@).len() as int;
    law_picture_block_header(picture);
    assert(block.subrange(0, 4) =~= header.subrange(0, 4));
    assert(block.subrange(4, 8) =~= header.subrange(4, 8));
    assert(block.subrange(8, 8 + m) =~= header.subrange(8, 8 + m));
    assert(block.subrange(8 + m, 12 + m) =~= header.subrange(8 + m, 12 + m));
    assert(block.subrange(12 + m, 12 + m + d) =~= header.subrange(12 + m, 12 + m + d));
}

/// Where AAC or MP3 get a cover, a successful conversion leaves an output
/// of exactly two streams, the audio stream and the cover's, and has written
/// exactly one packet on the cover's stream.
pub proof fn law_attached_cover_has_one_packet(codec: AudioCodec, outcomes: Seq<Outcome>)
    requires
        codec == AudioCodec::AAC || codec == AudioCodec::MP3,
        Pipeline::initial(true).run(outcomes).succeeded(),
    ensures
        !carries_cover_as_tag(codec),
        Pipeline::initial(true).completed(outcomes, Operation::OpenEncoder) + Pipeline::initial(
            true,
        ).completed(outcomes, Operation::AddCoverStream) == 2,
        Pipeline::initial(true).completed(outcomes, Operation::WriteCover) == 1,
{
    crate::pipeline::law_successful_conversion(true, outcomes);
}

} // verus!
