// Decoding of PNG images into the RGBA buffers that textures are made from.
use vstd::prelude::*;
use std::io::Cursor;

verus! {

/// The width and height that the `png` crate reads from the header of the
/// PNG stream `bytes`, or `None` where it cannot read the header.
pub uninterp spec fn png_header(bytes: Seq<u8>) -> Option<(u32, u32)>;

/// What the `png` crate leaves in `buffer` when it decodes the first frame
/// of the PNG stream `bytes` into it, or `None` where decoding fails.
pub uninterp spec fn png_frame(bytes: Seq<u8>, buffer: Seq<u8>) -> Option<Seq<u8>>;

/// Reads the header of a PNG stream with `png::Decoder::read_info`.
/// Claims that the result is the width and height it reads, as a function of
/// the bytes alone, and `None` when it reports an error.
#[verifier::external_body]
fn read_png_header(bytes: &Vec<u8>) -> (r: Option<(u32, u32)>)
    ensures
        r == png_header(bytes@),
{
    match png::Decoder::new(Cursor::new(bytes.as_slice())).read_info() {
        Ok(reader) => Some((reader.info().width, reader.info().height)),
        Err(_) => None,
    }
}

/// Decodes the first frame of a PNG stream into `buffer` with
/// `png::Reader::next_frame`, after reading its header. Claims that the
/// buffer keeps its length whatever happens (the crate writes into it as a
/// slice), that success needs a readable header, and that on success the
/// buffer holds what the crate computes from the bytes and the buffer it was
/// given. What a failed decoding leaves in the buffer is not stated.
#[verifier::external_body]
fn read_png_frame(bytes: &Vec<u8>, buffer: &mut Vec<u8>) -> (ok: bool)
    ensures
        final(buffer)@.len() == old(buffer)@.len(),
        ok == png_frame(bytes@, old(buffer)@) is Some,
        ok ==> png_header(bytes@) is Some,
        ok ==> final(buffer)@ == png_frame(bytes@, old(buffer)@)->0,
{
    match png::Decoder::new(Cursor::new(bytes.as_slice())).read_info() {
        Ok(mut reader) => reader.next_frame(buffer.as_mut_slice()).is_ok(),
        Err(_) => false,
    }
}

/// A decoded image: its size in pixels and its pixel bytes.
pub struct DecodedImage {
    pub width: u32,
    pub height: u32,
    pub data: Vec<u8>,
}

/// Why an image could not be decoded.
#[derive(Debug, Clone, Copy, PartialEq, Eq, Structural)]
pub enum ImageError {
    /// The header of the stream cannot be read.
    Header,
    /// Eight bytes per pixel do not fit in a `u32`.
    TooLarge,
    /// The pixel data cannot be decoded.
    Frame,
}

/// The length of the buffer an image of `width` by `height` pixels is
/// decoded into, eight bytes per pixel, computed in `u32`; `None` where that
/// overflows.
pub open spec fn spec_buffer_len(width: u32, height: u32) -> Option<nat> {
    if width * height * 8 <= u32::MAX {
        Some((width * height * 8) as nat)
    } else {
        None
    }
}

/// What decoding the PNG stream `bytes` gives: its size and pixel bytes, or
/// the error met first.
pub open spec fn spec_decode(bytes: Seq<u8>) -> Result<(u32, u32, Seq<u8>), ImageError> {
    match png_header(bytes) {
        None => Err(ImageError::Header),
        Some((w, h)) => match spec_buffer_len(w, h) {
            None => Err(ImageError::TooLarge),
            Some(len) => match png_frame(bytes, Seq::new(len, |i: int| 0u8)) {
                None => Err(ImageError::Frame),
                Some(pixels) => Ok((w, h, pixels)),
            },
        },
    }
}

/// The buffer length for an image of `width` by `height` pixels.
pub fn image_buffer_len(width: u32, height: u32) -> (r: Option<usize>)
    ensures
        r matches Some(n) ==> spec_buffer_len(width, height) == Some(n as nat),
        r is None ==> spec_buffer_len(width, height) is None,
        width * height * 8 <= u32::MAX ==> r == Some((width * height * 8) as usize),
        width * height * 8 > u32::MAX ==> r is None,
{
    match width.checked_mul(height) {
        None => {
            assert(width * height * 8 > u32::MAX) by (nonlinear_arith)
                requires
                    width * height > u32::MAX,
            ;
            None
        },
        Some(area) => match area.checked_mul(8) {
            None => None,
            Some(n) => Some(n as usize),
        },
    }
}

/// Decoding refuses an image as too large exactly when its header reads and
/// eight bytes for each of its pixels do not fit in a `u32`; an image whose
/// header reads and whose pixels fit is never refused for its size, and when
/// it decodes, its buffer holds eight bytes per pixel.
pub proof fn lemma_decode_size_limit(bytes: Seq<u8>)
    ensures
        (spec_decode(bytes) == Err::<(u32, u32, Seq<u8>), ImageError>(ImageError::TooLarge)) <==> (
        png_header(bytes) matches Some((w, h)) && w * h * 8 > u32::MAX),
        png_header(bytes) matches Some((w, h)) ==> (w * h * 8 <= u32::MAX ==> spec_buffer_len(
            w,
            h,
        ) == Some((w * h * 8) as nat)),
{
}

/// A stream whose header cannot be read is refused for its header, and only
/// such a stream; a decoded image has the size its header gives, and its
/// pixels are what the crate decodes into a zeroed buffer of eight bytes
/// per pixel.
pub proof fn lemma_decode_outcomes(bytes: Seq<u8>)
    ensures
        (spec_decode(bytes) == Err::<(u32, u32, Seq<u8>), ImageError>(ImageError::Header)) <==> (
        png_header(bytes) is None),
        spec_decode(bytes) matches Ok((w, h, pixels)) ==> png_header(bytes) == Some((w, h))
            && w * h * 8 <= u32::MAX && png_frame(
            bytes,
            Seq::new((w * h * 8) as nat, |i: int| 0u8),
        ) == Some(pixels),
{
}

/// Decodes a PNG stream into its size and its pixel bytes.
pub fn decode_png(bytes: &Vec<u8>) -> (r: Result<DecodedImage, ImageError>)
    ensures
        match spec_decode(bytes@) {
            Ok((w, h, pixels)) => r matches Ok(image) && image.width == w && image.height == h
                && image.data@ == pixels,
            Err(e) => r == Err::<DecodedImage, ImageError>(e),
        },
        r matches Ok(image) ==> image.data@.len() == image.width * image.height * 8,
        (r matches Err(ImageError::TooLarge)) <==> (png_header(bytes@) matches Some((w, h)) && w
            * h * 8 > u32::MAX),
{
    let (width, height) = match read_png_header(bytes) {
        None => {
            return Err(ImageError::Header);
        },
        Some(size) => size,
    };
    let len = match image_buffer_len(width, height) {
        None => {
            return Err(ImageError::TooLarge);
        },
        Some(n) => n,
    };
    let mut image_data: Vec<u8> = Vec::new();
    let mut k: usize = 0;
    while k < len
        invariant
            k <= len,
            image_data@ == Seq::new(k as nat, |i: int| 0u8),
        decreases len - k,
    {
        image_data.push(0);
        k = k + 1;
        assert(image_data@ =~= Seq::new(k as nat, |i: int| 0u8));
    }
    if !read_png_frame(bytes, &mut image_data) {
        return Err(ImageError::Frame);
    }
    Ok(DecodedImage { width, height, data: image_data })
}

} // verus!
