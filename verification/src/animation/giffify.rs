//! Encoding a sequence of rasters as a looping GIF.

use vstd::prelude::*;
use gif::Encoder;
use gif::EncodingError;
use gif::Frame;
use gif::Repeat;
use std::borrow::Cow;
use crate::animation::generate::rasters;

verus! {

/// The three colours of every image, as red, green and blue: the
/// background, the challenger, the defender.
pub const COLOR_MAP: [u8; 9] = [0, 0, 0, 0, 0x88, 0xFF, 0x88, 0x88, 0x88];

/// Whether every raster has one pixel for each position of a `width` by
/// `height` image.
pub open spec fn frames_fit(frames: Seq<Seq<u8>>, width: u16, height: u16) -> bool {
    forall|k: int| 0 <= k < frames.len() ==> (#[trigger] frames[k]).len() == width * height
}

/// A 16-bit number, least significant byte first.
pub open spec fn le_bytes(n: u16) -> Seq<u8> {
    seq![(n % 256) as u8, (n / 256) as u8]
}

/// The size of a colour table of `colors` colours as the format writes it:
/// the table has `2 << table_bits(colors)` entries.
pub open spec fn table_bits(colors: int) -> int {
    if colors <= 2 {
        0
    } else if colors <= 4 {
        1
    } else if colors <= 8 {
        2
    } else if colors <= 16 {
        3
    } else if colors <= 32 {
        4
    } else if colors <= 64 {
        5
    } else if colors <= 128 {
        6
    } else {
        7
    }
}

/// How many entries a colour table of `colors` colours has.
pub open spec fn table_entries(colors: int) -> int {
    if colors <= 2 {
        2
    } else if colors <= 4 {
        4
    } else if colors <= 8 {
        8
    } else if colors <= 16 {
        16
    } else if colors <= 32 {
        32
    } else if colors <= 64 {
        64
    } else if colors <= 128 {
        128
    } else {
        256
    }
}

/// The colour table of a palette: its whole colours, then black entries up
/// to the size of the table.
pub open spec fn color_table(palette: Seq<u8>) -> Seq<u8> {
    let colors = palette.len() as int / 3;
    palette.take(colors * 3) + Seq::new((3 * (table_entries(colors) - colors)) as nat, |i: int| 0u8)
}

/// What an image begins with: the signature `GIF89a`, the logical screen
/// descriptor and the global colour table. The packed field of the
/// descriptor holds the flag for a global table and the size of the table
/// twice, once as the colour resolution; background index and aspect ratio
/// are zero.
pub open spec fn screen_header(width: u16, height: u16, palette: Seq<u8>) -> Seq<u8> {
    let bits = table_bits(palette.len() as int / 3);
    seq![0x47u8, 0x49, 0x46, 0x38, 0x39, 0x61] + le_bytes(width) + le_bytes(height) + seq![
        (0x80 + bits + 16 * bits) as u8,
        0u8,
        0u8,
    ] + color_table(palette)
}

/// The application extension that makes a player repeat the image forever.
pub open spec fn loop_extension() -> Seq<u8> {
    seq![
        0x21u8, 0xFF, 0x0B,
        0x4E, 0x45, 0x54, 0x53, 0x43, 0x41, 0x50, 0x45, 0x32, 0x2E, 0x30,
        0x03, 0x01, 0x00, 0x00,
        0x00,
    ]
}

/// What precedes the pixels of a frame that covers the whole image: a
/// graphic control extension with no delay, no transparency and the
/// disposal method "keep", then the image descriptor, without a colour table
/// of the frame's own.
pub open spec fn frame_header(width: u16, height: u16) -> Seq<u8> {
    seq![0x21u8, 0xF9, 0x04, 0x04, 0x00, 0x00, 0x00, 0x00] + seq![0x2Cu8, 0x00, 0x00, 0x00, 0x00]
        + le_bytes(width) + le_bytes(height) + seq![0x00u8]
}

/// The compressed form of the pixels of one frame as `Encoder::write_frame`
/// writes it: the minimum code size, the LZW data in sub-blocks, and the
/// block terminator.
pub uninterp spec fn lzw_image_data(pixels: Seq<u8>) -> Seq<u8>;

/// All frames in playing order, each with its header.
pub open spec fn frames_data(frames: Seq<Seq<u8>>, width: u16, height: u16) -> Seq<u8>
    decreases frames.len(),
{
    if frames.len() == 0 {
        Seq::empty()
    } else {
        frames_data(frames.drop_last(), width, height) + frame_header(width, height)
            + lzw_image_data(frames.last())
    }
}

/// The whole image: header, loop extension, frames, trailer.
pub open spec fn gif_image(frames: Seq<Seq<u8>>, width: u16, height: u16) -> Seq<u8> {
    screen_header(width, height, COLOR_MAP@) + loop_extension() + frames_data(
        frames,
        width,
        height,
    ) + seq![0x3Bu8]
}

/// A `gif::Encoder` that writes into a vector of its own. The verifier does
/// not look into it; `encoder_output` names what it has written.
#[verifier::external_body]
pub struct GifEncoder {
    encoder: Encoder<Vec<u8>>,
}

/// `gif::EncodingError`, the failure of an encoder. Nothing is read from it.
#[verifier::external_type_specification]
#[verifier::external_body]
pub struct ExEncodingError(EncodingError);

/// `std::io::Error`, the failure to finish an image. Nothing is read from it.
#[verifier::external_type_specification]
#[verifier::external_body]
pub struct ExIoError(std::io::Error);

/// The bytes that an encoder has written so far into the vector it owns.
pub uninterp spec fn encoder_output(encoder: GifEncoder) -> Seq<u8>;

/// Whether an encoder was given a global palette of at least one colour.
/// Frames without a palette of their own can be written only then.
pub uninterp spec fn encoder_has_palette(encoder: GifEncoder) -> bool;

/// `Encoder::new` on an empty vector. It fails for a palette of more than
/// 256 colours and for no other: all it does besides is write into its
/// vector. The encoder has then written the signature, the screen descriptor
/// and the colour table, and it has a palette if it was given a colour.
#[verifier::external_body]
fn start_encoder(
    width: u16,
    height: u16,
    palette: &[u8],
) -> (started: Result<GifEncoder, EncodingError>)
    ensures
        started is Ok <==> palette@.len() / 3 <= 256,
        started matches Ok(encoder) ==> encoder_output(encoder) == screen_header(
            width,
            height,
            palette@,
        ) && encoder_has_palette(encoder) == (palette@.len() >= 3),
{
    Ok(GifEncoder { encoder: Encoder::new(Vec::new(), width, height, palette)? })
}

/// `Encoder::set_repeat` with `Repeat::Infinite`. It only writes the loop
/// extension into the vector, which succeeds.
#[verifier::external_body]
fn repeat_forever(encoder: &mut GifEncoder) -> (written: Result<(), EncodingError>)
    ensures
        written is Ok && encoder_output(*final(encoder)) == encoder_output(*old(encoder))
            + loop_extension() && encoder_has_palette(*final(encoder)) == encoder_has_palette(
            *old(encoder),
        ),
{
    encoder.encoder.set_repeat(Repeat::Infinite)
}

/// `Encoder::write_frame` for a frame that covers the whole image and has
/// the fields of `Frame::default()` but for its size and its pixels. With
/// as many pixels as the size asks for, it succeeds where the encoder has a
/// palette, short of running out of memory. The encoder has then written
/// the frame's header and its compressed pixels.
#[verifier::external_body]
fn write_frame(
    encoder: &mut GifEncoder,
    width: u16,
    height: u16,
    pixels: &Vec<u8>,
) -> (written: Result<(), EncodingError>)
    requires
        pixels@.len() == width * height,
    ensures
        encoder_has_palette(*old(encoder)) ==> written is Ok,
        written is Ok ==> encoder_output(*final(encoder)) == encoder_output(*old(encoder))
            + frame_header(width, height) + lzw_image_data(pixels@) && encoder_has_palette(
            *final(encoder),
        ) == encoder_has_palette(*old(encoder)),
{
    let mut frame = Frame::default();
    frame.width = width;
    frame.height = height;
    frame.buffer = Cow::Borrowed(pixels);
    encoder.encoder.write_frame(&frame)
}

/// `Encoder::into_inner`. It writes the trailer into the vector, which
/// succeeds, and hands the vector out.
#[verifier::external_body]
fn finish_encoder(encoder: GifEncoder) -> (finished: Result<Vec<u8>, std::io::Error>)
    ensures
        finished is Ok,
        finished matches Ok(bytes) ==> bytes@ == encoder_output(encoder) + seq![0x3Bu8],
{
    encoder.encoder.into_inner()
}

/// Whether every raster has one pixel for each position of a `width` by
/// `height` image.
pub fn frames_fit_image(states: &Vec<Vec<u8>>, width: u16, height: u16) -> (fit: bool)
    ensures
        fit == frames_fit(rasters(states@), width, height),
{
    assert(width * height <= 0xffff * 0xffff) by (nonlinear_arith)
        requires
            width <= 0xffff,
            height <= 0xffff,
    ;
    let size: usize = (width as usize) * (height as usize);
    let mut k: usize = 0;
    while k < states.len()
        invariant
            k <= states.len(),
            size == width * height,
            forall|j: int| 0 <= j < k ==> (#[trigger] rasters(states@)[j]).len() == size,
        decreases states.len() - k,
    {
        if states[k].len() != size {
            assert(rasters(states@)[k as int].len() != size);
            return false;
        }
        k += 1;
    }
    true
}

/// What becomes of an image that the encoder was asked to finish: the bytes
/// where it did, nothing where it failed.
pub fn finished_image(finished: Result<Vec<u8>, std::io::Error>) -> (image: Option<Vec<u8>>)
    ensures
        image == match finished {
            Ok(bytes) => Some(bytes),
            Err(_) => None,
        },
{
    match finished {
        Ok(bytes) => Some(bytes),
        Err(_) => None,
    }
}

/// Encodes the rasters, in their order, as one looping image of `width` by
/// `height` pixels with the three colours of `COLOR_MAP`.
///
/// The result is all or nothing. There is an image exactly when every
/// raster has `width * height` pixels, and the image is then complete.
pub fn giffify(states: &Vec<Vec<u8>>, width: u16, height: u16) -> (image: Option<Vec<u8>>)
    ensures
        image is Some <==> frames_fit(rasters(states@), width, height),
        image matches Some(bytes) ==> bytes@ == gif_image(rasters(states@), width, height),
{
    if !frames_fit_image(states, width, height) {
        return None;
    }
    let color_map: [u8; 9] = COLOR_MAP;
    let mut encoder: GifEncoder = match start_encoder(width, height, &color_map) {
        Ok(encoder) => encoder,
        Err(_) => {
            return None;
        },
    };
    match repeat_forever(&mut encoder) {
        Ok(_) => {},
        Err(_) => {
            return None;
        },
    }
    let ghost frames = rasters(states@);
    let mut k: usize = 0;
    while k < states.len()
        invariant
            k <= states.len(),
            frames == rasters(states@),
            frames_fit(frames, width, height),
            encoder_has_palette(encoder),
            encoder_output(encoder) == screen_header(width, height, COLOR_MAP@) + loop_extension()
                + frames_data(frames.take(k as int), width, height),
        decreases states.len() - k,
    {
        assert(frames[k as int] == states@[k as int]@);
        assert(frames.take(k + 1).drop_last() =~= frames.take(k as int));
        match write_frame(&mut encoder, width, height, &states[k]) {
            Ok(_) => {},
            Err(_) => {
                return None;
            },
        }
        k += 1;
    }
    assert(frames.take(k as int) =~= frames);
    finished_image(finish_encoder(encoder))
}

} // verus!
