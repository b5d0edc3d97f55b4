//! JPEG encoding of the eye images.
use crate::frames::{
    left_eye, right_eye, split_frame, EYE_IMAGE_BYTES, EYE_IMAGE_HEIGHT, EYE_IMAGE_WIDTH,
    FRAME_ROW_BYTES,
};
use image::codecs::jpeg::JpegEncoder;
use image::{ExtendedColorType, ImageEncoder};
use vstd::prelude::*;

verus! {

/// The error type of the image crate.
#[verifier::external_type_specification]
#[verifier::external_body]
pub struct ExImageError(image::ImageError);

/// What `JpegEncoder` of the image crate writes for an 8-bit grey image of `width` times
/// `height` pixels at this quality. The encoder's only inputs are these.
pub uninterp spec fn jpeg_bytes(pixels: Seq<u8>, width: u32, height: u32, quality: u8) -> Seq<u8>;

/// The sizes that a JPEG file can have.
pub open spec fn is_jpeg_size(width: u32, height: u32) -> bool {
    1 <= width <= 65535 && 1 <= height <= 65535
}

/// `JpegEncoder::new_with_quality` and its `write_image`, for 8-bit grey pixels.
///
/// It is claimed that the encoder fails on no image but one whose size a JPEG file cannot have,
/// that it has written nothing by then, and that it otherwise appends `jpeg_bytes` to the output.
/// The encoder panics where the pixels do not make up the size, so the caller must see to that.
#[verifier::external_body]
fn write_jpeg(
    pixels: &[u8],
    width: u32,
    height: u32,
    quality: u8,
    output: &mut Vec<u8>,
) -> (r: Result<(), image::ImageError>)
    requires
        pixels@.len() == width * height,
    ensures
        r is Ok <==> is_jpeg_size(width, height),
        final(output)@ == if is_jpeg_size(width, height) {
            old(output)@ + jpeg_bytes(pixels@, width, height, quality)
        } else {
            old(output)@
        },
{
    JpegEncoder::new_with_quality(output, quality).write_image(
        pixels,
        width,
        height,
        ExtendedColorType::L8,
    )
}

/// The quality that the encoder gets for the configured one.
pub open spec fn bounded_quality(quality: u32) -> u8 {
    if quality < 1 {
        1
    } else if quality > 100 {
        100
    } else {
        quality as u8
    }
}

/// The JPEG file of an eye image.
pub open spec fn eye_jpeg(pixels: Seq<u8>, quality: u32) -> Seq<u8> {
    jpeg_bytes(
        pixels,
        EYE_IMAGE_WIDTH as u32,
        EYE_IMAGE_HEIGHT as u32,
        bounded_quality(quality),
    )
}

/// Replaces the output with the JPEG file of an eye image. Returns whether that worked, which it
/// does for images of this size.
pub fn encode_jpeg(pixels: &[u8], quality: u32, output: &mut Vec<u8>) -> (encoded: bool)
    requires
        pixels@.len() == EYE_IMAGE_BYTES,
    ensures
        encoded,
        final(output)@ == eye_jpeg(pixels@, quality),
        final(output)@ == jpeg_bytes(
            pixels@,
            400,
            400,
            if quality < 1 {
                1
            } else if quality > 100 {
                100
            } else {
                quality as u8
            },
        ),
{
    output.clear();
    let bounded: u8 = if quality < 1 {
        1
    } else if quality > 100 {
        100
    } else {
        quality as u8
    };
    match write_jpeg(pixels, EYE_IMAGE_WIDTH as u32, EYE_IMAGE_HEIGHT as u32, bounded, output) {
        Ok(()) => {
            proof {
                assert(output@ =~= eye_jpeg(pixels@, quality));
            }
            true
        },
        Err(_) => false,
    }
}

/// The buffers of the encoder: the two images of the current frame, and their JPEG files.
pub struct EyeEncoder {
    pub left: Vec<u8>,
    pub right: Vec<u8>,
    pub left_jpeg: Vec<u8>,
    pub right_jpeg: Vec<u8>,
}

impl EyeEncoder {
    /// Both images have the size of an eye image.
    pub open spec fn wf(self) -> bool {
        self.left@.len() == EYE_IMAGE_BYTES && self.right@.len() == EYE_IMAGE_BYTES
    }

    /// An encoder with two black images.
    pub fn new() -> (encoder: Self)
        ensures
            encoder.wf(),
            forall|i: int| 0 <= i < EYE_IMAGE_BYTES ==> encoder.left@[i] == 0,
            forall|i: int| 0 <= i < EYE_IMAGE_BYTES ==> encoder.right@[i] == 0,
            encoder.left_jpeg@.len() == 0,
            encoder.right_jpeg@.len() == 0,
    {
        EyeEncoder {
            left: vec![0u8; EYE_IMAGE_BYTES],
            right: vec![0u8; EYE_IMAGE_BYTES],
            left_jpeg: Vec::new(),
            right_jpeg: Vec::new(),
        }
    }

    /// Takes over the images of a frame, which is not needed after that.
    pub fn load(&mut self, frame: &[u8])
        requires
            frame@.len() >= EYE_IMAGE_HEIGHT * FRAME_ROW_BYTES,
        ensures
            final(self).wf(),
            final(self).left@ == left_eye(frame@),
            final(self).right@ == right_eye(frame@),
            final(self).left_jpeg == old(self).left_jpeg,
            final(self).right_jpeg == old(self).right_jpeg,
    {
        split_frame(frame, &mut self.left, &mut self.right);
    }

    /// Encodes both images. Returns whether the JPEG files are to be sent.
    pub fn encode(&mut self, quality: u32) -> (encoded: bool)
        requires
            old(self).wf(),
        ensures
            encoded,
            final(self).left == old(self).left,
            final(self).right == old(self).right,
            final(self).left_jpeg@ == eye_jpeg(old(self).left@, quality),
            final(self).right_jpeg@ == eye_jpeg(old(self).right@, quality),
            1 <= quality <= 100 ==> {
                &&& final(self).left_jpeg@ == jpeg_bytes(old(self).left@, 400, 400, quality as u8)
                &&& final(self).right_jpeg@ == jpeg_bytes(
                    old(self).right@,
                    400,
                    400,
                    quality as u8,
                )
            },
    {
        encode_jpeg(self.left.as_slice(), quality, &mut self.left_jpeg) && encode_jpeg(
            self.right.as_slice(),
            quality,
            &mut self.right_jpeg,
        )
    }
}

/// The JPEG file of an eye image is that of exactly its pixels, 400 by 400, at the configured
/// quality limited to 1 to 100.
pub proof fn law_eye_image_is_encoded_as_it_is(pixels: Seq<u8>, quality: u32)
    ensures
        quality < 1 ==> eye_jpeg(pixels, quality) == jpeg_bytes(pixels, 400, 400, 1),
        1 <= quality <= 100 ==> eye_jpeg(pixels, quality) == jpeg_bytes(
            pixels,
            400,
            400,
            quality as u8,
        ),
        quality > 100 ==> eye_jpeg(pixels, quality) == jpeg_bytes(pixels, 400, 400, 100),
{
}

/// The JPEG files of a frame are those of its two halves: of the right eye from the left half of
/// each row, of the left eye from the right half.
pub proof fn law_both_halves_of_a_frame_are_encoded(frame: Seq<u8>, quality: u32)
    requires
        frame.len() >= 320_000,
        1 <= quality <= 100,
    ensures
        eye_jpeg(right_eye(frame), quality) == jpeg_bytes(
            Seq::new(160_000, |i: int| frame[800 * (i / 400) + i % 400]),
            400,
            400,
            quality as u8,
        ),
        eye_jpeg(left_eye(frame), quality) == jpeg_bytes(
            Seq::new(160_000, |i: int| frame[800 * (i / 400) + 400 + i % 400]),
            400,
            400,
            quality as u8,
        ),
{
    assert(right_eye(frame) =~= Seq::new(160_000, |i: int| frame[800 * (i / 400) + i % 400]));
    assert(left_eye(frame) =~= Seq::new(160_000, |i: int| frame[800 * (i / 400) + 400 + i % 400]));
}

} // verus!
