//! Resources that a transaction registers with the display-list backend:
//! fonts, font instances at fixed pixel sizes, and images.

use vstd::prelude::*;
use crate::display_list::{FontInstanceKey, IdNamespace};

verus! {

/// A font registered with the backend.
#[derive(Clone, Copy, Debug, PartialEq, Eq, Structural)]
pub struct FontKey(pub IdNamespace, pub u32);

/// How the bytes of an image are laid out.
#[derive(Clone, Copy, Debug, PartialEq, Eq, Structural)]
pub enum ImageFormat {
    /// Four bytes per pixel: red, green, blue, alpha.
    RGBA8,
}

/// The shape of an image, without its bytes.
#[derive(Clone, Copy, Debug, PartialEq, Eq, Structural)]
pub struct ImageDescriptor {
    pub width: i32,
    pub height: i32,
    pub format: ImageFormat,
    pub is_opaque: bool,
    pub allow_mipmaps: bool,
}

/// An image ready to be registered: its shape and its bytes, row by row.
#[derive(Debug)]
pub struct AddImage {
    pub descriptor: ImageDescriptor,
    pub data: Vec<u8>,
}

/// Why an image payload cannot be registered.
#[derive(Clone, Copy, Debug, PartialEq, Eq, Structural)]
pub enum ImageFailure {
    /// The payload is not an image that the decoder reads.
    Undecodable,
    /// The decoded image does not fit the backend's 32-bit sizes.
    TooLarge,
    /// There are fewer than four bytes per pixel.
    Malformed,
}

/// One registration of a transaction.
#[derive(Debug)]
pub enum ResourceUpdate {
    AddFont { font_key: FontKey, bytes: Vec<u8>, index: u32 },
    AddFontInstance { instance_key: FontInstanceKey, font_key: FontKey, glyph_size: i32 },
}

/// App units in one pixel.
pub const AU_PER_PX: i32 = 60;

/// The largest length in app units; the smallest is its negation.
pub const MAX_AU: i32 = 0x3fff_ffff;

/// A length of whole pixels in app units: sixty to the pixel, held to the
/// range from `-MAX_AU` to `MAX_AU`.
pub open spec fn px_to_au(px: i32) -> int {
    if px * AU_PER_PX > MAX_AU {
        MAX_AU as int
    } else if px * AU_PER_PX < -MAX_AU {
        -MAX_AU
    } else {
        px * AU_PER_PX
    }
}

/// Calls `app_units::Au::from_px` and takes the number out of the `Au`.
///
/// Not proved: that the outside function multiplies by sixty and clamps the
/// product to the range of app units, also where the product leaves `i32`.
#[verifier::external_body]
fn au_from_px(px: i32) -> (au: i32)
    ensures
        au == px_to_au(px),
{
    app_units::Au::from_px(px).0
}

/// The pixel sizes at which the font is instantiated.
pub open spec fn font_sizes() -> Seq<u32> {
    seq![10, 12, 14, 16, 20, 24, 34, 40, 48]
}

/// The instance of `font_key` at `size` pixels. Its key is the font's
/// namespace with the size.
pub open spec fn font_instance(font_key: FontKey, size: u32) -> ResourceUpdate {
    ResourceUpdate::AddFontInstance {
        instance_key: FontInstanceKey(font_key.0, size),
        font_key,
        glyph_size: px_to_au(size as i32) as i32,
    }
}

/// The registrations that load a font: the font itself, then one instance
/// for each of `font_sizes`, in that order.
pub open spec fn font_registrations(font_key: FontKey, bytes: Vec<u8>, index: u32) -> Seq<
    ResourceUpdate,
> {
    seq![ResourceUpdate::AddFont { font_key, bytes, index }] + Seq::new(
        font_sizes().len(),
        |i: int| font_instance(font_key, font_sizes()[i]),
    )
}

/// Builds the registrations that load a font.
pub fn register_font(font_key: FontKey, bytes: Vec<u8>, index: u32) -> (updates: Vec<
    ResourceUpdate,
>)
    ensures
        updates@ == font_registrations(font_key, bytes, index),
{
    let sizes: [u32; 9] = [10, 12, 14, 16, 20, 24, 34, 40, 48];
    let mut updates: Vec<ResourceUpdate> = Vec::new();
    updates.push(ResourceUpdate::AddFont { font_key, bytes, index });
    let mut i: usize = 0;
    while i < 9
        invariant
            0 <= i <= 9,
            sizes@ == font_sizes(),
            updates@.len() == i + 1,
            updates@[0] == (ResourceUpdate::AddFont { font_key, bytes, index }),
            forall|k: int| 0 <= k < i ==> updates@[k + 1] == font_instance(font_key, font_sizes()[k]),
        decreases 9 - i,
    {
        let size: u32 = sizes[i];
        assert(size <= 48) by {
            assert(size == font_sizes()[i as int]);
        }
        let glyph_size = au_from_px(size as i32);
        updates.push(
            ResourceUpdate::AddFontInstance {
                instance_key: FontInstanceKey(font_key.0, size),
                font_key,
                glyph_size,
            },
        );
        i += 1;
    }
    assert(updates@ =~= font_registrations(font_key, bytes, index));
    updates
}

/// The error of the image decoder.
#[verifier::external_type_specification]
#[verifier::external_body]
pub struct ExImageError(image::ImageError);

/// An image as the image decoder holds it.
#[verifier::external_type_specification]
#[verifier::external_body]
pub struct ExDynamicImage(image::DynamicImage);

/// Calls `image::load_from_memory`, which guesses the format of the payload
/// and decodes it.
///
/// Nothing is claimed of the outcome: besides the payload it depends on the
/// decoders and format guesses that were registered in the process.
#[verifier::external_body]
fn decode(payload: &[u8]) -> (outcome: Result<image::DynamicImage, image::ImageError>) {
    image::load_from_memory(payload)
}

/// Calls `image::DynamicImage::to_rgba8` and hands out the copy as width,
/// height and raw bytes.
///
/// Not proved: that the raw bytes are at least four for each pixel. The
/// outside buffer checks this wherever it is made; it may hold more.
#[verifier::external_body]
fn rgba8_pixels(picture: &image::DynamicImage) -> (pixels: (u32, u32, Vec<u8>))
    ensures
        4 * pixels.0 * pixels.1 <= pixels.2@.len(),
{
    let rgba = picture.to_rgba8();
    (rgba.width(), rgba.height(), rgba.into_raw())
}

/// Width, height and byte count of four bytes per pixel each fit in `i32`.
pub open spec fn fits_backend(width: u32, height: u32) -> bool {
    width <= i32::MAX && height <= i32::MAX && 4 * width * height <= i32::MAX
}

/// The descriptor under which decoded pixels are registered.
pub open spec fn rgba8_descriptor(width: u32, height: u32) -> ImageDescriptor {
    ImageDescriptor {
        width: width as i32,
        height: height as i32,
        format: ImageFormat::RGBA8,
        is_opaque: true,
        allow_mipmaps: false,
    }
}

/// What becomes of decoded pixels: `TooLarge` where they do not fit the
/// backend, else `Malformed` where there are fewer than four bytes per
/// pixel, else the descriptor to register them under.
pub open spec fn described(width: u32, height: u32, bytes: nat) -> Result<
    ImageDescriptor,
    ImageFailure,
> {
    if !fits_backend(width, height) {
        Err(ImageFailure::TooLarge)
    } else if bytes < 4 * width * height {
        Err(ImageFailure::Malformed)
    } else {
        Ok(rgba8_descriptor(width, height))
    }
}

/// Describes decoded pixels for registration. Of the bytes, the first four
/// per pixel are handed on; a buffer may hold more than its pixels.
pub fn describe_image(width: u32, height: u32, pixels: Vec<u8>) -> (image: Result<
    AddImage,
    ImageFailure,
>)
    ensures
        match described(width, height, pixels@.len()) {
            Ok(descriptor) => {
                &&& image matches Ok(added)
                &&& added.descriptor == descriptor
                &&& added.data@ == pixels@.subrange(0, 4 * width * height)
            },
            Err(failure) => image == Err::<AddImage, ImageFailure>(failure),
        },
{
    if width > 0x7fff_ffff || height > 0x7fff_ffff {
        return Err(ImageFailure::TooLarge);
    }
    assert(4 * width * height <= 4 * 0x7fff_ffff * 0x7fff_ffff) by (nonlinear_arith)
        requires
            width <= 0x7fff_ffff,
            height <= 0x7fff_ffff,
    ;
    assert(width * height <= 0x7fff_ffff * 0x7fff_ffff) by (nonlinear_arith)
        requires
            width <= 0x7fff_ffff,
            height <= 0x7fff_ffff,
    ;
    let area: u64 = (width as u64) * (height as u64);
    let total: u64 = 4 * area;
    assert(total == 4 * width * height) by (nonlinear_arith)
        requires
            total == 4 * area,
            area == width * height,
    ;
    if total > 0x7fff_ffff {
        return Err(ImageFailure::TooLarge);
    }
    if (pixels.len() as u64) < total {
        return Err(ImageFailure::Malformed);
    }
    let mut data = pixels;
    data.truncate(total as usize);
    Ok(
        AddImage {
            descriptor: ImageDescriptor {
                width: width as i32,
                height: height as i32,
                format: ImageFormat::RGBA8,
                is_opaque: true,
                allow_mipmaps: false,
            },
            data,
        },
    )
}

/// Resolves an image payload: decodes it to pixels with an alpha channel
/// and describes them for registration.
///
/// Whether a payload is decoded is up to the decoder. Whatever it gives:
/// a registration that comes back is well formed for its size, four bytes
/// to the pixel; a failure is `Undecodable` where the decoder rejected the
/// payload and `TooLarge` where the picture does not fit the backend.
pub fn load_image(payload: &[u8]) -> (image: Result<AddImage, ImageFailure>)
    ensures
        match image {
            Ok(added) => {
                &&& 0 <= added.descriptor.width
                &&& 0 <= added.descriptor.height
                &&& fits_backend(added.descriptor.width as u32, added.descriptor.height as u32)
                &&& added.descriptor == rgba8_descriptor(
                    added.descriptor.width as u32,
                    added.descriptor.height as u32,
                )
                &&& added.data@.len() == 4 * added.descriptor.width * added.descriptor.height
            },
            Err(failure) => failure != ImageFailure::Malformed,
        },
{
    match decode(payload) {
        Ok(picture) => {
            let pixels = rgba8_pixels(&picture);
            describe_image(pixels.0, pixels.1, pixels.2)
        },
        Err(_) => Err(ImageFailure::Undecodable),
    }
}

} // verus!
