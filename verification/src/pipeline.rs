//! Decoding of the input bytes and the minimum-size gate that every
//! analysis passes before resizing and scoring.
use vstd::prelude::*;

use image::{DynamicImage, ImageError};

use crate::text::{decimal, decimal_string};

verus! {

/// An image decoded by the `image` crate.
#[verifier::external_type_specification]
#[verifier::external_body]
pub struct ExDynamicImage(DynamicImage);

/// A decoding failure reported by the `image` crate.
#[verifier::external_type_specification]
#[verifier::external_body]
pub struct ExImageError(ImageError);

/// Maximum dimension (width or height) before resizing.
pub const MAX_DIM: u32 = 512;

/// Minimum dimension needed to run BRISQUE reliably.
pub const MIN_DIM: u32 = 16;

/// Why an image cannot be analysed.
pub enum PipelineError {
    /// The bytes are not an image in a supported format.
    Decode(ImageError),
    /// The image is narrower or lower than `MIN_DIM`.
    TooSmall { width: u32, height: u32 },
}

/// A decoded image together with its dimensions.
pub struct DecodedImage {
    pub image: DynamicImage,
    pub width: u32,
    pub height: u32,
}

/// Width of a decoded image, as `DynamicImage::width` reports it.
pub uninterp spec fn image_width_of(img: DynamicImage) -> u32;

/// Height of a decoded image, as `DynamicImage::height` reports it.
pub uninterp spec fn image_height_of(img: DynamicImage) -> u32;

/// Calls `image::load_from_memory`.  Nothing is claimed of the outcome:
/// besides the bytes, it depends on the decoding and format-detection hooks
/// registered process-wide through `image::hooks`.
#[verifier::external_body]
fn load_from_memory(data: &[u8]) -> Result<DynamicImage, ImageError> {
    image::load_from_memory(data)
}

/// Calls `DynamicImage::width`, which reads the width of the image buffer.
#[verifier::external_body]
fn image_width(img: &DynamicImage) -> (r: u32)
    ensures
        r == image_width_of(*img),
{
    img.width()
}

/// Calls `DynamicImage::height`, which reads the height of the image buffer.
#[verifier::external_body]
fn image_height(img: &DynamicImage) -> (r: u32)
    ensures
        r == image_height_of(*img),
{
    img.height()
}

/// Renders an `ImageError` through its `Display` impl.  Nothing is claimed
/// of the text.
#[verifier::external_body]
fn image_error_text(e: &ImageError) -> String {
    format!("{}", e)
}

/// Accepts dimensions of at least `MIN_DIM` on both sides.
pub fn check_min_size(width: u32, height: u32) -> (r: Result<(), PipelineError>)
    ensures
        r is Ok <==> width >= MIN_DIM && height >= MIN_DIM,
        r matches Err(e) ==> e matches PipelineError::TooSmall { width: w, height: h } && w
            == width && h == height,
{
    if width < MIN_DIM || height < MIN_DIM {
        Err(PipelineError::TooSmall { width, height })
    } else {
        Ok(())
    }
}

/// Admits the outcome of loading an image: a load failure becomes
/// `Decode`; a loaded image smaller than `MIN_DIM` on either side becomes
/// `TooSmall` with its dimensions; any other loaded image is admitted
/// together with its dimensions.
pub fn admit_loaded(loaded: Result<DynamicImage, ImageError>) -> (r: Result<
    DecodedImage,
    PipelineError,
>)
    ensures
        loaded is Err <==> r matches Err(PipelineError::Decode(_)),
        (match loaded {
            Ok(img) => if image_width_of(img) >= MIN_DIM && image_height_of(img) >= MIN_DIM {
                r matches Ok(d) && d.image == img && d.width == image_width_of(img) && d.height
                    == image_height_of(img)
            } else {
                r matches Err(PipelineError::TooSmall { width, height }) && width
                    == image_width_of(img) && height == image_height_of(img)
            },
            Err(_) => true,
        }),
{
    match loaded {
        Err(e) => Err(PipelineError::Decode(e)),
        Ok(image) => {
            let width = image_width(&image);
            let height = image_height(&image);
            match check_min_size(width, height) {
                Err(e) => Err(e),
                Ok(()) => Ok(DecodedImage { image, width, height }),
            }
        },
    }
}

/// Loads `data` with the `image` crate and admits the outcome with
/// `admit_loaded`: a decoding failure is returned as `Decode`, an image
/// smaller than `MIN_DIM` on either side as `TooSmall` with its dimensions,
/// and any other image with its dimensions.
pub fn decode_checked(data: &[u8]) -> (r: Result<DecodedImage, PipelineError>)
    ensures
        r matches Ok(d) ==> d.width == image_width_of(d.image) && d.height == image_height_of(
            d.image,
        ) && d.width >= MIN_DIM && d.height >= MIN_DIM,
        r matches Err(PipelineError::TooSmall { width, height }) ==> width < MIN_DIM || height
            < MIN_DIM,
{
    admit_loaded(load_from_memory(data))
}

/// An image is shrunk before analysis when a side exceeds `MAX_DIM`.
pub fn needs_resize(width: u32, height: u32) -> (r: bool)
    ensures
        r <==> width > MAX_DIM || height > MAX_DIM,
{
    width > MAX_DIM || height > MAX_DIM
}

/// Text of the decoding-failure message for a given reason.
pub open spec fn decode_failure_view(reason: Seq<char>) -> Seq<char> {
    "Failed to decode image: "@ + reason
}

/// The decoding-failure message: the fixed prefix followed by `reason`.
pub fn decode_failure_text(reason: &str) -> (r: String)
    ensures
        r@ == decode_failure_view(reason@),
{
    String::from_str("Failed to decode image: ").concat(reason)
}

/// Text of the too-small message for the given dimensions.
pub open spec fn too_small_text(width: u32, height: u32) -> Seq<char> {
    "Image too small ("@ + decimal(width as nat) + "×"@ + decimal(height as nat)
        + "). Minimum is "@ + decimal(MIN_DIM as nat) + "×"@ + decimal(MIN_DIM as nat) + "."@
}

impl PipelineError {
    /// The human-readable message of the error.
    pub fn message(&self) -> (r: String)
        ensures
            self matches PipelineError::TooSmall { width, height } ==> r@ == too_small_text(
                *width,
                *height,
            ),
            self is Decode ==> "Failed to decode image: "@.is_prefix_of(r@),
            self is Decode ==> exists|reason: Seq<char>| r@ == decode_failure_view(reason),
    {
        match self {
            PipelineError::Decode(e) => {
                let reason = image_error_text(e);
                let r = decode_failure_text(reason.as_str());
                proof {
                    assert(r@.subrange(0, "Failed to decode image: "@.len() as int)
                        =~= "Failed to decode image: "@);
                    assert(r@ == decode_failure_view(reason@));
                }
                r
            },
            PipelineError::TooSmall { width, height } => {
                let mut r = String::from_str("Image too small (");
                r.append(decimal_string(*width).as_str());
                r.append("×");
                r.append(decimal_string(*height).as_str());
                r.append("). Minimum is ");
                r.append(decimal_string(MIN_DIM).as_str());
                r.append("×");
                r.append(decimal_string(MIN_DIM).as_str());
                r.append(".");
                r
            },
        }
    }
}

} // verus!
