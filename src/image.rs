//! The image normaliser: repairs the bogus all-transparent alpha channel
//! that some clipboard providers emit, and turns a raw RGBA buffer into a
//! printable PNG payload with a caption.

use vstd::prelude::*;
use image::codecs::png::PngEncoder;
use image::{ExtendedColorType, ImageEncoder};
use crate::text::{decimal, push_decimal, push_text};
use crate::vault::{base64_encode, base64_of};

verus! {

/// PNG file of a `width` × `height` image with the given RGBA8 pixel bytes.
pub uninterp spec fn png_of(width: u32, height: u32, rgba: Seq<u8>) -> Seq<u8>;

/// Relies on image's PngEncoder::write_image for an RGBA8 buffer of exactly
/// 4 × width × height bytes (other lengths make it panic). Writing to a
/// `Vec`, it fails only where the png encoder refuses a zero width or height.
#[verifier::external_body]
fn png_encode(width: u32, height: u32, rgba: &[u8]) -> (r: Option<Vec<u8>>)
    requires
        rgba@.len() == 4 * width * height,
    ensures
        r is Some <==> (width > 0 && height > 0),
        r matches Some(p) ==> p@ == png_of(width, height, rgba@),
{
    let mut png: Vec<u8> = Vec::new();
    match PngEncoder::new(&mut png).write_image(rgba, width, height, ExtendedColorType::Rgba8) {
        Ok(()) => Some(png),
        Err(_) => None,
    }
}

/// Every pixel's alpha byte (every fourth byte) is 0.
pub open spec fn all_alpha_zero(b: Seq<u8>) -> bool {
    forall|i: int| 0 <= i < b.len() && i % 4 == 3 ==> #[trigger] b[i] == 0
}

/// The buffer with every alpha byte set to 255 (opaque).
pub open spec fn opaque(b: Seq<u8>) -> Seq<u8> {
    Seq::new(b.len(), |i: int| if i % 4 == 3 { 255u8 } else { b[i] })
}

/// The buffer after alpha repair: made opaque only where every pixel was
/// fully transparent; any other alpha pattern is kept as it is.
pub open spec fn alpha_repaired(b: Seq<u8>) -> Seq<u8> {
    if all_alpha_zero(b) {
        opaque(b)
    } else {
        b
    }
}

/// The caption stored in place of an image's text: `Image (WxH)`.
pub open spec fn image_caption(width: nat, height: nat) -> Seq<char> {
    "Image ("@ + decimal(width) + "x"@ + decimal(height) + ")"@
}

/// The buffer is exactly `width` × `height` RGBA8 pixels, with both sides
/// in the range of the encoder.
pub open spec fn well_sized(width: nat, height: nat, len: nat) -> bool {
    width <= u32::MAX && height <= u32::MAX && len == 4 * width * height
}

/// Repairs the alpha channel in place; returns whether every pixel was
/// fully transparent (and so is now opaque).
pub fn repair_alpha(bytes: &mut Vec<u8>) -> (r: bool)
    ensures
        r == all_alpha_zero(old(bytes)@),
        final(bytes)@ == alpha_repaired(old(bytes)@),
{
    let pixels = bytes.len() / 4;
    let mut p: usize = 0;
    let mut zero = true;
    while p < pixels
        invariant
            p <= pixels,
            pixels == bytes@.len() / 4,
            zero == forall|q: int| 0 <= q < p ==> #[trigger] bytes@[4 * q + 3] == 0,
        decreases pixels - p,
    {
        proof {
            let n = bytes@.len();
            assert(4 * p + 3 < n) by (nonlinear_arith)
                requires p < pixels, pixels == n / 4;
            assert(4 * p + 3 < bytes.len());
        }
        if bytes[4 * p + 3] != 0 {
            zero = false;
        }
        p = p + 1;
    }
    proof {
        let b = bytes@;
        if zero {
            assert forall|i: int| 0 <= i < b.len() && i % 4 == 3 implies #[trigger] b[i] == 0 by {
                let q = i / 4;
                assert(4 * q + 3 == i);
                assert(0 <= q < pixels);
            }
        } else {
            let q = choose|q: int| 0 <= q < pixels && #[trigger] b[4 * q + 3] != 0;
            assert((4 * q + 3) % 4 == 3);
        }
    }
    if !zero {
        return false;
    }
    let ghost start = bytes@;
    let mut p: usize = 0;
    while p < pixels
        invariant
            p <= pixels,
            pixels == start.len() / 4,
            bytes@.len() == start.len(),
            forall|i: int| 0 <= i < start.len() ==> #[trigger] bytes@[i] == if i % 4 == 3 && i / 4 < p {
                255u8
            } else {
                start[i]
            },
        decreases pixels - p,
    {
        proof {
            let n = start.len();
            assert(4 * p + 3 < n) by (nonlinear_arith)
                requires p < pixels, pixels == n / 4;
            assert(4 * p + 3 < bytes.len());
        }
        bytes.set(4 * p + 3, 255);
        p = p + 1;
    }
    proof {
        assert forall|i: int| 0 <= i < start.len() implies #[trigger] bytes@[i] == opaque(start)[i] by {
            if i % 4 == 3 {
                assert(i / 4 < pixels);
            }
        }
        assert(bytes@ =~= opaque(start));
    }
    true
}

/// A captured image made ready for storage.
pub struct NormalizedImage {
    /// `Image (WxH)`.
    pub caption: String,
    /// Base64 text of the PNG file of the repaired pixels.
    pub payload: String,
}

/// Why a captured image could not be made ready for storage.
#[derive(Clone, Copy, Debug, PartialEq, Eq, Structural)]
pub enum ImageError {
    /// The buffer is not `width` × `height` RGBA8 pixels.
    Malformed,
    /// The PNG encoder refused the image.
    Encoding,
}

/// The caption of a `width` × `height` image.
pub fn caption(width: u64, height: u64) -> (r: String)
    ensures
        r@ == image_caption(width as nat, height as nat),
{
    let mut s = String::new();
    push_text(&mut s, "Image (");
    push_decimal(&mut s, width);
    push_text(&mut s, "x");
    push_decimal(&mut s, height);
    push_text(&mut s, ")");
    s
}

/// Repairs and encodes a raw RGBA8 buffer of a `width` × `height` image.
/// A buffer of the wrong length is `Malformed`, an image without pixels
/// (a zero side) cannot be encoded; any other image succeeds, and its payload
/// is the base64 text of the PNG of the repaired pixels.
pub fn normalize_image(width: usize, height: usize, bytes: Vec<u8>) -> (r: Result<NormalizedImage, ImageError>)
    ensures
        !well_sized(width as nat, height as nat, bytes@.len()) ==> r == Err::<NormalizedImage, ImageError>(ImageError::Malformed),
        well_sized(width as nat, height as nat, bytes@.len()) && (width == 0 || height == 0) ==> r
            == Err::<NormalizedImage, ImageError>(ImageError::Encoding),
        well_sized(width as nat, height as nat, bytes@.len()) && width > 0 && height > 0 ==> r is Ok,
        r is Ok ==> well_sized(width as nat, height as nat, bytes@.len()),
        r matches Ok(img) ==> img.caption@ == image_caption(width as nat, height as nat),
        r matches Ok(img) ==> img.payload@ == base64_of(png_of(width as u32, height as u32, alpha_repaired(bytes@))),
{
    if width > u32::MAX as usize || height > u32::MAX as usize {
        return Err(ImageError::Malformed);
    }
    let n = bytes.len();
    let size = match width.checked_mul(height) {
        Some(n) => n,
        None => {
            proof {
                assert(4 * width * height != n) by (nonlinear_arith)
                    requires width * height > usize::MAX, n <= usize::MAX;
            }
            return Err(ImageError::Malformed);
        },
    };
    let size = match size.checked_mul(4) {
        Some(n) => n,
        None => {
            proof {
                assert(4 * width * height != n) by (nonlinear_arith)
                    requires size == width * height, size * 4 > usize::MAX, n <= usize::MAX;
            }
            return Err(ImageError::Malformed);
        },
    };
    if size != bytes.len() {
        proof {
            assert(4 * width * height == size) by (nonlinear_arith)
                requires size == width * height * 4;
        }
        return Err(ImageError::Malformed);
    }
    proof {
        assert(4 * width * height == size) by (nonlinear_arith)
            requires size == width * height * 4;
    }
    let mut pixels = bytes;
    repair_alpha(&mut pixels);
    let png = match png_encode(width as u32, height as u32, pixels.as_slice()) {
        Some(p) => p,
        None => return Err(ImageError::Encoding),
    };
    let payload = base64_encode(png.as_slice());
    Ok(NormalizedImage { caption: caption(width as u64, height as u64), payload })
}

} // verus!
