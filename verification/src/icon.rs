//! The application icon: decoding the embedded icon bytes through the
//! image codec, with a verified solid-colour fallback when the bytes do
//! not decode.

use vstd::prelude::*;

verus! {

/// What the image codec decodes a byte buffer to: width, height, and
/// the RGBA samples. Named rather than spelled out: the decoding is a
/// function of the bytes alone, and far too large to state.
pub uninterp spec fn decoded_image_of(bytes: Seq<u8>) -> Option<(u32, u32, Seq<u8>)>;

/// Relies on image::load_from_memory and DynamicImage::to_rgba8: the
/// decoded picture depends on the bytes alone, and an RGBA buffer holds
/// exactly four samples per pixel.
#[verifier::external_body]
fn decode_image_rgba(bytes: &Vec<u8>) -> (r: Option<(u32, u32, Vec<u8>)>)
    ensures
        match r {
            Some(t) => decoded_image_of(bytes@) == Some((t.0, t.1, t.2@)) && t.2@.len() == 4 * t.0
                * t.1,
            None => decoded_image_of(bytes@) is None,
        },
{
    match image::load_from_memory(bytes.as_slice()) {
        Ok(img) => {
            let rgba = img.to_rgba8();
            let (w, h) = (rgba.width(), rgba.height());
            Some((w, h, rgba.into_raw()))
        },
        Err(_) => None,
    }
}

/// `n` opaque blue RGBA pixels.
pub open spec fn blue_pixels(n: nat) -> Seq<u8>
    decreases n,
{
    if n == 0 {
        Seq::empty()
    } else {
        blue_pixels((n - 1) as nat) + seq![0u8, 0u8, 255u8, 255u8]
    }
}

/// The side length of the fallback icon.
pub const FALLBACK_ICON_SIDE: u32 = 32;

/// Builds the fallback icon: a solid blue square.
fn fallback_icon() -> (r: Vec<u8>)
    ensures
        r@ == blue_pixels((FALLBACK_ICON_SIDE * FALLBACK_ICON_SIDE) as nat),
{
    let mut r: Vec<u8> = Vec::new();
    let n: u32 = FALLBACK_ICON_SIDE * FALLBACK_ICON_SIDE;
    let mut i: u32 = 0;
    while i < n
        invariant
            0 <= i <= n,
            r@ == blue_pixels(i as nat),
        decreases n - i,
    {
        r.push(0);
        r.push(0);
        r.push(255);
        r.push(255);
        proof {
            assert(r@ =~= blue_pixels((i + 1) as nat));
        }
        i = i + 1;
    }
    r
}

/// Loads the icon pixels from the embedded icon bytes: the decoded
/// picture when the bytes decode, and the solid blue fallback square
/// when they do not.
pub fn load_icon_pixels(bytes: &Vec<u8>) -> (r: (u32, u32, Vec<u8>))
    ensures
        match decoded_image_of(bytes@) {
            Some(t) => r.0 == t.0 && r.1 == t.1 && r.2@ == t.2 && r.2@.len() == 4 * t.0 * t.1,
            None => r.0 == FALLBACK_ICON_SIDE && r.1 == FALLBACK_ICON_SIDE && r.2@ == blue_pixels(
                (FALLBACK_ICON_SIDE * FALLBACK_ICON_SIDE) as nat,
            ),
        },
{
    match decode_image_rgba(bytes) {
        Some(decoded) => decoded,
        None => (FALLBACK_ICON_SIDE, FALLBACK_ICON_SIDE, fallback_icon()),
    }
}

} // verus!
