use vstd::prelude::*;

use crate::color::Color;

verus! {

#[verifier::external_type_specification]
#[verifier::external_body]
pub struct ExImageError(image::ImageError);

/// Width, height and RGBA bytes (four per texel, row by row) of the image that the
/// given file bytes decode to; `None` when they do not decode.
pub uninterp spec fn decoded_rgba(bytes: Seq<u8>) -> Option<(u32, u32, Seq<u8>)>;

/// Relies on image::load_from_memory, which guesses the file format from the bytes
/// and decodes them, and on DynamicImage::to_rgba8 with ImageBuffer::into_raw, which
/// give the texels as a fresh buffer of four bytes per texel, row by row. Whether
/// decoding succeeds depends on the bytes alone: the format is guessed from the
/// leading bytes and decoded under the default limits.
#[verifier::external_body]
pub(crate) fn decode_rgba(bytes: &[u8]) -> (r: Result<(u32, u32, Vec<u8>), image::ImageError>)
    ensures
        r is Ok <==> decoded_rgba(bytes@) is Some,
        r matches Ok((w, h, data)) ==> decoded_rgba(bytes@) == Some((w, h, data@)) && data@.len()
            == 4 * w * h,
{
    let img = image::load_from_memory(bytes)?;
    let rgba = img.to_rgba8();
    Ok((rgba.width(), rgba.height(), rgba.into_raw()))
}

/// The texels that a buffer of RGBA bytes holds, four bytes each.
pub open spec fn rgba_pixels(data: Seq<u8>) -> Seq<Color> {
    Seq::new(
        data.len() / 4,
        |i: int| Color { r: data[4 * i], g: data[4 * i + 1], b: data[4 * i + 2], a: data[4 * i + 3] },
    )
}

/// Groups a buffer of RGBA bytes into texels.
pub fn pixels_from_rgba(data: &Vec<u8>) -> (r: Vec<Color>)
    ensures
        r@ == rgba_pixels(data@),
{
    let n = data.len() / 4;
    let mut out: Vec<Color> = Vec::new();
    let mut i: usize = 0;
    while i < n
        invariant
            n == data@.len() / 4,
            data@.len() <= usize::MAX,
            i <= n,
            out@.len() == i,
            forall|k: int| 0 <= k < i ==> #[trigger] out@[k] == rgba_pixels(data@)[k],
        decreases n - i,
    {
        proof {
            let len = data@.len() as int;
            vstd::arithmetic::div_mod::lemma_fundamental_div_mod(len, 4);
            vstd::arithmetic::div_mod::lemma_mod_bound(len, 4);
            assert(4 * i + 4 <= len);
        }
        out.push(Color::new(data[4 * i], data[4 * i + 1], data[4 * i + 2], data[4 * i + 3]));
        i = i + 1;
    }
    assert(out@ =~= rgba_pixels(data@));
    out
}

/// The RGBA bytes of a list of texels, four per texel.
pub open spec fn pixels_rgba(pixels: Seq<Color>) -> Seq<u8> {
    Seq::new(
        4 * pixels.len(),
        |i: int|
            {
                let c = pixels[i / 4];
                if i % 4 == 0 {
                    c.r
                } else if i % 4 == 1 {
                    c.g
                } else if i % 4 == 2 {
                    c.b
                } else {
                    c.a
                }
            },
    )
}

/// Lays out texels as RGBA bytes, four per texel, ready for an image encoder.
pub fn rgba_from_pixels(pixels: &Vec<Color>) -> (r: Vec<u8>)
    requires
        4 * pixels@.len() <= usize::MAX,
    ensures
        r@ == pixels_rgba(pixels@),
{
    let mut out: Vec<u8> = Vec::new();
    let mut i: usize = 0;
    while i < pixels.len()
        invariant
            4 * pixels@.len() <= usize::MAX,
            i <= pixels@.len(),
            out@.len() == 4 * i,
            forall|k: int| 0 <= k < 4 * i ==> #[trigger] out@[k] == pixels_rgba(pixels@)[k],
        decreases pixels@.len() - i,
    {
        let c = pixels[i];
        proof {
            crate::atlas::lemma_row_col(4 * i, 4, i as int, 0);
            crate::atlas::lemma_row_col(4 * i + 1, 4, i as int, 1);
            crate::atlas::lemma_row_col(4 * i + 2, 4, i as int, 2);
            crate::atlas::lemma_row_col(4 * i + 3, 4, i as int, 3);
        }
        out.push(c.r);
        out.push(c.g);
        out.push(c.b);
        out.push(c.a);
        i = i + 1;
    }
    assert(out@ =~= pixels_rgba(pixels@));
    out
}

} // verus!
