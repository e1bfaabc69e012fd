//! Ready-made image compositions.
//!
//! Small combinations of the engine's operations that the
//! presentation driver can show or write out: chroma/luma mixing
//! across two sources, luma mixed into random chroma, and a constant
//! color scaled by a brightness channel.

use vstd::prelude::*;

use crate::gamma::{srgb_decode, srgb_to_linear};
use crate::image::Image;
use crate::matrix::{rgb_to_xyz_spec, tx_pixel, xyz_to_rgb_spec};
use crate::pixel::{mul_spec, Pixel};
use crate::process::{mix_pixel, Processor};
use crate::texture::Texture;

verus! {

/// Takes the chroma coordinates of the first image and the luma of
/// the second, and returns to RGB space.
pub fn mix_chroma_luma(p: &mut Processor, tex1: &Image, tex2: &Image) -> (out: Image)
    requires
        old(p).wf(),
        tex1.ok_for(*old(p)),
        tex2.ok_for(*old(p)),
    ensures
        final(p).wf(),
        final(p).width == old(p).width,
        final(p).height == old(p).height,
        out.full_for(*old(p)),
        forall|i: int|
            0 <= i < out.texture.data.len() ==> out.texture.data[i] == tx_pixel(
                xyz_to_rgb_spec(),
                mix_pixel(
                    tx_pixel(rgb_to_xyz_spec(), tex1.px(i)),
                    tx_pixel(rgb_to_xyz_spec(), tex2.px(i)),
                    tx_pixel(rgb_to_xyz_spec(), tex1.px(i)),
                ),
            ),
{
    let chroma = tex1.rgb_to_xyz(p);
    let luma = tex2.rgb_to_xyz(p);
    let mixed = Image::channels(p, &chroma, &luma, &chroma);
    mixed.xyz_to_rgb(p)
}

/// One of the four luma-into-random mixes: the given channels of the
/// output come from the random chroma base `rt`, the others from the
/// luma of the source.
pub open spec fn luma_mix_ok(tex: Image, rt: Texture, t: Texture, from_luma: (
    bool,
    bool,
    bool,
)) -> bool {
    forall|i: int|
        0 <= i < t.data.len() ==> t.data[i] == tx_pixel(
            xyz_to_rgb_spec(),
            mix_pixel(
                (if from_luma.0 {
                    tx_pixel(rgb_to_xyz_spec(), tex.px(i))
                } else {
                    rt.data[i]
                }),
                (if from_luma.1 {
                    tx_pixel(rgb_to_xyz_spec(), tex.px(i))
                } else {
                    rt.data[i]
                }),
                (if from_luma.2 {
                    tx_pixel(rgb_to_xyz_spec(), tex.px(i))
                } else {
                    rt.data[i]
                }),
            ),
        )
}

/// The four mixes at once, sharing one random chroma base.
pub open spec fn luma_mixes_ok(tex: Image, rt: Texture, outs: Seq<Image>) -> bool {
    &&& outs.len() == 4
    &&& luma_mix_ok(tex, rt, *outs[0].texture, (false, false, true))
    &&& luma_mix_ok(tex, rt, *outs[1].texture, (true, false, false))
    &&& luma_mix_ok(tex, rt, *outs[2].texture, (false, true, false))
    &&& luma_mix_ok(tex, rt, *outs[3].texture, (true, false, true))
}

/// Mixes the luma of the source into one fresh random chroma base,
/// in each of four channel placements; the caller writes the four
/// results out.
pub fn luma_random_mixes(p: &mut Processor, tex: &Image) -> (outs: Vec<Image>)
    requires
        old(p).wf(),
        tex.ok_for(*old(p)),
    ensures
        final(p).wf(),
        final(p).width == old(p).width,
        final(p).height == old(p).height,
        outs.len() == 4,
        forall|k: int| 0 <= k < 4 ==> (#[trigger] outs[k]).full_for(*old(p)),
        exists|rt: Texture| #[trigger] luma_mixes_ok(*tex, rt, outs@),
{
    let base = Image::random(p);
    let random = base.rgb_to_xyz(p);
    let luma = tex.rgb_to_xyz(p);
    let v0 = Image::channels(p, &random, &random, &luma).xyz_to_rgb(p);
    let v1 = Image::channels(p, &luma, &random, &random).xyz_to_rgb(p);
    let v2 = Image::channels(p, &random, &luma, &random).xyz_to_rgb(p);
    let v3 = Image::channels(p, &luma, &random, &luma).xyz_to_rgb(p);
    let mut outs: Vec<Image> = Vec::new();
    outs.push(v0);
    outs.push(v1);
    outs.push(v2);
    outs.push(v3);
    proof {
        assert(luma_mixes_ok(*tex, *random.texture, outs@));
    }
    outs
}

/// A constant pink, scaled pixel by pixel by the brightness of the
/// source: the third CIE coordinate of its XYZ conversion.
pub fn pink_scale(p: &mut Processor, tex: &Image) -> (out: Image)
    requires
        old(p).wf(),
        tex.ok_for(*old(p)),
    ensures
        final(p).wf(),
        final(p).width == old(p).width,
        final(p).height == old(p).height,
        out.full_for(*old(p)),
        forall|i: int|
            0 <= i < out.texture.data.len() ==> out.texture.data[i] == mul_spec(
                (Pixel {
                    r: srgb_decode(255) as u64,
                    g: srgb_decode(145) as u64,
                    b: srgb_decode(175) as u64,
                }),
                (Pixel { r: 0, g: 0, b: tx_pixel(rgb_to_xyz_spec(), tex.px(i)).b }),
            ),
{
    let pink = Image::monochrome(
        p,
        srgb_to_linear(255),
        srgb_to_linear(145),
        srgb_to_linear(175),
    );
    let xyz = tex.rgb_to_xyz(p);
    let scale = xyz.z(p);
    Image::mul(p, &pink, &scale)
}

} // verus!
