//! An image: a shared, immutable handle to a texture, with the pure
//! color and compositing operations of the engine.
//!
//! Every operation leaves its operands untouched and yields a brand
//! new image; the processor executes the pixel math and caches one
//! program per operation name.

use vstd::prelude::*;

use std::rc::Rc;

use crate::fixed::{CHANNEL_MAX, COEFF_MAX, ONE};
use crate::matrix::{
    lemma_permute_pixel, lemma_scale_pixel, permuted_pixel, rgb_to_xyz_spec, scaled_pixel,
    tx_pixel, valid_perm, xyz_to_rgb_spec, ColorMatrix,
};
use crate::pixel::{add_spec, diff_spec, mul_spec, Pixel};
use crate::process::{mix_pixel, shift_source, OpKind, Processor};
use crate::gamma::linear_to_srgb;
use crate::rng::random_below;
use crate::srgb::{lemma_flip_row_index_in_range, loaded_pixel, saved_byte, SrgbTexture};
use crate::texture::{texel, Texture};

verus! {

/// An immutable logical picture backed by a shared texture.
pub struct Image {
    pub texture: Rc<Texture>,
}

impl Image {
    /// The backing texture is well formed.
    pub open spec fn wf(self) -> bool {
        self.texture.wf()
    }

    /// The pixel an operation samples from this image at flat
    /// index `i`.
    pub open spec fn px(self, i: int) -> Pixel {
        texel(*self.texture, i)
    }

    /// The image can feed the processor's operations.
    pub open spec fn ok_for(self, p: Processor) -> bool {
        self.wf() && p.accepts(*self.texture)
    }

    /// The image is a freshly produced full-sized output of the
    /// processor.
    pub open spec fn full_for(self, p: Processor) -> bool {
        self.wf() && self.texture.width == p.width && self.texture.height == p.height
            && self.texture.data.len() == p.n_pixels()
    }

    /// Wraps a freshly produced texture.
    pub fn from_texture(t: Texture) -> (r: Image)
        ensures
            *r.texture == t,
    {
        Image { texture: Rc::new(t) }
    }

    /// A second handle to the same texture; the pixels are shared,
    /// not copied.
    pub fn share(&self) -> (r: Image)
        ensures
            *r.texture == *self.texture,
    {
        Image { texture: Rc::clone(&self.texture) }
    }

    /// Uploads a decoded image file — tightly packed 8-bit RGB rows,
    /// top row first — and linearizes it through the gamma curve.
    pub fn new(p: &mut Processor, bytes: &Vec<u8>) -> (r: Image)
        requires
            old(p).wf(),
            bytes.len() == 3 * old(p).width * old(p).height,
        ensures
            old(p).op_effect(*final(p), OpKind::Visualize),
            r.full_for(*old(p)),
            forall|i: int|
                0 <= i < r.texture.data.len() ==> r.texture.data[i] == loaded_pixel(
                    bytes@,
                    i,
                    old(p).width as int,
                    old(p).height as int,
                ),
    {
        let width = p.width;
        let height = p.height;
        proof {
            assert(3 * (width as int) * (height as int) == 3 * ((width as int) * (height as int)))
                by (nonlinear_arith);
        }
        let s = SrgbTexture::from_rows_reversed(width, height, bytes);
        let t = p.make_linear(&s);
        proof {
            assert forall|i: int| 0 <= i < t.data.len() implies t.data[i] == loaded_pixel(
                bytes@,
                i,
                width as int,
                height as int,
            ) by {
                assert(0 <= 3 * i && 3 * i + 2 < s.data.len());
            }
        }
        Image::from_texture(t)
    }

    /// Fills a full-sized texture with an independent uniform random
    /// value per channel per pixel, each below `ONE`.
    pub fn random(p: &Processor) -> (r: Image)
        requires
            p.wf(),
        ensures
            r.full_for(*p),
            forall|i: int|
                0 <= i < r.texture.data.len() ==> ((#[trigger] r.texture.data[i]).r < ONE
                    && r.texture.data[i].g < ONE && r.texture.data[i].b < ONE),
    {
        let n = (p.width as usize) * (p.height as usize);
        let mut data: Vec<Pixel> = Vec::new();
        for i in 0..n
            invariant
                data.len() == i,
                forall|j: int|
                    0 <= j < i ==> ((#[trigger] data[j]).r < ONE && data[j].g < ONE && data[j].b
                        < ONE),
        {
            let r = random_below(ONE);
            let g = random_below(ONE);
            let b = random_below(ONE);
            data.push(Pixel { r, g, b });
        }
        Image::from_texture(Texture { width: p.width, height: p.height, data })
    }

    /// A one-pixel texture of the given constant gray level; the
    /// sampler upscales it to any grid.
    pub fn grayscale(processor: &Processor, val: u64) -> (r: Image)
        requires
            val <= CHANNEL_MAX,
        ensures
            r.wf(),
            r.texture.width == 1,
            r.texture.height == 1,
            r.texture.data.len() == 1,
            r.texture.data[0] == (Pixel { r: val, g: val, b: val }),
    {
        Image::monochrome(processor, val, val, val)
    }

    /// A one-pixel texture of the given constant color.
    pub fn monochrome(processor: &Processor, r: u64, g: u64, b: u64) -> (out: Image)
        requires
            r <= CHANNEL_MAX,
            g <= CHANNEL_MAX,
            b <= CHANNEL_MAX,
        ensures
            out.wf(),
            out.texture.width == 1,
            out.texture.height == 1,
            out.texture.data.len() == 1,
            out.texture.data[0] == (Pixel { r, g, b }),
    {
        let data = vec![Pixel { r, g, b }];
        Image::from_texture(Texture { width: 1, height: 1, data })
    }

    /// Scales the three channels by independent fixed-point factors.
    pub fn scale(&self, p: &mut Processor, x: u64, y: u64, z: u64) -> (out: Image)
        requires
            old(p).wf(),
            self.ok_for(*old(p)),
            x <= COEFF_MAX as u64,
            y <= COEFF_MAX as u64,
            z <= COEFF_MAX as u64,
        ensures
            old(p).op_effect(*final(p), OpKind::Transform),
            out.full_for(*old(p)),
            forall|i: int|
                0 <= i < out.texture.data.len() ==> out.texture.data[i] == scaled_pixel(
                    x,
                    y,
                    z,
                    self.px(i),
                ),
    {
        let m = ColorMatrix::diagonal(x, y, z);
        let t = p.transform(&self.texture, &m);
        proof {
            assert forall|i: int| 0 <= i < t.data.len() implies t.data[i] == scaled_pixel(
                x,
                y,
                z,
                self.px(i),
            ) by {
                lemma_scale_pixel(m, x, y, z, self.px(i));
            }
        }
        Image::from_texture(t)
    }

    /// Scales all three channels by the same factor.
    pub fn uscale(&self, p: &mut Processor, s: u64) -> (out: Image)
        requires
            old(p).wf(),
            self.ok_for(*old(p)),
            s <= COEFF_MAX as u64,
        ensures
            old(p).op_effect(*final(p), OpKind::Transform),
            out.full_for(*old(p)),
            forall|i: int|
                0 <= i < out.texture.data.len() ==> out.texture.data[i] == scaled_pixel(
                    s,
                    s,
                    s,
                    self.px(i),
                ),
    {
        self.scale(p, s, s, s)
    }

    /// Isolates the red channel, zeroing the other two.
    pub fn r(&self, p: &mut Processor) -> (out: Image)
        requires
            old(p).wf(),
            self.ok_for(*old(p)),
        ensures
            old(p).op_effect(*final(p), OpKind::Transform),
            out.full_for(*old(p)),
            forall|i: int|
                0 <= i < out.texture.data.len() ==> out.texture.data[i] == (Pixel {
                    r: self.px(i).r,
                    g: 0,
                    b: 0,
                }),
    {
        let out = self.scale(p, ONE, 0, 0);
        proof {
            assert forall|i: int| 0 <= i < out.texture.data.len() implies out.texture.data[i] == (
            Pixel { r: self.px(i).r, g: 0, b: 0 }) by {
                lemma_unit_channel(self.px(i).r as int);
                lemma_zero_channel(self.px(i).g as int);
                lemma_zero_channel(self.px(i).b as int);
            }
        }
        out
    }

    /// Isolates the green channel, zeroing the other two.
    pub fn g(&self, p: &mut Processor) -> (out: Image)
        requires
            old(p).wf(),
            self.ok_for(*old(p)),
        ensures
            old(p).op_effect(*final(p), OpKind::Transform),
            out.full_for(*old(p)),
            forall|i: int|
                0 <= i < out.texture.data.len() ==> out.texture.data[i] == (Pixel {
                    r: 0,
                    g: self.px(i).g,
                    b: 0,
                }),
    {
        let out = self.scale(p, 0, ONE, 0);
        proof {
            assert forall|i: int| 0 <= i < out.texture.data.len() implies out.texture.data[i] == (
            Pixel { r: 0, g: self.px(i).g, b: 0 }) by {
                lemma_zero_channel(self.px(i).r as int);
                lemma_unit_channel(self.px(i).g as int);
                lemma_zero_channel(self.px(i).b as int);
            }
        }
        out
    }

    /// Isolates the blue channel, zeroing the other two.
    pub fn b(&self, p: &mut Processor) -> (out: Image)
        requires
            old(p).wf(),
            self.ok_for(*old(p)),
        ensures
            old(p).op_effect(*final(p), OpKind::Transform),
            out.full_for(*old(p)),
            forall|i: int|
                0 <= i < out.texture.data.len() ==> out.texture.data[i] == (Pixel {
                    r: 0,
                    g: 0,
                    b: self.px(i).b,
                }),
    {
        let out = self.scale(p, 0, 0, ONE);
        proof {
            assert forall|i: int| 0 <= i < out.texture.data.len() implies out.texture.data[i] == (
            Pixel { r: 0, g: 0, b: self.px(i).b }) by {
                lemma_zero_channel(self.px(i).r as int);
                lemma_zero_channel(self.px(i).g as int);
                lemma_unit_channel(self.px(i).b as int);
            }
        }
        out
    }

    /// The first CIE coordinate, once the image is in XYZ space;
    /// the same isolation as `r`.
    pub fn x(&self, p: &mut Processor) -> (out: Image)
        requires
            old(p).wf(),
            self.ok_for(*old(p)),
        ensures
            old(p).op_effect(*final(p), OpKind::Transform),
            out.full_for(*old(p)),
            forall|i: int|
                0 <= i < out.texture.data.len() ==> out.texture.data[i] == (Pixel {
                    r: self.px(i).r,
                    g: 0,
                    b: 0,
                }),
    {
        self.r(p)
    }

    /// The second CIE coordinate; the same isolation as `g`.
    pub fn y(&self, p: &mut Processor) -> (out: Image)
        requires
            old(p).wf(),
            self.ok_for(*old(p)),
        ensures
            old(p).op_effect(*final(p), OpKind::Transform),
            out.full_for(*old(p)),
            forall|i: int|
                0 <= i < out.texture.data.len() ==> out.texture.data[i] == (Pixel {
                    r: 0,
                    g: self.px(i).g,
                    b: 0,
                }),
    {
        self.g(p)
    }

    /// The third CIE coordinate; the same isolation as `b`.
    pub fn z(&self, p: &mut Processor) -> (out: Image)
        requires
            old(p).wf(),
            self.ok_for(*old(p)),
        ensures
            old(p).op_effect(*final(p), OpKind::Transform),
            out.full_for(*old(p)),
            forall|i: int|
                0 <= i < out.texture.data.len() ==> out.texture.data[i] == (Pixel {
                    r: 0,
                    g: 0,
                    b: self.px(i).b,
                }),
    {
        self.b(p)
    }

    /// Reorders the channels: input channel 0 lands in output channel
    /// `x`, 1 in `y` and 2 in `z`.
    pub fn permute(&self, p: &mut Processor, x: usize, y: usize, z: usize) -> (out: Image)
        requires
            old(p).wf(),
            self.ok_for(*old(p)),
            valid_perm(x as int, y as int, z as int),
        ensures
            old(p).op_effect(*final(p), OpKind::Transform),
            out.full_for(*old(p)),
            forall|i: int|
                0 <= i < out.texture.data.len() ==> out.texture.data[i] == permuted_pixel(
                    x as int,
                    y as int,
                    z as int,
                    self.px(i),
                ),
    {
        let m = ColorMatrix::permutation(x, y, z);
        let t = p.transform(&self.texture, &m);
        proof {
            assert forall|i: int| 0 <= i < t.data.len() implies t.data[i] == permuted_pixel(
                x as int,
                y as int,
                z as int,
                self.px(i),
            ) by {
                lemma_permute_pixel(m, x as int, y as int, z as int, self.px(i));
            }
        }
        Image::from_texture(t)
    }

    /// Converts linear RGB coordinates to CIE XYZ.
    pub fn rgb_to_xyz(&self, p: &mut Processor) -> (out: Image)
        requires
            old(p).wf(),
            self.ok_for(*old(p)),
        ensures
            old(p).op_effect(*final(p), OpKind::Transform),
            out.full_for(*old(p)),
            forall|i: int|
                0 <= i < out.texture.data.len() ==> out.texture.data[i] == tx_pixel(
                    rgb_to_xyz_spec(),
                    self.px(i),
                ),
    {
        let m = crate::matrix::rgb_to_xyz_matrix();
        Image::from_texture(p.transform(&self.texture, &m))
    }

    /// Converts CIE XYZ coordinates back to linear RGB.
    pub fn xyz_to_rgb(&self, p: &mut Processor) -> (out: Image)
        requires
            old(p).wf(),
            self.ok_for(*old(p)),
        ensures
            old(p).op_effect(*final(p), OpKind::Transform),
            out.full_for(*old(p)),
            forall|i: int|
                0 <= i < out.texture.data.len() ==> out.texture.data[i] == tx_pixel(
                    xyz_to_rgb_spec(),
                    self.px(i),
                ),
    {
        let m = crate::matrix::xyz_to_rgb_matrix();
        Image::from_texture(p.transform(&self.texture, &m))
    }

    /// Resamples with coordinates offset by the fractions `dx` and
    /// `dy` of the grid, wrapping at the edges.
    pub fn shift(&self, p: &mut Processor, dx: u64, dy: u64) -> (out: Image)
        requires
            old(p).wf(),
            self.ok_for(*old(p)),
            dx < ONE,
            dy < ONE,
        ensures
            old(p).op_effect(*final(p), OpKind::Shift),
            out.full_for(*old(p)),
            forall|i: int|
                0 <= i < out.texture.data.len() ==> out.texture.data[i] == self.px(
                    shift_source(
                        i % (old(p).width as int),
                        i / (old(p).width as int),
                        old(p).width as int,
                        old(p).height as int,
                        dx,
                        dy,
                    ),
                ),
    {
        Image::from_texture(p.shift(&self.texture, dx, dy))
    }

    /// Subtracts the second image from the first, pixel by pixel.
    pub fn diff(p: &mut Processor, i1: &Image, i2: &Image, use_abs: bool) -> (out: Image)
        requires
            old(p).wf(),
            i1.ok_for(*old(p)),
            i2.ok_for(*old(p)),
        ensures
            old(p).op_effect(*final(p), OpKind::Diff),
            out.full_for(*old(p)),
            forall|i: int|
                0 <= i < out.texture.data.len() ==> out.texture.data[i] == diff_spec(
                    i1.px(i),
                    i2.px(i),
                    use_abs,
                ),
    {
        Image::from_texture(p.diff(&i1.texture, &i2.texture, use_abs))
    }

    /// Adds two images pixel by pixel.
    pub fn add(p: &mut Processor, i1: &Image, i2: &Image) -> (out: Image)
        requires
            old(p).wf(),
            i1.ok_for(*old(p)),
            i2.ok_for(*old(p)),
        ensures
            old(p).op_effect(*final(p), OpKind::Add),
            out.full_for(*old(p)),
            forall|i: int|
                0 <= i < out.texture.data.len() ==> out.texture.data[i] == add_spec(
                    i1.px(i),
                    i2.px(i),
                ),
    {
        Image::from_texture(p.add(&i1.texture, &i2.texture))
    }

    /// Multiplies two images pixel by pixel.
    pub fn mul(p: &mut Processor, i1: &Image, i2: &Image) -> (out: Image)
        requires
            old(p).wf(),
            i1.ok_for(*old(p)),
            i2.ok_for(*old(p)),
        ensures
            old(p).op_effect(*final(p), OpKind::Mul),
            out.full_for(*old(p)),
            forall|i: int|
                0 <= i < out.texture.data.len() ==> out.texture.data[i] == mul_spec(
                    i1.px(i),
                    i2.px(i),
                ),
    {
        Image::from_texture(p.mul(&i1.texture, &i2.texture))
    }

    /// Recombines the red channel of one image, the green of a second
    /// and the blue of a third.
    pub fn channels(p: &mut Processor, r: &Image, g: &Image, b: &Image) -> (out: Image)
        requires
            old(p).wf(),
            r.ok_for(*old(p)),
            g.ok_for(*old(p)),
            b.ok_for(*old(p)),
        ensures
            old(p).op_effect(*final(p), OpKind::Channels),
            out.full_for(*old(p)),
            forall|i: int|
                0 <= i < out.texture.data.len() ==> out.texture.data[i] == mix_pixel(
                    r.px(i),
                    g.px(i),
                    b.px(i),
                ),
    {
        Image::from_texture(p.channels(&r.texture, &g.texture, &b.texture))
    }

    /// Reads the image back as gamma-encoded bytes, rows restored to
    /// top-down order, ready to hand to a file encoder.
    pub fn to_srgb_bytes(&self) -> (bytes: Vec<u8>)
        requires
            self.wf(),
            self.texture.width * self.texture.height <= 0x1000_0000,
        ensures
            bytes.len() == 3 * self.texture.width * self.texture.height,
            forall|i: int| 0 <= i < bytes.len() ==> bytes[i] == saved_byte(*self.texture, i),
    {
        let w: usize = self.texture.width as usize;
        let h: usize = self.texture.height as usize;
        proof {
            assert(3 * (w as int) * (h as int) == (3 * (w as int)) * (h as int)) by (
            nonlinear_arith);
            assert(w <= 0x1000_0000 && h <= 0x1000_0000) by (nonlinear_arith)
                requires
                    w >= 1,
                    h >= 1,
                    (w as int) * (h as int) <= 0x1000_0000,
            ;
            assert((3 * (w as int)) * (h as int) == 3 * ((w as int) * (h as int))) by (
            nonlinear_arith);
            assert((3 * (w as int)) * (h as int) <= 0x3000_0000);
        }
        let tw: usize = 3 * w;
        let n: usize = tw * h;
        let mut bytes: Vec<u8> = Vec::new();
        for i in 0..n
            invariant
                w == self.texture.width,
                h == self.texture.height,
                tw == 3 * w,
                n == tw * h,
                w >= 1,
                h >= 1,
                tw <= 0x3000_0000,
                h <= 0x1000_0000,
                n <= 0x3000_0000,
                self.wf(),
                self.texture.data.len() == (w as int) * (h as int),
                bytes.len() == i,
                forall|j: int| 0 <= j < i ==> bytes[j] == saved_byte(*self.texture, j),
        {
            let row = i / tw;
            let col = i % tw;
            proof {
                lemma_flip_row_index_in_range(i as int, tw as int, h as int);
            }
            let k = (h - 1 - row) * tw + col;
            proof {
                vstd::arithmetic::div_mod::lemma_fundamental_div_mod(k as int, 3);
                vstd::arithmetic::div_mod::lemma_mod_bound(k as int, 3);
                assert((k as int) / 3 < (w as int) * (h as int)) by (nonlinear_arith)
                    requires
                        (k as int) == 3 * ((k as int) / 3) + (k as int) % 3,
                        0 <= (k as int) % 3 < 3,
                        (k as int) < (3 * (w as int)) * (h as int),
                        3 * (w as int) * (h as int) == (3 * (w as int)) * (h as int),
                ;
            }
            let pix = self.texture.data[k / 3];
            let c = k % 3;
            let v: u64 = if c == 0 {
                pix.r
            } else if c == 1 {
                pix.g
            } else {
                pix.b
            };
            bytes.push(linear_to_srgb(v));
        }
        proof {
            assert((3 * (w as int)) * (h as int) == 3 * (w as int) * (h as int)) by (
            nonlinear_arith);
        }
        bytes
    }

    /// Synthesizes the frame that presents this image; the caller
    /// hands it to the device surface.
    pub fn visualize(&self, p: &mut Processor) -> (frame: Texture)
        requires
            old(p).wf(),
            self.ok_for(*old(p)),
        ensures
            old(p).op_effect(*final(p), OpKind::Visualize),
            old(p).full_output(frame),
            frame.data.len() == old(p).n_pixels(),
            forall|i: int| 0 <= i < frame.data.len() ==> frame.data[i] == self.px(i),
    {
        p.visualize(&self.texture)
    }
}

/// Zero stays zero under the rescaling of a channel product.
proof fn lemma_zero_channel(v: int)
    ensures
        (0 * v) / (ONE as int) == 0,
{
    assert(0 * v == 0) by (nonlinear_arith);
}

/// Scaling one channel by `ONE` reproduces it.
proof fn lemma_unit_channel(v: int)
    requires
        0 <= v <= CHANNEL_MAX,
    ensures
        ((ONE as int) * v) / (ONE as int) == v,
{
    vstd::arithmetic::div_mod::lemma_div_multiples_vanish(v, ONE as int);
}

} // verus!
